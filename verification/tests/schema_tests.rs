use graceful_dumper::cache::{CachedType, TypeCache, TypeShape};
use graceful_dumper::proto::ProtoItem;
use graceful_dumper::schema::{
    build_proto_file, can_build, class_ok, found_field_ok, lookup_found, ClassField, ConstantField, FoundField, FoundMessage, FoundOneof,
    ProtoClass, HOLLOW_CLASS,
};

const INT32: usize = 0x100;
const STRING: usize = 0x200;
const ENUM: usize = 0x300;

fn cache() -> TypeCache {
    TypeCache::init(&[(INT32, CachedType::Int32), (STRING, CachedType::String), (ENUM, CachedType::Enum)])
}

fn ty(class: usize, name: &str, parent: Option<usize>) -> TypeShape {
    TypeShape { class, name: name.to_string(), parent, generic_args: vec![] }
}

fn constant(name: &str, is_instance: bool, value: usize) -> ConstantField {
    ConstantField { name: name.to_string(), is_instance, value }
}

fn cf(name: &str, token: u32, offset: u32, is_instance: bool, static_value: usize, field_type: TypeShape, type_fields: Vec<ConstantField>) -> ClassField {
    ClassField { name: name.to_string(), token, offset, is_instance, static_value, field_type, type_fields }
}

fn login_class() -> ProtoClass {
    ProtoClass {
        name: "LoginReq".to_string(),
        token: 0x2000010,
        parent: Some(0x777),
        fields: vec![
            cf("Parser", 0x4000001, 0, false, 0, ty(0x888, "MessageParser", None), vec![]),
            cf("token_", 0x4000003, 16, true, 0, ty(STRING, "String", None), vec![]),
            cf("level_", 0x4000002, 24, true, 0, ty(INT32, "Int32", None), vec![]),
            cf("payload_", 0x4000004, 32, true, 0, ty(0x999, "Object", None), vec![]),
            cf(
                "payloadCase_",
                0x4000005,
                40,
                true,
                0,
                ty(0xAAA, "PayloadOneofCase", Some(ENUM)),
                vec![
                    constant("value__", true, 0),
                    constant("None", false, 0),
                    constant("Text", false, 7),
                    constant("Number", false, 0x1_0000_0008),
                ],
            ),
        ],
    }
}

fn login_found(cmd_id: u16) -> FoundMessage {
    FoundMessage {
        token: 0x2000010,
        cmd_id,
        fields: vec![
            FoundField { tag: 8, xor: 0x55, offset: 24, oneof: None },
            FoundField { tag: 18, xor: 0, offset: 16, oneof: None },
            FoundField {
                tag: 58,
                xor: 0,
                offset: 32,
                oneof: Some(FoundOneof { oneof_enum_offset: 40, variant: ty(STRING, "String", None) }),
            },
            FoundField {
                tag: 64,
                xor: 0,
                offset: 32,
                oneof: Some(FoundOneof { oneof_enum_offset: 40, variant: ty(INT32, "Int32", None) }),
            },
        ],
    }
}

fn color_class() -> ProtoClass {
    ProtoClass {
        name: "Color".to_string(),
        token: 0x2000020,
        parent: Some(ENUM),
        fields: vec![
            cf("value__", 0x4000010, 16, true, 0, ty(INT32, "Int32", None), vec![]),
            cf("Red", 0x4000011, 0, false, 1, ty(0x2000, "Color", Some(ENUM)), vec![]),
            cf("None", 0x4000012, 0, false, 0, ty(0x2000, "Color", Some(ENUM)), vec![]),
            cf("Blue", 0x4000013, 0, false, 2, ty(0x2000, "Color", Some(ENUM)), vec![]),
        ],
    }
}

#[test]
fn later_probing_result_wins() {
    let found = vec![login_found(1), login_found(2)];
    assert_eq!(lookup_found(&found, 0x2000010), Some(1));
    assert_eq!(lookup_found(&found, 0x1), None);
}

#[test]
fn builds_messages_and_enums() {
    let hollow = ProtoClass { name: HOLLOW_CLASS.to_string(), token: 0x2000001, parent: Some(ENUM), fields: vec![] };
    let plain = ProtoClass { name: "Helper".to_string(), token: 0x2000002, parent: Some(0x777), fields: vec![] };
    let classes = vec![hollow, login_class(), plain, color_class()];
    let mut found = vec![login_found(1), login_found(101)];
    found.push(FoundMessage { token: 0x2000001, cmd_id: 5, fields: vec![] });
    let file = build_proto_file(&classes, &found, &cache());
    assert_eq!(file.items.len(), 2);
    assert!(matches!(file.items[0], ProtoItem::Message(_)));
    assert!(matches!(file.items[1], ProtoItem::Enum(_)));
    let expected = [
        "syntax = \"proto3\";\n",
        "import \"google/protobuf/any.proto\";\n",
        "\n",
        "message LoginReq { // CmdID: 101\n",
        "  int32 level_ = 1; // offset: 24, xor const: 85\n",
        "  string token_ = 2; // offset: 16, xor const: 0\n",
        "  oneof payload_ {\n",
        "    string Text = 7;\n",
        "    int32 Number = 8;\n",
        "  }\n",
        "}\n\n",
        "enum Color {\n",
        "  Color_None = 0;\n",
        "  Color_Red = 1;\n",
        "  Color_Blue = 2;\n",
        "}\n\n",
    ]
    .concat();
    assert_eq!(file.to_text(), expected);
}

#[test]
fn fields_with_equal_tokens_keep_their_order() {
    let class = ProtoClass {
        name: "M".to_string(),
        token: 9,
        parent: None,
        fields: vec![
            cf("a", 5, 16, true, 0, ty(INT32, "Int32", None), vec![]),
            cf("b", 5, 24, true, 0, ty(INT32, "Int32", None), vec![]),
            cf("c", 1, 32, true, 0, ty(INT32, "Int32", None), vec![]),
        ],
    };
    let found = vec![FoundMessage {
        token: 9,
        cmd_id: 0,
        fields: vec![
            FoundField { tag: 8, xor: 0, offset: 16, oneof: None },
            FoundField { tag: 16, xor: 0, offset: 24, oneof: None },
            FoundField { tag: 24, xor: 0, offset: 32, oneof: None },
        ],
    }];
    let file = build_proto_file(&[class], &found, &cache());
    match &file.items[0] {
        ProtoItem::Message(m) => {
            let names: Vec<&str> = m.fields.iter().map(|f| f.name.as_str()).collect();
            assert_eq!(names, vec!["c", "a", "b"]);
        }
        _ => panic!("a message"),
    }
}

#[test]
fn buildable_classes_are_accepted() {
    let c = cache();
    let classes = vec![login_class(), color_class()];
    let found = vec![login_found(7)];
    assert!(can_build(&classes, &found, &c));
    assert!(class_ok(&login_class(), &found, &c));
}

#[test]
fn missing_storage_field_is_refused() {
    let c = cache();
    let mut found = login_found(7);
    found.fields.push(FoundField { tag: 72, xor: 0, offset: 48, oneof: None });
    assert!(!found_field_ok(&login_class(), &found.fields[4], &c));
    assert!(!can_build(&[login_class()], &[found], &c));
}

#[test]
fn missing_oneof_case_is_refused() {
    let c = cache();
    let alternative = FoundField {
        tag: 80,
        xor: 0,
        offset: 32,
        oneof: Some(FoundOneof { oneof_enum_offset: 40, variant: ty(STRING, "String", None) }),
    };
    assert!(!found_field_ok(&login_class(), &alternative, &c));
    let known = FoundField {
        tag: 58,
        xor: 0,
        offset: 32,
        oneof: Some(FoundOneof { oneof_enum_offset: 40, variant: ty(STRING, "String", None) }),
    };
    assert!(found_field_ok(&login_class(), &known, &c));
}

#[test]
fn hollow_and_unprobed_classes_are_accepted() {
    let c = cache();
    let mut hollow = login_class();
    hollow.name = HOLLOW_CLASS.to_string();
    let mut found = login_found(7);
    found.fields.push(FoundField { tag: 72, xor: 0, offset: 48, oneof: None });
    assert!(class_ok(&hollow, &[found], &c));
    assert!(class_ok(&login_class(), &[], &c));
}
