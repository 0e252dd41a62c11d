use graceful_dumper::proto::{Enum, Field, FieldComment, Message, Oneof, ProtoFile, ProtoItem};

fn field(kind: &str, name: &str, number: u32, comment: Option<(u32, u32)>, is_enum: bool) -> Field {
    Field {
        kind: kind.to_string(),
        name: name.to_string(),
        number,
        comment: comment.map(|(offset, xor_const)| FieldComment { offset, xor_const }),
        is_enum,
    }
}

fn sample_file() -> ProtoFile {
    ProtoFile {
        syntax: "proto3".to_string(),
        imports: vec!["google/protobuf/any.proto".to_string()],
        items: vec![
            ProtoItem::Message(Message {
                cmd_id: 1234,
                name: "PlayerLoginReq".to_string(),
                fields: vec![
                    field("string", "token", 1, Some((16, 0)), false),
                    field("repeated uint32", "ids", 3, Some((24, 77)), false),
                ],
                oneofs: vec![Oneof {
                    name: "payload".to_string(),
                    fields: vec![field("Foo", "foo", 5, None, true)],
                }],
            }),
            ProtoItem::Enum(Enum {
                name: "Color".to_string(),
                variants: vec![("Color_None".to_string(), 0), ("Color_Red".to_string(), -1)],
            }),
            ProtoItem::Message(Message {
                cmd_id: 0,
                name: "Empty".to_string(),
                fields: vec![],
                oneofs: vec![],
            }),
        ],
    }
}

#[test]
fn proto_text_of_sample() {
    let expected = "syntax = \"proto3\";\n\
import \"google/protobuf/any.proto\";\n\
\n\
message PlayerLoginReq { // CmdID: 1234\n  string token = 1; // offset: 16, xor const: 0\n  repeated uint32 ids = 3; // offset: 24, xor const: 77\n  oneof payload {\n    Foo foo = 5;\n  }\n}\n\n\
enum Color {\n  Color_None = 0;\n  Color_Red = -1;\n}\n\n\
message Empty {\n}\n\n";
    assert_eq!(sample_file().to_text(), expected);
}

#[test]
fn proto_json_of_sample() {
    let expected = r#"[{"name":"PlayerLoginReq","cmd_id":1234,"fields":[{"number":1,"name":"token","type":"string","repeated":false,"is_native_type":true,"is_enum":false,"xor_value":0},{"number":3,"name":"ids","type":"uint32","repeated":true,"is_native_type":true,"is_enum":false,"xor_value":77},{"number":5,"name":"foo","type":"Foo","repeated":false,"is_native_type":false,"is_enum":true,"xor_value":null}]},{"name":"Empty","cmd_id":null,"fields":[]}]"#;
    let mut out = String::new();
    sample_file().write_json(&mut out);
    assert_eq!(out, expected);
}

#[test]
fn proto_json_without_messages_is_empty_array() {
    let file = ProtoFile {
        syntax: "proto3".to_string(),
        imports: vec![],
        items: vec![ProtoItem::Enum(Enum { name: "E".to_string(), variants: vec![] })],
    };
    let mut out = String::new();
    file.write_json(&mut out);
    assert_eq!(out, "[]");
}

#[test]
fn proto_json_escapes_names() {
    let file = ProtoFile {
        syntax: "proto3".to_string(),
        imports: vec![],
        items: vec![ProtoItem::Message(Message {
            cmd_id: 7,
            name: "A\"B".to_string(),
            fields: vec![field("map<int32, string>", "x\\y", 2, Some((8, 1)), false)],
            oneofs: vec![],
        })],
    };
    let mut out = String::new();
    file.write_json(&mut out);
    assert_eq!(
        out,
        r#"[{"name":"A\"B","cmd_id":7,"fields":[{"number":2,"name":"x\\y","type":"map<int32, string>","repeated":false,"is_native_type":false,"is_enum":false,"xor_value":1}]}]"#
    );
}

#[test]
fn field_lines() {
    let mut out = String::new();
    field("int64", "count", 12, None, false).write_line(&mut out);
    assert_eq!(out, "  int64 count = 12;\n");
    let mut out = String::new();
    field("int64", "count", 12, None, false).write_oneof_line(&mut out);
    assert_eq!(out, "    int64 count = 12;\n");
}

#[test]
fn enum_text_with_extreme_values() {
    let e = Enum {
        name: "Big".to_string(),
        variants: vec![("Big_Min".to_string(), i32::MIN), ("Big_Max".to_string(), i32::MAX)],
    };
    let mut out = String::new();
    e.write_text(&mut out);
    assert_eq!(out, "enum Big {\n  Big_Min = -2147483648;\n  Big_Max = 2147483647;\n}\n\n");
}
