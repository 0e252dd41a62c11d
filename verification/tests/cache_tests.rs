use graceful_dumper::cache::{
    core_classes, csharp_type_to_protobuf_type, is_enum_type, is_mappable, CachedType, TypeCache, TypeShape,
    ValueKind, BYTE_STRING, PROTOBUF_ANY,
};

const INT32: usize = 0x100;
const STRING: usize = 0x200;
const ENUM: usize = 0x300;
const BOOL: usize = 0x400;
const OBJECT: usize = 0x500;
const INT16: usize = 0x600;

fn cache() -> TypeCache {
    TypeCache::init(&[
        (INT32, CachedType::Int32),
        (STRING, CachedType::String),
        (ENUM, CachedType::Enum),
        (BOOL, CachedType::Boolean),
        (OBJECT, CachedType::Object),
        (INT16, CachedType::Int16),
    ])
}

fn shape(class: usize, name: &str, parent: Option<usize>, args: Vec<TypeShape>) -> TypeShape {
    TypeShape { class, name: name.to_string(), parent, generic_args: args }
}

#[test]
fn core_classes_in_lookup_order() {
    let c = core_classes();
    assert_eq!(c.len(), 16);
    assert_eq!((c[0].namespace, c[0].name), ("System", "Object"));
    assert!(c[0].kind == CachedType::Object);
    assert_eq!(c[13].name, "Enum");
    assert!(c[13].kind == CachedType::Enum);
    assert_eq!((c[14].assembly, c[14].name), ("Protobuf.dll", BYTE_STRING));
    assert_eq!((c[15].assembly, c[15].name), ("Protobuf.dll", PROTOBUF_ANY));
    assert!(c[15].kind == CachedType::Any);
}

#[test]
fn later_entry_wins_in_cache() {
    let cache = TypeCache::init(&[(1, CachedType::Int32), (1, CachedType::Int64)]);
    assert!(cache.lookup(1) == Some(CachedType::Int64));
    assert!(cache.lookup(2).is_none());
}

#[test]
fn scalar_and_class_types() {
    let c = cache();
    assert_eq!(csharp_type_to_protobuf_type(&c, &shape(INT32, "Int32", None, vec![])), "int32");
    assert_eq!(csharp_type_to_protobuf_type(&c, &shape(STRING, "String", None, vec![])), "string");
    assert_eq!(csharp_type_to_protobuf_type(&c, &shape(BOOL, "Boolean", None, vec![])), "bool");
    assert_eq!(csharp_type_to_protobuf_type(&c, &shape(0x999, "PlayerInfo", None, vec![])), "PlayerInfo");
}

#[test]
fn repeated_and_map_types() {
    let c = cache();
    let list = shape(0x1000, "RepeatedField`1", None, vec![shape(INT32, "Int32", None, vec![])]);
    assert_eq!(csharp_type_to_protobuf_type(&c, &list), "repeated int32");
    let map = shape(
        0x1001,
        "MapField`2",
        None,
        vec![shape(STRING, "String", None, vec![]), shape(0x999, "Item", None, vec![])],
    );
    assert_eq!(csharp_type_to_protobuf_type(&c, &map), "map<string, Item>");
    let three = shape(0x1002, "Tuple`3", None, vec![
        shape(INT32, "Int32", None, vec![]),
        shape(INT32, "Int32", None, vec![]),
        shape(INT32, "Int32", None, vec![]),
    ]);
    assert_eq!(csharp_type_to_protobuf_type(&c, &three), "Tuple`3");
}

#[test]
fn enum_detection() {
    let c = cache();
    let color = shape(0x2000, "Color", Some(ENUM), vec![]);
    assert!(is_enum_type(&c, &color));
    assert!(!is_enum_type(&c, &shape(0x2001, "Item", Some(OBJECT), vec![])));
    assert!(!is_enum_type(&c, &shape(0x2002, "Root", None, vec![])));
    let list = shape(0x1000, "RepeatedField`1", None, vec![shape(0x2000, "Color", Some(ENUM), vec![])]);
    assert!(is_enum_type(&c, &list));
    let map_to_enum = shape(0x1001, "MapField`2", None, vec![
        shape(INT32, "Int32", None, vec![]),
        shape(0x2000, "Color", Some(ENUM), vec![]),
    ]);
    assert!(is_enum_type(&c, &map_to_enum));
    let map_from_enum = shape(0x1001, "MapField`2", None, vec![
        shape(0x2000, "Color", Some(ENUM), vec![]),
        shape(INT32, "Int32", None, vec![]),
    ]);
    assert!(!is_enum_type(&c, &map_from_enum));
}

#[test]
fn value_kinds() {
    let c = cache();
    assert!(c.value_kind(&shape(BOOL, "Boolean", None, vec![])) == ValueKind::Byte);
    assert!(c.value_kind(&shape(INT16, "Int16", None, vec![])) == ValueKind::Half);
    assert!(c.value_kind(&shape(INT32, "Int32", None, vec![])) == ValueKind::Word);
    assert!(c.value_kind(&shape(STRING, "String", None, vec![])) == ValueKind::Pointer);
    assert!(c.value_kind(&shape(OBJECT, "Object", None, vec![])) == ValueKind::Pointer);
    let list = shape(0x1000, "RepeatedField`1", None, vec![shape(INT32, "Int32", None, vec![])]);
    assert!(c.value_kind(&list) == ValueKind::CollectionCount);
    assert!(c.value_kind(&shape(0x2000, "Color", Some(ENUM), vec![])) == ValueKind::Word);
    assert!(c.value_kind(&shape(0x2001, "Item", Some(OBJECT), vec![])) == ValueKind::Pointer);
}

#[test]
fn mappable_types() {
    let c = cache();
    assert!(is_mappable(&c, &shape(INT32, "Int32", None, vec![])));
    assert!(is_mappable(&c, &shape(0x9000, "Payload", None, vec![])));
    assert!(!is_mappable(&c, &shape(INT16, "Int16", None, vec![])));
    assert!(!is_mappable(&c, &shape(OBJECT, "Object", None, vec![])));
    let list_of_short = shape(0x9100, "RepeatedField`1", None, vec![shape(INT16, "Int16", None, vec![])]);
    assert!(!is_mappable(&c, &list_of_short));
    let map = shape(
        0x9200,
        "MapField`2",
        None,
        vec![shape(STRING, "String", None, vec![]), shape(BOOL, "Boolean", None, vec![])],
    );
    assert!(is_mappable(&c, &map));
    let bad_map = shape(
        0x9200,
        "MapField`2",
        None,
        vec![shape(STRING, "String", None, vec![]), shape(ENUM, "Enum", None, vec![])],
    );
    assert!(!is_mappable(&c, &bad_map));
}

#[test]
fn core_class_names_match_their_kinds() {
    let c = core_classes();
    let expected = [
        ("Object", CachedType::Object),
        ("Boolean", CachedType::Boolean),
        ("Byte", CachedType::Byte),
        ("SByte", CachedType::SByte),
        ("UInt16", CachedType::UInt16),
        ("Int16", CachedType::Int16),
        ("UInt32", CachedType::UInt32),
        ("Int32", CachedType::Int32),
        ("UInt64", CachedType::UInt64),
        ("Int64", CachedType::Int64),
        ("Single", CachedType::Single),
        ("Double", CachedType::Double),
        ("String", CachedType::String),
        ("Enum", CachedType::Enum),
    ];
    for (i, (name, kind)) in expected.iter().enumerate() {
        assert_eq!((c[i].assembly, c[i].namespace, c[i].name), ("mscorlib.dll", "System", *name));
        assert!(c[i].kind == *kind);
    }
    assert_eq!(c[14].namespace, "");
    assert_eq!(c[15].namespace, "");
}
