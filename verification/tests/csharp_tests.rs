use graceful_dumper::csharp::{
    literal_kind, prepend_field_modifiers, prepend_method_modifiers, write_assemblies_list,
    write_class_field, write_class_method, ClassDump, FieldDump, FieldLiteral, LiteralKind,
    MethodDump,
};

fn field_mods(attrs: u32) -> String {
    let mut out = String::new();
    prepend_field_modifiers(&mut out, attrs);
    out
}

fn method_mods(attrs: u32) -> String {
    let mut out = String::new();
    prepend_method_modifiers(&mut out, attrs);
    out
}

#[test]
fn field_access_keywords() {
    assert_eq!(field_mods(0x0006), "public ");
    assert_eq!(field_mods(0x0001), "private ");
    assert_eq!(field_mods(0x0004), "protected ");
    assert_eq!(field_mods(0x0003), "internal ");
    assert_eq!(field_mods(0x0002), "internal ");
    assert_eq!(field_mods(0x0005), "protected internal ");
    assert_eq!(field_mods(0x0000), "");
    assert_eq!(field_mods(0x0007), "");
}

#[test]
fn field_storage_keywords() {
    assert_eq!(field_mods(0x0001 | 0x0010), "private static ");
    assert_eq!(field_mods(0x0004 | 0x0040 | 0x0010), "protected const ");
    assert_eq!(field_mods(0x0003 | 0x0020), "internal readonly ");
    assert_eq!(field_mods(0x0006 | 0x0010 | 0x0020), "public static readonly ");
}

#[test]
fn method_keywords() {
    assert_eq!(method_mods(0x0006 | 0x0010), "public static ");
    assert_eq!(method_mods(0x0006 | 0x0400), "public abstract override ");
    assert_eq!(method_mods(0x0006 | 0x0400 | 0x0100), "public abstract ");
    assert_eq!(method_mods(0x0001 | 0x0020), "private sealed override ");
    assert_eq!(method_mods(0x0001 | 0x0020 | 0x0100), "private ");
    assert_eq!(method_mods(0x0006 | 0x0040 | 0x0100), "public virtual ");
    assert_eq!(method_mods(0x0006 | 0x0040), "public override ");
    assert_eq!(method_mods(0x0006 | 0x0010 | 0x2000), "public static extern ");
    assert_eq!(method_mods(0x0004 | 0x0020 | 0x0040), "protected sealed override ");
    assert_eq!(method_mods(0x0000), "");
}

fn field_dump(attrs: u32, literal: Option<FieldLiteral>) -> FieldDump {
    FieldDump {
        field_type: "int".to_string(),
        name: "count".to_string(),
        attrs,
        literal,
        offset: 0x10,
        token: 0x4000001,
    }
}

fn field_line(f: &FieldDump) -> String {
    let mut out = String::new();
    write_class_field(&mut out, f);
    out
}

#[test]
fn plain_field_line() {
    assert_eq!(
        field_line(&field_dump(0x0006, None)),
        "    public int count; // Offset: 0x10, Token: 0x4000001\n"
    );
}

#[test]
fn constant_field_lines() {
    let attrs = 0x0006 | 0x0010 | 0x0040;
    assert_eq!(
        field_line(&field_dump(attrs, Some(FieldLiteral::Integer(100)))),
        "    public const int count = 100; // Offset: 0x10, Token: 0x4000001\n"
    );
    assert_eq!(
        field_line(&field_dump(attrs, Some(FieldLiteral::Char(65)))),
        "    public const int count = 'A'; // Offset: 0x10, Token: 0x4000001\n"
    );
    assert_eq!(
        field_line(&field_dump(attrs, Some(FieldLiteral::Quoted("hi".to_string())))),
        "    public const int count = \"hi\"; // Offset: 0x10, Token: 0x4000001\n"
    );
    assert_eq!(
        field_line(&field_dump(attrs, Some(FieldLiteral::Verbatim("1.5".to_string())))),
        "    public const int count = 1.5; // Offset: 0x10, Token: 0x4000001\n"
    );
}

#[test]
fn literal_value_needs_the_literal_flag() {
    assert_eq!(
        field_line(&field_dump(0x0006, Some(FieldLiteral::Integer(7)))),
        "    public int count; // Offset: 0x10, Token: 0x4000001\n"
    );
}

#[test]
fn literal_kinds_by_type_code() {
    assert!(matches!(literal_kind(0x3), LiteralKind::Char));
    assert!(matches!(literal_kind(0xC), LiteralKind::Single));
    assert!(matches!(literal_kind(0xD), LiteralKind::Double));
    assert!(matches!(literal_kind(0xE), LiteralKind::String));
    assert!(matches!(literal_kind(0x8), LiteralKind::Integer));
}

fn method(address: usize, args: Vec<(&str, &str)>) -> MethodDump {
    MethodDump {
        address,
        image_base: 0x1_8000_0000,
        attrs: 0x0006,
        return_type: "void".to_string(),
        name: "Update".to_string(),
        args: args.into_iter().map(|(t, n)| (t.to_string(), n.to_string())).collect(),
    }
}

fn method_text(m: &MethodDump) -> String {
    let mut out = String::new();
    write_class_method(&mut out, m);
    out
}

#[test]
fn method_declarations() {
    assert_eq!(
        method_text(&method(0x1_8000_1000, vec![])),
        "    // RVA: 0x1000\n    public void Update() {}\n\n"
    );
    assert_eq!(
        method_text(&method(0x1_8000_ABCD, vec![("int", "a"), ("string", "b")])),
        "    // RVA: 0xABCD\n    public void Update(int a, string b) {}\n\n"
    );
    assert_eq!(method_text(&method(0, vec![("int", "a")])), "    // RVA: 0x0\n    public void Update(int a) {}\n\n");
}

#[test]
fn class_declaration_with_parent_and_interfaces() {
    let class = ClassDump {
        image_name: "Assembly-CSharp.dll".to_string(),
        namespace: "Game".to_string(),
        class_type: "Game.Player".to_string(),
        parent: Some("UnityEngine.MonoBehaviour".to_string()),
        interfaces: vec!["IFoo".to_string(), "IBar".to_string()],
        token: 0x2000005,
        fields: vec![field_dump(0x0001, None)],
        methods: vec![method(0x1_8000_0010, vec![])],
    };
    let mut out = String::new();
    class.write_text(&mut out);
    assert_eq!(
        out,
        [
            "// Assembly: Assembly-CSharp.dll, Namespace: Game\n",
            "class Game.Player : UnityEngine.MonoBehaviour, IFoo, IBar { // Token: 0x2000005\n",
            "    private int count; // Offset: 0x10, Token: 0x4000001\n",
            "\n",
            "    // RVA: 0x10\n    public void Update() {}\n\n",
            "}\n\n",
        ]
        .concat()
    );
}

#[test]
fn class_declaration_without_parent() {
    let class = ClassDump {
        image_name: "a.dll".to_string(),
        namespace: "".to_string(),
        class_type: "IThing".to_string(),
        parent: None,
        interfaces: vec!["IFoo".to_string(), "IBar".to_string()],
        token: 0xFF,
        fields: vec![],
        methods: vec![],
    };
    let mut out = String::new();
    class.write_text(&mut out);
    assert_eq!(out, "// Assembly: a.dll, Namespace: \nclass IThing : IFoo, IBar { // Token: 0xFF\n\n}\n\n");
}

#[test]
fn assemblies_list() {
    let mut out = String::new();
    write_assemblies_list(&mut out, &vec![("mscorlib.dll".to_string(), 3000), ("Game.dll".to_string(), 5)]);
    assert_eq!(out, "// Assembly mscorlib.dll, class count: 3000\n// Assembly Game.dll, class count: 5\n\n");
}
