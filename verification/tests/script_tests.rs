use graceful_dumper::script::{MethodRefSymbol, MethodSymbol, ScriptSymbols};

#[test]
fn symbol_file() {
    let symbols = ScriptSymbols {
        image_base: 0x1000,
        string_literals: vec![(0x1010, "hi \"you\"".to_string()), (0x1020, String::new()), (0x1030, "x".to_string())],
        type_infos: vec![(0x1100, "Game.Player".to_string())],
        methods: vec![
            MethodSymbol { address: 0x1200, class_type: "Game.Player".to_string(), name: "Update".to_string() },
            MethodSymbol { address: 0x1210, class_type: "Game.Player".to_string(), name: ".ctor".to_string() },
        ],
        method_refs: vec![MethodRefSymbol {
            address: 0x1300,
            class_type: "Game.Player".to_string(),
            name: "Update".to_string(),
            method_address: 0x1200,
        }],
    };
    let mut out = String::new();
    symbols.write_to_file(&mut out);
    let expected = [
        r#"{"ScriptString": [{"Address":16,"Value":"hi \"you\""}, {"Address":48,"Value":"x"}], "#,
        r#""ScriptMetadata": [{"Address":256, "Name": "Game.Player_TypeInfo", "Signature": "Game.Player_c*"}], "#,
        r#""ScriptMethod": [{"Address":512, "Name": "Game.Player$$Update", "Signature": "", "TypeSignature": ""}, {"Address":528, "Name": "Game.Player$$.ctor", "Signature": "", "TypeSignature": ""}], "#,
        r#""ScriptMetadataMethod": [{"Address":768, "Name": "Game.Player_Update", "MethodAddress": 512}]}"#,
    ]
    .join("");
    assert_eq!(out, expected);
}

#[test]
fn empty_symbol_file() {
    let symbols = ScriptSymbols {
        image_base: 0,
        string_literals: vec![(5, String::new())],
        type_infos: vec![],
        methods: vec![],
        method_refs: vec![],
    };
    let mut out = String::new();
    symbols.write_to_file(&mut out);
    assert_eq!(out, r#"{"ScriptString": [], "ScriptMetadata": [], "ScriptMethod": [], "ScriptMetadataMethod": []}"#);
}

#[test]
fn addresses_below_the_base_wrap() {
    let symbols = ScriptSymbols {
        image_base: 0x10,
        string_literals: vec![],
        type_infos: vec![(0x8, "T".to_string())],
        methods: vec![],
        method_refs: vec![],
    };
    let mut out = String::new();
    symbols.write_to_file(&mut out);
    let wrapped = 0x8usize.wrapping_sub(0x10);
    assert!(out.contains(&format!("{{\"Address\":{wrapped}, \"Name\": \"T_TypeInfo\"")));
}
