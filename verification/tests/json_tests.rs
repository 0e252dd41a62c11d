use graceful_dumper::json::{is_native_type, strip_repeated, write_escaped};

fn escaped(s: &str) -> String {
    let mut out = String::new();
    write_escaped(&mut out, s);
    out
}

#[test]
fn escape_quotes_and_backslashes() {
    assert_eq!(escaped("a\"b\\c"), "a\\\"b\\\\c");
}

#[test]
fn escape_whitespace_controls() {
    assert_eq!(escaped("x\ny\rz\tw"), "x\\ny\\rz\\tw");
}

#[test]
fn escape_other_controls_as_unicode() {
    assert_eq!(escaped("\u{1}\u{1f}\u{0}"), "\\u0001\\u001f\\u0000");
}

#[test]
fn escape_keeps_plain_and_non_ascii_text() {
    assert_eq!(escaped("Hello, 世界 é"), "Hello, 世界 é");
    assert_eq!(escaped(""), "");
}

#[test]
fn escape_appends() {
    let mut out = String::from("[");
    write_escaped(&mut out, "\"");
    assert_eq!(out, "[\\\"");
}

#[test]
fn native_types() {
    for t in ["bool", "int32", "uint32", "int64", "uint64", "float", "double", "string", "bytes", "google.protobuf.Any"] {
        assert!(is_native_type(t), "{t}");
    }
    assert!(!is_native_type("MyMessage"));
    assert!(!is_native_type("repeated int32"));
    assert!(!is_native_type(""));
}

#[test]
fn strip_repeated_prefix() {
    assert_eq!(strip_repeated("repeated int32"), ("int32", true));
    assert_eq!(strip_repeated("int32"), ("int32", false));
    assert_eq!(strip_repeated("map<int32, string>"), ("map<int32, string>", false));
    assert_eq!(strip_repeated("repeated "), ("", true));
    assert_eq!(strip_repeated("repeatedint32"), ("repeatedint32", false));
}
