use graceful_dumper::saved_values::{is_watched, FieldSnapshot, TrackedValues, UNKNOWN_FIELD_SET};

fn snap(offset: u32, is_instance: bool, field_type: &str, value: usize) -> FieldSnapshot {
    FieldSnapshot {
        offset,
        is_instance,
        field_type: field_type.to_string(),
        type_class: "Int32".to_string(),
        value,
    }
}

#[test]
fn watched_fields_are_instance_fields_but_the_unknown_set() {
    assert!(is_watched(&snap(16, true, "System.Int32", 0)));
    assert!(!is_watched(&snap(16, false, "System.Int32", 0)));
    assert!(!is_watched(&snap(16, true, UNKNOWN_FIELD_SET, 0)));
}

#[test]
fn new_keeps_watched_fields_in_order() {
    let fields = vec![
        snap(16, true, "System.Int32", 5),
        snap(0, false, "System.Int32", 9),
        snap(24, true, UNKNOWN_FIELD_SET, 1),
        snap(32, true, "System.String", 77),
    ];
    let t = TrackedValues::new(&fields);
    assert_eq!(t.values, vec![(16, 5), (32, 77)]);
    assert_eq!(t.get_saved_value(16), 5);
    assert_eq!(t.get_saved_value(32), 77);
}

#[test]
fn replace_changes_only_the_first_pair() {
    let mut t = TrackedValues { values: vec![(8, 1), (16, 2), (8, 3)] };
    t.replace_value(8, 42);
    assert_eq!(t.values, vec![(8, 42), (16, 2), (8, 3)]);
    assert_eq!(t.get_saved_value(8), 42);
}

#[test]
fn detect_reports_changed_offsets_and_saves_them() {
    let before = vec![snap(16, true, "System.Int32", 0), snap(24, true, "System.Int32", 0)];
    let mut t = TrackedValues::new(&before);
    let after = vec![snap(16, true, "System.Int32", 0), snap(24, true, "System.Int32", 3)];
    assert_eq!(t.detect_changes_and_update(&after), vec![24]);
    assert_eq!(t.values, vec![(16, 0), (24, 3)]);
    assert_eq!(t.detect_changes_and_update(&after), Vec::<u32>::new());
}

#[test]
fn detect_right_after_new_finds_nothing() {
    let fields = vec![snap(16, true, "System.Int32", 4), snap(24, true, "System.Int64", 9)];
    let mut t = TrackedValues::new(&fields);
    assert!(t.detect_changes_and_update(&fields).is_empty());
}

#[test]
fn detect_ignores_fields_not_watched() {
    let fields = vec![snap(16, true, "System.Int32", 4)];
    let mut t = TrackedValues::new(&fields);
    let after = vec![snap(16, true, "System.Int32", 4), snap(16, false, "System.Int32", 99)];
    assert!(t.detect_changes_and_update(&after).is_empty());
}
