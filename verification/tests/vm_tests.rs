use graceful_dumper::vm::{
    Assembly, Il2cppClass, Il2cppField, Il2cppImage, Il2cppMethod, Il2cppObject, Il2cppValue,
    MethodSignature,
};

fn sig(addr: usize, name: &str, args: &[&str]) -> MethodSignature {
    MethodSignature {
        method: Il2cppMethod(addr),
        name: name.to_string(),
        arg_types: args.iter().map(|a| a.to_string()).collect(),
    }
}

#[test]
fn find_method_matches_name_and_argument_types() {
    let methods = vec![
        sig(1, "Merge", &["System.Int32"]),
        sig(2, ".ctor", &[]),
        sig(3, "Merge", &["CodedInputStream"]),
        sig(4, "Merge", &["CodedInputStream"]),
    ];
    assert_eq!(Il2cppClass::find_method(&methods, "Merge", &["CodedInputStream"]).map(|m| m.0), Some(3));
    assert_eq!(Il2cppClass::find_method(&methods, ".ctor", &[]).map(|m| m.0), Some(2));
    assert!(Il2cppClass::find_method(&methods, "Merge", &[]).is_none());
    assert!(Il2cppClass::find_method(&methods, "Merge", &["CodedInputStream", "System.Int32"]).is_none());
    assert!(Il2cppClass::find_method(&methods, "Missing", &[]).is_none());
}

#[test]
fn instance_fields_lack_the_static_flag() {
    let f = Il2cppField { address: 0x10, offset: 0x18, type_attrs: 0x0006 };
    assert!(f.is_instance());
    let s = Il2cppField { address: 0x10, offset: 0x18, type_attrs: 0x0016 };
    assert!(!s.is_instance());
}

#[test]
fn field_data_address() {
    let f = Il2cppField { address: 0, offset: 0x18, type_attrs: 0 };
    assert_eq!(f.get_field_data_ptr(&Il2cppObject(0x1000)), 0x1018);
    assert_eq!(f.get_field_data_ptr(&Il2cppObject(usize::MAX)), 0x17);
}

#[test]
fn null_handles() {
    assert!(Assembly::new(0).is_none());
    assert_eq!(Assembly::new(5).map(|a| a.0), Some(5));
    assert!(Il2cppImage::new(0).is_none());
    assert!(Il2cppClass::new(0).is_none());
    assert_eq!(Il2cppClass::new(7).map(|c| c.0), Some(7));
}

#[test]
fn raw_values() {
    assert_eq!(Il2cppObject(42).as_raw(), 42);
    assert_eq!(7usize.as_raw(), 7);
}
