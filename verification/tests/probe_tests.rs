use graceful_dumper::probe::{
    estimated_field_count, has_merge_method, probe_buffer, sample, Bruteforcer, Detection, FieldDetectionInfo,
    MessageMinimalInfo, MessageProbe, ProbeOutcome, ProbeStage, CODED_INPUT_STREAM, MERGE_FROM,
};
use graceful_dumper::saved_values::FieldSnapshot;
use graceful_dumper::vm::{Il2cppMethod, Il2cppObject, MethodSignature};

fn found(offset: u32, value: u32) -> ProbeOutcome {
    ProbeOutcome::Found(FieldDetectionInfo { value, offset, oneof_extra_data: None })
}

fn next(p: &MessageProbe) -> (u32, Vec<u8>) {
    let probe = p.next_probe().expect("a probe");
    (probe.tag, probe.data)
}

#[test]
fn probe_buffer_prefixes_the_tag() {
    assert_eq!(probe_buffer(10, &[1, 0]), vec![10, 1, 0]);
    assert_eq!(probe_buffer(300, &[5]), vec![0xAC, 0x02, 5]);
    assert_eq!(probe_buffer(8, &[]), vec![8]);
}

#[test]
fn samples() {
    assert_eq!(sample(0), vec![1, 0, 0, 0, 0]);
    assert_eq!(sample(1), vec![1, 0, 0, 0, 0, 0, 0, 0, 0]);
    assert_eq!(sample(2), vec![5, 0x08, 0x01, 0x33, 0x01, 0x00]);
    assert_eq!(sample(3), vec![5, 0x10, 0x01, 0x33, 0x10, 0x00]);
}

#[test]
fn message_minimal_info_starts_empty() {
    let info = MessageMinimalInfo::new(77);
    assert_eq!(info.cmd_id, 77);
    assert!(info.fields.is_empty());
}

#[test]
fn probe_sequence_of_one_field_number() {
    let mut p = MessageProbe::new(42, None);
    assert_eq!(next(&p), (8, vec![1]));
    p.on_outcome(ProbeOutcome::Missing);
    assert_eq!(next(&p), (10, vec![0]));
    p.on_outcome(ProbeOutcome::Exception);
    assert_eq!(next(&p), (10, vec![1, 0]));
    p.on_outcome(ProbeOutcome::Exception);
    assert!(p.stage == ProbeStage::Sample(0));
    assert_eq!(next(&p), (10, vec![1, 0, 0, 0, 0]));
    p.on_outcome(ProbeOutcome::Exception);
    assert_eq!(next(&p), (10, vec![1, 0, 0, 0, 0, 0, 0, 0, 0]));
    p.on_outcome(found(0x20, 1));
    assert_eq!(next(&p), (13, vec![0, 0, 0, 1]));
    p.on_outcome(ProbeOutcome::Missing);
    assert_eq!(next(&p), (9, vec![0, 0, 0, 0, 0, 0, 0, 1]));
    p.on_outcome(ProbeOutcome::Missing);
    assert_eq!(p.field_id, 2);
    assert_eq!(next(&p), (16, vec![1]));
    p.on_outcome(found(0x28, 0x1234));
    assert_eq!(p.field_id, 3);
    let info = p.finish();
    assert_eq!(info.cmd_id, 42);
    assert_eq!(info.fields.len(), 2);
    assert_eq!((info.fields[0].tag, info.fields[0].xor, info.fields[0].offset), (10, 0, 0x20));
    assert_eq!((info.fields[1].tag, info.fields[1].xor, info.fields[1].offset), (16, 0x1235, 0x28));
}

#[test]
fn empty_payload_hit_ends_the_field_number() {
    let mut p = MessageProbe::new(0, None);
    p.on_outcome(ProbeOutcome::Missing);
    p.on_outcome(found(0x30, 0));
    assert_eq!(p.field_id, 2);
    assert!(p.stage == ProbeStage::VarInt);
    assert_eq!(p.info.fields[0].tag, 10);
    assert_eq!(p.info.fields[0].xor, 0);
}

#[test]
fn samples_run_out_into_fixed_sizes() {
    let mut p = MessageProbe::new(0, None);
    p.on_outcome(ProbeOutcome::Missing);
    p.on_outcome(ProbeOutcome::Missing);
    p.on_outcome(ProbeOutcome::Exception);
    for _ in 0..4 {
        assert!(matches!(p.stage, ProbeStage::Sample(_)));
        p.on_outcome(ProbeOutcome::Exception);
    }
    assert!(p.stage == ProbeStage::Fixed32);
    p.on_outcome(found(0x40, 1));
    p.on_outcome(found(0x48, 1));
    assert_eq!(p.field_id, 2);
    let tags: Vec<u32> = p.info.fields.iter().map(|f| f.tag).collect();
    assert_eq!(tags, vec![13, 9]);
}

#[test]
fn probing_stops_at_the_estimated_count() {
    let mut p = MessageProbe::new(1, Some(1));
    assert!(!p.is_done());
    p.on_outcome(found(0x10, 5));
    assert!(p.is_done());
    assert!(p.next_probe().is_none());
    let zero = MessageProbe::new(1, Some(0));
    assert!(zero.next_probe().is_none());
}

#[test]
fn probing_a_message_without_fields_ends() {
    let mut p = MessageProbe::new(3, None);
    let mut probes = 0usize;
    while let Some(_) = p.next_probe() {
        p.on_outcome(ProbeOutcome::Missing);
        probes += 1;
    }
    assert_eq!(probes, 4095 * 5);
    assert_eq!(p.field_id, 4096);
    assert!(p.finish().fields.is_empty());
}

fn snap(offset: u32, type_class: &str, value: usize) -> FieldSnapshot {
    FieldSnapshot {
        offset,
        is_instance: true,
        field_type: format!("System.{type_class}"),
        type_class: type_class.to_string(),
        value,
    }
}

fn merge_methods() -> Vec<MethodSignature> {
    vec![
        MethodSignature { method: Il2cppMethod(0x10), name: "ToString".to_string(), arg_types: vec![] },
        MethodSignature {
            method: Il2cppMethod(0x20),
            name: MERGE_FROM.to_string(),
            arg_types: vec![CODED_INPUT_STREAM.to_string()],
        },
    ]
}

#[test]
fn bruteforcer_needs_the_merge_method() {
    let fields = vec![snap(16, "Int32", 0)];
    assert!(!has_merge_method(&merge_methods()[..1]));
    assert!(has_merge_method(&merge_methods()));
    let b = Bruteforcer::new(Il2cppObject(1), &fields, &merge_methods());
    assert_eq!(b.merge_from_method.0, 0x20);
    assert_eq!(b.tracked_values.values, vec![(16, 0)]);
}

#[test]
fn bruteforcer_takes_the_first_merge_method() {
    let mut methods = merge_methods();
    methods.push(MethodSignature {
        method: Il2cppMethod(0x30),
        name: MERGE_FROM.to_string(),
        arg_types: vec!["System.Byte[]".to_string()],
    });
    methods.push(MethodSignature {
        method: Il2cppMethod(0x40),
        name: MERGE_FROM.to_string(),
        arg_types: vec![CODED_INPUT_STREAM.to_string()],
    });
    let b = Bruteforcer::new(Il2cppObject(1), &[], &methods);
    assert_eq!(b.merge_from_method.0, 0x20);
}

#[test]
fn record_merge_classifies_changes() {
    let start = vec![snap(16, "Int32", 0), snap(24, "Object", 0), snap(32, "Int32", 0), snap(40, "Int32", 0)];
    let mut b = Bruteforcer::new(Il2cppObject(1), &start, &merge_methods());
    assert!(matches!(b.record_merge(&start), Detection::Nothing));

    let one = vec![snap(16, "Int32", 0x1_0000_0007), snap(24, "Object", 0), snap(32, "Int32", 0), snap(40, "Int32", 0)];
    match b.record_merge(&one) {
        Detection::Field(info) => {
            assert_eq!(info.offset, 16);
            assert_eq!(info.value, 7);
            assert!(info.oneof_extra_data.is_none());
        }
        _ => panic!("one field changed"),
    }

    let pair = vec![snap(16, "Int32", 0x1_0000_0007), snap(24, "Object", 0x500), snap(32, "Int32", 2), snap(40, "Int32", 0)];
    match b.record_merge(&pair) {
        Detection::Oneof { data_offset, oneof_enum_offset } => {
            assert_eq!((data_offset, oneof_enum_offset), (24, 32));
        }
        _ => panic!("a oneof changed"),
    }

    let swapped = vec![snap(16, "Int32", 9), snap(24, "Object", 0x600), snap(32, "Int32", 2), snap(40, "Int32", 0)];
    match b.record_merge(&swapped) {
        Detection::Oneof { data_offset, oneof_enum_offset } => {
            assert_eq!((data_offset, oneof_enum_offset), (24, 16));
        }
        _ => panic!("a oneof changed"),
    }

    let many = vec![snap(16, "Int32", 1), snap(24, "Object", 1), snap(32, "Int32", 1), snap(40, "Int32", 0)];
    assert_eq!(b.tracked_values.count_changes(&many), 3);
    assert_eq!(b.tracked_values.count_changes(&swapped), 0);
}

#[test]
fn estimated_count_is_unknown_with_object_fields() {
    let plain = vec![snap(16, "Int32", 0), snap(24, "String", 0)];
    assert_eq!(estimated_field_count(&plain, 2), Some(2));
    let with_object = vec![snap(16, "Int32", 0), snap(24, "Object", 0)];
    assert_eq!(estimated_field_count(&with_object, 2), None);
}
