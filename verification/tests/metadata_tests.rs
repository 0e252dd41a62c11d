use graceful_dumper::metadata::{
    decode_usage, generic_parameter_count, string_key, string_literal_index, string_span,
    usage_key, usage_kind, usage_supported, UsageKind, USAGES_COUNT,
};

fn reference_key(index: u64) -> u64 {
    1083960151u64
        .wrapping_mul(2024793878u64.wrapping_mul(31039u64.wrapping_mul(index) ^ 0x116BE0CF) >> 18)
        .wrapping_add(0x1D48E5A1A9F5)
        >> 13
}

#[test]
fn usage_keys() {
    assert_eq!(usage_key(0), (1083960151u64.wrapping_mul((2024793878u64 * 0x116BE0CF) >> 18).wrapping_add(0x1D48E5A1A9F5)) >> 13);
    for index in [0u64, 1, 2, 1000, (USAGES_COUNT - 1) as u64] {
        assert_eq!(usage_key(index), reference_key(index));
    }
}

#[test]
fn usage_decoding() {
    let key = 0x1_2345_6789u64;
    let (word, slot) = decode_usage(key, 0x1111_1111, 0x5000_0000);
    assert_eq!(word, 0x2345_6789 ^ 0x5000_0000u32.wrapping_sub(1236877375));
    assert_eq!(slot, 0x1111_1111 ^ 0x2345_6789 ^ 0x2A20_EFCF);
    let (word, _) = decode_usage(0, 0, 0);
    assert_eq!(word, 0u32.wrapping_sub(1236877375));
}

#[test]
fn usage_kinds() {
    assert!(matches!(usage_kind(1 << 29), UsageKind::TypeInfo));
    assert!(matches!(usage_kind((7 << 29) | 5), UsageKind::Skipped));
    assert!(matches!(usage_kind(4 << 29), UsageKind::Skipped));
    assert!(matches!(usage_kind(3 << 29), UsageKind::MethodRef));
    assert!(matches!(usage_kind(6 << 29), UsageKind::MethodRef));
    assert!(matches!(usage_kind(5 << 29), UsageKind::StringLiteral));
    assert!(!usage_supported(2 << 29));
    assert!(!usage_supported(0x1FFF_FFFF));
    for kind in [1u32, 3, 4, 5, 6, 7] {
        assert!(usage_supported((kind << 29) | 12));
    }
    assert_eq!(string_literal_index((5 << 29) | 1234), 1234);
}

#[test]
fn string_keys_and_spans() {
    let expect = |i: u64| {
        (432008534u64.wrapping_mul(1251024346u64.wrapping_mul(59008u64.wrapping_mul(i) ^ 0x69401238) >> 10).wrapping_add(1022566152) as u32) ^ 0x50B11DC5
    };
    for i in [0u64, 1, 77, 0x1FFF_FFFF] {
        assert_eq!(string_key(i), expect(i));
    }
    let (start, len) = string_span(100 ^ 7, 7, 140 ^ 9, 9);
    assert_eq!((start, len), (100, 40));
    let (_, wrapped) = string_span(10, 0, 5, 0);
    assert_eq!(wrapped, 5u32.wrapping_sub(10));
}

#[test]
fn generic_parameter_counts() {
    let reference = |index: i64, stored: i32| {
        let idx = index as i32;
        let inner = 15660i32.wrapping_mul(idx).wrapping_add(1867048826) ^ 0x1FAF6023;
        let mid = 1168146287i32.wrapping_mul(inner) ^ 0x565C8119;
        1360395971i32.wrapping_mul(mid) ^ stored.wrapping_sub(1023229573)
    };
    for (i, s) in [(0i64, 0i32), (5, 12345), (-1, -7), (1 << 40, i32::MAX)] {
        assert_eq!(generic_parameter_count(i, s), reference(i, s));
    }
    let stored = reference(3, 0) ^ 0;
    let encoded = (2i32 ^ (1360395971i32.wrapping_mul(1168146287i32.wrapping_mul(15660i32.wrapping_mul(3).wrapping_add(1867048826) ^ 0x1FAF6023) ^ 0x565C8119))).wrapping_add(1023229573);
    let _ = stored;
    assert_eq!(generic_parameter_count(3, encoded), 2);
}
