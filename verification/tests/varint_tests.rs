use graceful_dumper::varint::{
    encode_varint, pack_wire_tag, varint_length, WIRE_TYPE_I32, WIRE_TYPE_I64,
    WIRE_TYPE_LENGTH_PREFIXED, WIRE_TYPE_VAR_INT,
};

fn encoded(v: u32) -> Vec<u8> {
    let mut buf = Vec::new();
    let n = encode_varint(&mut buf, v);
    assert_eq!(n, buf.len());
    buf
}

#[test]
fn varint_of_300() {
    assert_eq!(encoded(300), vec![0xAC, 0x02]);
    assert_eq!(varint_length(300), 2);
}

#[test]
fn varint_small_values_take_one_byte() {
    assert_eq!(encoded(0), vec![0x00]);
    assert_eq!(encoded(1), vec![0x01]);
    assert_eq!(encoded(127), vec![0x7F]);
    assert_eq!(varint_length(0), 1);
    assert_eq!(varint_length(127), 1);
}

#[test]
fn varint_group_boundaries() {
    assert_eq!(encoded(128), vec![0x80, 0x01]);
    assert_eq!(encoded(16383), vec![0xFF, 0x7F]);
    assert_eq!(encoded(16384), vec![0x80, 0x80, 0x01]);
    assert_eq!(varint_length(128), 2);
    assert_eq!(varint_length(16384), 3);
}

#[test]
fn varint_of_max_u32_takes_five_bytes() {
    assert_eq!(encoded(u32::MAX), vec![0xFF, 0xFF, 0xFF, 0xFF, 0x0F]);
    assert_eq!(varint_length(u32::MAX), 5);
}

#[test]
fn varint_appends_after_existing_bytes() {
    let mut buf = vec![9u8, 9];
    let n = encode_varint(&mut buf, 150);
    assert_eq!(n, 2);
    assert_eq!(buf, vec![9, 9, 0x96, 0x01]);
}

#[test]
fn varint_length_matches_encoding_everywhere_sampled() {
    let mut v: u32 = 1;
    while v < u32::MAX / 3 {
        assert_eq!(varint_length(v), encoded(v).len());
        assert_eq!(varint_length(v - 1), encoded(v - 1).len());
        v = v * 3;
    }
}

#[test]
fn wire_tag_of_field_one() {
    assert_eq!(pack_wire_tag(1, WIRE_TYPE_LENGTH_PREFIXED), 10);
    assert_eq!(pack_wire_tag(1, WIRE_TYPE_VAR_INT), 8);
    assert_eq!(pack_wire_tag(2, WIRE_TYPE_I32), 21);
    assert_eq!(pack_wire_tag(3, WIRE_TYPE_I64), 25);
}

#[test]
fn wire_tag_keeps_field_number_and_type() {
    for field_id in [1u32, 15, 16, 4095, 0x1FFF_FFFF] {
        for wt in [0u8, 1, 2, 5] {
            let tag = pack_wire_tag(field_id, wt);
            assert_eq!(tag >> 3, field_id);
            assert_eq!(tag & 7, wt as u32);
        }
    }
}

#[test]
fn varint_bytes_are_shifted_groups() {
    for value in [0u32, 1, 127, 128, 300, 16_383, 16_384, 0x0FFF_FFFF, 0x1000_0000, u32::MAX] {
        let mut buf = vec![0xEEu8];
        let n = encode_varint(&mut buf, value);
        assert_eq!(buf.len(), 1 + n);
        for i in 0..n {
            let group = ((value >> (7 * i as u32)) & 0x7f) as u8;
            let more = if i + 1 < n { 0x80 } else { 0 };
            assert_eq!(buf[1 + i], group | more);
        }
        if n > 1 {
            assert_ne!(buf[n], 0);
        }
    }
}
