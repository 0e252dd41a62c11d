//! Base-128 variable-length integers and protobuf wire tags.
use vstd::prelude::*;
use vstd::arithmetic::div_mod::lemma_div_denominator;
use vstd::arithmetic::power::{lemma_pow_positive, pow};

verus! {

/// Wire type of a varint-encoded field.
pub const WIRE_TYPE_VAR_INT: u8 = 0;

/// Wire type of a fixed 64-bit field (fixed64, sfixed64, double).
pub const WIRE_TYPE_I64: u8 = 1;

/// Wire type of a length-prefixed field (strings, bytes, messages, packed repeated).
pub const WIRE_TYPE_LENGTH_PREFIXED: u8 = 2;

/// Wire type of a fixed 32-bit field (fixed32, sfixed32, float).
pub const WIRE_TYPE_I32: u8 = 5;

/// Number of 7-bit groups in the base-128 encoding of `v` (zero takes one group).
pub open spec fn spec_varint_length(v: nat) -> nat
    decreases v,
{
    if v < 128 {
        1
    } else {
        1 + spec_varint_length(v / 128)
    }
}

/// The base-128 encoding of `v`: the low 7 bits first, every byte but the last
/// with its high bit set.
pub open spec fn spec_varint(v: nat) -> Seq<u8>
    decreases v,
{
    if v < 128 {
        seq![v as u8]
    } else {
        seq![(v % 128 + 128) as u8] + spec_varint(v / 128)
    }
}

/// The number that a sequence of base-128 groups stands for, low group first.
pub open spec fn spec_varint_value(s: Seq<u8>) -> nat
    decreases s.len(),
{
    if s.len() == 0 {
        0
    } else {
        (s[0] % 128) as nat + 128 * spec_varint_value(s.drop_first())
    }
}

/// A well-formed encoding: non-empty, only the last byte has its high bit clear.
pub open spec fn is_varint_encoding(s: Seq<u8>) -> bool {
    &&& s.len() > 0
    &&& s[s.len() - 1] < 128
    &&& forall|i: int| 0 <= i < s.len() - 1 ==> s[i] >= 128
}

/// The length of the encoding is the number of groups.
pub proof fn lemma_varint_len(v: nat)
    ensures
        spec_varint(v).len() == spec_varint_length(v),
    decreases v,
{
    if v >= 128 {
        lemma_varint_len(v / 128);
    }
}

/// A 32-bit number never takes more than five groups.
pub proof fn lemma_varint_length_u32(v: nat)
    requires
        v <= u32::MAX,
    ensures
        1 <= spec_varint_length(v) <= 5,
{
    reveal_with_fuel(spec_varint_length, 6);
}

/// Decoding an encoding gives the number back, and the encoding is well formed.
pub proof fn lemma_varint_roundtrip(v: nat)
    ensures
        spec_varint_value(spec_varint(v)) == v,
        is_varint_encoding(spec_varint(v)),
    decreases v,
{
    if v < 128 {
        let s = spec_varint(v);
        assert(s[0] == v);
        assert(s.drop_first() =~= Seq::<u8>::empty());
        assert(spec_varint_value(s.drop_first()) == 0);
        assert(spec_varint_value(s) == (s[0] % 128) as nat + 128 * spec_varint_value(s.drop_first()));
    } else {
        lemma_varint_roundtrip(v / 128);
        let rest = spec_varint(v / 128);
        let s = spec_varint(v);
        assert(s[0] == v % 128 + 128);
        assert(s[0] % 128 == v % 128);
        assert(s.drop_first() =~= rest);
        assert(spec_varint_value(s) == (s[0] % 128) as nat + 128 * spec_varint_value(s.drop_first()));
        assert forall|i: int| 0 <= i < s.len() - 1 implies s[i] >= 128 by {
            if i > 0 {
                assert(s[i] == rest[i - 1]);
            }
        }
    }
}

/// Group `i` of the encoding holds the digit `i` of the number in base 128, with
/// the high bit set on every group but the last.
pub proof fn lemma_varint_groups(v: nat, i: int)
    requires
        0 <= i < spec_varint(v).len(),
    ensures
        spec_varint(v)[i] == (v as int / pow(128, i as nat)) % 128 + (if i + 1 < spec_varint(v).len() {
            128int
        } else {
            0int
        }),
    decreases v,
{
    reveal(pow);
    if v >= 128 {
        let rest = spec_varint(v / 128);
        assert(spec_varint(v) == seq![(v % 128 + 128) as u8] + rest);
        if i == 0 {
            assert(pow(128, 0) == 1);
        } else {
            lemma_varint_groups(v / 128, i - 1);
            assert(spec_varint(v)[i] == rest[i - 1]);
            lemma_pow_positive(128, (i - 1) as nat);
            lemma_div_denominator(v as int, 128, pow(128, (i - 1) as nat));
            assert(pow(128, i as nat) == 128 * pow(128, (i - 1) as nat));
        }
    } else {
        assert(pow(128, 0) == 1);
    }
}

/// For a 32-bit number, group `i` of the encoding is `(value >> 7i) & 0x7f`, or'd
/// with `0x80` on every group but the last.
pub proof fn lemma_varint_bytes_u32(value: u32, i: int)
    requires
        0 <= i < spec_varint(value as nat).len(),
    ensures
        spec_varint(value as nat)[i] as u32 == ((value >> ((7 * i) as u32)) & 0x7fu32) | (if i + 1
            < spec_varint(value as nat).len() {
            0x80u32
        } else {
            0u32
        }),
{
    lemma_varint_groups(value as nat, i);
    lemma_varint_len(value as nat);
    lemma_varint_length_u32(value as nat);
    reveal_with_fuel(pow, 6);
    assert(forall|x: u32| x < 128 ==> #[trigger] (x | 0x80u32) == x + 128) by (bit_vector);
    assert(forall|x: u32| #[trigger] (x | 0u32) == x) by (bit_vector);
    if i == 0 {
        assert((value >> 0u32) & 0x7fu32 == value % 128) by (bit_vector);
    } else if i == 1 {
        assert((value >> 7u32) & 0x7fu32 == (value / 128) % 128) by (bit_vector);
    } else if i == 2 {
        assert((value >> 14u32) & 0x7fu32 == (value / 16384) % 128) by (bit_vector);
    } else if i == 3 {
        assert((value >> 21u32) & 0x7fu32 == (value / 2097152) % 128) by (bit_vector);
    } else {
        assert((value >> 28u32) & 0x7fu32 == (value / 268435456) % 128) by (bit_vector);
    }
}

/// The encoding has no redundant trailing group: its last group is zero only for
/// the number zero, so a multi-byte encoding never ends in a zero group.
pub proof fn lemma_varint_last_nonzero(v: nat)
    ensures
        v > 0 ==> spec_varint(v).last() != 0,
        spec_varint(v).len() > 1 ==> v >= 128,
    decreases v,
{
    if v >= 128 {
        lemma_varint_last_nonzero(v / 128);
        let rest = spec_varint(v / 128);
        assert(spec_varint(v) == seq![(v % 128 + 128) as u8] + rest);
        assert(spec_varint(v).last() == rest.last());
    }
}

/// Number of bytes `encode_varint` writes for `v`.
pub fn varint_length(v: u32) -> (len: usize)
    ensures
        len == spec_varint_length(v as nat),
        len == spec_varint(v as nat).len(),
        1 <= len <= 5,
{
    proof {
        lemma_varint_len(v as nat);
        lemma_varint_length_u32(v as nat);
    }
    if v == 0 {
        return 1;
    }
    let mut n: u32 = v;
    let mut logcounter: usize = 0;
    while n > 0
        invariant
            spec_varint_length(v as nat) <= 5,
            n == 0 ==> logcounter == spec_varint_length(v as nat),
            n > 0 ==> logcounter + spec_varint_length(n as nat) == spec_varint_length(v as nat),
        decreases n,
    {
        assert(n >> 7 == n / 128) by (bit_vector);
        logcounter = logcounter + 1;
        n = n >> 7;
    }
    logcounter
}

/// Appends the base-128 encoding of `value` to `dst` and returns the number of
/// bytes written.
pub fn encode_varint(dst: &mut Vec<u8>, value: u32) -> (written: usize)
    ensures
        final(dst)@ == old(dst)@ + spec_varint(value as nat),
        written == spec_varint(value as nat).len(),
        written == spec_varint_length(value as nat),
{
    let mut n: u32 = value;
    let mut i: usize = 0;
    proof {
        lemma_varint_length_u32(value as nat);
    }
    while n >= 0x80
        invariant
            dst@ + spec_varint(n as nat) == old(dst)@ + spec_varint(value as nat),
            dst@.len() == old(dst)@.len() + i,
            i + spec_varint_length(n as nat) == spec_varint_length(value as nat),
            spec_varint_length(value as nat) <= 5,
        decreases n,
    {
        let b: u8 = 0x80u8 | (#[verifier::truncate] (n as u8));
        assert(0x80u8 | (#[verifier::truncate] (n as u8)) == (n % 128 + 128) as u8) by (bit_vector);
        assert(n >> 7 == n / 128) by (bit_vector);
        let ghost before = dst@;
        assert(spec_varint(n as nat) =~= seq![b] + spec_varint((n / 128) as nat));
        dst.push(b);
        assert(dst@ + spec_varint((n / 128) as nat) =~= before + spec_varint(n as nat));
        i = i + 1;
        n = n >> 7;
    }
    let ghost before = dst@;
    proof {
        lemma_varint_length_u32(n as nat);
    }
    dst.push(n as u8);
    assert(dst@ =~= before + spec_varint(n as nat));
    proof {
        lemma_varint_len(value as nat);
    }
    i + 1
}

/// The wire tag of a field: its number shifted left by three, with the wire type
/// in the low bits.
pub fn pack_wire_tag(field_id: u32, wire_type: u8) -> (tag: u32)
    ensures
        tag == (field_id << 3u32) | (wire_type as u32),
        field_id < 0x2000_0000 && wire_type < 8 ==> {
            &&& tag == field_id * 8 + wire_type
            &&& tag >> 3u32 == field_id
            &&& tag & 7 == wire_type
        },
{
    let tag = (field_id << 3u32) | (wire_type as u32);
    proof {
        lemma_wire_tag_parts(field_id, wire_type as u32);
    }
    tag
}

/// A wire tag holds its field number and wire type side by side.
pub proof fn lemma_wire_tag_parts(field_id: u32, wire_type: u32)
    ensures
        field_id < 0x2000_0000 && wire_type < 8 ==> {
            &&& ((field_id << 3u32) | wire_type) == field_id * 8 + wire_type
            &&& ((field_id << 3u32) | wire_type) >> 3u32 == field_id
            &&& ((field_id << 3u32) | wire_type) & 7 == wire_type
        },
{
    assert(field_id < 0x2000_0000 && wire_type < 8 ==> ((field_id << 3u32) | wire_type) == field_id
        * 8 + wire_type) by (bit_vector);
    assert(field_id < 0x2000_0000 && wire_type < 8 ==> ((field_id << 3u32) | wire_type) >> 3u32
        == field_id) by (bit_vector);
    assert(field_id < 0x2000_0000 && wire_type < 8 ==> ((field_id << 3u32) | wire_type) & 7
        == wire_type) by (bit_vector);
}

} // verus!
