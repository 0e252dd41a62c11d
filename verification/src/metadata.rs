//! Decoding of the obfuscated metadata usage table and generic parameter counts.
//!
//! The runtime stores these values xored and scrambled with fixed constants; the
//! functions here undo that on values already read from memory. The arithmetic
//! wraps, as the runtime's own code does.
use vstd::prelude::*;
use vstd::wrapping::{i32_specs, u32_specs, u64_specs};
use crate::vm::{Il2cppClass, Il2cppMethod, Il2cppString};

verus! {

/// Number of entries of the metadata usage table.
pub const USAGES_COUNT: usize = 993674;

pub const USAGE_TYPE_INFO: u32 = 1;
pub const USAGE_IL2CPP_TYPE: u32 = 7;
pub const USAGE_METHOD_DEF: u32 = 3;
pub const USAGE_FIELD_INFO: u32 = 4;
pub const USAGE_STRING_LITERAL: u32 = 5;
pub const USAGE_METHOD_REF: u32 = 6;

/// What a metadata usage entry refers to.
pub enum MetadataUsage {
    TypeInfo(Il2cppClass),
    MethodRef(Il2cppMethod),
    StringLiteral(Il2cppString),
}

/// A metadata usage entry: where the runtime keeps the pointer, and what it is.
pub struct MetadataEntry {
    pub address: usize,
    pub usage: MetadataUsage,
}

/// The kind of a usage entry, from the top three bits of its decoded word.
pub enum UsageKind {
    TypeInfo,
    /// Types and field infos, which the dump leaves out.
    Skipped,
    MethodRef,
    StringLiteral,
}

/// The key that scrambles the entry with the index.
pub open spec fn spec_usage_key(index: u64) -> u64 {
    let a = u64_specs::wrapping_mul(31039, index) ^ 0x116BE0CFu64;
    let b = u64_specs::wrapping_mul(2024793878, a) >> 18u64;
    u64_specs::wrapping_add(u64_specs::wrapping_mul(1083960151, b), 0x1D48E5A1A9F5) >> 13u64
}

/// The key that scrambles the entry with the index, for an index of the table.
pub fn usage_key(index: u64) -> (key: u64)
    requires
        index < USAGES_COUNT,
    ensures
        key == spec_usage_key(index),
{
    let a = 31039u64.wrapping_mul(index) ^ 0x116BE0CFu64;
    let b = 2024793878u64.wrapping_mul(a) >> 18u64;
    1083960151u64.wrapping_mul(b).wrapping_add(0x1D48E5A1A9F5u64) >> 13u64
}

/// The decoded words of a usage entry: the first holds the kind in its top three
/// bits and the index of the referenced item below; the second is the slot.
pub open spec fn spec_decode_usage(key: u64, low_word: u32, high_word: u32) -> (u32, u32) {
    let k = key as u32;
    (k ^ u32_specs::wrapping_sub(high_word, 1236877375), low_word ^ k ^ 0x2A20EFCFu32)
}

/// Decodes the two stored words of a usage entry with its key.
pub fn decode_usage(key: u64, low_word: u32, high_word: u32) -> (r: (u32, u32))
    ensures
        r == spec_decode_usage(key, low_word, high_word),
{
    let k: u32 = #[verifier::truncate] (key as u32);
    (k ^ high_word.wrapping_sub(1236877375u32), low_word ^ k ^ 0x2A20EFCFu32)
}

/// Whether the decoder handles the kind in the top three bits of a decoded word:
/// every kind but 0 and 2.
pub open spec fn spec_usage_supported(word: u32) -> bool {
    let kind = word >> 29u32;
    kind != 0 && kind != 2
}

/// Whether the decoder handles the kind of the decoded word, which `usage_kind` needs.
pub fn usage_supported(word: u32) -> (r: bool)
    ensures
        r == spec_usage_supported(word),
{
    let kind = word >> 29u32;
    kind != 0 && kind != 2
}

/// The kind of a usage entry by its decoded first word, for a supported kind
/// (the last case left is the string literal).
pub open spec fn spec_usage_kind(word: u32) -> UsageKind
    recommends
        spec_usage_supported(word),
{
    let kind = word >> 29u32;
    if kind == USAGE_TYPE_INFO {
        UsageKind::TypeInfo
    } else if kind == USAGE_IL2CPP_TYPE || kind == USAGE_FIELD_INFO {
        UsageKind::Skipped
    } else if kind == USAGE_METHOD_REF || kind == USAGE_METHOD_DEF {
        UsageKind::MethodRef
    } else {
        UsageKind::StringLiteral
    }
}

/// The kind of a usage entry by its decoded first word.
pub fn usage_kind(word: u32) -> (k: UsageKind)
    requires
        spec_usage_supported(word),
    ensures
        k == spec_usage_kind(word),
        k is StringLiteral ==> word >> 29u32 == USAGE_STRING_LITERAL,
{
    let kind = word >> 29u32;
    assert(word >> 29u32 < 8) by (bit_vector);
    if kind == USAGE_TYPE_INFO {
        UsageKind::TypeInfo
    } else if kind == USAGE_IL2CPP_TYPE || kind == USAGE_FIELD_INFO {
        UsageKind::Skipped
    } else if kind == USAGE_METHOD_REF || kind == USAGE_METHOD_DEF {
        UsageKind::MethodRef
    } else {
        UsageKind::StringLiteral
    }
}

/// Index of the string literal a usage entry refers to: the low 29 bits.
pub fn string_literal_index(word: u32) -> (index: u32)
    ensures
        index == word & 0x1FFF_FFFFu32,
        index < 0x2000_0000,
{
    let index = word & 0x1FFF_FFFFu32;
    assert(word & 0x1FFF_FFFFu32 < 0x2000_0000) by (bit_vector);
    index
}

/// The key that scrambles the position of the string literal `index` (use
/// `index + 1` for the end of the literal).
pub open spec fn spec_string_key(index: u64) -> u32 {
    let a = u64_specs::wrapping_mul(59008, index) ^ 0x69401238u64;
    let b = u64_specs::wrapping_mul(1251024346, a) >> 10u64;
    (u64_specs::wrapping_add(u64_specs::wrapping_mul(432008534, b), 1022566152) as u32)
        ^ 0x50B11DC5u32
}

/// The key that scrambles the position of the string literal `index`.
pub fn string_key(index: u64) -> (key: u32)
    ensures
        key == spec_string_key(index),
{
    let a = 59008u64.wrapping_mul(index) ^ 0x69401238u64;
    let b = 1251024346u64.wrapping_mul(a) >> 10u64;
    let c = 432008534u64.wrapping_mul(b).wrapping_add(1022566152u64);
    let low: u32 = #[verifier::truncate] (c as u32);
    low ^ 0x50B11DC5u32
}

/// The decoded start offset and length of a string literal from its two stored
/// words and their keys: the length is the end minus the start, wrapping.
pub open spec fn spec_string_span(
    start_word: u32,
    start_key: u32,
    end_word: u32,
    end_key: u32,
) -> (u32, u32) {
    let start = start_word ^ start_key;
    (start, u32_specs::wrapping_sub(end_word ^ end_key, start))
}

/// Decodes the start offset and length of a string literal.
pub fn string_span(start_word: u32, start_key: u32, end_word: u32, end_key: u32) -> (r: (u32, u32))
    ensures
        r == spec_string_span(start_word, start_key, end_word, end_key),
{
    let start = start_word ^ start_key;
    (start, (end_word ^ end_key).wrapping_sub(start))
}

/// The number of generic parameters of a class, from the index of its generic
/// container and the stored, scrambled count.
pub open spec fn spec_generic_parameter_count(container_index: i64, stored: i32) -> i32 {
    let idx = container_index as i32;
    let inner = i32_specs::wrapping_add(i32_specs::wrapping_mul(15660, idx), 1867048826)
        ^ 0x1FAF6023i32;
    let mid = i32_specs::wrapping_mul(1168146287, inner) ^ 0x565C8119i32;
    i32_specs::wrapping_mul(1360395971, mid) ^ i32_specs::wrapping_sub(stored, 1023229573)
}

/// Decodes the number of generic parameters of a class.
pub fn generic_parameter_count(container_index: i64, stored: i32) -> (count: i32)
    ensures
        count == spec_generic_parameter_count(container_index, stored),
{
    let idx: i32 = #[verifier::truncate] (container_index as i32);
    let inner = 15660i32.wrapping_mul(idx).wrapping_add(1867048826i32) ^ 0x1FAF6023i32;
    let mid = 1168146287i32.wrapping_mul(inner) ^ 0x565C8119i32;
    1360395971i32.wrapping_mul(mid) ^ stored.wrapping_sub(1023229573i32)
}

} // verus!
