//! Field and method attribute flags of the runtime metadata.
use vstd::prelude::*;

verus! {

pub const FIELD_ATTRIBUTE_FIELD_ACCESS_MASK: u32 = 0x0007;
pub const FIELD_ATTRIBUTE_COMPILER_CONTROLLED: u32 = 0x0000;
pub const FIELD_ATTRIBUTE_PRIVATE: u32 = 0x0001;
pub const FIELD_ATTRIBUTE_FAM_AND_ASSEM: u32 = 0x0002;
pub const FIELD_ATTRIBUTE_ASSEMBLY: u32 = 0x0003;
pub const FIELD_ATTRIBUTE_FAMILY: u32 = 0x0004;
pub const FIELD_ATTRIBUTE_FAM_OR_ASSEM: u32 = 0x0005;
pub const FIELD_ATTRIBUTE_PUBLIC: u32 = 0x0006;
pub const FIELD_ATTRIBUTE_STATIC: u32 = 0x0010;
pub const FIELD_ATTRIBUTE_INIT_ONLY: u32 = 0x0020;
pub const FIELD_ATTRIBUTE_LITERAL: u32 = 0x0040;
pub const FIELD_ATTRIBUTE_NOT_SERIALIZED: u32 = 0x0080;
pub const FIELD_ATTRIBUTE_SPECIAL_NAME: u32 = 0x0200;
pub const FIELD_ATTRIBUTE_PINVOKE_IMPL: u32 = 0x2000;

pub const METHOD_ATTRIBUTE_MEMBER_ACCESS_MASK: u32 = 0x0007;
pub const METHOD_ATTRIBUTE_COMPILER_CONTROLLED: u32 = 0x0000;
pub const METHOD_ATTRIBUTE_PRIVATE: u32 = 0x0001;
pub const METHOD_ATTRIBUTE_FAM_AND_ASSEM: u32 = 0x0002;
pub const METHOD_ATTRIBUTE_ASSEM: u32 = 0x0003;
pub const METHOD_ATTRIBUTE_FAMILY: u32 = 0x0004;
pub const METHOD_ATTRIBUTE_FAM_OR_ASSEM: u32 = 0x0005;
pub const METHOD_ATTRIBUTE_PUBLIC: u32 = 0x0006;
pub const METHOD_ATTRIBUTE_STATIC: u32 = 0x0010;
pub const METHOD_ATTRIBUTE_FINAL: u32 = 0x0020;
pub const METHOD_ATTRIBUTE_VIRTUAL: u32 = 0x0040;
pub const METHOD_ATTRIBUTE_HIDE_BY_SIG: u32 = 0x0080;
pub const METHOD_ATTRIBUTE_VTABLE_LAYOUT_MASK: u32 = 0x0100;
pub const METHOD_ATTRIBUTE_REUSE_SLOT: u32 = 0x0000;
pub const METHOD_ATTRIBUTE_NEW_SLOT: u32 = 0x0100;
pub const METHOD_ATTRIBUTE_STRICT: u32 = 0x0200;
pub const METHOD_ATTRIBUTE_ABSTRACT: u32 = 0x0400;
pub const METHOD_ATTRIBUTE_SPECIAL_NAME: u32 = 0x0800;
pub const METHOD_ATTRIBUTE_PINVOKE_IMPL: u32 = 0x2000;
pub const METHOD_ATTRIBUTE_UNMANAGED_EXPORT: u32 = 0x0008;

} // verus!
