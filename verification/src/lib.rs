//! Verified core of an il2cpp metadata dumper: protobuf wire encoding, probe
//! bookkeeping, and the text formats it writes (C# stubs, proto files, JSON).
use vstd::prelude::*;

pub mod attributes;
pub mod cache;
pub mod csharp;
pub mod json;
pub mod metadata;
pub mod probe;
pub mod proto;
pub mod reloc;
pub mod text;
pub mod saved_values;
pub mod schema;
pub mod script;
pub mod varint;
pub mod vm;

verus! {

} // verus!
