//! The runtime classes the protobuf generator knows by heart, and how the type of
//! a field maps to a protobuf type.
use vstd::prelude::*;
use std::collections::BTreeMap;

verus! {

broadcast use vstd::laws_cmp::group_laws_cmp;

/// A runtime class with a fixed meaning.
#[derive(PartialEq, Eq, Structural, Clone, Copy)]
pub enum CachedType {
    Object,
    Boolean,
    Byte,
    SByte,
    UInt16,
    Int16,
    UInt32,
    Int32,
    UInt64,
    Int64,
    Single,
    Double,
    String,
    ByteString,
    Any,
    Enum,
}

/// Where to find one of the classes with a fixed meaning.
pub struct CoreClass {
    pub assembly: &'static str,
    pub namespace: &'static str,
    pub name: &'static str,
    pub kind: CachedType,
}

/// Assembly of the base class library.
pub const CORLIB: &'static str = "mscorlib.dll";

/// Assembly of the protobuf runtime.
pub const PROTOBUF_LIB: &'static str = "Protobuf.dll";

/// Obfuscated name of the protobuf byte-string class.
pub const BYTE_STRING: &'static str = "ODLKAIJKIPI";

/// Obfuscated name of the protobuf `Any` class.
pub const PROTOBUF_ANY: &'static str = "JCCKNPJGJIN";

/// The kinds of the classes with a fixed meaning, in the order they are looked up.
pub open spec fn spec_core_kinds() -> Seq<CachedType> {
    seq![
        CachedType::Object,
        CachedType::Boolean,
        CachedType::Byte,
        CachedType::SByte,
        CachedType::UInt16,
        CachedType::Int16,
        CachedType::UInt32,
        CachedType::Int32,
        CachedType::UInt64,
        CachedType::Int64,
        CachedType::Single,
        CachedType::Double,
        CachedType::String,
        CachedType::Enum,
        CachedType::ByteString,
        CachedType::Any,
    ]
}

/// The names of the classes with a fixed meaning, in the order of `spec_core_kinds`.
pub open spec fn spec_core_names() -> Seq<Seq<char>> {
    seq![
        "Object"@,
        "Boolean"@,
        "Byte"@,
        "SByte"@,
        "UInt16"@,
        "Int16"@,
        "UInt32"@,
        "Int32"@,
        "UInt64"@,
        "Int64"@,
        "Single"@,
        "Double"@,
        "String"@,
        "Enum"@,
        BYTE_STRING@,
        PROTOBUF_ANY@,
    ]
}

/// The namespace of the class at a position of `core_classes`: `System` for the
/// base library's, none for the protobuf runtime's.
pub open spec fn spec_core_namespace(i: int) -> Seq<char> {
    if i < 14 {
        "System"@
    } else {
        ""@
    }
}

fn corlib_class(namespace: &'static str, name: &'static str, kind: CachedType) -> (c: CoreClass)
    ensures
        c.assembly@ == CORLIB@,
        c.namespace@ == namespace@,
        c.name@ == name@,
        c.kind == kind,
{
    CoreClass { assembly: CORLIB, namespace, name, kind }
}

/// The classes with a fixed meaning: the primitive types, `Object`, `String` and
/// `Enum` of the base library, then the byte string and `Any` of the protobuf
/// runtime.
pub fn core_classes() -> (classes: Vec<CoreClass>)
    ensures
        classes@.map_values(|c: CoreClass| c.kind) == spec_core_kinds(),
        forall|i: int| 0 <= i < 14 ==> (#[trigger] classes@[i]).assembly@ == CORLIB@,
        classes@[14].assembly@ == PROTOBUF_LIB@,
        classes@[15].assembly@ == PROTOBUF_LIB@,
        forall|i: int|
            0 <= i < 16 ==> (#[trigger] classes@[i]).name@ == spec_core_names()[i]
                && classes@[i].namespace@ == spec_core_namespace(i),
{
    let mut v: Vec<CoreClass> = Vec::new();
    v.push(corlib_class("System", "Object", CachedType::Object));
    v.push(corlib_class("System", "Boolean", CachedType::Boolean));
    v.push(corlib_class("System", "Byte", CachedType::Byte));
    v.push(corlib_class("System", "SByte", CachedType::SByte));
    v.push(corlib_class("System", "UInt16", CachedType::UInt16));
    v.push(corlib_class("System", "Int16", CachedType::Int16));
    v.push(corlib_class("System", "UInt32", CachedType::UInt32));
    v.push(corlib_class("System", "Int32", CachedType::Int32));
    v.push(corlib_class("System", "UInt64", CachedType::UInt64));
    v.push(corlib_class("System", "Int64", CachedType::Int64));
    v.push(corlib_class("System", "Single", CachedType::Single));
    v.push(corlib_class("System", "Double", CachedType::Double));
    v.push(corlib_class("System", "String", CachedType::String));
    v.push(corlib_class("System", "Enum", CachedType::Enum));
    v.push(CoreClass { assembly: PROTOBUF_LIB, namespace: "", name: BYTE_STRING, kind: CachedType::ByteString });
    v.push(CoreClass { assembly: PROTOBUF_LIB, namespace: "", name: PROTOBUF_ANY, kind: CachedType::Any });
    assert(v@.map_values(|c: CoreClass| c.kind) =~= spec_core_kinds());
    assert forall|i: int| 0 <= i < 16 implies (#[trigger] v@[i]).name@ == spec_core_names()[i]
        && v@[i].namespace@ == spec_core_namespace(i) by {}
    v
}

/// The classes with a fixed meaning, by address.
pub struct TypeCache {
    pub type_map: BTreeMap<usize, CachedType>,
}

/// The map that inserting the pairs one after the other gives.
pub open spec fn spec_map_of(entries: Seq<(usize, CachedType)>) -> Map<usize, CachedType>
    decreases entries.len(),
{
    if entries.len() == 0 {
        Map::empty()
    } else {
        spec_map_of(entries.drop_last()).insert(entries.last().0, entries.last().1)
    }
}

/// The shape of a runtime type as far as the protobuf mapping needs it.
pub struct TypeShape {
    /// Address of the type's class.
    pub class: usize,
    /// Name of the class.
    pub name: String,
    /// Address of the parent class, if there is one.
    pub parent: Option<usize>,
    /// The generic arguments of the class, as many as it has.
    pub generic_args: Vec<TypeShape>,
}

/// The protobuf name of a cached scalar type (`None` for types with no such name).
pub open spec fn spec_scalar_name(t: CachedType) -> Option<Seq<char>> {
    match t {
        CachedType::Boolean => Some("bool"@),
        CachedType::Int32 => Some("int32"@),
        CachedType::UInt32 => Some("uint32"@),
        CachedType::Int64 => Some("int64"@),
        CachedType::UInt64 => Some("uint64"@),
        CachedType::Single => Some("float"@),
        CachedType::Double => Some("double"@),
        CachedType::String => Some("string"@),
        CachedType::ByteString => Some("bytes"@),
        CachedType::Any => Some("google.protobuf.Any"@),
        _ => None,
    }
}

/// Whether every cached class the mapping reaches has a protobuf name.
pub open spec fn spec_mappable(m: Map<usize, CachedType>, ty: TypeShape) -> bool
    decreases ty,
{
    if m.contains_key(ty.class) {
        spec_scalar_name(m[ty.class]) is Some
    } else if ty.generic_args@.len() == 1 {
        spec_mappable(m, ty.generic_args@[0])
    } else if ty.generic_args@.len() == 2 {
        spec_mappable(m, ty.generic_args@[0]) && spec_mappable(m, ty.generic_args@[1])
    } else {
        true
    }
}

/// The protobuf type of a field type: the scalar name of a cached class,
/// `repeated T` for a list, `map<K, V>` for a dictionary, else the class name.
pub open spec fn spec_proto_type(m: Map<usize, CachedType>, ty: TypeShape) -> Seq<char>
    decreases ty,
{
    if m.contains_key(ty.class) {
        spec_scalar_name(m[ty.class]).unwrap()
    } else if ty.generic_args@.len() == 1 {
        "repeated "@ + spec_proto_type(m, ty.generic_args@[0])
    } else if ty.generic_args@.len() == 2 {
        "map<"@ + spec_proto_type(m, ty.generic_args@[0]) + ", "@ + spec_proto_type(
            m,
            ty.generic_args@[1],
        ) + ">"@
    } else {
        ty.name@
    }
}

/// A field whose type is a cached scalar class has the protobuf type of that
/// scalar: bool, int32, uint32, int64, uint64, float (32-bit `Single`), double
/// (64-bit `Double`), string, bytes and `google.protobuf.Any`.
pub proof fn lemma_scalar_protobuf_names(m: Map<usize, CachedType>, ty: TypeShape)
    requires
        m.contains_key(ty.class),
    ensures
        m[ty.class] == CachedType::Boolean ==> spec_proto_type(m, ty) == "bool"@,
        m[ty.class] == CachedType::Int32 ==> spec_proto_type(m, ty) == "int32"@,
        m[ty.class] == CachedType::UInt32 ==> spec_proto_type(m, ty) == "uint32"@,
        m[ty.class] == CachedType::Int64 ==> spec_proto_type(m, ty) == "int64"@,
        m[ty.class] == CachedType::UInt64 ==> spec_proto_type(m, ty) == "uint64"@,
        m[ty.class] == CachedType::Single ==> spec_proto_type(m, ty) == "float"@,
        m[ty.class] == CachedType::Double ==> spec_proto_type(m, ty) == "double"@,
        m[ty.class] == CachedType::String ==> spec_proto_type(m, ty) == "string"@,
        m[ty.class] == CachedType::ByteString ==> spec_proto_type(m, ty) == "bytes"@,
        m[ty.class] == CachedType::Any ==> spec_proto_type(m, ty) == "google.protobuf.Any"@,
        spec_mappable(m, ty) <==> !(m[ty.class] == CachedType::Object || m[ty.class]
            == CachedType::Byte || m[ty.class] == CachedType::SByte || m[ty.class]
            == CachedType::UInt16 || m[ty.class] == CachedType::Int16 || m[ty.class]
            == CachedType::Enum),
{
}

/// Whether a class's parent is the cached `Enum` class.
pub open spec fn spec_parent_is_enum(m: Map<usize, CachedType>, parent: Option<usize>) -> bool {
    match parent {
        Some(p) => m.contains_key(p) && m[p] == CachedType::Enum,
        None => false,
    }
}

/// Whether a field type is an enum, or a list of enums, or a dictionary with enum values.
pub open spec fn spec_is_enum_type(m: Map<usize, CachedType>, ty: TypeShape) -> bool
    decreases ty,
{
    if ty.generic_args@.len() == 0 {
        spec_parent_is_enum(m, ty.parent)
    } else if ty.generic_args@.len() == 1 {
        spec_is_enum_type(m, ty.generic_args@[0])
    } else if ty.generic_args@.len() == 2 {
        spec_is_enum_type(m, ty.generic_args@[1])
    } else {
        false
    }
}

/// How a field's current value is read from an object.
#[derive(PartialEq, Eq, Structural, Clone, Copy)]
pub enum ValueKind {
    /// One byte.
    Byte,
    /// Two bytes.
    Half,
    /// Four bytes.
    Word,
    /// Eight bytes.
    Quad,
    /// A pointer-sized word.
    Pointer,
    /// The element count of the collection the field points to.
    CollectionCount,
}

/// How the value of a field of the given type is read.
pub open spec fn spec_value_kind(m: Map<usize, CachedType>, ty: TypeShape) -> ValueKind {
    if m.contains_key(ty.class) {
        match m[ty.class] {
            CachedType::Boolean | CachedType::Byte | CachedType::SByte => ValueKind::Byte,
            CachedType::Int16 | CachedType::UInt16 => ValueKind::Half,
            CachedType::Single | CachedType::Int32 | CachedType::UInt32 => ValueKind::Word,
            CachedType::Double | CachedType::Int64 | CachedType::UInt64 => ValueKind::Quad,
            _ => ValueKind::Pointer,
        }
    } else if ty.generic_args@.len() != 0 {
        ValueKind::CollectionCount
    } else if spec_parent_is_enum(m, ty.parent) {
        ValueKind::Word
    } else {
        ValueKind::Pointer
    }
}

impl TypeCache {
    /// Builds the cache from (class address, kind) pairs; a later pair wins over
    /// an earlier one with the same address.
    pub fn init(entries: &[(usize, CachedType)]) -> (cache: Self)
        ensures
            cache.type_map@ == spec_map_of(entries@),
    {
        let mut type_map: BTreeMap<usize, CachedType> = BTreeMap::new();
        let mut i: usize = 0;
        while i < entries.len()
            invariant
                i <= entries@.len(),
                type_map@ == spec_map_of(entries@.take(i as int)),
            decreases entries@.len() - i,
        {
            proof {
                assert(entries@.take(i + 1).drop_last() =~= entries@.take(i as int));
            }
            type_map.insert(entries[i].0, entries[i].1);
            i = i + 1;
        }
        assert(entries@.take(i as int) =~= entries@);
        TypeCache { type_map }
    }

    /// The cached kind of a class, if it has one.
    pub fn lookup(&self, class: usize) -> (r: Option<CachedType>)
        ensures
            r == (if self.type_map@.contains_key(class) {
                Some(self.type_map@[class])
            } else {
                None
            }),
    {
        match self.type_map.get(&class) {
            Some(t) => Some(*t),
            None => None,
        }
    }

    /// Whether the parent class is the cached `Enum` class.
    pub fn parent_is_enum(&self, parent: Option<usize>) -> (r: bool)
        ensures
            r == spec_parent_is_enum(self.type_map@, parent),
    {
        match parent {
            Some(p) => match self.lookup(p) {
                Some(CachedType::Enum) => true,
                _ => false,
            },
            None => false,
        }
    }

    /// How the value of a field of the given type is read from an object.
    pub fn value_kind(&self, ty: &TypeShape) -> (k: ValueKind)
        requires
            !(self.type_map@.contains_key(ty.class) && self.type_map@[ty.class]
                == CachedType::Enum),
        ensures
            k == spec_value_kind(self.type_map@, *ty),
    {
        match self.lookup(ty.class) {
            Some(t) => match t {
                CachedType::Boolean | CachedType::Byte | CachedType::SByte => ValueKind::Byte,
                CachedType::Int16 | CachedType::UInt16 => ValueKind::Half,
                CachedType::Single | CachedType::Int32 | CachedType::UInt32 => ValueKind::Word,
                CachedType::Double | CachedType::Int64 | CachedType::UInt64 => ValueKind::Quad,
                _ => ValueKind::Pointer,
            },
            None => {
                if ty.generic_args.len() != 0 {
                    ValueKind::CollectionCount
                } else if self.parent_is_enum(ty.parent) {
                    ValueKind::Word
                } else {
                    ValueKind::Pointer
                }
            },
        }
    }
}

/// Appends the protobuf type of a field type.
pub fn write_protobuf_type(out: &mut String, cache: &TypeCache, ty: &TypeShape)
    requires
        spec_mappable(cache.type_map@, *ty),
    ensures
        final(out)@ == old(out)@ + spec_proto_type(cache.type_map@, *ty),
    decreases ty,
{
    match cache.lookup(ty.class) {
        Some(t) => {
            match t {
                CachedType::Boolean => out.append("bool"),
                CachedType::Int32 => out.append("int32"),
                CachedType::UInt32 => out.append("uint32"),
                CachedType::Int64 => out.append("int64"),
                CachedType::UInt64 => out.append("uint64"),
                CachedType::Single => out.append("float"),
                CachedType::Double => out.append("double"),
                CachedType::String => out.append("string"),
                CachedType::ByteString => out.append("bytes"),
                CachedType::Any => out.append("google.protobuf.Any"),
                _ => {},
            }
        },
        None => {
            let n = ty.generic_args.len();
            if n == 1 {
                out.append("repeated ");
                proof {
                    assert(decreases_to!(ty => ty.generic_args@[0]));
                }
                write_protobuf_type(out, cache, &ty.generic_args[0]);
                assert(out@ =~= old(out)@ + spec_proto_type(cache.type_map@, *ty));
            } else if n == 2 {
                out.append("map<");
                proof {
                    assert(decreases_to!(ty => ty.generic_args@[0]));
                    assert(decreases_to!(ty => ty.generic_args@[1]));
                }
                write_protobuf_type(out, cache, &ty.generic_args[0]);
                out.append(", ");
                write_protobuf_type(out, cache, &ty.generic_args[1]);
                out.append(">");
                assert(out@ =~= old(out)@ + spec_proto_type(cache.type_map@, *ty));
            } else {
                out.append(ty.name.as_str());
            }
        },
    }
}

/// The protobuf type of a field type, as a new string.
pub fn csharp_type_to_protobuf_type(cache: &TypeCache, ty: &TypeShape) -> (r: String)
    requires
        spec_mappable(cache.type_map@, *ty),
    ensures
        r@ == spec_proto_type(cache.type_map@, *ty),
{
    let mut out = String::new();
    write_protobuf_type(&mut out, cache, ty);
    out
}

/// Whether a field type is an enum, a list of enums or a dictionary with enum values.
pub fn is_enum_type(cache: &TypeCache, ty: &TypeShape) -> (r: bool)
    ensures
        r == spec_is_enum_type(cache.type_map@, *ty),
    decreases ty,
{
    let n = ty.generic_args.len();
    if n == 0 {
        cache.parent_is_enum(ty.parent)
    } else if n == 1 {
        proof {
            assert(decreases_to!(ty => ty.generic_args@[0]));
        }
        is_enum_type(cache, &ty.generic_args[0])
    } else if n == 2 {
        proof {
            assert(decreases_to!(ty => ty.generic_args@[1]));
        }
        is_enum_type(cache, &ty.generic_args[1])
    } else {
        false
    }
}

/// Whether every cached class a field type reaches has a protobuf name, so that
/// its protobuf type can be written.
pub fn is_mappable(cache: &TypeCache, ty: &TypeShape) -> (r: bool)
    ensures
        r == spec_mappable(cache.type_map@, *ty),
    decreases ty,
{
    match cache.lookup(ty.class) {
        Some(t) => match t {
            CachedType::Object | CachedType::Byte | CachedType::SByte | CachedType::UInt16
            | CachedType::Int16 | CachedType::Enum => false,
            _ => true,
        },
        None => {
            let n = ty.generic_args.len();
            if n == 1 {
                proof {
                    assert(decreases_to!(ty => ty.generic_args@[0]));
                }
                is_mappable(cache, &ty.generic_args[0])
            } else if n == 2 {
                proof {
                    assert(decreases_to!(ty => ty.generic_args@[0]));
                    assert(decreases_to!(ty => ty.generic_args@[1]));
                }
                is_mappable(cache, &ty.generic_args[0]) && is_mappable(cache, &ty.generic_args[1])
            } else {
                true
            }
        },
    }
}

} // verus!
