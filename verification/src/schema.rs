//! Turning the probed fields of the message classes, and the enum classes, into
//! the definitions of a proto file.
use vstd::prelude::*;
use crate::cache::{
    csharp_type_to_protobuf_type, is_enum_type, is_mappable, spec_is_enum_type, spec_mappable,
    spec_parent_is_enum, spec_proto_type, TypeCache, TypeShape,
};
use crate::proto::{
    Enum, Field, FieldComment, FieldModel, ItemModel, Message, Oneof, OneofModel, ProtoFile,
    ProtoItem,
};
use crate::text::str_eq;

verus! {

/// Name of the placeholder class that is left out of the proto file.
pub const HOLLOW_CLASS: &'static str = "__HOLLOW__1_0";

/// A field of a class seen as a constant: its name, whether it belongs to
/// objects, and the value of its static storage.
pub struct ConstantField {
    pub name: String,
    pub is_instance: bool,
    pub value: usize,
}

/// A field of a class as the proto builder needs it.
pub struct ClassField {
    pub name: String,
    pub token: u32,
    pub offset: u32,
    pub is_instance: bool,
    /// Value of the field's static storage (the value of an enum constant).
    pub static_value: usize,
    pub field_type: TypeShape,
    /// The fields of the field's type seen as constants (the cases of a oneof
    /// case enum).
    pub type_fields: Vec<ConstantField>,
}

/// A class of the protocol assembly.
pub struct ProtoClass {
    pub name: String,
    pub token: u32,
    /// Address of the parent class, if there is one.
    pub parent: Option<usize>,
    pub fields: Vec<ClassField>,
}

/// The oneof part of a found field: the field telling the alternative, and the
/// type of the stored value.
pub struct FoundOneof {
    pub oneof_enum_offset: u32,
    pub variant: TypeShape,
}

/// A field found by probing, with the oneof variant type resolved.
pub struct FoundField {
    pub tag: u32,
    pub xor: u32,
    pub offset: u32,
    pub oneof: Option<FoundOneof>,
}

/// The fields found in the message class with the token.
pub struct FoundMessage {
    pub token: u32,
    pub cmd_id: u16,
    pub fields: Vec<FoundField>,
}

// ---------------------------------------------------------------------------
// Lookups
// ---------------------------------------------------------------------------

/// The last probing result for a class token, as a map that is filled in order keeps it.
pub open spec fn spec_lookup(found: Seq<FoundMessage>, token: u32) -> Option<int>
    decreases found.len(),
{
    if found.len() == 0 {
        None
    } else if found.last().token == token {
        Some(found.len() - 1)
    } else {
        spec_lookup(found.drop_last(), token)
    }
}

/// The index of the last probing result for a class token.
pub fn lookup_found(found: &[FoundMessage], token: u32) -> (r: Option<usize>)
    ensures
        r matches Some(k) ==> spec_lookup(found@, token) == Some(k as int) && k < found@.len(),
        r is None ==> spec_lookup(found@, token) is None,
{
    let mut i: usize = found.len();
    assert(found@.take(i as int) =~= found@);
    while i > 0
        invariant
            i <= found@.len(),
            spec_lookup(found@, token) == spec_lookup(found@.take(i as int), token),
        decreases i,
    {
        assert(found@.take(i as int).drop_last() =~= found@.take(i - 1));
        if found[i - 1].token == token {
            return Some(i - 1);
        }
        i = i - 1;
    }
    None
}

/// The first instance field at the offset (the length when there is none).
pub open spec fn spec_instance_at(fields: Seq<ClassField>, offset: u32) -> int
    decreases fields.len(),
{
    if fields.len() == 0 {
        0
    } else if fields[0].is_instance && fields[0].offset == offset {
        0
    } else {
        1 + spec_instance_at(fields.drop_first(), offset)
    }
}

/// Whether some instance field is at the offset.
pub open spec fn spec_has_instance_at(fields: Seq<ClassField>, offset: u32) -> bool {
    exists|i: int| 0 <= i < fields.len() && (#[trigger] fields[i]).is_instance && fields[i].offset == offset
}

proof fn lemma_instance_at(fields: Seq<ClassField>, offset: u32)
    ensures
        0 <= spec_instance_at(fields, offset) <= fields.len(),
        spec_has_instance_at(fields, offset) ==> spec_instance_at(fields, offset) < fields.len(),
    decreases fields.len(),
{
    if fields.len() > 0 && !(fields[0].is_instance && fields[0].offset == offset) {
        let rest = fields.drop_first();
        lemma_instance_at(rest, offset);
        if spec_has_instance_at(fields, offset) {
            let i = choose|i: int| 0 <= i < fields.len() && (#[trigger] fields[i]).is_instance && fields[i].offset == offset;
            assert(rest[i - 1] == fields[i]);
        }
    }
}

/// The index of the first instance field at the offset.
fn instance_at(fields: &Vec<ClassField>, offset: u32) -> (i: usize)
    ensures
        i == spec_instance_at(fields@, offset),
{
    let mut i: usize = 0;
    assert(fields@.skip(0) =~= fields@);
    while i < fields.len()
        invariant
            i <= fields@.len(),
            spec_instance_at(fields@, offset) == i + spec_instance_at(fields@.skip(i as int), offset),
        decreases fields@.len() - i,
    {
        if fields[i].is_instance && fields[i].offset == offset {
            return i;
        }
        assert(fields@.skip(i as int).drop_first() =~= fields@.skip(i + 1));
        i = i + 1;
    }
    i
}

/// Whether a constant is the case with the number: a static field whose value's
/// low 32 bits are the number.
pub open spec fn spec_is_case(c: ConstantField, number: u32) -> bool {
    !c.is_instance && c.value as u32 == number
}

/// The first case with the number (the length when there is none).
pub open spec fn spec_case_at(cases: Seq<ConstantField>, number: u32) -> int
    decreases cases.len(),
{
    if cases.len() == 0 {
        0
    } else if spec_is_case(cases[0], number) {
        0
    } else {
        1 + spec_case_at(cases.drop_first(), number)
    }
}

proof fn lemma_case_at(cases: Seq<ConstantField>, number: u32)
    ensures
        0 <= spec_case_at(cases, number) <= cases.len(),
        (exists|i: int| 0 <= i < cases.len() && spec_is_case(#[trigger] cases[i], number))
            ==> spec_case_at(cases, number) < cases.len(),
    decreases cases.len(),
{
    if cases.len() > 0 && !spec_is_case(cases[0], number) {
        let rest = cases.drop_first();
        lemma_case_at(rest, number);
        if exists|i: int| 0 <= i < cases.len() && spec_is_case(#[trigger] cases[i], number) {
            let i = choose|i: int| 0 <= i < cases.len() && spec_is_case(#[trigger] cases[i], number);
            assert(rest[i - 1] == cases[i]);
        }
    }
}

/// The index of the first case with the number.
fn case_at(cases: &Vec<ConstantField>, number: u32) -> (i: usize)
    ensures
        i == spec_case_at(cases@, number),
{
    let mut i: usize = 0;
    assert(cases@.skip(0) =~= cases@);
    while i < cases.len()
        invariant
            i <= cases@.len(),
            spec_case_at(cases@, number) == i + spec_case_at(cases@.skip(i as int), number),
        decreases cases@.len() - i,
    {
        let v: u32 = #[verifier::truncate] (cases[i].value as u32);
        if !cases[i].is_instance && v == number {
            return i;
        }
        assert(cases@.skip(i as int).drop_first() =~= cases@.skip(i + 1));
        i = i + 1;
    }
    i
}

// ---------------------------------------------------------------------------
// Plain fields, sorted by token
// ---------------------------------------------------------------------------

/// A plain found field as a proto field, with the token of its class field.
pub open spec fn spec_plain_entry(c: ProtoClass, f: FoundField, m: Map<usize, crate::cache::CachedType>) -> (u32, FieldModel) {
    let cf = c.fields@[spec_instance_at(c.fields@, f.offset)];
    (
        cf.token,
        FieldModel {
            kind: spec_proto_type(m, cf.field_type),
            name: cf.name@,
            number: f.tag >> 3u32,
            comment: Some(FieldComment { offset: cf.offset, xor_const: f.xor }),
            is_enum: spec_is_enum_type(m, cf.field_type),
        },
    )
}

/// The found fields that are not oneof alternatives, as proto fields, in order.
pub open spec fn spec_plain_entries(
    c: ProtoClass,
    fs: Seq<FoundField>,
    m: Map<usize, crate::cache::CachedType>,
) -> Seq<(u32, FieldModel)>
    decreases fs.len(),
{
    if fs.len() == 0 {
        Seq::empty()
    } else {
        let prev = spec_plain_entries(c, fs.drop_last(), m);
        if fs.last().oneof is None {
            prev.push(spec_plain_entry(c, fs.last(), m))
        } else {
            prev
        }
    }
}

/// Whether an entry is the plain entry of some found field that is not a oneof
/// alternative.
spec fn spec_from_plain_probe(e: (u32, FieldModel), c: ProtoClass, fs: Seq<FoundField>, m: Map<usize, crate::cache::CachedType>) -> bool {
    exists|j: int| 0 <= j < fs.len() && (#[trigger] fs[j]).oneof is None && e == spec_plain_entry(c, fs[j], m)
}

/// Every plain entry comes from a found field that is not a oneof alternative.
proof fn lemma_plain_entries_from(c: ProtoClass, fs: Seq<FoundField>, m: Map<usize, crate::cache::CachedType>)
    ensures
        forall|i: int|
            0 <= i < spec_plain_entries(c, fs, m).len() ==> spec_from_plain_probe(
                #[trigger] spec_plain_entries(c, fs, m)[i],
                c,
                fs,
                m,
            ),
    decreases fs.len(),
{
    if fs.len() > 0 {
        let p = fs.drop_last();
        lemma_plain_entries_from(c, p, m);
        let prev = spec_plain_entries(c, p, m);
        let s = spec_plain_entries(c, fs, m);
        assert forall|i: int| 0 <= i < s.len() implies spec_from_plain_probe(#[trigger] s[i], c, fs, m) by {
            if i < prev.len() {
                assert(spec_from_plain_probe(prev[i], c, p, m));
                let j = choose|j: int|
                    0 <= j < p.len() && (#[trigger] p[j]).oneof is None && prev[i] == spec_plain_entry(c, p[j], m);
                assert(fs[j] == p[j]);
                if fs.last().oneof is None {
                    assert(s == prev.push(spec_plain_entry(c, fs.last(), m)));
                } else {
                    assert(s == prev);
                }
                assert(s[i] == prev[i]);
            } else {
                let j = fs.len() - 1;
                assert(fs.last().oneof is None);
                assert(s == prev.push(spec_plain_entry(c, fs.last(), m)));
                assert(s[i] == spec_plain_entry(c, fs[j], m));
            }
        }
    }
}

/// Where an entry with the key goes: after the last entry whose key is not greater.
pub open spec fn spec_insert_pos(s: Seq<(u32, FieldModel)>, key: u32) -> int
    decreases s.len(),
{
    if s.len() == 0 {
        0
    } else if s.last().0 <= key {
        s.len() as int
    } else {
        spec_insert_pos(s.drop_last(), key)
    }
}

/// Inserting an entry into a list sorted by key, after the entries with equal keys.
pub open spec fn spec_insert_sorted(s: Seq<(u32, FieldModel)>, x: (u32, FieldModel)) -> Seq<
    (u32, FieldModel),
> {
    s.insert(spec_insert_pos(s, x.0), x)
}

/// The entries sorted by key; entries with equal keys keep their order.
pub open spec fn spec_sort_by_key(s: Seq<(u32, FieldModel)>) -> Seq<(u32, FieldModel)>
    decreases s.len(),
{
    if s.len() == 0 {
        Seq::empty()
    } else {
        spec_insert_sorted(spec_sort_by_key(s.drop_last()), s.last())
    }
}

/// Whether the entries are in nondecreasing key order.
pub open spec fn spec_sorted(s: Seq<(u32, FieldModel)>) -> bool {
    forall|i: int, j: int| 0 <= i < j < s.len() ==> (#[trigger] s[i]).0 <= (#[trigger] s[j]).0
}

proof fn lemma_insert_pos(s: Seq<(u32, FieldModel)>, key: u32)
    requires
        spec_sorted(s),
    ensures
        0 <= spec_insert_pos(s, key) <= s.len(),
        forall|i: int| 0 <= i < spec_insert_pos(s, key) ==> (#[trigger] s[i]).0 <= key,
        forall|i: int| spec_insert_pos(s, key) <= i < s.len() ==> (#[trigger] s[i]).0 > key,
    decreases s.len(),
{
    if s.len() > 0 && s.last().0 <= key {
        assert forall|i: int| 0 <= i < spec_insert_pos(s, key) implies (#[trigger] s[i]).0 <= key by {
            if i < s.len() - 1 {
                assert(s[i].0 <= s[s.len() - 1].0);
            }
        }
    }
    if s.len() > 0 && s.last().0 > key {
        let p = s.drop_last();
        assert forall|i: int, j: int| 0 <= i < j < p.len() implies (#[trigger] p[i]).0 <= (#[trigger] p[j]).0 by {
            assert(p[i] == s[i] && p[j] == s[j]);
        }
        lemma_insert_pos(p, key);
        assert forall|i: int| 0 <= i < spec_insert_pos(s, key) implies (#[trigger] s[i]).0 <= key by {
            assert(s[i] == p[i]);
        }
        assert forall|i: int| spec_insert_pos(s, key) <= i < s.len() implies (#[trigger] s[i]).0 > key by {
            if i < s.len() - 1 {
                assert(s[i] == p[i]);
            }
        }
    }
}

/// Sorting gives nondecreasing keys and keeps every entry exactly as often.
pub proof fn lemma_sort_by_key(s: Seq<(u32, FieldModel)>)
    ensures
        spec_sorted(spec_sort_by_key(s)),
        spec_sort_by_key(s).to_multiset() == s.to_multiset(),
    decreases s.len(),
{
    broadcast use vstd::multiset::group_multiset_axioms, vstd::seq_lib::group_to_multiset_ensures;

    if s.len() > 0 {
        let p = spec_sort_by_key(s.drop_last());
        lemma_sort_by_key(s.drop_last());
        let x = s.last();
        lemma_insert_pos(p, x.0);
        let k = spec_insert_pos(p, x.0);
        let r = p.insert(k, x);
        assert forall|i: int, j: int| 0 <= i < j < r.len() implies (#[trigger] r[i]).0 <= (#[trigger] r[j]).0 by {
            if j < k {
            } else if j == k {
            } else if i < k {
                assert(r[j] == p[j - 1]);
            } else if i == k {
                assert(r[j] == p[j - 1]);
            } else {
                assert(r[i] == p[i - 1] && r[j] == p[j - 1]);
            }
        }
        vstd::seq_lib::lemma_seq_union_to_multiset_commutative(p.take(k), p.skip(k));
        assert(r =~= p.take(k).push(x) + p.skip(k));
        assert(p =~= p.take(k) + p.skip(k));
        vstd::seq_lib::lemma_multiset_commutative(p.take(k).push(x), p.skip(k));
        vstd::seq_lib::lemma_multiset_commutative(p.take(k), p.skip(k));
        assert(s =~= s.drop_last().push(x));
    }
}

/// Inserts an entry into a list sorted by key, after the entries with equal keys.
fn insert_sorted(v: &mut Vec<(u32, Field)>, x: (u32, Field))
    ensures
        final(v)@.map_values(|e: (u32, Field)| (e.0, e.1@)) == spec_insert_sorted(
            old(v)@.map_values(|e: (u32, Field)| (e.0, e.1@)),
            (x.0, x.1@),
        ),
{
    let ghost model = v@.map_values(|e: (u32, Field)| (e.0, e.1@));
    let mut p: usize = v.len();
    assert(model.take(p as int) =~= model);
    while p > 0 && v[p - 1].0 > x.0
        invariant
            p <= v@.len(),
            v@ == old(v)@,
            model == v@.map_values(|e: (u32, Field)| (e.0, e.1@)),
            spec_insert_pos(model, x.0) == spec_insert_pos(model.take(p as int), x.0),
        decreases p,
    {
        assert(model.take(p as int).drop_last() =~= model.take(p - 1));
        p = p - 1;
    }
    proof {
        if p > 0 {
            assert(model[p - 1].0 == v@[p - 1].0);
            assert(model.take(p as int).last().0 <= x.0);
        }
    }
    assert(spec_insert_pos(model, x.0) == p);
    let ghost xm = (x.0, x.1@);
    v.insert(p, x);
    assert(v@.map_values(|e: (u32, Field)| (e.0, e.1@)) =~= model.insert(p as int, xm));
}

// ---------------------------------------------------------------------------
// Oneofs
// ---------------------------------------------------------------------------

/// The first oneof group with the name (the length when there is none).
pub open spec fn spec_oneof_index(oneofs: Seq<OneofModel>, name: Seq<char>) -> int
    decreases oneofs.len(),
{
    if oneofs.len() == 0 {
        0
    } else if oneofs[0].name == name {
        0
    } else {
        1 + spec_oneof_index(oneofs.drop_first(), name)
    }
}

/// The proto field of a oneof alternative: named after its case, typed after
/// the stored value.
pub open spec fn spec_oneof_field(c: ProtoClass, f: FoundField, m: Map<usize, crate::cache::CachedType>) -> FieldModel {
    let o = f.oneof.unwrap();
    let enum_field = c.fields@[spec_instance_at(c.fields@, o.oneof_enum_offset)];
    let case = enum_field.type_fields@[spec_case_at(enum_field.type_fields@, f.tag >> 3u32)];
    FieldModel {
        kind: spec_proto_type(m, o.variant),
        name: case.name@,
        number: f.tag >> 3u32,
        comment: None,
        is_enum: spec_is_enum_type(m, o.variant),
    }
}

/// Adding a oneof alternative to the group named after its storage field,
/// starting the group when there is none yet.
pub open spec fn spec_add_alternative(
    oneofs: Seq<OneofModel>,
    group: Seq<char>,
    field: FieldModel,
) -> Seq<OneofModel> {
    let k = spec_oneof_index(oneofs, group);
    if k < oneofs.len() {
        oneofs.update(k, OneofModel { name: oneofs[k].name, fields: oneofs[k].fields.push(field) })
    } else {
        oneofs.push(OneofModel { name: group, fields: seq![field] })
    }
}

/// The oneof groups of the found alternatives, in order of first appearance.
pub open spec fn spec_oneofs(c: ProtoClass, fs: Seq<FoundField>, m: Map<usize, crate::cache::CachedType>) -> Seq<
    OneofModel,
>
    decreases fs.len(),
{
    if fs.len() == 0 {
        Seq::empty()
    } else {
        let prev = spec_oneofs(c, fs.drop_last(), m);
        let f = fs.last();
        if f.oneof is Some {
            let data = c.fields@[spec_instance_at(c.fields@, f.offset)];
            spec_add_alternative(prev, data.name@, spec_oneof_field(c, f, m))
        } else {
            prev
        }
    }
}

/// The index of the first oneof group with the name.
fn oneof_index(oneofs: &Vec<Oneof>, name: &str) -> (i: usize)
    ensures
        i == spec_oneof_index(oneofs@.map_values(|o: Oneof| o@), name@),
{
    let ghost model = oneofs@.map_values(|o: Oneof| o@);
    let mut i: usize = 0;
    assert(model.skip(0) =~= model);
    while i < oneofs.len()
        invariant
            i <= oneofs@.len(),
            model == oneofs@.map_values(|o: Oneof| o@),
            spec_oneof_index(model, name@) == i + spec_oneof_index(model.skip(i as int), name@),
        decreases oneofs@.len() - i,
    {
        if str_eq(oneofs[i].name.as_str(), name) {
            return i;
        }
        assert(model.skip(i as int).drop_first() =~= model.skip(i + 1));
        i = i + 1;
    }
    i
}

// ---------------------------------------------------------------------------
// Enums
// ---------------------------------------------------------------------------

/// The enum variants among the class fields: the static ones whose value is
/// zero, or else those whose value is not, named `Enum_Field`.
pub open spec fn spec_variants_where(
    enum_name: Seq<char>,
    fields: Seq<ClassField>,
    zero: bool,
) -> Seq<(Seq<char>, i32)>
    decreases fields.len(),
{
    if fields.len() == 0 {
        Seq::empty()
    } else {
        let prev = spec_variants_where(enum_name, fields.drop_last(), zero);
        let f = fields.last();
        if !f.is_instance && (f.static_value == 0) == zero {
            prev.push((enum_name + "_"@ + f.name@, f.static_value as i32))
        } else {
            prev
        }
    }
}

/// The variants of an enum class: the zero one first, then the others in order.
pub open spec fn spec_enum_variants(c: ProtoClass) -> Seq<(Seq<char>, i32)> {
    spec_variants_where(c.name@, c.fields@, true) + spec_variants_where(c.name@, c.fields@, false)
}

// ---------------------------------------------------------------------------
// Items
// ---------------------------------------------------------------------------

/// The definition a class gives: a message when it was probed, an enum when its
/// parent is `Enum`, nothing otherwise or for the placeholder class.
pub open spec fn spec_class_item(
    c: ProtoClass,
    found: Seq<FoundMessage>,
    m: Map<usize, crate::cache::CachedType>,
) -> Option<ItemModel> {
    if c.name@ == HOLLOW_CLASS@ {
        None
    } else {
        match spec_lookup(found, c.token) {
            Some(k) => {
                let msg = found[k];
                Some(
                    ItemModel::Message {
                        cmd_id: msg.cmd_id,
                        name: c.name@,
                        fields: spec_sort_by_key(spec_plain_entries(c, msg.fields@, m)).map_values(
                            |e: (u32, FieldModel)| e.1,
                        ),
                        oneofs: spec_oneofs(c, msg.fields@, m),
                    },
                )
            },
            None => if spec_parent_is_enum(m, c.parent) {
                Some(ItemModel::Enum { name: c.name@, variants: spec_enum_variants(c) })
            } else {
                None
            },
        }
    }
}

/// The definitions of the classes, in order.
pub open spec fn spec_items(
    classes: Seq<ProtoClass>,
    found: Seq<FoundMessage>,
    m: Map<usize, crate::cache::CachedType>,
) -> Seq<ItemModel>
    decreases classes.len(),
{
    if classes.len() == 0 {
        Seq::empty()
    } else {
        let prev = spec_items(classes.drop_last(), found, m);
        match spec_class_item(classes.last(), found, m) {
            Some(item) => prev.push(item),
            None => prev,
        }
    }
}

/// Every field of a probed message's definition comes from a probed field that
/// is not a oneof alternative: it has the name of the first instance field at the
/// probed offset, the number of the probed tag, the protobuf type of that
/// field's type, the probed xor constant with the field's offset as its comment,
/// and it is marked as an enum exactly when that type is an enum, a list of enums
/// or a map with enum values.
pub proof fn lemma_message_fields_from_probes(
    c: ProtoClass,
    found: Seq<FoundMessage>,
    m: Map<usize, crate::cache::CachedType>,
)
    requires
        c.name@ != HOLLOW_CLASS@,
        spec_lookup(found, c.token) is Some,
    ensures
        ({
            let fs = found[spec_lookup(found, c.token).unwrap()].fields@;
            spec_class_item(c, found, m) matches Some(ItemModel::Message { fields, .. })
                && forall|i: int|
                #![trigger fields[i]]
                0 <= i < fields.len() ==> exists|j: int|
                    0 <= j < fs.len() && (#[trigger] fs[j]).oneof is None && {
                        let cf = c.fields@[spec_instance_at(c.fields@, fs[j].offset)];
                        &&& fields[i].name == cf.name@
                        &&& fields[i].number == fs[j].tag >> 3u32
                        &&& fields[i].kind == spec_proto_type(m, cf.field_type)
                        &&& fields[i].is_enum == spec_is_enum_type(m, cf.field_type)
                        &&& fields[i].comment == Some(
                            FieldComment { offset: cf.offset, xor_const: fs[j].xor },
                        )
                    }
        }),
{
    broadcast use vstd::seq_lib::group_to_multiset_ensures;

    let k = spec_lookup(found, c.token).unwrap();
    let fs = found[k].fields@;
    let entries = spec_plain_entries(c, fs, m);
    let sorted = spec_sort_by_key(entries);
    let fields = sorted.map_values(|e: (u32, FieldModel)| e.1);
    lemma_sort_by_key(entries);
    lemma_plain_entries_from(c, fs, m);
    assert forall|i: int| #![trigger fields[i]] 0 <= i < fields.len() implies exists|j: int|
        0 <= j < fs.len() && (#[trigger] fs[j]).oneof is None && {
            let cf = c.fields@[spec_instance_at(c.fields@, fs[j].offset)];
            &&& fields[i].name == cf.name@
            &&& fields[i].number == fs[j].tag >> 3u32
            &&& fields[i].kind == spec_proto_type(m, cf.field_type)
            &&& fields[i].is_enum == spec_is_enum_type(m, cf.field_type)
            &&& fields[i].comment == Some(FieldComment { offset: cf.offset, xor_const: fs[j].xor })
        } by {
        let x = sorted[i];
        assert(sorted.contains(x));
        assert(sorted.to_multiset().count(x) > 0);
        assert(entries.to_multiset().count(x) > 0);
        assert(entries.contains(x));
        let t = choose|t: int| 0 <= t < entries.len() && entries[t] == x;
        assert(spec_from_plain_probe(entries[t], c, fs, m));
        let j = choose|j: int|
            0 <= j < fs.len() && (#[trigger] fs[j]).oneof is None && entries[t] == spec_plain_entry(c, fs[j], m);
        assert(fields[i] == x.1);
    }
}

/// Whether every found field of a message can be placed: its storage field
/// exists and its type maps to a protobuf type; for a oneof alternative, the
/// field telling the alternative exists with a case of the field's number.
pub open spec fn spec_found_field_ok(c: ProtoClass, f: FoundField, m: Map<usize, crate::cache::CachedType>) -> bool {
    &&& spec_has_instance_at(c.fields@, f.offset)
    &&& match f.oneof {
        None => spec_mappable(m, c.fields@[spec_instance_at(c.fields@, f.offset)].field_type),
        Some(o) => {
            &&& spec_has_instance_at(c.fields@, o.oneof_enum_offset)
            &&& exists|i: int|
                0 <= i < c.fields@[spec_instance_at(
                    c.fields@,
                    o.oneof_enum_offset,
                )].type_fields@.len() && spec_is_case(
                    #[trigger] c.fields@[spec_instance_at(
                        c.fields@,
                        o.oneof_enum_offset,
                    )].type_fields@[i],
                    f.tag >> 3u32,
                )
            &&& spec_mappable(m, o.variant)
        },
    }
}

/// Whether a class can be turned into its definition.
pub open spec fn spec_class_ok(
    c: ProtoClass,
    found: Seq<FoundMessage>,
    m: Map<usize, crate::cache::CachedType>,
) -> bool {
    forall|k: int, j: int|
        c.name@ != HOLLOW_CLASS@ && spec_lookup(found, c.token) == Some(k) && 0 <= j
            < found[k].fields@.len() ==> spec_found_field_ok(c, #[trigger] found[k].fields@[j], m)
}

proof fn lemma_class_ok(c: ProtoClass, found: Seq<FoundMessage>, m: Map<usize, crate::cache::CachedType>, k: int)
    requires
        spec_class_ok(c, found, m),
        c.name@ != HOLLOW_CLASS@,
        spec_lookup(found, c.token) == Some(k),
    ensures
        forall|j: int|
            0 <= j < found[k].fields@.len() ==> spec_found_field_ok(c, #[trigger] found[k].fields@[j], m),
{
}

/// Whether every class can be turned into its definition.
pub open spec fn spec_buildable(
    classes: Seq<ProtoClass>,
    found: Seq<FoundMessage>,
    m: Map<usize, crate::cache::CachedType>,
) -> bool {
    forall|i: int| 0 <= i < classes.len() ==> spec_class_ok(#[trigger] classes[i], found, m)
}

// ---------------------------------------------------------------------------
// Building
// ---------------------------------------------------------------------------

/// The proto fields of the found fields that are not oneof alternatives, sorted
/// by the token of their class field (stable for equal tokens).
fn build_plain_fields(c: &ProtoClass, msg: &FoundMessage, cache: &TypeCache) -> (fields: Vec<
    Field,
>)
    requires
        forall|j: int|
            0 <= j < msg.fields@.len() ==> spec_found_field_ok(
                *c,
                #[trigger] msg.fields@[j],
                cache.type_map@,
            ),
    ensures
        fields@.map_values(|f: Field| f@) == spec_sort_by_key(
            spec_plain_entries(*c, msg.fields@, cache.type_map@),
        ).map_values(|e: (u32, FieldModel)| e.1),
{
    let ghost m = cache.type_map@;
    let mut entries: Vec<(u32, Field)> = Vec::new();
    let mut j: usize = 0;
    while j < msg.fields.len()
        invariant
            j <= msg.fields@.len(),
            m == cache.type_map@,
            forall|k: int|
                0 <= k < msg.fields@.len() ==> spec_found_field_ok(*c, #[trigger] msg.fields@[k], m),
            entries@.map_values(|e: (u32, Field)| (e.0, e.1@)) == spec_sort_by_key(
                spec_plain_entries(*c, msg.fields@.take(j as int), m),
            ),
        decreases msg.fields@.len() - j,
    {
        let f = &msg.fields[j];
        proof {
            assert(msg.fields@.take(j + 1).drop_last() =~= msg.fields@.take(j as int));
            assert(spec_found_field_ok(*c, msg.fields@[j as int], m));
        }
        if f.oneof.is_none() {
            proof {
                lemma_instance_at(c.fields@, f.offset);
            }
            let i = instance_at(&c.fields, f.offset);
            let cf = &c.fields[i];
            let kind = csharp_type_to_protobuf_type(cache, &cf.field_type);
            let field = Field {
                kind,
                name: cf.name.clone(),
                number: f.tag >> 3u32,
                comment: Some(FieldComment { offset: cf.offset, xor_const: f.xor }),
                is_enum: is_enum_type(cache, &cf.field_type),
            };
            let ghost prev = spec_plain_entries(*c, msg.fields@.take(j as int), m);
            let ghost entry = (cf.token, field@);
            assert(entry == spec_plain_entry(*c, *f, m));
            insert_sorted(&mut entries, (cf.token, field));
            proof {
                assert(spec_plain_entries(*c, msg.fields@.take(j + 1), m) == prev.push(entry));
                assert(prev.push(entry).drop_last() =~= prev);
            }
        }
        j = j + 1;
    }
    assert(msg.fields@.take(j as int) =~= msg.fields@);
    let ghost sorted = entries@.map_values(|e: (u32, Field)| (e.0, e.1@));
    let mut fields: Vec<Field> = Vec::new();
    let mut rest = entries;
    while rest.len() > 0
        invariant
            fields@.map_values(|f: Field| f@) + rest@.map_values(|e: (u32, Field)| e.1@)
                == sorted.map_values(|e: (u32, FieldModel)| e.1),
        decreases rest@.len(),
    {
        let ghost before_fields = fields@;
        let ghost before_rest = rest@;
        let e = rest.remove(0);
        fields.push(e.1);
        assert(fields@.map_values(|f: Field| f@) + rest@.map_values(|e: (u32, Field)| e.1@)
            =~= before_fields.map_values(|f: Field| f@) + before_rest.map_values(
            |e: (u32, Field)| e.1@,
        ));
    }
    assert(fields@.map_values(|f: Field| f@) =~= fields@.map_values(|f: Field| f@) + rest@.map_values(
        |e: (u32, Field)| e.1@,
    ));
    fields
}

/// The oneof groups of the found oneof alternatives, in order of first appearance.
fn build_oneofs(c: &ProtoClass, msg: &FoundMessage, cache: &TypeCache) -> (oneofs: Vec<Oneof>)
    requires
        forall|j: int|
            0 <= j < msg.fields@.len() ==> spec_found_field_ok(
                *c,
                #[trigger] msg.fields@[j],
                cache.type_map@,
            ),
    ensures
        oneofs@.map_values(|o: Oneof| o@) == spec_oneofs(*c, msg.fields@, cache.type_map@),
{
    let ghost m = cache.type_map@;
    let mut oneofs: Vec<Oneof> = Vec::new();
    let mut j: usize = 0;
    while j < msg.fields.len()
        invariant
            j <= msg.fields@.len(),
            m == cache.type_map@,
            forall|k: int|
                0 <= k < msg.fields@.len() ==> spec_found_field_ok(*c, #[trigger] msg.fields@[k], m),
            oneofs@.map_values(|o: Oneof| o@) == spec_oneofs(*c, msg.fields@.take(j as int), m),
        decreases msg.fields@.len() - j,
    {
        let f = &msg.fields[j];
        proof {
            assert(msg.fields@.take(j + 1).drop_last() =~= msg.fields@.take(j as int));
            assert(spec_found_field_ok(*c, msg.fields@[j as int], m));
        }
        match &f.oneof {
            Some(o) => {
                proof {
                    lemma_instance_at(c.fields@, f.offset);
                    lemma_instance_at(c.fields@, o.oneof_enum_offset);
                }
                let data = &c.fields[instance_at(&c.fields, f.offset)];
                let enum_field = &c.fields[instance_at(&c.fields, o.oneof_enum_offset)];
                let number = f.tag >> 3u32;
                proof {
                    lemma_case_at(enum_field.type_fields@, number);
                }
                let case = &enum_field.type_fields[case_at(&enum_field.type_fields, number)];
                let field = Field {
                    kind: csharp_type_to_protobuf_type(cache, &o.variant),
                    name: case.name.clone(),
                    number,
                    comment: None,
                    is_enum: is_enum_type(cache, &o.variant),
                };
                let ghost model = oneofs@.map_values(|o: Oneof| o@);
                let ghost fm = field@;
                assert(fm == spec_oneof_field(*c, *f, m));
                let k = oneof_index(&oneofs, data.name.as_str());
                if k < oneofs.len() {
                    let mut group = oneofs.remove(k);
                    let ghost group_before = group@;
                    let ghost fields_before = group.fields@;
                    group.fields.push(field);
                    assert(group.fields@.map_values(|f: Field| f@) =~= fields_before.map_values(
                        |f: Field| f@,
                    ).push(fm));
                    assert(group@ == OneofModel {
                        name: group_before.name,
                        fields: group_before.fields.push(fm),
                    });
                    oneofs.insert(k, group);
                    assert(oneofs@.map_values(|o: Oneof| o@) =~= spec_add_alternative(
                        model,
                        data.name@,
                        fm,
                    ));
                } else {
                    let mut group_fields: Vec<Field> = Vec::new();
                    group_fields.push(field);
                    assert(group_fields@.map_values(|f: Field| f@) =~= seq![fm]);
                    let group = Oneof { name: data.name.clone(), fields: group_fields };
                    assert(group@ == OneofModel { name: data.name@, fields: seq![fm] });
                    oneofs.push(group);
                    assert(oneofs@.map_values(|o: Oneof| o@) =~= spec_add_alternative(
                        model,
                        data.name@,
                        fm,
                    ));
                }
            },
            None => {},
        }
        j = j + 1;
    }
    assert(msg.fields@.take(j as int) =~= msg.fields@);
    oneofs
}

/// Appends the variants of an enum class whose value is zero, or whose value is not.
fn push_variants_where(variants: &mut Vec<(String, i32)>, c: &ProtoClass, zero: bool)
    ensures
        final(variants)@.map_values(|v: (String, i32)| (v.0@, v.1)) == old(variants)@.map_values(
            |v: (String, i32)| (v.0@, v.1),
        ) + spec_variants_where(c.name@, c.fields@, zero),
{
    let ghost base = variants@.map_values(|v: (String, i32)| (v.0@, v.1));
    let mut i: usize = 0;
    while i < c.fields.len()
        invariant
            i <= c.fields@.len(),
            variants@.map_values(|v: (String, i32)| (v.0@, v.1)) == base + spec_variants_where(
                c.name@,
                c.fields@.take(i as int),
                zero,
            ),
        decreases c.fields@.len() - i,
    {
        let f = &c.fields[i];
        proof {
            assert(c.fields@.take(i + 1).drop_last() =~= c.fields@.take(i as int));
        }
        let ghost prev = spec_variants_where(c.name@, c.fields@.take(i as int), zero);
        if !f.is_instance && (f.static_value == 0) == zero {
            let mut name = c.name.clone();
            name.append("_");
            name.append(f.name.as_str());
            let value: i32 = #[verifier::truncate] (f.static_value as i32);
            let ghost entry = (name@, value);
            let ghost before = variants@;
            assert(entry == (c.name@ + "_"@ + f.name@, f.static_value as i32));
            variants.push((name, value));
            assert(variants@ == before.push((name, value)));
            assert(variants@.map_values(|v: (String, i32)| (v.0@, v.1)) =~= before.map_values(
                |v: (String, i32)| (v.0@, v.1),
            ).push(entry));
            assert(spec_variants_where(c.name@, c.fields@.take(i + 1), zero) == prev.push(entry));
        }
        i = i + 1;
    }
    assert(c.fields@.take(i as int) =~= c.fields@);
}

/// Builds the proto file of the classes: syntax `proto3`, the import of
/// `google/protobuf/any.proto`, and the definition of every class in order.
pub fn build_proto_file(classes: &[ProtoClass], found: &[FoundMessage], cache: &TypeCache) -> (p:
    ProtoFile)
    requires
        spec_buildable(classes@, found@, cache.type_map@),
    ensures
        p.syntax@ == "proto3"@,
        p.imports@.map_values(|s: String| s@) == seq!["google/protobuf/any.proto"@],
        p.items@.map_values(|i: ProtoItem| i@) == spec_items(classes@, found@, cache.type_map@),
{
    let ghost m = cache.type_map@;
    let mut items: Vec<ProtoItem> = Vec::new();
    let mut i: usize = 0;
    while i < classes.len()
        invariant
            i <= classes@.len(),
            m == cache.type_map@,
            spec_buildable(classes@, found@, m),
            items@.map_values(|t: ProtoItem| t@) == spec_items(classes@.take(i as int), found@, m),
        decreases classes@.len() - i,
    {
        let c = &classes[i];
        proof {
            assert(classes@.take(i + 1).drop_last() =~= classes@.take(i as int));
            assert(spec_class_ok(classes@[i as int], found@, m));
        }
        let ghost prev = items@.map_values(|t: ProtoItem| t@);
        if !str_eq(c.name.as_str(), HOLLOW_CLASS) {
            match lookup_found(found, c.token) {
                Some(k) => {
                    let msg = &found[k];
                    assert(spec_class_ok(*c, found@, m));
                    proof {
                        lemma_class_ok(*c, found@, m, k as int);
                    }
                    assert forall|j: int| 0 <= j < msg.fields@.len() implies spec_found_field_ok(
                        *c,
                        #[trigger] msg.fields@[j],
                        m,
                    ) by {
                        assert(found@[k as int].fields@[j] == msg.fields@[j]);
                        assert(spec_found_field_ok(*c, found@[k as int].fields@[j], m));
                    }
                    let fields = build_plain_fields(c, msg, cache);
                    let oneofs = build_oneofs(c, msg, cache);
                    let item = ProtoItem::Message(
                        Message { name: c.name.clone(), cmd_id: msg.cmd_id, fields, oneofs },
                    );
                    let ghost im = item@;
                    items.push(item);
                    assert(items@.map_values(|t: ProtoItem| t@) =~= prev.push(im));
                },
                None => {
                    if cache.parent_is_enum(c.parent) {
                        let mut variants: Vec<(String, i32)> = Vec::new();
                        push_variants_where(&mut variants, c, true);
                        push_variants_where(&mut variants, c, false);
                        let item = ProtoItem::Enum(Enum { name: c.name.clone(), variants });
                        let ghost im = item@;
                        assert(im == ItemModel::Enum { name: c.name@, variants: spec_enum_variants(*c) });
                        items.push(item);
                        assert(items@.map_values(|t: ProtoItem| t@) =~= prev.push(im));
                    }
                },
            }
        }
        i = i + 1;
    }
    assert(classes@.take(i as int) =~= classes@);
    let mut imports: Vec<String> = Vec::new();
    imports.push(String::from_str("google/protobuf/any.proto"));
    assert(imports@.map_values(|s: String| s@) =~= seq!["google/protobuf/any.proto"@]);
    ProtoFile { syntax: String::from_str("proto3"), imports, items }
}

// ---------------------------------------------------------------------------
// Checking that the classes can be built
// ---------------------------------------------------------------------------

proof fn lemma_instance_at_hit(fields: Seq<ClassField>, offset: u32)
    ensures
        spec_instance_at(fields, offset) < fields.len() ==> {
            &&& fields[spec_instance_at(fields, offset)].is_instance
            &&& fields[spec_instance_at(fields, offset)].offset == offset
        },
    decreases fields.len(),
{
    if fields.len() > 0 && !(fields[0].is_instance && fields[0].offset == offset) {
        let rest = fields.drop_first();
        lemma_instance_at_hit(rest, offset);
        lemma_instance_at(rest, offset);
        assert(spec_instance_at(fields, offset) == 1 + spec_instance_at(rest, offset));
        if spec_instance_at(fields, offset) < fields.len() {
            assert(fields[1 + spec_instance_at(rest, offset)] == rest[spec_instance_at(rest, offset)]);
        }
    }
}

proof fn lemma_case_at_hit(cases: Seq<ConstantField>, number: u32)
    ensures
        spec_case_at(cases, number) < cases.len() ==> spec_is_case(
            cases[spec_case_at(cases, number)],
            number,
        ),
    decreases cases.len(),
{
    if cases.len() > 0 && !spec_is_case(cases[0], number) {
        let rest = cases.drop_first();
        lemma_case_at_hit(rest, number);
        lemma_case_at(rest, number);
        assert(spec_case_at(cases, number) == 1 + spec_case_at(rest, number));
        if spec_case_at(cases, number) < cases.len() {
            assert(cases[1 + spec_case_at(rest, number)] == rest[spec_case_at(rest, number)]);
        }
    }
}

/// Whether some instance field of the class is at the offset.
fn has_instance_at(fields: &Vec<ClassField>, offset: u32) -> (r: bool)
    ensures
        r == spec_has_instance_at(fields@, offset),
{
    proof {
        lemma_instance_at(fields@, offset);
        lemma_instance_at_hit(fields@, offset);
    }
    instance_at(fields, offset) < fields.len()
}

/// Whether a found field can be placed in the class (see `spec_found_field_ok`).
pub fn found_field_ok(c: &ProtoClass, f: &FoundField, cache: &TypeCache) -> (r: bool)
    ensures
        r == spec_found_field_ok(*c, *f, cache.type_map@),
{
    if !has_instance_at(&c.fields, f.offset) {
        return false;
    }
    proof {
        lemma_instance_at(c.fields@, f.offset);
    }
    match &f.oneof {
        None => is_mappable(cache, &c.fields[instance_at(&c.fields, f.offset)].field_type),
        Some(o) => {
            if !has_instance_at(&c.fields, o.oneof_enum_offset) {
                return false;
            }
            proof {
                lemma_instance_at(c.fields@, o.oneof_enum_offset);
            }
            let e = instance_at(&c.fields, o.oneof_enum_offset);
            let cases = &c.fields[e].type_fields;
            let number = f.tag >> 3u32;
            proof {
                lemma_case_at(cases@, number);
                lemma_case_at_hit(cases@, number);
            }
            let has_case = case_at(cases, number) < cases.len();
            has_case && is_mappable(cache, &o.variant)
        },
    }
}

/// Whether a class can be turned into its definition (see `spec_class_ok`).
pub fn class_ok(c: &ProtoClass, found: &[FoundMessage], cache: &TypeCache) -> (r: bool)
    ensures
        r == spec_class_ok(*c, found@, cache.type_map@),
{
    if str_eq(c.name.as_str(), HOLLOW_CLASS) {
        return true;
    }
    match lookup_found(found, c.token) {
        None => true,
        Some(k) => {
            let msg = &found[k];
            let mut j: usize = 0;
            while j < msg.fields.len()
                invariant
                    j <= msg.fields@.len(),
                    k < found@.len(),
                    msg == found@[k as int],
                    c.name@ != HOLLOW_CLASS@,
                    spec_lookup(found@, c.token) == Some(k as int),
                    forall|i: int|
                        0 <= i < j ==> spec_found_field_ok(*c, #[trigger] msg.fields@[i], cache.type_map@),
                decreases msg.fields@.len() - j,
            {
                if !found_field_ok(c, &msg.fields[j], cache) {
                    assert(!spec_found_field_ok(*c, found@[k as int].fields@[j as int], cache.type_map@));
                    return false;
                }
                j = j + 1;
            }
            true
        },
    }
}

/// Whether every class can be turned into its definition, which
/// `build_proto_file` needs.
pub fn can_build(classes: &[ProtoClass], found: &[FoundMessage], cache: &TypeCache) -> (r: bool)
    ensures
        r == spec_buildable(classes@, found@, cache.type_map@),
{
    let mut i: usize = 0;
    while i < classes.len()
        invariant
            i <= classes@.len(),
            forall|k: int| 0 <= k < i ==> spec_class_ok(#[trigger] classes@[k], found@, cache.type_map@),
        decreases classes@.len() - i,
    {
        if !class_ok(&classes[i], found, cache) {
            return false;
        }
        i = i + 1;
    }
    true
}

} // verus!
