//! The recovered protobuf schema and its two renderings: `.proto` text and the
//! JSON summary of its messages.
use vstd::prelude::*;
use crate::json::{
    is_native_type, spec_escape, spec_is_native_type, spec_strip_repeated, strip_repeated,
    write_escaped,
};
use crate::text::{
    lemma_concat_push, lemma_join_append, lemma_join_push, push_bool, push_decimal,
    push_signed_decimal, spec_bool, spec_concat, spec_decimal, spec_join, spec_signed_decimal,
};

verus! {

/// Where a field lives in the object and the constant its value is xored with.
pub struct FieldComment {
    pub offset: u32,
    pub xor_const: u32,
}

/// One field of a message or of a oneof.
pub struct Field {
    /// Protobuf type, possibly `repeated ...` or `map<..., ...>`.
    pub kind: String,
    pub name: String,
    pub number: u32,
    pub comment: Option<FieldComment>,
    pub is_enum: bool,
}

/// A oneof group and its alternatives.
pub struct Oneof {
    pub name: String,
    pub fields: Vec<Field>,
}

/// A message definition.
pub struct Message {
    /// Command id of the message, `0` when it has none.
    pub cmd_id: u16,
    pub name: String,
    pub fields: Vec<Field>,
    pub oneofs: Vec<Oneof>,
}

/// An enum definition with its (name, value) variants.
pub struct Enum {
    pub name: String,
    pub variants: Vec<(String, i32)>,
}

/// A top-level definition of a proto file.
pub enum ProtoItem {
    Message(Message),
    Enum(Enum),
}

/// A whole proto file.
pub struct ProtoFile {
    pub syntax: String,
    pub imports: Vec<String>,
    pub items: Vec<ProtoItem>,
}

// ---------------------------------------------------------------------------
// Views
// ---------------------------------------------------------------------------

/// A field as plain values.
pub struct FieldModel {
    pub kind: Seq<char>,
    pub name: Seq<char>,
    pub number: u32,
    pub comment: Option<FieldComment>,
    pub is_enum: bool,
}

/// A oneof group as plain values.
pub struct OneofModel {
    pub name: Seq<char>,
    pub fields: Seq<FieldModel>,
}

/// A top-level definition as plain values.
pub enum ItemModel {
    Message { cmd_id: u16, name: Seq<char>, fields: Seq<FieldModel>, oneofs: Seq<OneofModel> },
    Enum { name: Seq<char>, variants: Seq<(Seq<char>, i32)> },
}

impl View for Field {
    type V = FieldModel;

    open spec fn view(&self) -> FieldModel {
        FieldModel {
            kind: self.kind@,
            name: self.name@,
            number: self.number,
            comment: self.comment,
            is_enum: self.is_enum,
        }
    }
}

impl View for Oneof {
    type V = OneofModel;

    open spec fn view(&self) -> OneofModel {
        OneofModel { name: self.name@, fields: self.fields@.map_values(|f: Field| f@) }
    }
}

impl View for ProtoItem {
    type V = ItemModel;

    open spec fn view(&self) -> ItemModel {
        match self {
            ProtoItem::Message(m) => ItemModel::Message {
                cmd_id: m.cmd_id,
                name: m.name@,
                fields: m.fields@.map_values(|f: Field| f@),
                oneofs: m.oneofs@.map_values(|o: Oneof| o@),
            },
            ProtoItem::Enum(e) => ItemModel::Enum {
                name: e.name@,
                variants: e.variants@.map_values(|v: (String, i32)| (v.0@, v.1)),
            },
        }
    }
}

// ---------------------------------------------------------------------------
// JSON summary
// ---------------------------------------------------------------------------

/// The first half of a field's JSON object: number, name and element type.
pub open spec fn spec_field_json_head(f: Field) -> Seq<char> {
    "{\"number\":"@ + spec_decimal(f.number as nat) + ",\"name\":\""@ + spec_escape(f.name@)
        + "\",\"type\":\""@ + spec_escape(spec_strip_repeated(f.kind@).0)
}

/// The second half of a field's JSON object: the flags and the xor constant.
pub open spec fn spec_field_json_flags(f: Field) -> Seq<char> {
    let (base, repeated) = spec_strip_repeated(f.kind@);
    "\",\"repeated\":"@ + spec_bool(repeated) + ",\"is_native_type\":"@ + spec_bool(
        spec_is_native_type(base),
    ) + ",\"is_enum\":"@ + spec_bool(f.is_enum) + ",\"xor_value\":"@ + match f.comment {
        Some(c) => spec_decimal(c.xor_const as nat),
        None => "null"@,
    } + "}"@
}

/// The JSON object describing one field.
pub open spec fn spec_field_json(f: Field) -> Seq<char> {
    spec_field_json_head(f) + spec_field_json_flags(f)
}

/// The JSON objects of a list of fields.
pub open spec fn spec_field_jsons(fields: Seq<Field>) -> Seq<Seq<char>> {
    fields.map_values(|f: Field| spec_field_json(f))
}

/// The alternatives of all oneofs, group after group.
pub open spec fn spec_oneof_fields(oneofs: Seq<Oneof>) -> Seq<Field>
    decreases oneofs.len(),
{
    if oneofs.len() == 0 {
        Seq::empty()
    } else {
        spec_oneof_fields(oneofs.drop_last()) + oneofs.last().fields@
    }
}

/// The plain fields of a message followed by the alternatives of its oneofs.
pub open spec fn spec_all_fields(m: Message) -> Seq<Field> {
    m.fields@ + spec_oneof_fields(m.oneofs@)
}

/// The JSON object describing one message.
pub open spec fn spec_message_json(m: Message) -> Seq<char> {
    "{\"name\":\""@ + spec_escape(m.name@) + "\",\"cmd_id\":"@ + (if m.cmd_id == 0 {
        "null"@
    } else {
        spec_decimal(m.cmd_id as nat)
    }) + ",\"fields\":["@ + spec_join(spec_field_jsons(spec_all_fields(m)), ","@) + "]}"@
}

/// The JSON objects of the messages among `items`, in order; enums are left out.
pub open spec fn spec_message_jsons(items: Seq<ProtoItem>) -> Seq<Seq<char>>
    decreases items.len(),
{
    if items.len() == 0 {
        Seq::empty()
    } else {
        let prev = spec_message_jsons(items.drop_last());
        match items.last() {
            ProtoItem::Message(m) => prev.push(spec_message_json(m)),
            ProtoItem::Enum(_) => prev,
        }
    }
}

/// The JSON array describing all messages of a proto file.
pub open spec fn spec_proto_json(p: ProtoFile) -> Seq<char> {
    "["@ + spec_join(spec_message_jsons(p.items@), ","@) + "]"@
}

/// What appending the JSON objects of `fields` adds to a list that already holds
/// `started` elements or none.
pub open spec fn spec_field_jsons_tail(fields: Seq<Field>, started: bool) -> Seq<char> {
    let parts = spec_field_jsons(fields);
    if parts.len() == 0 {
        Seq::empty()
    } else if started {
        ","@ + spec_join(parts, ","@)
    } else {
        spec_join(parts, ","@)
    }
}

/// Appends the JSON object of one field.
fn write_field_json(out: &mut String, f: &Field)
    ensures
        final(out)@ == old(out)@ + spec_field_json(*f),
{
    let (base, repeated) = strip_repeated(f.kind.as_str());
    let ghost mid;
    {
        out.append("{\"number\":");
        push_decimal(out, f.number as u64);
        out.append(",\"name\":\"");
        write_escaped(out, f.name.as_str());
        out.append("\",\"type\":\"");
        write_escaped(out, base);
        assert(out@ =~= old(out)@ + spec_field_json_head(*f));
        proof {
            mid = out@;
        }
    }
    out.append("\",\"repeated\":");
    push_bool(out, repeated);
    out.append(",\"is_native_type\":");
    push_bool(out, is_native_type(base));
    out.append(",\"is_enum\":");
    push_bool(out, f.is_enum);
    out.append(",\"xor_value\":");
    match &f.comment {
        Some(c) => push_decimal(out, c.xor_const as u64),
        None => out.append("null"),
    }
    out.append("}");
    assert(out@ =~= mid + spec_field_json_flags(*f));
    assert(out@ =~= old(out)@ + spec_field_json(*f));
}

/// Appends the JSON objects of `fields` to a comma-separated list that already
/// holds elements when `started`; returns whether the list holds any afterwards.
fn write_field_jsons(out: &mut String, fields: &Vec<Field>, started: bool) -> (now_started: bool)
    ensures
        final(out)@ == old(out)@ + spec_field_jsons_tail(fields@, started),
        now_started == (started || fields@.len() > 0),
{
    let ghost start = out@;
    let mut first = !started;
    let mut i: usize = 0;
    while i < fields.len()
        invariant
            i <= fields@.len(),
            first == (!started && i == 0),
            out@ == start + spec_field_jsons_tail(fields@.take(i as int), started),
        decreases fields@.len() - i,
    {
        let ghost prev = spec_field_jsons(fields@.take(i as int));
        if !first {
            out.append(",");
        }
        write_field_json(out, &fields[i]);
        proof {
            assert(spec_field_jsons(fields@.take(i + 1)) =~= prev.push(
                spec_field_json(fields@[i as int]),
            ));
            lemma_join_push(prev, spec_field_json(fields@[i as int]), ","@);
        }
        first = false;
        i = i + 1;
        assert(out@ =~= start + spec_field_jsons_tail(fields@.take(i as int), started));
    }
    assert(fields@.take(i as int) =~= fields@);
    started || fields.len() > 0
}

/// Appending a tail to a list gives the join of both lists.
proof fn lemma_field_tail(done: Seq<Field>, more: Seq<Field>, started: bool)
    requires
        started == (done.len() > 0),
    ensures
        spec_join(spec_field_jsons(done), ","@) + spec_field_jsons_tail(more, started)
            == spec_join(spec_field_jsons(done + more), ","@),
{
    assert(spec_field_jsons(done + more) =~= spec_field_jsons(done) + spec_field_jsons(more));
    lemma_join_append(spec_field_jsons(done), spec_field_jsons(more), ","@);
    if spec_field_jsons(more).len() == 0 {
        assert(spec_field_jsons_tail(more, started) =~= Seq::<char>::empty());
    }
    if !started {
        assert(spec_field_jsons(done) =~= Seq::<Seq<char>>::empty());
        assert(spec_join(spec_field_jsons(done), ","@) =~= Seq::<char>::empty());
    }
}

/// Appends the JSON object of one message.
fn write_message_json(out: &mut String, m: &Message)
    ensures
        final(out)@ == old(out)@ + spec_message_json(*m),
{
    out.append("{\"name\":\"");
    write_escaped(out, m.name.as_str());
    out.append("\",\"cmd_id\":");
    if m.cmd_id == 0 {
        out.append("null");
    } else {
        push_decimal(out, m.cmd_id as u64);
    }
    out.append(",\"fields\":[");
    let ghost base = out@;
    let mut started = write_field_jsons(out, &m.fields, false);
    proof {
        lemma_field_tail(Seq::empty(), m.fields@, false);
        assert(Seq::<Field>::empty() + m.fields@ =~= m.fields@);
        assert(m.fields@ + spec_oneof_fields(m.oneofs@.take(0)) =~= m.fields@);
    }
    let mut k: usize = 0;
    while k < m.oneofs.len()
        invariant
            k <= m.oneofs@.len(),
            started == ((m.fields@ + spec_oneof_fields(m.oneofs@.take(k as int))).len() > 0),
            out@ == base + spec_join(
                spec_field_jsons(m.fields@ + spec_oneof_fields(m.oneofs@.take(k as int))),
                ","@,
            ),
        decreases m.oneofs@.len() - k,
    {
        let ghost done = m.fields@ + spec_oneof_fields(m.oneofs@.take(k as int));
        started = write_field_jsons(out, &m.oneofs[k].fields, started);
        proof {
            lemma_field_tail(done, m.oneofs@[k as int].fields@, (done.len() > 0));
            assert(m.oneofs@.take(k + 1).drop_last() =~= m.oneofs@.take(k as int));
            assert(done + m.oneofs@[k as int].fields@ =~= m.fields@ + spec_oneof_fields(
                m.oneofs@.take(k + 1),
            ));
        }
        k = k + 1;
    }
    assert(m.oneofs@.take(k as int) =~= m.oneofs@);
    out.append("]}");
    assert(out@ =~= old(out)@ + spec_message_json(*m));
}

impl ProtoFile {
    /// Appends a JSON array with one object per message: its name, command id
    /// (`null` when zero) and all fields, oneof alternatives included.
    pub fn write_json(&self, out: &mut String)
        ensures
            final(out)@ == old(out)@ + spec_proto_json(*self),
    {
        out.append("[");
        let ghost base = out@;
        let mut first_message = true;
        let mut i: usize = 0;
        while i < self.items.len()
            invariant
                i <= self.items@.len(),
                first_message == (spec_message_jsons(self.items@.take(i as int)).len() == 0),
                out@ == base + spec_join(spec_message_jsons(self.items@.take(i as int)), ","@),
            decreases self.items@.len() - i,
        {
            let ghost prev = spec_message_jsons(self.items@.take(i as int));
            proof {
                assert(self.items@.take(i + 1).drop_last() =~= self.items@.take(i as int));
            }
            match &self.items[i] {
                ProtoItem::Message(message) => {
                    if !first_message {
                        out.append(",");
                    }
                    first_message = false;
                    write_message_json(out, message);
                    proof {
                        lemma_join_push(prev, spec_message_json(*message), ","@);
                    }
                },
                ProtoItem::Enum(_) => {},
            }
            i = i + 1;
        }
        assert(self.items@.take(i as int) =~= self.items@);
        out.append("]");
    }
}

// ---------------------------------------------------------------------------
// .proto text
// ---------------------------------------------------------------------------

/// The trailing comment of a plain message field, if it has one.
pub open spec fn spec_comment_text(c: Option<FieldComment>) -> Seq<char> {
    match c {
        Some(c) => " // offset: "@ + spec_decimal(c.offset as nat) + ", xor const: "@
            + spec_decimal(c.xor_const as nat),
        None => Seq::empty(),
    }
}

/// The line of a plain message field.
pub open spec fn spec_field_line(f: Field) -> Seq<char> {
    "  "@ + f.kind@ + " "@ + f.name@ + " = "@ + spec_decimal(f.number as nat) + ";"@
        + spec_comment_text(f.comment) + "\n"@
}

/// The line of a oneof alternative.
pub open spec fn spec_oneof_field_line(f: Field) -> Seq<char> {
    "    "@ + f.kind@ + " "@ + f.name@ + " = "@ + spec_decimal(f.number as nat) + ";\n"@
}

/// The block of a oneof group.
pub open spec fn spec_oneof_text(o: Oneof) -> Seq<char> {
    "  oneof "@ + o.name@ + " {\n"@ + spec_concat(
        o.fields@.map_values(|f: Field| spec_oneof_field_line(f)),
    ) + "  }\n"@
}

/// The header line of a message.
pub open spec fn spec_message_header(m: Message) -> Seq<char> {
    "message "@ + m.name@ + " {"@ + (if m.cmd_id != 0 {
        " // CmdID: "@ + spec_decimal(m.cmd_id as nat)
    } else {
        Seq::empty()
    }) + "\n"@
}

/// The definition of a message, followed by an empty line.
pub open spec fn spec_message_text(m: Message) -> Seq<char> {
    spec_message_header(m) + spec_concat(m.fields@.map_values(|f: Field| spec_field_line(f)))
        + spec_concat(m.oneofs@.map_values(|o: Oneof| spec_oneof_text(o))) + "}\n\n"@
}

/// The line of an enum variant.
pub open spec fn spec_variant_line(v: (String, i32)) -> Seq<char> {
    "  "@ + v.0@ + " = "@ + spec_signed_decimal(v.1 as int) + ";\n"@
}

/// The definition of an enum, followed by an empty line.
pub open spec fn spec_enum_text(e: Enum) -> Seq<char> {
    "enum "@ + e.name@ + " {\n"@ + spec_concat(
        e.variants@.map_values(|v: (String, i32)| spec_variant_line(v)),
    ) + "}\n\n"@
}

/// The definition of a top-level item.
pub open spec fn spec_item_text(item: ProtoItem) -> Seq<char> {
    match item {
        ProtoItem::Message(m) => spec_message_text(m),
        ProtoItem::Enum(e) => spec_enum_text(e),
    }
}

/// The line of an import.
pub open spec fn spec_import_line(i: String) -> Seq<char> {
    "import \""@ + i@ + "\";\n"@
}

/// The text of a whole proto file.
pub open spec fn spec_proto_text(p: ProtoFile) -> Seq<char> {
    "syntax = \""@ + p.syntax@ + "\";\n"@ + spec_concat(
        p.imports@.map_values(|i: String| spec_import_line(i)),
    ) + "\n"@ + spec_concat(p.items@.map_values(|i: ProtoItem| spec_item_text(i)))
}

impl Field {
    /// Appends the line of this field inside a message.
    pub fn write_line(&self, out: &mut String)
        ensures
            final(out)@ == old(out)@ + spec_field_line(*self),
    {
        out.append("  ");
        out.append(self.kind.as_str());
        out.append(" ");
        out.append(self.name.as_str());
        out.append(" = ");
        push_decimal(out, self.number as u64);
        out.append(";");
        match &self.comment {
            Some(c) => {
                out.append(" // offset: ");
                push_decimal(out, c.offset as u64);
                out.append(", xor const: ");
                push_decimal(out, c.xor_const as u64);
            },
            None => {},
        }
        out.append("\n");
        assert(out@ =~= old(out)@ + spec_field_line(*self));
    }

    /// Appends the line of this field as a oneof alternative.
    pub fn write_oneof_line(&self, out: &mut String)
        ensures
            final(out)@ == old(out)@ + spec_oneof_field_line(*self),
    {
        out.append("    ");
        out.append(self.kind.as_str());
        out.append(" ");
        out.append(self.name.as_str());
        out.append(" = ");
        push_decimal(out, self.number as u64);
        out.append(";\n");
        assert(out@ =~= old(out)@ + spec_oneof_field_line(*self));
    }
}

impl Oneof {
    /// Appends the block of this oneof group.
    pub fn write_text(&self, out: &mut String)
        ensures
            final(out)@ == old(out)@ + spec_oneof_text(*self),
    {
        out.append("  oneof ");
        out.append(self.name.as_str());
        out.append(" {\n");
        let ghost base = out@;
        let mut i: usize = 0;
        while i < self.fields.len()
            invariant
                i <= self.fields@.len(),
                out@ == base + spec_concat(
                    self.fields@.take(i as int).map_values(|f: Field| spec_oneof_field_line(f)),
                ),
            decreases self.fields@.len() - i,
        {
            self.fields[i].write_oneof_line(out);
            proof {
                let f = |f: Field| spec_oneof_field_line(f);
                assert(self.fields@.take(i + 1).map_values(f) =~= self.fields@.take(
                    i as int,
                ).map_values(f).push(f(self.fields@[i as int])));
                lemma_concat_push(
                    self.fields@.take(i as int).map_values(f),
                    f(self.fields@[i as int]),
                );
            }
            i = i + 1;
        }
        assert(self.fields@.take(i as int) =~= self.fields@);
        out.append("  }\n");
        assert(out@ =~= old(out)@ + spec_oneof_text(*self));
    }
}

impl Message {
    /// Appends the definition of this message: a header with the command id as
    /// a comment when it is not zero, the fields, the oneofs, and an empty line.
    pub fn write_text(&self, out: &mut String)
        ensures
            final(out)@ == old(out)@ + spec_message_text(*self),
    {
        out.append("message ");
        out.append(self.name.as_str());
        out.append(" {");
        if self.cmd_id != 0 {
            out.append(" // CmdID: ");
            push_decimal(out, self.cmd_id as u64);
        }
        out.append("\n");
        assert(out@ =~= old(out)@ + spec_message_header(*self));
        let ghost base = out@;
        let mut i: usize = 0;
        while i < self.fields.len()
            invariant
                i <= self.fields@.len(),
                out@ == base + spec_concat(
                    self.fields@.take(i as int).map_values(|f: Field| spec_field_line(f)),
                ),
            decreases self.fields@.len() - i,
        {
            self.fields[i].write_line(out);
            proof {
                let f = |f: Field| spec_field_line(f);
                assert(self.fields@.take(i + 1).map_values(f) =~= self.fields@.take(
                    i as int,
                ).map_values(f).push(f(self.fields@[i as int])));
                lemma_concat_push(
                    self.fields@.take(i as int).map_values(f),
                    f(self.fields@[i as int]),
                );
            }
            i = i + 1;
        }
        assert(self.fields@.take(i as int) =~= self.fields@);
        let ghost mid = out@;
        let mut k: usize = 0;
        while k < self.oneofs.len()
            invariant
                k <= self.oneofs@.len(),
                out@ == mid + spec_concat(
                    self.oneofs@.take(k as int).map_values(|o: Oneof| spec_oneof_text(o)),
                ),
            decreases self.oneofs@.len() - k,
        {
            self.oneofs[k].write_text(out);
            proof {
                let f = |o: Oneof| spec_oneof_text(o);
                assert(self.oneofs@.take(k + 1).map_values(f) =~= self.oneofs@.take(
                    k as int,
                ).map_values(f).push(f(self.oneofs@[k as int])));
                lemma_concat_push(
                    self.oneofs@.take(k as int).map_values(f),
                    f(self.oneofs@[k as int]),
                );
            }
            k = k + 1;
        }
        assert(self.oneofs@.take(k as int) =~= self.oneofs@);
        out.append("}\n\n");
        assert(out@ =~= old(out)@ + spec_message_text(*self));
    }
}

impl Enum {
    /// Appends the definition of this enum, one `name = value;` line per
    /// variant, and an empty line.
    pub fn write_text(&self, out: &mut String)
        ensures
            final(out)@ == old(out)@ + spec_enum_text(*self),
    {
        out.append("enum ");
        out.append(self.name.as_str());
        out.append(" {\n");
        let ghost base = out@;
        let mut i: usize = 0;
        while i < self.variants.len()
            invariant
                i <= self.variants@.len(),
                out@ == base + spec_concat(
                    self.variants@.take(i as int).map_values(
                        |v: (String, i32)| spec_variant_line(v),
                    ),
                ),
            decreases self.variants@.len() - i,
        {
            let ghost before = out@;
            out.append("  ");
            out.append(self.variants[i].0.as_str());
            out.append(" = ");
            push_signed_decimal(out, self.variants[i].1 as i64);
            out.append(";\n");
            proof {
                let f = |v: (String, i32)| spec_variant_line(v);
                assert(out@ =~= before + f(self.variants@[i as int]));
                assert(self.variants@.take(i + 1).map_values(f) =~= self.variants@.take(
                    i as int,
                ).map_values(f).push(f(self.variants@[i as int])));
                lemma_concat_push(
                    self.variants@.take(i as int).map_values(f),
                    f(self.variants@[i as int]),
                );
            }
            i = i + 1;
        }
        assert(self.variants@.take(i as int) =~= self.variants@);
        out.append("}\n\n");
        assert(out@ =~= old(out)@ + spec_enum_text(*self));
    }
}

impl ProtoItem {
    /// Appends the definition of this item.
    pub fn write_text(&self, out: &mut String)
        ensures
            final(out)@ == old(out)@ + spec_item_text(*self),
    {
        match self {
            ProtoItem::Message(m) => m.write_text(out),
            ProtoItem::Enum(e) => e.write_text(out),
        }
    }
}

impl ProtoFile {
    /// Appends the text of the proto file: the syntax line, the imports, an
    /// empty line and every item.
    pub fn write_text(&self, out: &mut String)
        ensures
            final(out)@ == old(out)@ + spec_proto_text(*self),
    {
        out.append("syntax = \"");
        out.append(self.syntax.as_str());
        out.append("\";\n");
        let ghost base = out@;
        let mut i: usize = 0;
        while i < self.imports.len()
            invariant
                i <= self.imports@.len(),
                out@ == base + spec_concat(
                    self.imports@.take(i as int).map_values(|s: String| spec_import_line(s)),
                ),
            decreases self.imports@.len() - i,
        {
            let ghost before = out@;
            out.append("import \"");
            out.append(self.imports[i].as_str());
            out.append("\";\n");
            proof {
                let f = |s: String| spec_import_line(s);
                assert(out@ =~= before + f(self.imports@[i as int]));
                assert(self.imports@.take(i + 1).map_values(f) =~= self.imports@.take(
                    i as int,
                ).map_values(f).push(f(self.imports@[i as int])));
                lemma_concat_push(
                    self.imports@.take(i as int).map_values(f),
                    f(self.imports@[i as int]),
                );
            }
            i = i + 1;
        }
        assert(self.imports@.take(i as int) =~= self.imports@);
        out.append("\n");
        let ghost mid = out@;
        let mut k: usize = 0;
        while k < self.items.len()
            invariant
                k <= self.items@.len(),
                out@ == mid + spec_concat(
                    self.items@.take(k as int).map_values(|t: ProtoItem| spec_item_text(t)),
                ),
            decreases self.items@.len() - k,
        {
            self.items[k].write_text(out);
            proof {
                let f = |t: ProtoItem| spec_item_text(t);
                assert(self.items@.take(k + 1).map_values(f) =~= self.items@.take(
                    k as int,
                ).map_values(f).push(f(self.items@[k as int])));
                lemma_concat_push(
                    self.items@.take(k as int).map_values(f),
                    f(self.items@[k as int]),
                );
            }
            k = k + 1;
        }
        assert(self.items@.take(k as int) =~= self.items@);
        assert(out@ =~= old(out)@ + spec_proto_text(*self));
    }

    /// The text of the proto file as a new string.
    pub fn to_text(&self) -> (text: String)
        ensures
            text@ == spec_proto_text(*self),
    {
        let mut out = String::new();
        self.write_text(&mut out);
        out
    }
}

} // verus!
