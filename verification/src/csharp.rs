//! C# stub declarations of the classes, fields and methods found in the runtime.
use vstd::prelude::*;
use crate::attributes::{
    FIELD_ATTRIBUTE_ASSEMBLY, FIELD_ATTRIBUTE_FAMILY, FIELD_ATTRIBUTE_FAM_AND_ASSEM, FIELD_ATTRIBUTE_FAM_OR_ASSEM, FIELD_ATTRIBUTE_FIELD_ACCESS_MASK, FIELD_ATTRIBUTE_INIT_ONLY, FIELD_ATTRIBUTE_LITERAL, FIELD_ATTRIBUTE_PRIVATE, FIELD_ATTRIBUTE_PUBLIC, FIELD_ATTRIBUTE_STATIC, METHOD_ATTRIBUTE_ABSTRACT, METHOD_ATTRIBUTE_ASSEM, METHOD_ATTRIBUTE_FAMILY, METHOD_ATTRIBUTE_FAM_AND_ASSEM, METHOD_ATTRIBUTE_FAM_OR_ASSEM, METHOD_ATTRIBUTE_FINAL, METHOD_ATTRIBUTE_MEMBER_ACCESS_MASK, METHOD_ATTRIBUTE_NEW_SLOT, METHOD_ATTRIBUTE_PINVOKE_IMPL, METHOD_ATTRIBUTE_PRIVATE, METHOD_ATTRIBUTE_PUBLIC, METHOD_ATTRIBUTE_REUSE_SLOT, METHOD_ATTRIBUTE_STATIC, METHOD_ATTRIBUTE_VIRTUAL, METHOD_ATTRIBUTE_VTABLE_LAYOUT_MASK,
};
use crate::text::{
    lemma_concat_push, lemma_join_push, push_char, push_decimal, push_hex_upper, spec_concat,
    spec_decimal, spec_hex_upper, spec_join,
};

verus! {

// ---------------------------------------------------------------------------
// Modifiers
// ---------------------------------------------------------------------------

/// The access keyword of a field, with its trailing space.
pub open spec fn spec_field_access(attrs: u32) -> Seq<char> {
    let access = attrs & FIELD_ATTRIBUTE_FIELD_ACCESS_MASK;
    if access == FIELD_ATTRIBUTE_PUBLIC {
        "public "@
    } else if access == FIELD_ATTRIBUTE_PRIVATE {
        "private "@
    } else if access == FIELD_ATTRIBUTE_FAMILY {
        "protected "@
    } else if access == FIELD_ATTRIBUTE_ASSEMBLY || access == FIELD_ATTRIBUTE_FAM_AND_ASSEM {
        "internal "@
    } else if access == FIELD_ATTRIBUTE_FAM_OR_ASSEM {
        "protected internal "@
    } else {
        Seq::empty()
    }
}

/// The modifiers of a field: access, then `const` or `static`, then `readonly`.
pub open spec fn spec_field_modifiers(attrs: u32) -> Seq<char> {
    spec_field_access(attrs) + (if attrs & FIELD_ATTRIBUTE_LITERAL != 0 {
        "const "@
    } else if attrs & FIELD_ATTRIBUTE_STATIC != 0 {
        "static "@
    } else {
        Seq::empty()
    }) + (if attrs & FIELD_ATTRIBUTE_INIT_ONLY != 0 {
        "readonly "@
    } else {
        Seq::empty()
    })
}

/// The access keyword of a method, with its trailing space.
pub open spec fn spec_method_access(attrs: u32) -> Seq<char> {
    let access = attrs & METHOD_ATTRIBUTE_MEMBER_ACCESS_MASK;
    if access == METHOD_ATTRIBUTE_PUBLIC {
        "public "@
    } else if access == METHOD_ATTRIBUTE_PRIVATE {
        "private "@
    } else if access == METHOD_ATTRIBUTE_FAMILY {
        "protected "@
    } else if access == METHOD_ATTRIBUTE_ASSEM || access == METHOD_ATTRIBUTE_FAM_AND_ASSEM {
        "internal "@
    } else if access == METHOD_ATTRIBUTE_FAM_OR_ASSEM {
        "protected internal "@
    } else {
        Seq::empty()
    }
}

/// The inheritance keywords of a method: `abstract` (with `override` when it
/// reuses a slot), else `sealed override` for a final method that reuses a slot,
/// else `virtual` or `override` for a virtual method, by its slot layout.
pub open spec fn spec_method_inheritance(attrs: u32) -> Seq<char> {
    let layout = attrs & METHOD_ATTRIBUTE_VTABLE_LAYOUT_MASK;
    if attrs & METHOD_ATTRIBUTE_ABSTRACT != 0 {
        "abstract "@ + (if layout == METHOD_ATTRIBUTE_REUSE_SLOT {
            "override "@
        } else {
            Seq::empty()
        })
    } else if attrs & METHOD_ATTRIBUTE_FINAL != 0 {
        if layout == METHOD_ATTRIBUTE_REUSE_SLOT {
            "sealed override "@
        } else {
            Seq::empty()
        }
    } else if attrs & METHOD_ATTRIBUTE_VIRTUAL != 0 {
        if layout == METHOD_ATTRIBUTE_NEW_SLOT {
            "virtual "@
        } else {
            "override "@
        }
    } else {
        Seq::empty()
    }
}

/// The modifiers of a method: access, `static`, inheritance keywords, `extern`.
pub open spec fn spec_method_modifiers(attrs: u32) -> Seq<char> {
    spec_method_access(attrs) + (if attrs & METHOD_ATTRIBUTE_STATIC != 0 {
        "static "@
    } else {
        Seq::empty()
    }) + spec_method_inheritance(attrs) + (if attrs & METHOD_ATTRIBUTE_PINVOKE_IMPL != 0 {
        "extern "@
    } else {
        Seq::empty()
    })
}

/// The access keyword of a method is fixed by the low three bits of its
/// attributes: 6 public, 1 private, 4 protected, 2 and 3 internal, 5 protected
/// internal, none for 0 and 7; the method's modifiers start with it.
pub proof fn lemma_method_access_keywords(attrs: u32)
    ensures
        attrs & 7 == 6 ==> spec_method_access(attrs) == "public "@,
        attrs & 7 == 1 ==> spec_method_access(attrs) == "private "@,
        attrs & 7 == 4 ==> spec_method_access(attrs) == "protected "@,
        attrs & 7 == 2 ==> spec_method_access(attrs) == "internal "@,
        attrs & 7 == 3 ==> spec_method_access(attrs) == "internal "@,
        attrs & 7 == 5 ==> spec_method_access(attrs) == "protected internal "@,
        attrs & 7 == 0 || attrs & 7 == 7 ==> spec_method_access(attrs) == Seq::<char>::empty(),
        exists|rest: Seq<char>| spec_method_modifiers(attrs) == spec_method_access(attrs) + rest,
{
    let rest = spec_method_modifiers(attrs).skip(spec_method_access(attrs).len() as int);
    assert(spec_method_modifiers(attrs) =~= spec_method_access(attrs) + rest);
}

/// The access keyword of a field is fixed by the low three bits of its
/// attributes: 6 public, 1 private, 4 protected, 2 and 3 internal, 5 protected
/// internal, none for 0 and 7; the field's modifiers start with it.
pub proof fn lemma_field_access_keywords(attrs: u32)
    ensures
        attrs & 7 == 6 ==> spec_field_access(attrs) == "public "@,
        attrs & 7 == 1 ==> spec_field_access(attrs) == "private "@,
        attrs & 7 == 4 ==> spec_field_access(attrs) == "protected "@,
        attrs & 7 == 2 ==> spec_field_access(attrs) == "internal "@,
        attrs & 7 == 3 ==> spec_field_access(attrs) == "internal "@,
        attrs & 7 == 5 ==> spec_field_access(attrs) == "protected internal "@,
        attrs & 7 == 0 || attrs & 7 == 7 ==> spec_field_access(attrs) == Seq::<char>::empty(),
        exists|rest: Seq<char>| spec_field_modifiers(attrs) == spec_field_access(attrs) + rest,
{
    let rest = spec_field_modifiers(attrs).skip(spec_field_access(attrs).len() as int);
    assert(spec_field_modifiers(attrs) =~= spec_field_access(attrs) + rest);
}

/// Appends the modifiers of a field with the given attributes.
pub fn prepend_field_modifiers(out: &mut String, attrs: u32)
    ensures
        final(out)@ == old(out)@ + spec_field_modifiers(attrs),
{
    let access = attrs & FIELD_ATTRIBUTE_FIELD_ACCESS_MASK;
    if access == FIELD_ATTRIBUTE_PUBLIC {
        out.append("public ");
    } else if access == FIELD_ATTRIBUTE_PRIVATE {
        out.append("private ");
    } else if access == FIELD_ATTRIBUTE_FAMILY {
        out.append("protected ");
    } else if access == FIELD_ATTRIBUTE_ASSEMBLY || access == FIELD_ATTRIBUTE_FAM_AND_ASSEM {
        out.append("internal ");
    } else if access == FIELD_ATTRIBUTE_FAM_OR_ASSEM {
        out.append("protected internal ");
    }
    assert(out@ =~= old(out)@ + spec_field_access(attrs));
    let ghost mid = out@;
    if attrs & FIELD_ATTRIBUTE_LITERAL != 0 {
        out.append("const ");
    } else if attrs & FIELD_ATTRIBUTE_STATIC != 0 {
        out.append("static ");
    }
    if attrs & FIELD_ATTRIBUTE_INIT_ONLY != 0 {
        out.append("readonly ");
    }
    assert(out@ =~= old(out)@ + spec_field_modifiers(attrs));
}

/// Appends the access keyword of a method.
fn write_method_access(out: &mut String, attrs: u32)
    ensures
        final(out)@ == old(out)@ + spec_method_access(attrs),
{
    let access = attrs & METHOD_ATTRIBUTE_MEMBER_ACCESS_MASK;
    if access == METHOD_ATTRIBUTE_PUBLIC {
        out.append("public ");
    } else if access == METHOD_ATTRIBUTE_PRIVATE {
        out.append("private ");
    } else if access == METHOD_ATTRIBUTE_FAMILY {
        out.append("protected ");
    } else if access == METHOD_ATTRIBUTE_ASSEM || access == METHOD_ATTRIBUTE_FAM_AND_ASSEM {
        out.append("internal ");
    } else if access == METHOD_ATTRIBUTE_FAM_OR_ASSEM {
        out.append("protected internal ");
    }
    assert(out@ =~= old(out)@ + spec_method_access(attrs));
}

/// Appends the inheritance keywords of a method.
fn write_method_inheritance(out: &mut String, attrs: u32)
    ensures
        final(out)@ == old(out)@ + spec_method_inheritance(attrs),
{
    let layout = attrs & METHOD_ATTRIBUTE_VTABLE_LAYOUT_MASK;
    if attrs & METHOD_ATTRIBUTE_ABSTRACT != 0 {
        out.append("abstract ");
        if layout == METHOD_ATTRIBUTE_REUSE_SLOT {
            out.append("override ");
        }
    } else if attrs & METHOD_ATTRIBUTE_FINAL != 0 {
        if layout == METHOD_ATTRIBUTE_REUSE_SLOT {
            out.append("sealed override ");
        }
    } else if attrs & METHOD_ATTRIBUTE_VIRTUAL != 0 {
        if layout == METHOD_ATTRIBUTE_NEW_SLOT {
            out.append("virtual ");
        } else {
            out.append("override ");
        }
    }
    assert(out@ =~= old(out)@ + spec_method_inheritance(attrs));
}

/// Appends the modifiers of a method with the given attributes.
pub fn prepend_method_modifiers(out: &mut String, attrs: u32)
    ensures
        final(out)@ == old(out)@ + spec_method_modifiers(attrs),
{
    write_method_access(out, attrs);
    let ghost after_access = out@;
    if attrs & METHOD_ATTRIBUTE_STATIC != 0 {
        out.append("static ");
    }
    write_method_inheritance(out, attrs);
    let ghost after_inheritance = out@;
    if attrs & METHOD_ATTRIBUTE_PINVOKE_IMPL != 0 {
        out.append("extern ");
    }
    assert(out@ =~= old(out)@ + spec_method_modifiers(attrs));
}

// ---------------------------------------------------------------------------
// Fields and methods
// ---------------------------------------------------------------------------

/// How the value of a constant field is to be shown, chosen by its type.
pub enum LiteralKind {
    /// A `char`: the low byte of the value, as a character.
    Char,
    /// A `float`: the low 32 bits of the value.
    Single,
    /// A `double`: the value's 64 bits.
    Double,
    /// A `string`: the value is the address of a runtime string.
    String,
    /// Any other type: the value in decimal.
    Integer,
}

/// The literal kind for a type code of the runtime.
pub open spec fn spec_literal_kind(type_enum: u8) -> LiteralKind {
    if type_enum == 0x3 {
        LiteralKind::Char
    } else if type_enum == 0xC {
        LiteralKind::Single
    } else if type_enum == 0xD {
        LiteralKind::Double
    } else if type_enum == 0xE {
        LiteralKind::String
    } else {
        LiteralKind::Integer
    }
}

/// Chooses how a constant of the type with the given code is shown.
pub fn literal_kind(type_enum: u8) -> (k: LiteralKind)
    ensures
        k == spec_literal_kind(type_enum),
{
    if type_enum == 0x3 {
        LiteralKind::Char
    } else if type_enum == 0xC {
        LiteralKind::Single
    } else if type_enum == 0xD {
        LiteralKind::Double
    } else if type_enum == 0xE {
        LiteralKind::String
    } else {
        LiteralKind::Integer
    }
}

/// The value of a constant field, ready to be written.
pub enum FieldLiteral {
    /// A character, written between single quotes.
    Char(u8),
    /// A text written as it is (a floating-point number already rendered).
    Verbatim(String),
    /// The contents of a string, written between double quotes.
    Quoted(String),
    /// A number, written in decimal.
    Integer(u64),
}

/// How a constant's value is written after ` = `.
pub open spec fn spec_literal_text(l: FieldLiteral) -> Seq<char> {
    match l {
        FieldLiteral::Char(b) => seq!['\'', (b as char), '\''],
        FieldLiteral::Verbatim(s) => s@,
        FieldLiteral::Quoted(s) => "\""@ + s@ + "\""@,
        FieldLiteral::Integer(n) => spec_decimal(n as nat),
    }
}

/// A field as the dump shows it.
pub struct FieldDump {
    pub field_type: String,
    pub name: String,
    /// Attributes of the field's type.
    pub attrs: u32,
    /// The value of a constant field; written when the literal flag is set.
    pub literal: Option<FieldLiteral>,
    pub offset: u32,
    pub token: u32,
}

/// The ` = value` part of a constant field.
pub open spec fn spec_literal_part(f: FieldDump) -> Seq<char> {
    if f.attrs & FIELD_ATTRIBUTE_LITERAL != 0 {
        match f.literal {
            Some(l) => " = "@ + spec_literal_text(l),
            None => Seq::empty(),
        }
    } else {
        Seq::empty()
    }
}

/// The declaration line of a field.
pub open spec fn spec_field_declaration(f: FieldDump) -> Seq<char> {
    "    "@ + spec_field_modifiers(f.attrs) + f.field_type@ + " "@ + f.name@ + spec_literal_part(f)
        + "; // Offset: 0x"@ + spec_hex_upper(f.offset as nat) + ", Token: 0x"@ + spec_hex_upper(
        f.token as nat,
    ) + "\n"@
}

/// Appends the declaration line of a field: modifiers, type, name, the value of
/// a constant, and its offset and token in hexadecimal.
pub fn write_class_field(out: &mut String, field: &FieldDump)
    ensures
        final(out)@ == old(out)@ + spec_field_declaration(*field),
{
    out.append("    ");
    prepend_field_modifiers(out, field.attrs);
    out.append(field.field_type.as_str());
    out.append(" ");
    out.append(field.name.as_str());
    let ghost before_literal = out@;
    if field.attrs & FIELD_ATTRIBUTE_LITERAL != 0 {
        match &field.literal {
            Some(FieldLiteral::Char(b)) => {
                out.append(" = ");
                push_char(out, '\'');
                push_char(out, *b as char);
                push_char(out, '\'');
            },
            Some(FieldLiteral::Verbatim(s)) => {
                out.append(" = ");
                out.append(s.as_str());
            },
            Some(FieldLiteral::Quoted(s)) => {
                out.append(" = ");
                out.append("\"");
                out.append(s.as_str());
                out.append("\"");
            },
            Some(FieldLiteral::Integer(n)) => {
                out.append(" = ");
                push_decimal(out, *n);
            },
            None => {},
        }
    }
    assert(out@ =~= before_literal + spec_literal_part(*field));
    out.append("; // Offset: 0x");
    push_hex_upper(out, field.offset as u64);
    out.append(", Token: 0x");
    push_hex_upper(out, field.token as u64);
    out.append("\n");
    assert(out@ =~= old(out)@ + spec_field_declaration(*field));
}

/// A method as the dump shows it.
pub struct MethodDump {
    /// Address of the method's code, `0` when it has none.
    pub address: usize,
    /// Address the game module is loaded at.
    pub image_base: usize,
    pub attrs: u32,
    pub return_type: String,
    pub name: String,
    /// (type, name) of each argument.
    pub args: Vec<(String, String)>,
}

/// Offset of a method's code from the module base; zero when it has no code.
/// The subtraction wraps, as unchecked address arithmetic does in a release build.
pub open spec fn spec_rva(m: MethodDump) -> usize {
    if m.address == 0 {
        0
    } else if m.address >= m.image_base {
        (m.address - m.image_base) as usize
    } else {
        (m.address - m.image_base + usize::MAX + 1) as usize
    }
}

/// The `type name` text of one argument.
pub open spec fn spec_argument_text(a: (String, String)) -> Seq<char> {
    a.0@ + " "@ + a.1@
}

/// The declaration of a method: its address comment, signature and empty body.
pub open spec fn spec_method_declaration(m: MethodDump) -> Seq<char> {
    "    // RVA: 0x"@ + spec_hex_upper(spec_rva(m) as nat) + "\n    "@ + spec_method_modifiers(
        m.attrs,
    ) + m.return_type@ + " "@ + m.name@ + "("@ + spec_join(
        m.args@.map_values(|a: (String, String)| spec_argument_text(a)),
        ", "@,
    ) + ") {}\n\n"@
}

/// Appends the declaration of a method.
pub fn write_class_method(out: &mut String, method: &MethodDump)
    ensures
        final(out)@ == old(out)@ + spec_method_declaration(*method),
{
    let rva: usize = if method.address != 0 {
        method.address.wrapping_sub(method.image_base)
    } else {
        0
    };
    assert(rva == spec_rva(*method));
    out.append("    // RVA: 0x");
    push_hex_upper(out, rva as u64);
    out.append("\n    ");
    prepend_method_modifiers(out, method.attrs);
    out.append(method.return_type.as_str());
    out.append(" ");
    out.append(method.name.as_str());
    out.append("(");
    let ghost base = out@;
    let mut i: usize = 0;
    while i < method.args.len()
        invariant
            i <= method.args@.len(),
            out@ == base + spec_join(
                method.args@.take(i as int).map_values(
                    |a: (String, String)| spec_argument_text(a),
                ),
                ", "@,
            ),
        decreases method.args@.len() - i,
    {
        let ghost prev = method.args@.take(i as int).map_values(
            |a: (String, String)| spec_argument_text(a),
        );
        if i != 0 {
            out.append(", ");
        }
        out.append(method.args[i].0.as_str());
        out.append(" ");
        out.append(method.args[i].1.as_str());
        proof {
            let f = |a: (String, String)| spec_argument_text(a);
            assert(method.args@.take(i + 1).map_values(f) =~= prev.push(f(method.args@[i as int])));
            lemma_join_push(prev, f(method.args@[i as int]), ", "@);
        }
        i = i + 1;
        assert(out@ =~= base + spec_join(
            method.args@.take(i as int).map_values(|a: (String, String)| spec_argument_text(a)),
            ", "@,
        ));
    }
    assert(method.args@.take(i as int) =~= method.args@);
    out.append(") {}\n\n");
    assert(out@ =~= old(out)@ + spec_method_declaration(*method));
}

// ---------------------------------------------------------------------------
// Classes and assemblies
// ---------------------------------------------------------------------------

/// A class as the dump shows it.
pub struct ClassDump {
    pub image_name: String,
    pub namespace: String,
    pub class_type: String,
    /// Type name of the parent class, if there is one.
    pub parent: Option<String>,
    /// Type names of the implemented interfaces.
    pub interfaces: Vec<String>,
    pub token: u32,
    pub fields: Vec<FieldDump>,
    pub methods: Vec<MethodDump>,
}

/// The base list after the class name: ` : ` before the first base type, `, `
/// between the others.
pub open spec fn spec_bases_text(c: ClassDump) -> Seq<char> {
    (match c.parent {
        Some(p) => " : "@ + p@,
        None => Seq::empty(),
    }) + if c.interfaces@.len() == 0 {
        Seq::empty()
    } else {
        (if c.parent is None {
            " : "@
        } else {
            ", "@
        }) + spec_join(c.interfaces@.map_values(|s: String| s@), ", "@)
    }
}

/// The declaration of a class: a comment with its assembly and namespace, the
/// header with its bases and token, its fields, an empty line, its methods.
pub open spec fn spec_class_declaration(c: ClassDump) -> Seq<char> {
    "// Assembly: "@ + c.image_name@ + ", Namespace: "@ + c.namespace@ + "\n"@ + "class "@
        + c.class_type@ + spec_bases_text(c) + " { // Token: 0x"@ + spec_hex_upper(c.token as nat)
        + "\n"@ + spec_concat(c.fields@.map_values(|f: FieldDump| spec_field_declaration(f)))
        + "\n"@ + spec_concat(c.methods@.map_values(|m: MethodDump| spec_method_declaration(m)))
        + "}\n\n"@
}

impl ClassDump {
    /// Appends the base list after the class name.
    fn write_bases(&self, out: &mut String)
        ensures
            final(out)@ == old(out)@ + spec_bases_text(*self),
    {
        let has_parent = self.parent.is_some();
        match &self.parent {
            Some(p) => {
                out.append(" : ");
                out.append(p.as_str());
            },
            None => {},
        }
        let ghost base = out@;
        let ghost names = self.interfaces@.map_values(|s: String| s@);
        let ghost lead = if has_parent {
            ", "@
        } else {
            " : "@
        };
        let mut i: usize = 0;
        while i < self.interfaces.len()
            invariant
                i <= self.interfaces@.len(),
                names == self.interfaces@.map_values(|s: String| s@),
                has_parent == (self.parent is Some),
                lead == if has_parent {
                    ", "@
                } else {
                    " : "@
                },
                out@ == base + if i == 0 {
                    Seq::<char>::empty()
                } else {
                    lead + spec_join(names.take(i as int), ", "@)
                },
            decreases self.interfaces@.len() - i,
        {
            if i == 0 && !has_parent {
                out.append(" : ");
            } else {
                out.append(", ");
            }
            out.append(self.interfaces[i].as_str());
            proof {
                assert(names.take(i + 1) =~= names.take(i as int).push(names[i as int]));
                lemma_join_push(names.take(i as int), names[i as int], ", "@);
                if i == 0 {
                    assert(names.take(0) =~= Seq::<Seq<char>>::empty());
                }
            }
            i = i + 1;
            assert(out@ =~= base + lead + spec_join(names.take(i as int), ", "@));
        }
        assert(names.take(i as int) =~= names);
        assert(out@ =~= old(out)@ + spec_bases_text(*self));
    }

    /// Appends the declaration of the class with its fields and methods.
    pub fn write_text(&self, out: &mut String)
        ensures
            final(out)@ == old(out)@ + spec_class_declaration(*self),
    {
        out.append("// Assembly: ");
        out.append(self.image_name.as_str());
        out.append(", Namespace: ");
        out.append(self.namespace.as_str());
        out.append("\n");
        out.append("class ");
        out.append(self.class_type.as_str());
        self.write_bases(out);
        out.append(" { // Token: 0x");
        push_hex_upper(out, self.token as u64);
        out.append("\n");
        let ghost head = out@;
        let mut i: usize = 0;
        while i < self.fields.len()
            invariant
                i <= self.fields@.len(),
                out@ == head + spec_concat(
                    self.fields@.take(i as int).map_values(
                        |f: FieldDump| spec_field_declaration(f),
                    ),
                ),
            decreases self.fields@.len() - i,
        {
            write_class_field(out, &self.fields[i]);
            proof {
                let f = |f: FieldDump| spec_field_declaration(f);
                assert(self.fields@.take(i + 1).map_values(f) =~= self.fields@.take(
                    i as int,
                ).map_values(f).push(f(self.fields@[i as int])));
                lemma_concat_push(
                    self.fields@.take(i as int).map_values(f),
                    f(self.fields@[i as int]),
                );
            }
            i = i + 1;
        }
        assert(self.fields@.take(i as int) =~= self.fields@);
        out.append("\n");
        let ghost mid = out@;
        let mut k: usize = 0;
        while k < self.methods.len()
            invariant
                k <= self.methods@.len(),
                out@ == mid + spec_concat(
                    self.methods@.take(k as int).map_values(
                        |m: MethodDump| spec_method_declaration(m),
                    ),
                ),
            decreases self.methods@.len() - k,
        {
            write_class_method(out, &self.methods[k]);
            proof {
                let f = |m: MethodDump| spec_method_declaration(m);
                assert(self.methods@.take(k + 1).map_values(f) =~= self.methods@.take(
                    k as int,
                ).map_values(f).push(f(self.methods@[k as int])));
                lemma_concat_push(
                    self.methods@.take(k as int).map_values(f),
                    f(self.methods@[k as int]),
                );
            }
            k = k + 1;
        }
        assert(self.methods@.take(k as int) =~= self.methods@);
        out.append("}\n\n");
        assert(out@ =~= old(out)@ + spec_class_declaration(*self));
    }
}

/// The comment line naming an assembly and its class count.
pub open spec fn spec_assembly_line(a: (String, usize)) -> Seq<char> {
    "// Assembly "@ + a.0@ + ", class count: "@ + spec_decimal(a.1 as nat) + "\n"@
}

/// Appends one comment line per (image name, class count), then an empty line.
pub fn write_assemblies_list(out: &mut String, assemblies: &Vec<(String, usize)>)
    ensures
        final(out)@ == old(out)@ + spec_concat(
            assemblies@.map_values(|a: (String, usize)| spec_assembly_line(a)),
        ) + "\n"@,
{
    let ghost base = out@;
    let mut i: usize = 0;
    while i < assemblies.len()
        invariant
            i <= assemblies@.len(),
            out@ == base + spec_concat(
                assemblies@.take(i as int).map_values(|a: (String, usize)| spec_assembly_line(a)),
            ),
        decreases assemblies@.len() - i,
    {
        let ghost before = out@;
        out.append("// Assembly ");
        out.append(assemblies[i].0.as_str());
        out.append(", class count: ");
        push_decimal(out, assemblies[i].1 as u64);
        out.append("\n");
        proof {
            let f = |a: (String, usize)| spec_assembly_line(a);
            assert(out@ =~= before + f(assemblies@[i as int]));
            assert(assemblies@.take(i + 1).map_values(f) =~= assemblies@.take(i as int).map_values(
                f,
            ).push(f(assemblies@[i as int])));
            lemma_concat_push(assemblies@.take(i as int).map_values(f), f(assemblies@[i as int]));
        }
        i = i + 1;
    }
    assert(assemblies@.take(i as int) =~= assemblies@);
    out.append("\n");
}

} // verus!
