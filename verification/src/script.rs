//! The symbol file for the disassembler: string literals, type infos, methods and
//! method references with their addresses relative to the game module.
use vstd::prelude::*;
use crate::json::{spec_escape, write_escaped};
use crate::text::{lemma_join_push, push_decimal, spec_decimal, spec_join};

verus! {

/// `address - base`, wrapping as unchecked address arithmetic does in a release build.
pub open spec fn spec_relative(address: usize, base: usize) -> usize {
    if address >= base {
        (address - base) as usize
    } else {
        (address - base + usize::MAX + 1) as usize
    }
}

/// A method with code: its address, and the names of its class type and itself.
pub struct MethodSymbol {
    pub address: usize,
    pub class_type: String,
    pub name: String,
}

/// A metadata entry that refers to a method.
pub struct MethodRefSymbol {
    /// Where the runtime keeps the reference.
    pub address: usize,
    pub class_type: String,
    pub name: String,
    /// Address of the method's code.
    pub method_address: usize,
}

/// Everything the symbol file lists.
pub struct ScriptSymbols {
    /// Address the game module is loaded at.
    pub image_base: usize,
    /// (address, contents) of each string literal.
    pub string_literals: Vec<(usize, String)>,
    /// (address, type name) of each type info.
    pub type_infos: Vec<(usize, String)>,
    pub methods: Vec<MethodSymbol>,
    pub method_refs: Vec<MethodRefSymbol>,
}

/// The object of a string literal.
pub open spec fn spec_string_entry(base: usize, s: (usize, String)) -> Seq<char> {
    "{\"Address\":"@ + spec_decimal(spec_relative(s.0, base) as nat) + ",\"Value\":\""@
        + spec_escape(s.1@) + "\"}"@
}

/// The objects of the string literals that are not empty.
pub open spec fn spec_string_entries(base: usize, s: Seq<(usize, String)>) -> Seq<Seq<char>>
    decreases s.len(),
{
    if s.len() == 0 {
        Seq::empty()
    } else {
        let prev = spec_string_entries(base, s.drop_last());
        if s.last().1@.len() == 0 {
            prev
        } else {
            prev.push(spec_string_entry(base, s.last()))
        }
    }
}

/// The object of a type info.
pub open spec fn spec_type_info_entry(base: usize, t: (usize, String)) -> Seq<char> {
    "{\"Address\":"@ + spec_decimal(spec_relative(t.0, base) as nat) + ", \"Name\": \""@ + t.1@
        + "_TypeInfo\", \"Signature\": \""@ + t.1@ + "_c*\"}"@
}

/// The object of a method.
pub open spec fn spec_method_entry(base: usize, m: MethodSymbol) -> Seq<char> {
    "{\"Address\":"@ + spec_decimal(spec_relative(m.address, base) as nat) + ", \"Name\": \""@
        + m.class_type@ + "$$"@ + m.name@ + "\", \"Signature\": \"\", \"TypeSignature\": \"\"}"@
}

/// The object of a method reference.
pub open spec fn spec_method_ref_entry(base: usize, r: MethodRefSymbol) -> Seq<char> {
    "{\"Address\":"@ + spec_decimal(spec_relative(r.address, base) as nat) + ", \"Name\": \""@
        + r.class_type@ + "_"@ + r.name@ + "\", \"MethodAddress\": "@ + spec_decimal(
        spec_relative(r.method_address, base) as nat,
    ) + "}"@
}

/// A JSON array of the objects.
pub open spec fn spec_array(parts: Seq<Seq<char>>) -> Seq<char> {
    "["@ + spec_join(parts, ", "@) + "]"@
}

/// The whole symbol file.
pub open spec fn spec_script(s: ScriptSymbols) -> Seq<char> {
    "{"@ + "\"ScriptString\": "@ + spec_array(spec_string_entries(s.image_base, s.string_literals@))
        + ", \"ScriptMetadata\": "@ + spec_array(
        s.type_infos@.map_values(|t: (usize, String)| spec_type_info_entry(s.image_base, t)),
    ) + ", \"ScriptMethod\": "@ + spec_array(
        s.methods@.map_values(|m: MethodSymbol| spec_method_entry(s.image_base, m)),
    ) + ", \"ScriptMetadataMethod\": "@ + spec_array(
        s.method_refs@.map_values(|r: MethodRefSymbol| spec_method_ref_entry(s.image_base, r)),
    ) + "}"@
}

fn write_relative(out: &mut String, address: usize, base: usize)
    ensures
        final(out)@ == old(out)@ + spec_decimal(spec_relative(address, base) as nat),
{
    let r = address.wrapping_sub(base);
    assert(r == spec_relative(address, base));
    push_decimal(out, r as u64);
}

impl ScriptSymbols {
    fn write_string_literals(&self, out: &mut String)
        ensures
            final(out)@ == old(out)@ + spec_array(
                spec_string_entries(self.image_base, self.string_literals@),
            ),
    {
        out.append("[");
        let ghost start = out@;
        let ghost base = self.image_base;
        let mut first_write = true;
        let mut i: usize = 0;
        while i < self.string_literals.len()
            invariant
                i <= self.string_literals@.len(),
                base == self.image_base,
                first_write == (spec_string_entries(base, self.string_literals@.take(i as int)).len()
                    == 0),
                out@ == start + spec_join(
                    spec_string_entries(base, self.string_literals@.take(i as int)),
                    ", "@,
                ),
            decreases self.string_literals@.len() - i,
        {
            let ghost prev = spec_string_entries(base, self.string_literals@.take(i as int));
            proof {
                assert(self.string_literals@.take(i + 1).drop_last() =~= self.string_literals@.take(
                    i as int,
                ));
            }
            let entry = &self.string_literals[i];
            if entry.1.as_str().is_empty() {
            } else {
                if !first_write {
                    out.append(", ");
                }
                first_write = false;
                let ghost before = out@;
                out.append("{\"Address\":");
                write_relative(out, entry.0, self.image_base);
                out.append(",\"Value\":\"");
                write_escaped(out, entry.1.as_str());
                out.append("\"}");
                proof {
                    assert(out@ =~= before + spec_string_entry(base, *entry));
                    lemma_join_push(prev, spec_string_entry(base, *entry), ", "@);
                }
            }
            i = i + 1;
        }
        assert(self.string_literals@.take(i as int) =~= self.string_literals@);
        out.append("]");
    }

    fn write_type_infos(&self, out: &mut String)
        ensures
            final(out)@ == old(out)@ + spec_array(
                self.type_infos@.map_values(
                    |t: (usize, String)| spec_type_info_entry(self.image_base, t),
                ),
            ),
    {
        out.append("[");
        let ghost start = out@;
        let ghost base = self.image_base;
        let ghost parts = self.type_infos@.map_values(
            |t: (usize, String)| spec_type_info_entry(base, t),
        );
        let mut i: usize = 0;
        while i < self.type_infos.len()
            invariant
                i <= self.type_infos@.len(),
                base == self.image_base,
                parts == self.type_infos@.map_values(
                    |t: (usize, String)| spec_type_info_entry(base, t),
                ),
                out@ == start + spec_join(parts.take(i as int), ", "@),
            decreases self.type_infos@.len() - i,
        {
            if i != 0 {
                out.append(", ");
            }
            let ghost before = out@;
            let entry = &self.type_infos[i];
            out.append("{\"Address\":");
            write_relative(out, entry.0, self.image_base);
            out.append(", \"Name\": \"");
            out.append(entry.1.as_str());
            out.append("_TypeInfo\", \"Signature\": \"");
            out.append(entry.1.as_str());
            out.append("_c*\"}");
            proof {
                assert(out@ =~= before + parts[i as int]);
                assert(parts.take(i + 1) =~= parts.take(i as int).push(parts[i as int]));
                lemma_join_push(parts.take(i as int), parts[i as int], ", "@);
            }
            i = i + 1;
        }
        assert(parts.take(i as int) =~= parts);
        out.append("]");
    }

    fn write_methods(&self, out: &mut String)
        ensures
            final(out)@ == old(out)@ + spec_array(
                self.methods@.map_values(|m: MethodSymbol| spec_method_entry(self.image_base, m)),
            ),
    {
        out.append("[");
        let ghost start = out@;
        let ghost base = self.image_base;
        let ghost parts = self.methods@.map_values(|m: MethodSymbol| spec_method_entry(base, m));
        let mut i: usize = 0;
        while i < self.methods.len()
            invariant
                i <= self.methods@.len(),
                base == self.image_base,
                parts == self.methods@.map_values(|m: MethodSymbol| spec_method_entry(base, m)),
                out@ == start + spec_join(parts.take(i as int), ", "@),
            decreases self.methods@.len() - i,
        {
            if i != 0 {
                out.append(", ");
            }
            let ghost before = out@;
            let entry = &self.methods[i];
            out.append("{\"Address\":");
            write_relative(out, entry.address, self.image_base);
            out.append(", \"Name\": \"");
            out.append(entry.class_type.as_str());
            out.append("$$");
            out.append(entry.name.as_str());
            out.append("\", \"Signature\": \"\", \"TypeSignature\": \"\"}");
            proof {
                assert(out@ =~= before + parts[i as int]);
                assert(parts.take(i + 1) =~= parts.take(i as int).push(parts[i as int]));
                lemma_join_push(parts.take(i as int), parts[i as int], ", "@);
            }
            i = i + 1;
        }
        assert(parts.take(i as int) =~= parts);
        out.append("]");
    }

    fn write_method_refs(&self, out: &mut String)
        ensures
            final(out)@ == old(out)@ + spec_array(
                self.method_refs@.map_values(
                    |r: MethodRefSymbol| spec_method_ref_entry(self.image_base, r),
                ),
            ),
    {
        out.append("[");
        let ghost start = out@;
        let ghost base = self.image_base;
        let ghost parts = self.method_refs@.map_values(
            |r: MethodRefSymbol| spec_method_ref_entry(base, r),
        );
        let mut i: usize = 0;
        while i < self.method_refs.len()
            invariant
                i <= self.method_refs@.len(),
                base == self.image_base,
                parts == self.method_refs@.map_values(
                    |r: MethodRefSymbol| spec_method_ref_entry(base, r),
                ),
                out@ == start + spec_join(parts.take(i as int), ", "@),
            decreases self.method_refs@.len() - i,
        {
            if i != 0 {
                out.append(", ");
            }
            let ghost before = out@;
            let entry = &self.method_refs[i];
            out.append("{\"Address\":");
            write_relative(out, entry.address, self.image_base);
            out.append(", \"Name\": \"");
            out.append(entry.class_type.as_str());
            out.append("_");
            out.append(entry.name.as_str());
            out.append("\", \"MethodAddress\": ");
            write_relative(out, entry.method_address, self.image_base);
            out.append("}");
            proof {
                assert(out@ =~= before + parts[i as int]);
                assert(parts.take(i + 1) =~= parts.take(i as int).push(parts[i as int]));
                lemma_join_push(parts.take(i as int), parts[i as int], ", "@);
            }
            i = i + 1;
        }
        assert(parts.take(i as int) =~= parts);
        out.append("]");
    }

    /// Appends the symbol file: a JSON object with the string literals (empty
    /// ones left out), the type infos, the methods and the method references.
    pub fn write_to_file(&self, out: &mut String)
        ensures
            final(out)@ == old(out)@ + spec_script(*self),
    {
        out.append("{");
        out.append("\"ScriptString\": ");
        self.write_string_literals(out);
        out.append(", \"ScriptMetadata\": ");
        self.write_type_infos(out);
        out.append(", \"ScriptMethod\": ");
        self.write_methods(out);
        out.append(", \"ScriptMetadataMethod\": ");
        self.write_method_refs(out);
        out.append("}");
        assert(out@ =~= old(out)@ + spec_script(*self));
    }
}

} // verus!
