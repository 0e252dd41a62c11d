//! JSON string escaping and the small predicates on protobuf type names.
use vstd::prelude::*;
use crate::text::{digit_lower, lower_digit_char, push_char, str_eq};

verus! {

/// How one character stands inside a JSON string literal.
pub open spec fn spec_escape_char(c: char) -> Seq<char> {
    if c == '"' {
        seq!['\\', '"']
    } else if c == '\\' {
        seq!['\\', '\\']
    } else if c == '\n' {
        seq!['\\', 'n']
    } else if c == '\r' {
        seq!['\\', 'r']
    } else if c == '\t' {
        seq!['\\', 't']
    } else if (c as u32) < 0x20 {
        seq!['\\', 'u', '0', '0', digit_lower((c as nat) / 16), digit_lower((c as nat) % 16)]
    } else {
        seq![c]
    }
}

/// A text escaped for use inside a JSON string literal, character by character.
pub open spec fn spec_escape(s: Seq<char>) -> Seq<char>
    decreases s.len(),
{
    if s.len() == 0 {
        Seq::empty()
    } else {
        spec_escape(s.drop_last()) + spec_escape_char(s.last())
    }
}

/// Appends `s` escaped for a JSON string literal: quotes, backslashes and
/// control characters get escape sequences, everything else stays.
pub fn write_escaped(out: &mut String, s: &str)
    ensures
        final(out)@ == old(out)@ + spec_escape(s@),
{
    let ghost start = out@;
    let mut chars = s.chars();
    let ghost mut done: Seq<char> = Seq::empty();
    assert(done + vstd::std_specs::iter::IteratorSpec::remaining(&chars) =~= s@);
    loop
        invariant
            done + vstd::std_specs::iter::IteratorSpec::remaining(&chars) == s@,
            out@ == start + spec_escape(done),
            vstd::std_specs::iter::IteratorSpec::obeys_prophetic_iter_laws(&chars),
            vstd::std_specs::iter::IteratorSpec::decrease(&chars) is Some,
        ensures
            done == s@,
            out@ == start + spec_escape(done),
        decreases vstd::std_specs::iter::IteratorSpec::decrease(&chars)->0,
    {
        match chars.next() {
            Some(c) => {
                escape_char(out, c);
                proof {
                    let old_done = done;
                    done = done.push(c);
                    assert(done.drop_last() =~= old_done);
                    assert(done + vstd::std_specs::iter::IteratorSpec::remaining(&chars) =~= s@);
                }
            },
            None => {
                assert(done =~= s@);
                break;
            },
        }
    }
}

/// Appends one character escaped for a JSON string literal.
fn escape_char(out: &mut String, c: char)
    ensures
        final(out)@ == old(out)@ + spec_escape_char(c),
{
    if c == '"' {
        push_char(out, '\\');
        push_char(out, '"');
    } else if c == '\\' {
        push_char(out, '\\');
        push_char(out, '\\');
    } else if c == '\n' {
        push_char(out, '\\');
        push_char(out, 'n');
    } else if c == '\r' {
        push_char(out, '\\');
        push_char(out, 'r');
    } else if c == '\t' {
        push_char(out, '\\');
        push_char(out, 't');
    } else if (c as u32) < 0x20 {
        let code = c as u32;
        push_char(out, '\\');
        push_char(out, 'u');
        push_char(out, '0');
        push_char(out, '0');
        push_char(out, lower_digit_char((code / 16) as u8));
        push_char(out, lower_digit_char((code % 16) as u8));
    } else {
        push_char(out, c);
    }
    assert(out@ =~= old(out)@ + spec_escape_char(c));
}

/// The protobuf type names that need no definition of their own.
pub open spec fn spec_is_native_type(kind: Seq<char>) -> bool {
    ||| kind == "bool"@
    ||| kind == "int32"@
    ||| kind == "uint32"@
    ||| kind == "int64"@
    ||| kind == "uint64"@
    ||| kind == "float"@
    ||| kind == "double"@
    ||| kind == "string"@
    ||| kind == "bytes"@
    ||| kind == "google.protobuf.Any"@
}

/// Whether `kind` names a scalar or well-known protobuf type.
pub fn is_native_type(kind: &str) -> (r: bool)
    ensures
        r == spec_is_native_type(kind@),
{
    str_eq(kind, "bool") || str_eq(kind, "int32") || str_eq(kind, "uint32") || str_eq(
        kind,
        "int64",
    ) || str_eq(kind, "uint64") || str_eq(kind, "float") || str_eq(kind, "double") || str_eq(
        kind,
        "string",
    ) || str_eq(kind, "bytes") || str_eq(kind, "google.protobuf.Any")
}

/// `kind` without a leading `repeated ` and whether it had one.
pub open spec fn spec_strip_repeated(kind: Seq<char>) -> (Seq<char>, bool) {
    if "repeated "@.is_prefix_of(kind) {
        (kind.skip("repeated "@.len() as int), true)
    } else {
        (kind, false)
    }
}

/// `s` without the leading `prefix`, if it starts with it: std's `str::strip_prefix`.
#[verifier::external_body]
fn strip_prefix<'a>(s: &'a str, prefix: &str) -> (r: Option<&'a str>)
    ensures
        match r {
            Some(rest) => prefix@.is_prefix_of(s@) && rest@ == s@.skip(prefix@.len() as int),
            None => !prefix@.is_prefix_of(s@),
        },
{
    s.strip_prefix(prefix)
}

/// Splits a field type into its element type and whether it is `repeated`.
pub fn strip_repeated(kind: &str) -> (r: (&str, bool))
    ensures
        (r.0@, r.1) == spec_strip_repeated(kind@),
{
    match strip_prefix(kind, "repeated ") {
        Some(base) => (base, true),
        None => (kind, false),
    }
}

/// The value of a hexadecimal digit character (either case).
pub open spec fn spec_hex_value(c: char) -> int {
    if '0' <= c && c <= '9' {
        c as int - 48
    } else if 'a' <= c && c <= 'f' {
        c as int - 87
    } else if 'A' <= c && c <= 'F' {
        c as int - 55
    } else {
        0
    }
}

/// Reading a JSON string body back: escape sequences become the characters they
/// stand for, every other character stands for itself.
pub open spec fn spec_unescape(s: Seq<char>) -> Seq<char>
    decreases s.len(),
{
    if s.len() == 0 {
        Seq::empty()
    } else if s[0] == '\\' && s.len() >= 2 {
        let e = s[1];
        if e == '"' {
            seq!['"'] + spec_unescape(s.skip(2))
        } else if e == '\\' {
            seq!['\\'] + spec_unescape(s.skip(2))
        } else if e == 'n' {
            seq!['\n'] + spec_unescape(s.skip(2))
        } else if e == 'r' {
            seq!['\r'] + spec_unescape(s.skip(2))
        } else if e == 't' {
            seq!['\t'] + spec_unescape(s.skip(2))
        } else if e == 'u' && s.len() >= 6 {
            let v = 4096 * spec_hex_value(s[2]) + 256 * spec_hex_value(s[3]) + 16 * spec_hex_value(
                s[4],
            ) + spec_hex_value(s[5]);
            seq![(v as u32) as char] + spec_unescape(s.skip(6))
        } else {
            seq![s[0]] + spec_unescape(s.drop_first())
        }
    } else {
        seq![s[0]] + spec_unescape(s.drop_first())
    }
}

/// Escaping a concatenation escapes each part.
pub proof fn lemma_escape_append(a: Seq<char>, b: Seq<char>)
    ensures
        spec_escape(a + b) == spec_escape(a) + spec_escape(b),
    decreases b.len(),
{
    if b.len() == 0 {
        assert(a + b =~= a);
        assert(spec_escape(a) + spec_escape(b) =~= spec_escape(a));
    } else {
        lemma_escape_append(a, b.drop_last());
        assert((a + b).drop_last() =~= a + b.drop_last());
        assert((a + b).last() == b.last());
        assert(spec_escape(a + b) =~= spec_escape(a) + spec_escape(b));
    }
}

/// Reading back the escape of one character, followed by anything, gives the
/// character followed by the reading of the rest.
proof fn lemma_unescape_char(c: char, t: Seq<char>)
    ensures
        spec_unescape(spec_escape_char(c) + t) == seq![c] + spec_unescape(t),
{
    let s = spec_escape_char(c) + t;
    let n = spec_escape_char(c).len();
    if c == '"' || c == '\\' || c == '\n' || c == '\r' || c == '\t' {
        assert(s.skip(2) =~= t);
    } else if (c as u32) < 0x20 {
        assert(s.skip(6) =~= t);
        let hi = (c as nat) / 16;
        let lo = (c as nat) % 16;
        assert(hi < 2);
        assert(spec_hex_value(s[2]) == 0);
        assert(spec_hex_value(s[3]) == 0);
        assert(spec_hex_value(s[4]) == hi);
        assert(spec_hex_value(s[5]) == lo);
        assert(((16 * hi + lo) as u32) as char == c);
    } else {
        assert(s.drop_first() =~= t);
    }
}

/// Reading back an escaped text gives the text: escaping loses nothing.
pub proof fn lemma_escape_roundtrip(s: Seq<char>)
    ensures
        spec_unescape(spec_escape(s)) == s,
    decreases s.len(),
{
    if s.len() > 0 {
        let rest = s.drop_first();
        lemma_escape_roundtrip(rest);
        lemma_escape_append(seq![s[0]], rest);
        assert(seq![s[0]] + rest =~= s);
        assert(seq![s[0]].drop_last() =~= Seq::<char>::empty());
        assert(spec_escape(Seq::<char>::empty()) =~= Seq::<char>::empty());
        assert(seq![s[0]].last() == s[0]);
        assert(spec_escape(seq![s[0]]) =~= spec_escape_char(s[0]));
        lemma_unescape_char(s[0], spec_escape(rest));
        assert(seq![s[0]] + rest =~= s);
    }
}

} // verus!
