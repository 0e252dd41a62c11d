//! Text building blocks: numbers in decimal and hexadecimal, and joining.
use vstd::prelude::*;

verus! {

/// The character of a digit in base 16 or less, upper case letters above nine.
pub open spec fn digit_upper(d: nat) -> char {
    if d < 10 {
        (48 + d) as char
    } else {
        (55 + d) as char
    }
}

/// The character of a digit in base 16 or less, lower case letters above nine.
pub open spec fn digit_lower(d: nat) -> char {
    if d < 10 {
        (48 + d) as char
    } else {
        (87 + d) as char
    }
}

/// `n` in decimal, without leading zeros.
pub open spec fn spec_decimal(n: nat) -> Seq<char>
    decreases n,
{
    if n < 10 {
        seq![digit_upper(n)]
    } else {
        spec_decimal(n / 10).push(digit_upper(n % 10))
    }
}

/// `n` in decimal with a leading minus sign when negative.
pub open spec fn spec_signed_decimal(n: int) -> Seq<char> {
    if n < 0 {
        seq!['-'] + spec_decimal((-n) as nat)
    } else {
        spec_decimal(n as nat)
    }
}

/// `n` in upper-case hexadecimal, without leading zeros.
pub open spec fn spec_hex_upper(n: nat) -> Seq<char>
    decreases n,
{
    if n < 16 {
        seq![digit_upper(n)]
    } else {
        spec_hex_upper(n / 16).push(digit_upper(n % 16))
    }
}

/// `true` or `false`.
pub open spec fn spec_bool(b: bool) -> Seq<char> {
    if b {
        "true"@
    } else {
        "false"@
    }
}

/// The parts one after the other.
pub open spec fn spec_concat(parts: Seq<Seq<char>>) -> Seq<char>
    decreases parts.len(),
{
    if parts.len() == 0 {
        Seq::empty()
    } else {
        spec_concat(parts.drop_last()) + parts.last()
    }
}

/// The parts with `sep` between each two neighbours.
pub open spec fn spec_join(parts: Seq<Seq<char>>, sep: Seq<char>) -> Seq<char>
    decreases parts.len(),
{
    if parts.len() == 0 {
        Seq::empty()
    } else if parts.len() == 1 {
        parts[0]
    } else {
        spec_join(parts.drop_last(), sep) + sep + parts.last()
    }
}

/// Adding a part at the end of a concatenation.
pub proof fn lemma_concat_push(parts: Seq<Seq<char>>, p: Seq<char>)
    ensures
        spec_concat(parts.push(p)) == spec_concat(parts) + p,
{
    assert(parts.push(p).drop_last() =~= parts);
}

/// Adding a part at the end of a joined list.
pub proof fn lemma_join_push(parts: Seq<Seq<char>>, p: Seq<char>, sep: Seq<char>)
    ensures
        spec_join(parts.push(p), sep) == if parts.len() == 0 {
            p
        } else {
            spec_join(parts, sep) + sep + p
        },
{
    assert(parts.push(p).drop_last() =~= parts);
}

/// Joining two lists one after the other.
pub proof fn lemma_join_append(a: Seq<Seq<char>>, b: Seq<Seq<char>>, sep: Seq<char>)
    ensures
        spec_join(a + b, sep) == if a.len() == 0 {
            spec_join(b, sep)
        } else if b.len() == 0 {
            spec_join(a, sep)
        } else {
            spec_join(a, sep) + sep + spec_join(b, sep)
        },
    decreases b.len(),
{
    if b.len() == 0 {
        assert(a + b =~= a);
    } else if a.len() == 0 {
        assert(a + b =~= b);
    } else {
        let b0 = b.drop_last();
        lemma_join_append(a, b0, sep);
        assert((a + b).drop_last() =~= a + b0);
        assert((a + b).last() == b.last());
        if b0.len() == 0 {
            assert(b =~= seq![b.last()]);
        }
    }
}

/// Appends one character: std's `String::push`.
#[verifier::external_body]
pub(crate) fn push_char(s: &mut String, c: char)
    ensures
        final(s)@ == old(s)@.push(c),
{
    s.push(c);
}

/// Compares two string slices: std's `==` on `str`.
#[verifier::external_body]
pub(crate) fn str_eq(a: &str, b: &str) -> (r: bool)
    ensures
        r == (a@ == b@),
{
    a == b
}

/// The digit character for `d < 16`, upper case.
pub fn upper_digit_char(d: u8) -> (c: char)
    requires
        d < 16,
    ensures
        c == digit_upper(d as nat),
{
    if d < 10 {
        ((48u8 + d) as char)
    } else {
        ((55u8 + d) as char)
    }
}

/// The digit character for `d < 16`, lower case.
pub fn lower_digit_char(d: u8) -> (c: char)
    requires
        d < 16,
    ensures
        c == digit_lower(d as nat),
{
    if d < 10 {
        ((48u8 + d) as char)
    } else {
        ((87u8 + d) as char)
    }
}

/// Appends `n` in decimal.
pub fn push_decimal(out: &mut String, n: u64)
    ensures
        final(out)@ == old(out)@ + spec_decimal(n as nat),
    decreases n,
{
    if n >= 10 {
        push_decimal(out, n / 10);
    }
    let d = (n % 10) as u8;
    push_char(out, upper_digit_char(d));
    assert(out@ =~= old(out)@ + spec_decimal(n as nat));
}

/// Appends `n` in decimal, with a minus sign when negative.
pub fn push_signed_decimal(out: &mut String, n: i64)
    ensures
        final(out)@ == old(out)@ + spec_signed_decimal(n as int),
{
    if n < 0 {
        push_char(out, '-');
        let magnitude: u64 = if n == i64::MIN {
            0x8000_0000_0000_0000u64
        } else {
            (-n) as u64
        };
        push_decimal(out, magnitude);
        assert(out@ =~= old(out)@ + spec_signed_decimal(n as int));
    } else {
        push_decimal(out, n as u64);
    }
}

/// Appends `n` in upper-case hexadecimal.
pub fn push_hex_upper(out: &mut String, n: u64)
    ensures
        final(out)@ == old(out)@ + spec_hex_upper(n as nat),
    decreases n,
{
    if n >= 16 {
        push_hex_upper(out, n / 16);
    }
    let d = (n % 16) as u8;
    push_char(out, upper_digit_char(d));
    assert(out@ =~= old(out)@ + spec_hex_upper(n as nat));
}

/// Appends `true` or `false`.
pub fn push_bool(out: &mut String, b: bool)
    ensures
        final(out)@ == old(out)@ + spec_bool(b),
{
    if b {
        out.append("true");
    } else {
        out.append("false");
    }
}

} // verus!
