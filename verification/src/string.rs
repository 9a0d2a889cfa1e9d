//! Character-level helpers on the text of a page.
use vstd::prelude::*;

verus! {

/// The characters that carry no text: carriage return, line feed, tab and space.
pub open spec fn is_blank(c: char) -> bool {
    c == '\r' || c == '\n' || c == '\t' || c == ' '
}

/// The text `s` with every blank character dropped, the others kept in order.
pub open spec fn without_blanks(s: Seq<char>) -> Seq<char>
    decreases s.len(),
{
    if s.len() == 0 {
        Seq::empty()
    } else if is_blank(s.last()) {
        without_blanks(s.drop_last())
    } else {
        without_blanks(s.drop_last()).push(s.last())
    }
}

/// Appends one character to a string (`String::push`).
#[verifier::external_body]
pub(crate) fn push_char(s: &mut String, c: char)
    ensures
        final(s)@ == old(s)@.push(c),
{
    s.push(c);
}

/// Removes carriage returns, line feeds, tabs and spaces from `s`.
pub fn remove_blank(s: &String) -> (ns: String)
    ensures
        ns@ == without_blanks(s@),
{
    broadcast use vstd::string::group_string_axioms;
    let mut ns = String::new();
    for t in it: s.as_str().chars()
        invariant
            it.seq() == s@,
            ns@ == without_blanks(s@.take(it.index() as int)),
    {
        proof {
            assert(s@.take(it.index() + 1).drop_last() =~= s@.take(it.index() as int));
        }
        if t == '\r' || t == '\n' || t == '\t' || t == ' ' {
        } else {
            push_char(&mut ns, t);
        }
    }
    proof {
        assert(s@.take(s@.len() as int) =~= s@);
    }
    ns
}

/// The lowercase hexadecimal digits, by value.
pub open spec fn hex_chars() -> Seq<char> {
    seq!['0', '1', '2', '3', '4', '5', '6', '7', '8', '9', 'a', 'b', 'c', 'd', 'e', 'f']
}

/// The shortest lowercase hexadecimal numeral of `n`.
pub open spec fn hex_of(n: nat) -> Seq<char>
    decreases n,
{
    if n < 16 {
        seq![hex_chars()[n as int]]
    } else {
        hex_of(n / 16).push(hex_chars()[(n % 16) as int])
    }
}

/// How `char::escape_default` writes `c`: tab, carriage return, line
/// feed, backslash, single and double quote behind a backslash; the
/// other printable ASCII characters (`0x20` to `0x7e`) as they are; every
/// other character as `\u{` and its shortest lowercase hexadecimal code
/// point and `}`.
pub open spec fn char_escape(c: char) -> Seq<char> {
    if c == '\t' {
        seq!['\\', 't']
    } else if c == '\r' {
        seq!['\\', 'r']
    } else if c == '\n' {
        seq!['\\', 'n']
    } else if c == '\\' || c == '\'' || c == '"' {
        seq!['\\', c]
    } else if 0x20 <= (c as u32) <= 0x7e {
        seq![c]
    } else {
        seq!['\\', 'u', '{'] + hex_of(c as u32 as nat) + seq!['}']
    }
}

/// The escapes of the characters of `s`, one after the other.
pub open spec fn escape_all(s: Seq<char>) -> Seq<char>
    decreases s.len(),
{
    if s.len() == 0 {
        Seq::empty()
    } else {
        escape_all(s.drop_last()) + char_escape(s.last())
    }
}

/// The hexadecimal digit of value `d`.
fn hex_digit(d: u32) -> (c: char)
    requires
        d < 16,
    ensures
        c == hex_chars()[d as int],
{
    let digits = vec!['0', '1', '2', '3', '4', '5', '6', '7', '8', '9', 'a', 'b', 'c', 'd', 'e', 'f'];
    proof {
        assert(digits@ =~= hex_chars());
    }
    digits[d as usize]
}

/// Appends the shortest lowercase hexadecimal numeral of `n` to `out`.
fn push_hex(out: &mut String, n: u32)
    ensures
        final(out)@ == old(out)@ + hex_of(n as nat),
    decreases n,
{
    if n >= 16 {
        push_hex(out, n / 16);
    }
    push_char(out, hex_digit(n % 16));
    proof {
        if n < 16 {
            assert(hex_of(n as nat) =~= seq![hex_chars()[n as int]]);
        }
    }
}

/// Appends the escape of `c` to `out`.
fn push_escaped(out: &mut String, c: char)
    ensures
        final(out)@ == old(out)@ + char_escape(c),
{
    let ghost before = out@;
    if c == '\t' {
        push_char(out, '\\');
        push_char(out, 't');
    } else if c == '\r' {
        push_char(out, '\\');
        push_char(out, 'r');
    } else if c == '\n' {
        push_char(out, '\\');
        push_char(out, 'n');
    } else if c == '\\' || c == '\'' || c == '"' {
        push_char(out, '\\');
        push_char(out, c);
    } else if 0x20 <= (c as u32) && (c as u32) <= 0x7e {
        push_char(out, c);
    } else {
        push_char(out, '\\');
        push_char(out, 'u');
        push_char(out, '{');
        push_hex(out, c as u32);
        push_char(out, '}');
    }
    assert(out@ =~= before + char_escape(c));
}

/// Writes every character of `s` as `char::escape_default` does.
pub fn escape_default(s: &str) -> (r: String)
    ensures
        r@ == escape_all(s@),
{
    broadcast use vstd::string::group_string_axioms;

    let mut r = String::new();
    for c in it: s.chars()
        invariant
            it.seq() == s@,
            r@ == escape_all(s@.take(it.index() as int)),
    {
        proof {
            assert(s@.take(it.index() + 1).drop_last() =~= s@.take(it.index() as int));
        }
        push_escaped(&mut r, c);
    }
    proof {
        assert(s@.take(s@.len() as int) =~= s@);
    }
    r
}

} // verus!
