//! Escaping of values for single-quoted script literals.

use vstd::prelude::*;

verus! {

/// Whether `c` stands for itself inside a single-quoted literal.
///
/// The quote and the backslash would end or bend the literal; control
/// characters and the two Unicode line separators would break the line.
pub open spec fn is_plain(c: char) -> bool {
    &&& c != '\''
    &&& c != '\\'
    &&& c as u32 >= 0x20
    &&& c as u32 != 0x7f
    &&& c as u32 != 0x2028
    &&& c as u32 != 0x2029
}

/// The character of a single hexadecimal digit, in lower case.
pub open spec fn hex_digit_char(d: nat) -> char
    recommends
        d < 16,
{
    if d == 0 {
        '0'
    } else if d == 1 {
        '1'
    } else if d == 2 {
        '2'
    } else if d == 3 {
        '3'
    } else if d == 4 {
        '4'
    } else if d == 5 {
        '5'
    } else if d == 6 {
        '6'
    } else if d == 7 {
        '7'
    } else if d == 8 {
        '8'
    } else if d == 9 {
        '9'
    } else if d == 10 {
        'a'
    } else if d == 11 {
        'b'
    } else if d == 12 {
        'c'
    } else if d == 13 {
        'd'
    } else if d == 14 {
        'e'
    } else {
        'f'
    }
}

/// The six characters `\uXXXX` for a code point below 0x10000.
pub open spec fn unicode_escape(code: nat) -> Seq<char>
    recommends
        code < 0x10000,
{
    seq![
        '\\',
        'u',
        hex_digit_char(code / 0x1000),
        hex_digit_char((code / 0x100) % 0x10),
        hex_digit_char((code / 0x10) % 0x10),
        hex_digit_char(code % 0x10),
    ]
}

/// What is written for one character of a value.
pub open spec fn escape_char(c: char) -> Seq<char> {
    if c == '\\' {
        seq!['\\', '\\']
    } else if c == '\'' {
        seq!['\\', '\'']
    } else if c == '\n' {
        seq!['\\', 'n']
    } else if c == '\r' {
        seq!['\\', 'r']
    } else if is_plain(c) {
        seq![c]
    } else {
        unicode_escape(c as nat)
    }
}

/// The body of the single-quoted literal that denotes `value`.
pub open spec fn escape_value(value: Seq<char>) -> Seq<char>
    decreases value.len(),
{
    if value.len() == 0 {
        Seq::empty()
    } else {
        escape_char(value[0]) + escape_value(value.skip(1))
    }
}

/// Escaping works character by character, so a value extended by one
/// character extends its escaped form by that character's escape.
pub proof fn lemma_escape_value_push(value: Seq<char>, c: char)
    ensures
        escape_value(value.push(c)) == escape_value(value) + escape_char(c),
    decreases value.len(),
{
    if value.len() == 0 {
        reveal_with_fuel(escape_value, 2);
        assert(value.push(c).skip(1) =~= Seq::<char>::empty());
        assert(escape_value(value.push(c)) =~= escape_char(c));
        assert(escape_value(value) + escape_char(c) =~= escape_char(c));
    } else {
        lemma_escape_value_push(value.skip(1), c);
        assert(value.push(c).skip(1) =~= value.skip(1).push(c));
        assert(escape_value(value.push(c)) =~= escape_value(value) + escape_char(c));
    }
}

/// Returns the character of the hexadecimal digit `d`, in lower case.
pub fn hex_digit_to_char(d: u32) -> (c: char)
    requires
        d < 16,
    ensures
        c == hex_digit_char(d as nat),
{
    if d == 0 {
        '0'
    } else if d == 1 {
        '1'
    } else if d == 2 {
        '2'
    } else if d == 3 {
        '3'
    } else if d == 4 {
        '4'
    } else if d == 5 {
        '5'
    } else if d == 6 {
        '6'
    } else if d == 7 {
        '7'
    } else if d == 8 {
        '8'
    } else if d == 9 {
        '9'
    } else if d == 10 {
        'a'
    } else if d == 11 {
        'b'
    } else if d == 12 {
        'c'
    } else if d == 13 {
        'd'
    } else if d == 14 {
        'e'
    } else {
        'f'
    }
}

/// Appends the escape of the single character `c` to `out`.
pub fn push_escaped_char(out: &mut String, c: char)
    ensures
        final(out)@ == old(out)@ + escape_char(c),
{
    let code: u32 = c as u32;
    if c == '\\' {
        out.push('\\');
        out.push('\\');
    } else if c == '\'' {
        out.push('\\');
        out.push('\'');
    } else if c == '\n' {
        out.push('\\');
        out.push('n');
    } else if c == '\r' {
        out.push('\\');
        out.push('r');
    } else if code >= 0x20 && code != 0x7f && code != 0x2028 && code != 0x2029 {
        out.push(c);
    } else {
        out.push('\\');
        out.push('u');
        out.push(hex_digit_to_char(code / 0x1000));
        out.push(hex_digit_to_char((code / 0x100) % 0x10));
        out.push(hex_digit_to_char((code / 0x10) % 0x10));
        out.push(hex_digit_to_char(code % 0x10));
    }
}

/// Appends the escaped form of `value` to `out`.
pub fn push_escaped(out: &mut String, value: &str)
    ensures
        final(out)@ == old(out)@ + escape_value(value@),
{
    let ghost before = out@;
    for c in it: value.chars()
        invariant
            it.seq() == value@,
            out@ == before + escape_value(value@.take(it.index())),
    {
        proof {
            lemma_escape_value_push(value@.take(it.index()), c);
            assert(value@.take(it.index() + 1) =~= value@.take(it.index()).push(c));
        }
        push_escaped_char(out, c);
    }
    assert(value@.take(value@.len() as int) =~= value@);
}

} // verus!
