//! How the front-end reads the script: a model of the reader, and the proof
//! that it reads back exactly the variables that were written.

use vstd::prelude::*;
use crate::escape::{escape_char, escape_value, hex_digit_char, is_plain};
use crate::inject_vars::{
    all_keys_valid,
    field_separator,
    is_key_part,
    render_field,
    render_fields,
    script_head,
    script_tail,
    script_text,
    valid_key,
    value_closer,
    value_opener,
};

verus! {

/// The value of a hexadecimal digit, in either case.
pub open spec fn hex_digit_value(c: char) -> Option<nat> {
    if '0' <= c <= '9' {
        Some((c as nat - '0' as nat) as nat)
    } else if 'a' <= c <= 'f' {
        Some((c as nat - 'a' as nat + 10) as nat)
    } else if 'A' <= c <= 'F' {
        Some((c as nat - 'A' as nat + 10) as nat)
    } else {
        None
    }
}

/// The number that four hexadecimal digits denote.
pub open spec fn hex4_value(a: char, b: char, c: char, d: char) -> Option<nat> {
    match (hex_digit_value(a), hex_digit_value(b), hex_digit_value(c), hex_digit_value(d)) {
        (Some(x), Some(y), Some(z), Some(w)) => Some(x * 0x1000 + y * 0x100 + z * 0x10 + w),
        _ => None,
    }
}

/// Whether `code` is the code point of a character: in range and no surrogate.
pub open spec fn is_char_code(code: nat) -> bool {
    code < 0xD800 || 0xE000 <= code < 0x110000
}

/// What was read with `c` in front of its value.
pub open spec fn with_first(c: char, read: Option<(Seq<char>, Seq<char>)>) -> Option<
    (Seq<char>, Seq<char>),
> {
    match read {
        Some((value, rest)) => Some((seq![c] + value, rest)),
        None => None,
    }
}

/// Reads a single-quoted literal whose opening quote was just passed: the
/// string it denotes, and the text that follows its closing quote.
///
/// A plain character stands for itself and a backslash starts one of the
/// escapes `\\`, `\'`, `\"`, `\n`, `\r`, `\t` and `\uXXXX`. The first bare quote
/// closes the literal. The result is `None` where the text ends before
/// that, or holds a bare line break or control character, or an escape
/// other than these.
pub open spec fn read_literal(text: Seq<char>) -> Option<(Seq<char>, Seq<char>)>
    decreases text.len(),
{
    if text.len() == 0 {
        None
    } else if text[0] == '\'' {
        Some((Seq::empty(), text.skip(1)))
    } else if text[0] == '\\' {
        if text.len() < 2 {
            None
        } else if text[1] == '\\' || text[1] == '\'' || text[1] == '"' {
            with_first(text[1], read_literal(text.skip(2)))
        } else if text[1] == 'n' {
            with_first('\n', read_literal(text.skip(2)))
        } else if text[1] == 'r' {
            with_first('\r', read_literal(text.skip(2)))
        } else if text[1] == 't' {
            with_first('\t', read_literal(text.skip(2)))
        } else if text[1] == 'u' && text.len() >= 6 {
            match hex4_value(text[2], text[3], text[4], text[5]) {
                Some(code) => if is_char_code(code) {
                    with_first(code as char, read_literal(text.skip(6)))
                } else {
                    None
                },
                None => None,
            }
        } else {
            None
        }
    } else if is_plain(text[0]) {
        with_first(text[0], read_literal(text.skip(1)))
    } else {
        None
    }
}

/// A hexadecimal digit that is written is read back as the same number.
pub proof fn lemma_hex_digit_round_trip(d: nat)
    requires
        d < 16,
    ensures
        hex_digit_value(hex_digit_char(d)) == Some(d),
{
}

/// The escape of one character, followed by anything, is read as that
/// character followed by what the rest reads as.
pub proof fn lemma_read_escape_char(c: char, more: Seq<char>)
    ensures
        read_literal(escape_char(c) + more) == with_first(c, read_literal(more)),
{
    let text = escape_char(c) + more;
    if c == '\\' || c == '\'' || c == '\n' || c == '\r' {
        assert(text.skip(2) =~= more);
    } else if is_plain(c) {
        assert(text.skip(1) =~= more);
    } else {
        let code = c as nat;
        assert(code < 0x10000);
        lemma_hex_digit_round_trip(code / 0x1000);
        lemma_hex_digit_round_trip((code / 0x100) % 0x10);
        lemma_hex_digit_round_trip((code / 0x10) % 0x10);
        lemma_hex_digit_round_trip(code % 0x10);
        assert(text[2] == hex_digit_char(code / 0x1000));
        assert(text[3] == hex_digit_char((code / 0x100) % 0x10));
        assert(text[4] == hex_digit_char((code / 0x10) % 0x10));
        assert(text[5] == hex_digit_char(code % 0x10));
        assert(hex4_value(text[2], text[3], text[4], text[5]) == Some(code));
        assert(code as char == c);
        assert(text.skip(6) =~= more);
    }
}

/// Round trip of a value: the literal written for `value` reads back as
/// exactly `value`, and it ends exactly at the quote that was written to
/// close it, whatever quotes, backslashes, line breaks or control characters
/// the value holds and whatever text follows.
pub proof fn lemma_escape_round_trip(value: Seq<char>, rest: Seq<char>)
    ensures
        read_literal(escape_value(value) + seq!['\''] + rest) == Some((value, rest)),
    decreases value.len(),
{
    let text = escape_value(value) + seq!['\''] + rest;
    if value.len() == 0 {
        assert(text.skip(1) =~= rest);
    } else {
        let more = escape_value(value.skip(1)) + seq!['\''] + rest;
        lemma_escape_round_trip(value.skip(1), rest);
        lemma_read_escape_char(value[0], more);
        assert(text =~= escape_char(value[0]) + more);
        assert(seq![value[0]] + value.skip(1) =~= value);
    }
}

/// How many characters at the start of `text` can stand in a key.
pub open spec fn key_length(text: Seq<char>) -> nat
    decreases text.len(),
{
    if text.len() == 0 || !is_key_part(text[0]) {
        0
    } else {
        1 + key_length(text.skip(1))
    }
}

/// Reads the fields of the object up to the end of the script: each a key, a
/// colon and a literal, with a separator between neighbours and the script's
/// closing text after the last.
pub open spec fn read_fields(text: Seq<char>) -> Option<Seq<(Seq<char>, Seq<char>)>>
    decreases text.len(),
{
    let key = text.take(key_length(text) as int);
    let after_key = text.skip(key_length(text) as int);
    if !valid_key(key) || !value_opener().is_prefix_of(after_key) {
        None
    } else {
        match read_literal(after_key.skip(value_opener().len() as int)) {
            None => None,
            Some((value, rest)) => if rest == script_tail() {
                Some(seq![(key, value)])
            } else if field_separator().is_prefix_of(rest) && rest.len() < text.len() {
                match read_fields(rest.skip(field_separator().len() as int)) {
                    Some(more) => Some(seq![(key, value)] + more),
                    None => None,
                }
            } else {
                None
            },
        }
    }
}

/// Reads a whole script: the object's fields, keys with the strings that
/// their literals denote, in order. `None` where the text is not a script of
/// the form that this crate writes.
pub open spec fn read_script(text: Seq<char>) -> Option<Seq<(Seq<char>, Seq<char>)>> {
    if !script_head().is_prefix_of(text) {
        None
    } else if text.skip(script_head().len() as int) == script_tail() {
        Some(Seq::empty())
    } else {
        read_fields(text.skip(script_head().len() as int))
    }
}

/// A key that is followed by something that cannot stand in a key is found
/// again in full.
pub proof fn lemma_key_length(key: Seq<char>, more: Seq<char>)
    requires
        forall|i: int| 0 <= i < key.len() ==> is_key_part(#[trigger] key[i]),
        more.len() > 0,
        !is_key_part(more[0]),
    ensures
        key_length(key + more) == key.len(),
    decreases key.len(),
{
    if key.len() == 0 {
        assert(key + more =~= more);
    } else {
        let shorter = key.skip(1);
        assert forall|i: int| 0 <= i < shorter.len() implies is_key_part(#[trigger] shorter[i]) by {
            assert(shorter[i] == key[i + 1]);
        }
        lemma_key_length(shorter, more);
        assert((key + more).skip(1) =~= shorter + more);
        assert((key + more)[0] == key[0]);
    }
}

/// The fields of two or more entries are the first field, a separator, and
/// the fields of the others.
pub proof fn lemma_render_fields_first(entries: Seq<(Seq<char>, Seq<char>)>)
    requires
        entries.len() >= 2,
    ensures
        render_fields(entries) == render_field(entries[0]) + field_separator() + render_fields(
            entries.skip(1),
        ),
    decreases entries.len(),
{
    let others = entries.skip(1);
    if entries.len() == 2 {
        assert(entries.drop_last().len() == 1);
        assert(render_fields(entries.drop_last()) == render_field(entries[0])) by {
            assert(entries.drop_last()[0] == entries[0]);
        }
        assert(others.len() == 1);
        assert(render_fields(others) == render_field(entries[1])) by {
            assert(others[0] == entries[1]);
        }
    } else {
        lemma_render_fields_first(entries.drop_last());
        assert(entries.drop_last().skip(1) =~= others.drop_last());
        assert(entries.drop_last()[0] == entries[0]);
        assert(others.last() == entries.last());
        assert(render_fields(entries) =~= render_field(entries[0]) + field_separator()
            + render_fields(others));
    }
}

/// One field, followed by anything that does not go on the literal, is read
/// as its key and its value, with that text left over.
proof fn lemma_read_one_field(key: Seq<char>, value: Seq<char>, rest: Seq<char>)
    requires
        valid_key(key),
    ensures
        ({
            let text = render_field((key, value)) + rest;
            let after_key = text.skip(key_length(text) as int);
            &&& text.take(key_length(text) as int) == key
            &&& value_opener().is_prefix_of(after_key)
            &&& read_literal(after_key.skip(value_opener().len() as int)) == Some((value, rest))
        }),
{
    reveal_strlit(": '");
    reveal_strlit("'");
    let text = render_field((key, value)) + rest;
    let after = value_opener() + escape_value(value) + value_closer() + rest;
    assert(text =~= key + after);
    assert(after[0] == ':');
    assert forall|i: int| 0 <= i < key.len() implies is_key_part(#[trigger] key[i]) by {
        if i > 0 {
            assert(is_key_part(key[i]));
        }
    }
    lemma_key_length(key, after);
    assert(text.take(key.len() as int) =~= key);
    assert(text.skip(key.len() as int) =~= after);
    assert(value_closer() =~= seq!['\'']);
    assert(after.skip(value_opener().len() as int) =~= escape_value(value) + seq!['\''] + rest);
    lemma_escape_round_trip(value, rest);
}

/// The fields that are written, followed by the script's closing text, are
/// read back as the entries they were written for.
pub proof fn lemma_read_fields_round_trip(entries: Seq<(Seq<char>, Seq<char>)>)
    requires
        entries.len() >= 1,
        all_keys_valid(entries),
    ensures
        read_fields(render_fields(entries) + script_tail()) == Some(entries),
    decreases entries.len(),
{
    let key = entries[0].0;
    let value = entries[0].1;
    let text = render_fields(entries) + script_tail();
    assert(valid_key(entries[0].0));
    if entries.len() == 1 {
        let rest = script_tail();
        assert(text == render_field((key, value)) + rest);
        lemma_read_one_field(key, value, rest);
        assert(seq![(key, value)] =~= entries);
    } else {
        let others = entries.skip(1);
        let rest = field_separator() + render_fields(others) + script_tail();
        lemma_render_fields_first(entries);
        assert(text =~= render_field((key, value)) + rest);
        lemma_read_one_field(key, value, rest);
        reveal_strlit(",\n");
        reveal_strlit("\n        };\n    ");
        reveal_strlit(": '");
        reveal_strlit("'");
        assert(rest[0] == ',');
        assert(script_tail()[0] == '\n');
        assert(rest != script_tail());
        assert(field_separator().is_prefix_of(rest));
        assert(rest.len() < text.len());
        assert(rest.skip(field_separator().len() as int) =~= render_fields(others) + script_tail());
        assert forall|i: int| 0 <= i < others.len() implies valid_key((#[trigger] others[i]).0) by {
            assert(others[i] == entries[i + 1]);
        }
        lemma_read_fields_round_trip(others);
        assert(seq![(key, value)] + others =~= entries);
    }
}

/// Round trip of a script: what is written for a set of variables with sound
/// keys is read back as exactly those variables, each key with the very
/// string that was its value.
pub proof fn lemma_script_round_trip(entries: Seq<(Seq<char>, Seq<char>)>)
    requires
        all_keys_valid(entries),
    ensures
        read_script(script_text(entries)) == Some(entries),
{
    let text = script_text(entries);
    let body = render_fields(entries) + script_tail();
    assert(text =~= script_head() + body);
    assert(text.skip(script_head().len() as int) =~= body);
    assert(script_head().is_prefix_of(text));
    if entries.len() == 0 {
        assert(body =~= script_tail());
        assert(entries =~= Seq::empty());
    } else {
        lemma_read_fields_round_trip(entries);
        // A field starts with its key, and the closing text with a line break.
        let key = entries[0].0;
        assert(valid_key(entries[0].0));
        reveal_strlit("\n        };\n    ");
        if entries.len() == 1 {
            assert(body =~= key + (value_opener() + escape_value(entries[0].1) + value_closer()
                + script_tail()));
        } else {
            lemma_render_fields_first(entries);
            assert(body =~= key + (value_opener() + escape_value(entries[0].1) + value_closer()
                + field_separator() + render_fields(entries.skip(1)) + script_tail()));
        }
        assert(body[0] == key[0]);
        assert(script_tail()[0] == '\n');
        assert(body != script_tail());
    }
}

} // verus!
