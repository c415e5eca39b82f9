use daigent::escape::{hex_digit_to_char, push_escaped, push_escaped_char};
use daigent::text::{decimal_string, digit_to_char, push_decimal, push_signed_decimal};

fn escaped(value: &str) -> String {
    let mut out = String::new();
    push_escaped(&mut out, value);
    out
}

fn signed(value: i32) -> String {
    let mut out = String::new();
    push_signed_decimal(&mut out, value);
    out
}

#[test]
fn decimal_of_zero_is_one_digit() {
    assert_eq!(decimal_string(0), "0");
}

#[test]
fn decimal_of_single_digits() {
    for d in 0..10u8 {
        assert_eq!(decimal_string(d as u64), format!("{}", d));
        assert_eq!(digit_to_char(d), (b'0' + d) as char);
    }
}

#[test]
fn decimal_of_ports() {
    assert_eq!(decimal_string(1450), "1450");
    assert_eq!(decimal_string(80), "80");
    assert_eq!(decimal_string(10), "10");
    assert_eq!(decimal_string(65535), "65535");
    assert_eq!(decimal_string(40000), "40000");
}

#[test]
fn decimal_of_largest_number() {
    assert_eq!(decimal_string(u64::MAX), "18446744073709551615");
}

#[test]
fn decimal_agrees_with_std_on_many_numbers() {
    let mut n: u64 = 1;
    for _ in 0..60 {
        assert_eq!(decimal_string(n), format!("{}", n));
        assert_eq!(decimal_string(n - 1), format!("{}", n - 1));
        n = n.wrapping_mul(3).wrapping_add(7) % 1_000_000_000_000;
        if n == 0 {
            n = 1;
        }
    }
}

#[test]
fn push_decimal_appends_and_keeps_what_was_there() {
    let mut out = String::from("port=");
    push_decimal(&mut out, 1450);
    assert_eq!(out, "port=1450");
    push_decimal(&mut out, 0);
    assert_eq!(out, "port=14500");
}

#[test]
fn signed_decimal_of_exit_codes() {
    assert_eq!(signed(0), "0");
    assert_eq!(signed(1), "1");
    assert_eq!(signed(-1), "-1");
    assert_eq!(signed(137), "137");
    assert_eq!(signed(i32::MAX), "2147483647");
    assert_eq!(signed(i32::MIN), "-2147483648");
}

#[test]
fn hex_digits_are_lower_case() {
    let expected = "0123456789abcdef";
    for (d, c) in expected.chars().enumerate() {
        assert_eq!(hex_digit_to_char(d as u32), c);
    }
}

#[test]
fn plain_text_is_not_changed_by_escaping() {
    assert_eq!(escaped(""), "");
    assert_eq!(escaped("true"), "true");
    assert_eq!(escaped("1450"), "1450");
    assert_eq!(escaped("a b\"c<d>&e"), "a b\"c<d>&e");
    assert_eq!(escaped("h\u{e9}llo \u{1F600}"), "h\u{e9}llo \u{1F600}");
}

#[test]
fn quotes_and_backslashes_are_escaped() {
    assert_eq!(escaped("'"), "\\'");
    assert_eq!(escaped("\\"), "\\\\");
    assert_eq!(escaped("it's"), "it\\'s");
    assert_eq!(escaped("a\\b"), "a\\\\b");
    assert_eq!(escaped("\\'"), "\\\\\\'");
    assert_eq!(escaped("'; alert(1); '"), "\\'; alert(1); \\'");
}

#[test]
fn line_breaks_are_escaped() {
    assert_eq!(escaped("\n"), "\\n");
    assert_eq!(escaped("\r"), "\\r");
    assert_eq!(escaped("a\nb\r\nc"), "a\\nb\\r\\nc");
    assert_eq!(escaped("\u{2028}"), "\\u2028");
    assert_eq!(escaped("\u{2029}"), "\\u2029");
}

#[test]
fn control_characters_are_escaped() {
    assert_eq!(escaped("\u{0}"), "\\u0000");
    assert_eq!(escaped("\t"), "\\u0009");
    assert_eq!(escaped("\u{1b}[0m"), "\\u001b[0m");
    assert_eq!(escaped("\u{1f}"), "\\u001f");
    assert_eq!(escaped("\u{7f}"), "\\u007f");
    assert_eq!(escaped(" "), " ");
    assert_eq!(escaped("~"), "~");
    assert_eq!(escaped("\u{80}"), "\u{80}");
}

#[test]
fn escaping_one_character_appends_to_what_was_there() {
    let mut out = String::from("x");
    push_escaped_char(&mut out, '\'');
    assert_eq!(out, "x\\'");
    push_escaped_char(&mut out, 'y');
    assert_eq!(out, "x\\'y");
    push_escaped_char(&mut out, '\u{2027}');
    assert_eq!(out, "x\\'y\u{2027}");
    push_escaped_char(&mut out, '\u{202a}');
    assert_eq!(out, "x\\'y\u{2027}\u{202a}");
}

#[test]
fn escaped_text_holds_no_bare_quote_or_line_break() {
    let samples = ["'", "''", "a'b'c", "\\'", "\n'\r", "\\\\'", "\u{2028}'", "plain"];
    for sample in samples {
        let out = escaped(sample);
        let chars: Vec<char> = out.chars().collect();
        let mut i = 0;
        while i < chars.len() {
            let c = chars[i];
            assert!(c != '\n' && c != '\r' && c != '\u{2028}' && c != '\u{2029}');
            if c == '\\' {
                i += 2;
            } else {
                assert_ne!(c, '\'');
                i += 1;
            }
        }
        assert_eq!(i, chars.len());
    }
}
