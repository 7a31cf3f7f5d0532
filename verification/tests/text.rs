use rcstring::text::{push_escaped, quote};

fn shown(b: u8) -> String {
    let mut text = String::from(">");
    push_escaped(&mut text, b);
    text
}

#[test]
fn hex_digits_are_lower_case() {
    let mut text = String::new();
    for n in 0..16u8 {
        let mut one = String::new();
        push_escaped(&mut one, 0x80 | n);
        assert_eq!(&one[..3], "\\x8");
        text.push_str(&one[3..]);
    }
    assert_eq!(text, "0123456789abcdef");
}

#[test]
fn escapes_with_a_letter() {
    assert_eq!(shown(b'\t'), ">\\t");
    assert_eq!(shown(b'\n'), ">\\n");
    assert_eq!(shown(b'\r'), ">\\r");
}

#[test]
fn quotes_and_backslash_get_a_backslash() {
    assert_eq!(shown(b'"'), ">\\\"");
    assert_eq!(shown(b'\''), ">\\'");
    assert_eq!(shown(b'\\'), ">\\\\");
}

#[test]
fn printable_bytes_are_shown_plain() {
    assert_eq!(shown(b' '), "> ");
    assert_eq!(shown(b'a'), ">a");
    assert_eq!(shown(b'Z'), ">Z");
    assert_eq!(shown(b'0'), ">0");
    assert_eq!(shown(b'~'), ">~");
}

#[test]
fn other_bytes_are_shown_in_hex() {
    assert_eq!(shown(0x00), ">\\x00");
    assert_eq!(shown(0x01), ">\\x01");
    assert_eq!(shown(0x1f), ">\\x1f");
    assert_eq!(shown(0x7f), ">\\x7f");
    assert_eq!(shown(0x80), ">\\x80");
    assert_eq!(shown(0xab), ">\\xab");
    assert_eq!(shown(0xff), ">\\xff");
}

#[test]
fn every_byte_is_shown_as_its_ascii_escape() {
    for b in 0..=255u8 {
        let expected: String = std::ascii::escape_default(b).map(|c| c as char).collect();
        assert_eq!(shown(b), format!(">{}", expected));
    }
}

#[test]
fn quote_puts_double_quotes_around() {
    assert_eq!(quote(b""), "\"\"");
    assert_eq!(quote(b"foo"), "\"foo\"");
    assert_eq!(quote(b"a\"b"), "\"a\\\"b\"");
    assert_eq!(quote(&[0x66, 0x00, 0xfe]), "\"f\\x00\\xfe\"");
}
