use rcstring::content::{content_of, find_nul, has_nul, NUL};

#[test]
fn terminator_is_the_zero_byte() {
    assert_eq!(NUL, 0u8);
}

#[test]
fn find_nul_gives_the_first_zero() {
    assert_eq!(find_nul(b"ab\0cd\0"), 2);
    assert_eq!(find_nul(b"\0"), 0);
    assert_eq!(find_nul(b"\0\0"), 0);
    assert_eq!(find_nul(b"abc\0"), 3);
}

#[test]
fn find_nul_without_zero_gives_the_length() {
    assert_eq!(find_nul(b""), 0);
    assert_eq!(find_nul(b"abc"), 3);
    assert_eq!(find_nul(&[1u8, 255, 7]), 3);
}

#[test]
fn content_stops_before_the_first_zero() {
    assert_eq!(content_of(b"ab\0cd\0"), b"ab");
    assert_eq!(content_of(b"abc"), b"abc");
    assert_eq!(content_of(b"\0abc"), b"");
    assert_eq!(content_of(b""), b"");
}

#[test]
fn has_nul_tells_whether_a_zero_is_there() {
    assert!(has_nul(b"ab\0"));
    assert!(has_nul(b"\0"));
    assert!(!has_nul(b"ab"));
    assert!(!has_nul(b""));
}
