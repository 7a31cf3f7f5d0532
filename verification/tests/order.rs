use rcstring::order::{bytes_equal, compare, mismatch};
use std::cmp::Ordering;

#[test]
fn mismatch_is_the_shared_prefix() {
    assert_eq!(mismatch(b"abc", b"abd"), 2);
    assert_eq!(mismatch(b"ab", b"abc"), 2);
    assert_eq!(mismatch(b"abc", b"ab"), 2);
    assert_eq!(mismatch(b"abc", b"abc"), 3);
    assert_eq!(mismatch(b"", b"abc"), 0);
    assert_eq!(mismatch(b"", b""), 0);
    assert_eq!(mismatch(b"xbc", b"abc"), 0);
}

#[test]
fn bytes_equal_wants_the_same_bytes() {
    assert!(bytes_equal(b"", b""));
    assert!(bytes_equal(b"abc", b"abc"));
    assert!(!bytes_equal(b"abc", b"abd"));
    assert!(!bytes_equal(b"abc", b"ab"));
    assert!(!bytes_equal(b"ab", b"abc"));
    assert!(!bytes_equal(b"", b"a"));
}

#[test]
fn compare_is_lexicographic() {
    assert_eq!(compare(b"", b""), Ordering::Equal);
    assert_eq!(compare(b"abc", b"abc"), Ordering::Equal);
    assert_eq!(compare(b"5", b"6"), Ordering::Less);
    assert_eq!(compare(b"6", b"5"), Ordering::Greater);
    assert_eq!(compare(b"ab", b"abc"), Ordering::Less);
    assert_eq!(compare(b"abc", b"ab"), Ordering::Greater);
    assert_eq!(compare(b"", b"a"), Ordering::Less);
    assert_eq!(compare(b"b", b"abc"), Ordering::Greater);
    assert_eq!(compare(&[0x7f], &[0x80]), Ordering::Less);
    assert_eq!(compare(&[0xff], &[0x00, 0x01]), Ordering::Greater);
}

#[test]
fn compare_agrees_with_the_slices() {
    let samples: [&[u8]; 7] = [b"", b"a", b"ab", b"abc", b"abd", b"b", &[0xff, 0x00]];
    for a in samples.iter() {
        for b in samples.iter() {
            assert_eq!(compare(a, b), a.cmp(b));
            assert_eq!(bytes_equal(a, b), a == b);
            assert_eq!(compare(a, b), compare(b, a).reverse());
        }
    }
}
