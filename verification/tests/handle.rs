use rcstring::ArcCStr;
use std::borrow::Borrow;
use std::cmp::Ordering;
use std::collections::hash_map::DefaultHasher;
use std::collections::HashSet;
use std::hash::{Hash, Hasher};
use std::sync::mpsc::channel;

fn sendable<T: Send + Sync + 'static>(value: T) -> T {
    value
}

fn hash_of<T: Hash + ?Sized>(value: &T) -> u64 {
    let mut hasher = DefaultHasher::new();
    value.hash(&mut hasher);
    hasher.finish()
}

#[test]
fn show_arc() {
    let a = ArcCStr::from("foo");
    assert_eq!(format!("{:?}", a), "\"foo\"");
}

#[test]
fn test_from_string() {
    let foo_arc = ArcCStr::from(format!("foo"));
    assert!("foo" == foo_arc.to_string_lossy());
}

#[test]
fn test_ptr_eq() {
    let five = ArcCStr::from("5");
    let same_five = five.clone();
    let other_five = ArcCStr::from("5");

    assert!(ArcCStr::ptr_eq(&five, &same_five));
    assert!(!ArcCStr::ptr_eq(&five, &other_five));
}

#[test]
fn share_through_channel() {
    let v = "0123456789";
    let arc_v = ArcCStr::from(v);

    let (tx, rx) = channel();

    tx.send(sendable(arc_v.clone())).unwrap();

    assert_eq!(arc_v.to_bytes()[2], b'2');
    assert_eq!(arc_v.to_bytes()[4], b'4');

    let received: ArcCStr = rx.recv().unwrap();
    assert_eq!(received.to_bytes()[3], b'3');
    assert!(ArcCStr::ptr_eq(&arc_v, &received));
}

#[test]
fn round_trip_of_bytes_without_nul() {
    let payload: Vec<u8> = (1..=255u8).collect();
    let s = ArcCStr::from(&payload[..]);
    assert_eq!(s.to_bytes(), &payload[..]);
    let mut with_nul = payload.clone();
    with_nul.push(0);
    assert_eq!(s.to_bytes_with_nul(), &with_nul[..]);
    let read_back: Vec<u8> = s.to_bytes().iter().copied().collect();
    assert_eq!(read_back, payload);
}

#[test]
fn empty_string() {
    let s = ArcCStr::from("");
    assert_eq!(s.to_bytes(), b"");
    assert_eq!(s.to_bytes_with_nul(), b"\0");
    assert_eq!(s.len(), 0);
    assert_eq!(ArcCStr::strong_count(&s), 1);
    assert_eq!(format!("{:?}", s), "\"\"");
    assert_eq!(s.to_string_lossy(), "");
}

#[test]
fn embedded_nul_cuts_the_content() {
    let s = ArcCStr::from(&b"ab\0cd"[..]);
    assert_eq!(s.to_bytes(), b"ab");
    assert_eq!(s.to_bytes_with_nul(), b"ab\0");
    assert!(s == ArcCStr::from("ab"));
    assert_eq!(format!("{:?}", s), "\"ab\"");
    let only_nul = ArcCStr::from(&b"\0"[..]);
    assert_eq!(only_nul.to_bytes(), b"");
    assert_eq!(only_nul.to_bytes_with_nul(), b"\0");
}

#[test]
fn strong_count_starts_at_one() {
    let five = ArcCStr::from("5");
    assert_eq!(1, ArcCStr::strong_count(&five));
    let _also_five = five.clone();
    assert_eq!(2, ArcCStr::strong_count(&five));
}

#[test]
fn strong_count_follows_clones_and_drops() {
    let s = ArcCStr::from("abc");
    let mut clones = Vec::new();
    for n in 0..5usize {
        clones.push(s.clone());
        assert_eq!(ArcCStr::strong_count(&s), 2 + n);
    }
    assert_eq!(ArcCStr::strong_count(&s), 6);
    assert_eq!(ArcCStr::strong_count(&clones[4]), 6);
    for k in 0..3usize {
        drop(clones.pop());
        assert_eq!(ArcCStr::strong_count(&s), 5 - k);
    }
    assert_eq!(ArcCStr::strong_count(&s), 3);
    assert_eq!(s.to_bytes(), b"abc");
}

#[test]
fn strong_count_is_per_string() {
    let a = ArcCStr::from("5");
    let b = ArcCStr::from("5");
    let _a2 = a.clone();
    assert_eq!(ArcCStr::strong_count(&a), 2);
    assert_eq!(ArcCStr::strong_count(&b), 1);
}

#[test]
fn last_clone_keeps_the_content() {
    let first = ArcCStr::from("0123456789");
    let second = first.clone();
    let third = second.clone();
    drop(first);
    drop(second);
    assert_eq!(ArcCStr::strong_count(&third), 1);
    assert_eq!(third.to_bytes(), b"0123456789");
    assert_eq!(third.to_bytes_with_nul(), b"0123456789\0");
    drop(third);
}

#[test]
fn many_strings_made_and_dropped() {
    let keep = ArcCStr::from("kept");
    for round in 0..200usize {
        let text = format!("string number {}", round);
        let s = ArcCStr::from(text.clone());
        let clones: Vec<ArcCStr> = (0..8).map(|_| s.clone()).collect();
        assert_eq!(ArcCStr::strong_count(&s), 9);
        drop(s);
        for c in &clones {
            assert_eq!(c.to_bytes(), text.as_bytes());
        }
        drop(clones);
        assert_eq!(keep.to_bytes(), b"kept");
    }
    assert_eq!(ArcCStr::strong_count(&keep), 1);
}

#[test]
fn clone_is_the_same_string() {
    let h = ArcCStr::from("shared");
    let c = h.clone();
    assert!(ArcCStr::ptr_eq(&h, &c));
    assert!(ArcCStr::ptr_eq(&c, &h));
    assert!(ArcCStr::ptr_eq(&h, &h));
    let cc = c.clone();
    assert!(ArcCStr::ptr_eq(&h, &cc));
    assert!(h == c);
}

#[test]
fn equality_goes_by_content() {
    let five = ArcCStr::from("5");
    let other_five = ArcCStr::from("5");
    assert!(five == other_five);
    assert!(!(five != other_five));
    assert!(!ArcCStr::ptr_eq(&five, &other_five));
    assert!(five != ArcCStr::from("6"));
    assert!(!(five == ArcCStr::from("6")));
    assert!(five != ArcCStr::from("55"));
}

#[test]
fn order_goes_by_content() {
    let five = ArcCStr::from("5");
    assert!(five < ArcCStr::from("6"));
    assert!(five <= ArcCStr::from("5"));
    assert!(five > ArcCStr::from("4"));
    assert!(five >= ArcCStr::from("5"));
    assert!(!(five < ArcCStr::from("5")));
    assert!(!(five > ArcCStr::from("5")));
    assert!(five < ArcCStr::from("55"));
    assert!(ArcCStr::from("") < five);
    assert_eq!(Some(Ordering::Less), five.partial_cmp(&ArcCStr::from("6")));
    assert_eq!(Some(Ordering::Equal), five.partial_cmp(&ArcCStr::from("5")));
    assert_eq!(Some(Ordering::Greater), five.partial_cmp(&ArcCStr::from("4")));
    assert_eq!(Ordering::Less, five.cmp(&ArcCStr::from("6")));
    assert_eq!(Ordering::Equal, five.cmp(&five.clone()));
    assert_eq!(Ordering::Greater, ArcCStr::from("50").cmp(&five));
    assert!(ArcCStr::from(&[0x7fu8][..]) < ArcCStr::from(&[0x80u8][..]));
}

#[test]
fn hash_goes_by_content() {
    let a = ArcCStr::from("hash me");
    let b = ArcCStr::from("hash me");
    assert!(!ArcCStr::ptr_eq(&a, &b));
    assert_eq!(hash_of(&a), hash_of(&b));
    assert_eq!(hash_of(&a), hash_of(&a.clone()));
    assert_eq!(hash_of(&a), hash_of(&b"hash me"[..]));
    let mut set = HashSet::new();
    set.insert(a);
    assert!(set.contains(&b));
    assert!(set.contains(&b"hash me"[..]));
    assert!(!set.contains(&ArcCStr::from("hash you")));
    assert!(!set.insert(b));
    assert_eq!(set.len(), 1);
}

#[test]
fn debug_escapes_what_is_not_plain() {
    let s = ArcCStr::from(&b"a\tb\nc\rd\"e'f\\g\x01\x7f\x80\xff~ "[..]);
    assert_eq!(
        format!("{:?}", s),
        "\"a\\tb\\nc\\rd\\\"e\\'f\\\\g\\x01\\x7f\\x80\\xff~ \""
    );
    assert_eq!(s.to_quoted_string(), format!("{:?}", s));
    assert_eq!(ArcCStr::from("foo").to_quoted_string(), "\"foo\"");
}

#[test]
fn pointer_shows_the_address() {
    let a = ArcCStr::from("same text");
    let b = a.clone();
    let c = ArcCStr::from("same text");
    let shown = format!("{:p}", a);
    assert!(shown.starts_with("0x"));
    assert_eq!(shown, format!("{:p}", b));
    assert_ne!(shown, format!("{:p}", c));
}

#[test]
fn lossy_text_of_valid_and_invalid_bytes() {
    assert_eq!(ArcCStr::from("héllo wörld").to_string_lossy(), "héllo wörld");
    assert_eq!(
        ArcCStr::from(&b"Hello \xF0\x90\x80World"[..]).to_string_lossy(),
        "Hello \u{FFFD}World"
    );
    assert_eq!(ArcCStr::from(&b"\xff"[..]).to_string_lossy(), "\u{FFFD}");
}

#[test]
fn from_text_keeps_the_utf8_bytes() {
    let s = ArcCStr::from("żółw");
    assert_eq!(s.to_bytes(), "żółw".as_bytes());
    let owned = ArcCStr::from(String::from("żółw"));
    assert!(s == owned);
    let cut = ArcCStr::from("ab\0cd");
    assert_eq!(cut.to_bytes(), b"ab");
    assert_eq!(cut.to_string_lossy(), "ab");
}

#[test]
fn content_is_reached_by_reference() {
    let s = ArcCStr::from("0123456789");
    assert_eq!(s.len(), 10);
    assert_eq!(s[3], b'3');
    assert_eq!(&*s, b"0123456789");
    let as_ref: &[u8] = s.as_ref();
    assert_eq!(as_ref, b"0123456789");
    let borrowed: &[u8] = s.borrow();
    assert_eq!(borrowed, b"0123456789");
    assert_eq!(s.iter().copied().filter(|b| *b >= b'5').count(), 5);
}
