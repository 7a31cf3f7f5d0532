//! What holds of every use of a handle, stated on the outcomes of its
//! functions: whatever a call may return under its contract, the law holds
//! of it.

use vstd::prelude::*;
use vstd::utf8::encode_utf8;
use std::cmp::Ordering;
use crate::content::NUL;
use crate::handle::ArcCStr;
use crate::order::{lex_order, lex_less, lemma_equal_iff_same, lemma_order_total};
use crate::order::lemma_order_transitive;
use crate::text::{nul_char, lemma_text_round_trip, quoted};

verus! {

/// Round trip: a string made from bytes with no zero among them gives
/// those bytes back, and with the terminator those bytes and one zero.
pub proof fn law_round_trip(b: &[u8], made: ArcCStr, read: &[u8], read_with_nul: &[u8])
    requires
        !b@.contains(NUL),
        call_ensures(<ArcCStr as From<&[u8]>>::from, (b,), made),
        call_ensures(ArcCStr::to_bytes, (&made,), read),
        call_ensures(ArcCStr::to_bytes_with_nul, (&made,), read_with_nul),
    ensures
        read@ == b@,
        read_with_nul@ == b@.push(NUL),
{
}

/// Round trip for text: a string made from a text with no character of
/// code zero holds the text's UTF-8 bytes and reads back as the text.
pub proof fn law_text_round_trip(s: &str, made: ArcCStr, read: &[u8], text: String)
    requires
        !s@.contains(nul_char()),
        call_ensures(<ArcCStr as From<&str>>::from, (s,), made),
        call_ensures(ArcCStr::to_bytes, (&made,), read),
        call_ensures(ArcCStr::to_string_lossy, (&made,), text),
    ensures
        read@ == encode_utf8(s@),
        text@ == s@,
{
    lemma_text_round_trip(s@);
}

/// The content never holds a zero byte, however the string was made.
pub proof fn law_content_has_no_nul(h: ArcCStr, read: &[u8])
    requires
        call_ensures(ArcCStr::to_bytes, (&h,), read),
    ensures
        !read@.contains(NUL),
        read@ == h@,
{
}

/// What `to_bytes_with_nul` gives is what `to_bytes` gives and one zero
/// byte behind it, for every handle.
pub proof fn law_terminator_follows_content(h: ArcCStr, read: &[u8], read_with_nul: &[u8])
    requires
        call_ensures(ArcCStr::to_bytes, (&h,), read),
        call_ensures(ArcCStr::to_bytes_with_nul, (&h,), read_with_nul),
    ensures
        read_with_nul@ == read@.push(NUL),
        read_with_nul@.len() == read@.len() + 1,
{
}

/// A string made from the content of a handle is equal to that handle.
pub proof fn law_made_from_content_is_equal(
    h: ArcCStr,
    read: &[u8],
    made: ArcCStr,
    equal: bool,
)
    requires
        call_ensures(ArcCStr::to_bytes, (&h,), read),
        call_ensures(<ArcCStr as From<&[u8]>>::from, (read,), made),
        call_ensures(ArcCStr::eq, (&h, &made), equal),
    ensures
        equal,
{
}

/// A clone is the same string as the handle it was made from, whichever
/// of the two is asked.
pub proof fn law_clone_is_same_string(
    h: ArcCStr,
    cloned: ArcCStr,
    same: bool,
    same_from_clone: bool,
)
    requires
        call_ensures(<ArcCStr as Clone>::clone, (&h,), cloned),
        call_ensures(ArcCStr::ptr_eq, (&h, &cloned), same),
        call_ensures(ArcCStr::ptr_eq, (&cloned, &h), same_from_clone),
    ensures
        same,
        same_from_clone,
{
}

/// A clone has the content of the handle it was made from, and keeps it
/// whatever becomes of that handle.
pub proof fn law_clone_keeps_content(
    h: ArcCStr,
    cloned: ArcCStr,
    read: &[u8],
    read_from_clone: &[u8],
)
    requires
        call_ensures(<ArcCStr as Clone>::clone, (&h,), cloned),
        call_ensures(ArcCStr::to_bytes, (&h,), read),
        call_ensures(ArcCStr::to_bytes, (&cloned,), read_from_clone),
    ensures
        read_from_clone@ == read@,
{
}

/// Handles on one string are equal.
pub proof fn law_same_string_is_equal(a: ArcCStr, b: ArcCStr, same: bool, equal: bool)
    requires
        call_ensures(ArcCStr::ptr_eq, (&a, &b), same),
        call_ensures(ArcCStr::eq, (&a, &b), equal),
        same,
    ensures
        equal,
{
}

/// Equality goes by content alone: two strings made from the same bytes
/// are equal, whether or not they are one string.
pub proof fn law_equal_by_content(b: &[u8], first: ArcCStr, second: ArcCStr, equal: bool)
    requires
        call_ensures(<ArcCStr as From<&[u8]>>::from, (b,), first),
        call_ensures(<ArcCStr as From<&[u8]>>::from, (b,), second),
        call_ensures(ArcCStr::eq, (&first, &second), equal),
    ensures
        equal,
{
}

/// Equality is the sameness of what `to_bytes` gives.
pub proof fn law_equal_iff_same_bytes(
    a: ArcCStr,
    b: ArcCStr,
    read_a: &[u8],
    read_b: &[u8],
    equal: bool,
    unequal: bool,
)
    requires
        call_ensures(ArcCStr::to_bytes, (&a,), read_a),
        call_ensures(ArcCStr::to_bytes, (&b,), read_b),
        call_ensures(ArcCStr::eq, (&a, &b), equal),
        call_ensures(ArcCStr::ne, (&a, &b), unequal),
    ensures
        equal == (read_a@ == read_b@),
        unequal == !equal,
{
}

/// The order goes by content alone, and all its forms agree: what
/// `partial_cmp` and `cmp` give is the lexicographic order of the bytes,
/// and `<`, `<=`, `>`, `>=` and `==` say the same.
pub proof fn law_order_by_content(
    a: ArcCStr,
    b: ArcCStr,
    partial: Option<Ordering>,
    order: Ordering,
    less: bool,
    less_or_equal: bool,
    greater: bool,
    greater_or_equal: bool,
    equal: bool,
)
    requires
        call_ensures(ArcCStr::partial_cmp, (&a, &b), partial),
        call_ensures(ArcCStr::cmp, (&a, &b), order),
        call_ensures(ArcCStr::lt, (&a, &b), less),
        call_ensures(ArcCStr::le, (&a, &b), less_or_equal),
        call_ensures(ArcCStr::gt, (&a, &b), greater),
        call_ensures(ArcCStr::ge, (&a, &b), greater_or_equal),
        call_ensures(ArcCStr::eq, (&a, &b), equal),
    ensures
        order == lex_order(a@, b@),
        partial == Some(order),
        less == (order == Ordering::Less),
        greater == (order == Ordering::Greater),
        equal == (order == Ordering::Equal),
        less_or_equal == (less || equal),
        greater_or_equal == (greater || equal),
{
    lemma_equal_iff_same(a@, b@);
}

/// Of two handles exactly one of `<`, `==` and `>` holds.
pub proof fn law_order_total(a: ArcCStr, b: ArcCStr, less: bool, equal: bool, greater: bool)
    requires
        call_ensures(ArcCStr::lt, (&a, &b), less),
        call_ensures(ArcCStr::eq, (&a, &b), equal),
        call_ensures(ArcCStr::gt, (&a, &b), greater),
    ensures
        less || equal || greater,
        !(less && equal),
        !(less && greater),
        !(equal && greater),
{
    lemma_equal_iff_same(a@, b@);
    lemma_order_total(a@, b@);
}

/// `<` is transitive.
pub proof fn law_order_transitive(
    a: ArcCStr,
    b: ArcCStr,
    c: ArcCStr,
    a_before_b: bool,
    b_before_c: bool,
    a_before_c: bool,
)
    requires
        call_ensures(ArcCStr::lt, (&a, &b), a_before_b),
        call_ensures(ArcCStr::lt, (&b, &c), b_before_c),
        call_ensures(ArcCStr::lt, (&a, &c), a_before_c),
        a_before_b,
        b_before_c,
    ensures
        a_before_c,
{
    assert(lex_less(a@, b@));
    assert(lex_less(b@, c@));
    lemma_order_transitive(a@, b@, c@);
}

/// What the quoted form shows is the content alone: equal handles are
/// shown alike.
pub proof fn law_shown_by_content(a: ArcCStr, b: ArcCStr, shown_a: String, shown_b: String)
    requires
        a@ == b@,
        call_ensures(ArcCStr::to_quoted_string, (&a,), shown_a),
        call_ensures(ArcCStr::to_quoted_string, (&b,), shown_b),
    ensures
        shown_a@ == shown_b@,
        shown_a@ == quoted(a@),
{
}

} // verus!
