//! The handle: a share in a string that lives as long as any handle on it.
//!
//! The string and the counter of its handles are kept in one block behind
//! an `Arc`, which owns the memory. The counter is the handles' own: a
//! clone and a drop follow the protocol of [`crate::refcount`] on it, and
//! [`ArcCStr::strong_count`] reads it.

use vstd::prelude::*;
use vstd::std_specs::convert::FromSpecImpl;
use vstd::std_specs::cmp::{PartialEqSpecImpl, PartialOrdSpecImpl};
use vstd::utf8::{encode_utf8, valid_utf8, decode_utf8};
use std::cmp::Ordering;
use std::hash::{Hash, Hasher};
use std::sync::Arc;
use std::sync::atomic::AtomicUsize;
use crate::content::{NUL, until_nul, terminated, is_terminated, find_nul, content_of};
use crate::content::{lemma_embedded_nul_truncates, lemma_round_trip, lemma_terminator_found};
use crate::content::{lemma_until_nul_has_no_nul, slice_holds};
use crate::layout::tail_size;
use crate::refcount::{new_counter, fetch_increment, fetch_decrement, read, acquire_fence};
use crate::refcount::{exceeds_ceiling, is_last_release, counter_overflow};
use crate::order::{lex_order, bytes_equal, compare};
use crate::text::{lossy_text, quoted, decode_lossy, quote, write_text};
use crate::text::{nul_char, lemma_zero_byte_in_text};

verus! {

/// What the handles of one string share: the counter of the handles, and
/// behind it the payload with its terminator.
struct Block {
    count: AtomicUsize,
    bytes: Vec<u8>,
}

/// A thread-safe reference-counted null-terminated string.
///
/// An `ArcCStr` shares an immutable, null-terminated byte string that lives
/// on the heap. [`clone`](Clone::clone) makes another handle on the same
/// string and copies no byte of it. When the last handle on a string is
/// dropped, the string is dropped with it. There is no way to a mutable
/// reference to the bytes, not even for the only handle.
///
/// The handles count themselves in an atomic counter beside the bytes, so
/// they can be sent to other threads and cloned and dropped there.
///
/// The view of a handle, `h@`, is the content of its string: the bytes
/// before the terminator. Equality, order and hashing go by the content
/// and never by the address; [`ArcCStr::ptr_eq`] tells whether two handles
/// share one string.
///
/// The bytes that a string is made from should hold no zero byte. This is
/// not checked: a string made from bytes with a zero among them holds all
/// of them, and its content ends before the first zero.
///
/// A handle dereferences to its content, so the methods of a byte slice
/// can be called on it. To keep clear of those, [`ArcCStr::strong_count`]
/// and [`ArcCStr::ptr_eq`] are associated functions, called as
/// `ArcCStr::strong_count(&s)`.
pub struct ArcCStr {
    inner: Arc<Block>,
}

impl View for ArcCStr {
    type V = Seq<u8>;

    /// The content: the bytes of the string before its terminator.
    closed spec fn view(&self) -> Seq<u8> {
        until_nul(self.inner.bytes@)
    }
}

/// Makes another `Arc` on a block.
///
/// Trusted: calls `Arc::clone`, which returns a pointer to the same
/// allocation as its argument; so the result holds the very block that
/// the argument holds.
#[verifier::external_body]
fn share(block: &Arc<Block>) -> (shared: Arc<Block>)
    ensures
        shared == block,
{
    Arc::clone(block)
}

/// Tells whether two `Arc`s hold one block.
///
/// Trusted: calls `Arc::ptr_eq`, which returns `true` if the two `Arc`s
/// point to the same allocation and `false` if they do not. A block's
/// value is its counter and its bytes, and the value of an atomic is the
/// cell itself, not the number it holds at some time. So two `Arc`s point
/// to one allocation exactly when they hold the same block value.
#[verifier::external_body]
fn same_block(a: &Arc<Block>, b: &Arc<Block>) -> (same: bool)
    ensures
        same == (a == b),
{
    Arc::ptr_eq(a, b)
}

impl ArcCStr {
    /// The bytes behind the counter end in a zero byte, so the scan for
    /// the terminator always finds one.
    #[verifier::type_invariant]
    spec fn well_formed(&self) -> bool {
        is_terminated(self.inner.bytes@)
    }

    /// The two handles share one string: one is the other, or a clone of
    /// it, or a clone of one of its clones.
    pub closed spec fn same_allocation(&self, other: &ArcCStr) -> bool {
        self.inner == other.inner
    }

    /// Handles that share one string have the same content.
    pub proof fn lemma_same_allocation_same_content(&self, other: &ArcCStr)
        requires
            self.same_allocation(other),
        ensures
            self@ == other@,
    {
    }

    /// Sharing a string is an equivalence: every handle shares with itself,
    /// and sharing goes both ways and carries over.
    pub proof fn lemma_same_allocation_equivalence(&self, second: &ArcCStr, third: &ArcCStr)
        ensures
            self.same_allocation(self),
            self.same_allocation(second) ==> second.same_allocation(self),
            self.same_allocation(second) && second.same_allocation(third)
                ==> self.same_allocation(third),
    {
    }

    /// The part of `drop` that only the last handle runs.
    ///
    /// The acquire fence pairs with the release of every drop before this
    /// one: whatever any handle did with the bytes has happened when the
    /// block is given back. The memory itself is the `Arc`'s to give back,
    /// which it does when this handle's field goes.
    #[inline(never)]
    fn drop_slow(&mut self)
        ensures
            *final(self) == *old(self),
        opens_invariants none
        no_unwind
    {
        acquire_fence();
    }

    /// Gets the number of handles on this string.
    ///
    /// The number is read from the shared counter in one atomic load.
    /// Another thread can clone or drop a handle at any time, also between
    /// this call and the caller's use of the result: the number is a
    /// snapshot and promises nothing about the counter afterwards.
    pub fn strong_count(this: &Self) -> usize {
        read(&this.inner.count)
    }

    /// Returns true if the two handles share one string, not just strings
    /// that compare as equal.
    pub fn ptr_eq(this: &Self, other: &Self) -> (same: bool)
        ensures
            same == this.same_allocation(other),
            same ==> this@ == other@,
    {
        same_block(&this.inner, &other.inner)
    }

    /// The content: the bytes of the string before its terminator.
    pub fn to_bytes(&self) -> (bytes: &[u8])
        ensures
            bytes@ == self@,
            !bytes@.contains(NUL),
    {
        proof {
            lemma_until_nul_has_no_nul(self.inner.bytes@);
        }
        content_of(self.inner.bytes.as_slice())
    }

    /// Compares the contents of the two strings byte by byte.
    pub fn cmp(&self, other: &ArcCStr) -> (order: Ordering)
        ensures
            order == lex_order(self@, other@),
    {
        compare(self.to_bytes(), other.to_bytes())
    }

    /// The content read as UTF-8, with U+FFFD for what is not.
    pub fn to_string_lossy(&self) -> (text: String)
        ensures
            text@ == lossy_text(self@),
            valid_utf8(self@) ==> text@ == decode_utf8(self@),
    {
        decode_lossy(self.to_bytes())
    }

    /// The content as it is shown: escaped, between double quotes.
    pub fn to_quoted_string(&self) -> (text: String)
        ensures
            text@ == quoted(self@),
    {
        quote(self.to_bytes())
    }

    /// The content followed by its terminator.
    pub fn to_bytes_with_nul(&self) -> (bytes: &[u8])
        ensures
            bytes@ == terminated(self@),
    {
        proof {
            use_type_invariant(self);
            lemma_terminator_found(self.inner.bytes@);
        }
        let stored = self.inner.bytes.as_slice();
        let end = find_nul(stored);
        assert(end < stored.len());
        vstd::slice::slice_subrange(stored, 0, end + 1)
    }
}

impl<'a> From<&'a [u8]> for ArcCStr {
    /// Makes a string from bytes, with one handle on it.
    ///
    /// The bytes are copied into a new block behind a counter that holds
    /// one, and a zero byte is put behind them. The content of the string
    /// is `b` up to its first zero byte: all of `b` where it holds none.
    fn from(b: &'a [u8]) -> (handle: Self)
        ensures
            handle@ == until_nul(b@),
            !b@.contains(NUL) ==> handle@ == b@,
    {
        let mut bytes: Vec<u8> = Vec::with_capacity(tail_size(b.len()));
        let mut i: usize = 0;
        while i < b.len()
            invariant
                i <= b@.len(),
                bytes@ == b@.take(i as int),
            decreases b@.len() - i,
        {
            bytes.push(b[i]);
            i += 1;
            assert(bytes@ =~= b@.take(i as int));
        }
        bytes.push(NUL);
        proof {
            assert(b@.take(i as int) =~= b@);
            assert(bytes@ == terminated(b@));
            lemma_embedded_nul_truncates(b@);
            if !b@.contains(NUL) {
                lemma_round_trip(b@);
            }
        }
        ArcCStr { inner: Arc::new(Block { count: new_counter(), bytes }) }
    }
}

impl<'a> FromSpecImpl<&'a [u8]> for ArcCStr {
    /// Two strings made from the same bytes are two strings: no function
    /// of the bytes gives the handle.
    open spec fn obeys_from_spec() -> bool {
        false
    }

    open spec fn from_spec(b: &'a [u8]) -> Self {
        arbitrary()
    }
}

impl<'a> From<&'a str> for ArcCStr {
    /// Makes a string from the UTF-8 bytes of a text slice. A text with no
    /// character of code zero is kept whole.
    fn from(s: &'a str) -> (handle: Self)
        ensures
            handle@ == until_nul(encode_utf8(s@)),
            !s@.contains(nul_char()) ==> handle@ == encode_utf8(s@),
    {
        proof {
            lemma_zero_byte_in_text(s@);
        }
        let bytes: &[u8] = s.as_bytes();
        ArcCStr::from(bytes)
    }
}

impl<'a> FromSpecImpl<&'a str> for ArcCStr {
    open spec fn obeys_from_spec() -> bool {
        false
    }

    open spec fn from_spec(s: &'a str) -> Self {
        arbitrary()
    }
}

impl From<String> for ArcCStr {
    /// Makes a string from the UTF-8 bytes of an owned text. A text with no
    /// character of code zero is kept whole.
    fn from(s: String) -> (handle: Self)
        ensures
            handle@ == until_nul(encode_utf8(s@)),
            !s@.contains(nul_char()) ==> handle@ == encode_utf8(s@),
    {
        proof {
            lemma_zero_byte_in_text(s@);
        }
        let bytes: &[u8] = s.as_str().as_bytes();
        ArcCStr::from(bytes)
    }
}

impl FromSpecImpl<String> for ArcCStr {
    open spec fn obeys_from_spec() -> bool {
        false
    }

    open spec fn from_spec(s: String) -> Self {
        arbitrary()
    }
}

impl Clone for ArcCStr {
    /// Makes another handle on the same string.
    ///
    /// The counter goes up by one; no byte is copied. A clone that finds
    /// more than [`MAX_REFCOUNT`](crate::refcount::MAX_REFCOUNT) handles
    /// counted before it does not return.
    ///
    /// # Panics
    ///
    /// If the counter was above `MAX_REFCOUNT` when this clone was counted.
    /// A program that gets there has leaked handles without end; it is not
    /// meant to go on.
    fn clone(&self) -> (handle: Self)
        ensures
            handle.same_allocation(self),
            self.same_allocation(&handle),
            handle@ == self@,
    {
        let previous = fetch_increment(&self.inner.count);
        if exceeds_ceiling(previous) {
            counter_overflow();
        }
        proof {
            use_type_invariant(self);
        }
        ArcCStr { inner: share(&self.inner) }
    }
}

impl Drop for ArcCStr {
    /// Drops the handle.
    ///
    /// The counter goes down by one, with release ordering, so that every
    /// use of the bytes through this handle comes before it. If other
    /// handles remain, that is all. The last handle then passes an acquire
    /// fence, which puts the uses of the bytes by all the handles before
    /// what follows: the block is given back.
    fn drop(&mut self)
        opens_invariants none
        no_unwind
    {
        let previous = fetch_decrement(&self.inner.count);
        if !is_last_release(previous) {
            return;
        }
        self.drop_slow();
    }
}

impl std::ops::Deref for ArcCStr {
    type Target = [u8];

    /// The content: the bytes of the string before its terminator.
    fn deref(&self) -> (bytes: &[u8])
        ensures
            bytes@ == self@,
    {
        self.to_bytes()
    }
}

impl AsRef<[u8]> for ArcCStr {
    /// The content: the bytes of the string before its terminator.
    fn as_ref(&self) -> (bytes: &[u8])
        ensures
            bytes@ == self@,
    {
        self.to_bytes()
    }
}

impl std::borrow::Borrow<[u8]> for ArcCStr {
    /// The content: the bytes of the string before its terminator. A
    /// handle is equal to, ordered and hashed alike what it is borrowed
    /// for.
    fn borrow(&self) -> (bytes: &[u8])
        ensures
            slice_holds(bytes, self@),
    {
        self.to_bytes()
    }
}

impl PartialEq for ArcCStr {
    /// Two handles are equal if the contents of their strings are.
    fn eq(&self, other: &ArcCStr) -> (equal: bool) {
        bytes_equal(self.to_bytes(), other.to_bytes())
    }

    /// Two handles are unequal if the contents of their strings are.
    fn ne(&self, other: &ArcCStr) -> (unequal: bool) {
        !bytes_equal(self.to_bytes(), other.to_bytes())
    }
}

impl PartialEqSpecImpl for ArcCStr {
    open spec fn obeys_eq_spec() -> bool {
        true
    }

    open spec fn eq_spec(&self, other: &ArcCStr) -> bool {
        self@ == other@
    }
}

impl Eq for ArcCStr {}

impl PartialOrd for ArcCStr {
    /// Compares the contents of the two strings byte by byte.
    fn partial_cmp(&self, other: &ArcCStr) -> (order: Option<Ordering>) {
        Some(compare(self.to_bytes(), other.to_bytes()))
    }

    /// The content of this string comes before that of the other.
    fn lt(&self, other: &ArcCStr) -> (less: bool) {
        match compare(self.to_bytes(), other.to_bytes()) {
            Ordering::Less => true,
            _ => false,
        }
    }

    /// The content of this string does not come after that of the other.
    fn le(&self, other: &ArcCStr) -> (less_or_equal: bool) {
        match compare(self.to_bytes(), other.to_bytes()) {
            Ordering::Greater => false,
            _ => true,
        }
    }

    /// The content of this string comes after that of the other.
    fn gt(&self, other: &ArcCStr) -> (greater: bool) {
        match compare(self.to_bytes(), other.to_bytes()) {
            Ordering::Greater => true,
            _ => false,
        }
    }

    /// The content of this string does not come before that of the other.
    fn ge(&self, other: &ArcCStr) -> (greater_or_equal: bool) {
        match compare(self.to_bytes(), other.to_bytes()) {
            Ordering::Less => false,
            _ => true,
        }
    }
}

impl PartialOrdSpecImpl for ArcCStr {
    open spec fn obeys_partial_cmp_spec() -> bool {
        true
    }

    open spec fn partial_cmp_spec(&self, other: &ArcCStr) -> Option<Ordering> {
        Some(lex_order(self@, other@))
    }
}

impl std::fmt::Debug for ArcCStr {
    /// Writes the content escaped, between double quotes.
    fn fmt(&self, f: &mut std::fmt::Formatter<'_>) -> (written: Result<(), std::fmt::Error>) {
        let text = quote(self.to_bytes());
        write_text(f, text.as_str())
    }
}

/// Writes the address of a block to a formatter.
///
/// Trusted: calls `<Arc<_> as std::fmt::Pointer>::fmt`, which writes the
/// address that the `Arc` points to and returns the writer's answer.
/// Nothing is claimed of either.
#[verifier::external_body]
fn write_address(block: &Arc<Block>, f: &mut std::fmt::Formatter<'_>) -> (written: Result<
    (),
    std::fmt::Error,
>) {
    std::fmt::Pointer::fmt(block, f)
}

impl std::fmt::Pointer for ArcCStr {
    /// Writes the address of the string, whatever it holds.
    fn fmt(&self, f: &mut std::fmt::Formatter<'_>) -> (written: Result<(), std::fmt::Error>) {
        write_address(&self.inner, f)
    }
}

/// Feeds bytes to a hasher.
///
/// Trusted: calls `Hash::hash` of a byte slice, which writes the length
/// and the bytes to the hasher. Nothing is claimed of the hasher's state.
#[verifier::external_body]
fn feed<H: Hasher>(bytes: &[u8], state: &mut H) {
    bytes.hash(state)
}

impl Hash for ArcCStr {
    /// Hashes the content, so that equal handles hash alike.
    fn hash<H: Hasher>(&self, state: &mut H) {
        feed(self.to_bytes(), state)
    }
}

} // verus!
