//! The protocol on the counter that the handles of one block share.
//!
//! The counter says how many handles there are. A clone adds one to it and
//! a drop takes one from it, each in one atomic step that hands back the
//! value the counter had before. What a handle does next depends on that
//! value alone, and those decisions are the functions of this module:
//! [`exceeds_ceiling`] after a clone, [`is_last_release`] after a drop.
//!
//! Several handles may touch the counter at once, so no function here can
//! promise which value a step will see. What the steps add up to is stated
//! on histories instead: a history is the sequence of clones and drops in
//! the order in which the counter took them, and the laws at the end of
//! this module say what the counter holds after a history and which drop
//! gives the block back.

use vstd::prelude::*;
use std::sync::atomic::AtomicUsize;
use std::sync::atomic::Ordering;

verus! {

/// The largest value the counter may be seen to hold when a clone is
/// counted: the largest `isize`. One more clone is turned away, long before
/// the counter could wrap around to zero with handles still alive.
pub const MAX_REFCOUNT: usize = usize::MAX / 2;

/// The value that a new block's counter starts with: the handle that
/// construction returns.
pub const INITIAL_COUNT: usize = 1;

/// Whether a clone that saw `previous` in the counter must be turned away.
pub open spec fn over_ceiling(previous: int) -> bool {
    previous > isize::MAX
}

/// Whether a drop that saw `previous` in the counter was the last one: it
/// took the counter from one to zero.
pub open spec fn last_release(previous: int) -> bool {
    previous == 1
}

/// Decides what a clone does after it has added one to the counter and
/// seen `previous` there: `true` means the ceiling was passed and the clone
/// must not go on. Where it answers `false`, the addition did not wrap.
pub fn exceeds_ceiling(previous: usize) -> (over: bool)
    ensures
        over == over_ceiling(previous as int),
        !over ==> previous + 1 <= usize::MAX,
{
    previous > MAX_REFCOUNT
}

/// Decides what a drop does after it has taken one from the counter and
/// seen `previous` there: `true` means this was the last handle and the
/// block is to be given back; `false` means other handles remain and the
/// drop is done.
pub fn is_last_release(previous: usize) -> (last: bool)
    ensures
        last == last_release(previous as int),
    opens_invariants none
    no_unwind
{
    previous == 1
}

/// A counter for a new block, holding [`INITIAL_COUNT`].
pub(crate) fn new_counter() -> AtomicUsize {
    AtomicUsize::new(INITIAL_COUNT)
}

/// Counts one more handle: adds one to the counter with relaxed ordering
/// and returns the value it held before. Relaxed is enough, because the
/// caller already holds a handle: nothing has to be published to it.
pub(crate) fn fetch_increment(counter: &AtomicUsize) -> (previous: usize) {
    counter.fetch_add(1, Ordering::Relaxed)
}

/// Reads the counter. Other handles may change it at any time, so the
/// value may be stale when the caller looks at it.
pub(crate) fn read(counter: &AtomicUsize) -> (count: usize) {
    counter.load(Ordering::SeqCst)
}

/// Counts one handle less.
///
/// Trusted: calls `AtomicUsize::fetch_sub` with the value one and release
/// ordering, and returns what it returned: the value the counter held
/// before. Nothing is claimed of that value. The call does not unwind.
#[verifier::external_body]
pub(crate) fn fetch_decrement(counter: &AtomicUsize) -> (previous: usize)
    opens_invariants none
    no_unwind
{
    counter.fetch_sub(1, Ordering::Release)
}

/// Orders every use of the block by any handle before what the last
/// handle does next.
///
/// Trusted: calls `std::sync::atomic::fence` with acquire ordering, which
/// returns nothing and, with this ordering, does not panic.
#[verifier::external_body]
pub(crate) fn acquire_fence()
    opens_invariants none
    no_unwind
{
    std::sync::atomic::fence(Ordering::Acquire)
}

/// Turns a clone away for good: the counter was found above its ceiling.
///
/// Trusted: calls `Option::expect` on `None`, which panics with the
/// message given and never returns. Nothing is claimed of it.
#[verifier::external_body]
pub(crate) fn counter_overflow() {
    None::<()>.expect("ArcCStr: too many handles on one string")
}

/// One step of a history: what a handle did to the counter.
pub enum Step {
    /// A handle was cloned: the counter went up by one.
    Cloned,
    /// A handle was dropped: the counter went down by one.
    Dropped,
}

/// The counter after one step.
pub open spec fn count_step(count: int, step: Step) -> int {
    match step {
        Step::Cloned => count + 1,
        Step::Dropped => count - 1,
    }
}

/// The counter after a history that began with the counter at `start`.
pub open spec fn count_after(start: int, history: Seq<Step>) -> int
    decreases history.len(),
{
    if history.len() == 0 {
        start
    } else {
        count_step(count_after(start, history.drop_last()), history.last())
    }
}

/// The number of clones in a history.
pub open spec fn clones(history: Seq<Step>) -> nat
    decreases history.len(),
{
    if history.len() == 0 {
        0
    } else if history.last() is Cloned {
        clones(history.drop_last()) + 1
    } else {
        clones(history.drop_last())
    }
}

/// The number of drops in a history.
pub open spec fn drops(history: Seq<Step>) -> nat
    decreases history.len(),
{
    if history.len() == 0 {
        0
    } else if history.last() is Dropped {
        drops(history.drop_last()) + 1
    } else {
        drops(history.drop_last())
    }
}

/// The value that step `i` of a history on a new block sees in the
/// counter: what the steps before it have left there.
pub open spec fn seen_by(history: Seq<Step>, i: int) -> int {
    count_after(INITIAL_COUNT as int, history.take(i))
}

/// A history that handles can produce: every step is made by a handle
/// that is alive, so it sees at least that handle in the counter.
pub open spec fn valid_history(history: Seq<Step>) -> bool {
    forall|i: int| 0 <= i < history.len() ==> seen_by(history, i) >= 1
}

/// Step `i` of a history is the drop that gives the block back.
pub open spec fn releases_at(history: Seq<Step>, i: int) -> bool {
    &&& 0 <= i < history.len()
    &&& history[i] is Dropped
    &&& last_release(seen_by(history, i))
}

/// The counter of a new block holds one; after any history it holds one,
/// plus the clones, minus the drops.
pub proof fn lemma_count_after(history: Seq<Step>)
    ensures
        count_after(INITIAL_COUNT as int, Seq::<Step>::empty()) == 1,
        count_after(INITIAL_COUNT as int, history) == 1 + clones(history) - drops(history),
    decreases history.len(),
{
    if history.len() > 0 {
        lemma_count_after(history.drop_last());
    }
}

/// After `n` clones and then `k` of the handles dropped, the counter holds
/// `1 + n - k`.
pub proof fn lemma_count_after_clones_then_drops(n: nat, k: nat)
    ensures
        count_after(
            INITIAL_COUNT as int,
            Seq::new(n, |i: int| Step::Cloned) + Seq::new(k, |i: int| Step::Dropped),
        ) == 1 + n - k,
    decreases n + k,
{
    let history = Seq::new(n, |i: int| Step::Cloned) + Seq::new(k, |i: int| Step::Dropped);
    if k > 0 {
        let shorter = Seq::new(n, |i: int| Step::Cloned) + Seq::new(
            (k - 1) as nat,
            |i: int| Step::Dropped,
        );
        assert(history.drop_last() =~= shorter);
        lemma_count_after_clones_then_drops(n, (k - 1) as nat);
    } else if n > 0 {
        let shorter = Seq::new((n - 1) as nat, |i: int| Step::Cloned) + Seq::new(
            0,
            |i: int| Step::Dropped,
        );
        assert(history.drop_last() =~= shorter);
        lemma_count_after_clones_then_drops((n - 1) as nat, 0);
    } else {
        assert(history =~= Seq::<Step>::empty());
    }
}

/// The ceiling keeps the counter from wrapping: in a valid history in
/// which no clone was counted above the ceiling, the counter stays between
/// zero and the largest `usize` all the way.
pub proof fn lemma_counter_stays_in_range(history: Seq<Step>, i: int)
    requires
        valid_history(history),
        forall|j: int|
            0 <= j < history.len() && history[j] is Cloned ==> !over_ceiling(seen_by(history, j)),
        0 <= i <= history.len(),
    ensures
        0 <= seen_by(history, i) <= isize::MAX + 1,
        seen_by(history, i) <= usize::MAX,
    decreases i,
{
    if i > 0 {
        lemma_counter_stays_in_range(history, i - 1);
        assert(history.take(i).drop_last() =~= history.take(i - 1));
        assert(history.take(i).last() == history[i - 1]);
        assert(seen_by(history, i - 1) >= 1);
    }
}

/// While handles remain, no drop gives the block back: in a valid history
/// that leaves the counter above zero, no step is a releasing one.
pub proof fn lemma_no_release_while_handles_remain(history: Seq<Step>, i: int)
    requires
        valid_history(history),
        count_after(INITIAL_COUNT as int, history) >= 1,
    ensures
        !releases_at(history, i),
{
    if releases_at(history, i) {
        lemma_release_is_final(history, i);
        assert(history.take(i + 1) =~= history);
        assert(history.take(i + 1).drop_last() =~= history.take(i));
    }
}

/// The drop that gives the block back is the last step of its history, and
/// it leaves the counter at zero: no handle is left to make another step.
pub proof fn lemma_release_is_final(history: Seq<Step>, i: int)
    requires
        valid_history(history),
        releases_at(history, i),
    ensures
        i == history.len() - 1,
        count_after(INITIAL_COUNT as int, history.take(i + 1)) == 0,
{
    let upto = history.take(i + 1);
    assert(upto.drop_last() =~= history.take(i));
    assert(upto.last() == history[i]);
    assert(count_after(INITIAL_COUNT as int, upto) == 0);
    if i + 1 < history.len() {
        assert(seen_by(history, i + 1) >= 1);
    }
}

/// A block is given back at most once.
pub proof fn lemma_release_happens_once(history: Seq<Step>, i: int, j: int)
    requires
        valid_history(history),
        releases_at(history, i),
        releases_at(history, j),
    ensures
        i == j,
{
    lemma_release_is_final(history, i);
    lemma_release_is_final(history, j);
}

/// A history that leaves the counter at zero ends in the drop that gives
/// the block back.
pub proof fn lemma_zero_means_released(history: Seq<Step>)
    requires
        valid_history(history),
        count_after(INITIAL_COUNT as int, history) == 0,
    ensures
        history.len() > 0,
        releases_at(history, history.len() - 1),
{
    let last = history.len() - 1;
    assert(history.len() > 0);
    assert(seen_by(history, last) >= 1);
    assert(history.take(last) =~= history.drop_last());
}

} // verus!
