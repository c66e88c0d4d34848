//! Laws that relate several operations of the array, stated over the
//! abstract values their contracts use.

use vstd::prelude::*;

use crate::array::Vec;

verus! {

/// Appending and then removing the last element is a round trip: from any
/// live prefix `s`, `push(x)` followed by `pop` yields `x` and leaves the
/// prefix — and with it the length — exactly as it was.
pub proof fn lemma_push_pop_round_trip<T>(s: Seq<T>, x: T)
    ensures
        s.push(x).len() > 0,
        s.push(x).last() == x,
        s.push(x).drop_last() == s,
{
    assert(s.push(x).drop_last() =~= s);
}

/// What the live prefix holds is exactly what was written: appending `x`
/// leaves every earlier position as it was and puts `x` at the old length,
/// so reading a position always yields the most recent write there, never
/// an arbitrary value.
pub proof fn lemma_push_preserves_earlier_writes<T>(s: Seq<T>, x: T, i: int)
    requires
        0 <= i < s.len(),
    ensures
        s.push(x)[i] == s[i],
        s.push(x)[s.len() as int] == x,
{
}

/// The relation `shrink_to_fit` establishes between the abstract states
/// before and after the call: the live prefix is kept and the capacity
/// becomes its length.
pub open spec fn shrink_rel<T>(pre: Vec<T>, post: Vec<T>) -> bool {
    &&& post@ == pre@
    &&& post.spec_cap() == pre@.len()
}

/// Shrinking to fit is idempotent: a second `shrink_to_fit` leaves the
/// same abstract state (live prefix and capacity) as the first, and after
/// either, `capacity == length`.
pub proof fn lemma_shrink_to_fit_idempotent<T>(
    a: Vec<T>,
    once: Vec<T>,
    twice: Vec<T>,
)
    requires
        shrink_rel(a, once),
        shrink_rel(once, twice),
    ensures
        twice@ == once@,
        twice.spec_cap() == once.spec_cap(),
        once.spec_cap() == once@.len(),
{
}

} // verus!
