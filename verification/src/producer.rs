//! The producer abstraction that feeds bulk appends: a source of items that
//! can be drawn one at a time and that may report a conservative lower bound
//! on how many items are still to come.

use vstd::prelude::*;

verus! {

/// A finite source of items, yielded in a fixed order.
///
/// `remaining` is the sequence of items still to be yielded. `next` yields
/// the head of that sequence; `size_lower_bound` may understate how many
/// items are left, but never overstates it.
pub trait Producer<T>: Sized {
    /// The items this producer will still yield, in order.
    spec fn remaining(&self) -> Seq<T>;

    /// A lower bound on how many items remain. The bound may be
    /// conservative (even zero), but never exceeds the true count.
    fn size_lower_bound(&self) -> (n: usize)
        ensures
            n <= self.remaining().len(),
    ;

    /// Yields the next item, or `None` once exhausted.
    fn next(&mut self) -> (r: Option<T>)
        ensures
            old(self).remaining().len() > 0 ==> (r matches Some(x)
                && x == old(self).remaining()[0]
                && final(self).remaining() == old(self).remaining().drop_first()),
            old(self).remaining().len() == 0 ==> (r is None
                && final(self).remaining() == old(self).remaining()),
    ;
}

/// A producer that yields the elements of a vector in order, reporting a
/// chosen lower bound on its size.
pub struct VecProducer<T> {
    /// Items still to be yielded, head first.
    items: Vec<T>,
    /// The lower bound this producer reports; clamped to the true count
    /// when asked.
    reported: usize,
}

impl<T> VecProducer<T> {
    /// A producer over `items` that reports its exact size.
    pub fn new(items: Vec<T>) -> (p: Self)
        ensures
            p.remaining() == items@,
    {
        let n = items.len();
        VecProducer { items, reported: n }
    }

    /// A producer over `items` that reports `bound` (clamped to the true
    /// count) as its lower bound, for sources that only know part of their
    /// size in advance.
    pub fn with_reported_bound(items: Vec<T>, bound: usize) -> (p: Self)
        ensures
            p.remaining() == items@,
    {
        VecProducer { items, reported: bound }
    }
}

impl<T> Producer<T> for VecProducer<T> {
    closed spec fn remaining(&self) -> Seq<T> {
        self.items@
    }

    fn size_lower_bound(&self) -> (n: usize) {
        if self.reported <= self.items.len() {
            self.reported
        } else {
            self.items.len()
        }
    }

    fn next(&mut self) -> (r: Option<T>) {
        if self.items.len() > 0 {
            let x = self.items.remove(0);
            proof {
                assert(final(self).remaining() =~= old(self).remaining().drop_first());
            }
            Some(x)
        } else {
            None
        }
    }
}

} // verus!
