//! The growable array itself: a block of slots with a live prefix, a growth
//! policy that doubles capacity, and checked plus precondition-only
//! accessors over the live prefix.

use vstd::prelude::*;

use crate::growth::cap_limit;
use crate::growth::lemma_next_pow2_ge;
use crate::growth::next_pow2;
use crate::growth::next_power_of_two;
use crate::producer::Producer;

verus! {

broadcast use vstd::std_specs::vec::group_vec_axioms;

/// Contiguous, resizable storage for a sequence of values.
///
/// The backing storage holds `capacity` slots. A slot either holds a live
/// value or is spare; only the slots `[0, len)` are live, and no accessor
/// ever exposes a spare slot. Spare slots may hold stale leftovers of
/// earlier removals, which are never read.
pub struct Vec<T> {
    /// The backing slots. `None`, or a stale `Some` at or past the live
    /// prefix, stands for storage that holds no current value.
    items: std::vec::Vec<Option<T>>,
    /// Number of live elements; the live prefix is `[0, len)`.
    len: usize,
}

impl<T> View for Vec<T> {
    type V = Seq<T>;

    /// The live prefix, as the sequence of values it holds.
    closed spec fn view(&self) -> Seq<T> {
        Seq::new(self.len as nat, |i: int| self.items@[i].unwrap())
    }
}

impl<T> Default for Vec<T> {
    /// An empty array with no storage allocated.
    fn default() -> (a: Self)
        ensures
            a.wf(),
            a@ == Seq::<T>::empty(),
            a.spec_cap() == 0,
    {
        let a = Vec { items: std::vec::Vec::new(), len: 0 };
        proof {
            assert(a@ =~= Seq::<T>::empty());
        }
        a
    }
}

impl<T> Vec<T> {
    /// Number of slots in the backing storage.
    pub closed spec fn spec_cap(&self) -> nat {
        self.items@.len()
    }

    /// Well-formedness: the live prefix fits in the storage, and every live
    /// slot holds a value.
    pub closed spec fn wf(&self) -> bool {
        &&& self.len <= self.items@.len()
        &&& forall|i: int| 0 <= i < self.len ==> (#[trigger] self.items@[i]) is Some
    }

    /// The live prefix never outgrows the storage: `length <= capacity`
    /// holds of every well-formed array, hence after every operation.
    pub proof fn lemma_length_le_capacity(&self)
        requires
            self.wf(),
        ensures
            self@.len() <= self.spec_cap(),
    {
    }

    /// Number of live elements.
    pub fn len(&self) -> (n: usize)
        ensures
            n == self@.len(),
    {
        self.len
    }

    /// Whether no element is live.
    pub fn is_empty(&self) -> (e: bool)
        ensures
            e <==> self@.len() == 0,
    {
        self.len == 0
    }

    /// Number of slots the array can fill without reallocating.
    pub fn cap(&self) -> (n: usize)
        ensures
            n == self.spec_cap(),
    {
        self.items.len()
    }

    /// Number of spare slots: how many elements fit without reallocating.
    pub fn spare_capacity(&self) -> (n: usize)
        requires
            self.wf(),
        ensures
            n == self.spec_cap() - self@.len(),
    {
        self.items.len() - self.len
    }

    /// Replaces the backing storage with a block of exactly `new_capacity`
    /// slots: the live prefix is kept in order, every other slot of the new
    /// block is vacant. The one place where storage changes size; every
    /// growth or shrink routes through here, and none may truncate the live
    /// prefix.
    fn realloc_to_desired_cap(&mut self, new_capacity: usize)
        requires
            old(self).wf(),
            old(self)@.len() <= new_capacity,
        ensures
            final(self).wf(),
            final(self)@ == old(self)@,
            final(self).spec_cap() == new_capacity,
    {
        self.items.truncate(self.len);
        while self.items.len() < new_capacity
            invariant
                old(self).wf(),
                self.len == old(self).len,
                self.len <= self.items@.len() <= new_capacity,
                forall|i: int|
                    0 <= i < self.len ==> (#[trigger] self.items@[i]) == old(self).items@[i],
            decreases new_capacity - self.items@.len(),
        {
            self.items.push(None);
        }
        proof {
            assert(final(self)@ =~= old(self)@);
        }
    }

    /// Grows the storage so that at least `n` spare slots are available,
    /// reallocating to the next power of two at or above the required
    /// capacity. Leaves a block with enough room untouched.
    fn realloc_if_spare_cap_lt_n(&mut self, n: usize)
        requires
            old(self).wf(),
            old(self)@.len() + n <= cap_limit(),
        ensures
            final(self).wf(),
            final(self)@ == old(self)@,
            final(self).spec_cap() >= final(self)@.len() + n,
            old(self).spec_cap() >= old(self)@.len() + n
                ==> final(self).spec_cap() == old(self).spec_cap(),
            old(self).spec_cap() < old(self)@.len() + n
                ==> final(self).spec_cap() == next_pow2((old(self)@.len() + n) as nat),
    {
        if self.spare_capacity() < n {
            let required = self.len + n;
            let target = next_power_of_two(required);
            proof {
                lemma_next_pow2_ge(required as nat);
            }
            self.realloc_to_desired_cap(target);
        }
    }

    /// Grows the storage to the next power of two above the current
    /// capacity, making room for at least one more element.
    fn realloc(&mut self)
        requires
            old(self).wf(),
            old(self).spec_cap() + 1 <= cap_limit(),
        ensures
            final(self).wf(),
            final(self)@ == old(self)@,
            final(self).spec_cap() == next_pow2(old(self).spec_cap() + 1),
            final(self).spec_cap() > old(self).spec_cap(),
    {
        let target = next_power_of_two(self.cap() + 1);
        proof {
            lemma_next_pow2_ge(old(self).spec_cap() + 1);
        }
        self.realloc_to_desired_cap(target);
    }

    /// Reallocates when the live prefix fills the storage; afterwards there
    /// is always at least one spare slot. Returns whether it reallocated.
    fn realloc_if_len_gte_cap(&mut self) -> (reallocated: bool)
        requires
            old(self).wf(),
            old(self)@.len() == old(self).spec_cap() ==> old(self).spec_cap() + 1 <= cap_limit(),
        ensures
            final(self).wf(),
            final(self)@ == old(self)@,
            final(self)@.len() < final(self).spec_cap(),
            reallocated <==> old(self)@.len() >= old(self).spec_cap(),
            !reallocated ==> final(self).spec_cap() == old(self).spec_cap(),
            reallocated ==> final(self).spec_cap() == next_pow2(old(self).spec_cap() + 1),
    {
        let len_gte_cap = self.len >= self.cap();
        if len_gte_cap {
            self.realloc();
        }
        len_gte_cap
    }

    /// Appends `x` at the end of the live prefix, growing the storage to
    /// the next power of two if it was full. Capacity is untouched
    /// otherwise, so a full block exactly doubles once it is a power of
    /// two.
    pub fn push(&mut self, x: T)
        requires
            old(self).wf(),
            old(self)@.len() == old(self).spec_cap() ==> old(self).spec_cap() + 1 <= cap_limit(),
        ensures
            final(self).wf(),
            final(self)@ == old(self)@.push(x),
            old(self)@.len() < old(self).spec_cap()
                ==> final(self).spec_cap() == old(self).spec_cap(),
            old(self)@.len() == old(self).spec_cap()
                ==> final(self).spec_cap() == next_pow2(old(self).spec_cap() + 1),
    {
        self.realloc_if_len_gte_cap();
        self.push_unchecked(x);
    }

    /// Appends `x` without consulting the growth policy. The caller is
    /// responsible for one spare slot being available.
    pub fn push_unchecked(&mut self, x: T)
        requires
            old(self).wf(),
            old(self)@.len() < old(self).spec_cap(),
        ensures
            final(self).wf(),
            final(self)@ == old(self)@.push(x),
            final(self).spec_cap() == old(self).spec_cap(),
    {
        proof {
            vstd::std_specs::vec::axiom_spec_len(&self.items);
        }
        self.items[self.len] = Some(x);
        self.len = self.len + 1;
        proof {
            assert(final(self)@ =~= old(self)@.push(x));
        }
    }

    /// Removes the last live element and hands back a reference to it. The
    /// slot is no longer live; the value stays readable through this one
    /// reference only, until the next mutation.
    pub fn pop(&mut self) -> (r: Option<&T>)
        requires
            old(self).wf(),
        ensures
            final(self).wf(),
            final(self).spec_cap() == old(self).spec_cap(),
            old(self)@.len() == 0 ==> (r is None && final(self)@ == old(self)@),
            old(self)@.len() > 0 ==> (r matches Some(v)
                && *v == old(self)@.last()
                && final(self)@ == old(self)@.drop_last()),
    {
        if self.is_empty() {
            return None;
        }
        self.len = self.len - 1;
        let r = self.items[self.len].as_ref().unwrap();
        proof {
            assert(final(self)@ =~= old(self)@.drop_last());
        }
        Some(r)
    }

    /// A reference to the element at `index`, or `None` past the live
    /// prefix.
    pub fn get(&self, index: usize) -> (r: Option<&T>)
        requires
            self.wf(),
        ensures
            index < self@.len() ==> (r matches Some(v) && *v == self@[index as int]),
            index >= self@.len() ==> r is None,
    {
        if index < self.len {
            self.items[index].as_ref()
        } else {
            None
        }
    }

    /// A mutable reference to the element at `index`, or `None` past the
    /// live prefix. Writing through the reference replaces that element and
    /// nothing else.
    pub fn get_mut(&mut self, index: usize) -> (r: Option<&mut T>)
        requires
            old(self).wf(),
        ensures
            index >= old(self)@.len() ==> (r is None
                && final(self)@ == old(self)@
                && final(self).spec_cap() == old(self).spec_cap()
                && final(self).wf()),
            index < old(self)@.len() ==> (r matches Some(m)
                && *m == old(self)@[index as int]
                && final(self)@ == old(self)@.update(index as int, *final(m))
                && final(self).spec_cap() == old(self).spec_cap()
                && final(self).wf()),
    {
        if index < self.len {
            match &mut self.items[index] {
                Some(m) => Some(m),
                None => vstd::pervasive::unreached(),
            }
        } else {
            None
        }
    }

    /// A reference to the element at `index`, without a bounds check. The
    /// caller is responsible for `index` lying in the live prefix.
    pub fn get_unchecked(&self, index: usize) -> (r: &T)
        requires
            self.wf(),
            index < self@.len(),
        ensures
            *r == self@[index as int],
    {
        self.items[index].as_ref().unwrap()
    }

    /// A mutable reference to the element at `index`, without a bounds
    /// check. The caller is responsible for `index` lying in the live
    /// prefix.
    pub fn get_unchecked_mut(&mut self, index: usize) -> (r: &mut T)
        requires
            old(self).wf(),
            index < old(self)@.len(),
        ensures
            *r == old(self)@[index as int],
            final(self)@ == old(self)@.update(index as int, *final(r)),
            final(self).spec_cap() == old(self).spec_cap(),
            final(self).wf(),
    {
        match &mut self.items[index] {
            Some(m) => m,
            None => vstd::pervasive::unreached(),
        }
    }

    /// A reference to the last live element, or `None` when empty.
    pub fn last(&self) -> (r: Option<&T>)
        requires
            self.wf(),
        ensures
            self@.len() > 0 ==> (r matches Some(v) && *v == self@.last()),
            self@.len() == 0 ==> r is None,
    {
        if self.len == 0 {
            None
        } else {
            self.get(self.len - 1)
        }
    }

    /// A mutable reference to the last live element, or `None` when empty.
    pub fn last_mut(&mut self) -> (r: Option<&mut T>)
        requires
            old(self).wf(),
        ensures
            old(self)@.len() == 0 ==> (r is None
                && final(self)@ == old(self)@
                && final(self).spec_cap() == old(self).spec_cap()
                && final(self).wf()),
            old(self)@.len() > 0 ==> (r matches Some(m)
                && *m == old(self)@.last()
                && final(self)@ == old(self)@.update(old(self)@.len() - 1, *final(m))
                && final(self).spec_cap() == old(self).spec_cap()
                && final(self).wf()),
    {
        if self.len == 0 {
            None
        } else {
            let i = self.len - 1;
            self.get_mut(i)
        }
    }

    /// A reference to the last live element, without an emptiness check.
    /// The caller is responsible for the array being non-empty.
    pub fn last_unchecked(&self) -> (r: &T)
        requires
            self.wf(),
            self@.len() > 0,
        ensures
            *r == self@.last(),
    {
        self.get_unchecked(self.len - 1)
    }

    /// A mutable reference to the last live element, without an emptiness
    /// check. The caller is responsible for the array being non-empty.
    pub fn last_unchecked_mut(&mut self) -> (r: &mut T)
        requires
            old(self).wf(),
            old(self)@.len() > 0,
        ensures
            *r == old(self)@.last(),
            final(self)@ == old(self)@.update(old(self)@.len() - 1, *final(r)),
            final(self).spec_cap() == old(self).spec_cap(),
            final(self).wf(),
    {
        let i = self.len - 1;
        self.get_unchecked_mut(i)
    }

    /// Appends every item the producer yields, in order. Reserves room for
    /// the reported lower bound in one step, then appends the reported
    /// portion without further growth checks, and falls back to one-at-a-
    /// time appends for whatever the producer yields beyond its report.
    pub fn extend<P: Producer<T>>(&mut self, p: P)
        requires
            old(self).wf(),
            old(self)@.len() + p.remaining().len() <= cap_limit(),
        ensures
            final(self).wf(),
            final(self)@ == old(self)@ + p.remaining(),
            final(self).spec_cap() >= old(self).spec_cap(),
    {
        let mut p = p;
        let ghost rem0 = p.remaining();
        let n = p.size_lower_bound();
        self.realloc_if_spare_cap_lt_n(n);
        let mut i: usize = 0;
        while i < n
            invariant
                i <= n,
                n <= rem0.len(),
                old(self)@.len() + rem0.len() <= cap_limit(),
                self.wf(),
                self.spec_cap() >= old(self)@.len() + n,
                self.spec_cap() >= old(self).spec_cap(),
                self@.len() == old(self)@.len() + i,
                self@ == old(self)@ + rem0.take(i as int),
                p.remaining() == rem0.skip(i as int),
            decreases n - i,
        {
            let x = p.next().unwrap();
            self.push_unchecked(x);
            i = i + 1;
            proof {
                assert(self@ =~= old(self)@ + rem0.take(i as int));
                assert(p.remaining() =~= rem0.skip(i as int));
            }
        }
        proof {
            assert(old(self)@ + rem0.take(n as int) + rem0.skip(n as int) =~= old(self)@ + rem0);
        }
        self.extend_naive(p);
    }

    /// Appends every item the producer yields, one at a time, consulting
    /// the growth policy on each step. For producers whose remaining count
    /// is unknown.
    pub fn extend_naive<P: Producer<T>>(&mut self, p: P)
        requires
            old(self).wf(),
            old(self)@.len() + p.remaining().len() <= cap_limit(),
        ensures
            final(self).wf(),
            final(self)@ == old(self)@ + p.remaining(),
            final(self).spec_cap() >= old(self).spec_cap(),
    {
        let mut p = p;
        let ghost rem0 = p.remaining();
        loop
            invariant
                self.wf(),
                self@.len() + p.remaining().len() <= cap_limit(),
                self@ + p.remaining() == old(self)@ + rem0,
                self.spec_cap() >= old(self).spec_cap(),
            ensures
                self.wf(),
                p.remaining().len() == 0,
                self@ + p.remaining() == old(self)@ + rem0,
                self.spec_cap() >= old(self).spec_cap(),
            decreases p.remaining().len(),
        {
            match p.next() {
                Some(x) => {
                    let ghost cap_before = self.spec_cap();
                    self.push(x);
                    proof {
                        assert(self@ + p.remaining() =~= old(self)@ + rem0);
                        lemma_next_pow2_ge(cap_before + 1);
                    }
                },
                None => {
                    proof {
                        assert(self@ =~= old(self)@ + rem0);
                    }
                    break;
                },
            }
        }
        proof {
            assert(self@ + p.remaining() =~= self@);
        }
    }

    /// Appends every item the producer yields, without consulting the
    /// growth policy. The caller is responsible for the spare capacity
    /// covering everything the producer will yield.
    pub fn extend_unchecked<P: Producer<T>>(&mut self, p: P)
        requires
            old(self).wf(),
            old(self)@.len() + p.remaining().len() <= old(self).spec_cap(),
        ensures
            final(self).wf(),
            final(self)@ == old(self)@ + p.remaining(),
            final(self).spec_cap() == old(self).spec_cap(),
    {
        let mut p = p;
        let ghost rem0 = p.remaining();
        loop
            invariant
                self.wf(),
                self.spec_cap() == old(self).spec_cap(),
                self@.len() + p.remaining().len() <= self.spec_cap(),
                self@ + p.remaining() == old(self)@ + rem0,
            ensures
                self.wf(),
                self.spec_cap() == old(self).spec_cap(),
                p.remaining().len() == 0,
                self@ + p.remaining() == old(self)@ + rem0,
            decreases p.remaining().len(),
        {
            match p.next() {
                Some(x) => {
                    self.push_unchecked(x);
                    proof {
                        assert(self@ + p.remaining() =~= old(self)@ + rem0);
                    }
                },
                None => {
                    proof {
                        assert(self@ =~= old(self)@ + rem0);
                    }
                    break;
                },
            }
        }
        proof {
            assert(self@ + p.remaining() =~= self@);
        }
    }

    /// Shrinks the storage to exactly the live prefix; afterwards
    /// `capacity == length`, so a second call changes nothing.
    pub fn shrink_to_fit(&mut self)
        requires
            old(self).wf(),
        ensures
            final(self).wf(),
            final(self)@ == old(self)@,
            final(self).spec_cap() == old(self)@.len(),
    {
        let target = self.len;
        self.realloc_to_desired_cap(target);
    }

    /// Consumes the array and hands the live prefix over as a boxed slice,
    /// moving every live element out and releasing the spare slots.
    pub fn into_box_slice(self) -> (r: Box<[T]>)
        requires
            self.wf(),
        ensures
            r@ == self@,
    {
        let mut this = self;
        this.items.truncate(this.len);
        let mut out: std::vec::Vec<T> = std::vec::Vec::new();
        while this.items.len() > 0
            invariant
                out@.len() + this.items@.len() == self@.len(),
                out@ == self@.take(out@.len() as int),
                forall|i: int|
                    0 <= i < this.items@.len() ==> (#[trigger] this.items@[i]) is Some
                        && this.items@[i].unwrap() == self@[out@.len() + i],
            decreases this.items@.len(),
        {
            let x = this.items.remove(0);
            out.push(x.unwrap());
            proof {
                assert(out@ =~= self@.take(out@.len() as int));
            }
        }
        proof {
            assert(out@ =~= self@);
        }
        boxed_from_vec(out)
    }
}

impl<T: Copy> Vec<T> {
    /// The live prefix, copied out in order.
    pub fn as_slice(&self) -> (r: std::vec::Vec<T>)
        requires
            self.wf(),
        ensures
            r@ == self@,
    {
        let mut out: std::vec::Vec<T> = std::vec::Vec::new();
        let mut i: usize = 0;
        while i < self.len
            invariant
                self.wf(),
                i <= self.len,
                out@ == self@.take(i as int),
            decreases self.len - i,
        {
            let x = self.items[i];
            out.push(x.unwrap());
            i = i + 1;
            proof {
                assert(out@ =~= self@.take(i as int));
            }
        }
        proof {
            assert(out@ =~= self@);
        }
        out
    }
}

impl<T: Copy> Clone for Vec<T> {
    /// Duplicates the whole block of slots verbatim, spare slots too;
    /// supported only for elements a bitwise copy duplicates correctly.
    fn clone(&self) -> (r: Self)
        ensures
            r@ == self@,
            r.spec_cap() == self.spec_cap(),
            self.wf() ==> r.wf(),
    {
        let mut slots: std::vec::Vec<Option<T>> = std::vec::Vec::new();
        let mut i: usize = 0;
        while i < self.items.len()
            invariant
                i <= self.items@.len(),
                slots@ == self.items@.take(i as int),
            decreases self.items@.len() - i,
        {
            let s = self.items[i];
            slots.push(s);
            i = i + 1;
            proof {
                assert(slots@ =~= self.items@.take(i as int));
            }
        }
        proof {
            assert(slots@ =~= self.items@);
        }
        let r = Vec { items: slots, len: self.len };
        proof {
            assert(r@ =~= self@);
        }
        r
    }
}

/// Relies on `Vec::into_boxed_slice`: the boxed slice holds exactly the
/// vector's elements, in order.
#[verifier::external_body]
fn boxed_from_vec<T>(v: std::vec::Vec<T>) -> (r: Box<[T]>)
    ensures
        r@ == v@,
{
    v.into_boxed_slice()
}

} // verus!
