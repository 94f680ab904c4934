//! The set itself: a `Vob` and the operations that read and change it.

use crate::bits::{
    cleared, fit_len, inserted, lemma_fit_len, lemma_members_bounded, lemma_members_cleared,
    lemma_members_inserted, lemma_members_removed, lemma_members_reserved, lemma_members_shrunk,
    members, removed, reserved, shrunk, zeros,
};
use crate::storage::{
    vob_bits, vob_clear, vob_count_set_bits, vob_from_elem, vob_get, vob_len, vob_new, vob_resize,
    vob_set, vob_shrink_to_fit,
};
use vob::Vob;
use vstd::prelude::*;

verus! {

/// A set of `usize` values, held as a vector of bits: `i` is a member exactly
/// when bit `i` is set. The number of bits is the set's capacity; values at or
/// beyond it are simply not members.
pub struct Sob {
    vob: Vob<usize>,
}

impl View for Sob {
    type V = Set<nat>;

    /// The members.
    open spec fn view(&self) -> Set<nat> {
        members(self.storage())
    }
}

impl Sob {
    /// The bits of the backing vector, in order.
    pub closed spec fn storage(&self) -> Seq<bool> {
        vob_bits(self.vob)
    }

    /// The number of addressable bits.
    pub open spec fn spec_capacity(&self) -> nat {
        self.storage().len()
    }

    /// Every member lies below the capacity, so the set is finite and holds
    /// at most `capacity` values.
    pub proof fn lemma_bounded(&self)
        ensures
            self@.finite(),
            self@.len() <= self.spec_capacity(),
            forall|v: nat| self@.contains(v) ==> v < self.spec_capacity(),
    {
        lemma_members_bounded(self.storage());
    }

    /// An empty set with no capacity.
    pub fn new() -> (s: Sob)
        ensures
            s.storage() == Seq::<bool>::empty(),
            s@ == Set::<nat>::empty(),
            s.spec_capacity() == 0,
    {
        let s = Sob { vob: vob_new() };
        assert(s@ =~= Set::<nat>::empty());
        s
    }

    /// An empty set that addresses the values below `len`.
    pub fn with_capacity(len: usize) -> (s: Sob)
        ensures
            s.storage() == zeros(len as nat),
            s@ == Set::<nat>::empty(),
            s.spec_capacity() == len,
    {
        let vob = vob_from_elem(len, false);
        let s = Sob::from_vob(vob);
        assert(s.storage() =~= zeros(len as nat));
        assert(s@ =~= Set::<nat>::empty());
        s
    }

    /// The set that `x` stands for: its set bits are the members. The vector
    /// is taken over as it is.
    pub fn from_vob(x: Vob<usize>) -> (s: Sob)
        ensures
            s.storage() == vob_bits(x),
    {
        Sob { vob: x }
    }

    /// The number of addressable bits: not the number of members.
    pub fn capacity(&self) -> (n: usize)
        ensures
            n == self.spec_capacity(),
    {
        vob_len(&self.vob)
    }

    /// Makes the capacity at least `len`. Nothing happens when it already is;
    /// otherwise the storage grows by exactly `len - capacity` unset bits.
    /// The capacity never shrinks and the members stay the same.
    pub fn reserve_len(&mut self, len: usize)
        ensures
            final(self).storage() == reserved(old(self).storage(), len as nat),
            final(self)@ == old(self)@,
            final(self).spec_capacity() >= old(self).spec_capacity(),
            final(self).spec_capacity() == (if len <= old(self).spec_capacity() {
                old(self).spec_capacity()
            } else {
                len as nat
            }),
            len <= old(self).spec_capacity() ==> final(self).storage() == old(self).storage(),
    {
        proof {
            lemma_members_reserved(self.storage(), len as nat);
        }
        let cur_len: usize = vob_len(&self.vob);
        if len > cur_len {
            vob_resize(&mut self.vob, len, false);
            assert(self.storage() =~= reserved(old(self).storage(), len as nat));
        }
    }

    /// Gives the backing vector to the caller.
    pub fn into_vob(self) -> (v: Vob<usize>)
        ensures
            vob_bits(v) == self.storage(),
    {
        self.vob
    }

    /// The bit at `index`, or `None` at or beyond the capacity.
    pub fn get(self, index: usize) -> (r: Option<bool>)
        ensures
            r == (if index < self.spec_capacity() {
                Some(self.storage()[index as int])
            } else {
                None
            }),
            r == Some(true) <==> self@.contains(index as nat),
    {
        vob_get(&self.vob, index)
    }

    /// A shared view of the backing vector.
    pub fn get_ref(&self) -> (v: &Vob<usize>)
        ensures
            vob_bits(*v) == self.storage(),
    {
        &self.vob
    }

    /// One more than the highest member, or 0 for the empty set.
    fn fitting_len(&self) -> (n: usize)
        ensures
            n == fit_len(self.storage()),
    {
        let mut n: usize = vob_len(&self.vob);
        assert(self.storage().take(n as int) =~= self.storage());
        while n > 0
            invariant
                n <= self.storage().len(),
                fit_len(self.storage()) == fit_len(self.storage().take(n as int)),
            decreases n,
        {
            if self.contains(&(n - 1)) {
                return n;
            }
            assert(self.storage().take(n as int).drop_last() =~= self.storage().take(n - 1));
            n = n - 1;
        }
        n
    }

    /// Cuts the storage down to the least length that still addresses every
    /// member (to nothing for the empty set) and gives spare memory back.
    /// The members stay the same.
    pub fn shrink_to_fit(&mut self)
        ensures
            final(self).storage() == shrunk(old(self).storage()),
            final(self)@ == old(self)@,
            final(self).spec_capacity() == fit_len(old(self).storage()),
            final(self).spec_capacity() <= old(self).spec_capacity(),
            final(self)@ == Set::<nat>::empty() <==> final(self).spec_capacity() == 0,
    {
        proof {
            lemma_members_shrunk(self.storage());
            lemma_fit_len(self.storage());
        }
        let n: usize = self.fitting_len();
        vob_resize(&mut self.vob, n, false);
        vob_shrink_to_fit(&mut self.vob);
    }

    /// The number of members. It is counted from the bits at each call.
    pub fn len(&self) -> (n: usize)
        ensures
            n == self@.len(),
            n <= self.spec_capacity(),
    {
        proof {
            lemma_members_bounded(self.storage());
        }
        vob_count_set_bits(&self.vob)
    }

    /// Whether the set has no member.
    pub fn is_empty(&self) -> (r: bool)
        ensures
            r == (self@.len() == 0),
            r == (self@ == Set::<nat>::empty()),
    {
        proof {
            lemma_members_bounded(self.storage());
            vstd::set_lib::lemma_set_empty_equivalency_len(self@);
        }
        vob_count_set_bits(&self.vob) == 0
    }

    /// Takes every member out. The capacity stays as it is.
    pub fn clear(&mut self)
        ensures
            final(self).storage() == cleared(old(self).storage()),
            final(self)@ == Set::<nat>::empty(),
            final(self)@.len() == 0,
            final(self).spec_capacity() == old(self).spec_capacity(),
    {
        proof {
            lemma_members_cleared(self.storage());
        }
        let len: usize = vob_len(&self.vob);
        vob_clear(&mut self.vob);
        vob_resize(&mut self.vob, len, false);
        assert(self.storage() =~= cleared(old(self).storage()));
    }

    /// Whether `value` is a member. A value at or beyond the capacity is not.
    pub fn contains(&self, value: &usize) -> (r: bool)
        ensures
            r == self@.contains(*value as nat),
            r == (*value < self.spec_capacity() && self.storage()[*value as int]),
            *value >= self.spec_capacity() ==> !r,
    {
        match vob_get(&self.vob, *value) {
            Some(bit) => bit,
            None => false,
        }
    }

    /// Adds `value`. Returns `false` and changes nothing when it is a member
    /// already; otherwise grows the storage by exactly the shortfall, if
    /// `value` is not yet addressable, sets its bit and returns `true`.
    pub fn insert(&mut self, value: usize) -> (r: bool)
        requires
            value < usize::MAX,
        ensures
            r == !old(self)@.contains(value as nat),
            final(self).storage() == inserted(old(self).storage(), value as nat),
            final(self)@ == old(self)@.insert(value as nat),
            final(self).spec_capacity() == (if value < old(self).spec_capacity() {
                old(self).spec_capacity()
            } else {
                (value + 1) as nat
            }),
            final(self)@.len() == old(self)@.len() + (if r { 1nat } else { 0nat }),
    {
        proof {
            lemma_members_inserted(self.storage(), value as nat);
            lemma_members_bounded(self.storage());
        }
        if self.contains(&value) {
            return false;
        }
        let len: usize = vob_len(&self.vob);
        if value >= len {
            vob_resize(&mut self.vob, value + 1, false);
        }
        vob_set(&mut self.vob, value, true);
        assert(self.storage() =~= inserted(old(self).storage(), value as nat));
        true
    }

    /// Takes `value` out. Returns `false` and changes nothing when it is not
    /// a member, which holds of every value at or beyond the capacity;
    /// otherwise unsets its bit and returns `true`. The capacity stays as it
    /// is.
    pub fn remove(&mut self, value: &usize) -> (r: bool)
        ensures
            r == old(self)@.contains(*value as nat),
            final(self).storage() == removed(old(self).storage(), *value as nat),
            final(self)@ == old(self)@.remove(*value as nat),
            final(self).spec_capacity() == old(self).spec_capacity(),
            final(self)@.len() == old(self)@.len() - (if r { 1nat } else { 0nat }),
    {
        proof {
            lemma_members_removed(self.storage(), *value as nat);
            lemma_members_bounded(self.storage());
        }
        if !self.contains(value) {
            return false;
        }
        vob_set(&mut self.vob, *value, false);
        true
    }
}

} // verus!
