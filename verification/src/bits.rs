//! The mathematical model: a bit vector is a `Seq<bool>`, and the set it
//! stands for is the set of the indices whose bit is set. Every operation of
//! the set is a function from bit vectors to bit vectors, defined here, and
//! the lemmas say what each does to the set of members.

use vstd::prelude::*;

verus! {

/// The set that `bits` stands for: the indices whose bit is set.
pub open spec fn members(bits: Seq<bool>) -> Set<nat> {
    Set::new(|i: nat| i < bits.len() && bits[i as int])
}

/// `n` unset bits.
pub open spec fn zeros(n: nat) -> Seq<bool> {
    Seq::new(n, |i: int| false)
}

/// `bits` made at least `n` long: left as it is when it already is that long,
/// and otherwise extended by exactly `n - bits.len()` unset bits.
pub open spec fn reserved(bits: Seq<bool>, n: nat) -> Seq<bool> {
    if n <= bits.len() {
        bits
    } else {
        bits + zeros((n - bits.len()) as nat)
    }
}

/// `bits` with bit `v` set, grown first by exactly the shortfall when `v` is
/// not yet addressable.
pub open spec fn inserted(bits: Seq<bool>, v: nat) -> Seq<bool> {
    reserved(bits, v + 1).update(v as int, true)
}

/// `bits` with bit `v` unset. The length never changes.
pub open spec fn removed(bits: Seq<bool>, v: nat) -> Seq<bool> {
    if v < bits.len() {
        bits.update(v as int, false)
    } else {
        bits
    }
}

/// As many bits as `bits` has, all unset.
pub open spec fn cleared(bits: Seq<bool>) -> Seq<bool> {
    zeros(bits.len())
}

/// The least length that still addresses every set bit of `bits`: one more
/// than the highest set index, or 0 when no bit is set.
pub open spec fn fit_len(bits: Seq<bool>) -> nat
    decreases bits.len(),
{
    if bits.len() == 0 {
        0
    } else if bits.last() {
        bits.len()
    } else {
        fit_len(bits.drop_last())
    }
}

/// `bits` cut down to `fit_len(bits)`.
pub open spec fn shrunk(bits: Seq<bool>) -> Seq<bool> {
    bits.take(fit_len(bits) as int)
}

/// Every member is addressable, and a bit vector has at most as many members
/// as it has bits: the set is finite.
pub proof fn lemma_members_bounded(bits: Seq<bool>)
    ensures
        members(bits).finite(),
        members(bits).len() <= bits.len(),
        forall|i: nat| members(bits).contains(i) ==> i < bits.len(),
    decreases bits.len(),
{
    if bits.len() == 0 {
        assert(members(bits) =~= Set::empty());
    } else {
        let init = bits.drop_last();
        let top = (bits.len() - 1) as nat;
        lemma_members_bounded(init);
        if bits.last() {
            assert(members(bits) =~= members(init).insert(top));
        } else {
            assert(members(bits) =~= members(init));
        }
    }
}

/// Growing a bit vector by unset bits adds no member and loses none.
pub proof fn lemma_members_reserved(bits: Seq<bool>, n: nat)
    ensures
        members(reserved(bits, n)) == members(bits),
        reserved(bits, n).len() == if n <= bits.len() { bits.len() } else { n },
{
    assert(members(reserved(bits, n)) =~= members(bits));
}

/// Setting bit `v` adds `v` to the members and changes nothing else.
pub proof fn lemma_members_inserted(bits: Seq<bool>, v: nat)
    ensures
        members(inserted(bits, v)) == members(bits).insert(v),
        inserted(bits, v).len() == if v < bits.len() { bits.len() } else { v + 1 },
        members(bits).contains(v) ==> inserted(bits, v) == bits,
{
    assert(members(inserted(bits, v)) =~= members(bits).insert(v));
    if members(bits).contains(v) {
        assert(inserted(bits, v) =~= bits);
    }
}

/// Unsetting bit `v` takes `v` out of the members and changes nothing else.
pub proof fn lemma_members_removed(bits: Seq<bool>, v: nat)
    ensures
        members(removed(bits, v)) == members(bits).remove(v),
        removed(bits, v).len() == bits.len(),
        !members(bits).contains(v) ==> removed(bits, v) == bits,
{
    assert(members(removed(bits, v)) =~= members(bits).remove(v));
    if !members(bits).contains(v) {
        assert(removed(bits, v) =~= bits);
    }
}

/// A cleared bit vector has no member and its old length.
pub proof fn lemma_members_cleared(bits: Seq<bool>)
    ensures
        members(cleared(bits)) == Set::<nat>::empty(),
        cleared(bits).len() == bits.len(),
{
    assert(members(cleared(bits)) =~= Set::<nat>::empty());
}

/// What `fit_len` is: no longer than the vector, beyond every set bit, and
/// either 0 or one more than the index of a set bit; no other length is all
/// three. It is 0 exactly when no bit is set.
pub proof fn lemma_fit_len(bits: Seq<bool>)
    ensures
        fit_len(bits) <= bits.len(),
        forall|i: nat| members(bits).contains(i) ==> i < fit_len(bits),
        fit_len(bits) == 0 || bits[fit_len(bits) - 1],
        fit_len(bits) == 0 <==> members(bits) == Set::<nat>::empty(),
    decreases bits.len(),
{
    if bits.len() == 0 {
        assert(members(bits) =~= Set::<nat>::empty());
    } else if bits.last() {
        assert(members(bits).contains((bits.len() - 1) as nat));
    } else {
        let init = bits.drop_last();
        lemma_fit_len(init);
        assert(members(bits) =~= members(init));
        if fit_len(init) > 0 {
            assert(bits[fit_len(init) - 1] == init[fit_len(init) - 1]);
        }
    }
}

/// Cutting a bit vector down to `fit_len` keeps every member and adds none.
pub proof fn lemma_members_shrunk(bits: Seq<bool>)
    ensures
        members(shrunk(bits)) == members(bits),
        shrunk(bits).len() == fit_len(bits),
        shrunk(bits).len() <= bits.len(),
{
    lemma_fit_len(bits);
    assert(members(shrunk(bits)) =~= members(bits));
}

} // verus!
