//! What holds of the operations taken together. Each law is stated over the
//! model that the contracts of `Sob` use: the bits before an operation, the
//! bits after it, and the members that the bits stand for.

use crate::bits::{
    cleared, inserted, lemma_members_bounded, lemma_members_cleared, lemma_members_inserted,
    lemma_members_removed, members, removed,
};
use vstd::prelude::*;

verus! {

/// One change to the set.
pub enum Op {
    Insert(nat),
    Remove(nat),
    Clear,
}

/// The bits after `op`.
pub open spec fn apply(bits: Seq<bool>, op: Op) -> Seq<bool> {
    match op {
        Op::Insert(v) => inserted(bits, v),
        Op::Remove(v) => removed(bits, v),
        Op::Clear => cleared(bits),
    }
}

/// The bits after the operations `ops`, first to last.
pub open spec fn replay(bits: Seq<bool>, ops: Seq<Op>) -> Seq<bool>
    decreases ops.len(),
{
    if ops.len() == 0 {
        bits
    } else {
        apply(replay(bits, ops.drop_last()), ops.last())
    }
}

/// From position `from` on, `ops` neither removes `v` nor clears the set.
pub open spec fn kept_since(ops: Seq<Op>, v: nat, from: int) -> bool {
    forall|j: int| from <= j < ops.len() ==> ops[j] != Op::Remove(v) && ops[j] != Op::Clear
}

/// `v` has been put in and not taken out since: it was in `start` and `ops`
/// never takes it out, or some operation of `ops` inserts it and none after
/// that takes it out.
pub open spec fn present_after(start: Set<nat>, ops: Seq<Op>, v: nat) -> bool {
    ||| start.contains(v) && kept_since(ops, v, 0)
    ||| exists|i: int| 0 <= i < ops.len() && ops[i] == Op::Insert(v) && kept_since(ops, v, i + 1)
}

/// Inserting a value a second time changes nothing: after the first
/// insertion the value is a member, so the second one returns `false`, and
/// it leaves the bits, and with them the members, as the first left them.
pub proof fn law_insert_twice(bits: Seq<bool>, v: nat)
    ensures
        members(inserted(bits, v)).contains(v),
        inserted(inserted(bits, v), v) == inserted(bits, v),
        members(inserted(inserted(bits, v), v)) == members(inserted(bits, v)),
{
    lemma_members_inserted(bits, v);
    lemma_members_inserted(inserted(bits, v), v);
}

/// Removing a value right after inserting it undoes the insertion. When `v`
/// is not a member, inserting it makes it one, so the insertion and the
/// removal that follows both return `true`; afterwards `v` is not a member
/// and the members are those from before the insertion.
pub proof fn law_insert_then_remove(bits: Seq<bool>, v: nat)
    requires
        !members(bits).contains(v),
    ensures
        members(inserted(bits, v)).contains(v),
        !members(removed(inserted(bits, v), v)).contains(v),
        members(removed(inserted(bits, v), v)) == members(bits),
{
    lemma_members_inserted(bits, v);
    lemma_members_removed(inserted(bits, v), v);
    assert(members(bits).insert(v).remove(v) =~= members(bits));
}

/// How one more operation changes whether `v` is present.
proof fn lemma_present_step(start: Set<nat>, ops: Seq<Op>, v: nat)
    requires
        ops.len() > 0,
    ensures
        present_after(start, ops, v) == match ops.last() {
            Op::Insert(w) => w == v || present_after(start, ops.drop_last(), v),
            Op::Remove(w) => w != v && present_after(start, ops.drop_last(), v),
            Op::Clear => false,
        },
{
    let init = ops.drop_last();
    let top = ops.len() - 1;
    let quiet = ops.last() != Op::Remove(v) && ops.last() != Op::Clear;
    assert forall|k: int| 0 <= k <= top implies kept_since(ops, v, k) == (quiet && kept_since(
        init,
        v,
        k,
    )) by {
        if kept_since(ops, v, k) {
            assert(ops[top] != Op::Remove(v) && ops[top] != Op::Clear);
            assert forall|j: int| k <= j < init.len() implies init[j] != Op::Remove(v) && init[j]
                != Op::Clear by {
                assert(init[j] == ops[j]);
            }
        }
        if quiet && kept_since(init, v, k) {
            assert forall|j: int| k <= j < ops.len() implies ops[j] != Op::Remove(v) && ops[j]
                != Op::Clear by {
                if j < top {
                    assert(init[j] == ops[j]);
                }
            }
        }
    }
    assert(kept_since(ops, v, top + 1));
    if present_after(start, init, v) && quiet {
        if !(start.contains(v) && kept_since(init, v, 0)) {
            let i = choose|i: int|
                0 <= i < init.len() && init[i] == Op::Insert(v) && kept_since(init, v, i + 1);
            assert(ops[i] == Op::Insert(v) && kept_since(ops, v, i + 1));
        }
    }
    if ops.last() == Op::Insert(v) {
        assert(ops[top] == Op::Insert(v) && kept_since(ops, v, top + 1));
    }
    if present_after(start, ops, v) && ops.last() != Op::Insert(v) {
        if !(start.contains(v) && kept_since(ops, v, 0)) {
            let i = choose|i: int|
                0 <= i < ops.len() && ops[i] == Op::Insert(v) && kept_since(ops, v, i + 1);
            assert(i < top);
            assert(init[i] == Op::Insert(v) && kept_since(init, v, i + 1));
        }
    }
}

/// After any sequence of insertions, removals and clearings, the members are
/// exactly the values that were put in and not taken out since, and they are
/// finitely many. `Sob::len` returns the cardinality of the members, so it
/// is the number of distinct such values.
pub proof fn law_members_after(bits: Seq<bool>, ops: Seq<Op>)
    ensures
        members(replay(bits, ops)).finite(),
        forall|v: nat|
            members(replay(bits, ops)).contains(v) <==> present_after(members(bits), ops, v),
    decreases ops.len(),
{
    lemma_members_bounded(replay(bits, ops));
    assert forall|v: nat|
        members(replay(bits, ops)).contains(v) <==> present_after(members(bits), ops, v) by {
        if ops.len() == 0 {
            assert(kept_since(ops, v, 0));
        } else {
            let before = replay(bits, ops.drop_last());
            law_members_after(bits, ops.drop_last());
            lemma_present_step(members(bits), ops, v);
            match ops.last() {
                Op::Insert(w) => lemma_members_inserted(before, w),
                Op::Remove(w) => lemma_members_removed(before, w),
                Op::Clear => lemma_members_cleared(before),
            }
        }
    }
}

/// How each operation changes the number of members: an insertion adds one
/// when the value is new, a removal takes one away when the value was a
/// member, a clearing leaves none, and nothing else changes the number.
pub proof fn law_len_step(bits: Seq<bool>, op: Op)
    ensures
        members(apply(bits, op)).len() == match op {
            Op::Insert(v) => members(bits).len() + (if members(bits).contains(v) {
                0nat
            } else {
                1nat
            }),
            Op::Remove(v) => (members(bits).len() - (if members(bits).contains(v) {
                1nat
            } else {
                0nat
            })) as nat,
            Op::Clear => 0nat,
        },
{
    lemma_members_bounded(bits);
    match op {
        Op::Insert(v) => lemma_members_inserted(bits, v),
        Op::Remove(v) => lemma_members_removed(bits, v),
        Op::Clear => lemma_members_cleared(bits),
    }
}

} // verus!
