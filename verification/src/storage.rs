//! The boundary to the `vob` crate. Nothing in this file is proved: each
//! contract restates what the source of `vob` shows of one method, in terms
//! of the sequence of bits that a `Vob` holds.

use crate::bits::members;
use vob::Vob;
use vstd::prelude::*;

verus! {

/// `vob::Vob`, a vector of bits. A value of it is opaque here: what it holds
/// is known only through `vob_bits`.
#[verifier::external_type_specification]
#[verifier::external_body]
#[verifier::reject_recursive_types(T)]
pub struct ExVob<T>(Vob<T>);

/// The bits that a `Vob` holds, from index 0 up to its length.
pub uninterp spec fn vob_bits(v: Vob<usize>) -> Seq<bool>;

/// `Vob::new`: a vector of length 0.
#[verifier::external_body]
pub(crate) fn vob_new() -> (v: Vob<usize>)
    ensures
        vob_bits(v) == Seq::<bool>::empty(),
{
    Vob::new()
}

/// `Vob::len`: the number of bits held.
#[verifier::external_body]
pub(crate) fn vob_len(v: &Vob<usize>) -> (n: usize)
    ensures
        n == vob_bits(*v).len(),
{
    v.len()
}

/// `Vob::from_elem`: `len` bits, each of them `value`.
#[verifier::external_body]
pub(crate) fn vob_from_elem(len: usize, value: bool) -> (v: Vob<usize>)
    ensures
        vob_bits(v) == Seq::new(len as nat, |i: int| value),
{
    Vob::from_elem(len, value)
}

/// `Vob::get`: the bit at `index`, or `None` at or beyond the length.
#[verifier::external_body]
pub(crate) fn vob_get(v: &Vob<usize>, index: usize) -> (r: Option<bool>)
    ensures
        r == (if index < vob_bits(*v).len() {
            Some(vob_bits(*v)[index as int])
        } else {
            None
        }),
{
    v.get(index)
}

/// `Vob::set`: bit `index` becomes `value` and no other bit changes; the
/// result tells whether the bit was different before. `set` panics at or
/// beyond the length, which the precondition leaves out.
#[verifier::external_body]
pub(crate) fn vob_set(v: &mut Vob<usize>, index: usize, value: bool) -> (changed: bool)
    requires
        index < vob_bits(*old(v)).len(),
    ensures
        vob_bits(*final(v)) == vob_bits(*old(v)).update(index as int, value),
        changed == (vob_bits(*old(v))[index as int] != value),
{
    v.set(index, value)
}

/// `Vob::resize`: the length becomes `new_len`. A shorter or equal length
/// keeps the first `new_len` bits; a longer one keeps every bit and appends
/// `value` in the new places. Only `value == false` is admitted: when asked to
/// grow with set bits, `resize` reads one block past the end of its storage
/// if the old length is a positive whole number of blocks, and panics.
#[verifier::external_body]
pub(crate) fn vob_resize(v: &mut Vob<usize>, new_len: usize, value: bool)
    requires
        !value,
    ensures
        vob_bits(*final(v)) == (if new_len <= vob_bits(*old(v)).len() {
            vob_bits(*old(v)).take(new_len as int)
        } else {
            vob_bits(*old(v)) + Seq::new(
                (new_len - vob_bits(*old(v)).len()) as nat,
                |i: int| value,
            )
        }),
{
    v.resize(new_len, value)
}

/// `Vob::shrink_to_fit`: gives spare memory back; the bits stay as they are.
#[verifier::external_body]
pub(crate) fn vob_shrink_to_fit(v: &mut Vob<usize>)
    ensures
        vob_bits(*final(v)) == vob_bits(*old(v)),
{
    v.shrink_to_fit()
}

/// `Vob::clear`: the length becomes 0.
#[verifier::external_body]
pub(crate) fn vob_clear(v: &mut Vob<usize>)
    ensures
        vob_bits(*final(v)) == Seq::<bool>::empty(),
{
    v.clear()
}

/// `Iterator::count` on `Vob::iter_set_bits(..)`: the iterator yields each
/// index below the length whose bit is set, once, so the count is the number
/// of such indices.
#[verifier::external_body]
pub(crate) fn vob_count_set_bits(v: &Vob<usize>) -> (n: usize)
    ensures
        n == members(vob_bits(*v)).len(),
{
    v.iter_set_bits(..).count()
}

} // verus!
