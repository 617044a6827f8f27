//! A fixed-capacity buffer of four segments, backed by `arrayvec::ArrayVec`.
//! Rotating a tile collects its four rotated segments here before turning
//! them back into an array.
use arrayvec::ArrayVec;
use vstd::prelude::*;

use crate::board::Segment;

verus! {

/// `arrayvec::ArrayVec`, made known to Verus as an opaque type.
#[verifier::external_type_specification]
#[verifier::external_body]
#[verifier::reject_recursive_types(T)]
pub struct ExArrayVec<T, const CAP: usize>(ArrayVec<T, CAP>);

/// The segments held by a four-slot `ArrayVec`, in insertion order.
pub uninterp spec fn segment_buffer_contents(v: ArrayVec<Segment, 4>) -> Seq<Segment>;

/// `ArrayVec::new`: the new buffer holds nothing.
#[verifier::external_body]
pub(crate) fn new_segment_buffer() -> (r: ArrayVec<Segment, 4>)
    ensures
        segment_buffer_contents(r) == Seq::<Segment>::empty(),
{
    ArrayVec::new()
}

/// `ArrayVec::push`: appends `s` at the end. It panics when the buffer is
/// full, so a fifth push is ruled out.
#[verifier::external_body]
pub(crate) fn push_segment(v: &mut ArrayVec<Segment, 4>, s: Segment)
    requires
        segment_buffer_contents(*old(v)).len() < 4,
    ensures
        segment_buffer_contents(*final(v)) == segment_buffer_contents(*old(v)).push(s),
{
    v.push(s)
}

/// `ArrayVec::into_inner`: the backing array when all four slots are
/// filled (`Ok` in the crate), nothing otherwise (`Err`).
#[verifier::external_body]
pub(crate) fn segment_buffer_into_array(v: ArrayVec<Segment, 4>) -> (r: Option<[Segment; 4]>)
    ensures
        r is Some <==> segment_buffer_contents(v).len() == 4,
        r matches Some(a) ==> a@ == segment_buffer_contents(v),
{
    v.into_inner().ok()
}

} // verus!
