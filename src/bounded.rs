//! The fixed-capacity containers of the `arrayvec` crate, as this library uses them.
use arrayvec::{ArrayString, ArrayVec, CapacityError};
use vstd::prelude::*;

verus! {

#[verifier::external_type_specification]
#[verifier::external_body]
#[verifier::reject_recursive_types(T)]
pub struct ExArrayVec<T, const CAP: usize>(ArrayVec<T, CAP>);

#[verifier::external_type_specification]
#[verifier::external_body]
pub struct ExArrayString<const CAP: usize>(ArrayString<CAP>);

#[verifier::external_type_specification]
#[verifier::external_body]
#[verifier::reject_recursive_types(T)]
pub struct ExCapacityError<T>(CapacityError<T>);

/// The `(amount, input index)` pairs held by an amount list, in order of insertion.
pub uninterp spec fn amount_entries(v: ArrayVec<(u64, u32), 8>) -> Seq<(u64, u32)>;

/// The components held by a derivation path, in order.
pub uninterp spec fn path_components(v: ArrayVec<u32, 10>) -> Seq<u32>;

/// The characters held by a fraction text, in order.
pub uninterp spec fn fraction_chars(s: ArrayString<12>) -> Seq<char>;

/// Relies on `ArrayVec::new`: an empty vector.
#[verifier::external_body]
pub(crate) fn amounts_new() -> (r: ArrayVec<(u64, u32), 8>)
    ensures
        amount_entries(r) == Seq::<(u64, u32)>::empty(),
{
    ArrayVec::new()
}

/// Relies on `ArrayVec::try_push`: appends when the length is under the capacity,
/// and otherwise fails and leaves the vector as it was.
#[verifier::external_body]
pub(crate) fn amounts_try_push(v: &mut ArrayVec<(u64, u32), 8>, e: (u64, u32)) -> (r: Result<
    (),
    CapacityError<(u64, u32)>,
>)
    ensures
        amount_entries(*old(v)).len() < 8 ==> r is Ok && amount_entries(*final(v)) == amount_entries(
            *old(v),
        ).push(e),
        amount_entries(*old(v)).len() >= 8 ==> r is Err && amount_entries(*final(v))
            == amount_entries(*old(v)),
{
    v.try_push(e)
}

/// Relies on `ArrayVec::len`: the number of elements held, never over the capacity.
#[verifier::external_body]
pub(crate) fn amounts_len(v: &ArrayVec<(u64, u32), 8>) -> (r: usize)
    ensures
        r == amount_entries(*v).len(),
        r <= 8,
{
    v.len()
}

/// Relies on indexing the slice of `ArrayVec::as_slice`: the element at `i`.
#[verifier::external_body]
pub(crate) fn amounts_get(v: &ArrayVec<(u64, u32), 8>, i: usize) -> (r: (u64, u32))
    requires
        i < amount_entries(*v).len(),
    ensures
        r == amount_entries(*v)[i as int],
{
    v.as_slice()[i]
}

/// Relies on `ArrayVec::new`: an empty vector.
#[verifier::external_body]
pub(crate) fn path_new() -> (r: ArrayVec<u32, 10>)
    ensures
        path_components(r) == Seq::<u32>::empty(),
{
    ArrayVec::new()
}

/// Relies on `ArrayVec::try_push`: appends when the length is under the capacity,
/// and otherwise fails and leaves the vector as it was.
#[verifier::external_body]
pub(crate) fn path_try_push(v: &mut ArrayVec<u32, 10>, c: u32) -> (r: Result<
    (),
    CapacityError<u32>,
>)
    ensures
        path_components(*old(v)).len() < 10 ==> r is Ok && path_components(*final(v))
            == path_components(*old(v)).push(c),
        path_components(*old(v)).len() >= 10 ==> r is Err && path_components(*final(v))
            == path_components(*old(v)),
{
    v.try_push(c)
}

/// Relies on `ArrayVec::as_slice`: the components held, in order.
#[verifier::external_body]
pub(crate) fn path_as_slice(v: &ArrayVec<u32, 10>) -> (r: &[u32])
    ensures
        r@ == path_components(*v),
{
    v.as_slice()
}

/// Relies on `ArrayString::new`: an empty string.
#[verifier::external_body]
pub(crate) fn fraction_new() -> (r: ArrayString<12>)
    ensures
        fraction_chars(r) == Seq::<char>::empty(),
{
    ArrayString::new()
}

/// Relies on `ArrayString::try_push`: an ASCII character takes one byte, so it is
/// appended while fewer than twelve ASCII characters are held.
#[verifier::external_body]
pub(crate) fn fraction_try_push(s: &mut ArrayString<12>, c: char) -> (r: Result<
    (),
    CapacityError<char>,
>)
    requires
        (c as u32) < 128,
        forall|i: int|
            0 <= i < fraction_chars(*old(s)).len() ==> (fraction_chars(*old(s))[i] as u32) < 128,
    ensures
        fraction_chars(*old(s)).len() < 12 ==> r is Ok && fraction_chars(*final(s))
            == fraction_chars(*old(s)).push(c),
        fraction_chars(*old(s)).len() >= 12 ==> r is Err && fraction_chars(*final(s))
            == fraction_chars(*old(s)),
{
    s.try_push(c)
}

} // verus!
