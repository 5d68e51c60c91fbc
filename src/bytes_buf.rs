//! The growable byte buffer of the `bytes` crate, as the frame reader uses it.

use bytes::BytesMut;
use vstd::prelude::*;

verus! {

#[verifier::external_type_specification]
#[verifier::external_body]
pub struct ExBytesMut(BytesMut);

/// The bytes a `BytesMut` holds, front first.
pub uninterp spec fn buffered(b: BytesMut) -> Seq<u8>;

/// Relies on `BytesMut::new`: a buffer of length 0.
pub assume_specification[ BytesMut::new ]() -> (r: BytesMut)
    ensures
        buffered(r) == Seq::<u8>::empty(),
;

/// Relies on `BytesMut::len`: the number of bytes held.
pub assume_specification[ BytesMut::len ](b: &BytesMut) -> (r: usize)
    ensures
        r == buffered(*b).len(),
;

/// Relies on `BytesMut::extend_from_slice`: appends the slice; it panics only
/// when the new length overflows `usize`.
pub assume_specification[ BytesMut::extend_from_slice ](b: &mut BytesMut, extend: &[u8])
    requires
        buffered(*old(b)).len() + extend@.len() <= usize::MAX,
    ensures
        buffered(*final(b)) == buffered(*old(b)) + extend@,
;

/// Relies on `BytesMut::split_to`: the result holds `[0, at)`, the buffer
/// keeps `[at, len)`; it panics when `at > len`.
pub assume_specification[ BytesMut::split_to ](b: &mut BytesMut, at: usize) -> (r: BytesMut)
    requires
        at <= buffered(*old(b)).len(),
    ensures
        buffered(r) == buffered(*old(b)).take(at as int),
        buffered(*final(b)) == buffered(*old(b)).skip(at as int),
;

/// Relies on `BytesMut`'s `AsRef<[u8]>`: a view of exactly the bytes held.
#[verifier::external_body]
pub(crate) fn buffered_slice(b: &BytesMut) -> (r: &[u8])
    ensures
        r@ == buffered(*b),
{
    b.as_ref()
}

} // verus!
