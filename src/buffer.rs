//! The caller's growable byte buffer, `bytes::BytesMut` (as re-exported by
//! tokio-util), and the few operations the decoder makes on it.
use tokio_util::bytes::Buf;
use tokio_util::bytes::BytesMut;
use vstd::prelude::*;

verus! {

/// The byte buffer type of the `bytes` crate, opaque to proofs.
#[verifier::external_type_specification]
#[verifier::external_body]
pub struct ExBytesMut(BytesMut);

/// The bytes that a buffer holds, front first.
pub uninterp spec fn buffered(b: BytesMut) -> Seq<u8>;

/// Relies on `BytesMut`'s `Deref<Target = [u8]>`: the slice is exactly the
/// buffered bytes.
#[verifier::external_body]
pub(crate) fn buffered_slice(b: &BytesMut) -> (s: &[u8])
    ensures
        s@ == buffered(*b),
{
    &b[..]
}

/// Relies on `BytesMut::split_to`: the first `at` bytes move to the returned
/// buffer and the rest stay. It panics only where `at` exceeds the length.
#[verifier::external_body]
pub(crate) fn buffer_split_to(b: &mut BytesMut, at: usize) -> (front: BytesMut)
    requires
        at <= buffered(*old(b)).len(),
    ensures
        buffered(front) == buffered(*old(b)).take(at as int),
        buffered(*final(b)) == buffered(*old(b)).skip(at as int),
{
    b.split_to(at)
}

/// Relies on `<BytesMut as Buf>::advance`: the first `n` bytes are dropped.
/// It panics only where `n` exceeds the length.
#[verifier::external_body]
pub(crate) fn buffer_advance(b: &mut BytesMut, n: usize)
    requires
        n <= buffered(*old(b)).len(),
    ensures
        buffered(*final(b)) == buffered(*old(b)).skip(n as int),
{
    b.advance(n)
}

/// Relies on `BytesMut::reserve`: only the capacity changes, never the
/// buffered bytes. It panics where the capacity it needs, the length plus
/// `additional`, overflows; `requires` keeps that sum within `isize::MAX`.
#[verifier::external_body]
pub(crate) fn buffer_reserve(b: &mut BytesMut, additional: usize)
    requires
        buffered(*old(b)).len() + additional <= isize::MAX,
    ensures
        buffered(*final(b)) == buffered(*old(b)),
{
    b.reserve(additional)
}

} // verus!
