//! The growable byte buffer that frames are read from and written to.

use tokio_util::bytes::Buf;
use tokio_util::bytes::BytesMut;
use vstd::prelude::*;

verus! {

/// `bytes::BytesMut`, as `tokio_util` hands it on: a growable byte buffer,
/// known here only by the bytes it holds.
#[verifier::external_type_specification]
#[verifier::external_body]
pub struct ExBytesMut(BytesMut);

/// The bytes that a buffer holds, first to last.
pub uninterp spec fn buffered(buf: BytesMut) -> Seq<u8>;

/// Calls `BytesMut::len`: the number of bytes held.
#[verifier::external_body]
pub(crate) fn buffer_len(buf: &BytesMut) -> (len: usize)
    ensures
        len == buffered(*buf).len(),
{
    buf.len()
}

/// Calls `AsRef::<[u8]>::as_ref` on a `BytesMut`: the held bytes as a
/// slice.
#[verifier::external_body]
pub(crate) fn buffer_bytes(buf: &BytesMut) -> (bytes: &[u8])
    ensures
        bytes@ == buffered(*buf),
{
    buf.as_ref()
}

/// Calls `Buf::advance` on a `BytesMut`: drops the first `count` bytes and
/// keeps the rest. The outside function panics where `count` exceeds the
/// length.
#[verifier::external_body]
pub(crate) fn buffer_advance(buf: &mut BytesMut, count: usize)
    requires
        count <= buffered(*old(buf)).len(),
    ensures
        buffered(*final(buf)) == buffered(*old(buf)).subrange(
            count as int,
            buffered(*old(buf)).len() as int,
        ),
{
    buf.advance(count)
}

/// Calls `BytesMut::reserve`: makes room for `additional` more bytes and
/// leaves the held bytes as they are. The outside function panics where the
/// new capacity overflows.
#[verifier::external_body]
pub(crate) fn buffer_reserve(buf: &mut BytesMut, additional: usize)
    requires
        buffered(*old(buf)).len() + additional <= isize::MAX,
    ensures
        buffered(*final(buf)) == buffered(*old(buf)),
{
    buf.reserve(additional)
}

/// Calls `BytesMut::extend_from_slice`: appends `bytes` after the held
/// bytes. The outside function panics where the new capacity overflows.
#[verifier::external_body]
pub(crate) fn buffer_extend(buf: &mut BytesMut, bytes: &[u8])
    requires
        buffered(*old(buf)).len() + bytes@.len() <= isize::MAX,
    ensures
        buffered(*final(buf)) == buffered(*old(buf)) + bytes@,
{
    buf.extend_from_slice(bytes)
}

} // verus!
