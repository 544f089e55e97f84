//! The byte buffer that decoding consumes.
//!
//! Packets arrive in a `bytes::BytesMut` read buffer. The buffer itself is
//! opaque to the verifier, so its contents are named by the uninterpreted
//! function [`bytes_view`], and every operation the codec needs is a small
//! trusted wrapper whose contract states, over that name, what the `bytes`
//! crate's source shows.
use vstd::prelude::*;

verus! {

#[verifier::external_type_specification]
#[verifier::external_body]
pub struct ExBytesMut(bytes::BytesMut);

/// The bytes currently held by a `BytesMut`, in order.
pub uninterp spec fn bytes_view(b: bytes::BytesMut) -> Seq<u8>;

/// Relies on `BytesMut::as_ref` (via `AsRef<[u8]>`): the buffer viewed as a
/// slice of exactly the bytes it holds.
#[verifier::external_body]
pub fn buf_as_slice(b: &bytes::BytesMut) -> (s: &[u8])
    ensures
        s@ == bytes_view(*b),
{
    b.as_ref()
}

/// Relies on `Buf::advance` for `BytesMut`: drops the first `n` bytes and
/// keeps the rest. The source panics when `n` exceeds the length, so that
/// case is excluded.
#[verifier::external_body]
pub fn buf_advance(b: &mut bytes::BytesMut, n: usize)
    requires
        n <= bytes_view(*old(b)).len(),
    ensures
        bytes_view(*final(b)) == bytes_view(*old(b)).skip(n as int),
{
    bytes::Buf::advance(b, n);
}

/// Relies on `BytesMut::extend_from_slice`: appends the given bytes. The
/// source reserves room first and panics only when the needed capacity
/// overflows `isize::MAX`, so that case is excluded.
#[verifier::external_body]
pub fn buf_extend(b: &mut bytes::BytesMut, v: &[u8])
    requires
        bytes_view(*old(b)).len() + v@.len() < 0x8000_0000_0000_0000,
    ensures
        bytes_view(*final(b)) == bytes_view(*old(b)) + v@,
{
    b.extend_from_slice(v);
}

/// Relies on `String::from_utf8`: succeeds exactly on valid UTF-8 input, and
/// the returned string's characters are the decoding of those bytes.
#[verifier::external_body]
pub fn string_from_utf8(v: Vec<u8>) -> (r: Option<String>)
    ensures
        r is Some <==> vstd::utf8::valid_utf8(v@),
        r matches Some(s) ==> s@ == vstd::utf8::decode_utf8(v@),
{
    String::from_utf8(v).ok()
}

} // verus!
