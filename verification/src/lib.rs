//! A bit-exact codec for the MQTT 3.1.1 wire format, with a framing layer for
//! a byte-stream transport.
//!
//! Every packet type encodes to and decodes from bytes; the contracts tie the
//! executable code to a mathematical description of the wire format in
//! [`wire`], where the round-trip laws are proved.
#![verifier::loop_isolation(false)]
pub mod buffer;
pub mod codec;
pub mod packet;
pub mod qos;
pub mod return_code;
pub mod topic_filter;
pub mod topic_name;
pub mod variable_header;
pub mod wire;

use vstd::prelude::*;
use crate::buffer::{buf_advance, buf_as_slice, bytes_view, string_from_utf8};
use crate::wire::{enc_str, enc_u16, str_sdec, str_wf, u16_sdec, u8_sdec, SpecDec};
use vstd::slice::{slice_subrange, slice_to_vec};

verus! {

/// Why a decode stopped: the buffer ends before the value does (recoverable),
/// or the bytes cannot be a value at all.
#[derive(Clone, Copy, Debug, PartialEq, Eq, Structural)]
pub enum DecodeError {
    NotEnoughBytes,
    Malformed,
}

/// Why an encode was refused: the packet body would not fit the remaining
/// length field, or a string or blob would not fit its two-byte length
/// prefix.
#[derive(Clone, Copy, Debug, PartialEq, Eq, Structural)]
pub enum EncodeError {
    RemainingLengthOutOfRange,
    FieldTooLong,
}

/// A value with a wire form. `wire` is the exact byte sequence `encode`
/// produces, and `wire_wf` says when the value fits the format's limits.
pub trait Encodable {
    spec fn wire(&self) -> Seq<u8>;

    spec fn wire_wf(&self) -> bool;

    fn encode(&self) -> (r: Result<Vec<u8>, EncodeError>)
        ensures
            self.wire_wf() ==> (r matches Ok(v) && v@ == self.wire()),
    ;

    fn encode_length(&self) -> (r: Result<u32, EncodeError>)
        ensures
            self.wire_wf() ==> (r matches Ok(n) && n == self.wire().len()),
    ;
}

impl Encodable for u8 {
    open spec fn wire(&self) -> Seq<u8> {
        seq![*self]
    }

    open spec fn wire_wf(&self) -> bool {
        true
    }

    fn encode(&self) -> (r: Result<Vec<u8>, EncodeError>) {
        let v: Vec<u8> = vec![*self];
        Ok(v)
    }

    fn encode_length(&self) -> (r: Result<u32, EncodeError>) {
        Ok(1)
    }
}

impl Encodable for u16 {
    open spec fn wire(&self) -> Seq<u8> {
        enc_u16(*self)
    }

    open spec fn wire_wf(&self) -> bool {
        true
    }

    fn encode(&self) -> (r: Result<Vec<u8>, EncodeError>) {
        Ok(encode_u16_bytes(*self))
    }

    fn encode_length(&self) -> (r: Result<u32, EncodeError>) {
        Ok(2)
    }
}

impl Encodable for String {
    open spec fn wire(&self) -> Seq<u8> {
        enc_str(self@)
    }

    open spec fn wire_wf(&self) -> bool {
        str_wf(self@)
    }

    fn encode(&self) -> (r: Result<Vec<u8>, EncodeError>) {
        let bs = self.as_str().as_bytes_vec();
        if bs.len() > 0xFFFF {
            return Err(EncodeError::FieldTooLong);
        }
        let mut out = encode_u16_bytes(bs.len() as u16);
        let mut tail = bs;
        out.append(&mut tail);
        proof {
            assert(out@ =~= enc_str(self@));
        }
        Ok(out)
    }

    fn encode_length(&self) -> (r: Result<u32, EncodeError>) {
        let l = self.as_str().len();
        if l > 0xFFFF {
            return Err(EncodeError::FieldTooLong);
        }
        Ok(2 + l as u32)
    }
}

/// The two big-endian bytes of a 16-bit value.
pub fn encode_u16_bytes(v: u16) -> (r: Vec<u8>)
    ensures
        r@ == enc_u16(v),
{
    let hi: u8 = (v / 256) as u8;
    let lo: u8 = (v % 256) as u8;
    let r: Vec<u8> = vec![hi, lo];
    proof {
        assert(r@ =~= enc_u16(v));
    }
    r
}

/// Reads one byte from the front of the buffer.
pub fn decode_u8(b: &mut bytes::BytesMut) -> (r: Result<u8, DecodeError>)
    ensures
        match u8_sdec(bytes_view(*old(b))) {
            SpecDec::Done(v, n) => (r matches Ok(x) && x == v) && bytes_view(*final(b)) == bytes_view(
                *old(b),
            ).skip(n),
            SpecDec::Incomplete => r == Err::<u8, DecodeError>(DecodeError::NotEnoughBytes)
                && bytes_view(*final(b)) == bytes_view(*old(b)),
            SpecDec::Malformed => r == Err::<u8, DecodeError>(DecodeError::Malformed)
                && bytes_view(*final(b)) == bytes_view(*old(b)),
        },
{
    let v: u8;
    {
        let s = buf_as_slice(b);
        if s.len() < 1 {
            return Err(DecodeError::NotEnoughBytes);
        }
        v = s[0];
    }
    buf_advance(b, 1);
    Ok(v)
}

/// Reads a big-endian 16-bit value from the front of the buffer.
pub fn decode_u16(b: &mut bytes::BytesMut) -> (r: Result<u16, DecodeError>)
    ensures
        match u16_sdec(bytes_view(*old(b))) {
            SpecDec::Done(v, n) => (r matches Ok(x) && x == v) && bytes_view(*final(b)) == bytes_view(
                *old(b),
            ).skip(n),
            SpecDec::Incomplete => r == Err::<u16, DecodeError>(DecodeError::NotEnoughBytes)
                && bytes_view(*final(b)) == bytes_view(*old(b)),
            SpecDec::Malformed => r == Err::<u16, DecodeError>(DecodeError::Malformed)
                && bytes_view(*final(b)) == bytes_view(*old(b)),
        },
{
    let v: u16;
    {
        let s = buf_as_slice(b);
        if s.len() < 2 {
            return Err(DecodeError::NotEnoughBytes);
        }
        v = (s[0] as u16) * 256 + (s[1] as u16);
    }
    buf_advance(b, 2);
    Ok(v)
}

/// Reads a length-prefixed UTF-8 string from the front of the buffer.
pub fn decode_string(b: &mut bytes::BytesMut) -> (r: Result<String, DecodeError>)
    ensures
        match str_sdec(bytes_view(*old(b))) {
            SpecDec::Done(v, n) => (r matches Ok(s) && s@ == v) && bytes_view(*final(b)) == bytes_view(
                *old(b),
            ).skip(n),
            SpecDec::Incomplete => (r matches Err(e) && e == DecodeError::NotEnoughBytes)
                && bytes_view(*final(b)) == bytes_view(*old(b)),
            SpecDec::Malformed => (r matches Err(e) && e == DecodeError::Malformed) && bytes_view(
                *final(b),
            ) == bytes_view(*old(b)),
        },
{
    let l: usize;
    let v: Vec<u8>;
    {
        let s = buf_as_slice(b);
        if s.len() < 2 {
            return Err(DecodeError::NotEnoughBytes);
        }
        l = (s[0] as usize) * 256 + (s[1] as usize);
        if s.len() < 2 + l {
            return Err(DecodeError::NotEnoughBytes);
        }
        v = slice_to_vec(slice_subrange(s, 2, 2 + l));
    }
    match string_from_utf8(v) {
        Some(st) => {
            buf_advance(b, 2 + l);
            Ok(st)
        },
        None => Err(DecodeError::Malformed),
    }
}

} // verus!
