//! Length-prefixed opaque byte blobs, as carried by the will message of a
//! CONNECT packet.
use vstd::prelude::*;
use crate::buffer::{buf_advance, buf_as_slice, bytes_view};
use crate::wire::{blob_sdec, blob_wf, enc_blob, SpecDec};
use crate::{encode_u16_bytes, DecodeError, Encodable, EncodeError};
use vstd::slice::{slice_subrange, slice_to_vec};

verus! {

/// A blob framed like a string — two-byte big-endian length, then that many
/// bytes — but with uninterpreted content.
#[derive(Debug)]
pub struct VecBytes(pub Vec<u8>);

impl VecBytes {
    pub fn decode(b: &mut bytes::BytesMut) -> (r: Result<VecBytes, DecodeError>)
        ensures
            match blob_sdec(bytes_view(*old(b))) {
                SpecDec::Done(v, n) => (r matches Ok(w) && w.0@ == v) && bytes_view(*final(b))
                    == bytes_view(*old(b)).skip(n),
                _ => (r matches Err(e) && e == DecodeError::NotEnoughBytes) && bytes_view(
                    *final(b),
                ) == bytes_view(*old(b)),
            },
    {
        let l: usize;
        let v: Vec<u8>;
        {
            let s = buf_as_slice(b);
            if s.len() < 2 {
                return Err(DecodeError::NotEnoughBytes);
            }
            l = (s[0] as usize) * 256 + (s[1] as usize);
            if s.len() < 2 + l {
                return Err(DecodeError::NotEnoughBytes);
            }
            v = slice_to_vec(slice_subrange(s, 2, 2 + l));
        }
        buf_advance(b, 2 + l);
        Ok(VecBytes(v))
    }
}

impl Encodable for VecBytes {
    open spec fn wire(&self) -> Seq<u8> {
        enc_blob(self.0@)
    }

    open spec fn wire_wf(&self) -> bool {
        blob_wf(self.0@)
    }

    fn encode(&self) -> (r: Result<Vec<u8>, EncodeError>) {
        if self.0.len() > 0xFFFF {
            return Err(EncodeError::FieldTooLong);
        }
        let mut out = encode_u16_bytes(self.0.len() as u16);
        let mut tail: Vec<u8> = slice_to_vec(self.0.as_slice());
        out.append(&mut tail);
        proof {
            assert(out@ =~= enc_blob(self.0@));
        }
        Ok(out)
    }

    fn encode_length(&self) -> (r: Result<u32, EncodeError>) {
        if self.0.len() > 0xFFFF {
            return Err(EncodeError::FieldTooLong);
        }
        Ok(2 + self.0.len() as u32)
    }
}

} // verus!
