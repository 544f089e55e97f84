//! The fourteen control packets and what they share: the fixed header and the
//! readers for the fields that packet bodies are assembled from.
pub mod connack;
pub mod connect;
pub mod disconnect;
pub mod publish;
pub mod suback;
pub mod subscribe;
pub mod unsubscribe;
pub mod pingreq;
pub mod pingresp;
pub mod puback;
pub mod pubcomp;
pub mod pubrec;
pub mod pubrel;
pub mod unsuback;
pub mod value_packet;

pub use connack::Connack;
pub use connect::Connect;
pub use disconnect::Disconnect;
pub use pingreq::PingReq;
pub use pingresp::PingResp;
pub use puback::PubAck;
pub use pubcomp::PubComp;
pub use publish::Publish;
pub use pubrec::PubRec;
pub use pubrel::PubRel;
pub use suback::SubAck;
pub use subscribe::Subscribe;
pub use unsuback::UnSubAck;
pub use unsubscribe::Unsubscribe;
pub use value_packet::ValuePacket;

use vstd::prelude::*;
use crate::buffer::{buf_as_slice, bytes_view, string_from_utf8};
use crate::wire::{
    blob_field, fh_dec, fh_enc, lemma_vbi_dec_bound, lemma_vbi_enc_len, str_field, u16_of,
    vbi_dec_rec, vbi_enc, vbi_len, SpecDec, VBI_MAX,
};
use crate::{DecodeError, EncodeError};
use vstd::slice::{slice_subrange, slice_to_vec};

verus! {

/// The mandatory leading part of every packet: the type nibble, the flags
/// nibble, and the count of bytes that follow the header.
#[derive(Debug, Clone, Copy, PartialEq, Eq, Structural)]
pub struct FixedHeader {
    pub packet_type: u8,
    pub reserved: u8,
    pub remaining_length: u32,
}

/// Emits the minimal variable-byte encoding of `n`.
pub fn vbi_encode(n: u32) -> (r: Vec<u8>)
    requires
        n <= VBI_MAX,
    ensures
        r@ == vbi_enc(n as int),
    decreases n,
{
    if n < 128 {
        let v: Vec<u8> = vec![n as u8];
        proof {
            assert(v@ =~= vbi_enc(n as int));
        }
        v
    } else {
        let mut v: Vec<u8> = vec![(n % 128 + 128) as u8];
        let mut rest = vbi_encode(n / 128);
        v.append(&mut rest);
        proof {
            assert(v@ =~= vbi_enc(n as int));
        }
        v
    }
}

/// Reads a variable-byte integer starting at `i`; `fuel` bounds how many
/// bytes may still be read, so a fifth continuation byte is malformed.
pub fn vbi_read(s: &[u8], i: usize, fuel: u8) -> (r: Result<(u32, usize), DecodeError>)
    requires
        i <= s@.len(),
        fuel <= 4,
    ensures
        match vbi_dec_rec(s@.skip(i as int), fuel as nat) {
            SpecDec::Done(v, n) => r matches Ok(p) && p.0 == v && p.1 == n,
            SpecDec::Incomplete => r == Err::<(u32, usize), DecodeError>(
                DecodeError::NotEnoughBytes,
            ),
            SpecDec::Malformed => r == Err::<(u32, usize), DecodeError>(DecodeError::Malformed),
        },
    decreases fuel,
{
    if fuel == 0 {
        return Err(DecodeError::Malformed);
    }
    if i == s.len() {
        return Err(DecodeError::NotEnoughBytes);
    }
    let b = s[i];
    proof {
        assert(s@.skip(i as int)[0] == s@[i as int]);
    }
    if b < 128 {
        Ok((b as u32, 1))
    } else {
        proof {
            assert(s@.skip(i as int).skip(1) =~= s@.skip(i as int + 1));
        }
        match vbi_read(s, i + 1, fuel - 1) {
            Ok((v, n)) => {
                proof {
                    lemma_vbi_dec_bound(s@.skip(i as int + 1), (fuel - 1) as nat);
                }
                Ok(((b - 128) as u32 + 128 * v, n + 1))
            },
            Err(e) => Err(e),
        }
    }
}

/// Reads the fixed header at the front of the slice: packet type, flags,
/// remaining length, and the header's own byte count.
pub fn read_fixed_header(s: &[u8]) -> (r: Result<(u8, u8, u32, usize), DecodeError>)
    ensures
        match fh_dec(s@) {
            SpecDec::Done(h, n) => r matches Ok(p) && p.0 == h.0 && p.1 == h.1 && p.2 == h.2
                && p.3 == n && p.0 < 16 && p.1 < 16 && 2 <= p.3 <= 5 && p.3 <= s@.len() && p.2
                <= VBI_MAX,
            SpecDec::Incomplete => r == Err::<(u8, u8, u32, usize), DecodeError>(
                DecodeError::NotEnoughBytes,
            ),
            SpecDec::Malformed => r == Err::<(u8, u8, u32, usize), DecodeError>(
                DecodeError::Malformed,
            ),
        },
{
    if s.len() == 0 {
        return Err(DecodeError::NotEnoughBytes);
    }
    let b0 = s[0];
    match vbi_read(s, 1, 4) {
        Ok((rem, n)) => {
            proof {
                lemma_vbi_dec_bound(s@.skip(1), 4);
            }
            Ok((b0 / 16, b0 % 16, rem, 1 + n))
        },
        Err(e) => Err(e),
    }
}

/// Peeks the fixed header at the front of the buffer without consuming it.
pub fn get_fixheader(b: &bytes::BytesMut) -> (r: Result<(u8, u8, u32, usize), DecodeError>)
    ensures
        match fh_dec(bytes_view(*b)) {
            SpecDec::Done(h, n) => r matches Ok(p) && p.0 == h.0 && p.1 == h.1 && p.2 == h.2
                && p.3 == n,
            SpecDec::Incomplete => r == Err::<(u8, u8, u32, usize), DecodeError>(
                DecodeError::NotEnoughBytes,
            ),
            SpecDec::Malformed => r == Err::<(u8, u8, u32, usize), DecodeError>(
                DecodeError::Malformed,
            ),
        },
{
    let s = buf_as_slice(b);
    read_fixed_header(s)
}

/// Emits a fixed header, refusing a remaining length beyond the encoding's
/// range.
pub fn encode_fixedheader(packet_type: u8, reserved: u8, remaining_length: u32) -> (r: Result<
    Vec<u8>,
    EncodeError,
>)
    requires
        packet_type < 16,
        reserved < 16,
    ensures
        remaining_length <= VBI_MAX ==> (r matches Ok(v) && v@ == fh_enc(
            packet_type,
            reserved,
            remaining_length as int,
        )),
        remaining_length > VBI_MAX ==> r == Err::<Vec<u8>, EncodeError>(
            EncodeError::RemainingLengthOutOfRange,
        ),
{
    if remaining_length > VBI_MAX {
        return Err(EncodeError::RemainingLengthOutOfRange);
    }
    let mut v: Vec<u8> = vec![packet_type * 16 + reserved];
    let mut tail = vbi_encode(remaining_length);
    v.append(&mut tail);
    proof {
        assert(v@ =~= fh_enc(packet_type, reserved, remaining_length as int));
    }
    Ok(v)
}

/// Byte count of the fixed header that would carry this remaining length:
/// the type byte plus one to four length bytes.
pub fn get_remaining_length_bytes(remaining_length: u32) -> (r: Result<u32, EncodeError>)
    ensures
        remaining_length <= VBI_MAX ==> (r matches Ok(n) && n == 1 + vbi_len(
            remaining_length as int,
        ) && n == 1 + vbi_enc(remaining_length as int).len()),
        remaining_length > VBI_MAX ==> r == Err::<u32, EncodeError>(
            EncodeError::RemainingLengthOutOfRange,
        ),
{
    proof {
        if remaining_length <= VBI_MAX {
            lemma_vbi_enc_len(remaining_length as int);
        }
    }
    if remaining_length <= 127 {
        Ok(2)
    } else if remaining_length <= 16383 {
        Ok(3)
    } else if remaining_length <= 2097151 {
        Ok(4)
    } else if remaining_length <= VBI_MAX {
        Ok(5)
    } else {
        Err(EncodeError::RemainingLengthOutOfRange)
    }
}

/// Reads a big-endian 16-bit field at `i`.
pub fn read_u16_at(s: &[u8], i: usize) -> (r: u16)
    requires
        i + 2 <= s@.len(),
    ensures
        r == u16_of(s@[i as int], s@[i as int + 1]),
{
    (s[i] as u16) * 256 + (s[i + 1] as u16)
}

/// Reads a length-prefixed string field lying between `i` and `end`; inside a
/// complete packet a short field means the packet lied about its length, so
/// every failure is `Malformed`.
pub fn read_str(s: &[u8], i: usize, end: usize) -> (r: Result<(String, usize), DecodeError>)
    requires
        i <= end <= s@.len(),
    ensures
        match str_field(s@.subrange(i as int, end as int)) {
            Some(p) => r matches Ok(q) && q.0@ == p.0 && q.1 == i + p.1 && q.1 <= end,
            None => r == Err::<(String, usize), DecodeError>(DecodeError::Malformed),
        },
{
    if end - i < 2 {
        return Err(DecodeError::Malformed);
    }
    let l: usize = (s[i] as usize) * 256 + (s[i + 1] as usize);
    if end - i - 2 < l {
        return Err(DecodeError::Malformed);
    }
    let v = slice_to_vec(slice_subrange(s, i + 2, i + 2 + l));
    proof {
        let sub = s@.subrange(i as int, end as int);
        assert(sub.subrange(2, 2 + l as int) =~= s@.subrange(i as int + 2, i as int + 2 + l as int));
    }
    match string_from_utf8(v) {
        Some(st) => Ok((st, i + 2 + l)),
        None => Err(DecodeError::Malformed),
    }
}

/// Reads a length-prefixed blob field lying between `i` and `end`.
pub fn read_blob(s: &[u8], i: usize, end: usize) -> (r: Result<(Vec<u8>, usize), DecodeError>)
    requires
        i <= end <= s@.len(),
    ensures
        match blob_field(s@.subrange(i as int, end as int)) {
            Some(p) => r matches Ok(q) && q.0@ == p.0 && q.1 == i + p.1 && q.1 <= end,
            None => r == Err::<(Vec<u8>, usize), DecodeError>(DecodeError::Malformed),
        },
{
    if end - i < 2 {
        return Err(DecodeError::Malformed);
    }
    let l: usize = (s[i] as usize) * 256 + (s[i + 1] as usize);
    if end - i - 2 < l {
        return Err(DecodeError::Malformed);
    }
    let v = slice_to_vec(slice_subrange(s, i + 2, i + 2 + l));
    proof {
        let sub = s@.subrange(i as int, end as int);
        assert(sub.subrange(2, 2 + l as int) =~= s@.subrange(i as int + 2, i as int + 2 + l as int));
    }
    Ok((v, i + 2 + l))
}

} // verus!
