//! The DISCONNECT packet: a fixed header and nothing else.
use vstd::prelude::*;
use crate::buffer::{buf_advance, buf_as_slice, bytes_view};
use crate::packet::{encode_fixedheader, read_fixed_header, FixedHeader};
use crate::wire::{fh_dec, fh_enc, lemma_fh_round_trip, SpecDec};
use crate::{DecodeError, Encodable, EncodeError};

verus! {

/// A DISCONNECT carries no fields.
pub struct DisconnectV {}

/// The two bytes a DISCONNECT is written as.
pub open spec fn disconnect_enc(v: DisconnectV) -> Seq<u8> {
    fh_enc(14, 0, 0)
}

/// Decodes a DISCONNECT from the front of `s`: type nibble 14, zero flags, a
/// remaining length of zero.
pub open spec fn disconnect_dec(s: Seq<u8>) -> SpecDec<DisconnectV> {
    match fh_dec(s) {
        SpecDec::Done(h, hl) => {
            if h.0 != 14 || h.1 != 0 || h.2 != 0 {
                SpecDec::Malformed
            } else {
                SpecDec::Done(DisconnectV {}, hl)
            }
        },
        SpecDec::Incomplete => SpecDec::Incomplete,
        SpecDec::Malformed => SpecDec::Malformed,
    }
}

/// Decoding what was encoded returns the same content and consumes exactly
/// the encoding, whatever follows it.
pub proof fn lemma_disconnect_round_trip(v: DisconnectV, rest: Seq<u8>)
    ensures
        disconnect_dec(disconnect_enc(v) + rest) == SpecDec::Done(v, disconnect_enc(v).len() as int),
{
    let s = disconnect_enc(v) + rest;
    assert(s =~= fh_enc(14, 0, 0) + rest);
    lemma_fh_round_trip(14, 0, 0, rest);
}

/// A DISCONNECT packet value.
#[derive(Debug)]
pub struct Disconnect {
    fixed_header: FixedHeader,
}

impl View for Disconnect {
    type V = DisconnectV;

    closed spec fn view(&self) -> DisconnectV {
        DisconnectV {}
    }
}

impl Disconnect {
    /// The stored fixed header agrees with what the packet encodes to.
    pub closed spec fn wf(&self) -> bool {
        self.fixed_header == (FixedHeader { packet_type: 14, reserved: 0, remaining_length: 0 })
    }

    pub fn new() -> (r: Disconnect)
        ensures
            r.wf(),
    {
        Disconnect {
            fixed_header: FixedHeader { packet_type: 14, reserved: 0, remaining_length: 0 },
        }
    }

    /// Decodes a DISCONNECT from the front of the buffer, consuming exactly the
    /// packet on success and nothing otherwise.
    pub fn decode(b: &mut bytes::BytesMut) -> (r: Result<Disconnect, DecodeError>)
        ensures
            match disconnect_dec(bytes_view(*old(b))) {
                SpecDec::Done(v, n) => (r matches Ok(p) && p@ == v && p.wf()) && bytes_view(
                    *final(b),
                ) == bytes_view(*old(b)).skip(n),
                SpecDec::Incomplete => (r matches Err(e) && e == DecodeError::NotEnoughBytes)
                    && bytes_view(*final(b)) == bytes_view(*old(b)),
                SpecDec::Malformed => (r matches Err(e) && e == DecodeError::Malformed)
                    && bytes_view(*final(b)) == bytes_view(*old(b)),
            },
    {
        let total: usize;
        {
            let s = buf_as_slice(b);
            let (t, fl, rem, hl) = match read_fixed_header(s) {
                Ok(h) => h,
                Err(e) => {
                    return Err(e);
                },
            };
            if t != 14 || fl != 0 || rem != 0 {
                return Err(DecodeError::Malformed);
            }
            total = hl;
        }
        buf_advance(b, total);
        Ok(
            Disconnect {
                fixed_header: FixedHeader { packet_type: 14, reserved: 0, remaining_length: 0 },
            },
        )
    }
}

impl Encodable for Disconnect {
    open spec fn wire(&self) -> Seq<u8> {
        disconnect_enc(self@)
    }

    open spec fn wire_wf(&self) -> bool {
        self.wf()
    }

    fn encode(&self) -> (r: Result<Vec<u8>, EncodeError>) {
        let v = match encode_fixedheader(14, 0, self.fixed_header.remaining_length) {
            Ok(v) => v,
            Err(e) => {
                return Err(e);
            },
        };
        proof {
            if self.wf() {
                assert(v@ =~= disconnect_enc(self@));
            }
        }
        Ok(v)
    }

    fn encode_length(&self) -> (r: Result<u32, EncodeError>) {
        match crate::packet::get_remaining_length_bytes(self.fixed_header.remaining_length) {
            Ok(n) => Ok(n),
            Err(e) => Err(e),
        }
    }
}

} // verus!
