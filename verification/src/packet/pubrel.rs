//! The PUBREL packet: the release step of a quality-of-service 2 exchange.
use vstd::prelude::*;
use crate::buffer::{buf_advance, buf_as_slice, bytes_view};
use crate::packet::{encode_fixedheader, read_fixed_header, read_u16_at, FixedHeader};
use crate::variable_header::PacketIdentifier;
use crate::wire::{enc_u16, fh_dec, fh_enc, lemma_fh_round_trip, u16_of, SpecDec};
use crate::{encode_u16_bytes, DecodeError, Encodable, EncodeError};

verus! {

/// What a PUBREL carries: the identifier of the packet it answers.
pub struct PubRelV {
    pub packet_identifier: u16,
}

/// The four bytes a PUBREL with this content is written as.
pub open spec fn pubrel_enc(v: PubRelV) -> Seq<u8> {
    fh_enc(6, 0, 2) + enc_u16(v.packet_identifier)
}

/// Decodes a PUBREL from the front of `s`: type nibble 6, zero flags, a
/// remaining length of exactly two, then the packet identifier.
pub open spec fn pubrel_dec(s: Seq<u8>) -> SpecDec<PubRelV> {
    match fh_dec(s) {
        SpecDec::Done(h, hl) => {
            if h.0 != 6 || h.1 != 0 || h.2 != 2 {
                SpecDec::Malformed
            } else if s.len() < hl + 2 {
                SpecDec::Incomplete
            } else {
                SpecDec::Done(PubRelV { packet_identifier: u16_of(s[hl], s[hl + 1]) }, hl + 2)
            }
        },
        SpecDec::Incomplete => SpecDec::Incomplete,
        SpecDec::Malformed => SpecDec::Malformed,
    }
}

/// Decoding what was encoded returns the same content and consumes exactly
/// the encoding, whatever follows it.
pub proof fn lemma_pubrel_round_trip(v: PubRelV, rest: Seq<u8>)
    ensures
        pubrel_dec(pubrel_enc(v) + rest) == SpecDec::Done(v, pubrel_enc(v).len() as int),
{
    let body = enc_u16(v.packet_identifier);
    let s = pubrel_enc(v) + rest;
    assert(s =~= fh_enc(6, 0, 2) + (body + rest));
    lemma_fh_round_trip(6, 0, 2, body + rest);
    assert(s[2] == body[0] && s[3] == body[1]);
}

/// A PUBREL packet value.
#[derive(Debug)]
pub struct PubRel {
    fixed_header: FixedHeader,
    packet_identifier: PacketIdentifier,
}

impl View for PubRel {
    type V = PubRelV;

    closed spec fn view(&self) -> PubRelV {
        PubRelV { packet_identifier: self.packet_identifier.0 }
    }
}

impl PubRel {
    /// The stored fixed header agrees with what the packet encodes to.
    pub closed spec fn wf(&self) -> bool {
        self.fixed_header == (FixedHeader { packet_type: 6, reserved: 0, remaining_length: 2 })
    }

    pub fn new() -> (r: PubRel)
        ensures
            r.wf(),
            r@ == (PubRelV { packet_identifier: 100u16 }),
    {
        PubRel {
            fixed_header: FixedHeader { packet_type: 6, reserved: 0, remaining_length: 2 },
            packet_identifier: PacketIdentifier(100),
        }
    }

    pub fn set_packet_identifier(&mut self, pid: u16)
        requires
            old(self).wf(),
        ensures
            final(self).wf(),
            final(self)@ == (PubRelV { packet_identifier: pid }),
    {
        self.packet_identifier.0 = pid;
    }

    /// Decodes a PUBREL from the front of the buffer, consuming exactly the
    /// packet on success and nothing otherwise.
    pub fn decode(b: &mut bytes::BytesMut) -> (r: Result<PubRel, DecodeError>)
        ensures
            match pubrel_dec(bytes_view(*old(b))) {
                SpecDec::Done(v, n) => (r matches Ok(p) && p@ == v && p.wf()) && bytes_view(
                    *final(b),
                ) == bytes_view(*old(b)).skip(n),
                SpecDec::Incomplete => (r matches Err(e) && e == DecodeError::NotEnoughBytes)
                    && bytes_view(*final(b)) == bytes_view(*old(b)),
                SpecDec::Malformed => (r matches Err(e) && e == DecodeError::Malformed)
                    && bytes_view(*final(b)) == bytes_view(*old(b)),
            },
    {
        let pid: u16;
        let total: usize;
        {
            let s = buf_as_slice(b);
            let (t, fl, rem, hl) = match read_fixed_header(s) {
                Ok(h) => h,
                Err(e) => {
                    return Err(e);
                },
            };
            if t != 6 || fl != 0 || rem != 2 {
                return Err(DecodeError::Malformed);
            }
            if s.len() < hl + 2 {
                return Err(DecodeError::NotEnoughBytes);
            }
            pid = read_u16_at(s, hl);
            total = hl + 2;
        }
        buf_advance(b, total);
        Ok(
            PubRel {
                fixed_header: FixedHeader { packet_type: 6, reserved: 0, remaining_length: 2 },
                packet_identifier: PacketIdentifier(pid),
            },
        )
    }
}

impl Encodable for PubRel {
    open spec fn wire(&self) -> Seq<u8> {
        pubrel_enc(self@)
    }

    open spec fn wire_wf(&self) -> bool {
        self.wf()
    }

    fn encode(&self) -> (r: Result<Vec<u8>, EncodeError>) {
        let mut v = match encode_fixedheader(6, 0, self.fixed_header.remaining_length) {
            Ok(v) => v,
            Err(e) => {
                return Err(e);
            },
        };
        let mut pid = encode_u16_bytes(self.packet_identifier.0);
        v.append(&mut pid);
        proof {
            if self.wf() {
                assert(v@ =~= pubrel_enc(self@));
            }
        }
        Ok(v)
    }

    fn encode_length(&self) -> (r: Result<u32, EncodeError>) {
        match crate::packet::get_remaining_length_bytes(self.fixed_header.remaining_length) {
            Ok(n) => Ok(n + 2),
            Err(e) => Err(e),
        }
    }
}

} // verus!
