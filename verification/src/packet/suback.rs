//! The SUBACK packet: one return code per filter of the SUBSCRIBE it answers.
use vstd::prelude::*;
use crate::buffer::{buf_advance, buf_as_slice, bytes_view};
use crate::packet::{encode_fixedheader, read_fixed_header, read_u16_at, FixedHeader};
use crate::return_code::{src_byte, src_from_byte, src_of_byte, SubscribeReturnCode};
use crate::variable_header::PacketIdentifier;
use crate::wire::{enc_u16, fh_dec, fh_enc, lemma_fh_round_trip, u16_of, SpecDec, VBI_MAX};
use crate::{encode_u16_bytes, DecodeError, Encodable, EncodeError};

verus! {

/// What a SUBACK carries: the identifier of the SUBSCRIBE it answers and one
/// return code per requested filter, in order.
#[verifier::ext_equal]
pub struct SubAckV {
    pub packet_identifier: u16,
    pub return_codes: Seq<SubscribeReturnCode>,
}

/// One byte per return code, in order.
pub open spec fn codes_enc(cs: Seq<SubscribeReturnCode>) -> Seq<u8> {
    cs.map_values(|c: SubscribeReturnCode| src_byte(c))
}

/// All payload bytes read back as return codes, or nothing if any byte is not
/// a code.
pub open spec fn codes_dec(s: Seq<u8>) -> Option<Seq<SubscribeReturnCode>> {
    if forall|i: int| 0 <= i < s.len() ==> src_of_byte(s[i]) is Some {
        Some(Seq::new(s.len(), |i: int| src_of_byte(s[i])->Some_0))
    } else {
        None
    }
}

pub proof fn lemma_codes_round_trip(cs: Seq<SubscribeReturnCode>)
    ensures
        codes_dec(codes_enc(cs)) == Some(cs),
{
    let s = codes_enc(cs);
    assert(forall|i: int| 0 <= i < s.len() ==> src_of_byte(s[i]) is Some) by {
        assert(forall|i: int| 0 <= i < s.len() ==> s[i] == src_byte(cs[i]));
    }
    assert(Seq::new(s.len(), |i: int| src_of_byte(s[i])->Some_0) =~= cs);
}

pub open spec fn suback_wf(v: SubAckV) -> bool {
    2 + v.return_codes.len() <= VBI_MAX
}

pub open spec fn suback_body(v: SubAckV) -> Seq<u8> {
    enc_u16(v.packet_identifier) + codes_enc(v.return_codes)
}

pub open spec fn suback_enc(v: SubAckV) -> Seq<u8> {
    fh_enc(9, 0, suback_body(v).len() as int) + suback_body(v)
}

/// Decodes a SUBACK from the front of `s`: type nibble 9, zero flags, a
/// packet identifier, then return codes until the remaining length runs out.
pub open spec fn suback_dec(s: Seq<u8>) -> SpecDec<SubAckV> {
    match fh_dec(s) {
        SpecDec::Done(h, hl) => {
            if h.0 != 9 || h.1 != 0 || h.2 < 2 {
                SpecDec::Malformed
            } else if s.len() < hl + h.2 {
                SpecDec::Incomplete
            } else {
                match codes_dec(s.subrange(hl + 2, hl + h.2)) {
                    Some(cs) => SpecDec::Done(
                        SubAckV { packet_identifier: u16_of(s[hl], s[hl + 1]), return_codes: cs },
                        hl + h.2,
                    ),
                    None => SpecDec::Malformed,
                }
            }
        },
        SpecDec::Incomplete => SpecDec::Incomplete,
        SpecDec::Malformed => SpecDec::Malformed,
    }
}

/// Decoding what was encoded returns the same content and consumes exactly
/// the encoding, whatever follows it.
pub proof fn lemma_suback_round_trip(v: SubAckV, rest: Seq<u8>)
    requires
        suback_wf(v),
    ensures
        suback_dec(suback_enc(v) + rest) == SpecDec::Done(v, suback_enc(v).len() as int),
{
    let body = suback_body(v);
    let s = suback_enc(v) + rest;
    assert(s =~= fh_enc(9, 0, body.len() as int) + (body + rest));
    lemma_fh_round_trip(9, 0, body.len() as int, body + rest);
    let hl = 1 + crate::wire::vbi_enc(body.len() as int).len() as int;
    assert(s[hl] == enc_u16(v.packet_identifier)[0]);
    assert(s[hl + 1] == enc_u16(v.packet_identifier)[1]);
    assert(u16_of(enc_u16(v.packet_identifier)[0], enc_u16(v.packet_identifier)[1])
        == v.packet_identifier);
    assert(s.subrange(hl + 2, hl + body.len() as int) =~= codes_enc(v.return_codes));
    lemma_codes_round_trip(v.return_codes);
}

/// A SUBACK packet value.
#[derive(Debug)]
pub struct SubAck {
    fixed_header: FixedHeader,
    packet_identifier: PacketIdentifier,
    payload: Vec<SubscribeReturnCode>,
}

impl View for SubAck {
    type V = SubAckV;

    closed spec fn view(&self) -> SubAckV {
        SubAckV { packet_identifier: self.packet_identifier.0, return_codes: self.payload@ }
    }
}

impl SubAck {
    /// The fields fit the wire and the stored remaining length is the body's
    /// byte count.
    pub closed spec fn wf(&self) -> bool {
        &&& self.fixed_header == (FixedHeader {
            packet_type: 9,
            reserved: 0,
            remaining_length: (2 + self.payload@.len()) as u32,
        })
        &&& suback_wf(self@)
    }

    /// A sample SUBACK: packet identifier 81 and four grants at level 2.
    pub fn new() -> (r: SubAck)
        ensures
            r.wf(),
            r@.packet_identifier == 81,
            r@.return_codes.len() == 4,
    {
        let mut codes: Vec<SubscribeReturnCode> = Vec::new();
        let mut i: usize = 0;
        while i < 4
            invariant
                i <= 4,
                codes@.len() == i,
            decreases 4 - i,
        {
            codes.push(SubscribeReturnCode::MaximumQos2);
            i = i + 1;
        }
        let mut suback = SubAck {
            fixed_header: FixedHeader { packet_type: 9, reserved: 0, remaining_length: 0 },
            packet_identifier: PacketIdentifier(81),
            payload: codes,
        };
        let r = suback.calculate_remaining_length();
        proof {
            assert(r is Ok);
        }
        suback
    }

    /// Recomputes the stored remaining length: two bytes of identifier plus
    /// one per return code. Fails, leaving the content unchanged, exactly
    /// when that count cannot fit the remaining-length encoding.
    pub fn calculate_remaining_length(&mut self) -> (r: Result<(), EncodeError>)
        ensures
            final(self)@ == old(self)@,
            ({
                let v = old(self)@;
                if suback_wf(v) {
                    r is Ok && (old(self).shape_wf() ==> final(self).wf())
                } else {
                    r == Err::<(), EncodeError>(EncodeError::RemainingLengthOutOfRange)
                }
            }),
    {
        let n = self.payload.len();
        if n as u64 > (VBI_MAX - 2) as u64 {
            return Err(EncodeError::RemainingLengthOutOfRange);
        }
        self.fixed_header.remaining_length = 2 + n as u32;
        proof {
            assert(suback_body(self@).len() == 2 + n);
        }
        Ok(())
    }

    /// Well-formedness apart from the stored length: the type and flags
    /// nibbles.
    pub closed spec fn shape_wf(&self) -> bool {
        self.fixed_header.packet_type == 9 && self.fixed_header.reserved == 0
    }

    /// Decodes a SUBACK from the front of the buffer, consuming exactly the
    /// packet on success and nothing otherwise.
    #[verifier::rlimit(100)]
    #[verifier::spinoff_prover]
    pub fn decode(b: &mut bytes::BytesMut) -> (r: Result<SubAck, DecodeError>)
        ensures
            match suback_dec(bytes_view(*old(b))) {
                SpecDec::Done(v, n) => (r matches Ok(p) && p@ == v && p.wf()) && bytes_view(
                    *final(b),
                ) == bytes_view(*old(b)).skip(n),
                SpecDec::Incomplete => (r matches Err(e) && e == DecodeError::NotEnoughBytes)
                    && bytes_view(*final(b)) == bytes_view(*old(b)),
                SpecDec::Malformed => (r matches Err(e) && e == DecodeError::Malformed)
                    && bytes_view(*final(b)) == bytes_view(*old(b)),
            },
    {
        let pid: u16;
        let codes: Vec<SubscribeReturnCode>;
        let rem: u32;
        let total: usize;
        {
            let s = buf_as_slice(b);
            let (t, fl, rem0, hl) = match read_fixed_header(s) {
                Ok(h) => h,
                Err(e) => {
                    return Err(e);
                },
            };
            if t != 9 || fl != 0 || rem0 < 2 {
                return Err(DecodeError::Malformed);
            }
            let rem_us = rem0 as usize;
            if s.len() - hl < rem_us {
                return Err(DecodeError::NotEnoughBytes);
            }
            rem = rem0;
            let end = hl + rem_us;
            pid = read_u16_at(s, hl);
            let ghost body = s@.subrange(hl + 2, end as int);
            let mut acc: Vec<SubscribeReturnCode> = Vec::new();
            let start = hl + 2;
            let mut i = start;
            while i < end
                invariant
                    start <= i <= end <= s@.len(),
                    body == s@.subrange(start as int, end as int),
                    acc@.len() == i - start,
                    forall|k: int| 0 <= k < i - start ==> src_of_byte(body[k]) is Some,
                    forall|k: int|
                        0 <= k < i - start ==> acc@[k] == src_of_byte(body[k])->Some_0,
                decreases end - i,
            {
                proof {
                    assert(body[i - start] == s@[i as int]);
                }
                match src_from_byte(s[i]) {
                    Some(c) => {
                        acc.push(c);
                    },
                    None => {
                        proof {
                            assert(src_of_byte(body[i - start]) is None);
                            assert(body.len() == end - start);
                            assert(!(forall|k: int|
                                0 <= k < body.len() ==> src_of_byte(body[k]) is Some)) by {
                                assert(0 <= i - start < body.len());
                            }
                            assert(codes_dec(body) is None);
                        }
                        return Err(DecodeError::Malformed);
                    },
                }
                i = i + 1;
            }
            proof {
                assert(codes_dec(body) matches Some(cs) && cs =~= acc@);
            }
            codes = acc;
            total = end;
        }
        buf_advance(b, total);
        Ok(
            SubAck {
                fixed_header: FixedHeader { packet_type: 9, reserved: 0, remaining_length: rem },
                packet_identifier: PacketIdentifier(pid),
                payload: codes,
            },
        )
    }
}

impl Encodable for SubAck {
    open spec fn wire(&self) -> Seq<u8> {
        suback_enc(self@)
    }

    open spec fn wire_wf(&self) -> bool {
        self.wf()
    }

    fn encode(&self) -> (r: Result<Vec<u8>, EncodeError>) {
        let mut v = match encode_fixedheader(9, 0, self.fixed_header.remaining_length) {
            Ok(v) => v,
            Err(e) => {
                return Err(e);
            },
        };
        let mut pid = encode_u16_bytes(self.packet_identifier.0);
        v.append(&mut pid);
        let ghost base = v@;
        let mut i: usize = 0;
        while i < self.payload.len()
            invariant
                i <= self.payload@.len(),
                v@ == base + codes_enc(self.payload@.take(i as int)),
            decreases self.payload@.len() - i,
        {
            let byte: u8 = match self.payload[i] {
                SubscribeReturnCode::MaximumQos0 => 0,
                SubscribeReturnCode::MaximumQos1 => 1,
                SubscribeReturnCode::MaximumQos2 => 2,
                SubscribeReturnCode::Failure => 128,
            };
            v.push(byte);
            proof {
                assert(v@ =~= base + codes_enc(self.payload@.take(i + 1)));
            }
            i = i + 1;
        }
        proof {
            assert(self.payload@.take(self.payload@.len() as int) =~= self.payload@);
            if self.wf() {
                assert(v@ =~= suback_enc(self@));
            }
        }
        Ok(v)
    }

    fn encode_length(&self) -> (r: Result<u32, EncodeError>) {
        match crate::packet::get_remaining_length_bytes(self.fixed_header.remaining_length) {
            Ok(n) => Ok(n + self.fixed_header.remaining_length),
            Err(e) => Err(e),
        }
    }
}

} // verus!
