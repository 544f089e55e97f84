//! The CONNACK packet: the broker's answer to CONNECT.
use vstd::prelude::*;
use crate::buffer::{buf_advance, buf_as_slice, bytes_view};
use crate::packet::{encode_fixedheader, read_fixed_header, FixedHeader};
use crate::variable_header::{ConnectAckFlags, ConnectReturnCode};
use crate::wire::{fh_enc, fh_dec, lemma_fh_round_trip, SpecDec};
use crate::{DecodeError, Encodable, EncodeError};

verus! {

/// What a CONNACK carries: the session-present flag and the return code.
pub struct ConnackV {
    pub session_present: bool,
    pub return_code: u8,
}

/// The bytes a CONNACK with this content is written as.
pub open spec fn connack_enc(v: ConnackV) -> Seq<u8> {
    fh_enc(2, 0, 2) + seq![
        if v.session_present {
            1u8
        } else {
            0u8
        },
        v.return_code,
    ]
}

/// Decodes a CONNACK from the front of `s`: type nibble 2, zero flags, a
/// remaining length of exactly two, then the flags byte and the return code.
pub open spec fn connack_dec(s: Seq<u8>) -> SpecDec<ConnackV> {
    match fh_dec(s) {
        SpecDec::Done(h, hl) => {
            if h.0 != 2 || h.1 != 0 || h.2 != 2 {
                SpecDec::Malformed
            } else if s.len() < hl + 2 {
                SpecDec::Incomplete
            } else {
                SpecDec::Done(
                    ConnackV { session_present: s[hl] % 2 == 1, return_code: s[hl + 1] },
                    hl + 2,
                )
            }
        },
        SpecDec::Incomplete => SpecDec::Incomplete,
        SpecDec::Malformed => SpecDec::Malformed,
    }
}

/// Decoding what was encoded returns the same content and consumes exactly
/// the encoding, whatever follows it.
pub proof fn lemma_connack_round_trip(v: ConnackV, rest: Seq<u8>)
    ensures
        connack_dec(connack_enc(v) + rest) == SpecDec::Done(v, connack_enc(v).len() as int),
{
    let body = seq![
        if v.session_present {
            1u8
        } else {
            0u8
        },
        v.return_code,
    ];
    let s = connack_enc(v) + rest;
    assert(s =~= fh_enc(2, 0, 2) + (body + rest));
    lemma_fh_round_trip(2, 0, 2, body + rest);
    assert(s[2] == body[0] && s[3] == body[1]);
}

/// A CONNACK packet value.
#[derive(Debug)]
pub struct Connack {
    fixed_header: FixedHeader,
    connect_ack_flag: ConnectAckFlags,
    connect_return_code: ConnectReturnCode,
}

impl View for Connack {
    type V = ConnackV;

    closed spec fn view(&self) -> ConnackV {
        ConnackV { session_present: self.connect_ack_flag.0, return_code: self.connect_return_code.0 }
    }
}

impl Connack {
    /// The stored fixed header agrees with what the packet encodes to.
    pub closed spec fn wf(&self) -> bool {
        self.fixed_header == (FixedHeader { packet_type: 2, reserved: 0, remaining_length: 2 })
    }

    /// A CONNACK with no session present and return code zero: acceptance.
    pub fn new() -> (r: Connack)
        ensures
            r.wf(),
            r@ == (ConnackV { session_present: false, return_code: 0u8 }),
    {
        let mut connack = Connack {
            fixed_header: FixedHeader { packet_type: 2, reserved: 0, remaining_length: 0 },
            connect_ack_flag: ConnectAckFlags(false),
            connect_return_code: ConnectReturnCode(0),
        };
        connack.calculate_remaining_length();
        connack
    }

    /// Recomputes the remaining length from the variable header; for CONNACK
    /// it is always two.
    pub fn calculate_remaining_length(&mut self)
        ensures
            final(self).wf(),
            final(self)@ == old(self)@,
    {
        self.fixed_header = FixedHeader { packet_type: 2, reserved: 0, remaining_length: 2 };
    }

    pub fn set_connect_ack_flag(&mut self, flag: bool)
        requires
            old(self).wf(),
        ensures
            final(self).wf(),
            final(self)@ == (ConnackV { session_present: flag, ..old(self)@ }),
    {
        self.connect_ack_flag.0 = flag;
        self.calculate_remaining_length();
    }

    pub fn set_connect_return_code(&mut self, code: u8)
        requires
            old(self).wf(),
        ensures
            final(self).wf(),
            final(self)@ == (ConnackV { return_code: code, ..old(self)@ }),
    {
        self.connect_return_code.0 = code;
        self.calculate_remaining_length();
    }

    /// Decodes a CONNACK from the front of the buffer, consuming exactly the
    /// packet on success and nothing otherwise.
    pub fn decode(b: &mut bytes::BytesMut) -> (r: Result<Connack, DecodeError>)
        ensures
            match connack_dec(bytes_view(*old(b))) {
                SpecDec::Done(v, n) => (r matches Ok(p) && p@ == v && p.wf()) && bytes_view(
                    *final(b),
                ) == bytes_view(*old(b)).skip(n),
                SpecDec::Incomplete => (r matches Err(e) && e == DecodeError::NotEnoughBytes)
                    && bytes_view(*final(b)) == bytes_view(*old(b)),
                SpecDec::Malformed => (r matches Err(e) && e == DecodeError::Malformed)
                    && bytes_view(*final(b)) == bytes_view(*old(b)),
            },
    {
        let flag: bool;
        let code: u8;
        let total: usize;
        {
            let s = buf_as_slice(b);
            let (t, fl, rem, hl) = match read_fixed_header(s) {
                Ok(h) => h,
                Err(e) => {
                    return Err(e);
                },
            };
            if t != 2 || fl != 0 || rem != 2 {
                return Err(DecodeError::Malformed);
            }
            if s.len() < hl + 2 {
                return Err(DecodeError::NotEnoughBytes);
            }
            flag = s[hl] % 2 == 1;
            code = s[hl + 1];
            total = hl + 2;
        }
        buf_advance(b, total);
        Ok(
            Connack {
                fixed_header: FixedHeader { packet_type: 2, reserved: 0, remaining_length: 2 },
                connect_ack_flag: ConnectAckFlags(flag),
                connect_return_code: ConnectReturnCode(code),
            },
        )
    }
}

impl Encodable for Connack {
    open spec fn wire(&self) -> Seq<u8> {
        connack_enc(self@)
    }

    open spec fn wire_wf(&self) -> bool {
        self.wf()
    }

    fn encode(&self) -> (r: Result<Vec<u8>, EncodeError>) {
        let mut v = match encode_fixedheader(2, 0, self.fixed_header.remaining_length) {
            Ok(v) => v,
            Err(e) => {
                return Err(e);
            },
        };
        v.push(
            if self.connect_ack_flag.0 {
                1
            } else {
                0
            },
        );
        v.push(self.connect_return_code.0);
        proof {
            if self.wf() {
                assert(v@ =~= connack_enc(self@));
            }
        }
        Ok(v)
    }

    fn encode_length(&self) -> (r: Result<u32, EncodeError>) {
        proof {
            if self.wf() {
                assert(connack_enc(self@).len() == 4);
            }
        }
        match crate::packet::get_remaining_length_bytes(self.fixed_header.remaining_length) {
            Ok(n) => Ok(n + 2),
            Err(e) => Err(e),
        }
    }
}

} // verus!
