//! The framer: turns a byte stream into packets and packets back into bytes,
//! never consuming past one complete packet and never touching a partial one.
use vstd::prelude::*;
use crate::buffer::{buf_advance, buf_as_slice, buf_extend, bytes_view};
use crate::packet::value_packet::{
    lemma_packet_enc_shape, packet_body, packet_dec, packet_enc, packet_header_len, packet_wf,
    ValuePacket, ValuePacketV,
};
use crate::packet::read_fixed_header;
use crate::wire::{
    fh_enc, frame_size, lemma_fh_round_trip, lemma_vbi_enc_len, lemma_vbi_prefix_incomplete,
    lemma_vbi_round_trip, vbi_enc, SpecDec,
};
use crate::{DecodeError, Encodable, EncodeError};

verus! {

/// Whatever the type nibble, a packet decoder consumes exactly the byte count
/// the fixed header announces, and never reports a short buffer once that
/// many bytes are present.
#[verifier::rlimit(100)]
pub proof fn lemma_packet_dec_frame(s: Seq<u8>)
    ensures
        match frame_size(s) {
            SpecDec::Done(total, hl) => {
                &&& (packet_dec(s) matches SpecDec::Done(v, n) ==> n == total)
                &&& (s.len() >= total ==> !(packet_dec(s) is Incomplete))
            },
            SpecDec::Incomplete => !(packet_dec(s) is Done),
            SpecDec::Malformed => packet_dec(s) is Malformed,
        },
{
}

/// A whole packet followed by anything frames as exactly that packet's bytes:
/// the framer never takes more than one packet (the first half of the
/// non-destruction law).
pub proof fn lemma_frame_ready(v: ValuePacketV, rest: Seq<u8>)
    requires
        packet_wf(v),
    ensures
        frame_size(packet_enc(v) + rest) == SpecDec::Done(
            packet_enc(v).len() as int,
            packet_header_len(v),
        ),
{
    lemma_packet_enc_shape(v);
    let body = packet_body(v);
    let s = packet_enc(v) + rest;
    assert(s =~= fh_enc(packet_type_flags(v).0, packet_type_flags(v).1, body.len() as int) + (body
        + rest));
    lemma_fh_round_trip(packet_type_flags(v).0, packet_type_flags(v).1, body.len() as int,
        body + rest);
}

/// The type and flags nibbles a packet is framed with.
pub open spec fn packet_type_flags(v: ValuePacketV) -> (u8, u8) {
    (
        crate::packet::value_packet::packet_type_of(v),
        crate::packet::value_packet::packet_flags_of(v),
    )
}

/// A strict prefix of a packet's encoding never frames as ready: the framer
/// either asks for more bytes or sees that more are needed, so a partial
/// packet is left in the buffer intact (the second half of the
/// non-destruction law).
pub proof fn lemma_frame_partial(v: ValuePacketV, k: int)
    requires
        packet_wf(v),
        0 <= k < packet_enc(v).len(),
    ensures
        match frame_size(packet_enc(v).take(k)) {
            SpecDec::Done(total, hl) => total > k,
            SpecDec::Incomplete => true,
            SpecDec::Malformed => false,
        },
{
    lemma_packet_enc_shape(v);
    let t = packet_type_flags(v).0;
    let fl = packet_type_flags(v).1;
    let body = packet_body(v);
    let rem = body.len() as int;
    lemma_vbi_enc_len(rem);
    let lv = vbi_enc(rem).len() as int;
    let s = packet_enc(v);
    let p = s.take(k);
    if k == 0 {
    } else if k <= lv {
        assert(p.skip(1) =~= vbi_enc(rem).take(k - 1));
        lemma_vbi_prefix_incomplete(rem, k - 1);
    } else {
        assert(p.skip(1) =~= vbi_enc(rem) + body.take(k - 1 - lv));
        lemma_vbi_round_trip(rem, body.take(k - 1 - lv));
        assert(s.len() == 1 + lv + rem);
    }
}

/// The stateless framing codec of the transport: `decode` detaches one whole
/// packet from the read buffer when one is present, and `encode` appends a
/// packet's bytes to the write buffer.
#[derive(Debug)]
pub struct PackectCodec;

impl PackectCodec {
    /// Frames and decodes one packet from the front of the buffer. With a
    /// whole packet buffered, exactly that packet's bytes are consumed —
    /// decoded or, when its content is bad, dropped with `Malformed`. With a
    /// partial packet the buffer is untouched and more bytes are awaited. An
    /// over-long length encoding is `Malformed` with the buffer untouched;
    /// the caller should drop the connection.
    pub fn decode(&mut self, src: &mut bytes::BytesMut) -> (r: Result<
        Option<ValuePacket>,
        DecodeError,
    >)
        ensures
            match frame_size(bytes_view(*old(src))) {
                SpecDec::Done(total, hl) => {
                    if bytes_view(*old(src)).len() >= total {
                        bytes_view(*final(src)) == bytes_view(*old(src)).skip(total) && (match
                            packet_dec(bytes_view(*old(src))) {
                            SpecDec::Done(v, n) => r matches Ok(op) && op matches Some(p) && p@
                                == v && p.wf(),
                            _ => r matches Err(e) && e == DecodeError::Malformed,
                        })
                    } else {
                        (r matches Ok(op) && op is None) && bytes_view(*final(src)) == bytes_view(
                            *old(src),
                        )
                    }
                },
                SpecDec::Incomplete => (r matches Ok(op) && op is None) && bytes_view(*final(src))
                    == bytes_view(*old(src)),
                SpecDec::Malformed => (r matches Err(e) && e == DecodeError::Malformed)
                    && bytes_view(*final(src)) == bytes_view(*old(src)),
            },
    {
        let total: usize;
        {
            let s = buf_as_slice(src);
            let (t, fl, rem, hl) = match read_fixed_header(s) {
                Ok(h) => h,
                Err(e) => match e {
                    DecodeError::NotEnoughBytes => {
                        return Ok(None);
                    },
                    DecodeError::Malformed => {
                        return Err(DecodeError::Malformed);
                    },
                },
            };
            let rem_us = rem as usize;
            if s.len() - hl < rem_us {
                return Ok(None);
            }
            total = hl + rem_us;
        }
        proof {
            lemma_packet_dec_frame(bytes_view(*src));
        }
        match ValuePacket::decode(src) {
            Ok(p) => Ok(Some(p)),
            Err(_) => {
                buf_advance(src, total);
                Err(DecodeError::Malformed)
            },
        }
    }

    /// Encodes one packet and appends its bytes to the write buffer, all or
    /// nothing.
    pub fn encode(&mut self, item: &ValuePacket, dst: &mut bytes::BytesMut) -> (r: Result<
        (),
        EncodeError,
    >)
        requires
            item.wf(),
            bytes_view(*old(dst)).len() + packet_enc(item@).len() < 0x8000_0000_0000_0000,
        ensures
            r is Ok,
            bytes_view(*final(dst)) == bytes_view(*old(dst)) + packet_enc(item@),
    {
        match item.encode() {
            Ok(code) => {
                buf_extend(dst, code.as_slice());
                Ok(())
            },
            Err(e) => Err(e),
        }
    }
}

} // verus!
