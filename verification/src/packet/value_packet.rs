//! The sum of all fourteen packets: decoding selects the variant by the
//! packet-type nibble, and encoding delegates to the variant.
use vstd::prelude::*;
use crate::buffer::{buf_as_slice, bytes_view};
use crate::packet::connack::{connack_dec, connack_enc, lemma_connack_round_trip, Connack, ConnackV};
use crate::packet::connect::{
    connect_body, connect_dec, connect_enc, connect_wf, lemma_connect_round_trip, Connect, ConnectV,
};
use crate::packet::disconnect::{
    disconnect_dec, disconnect_enc, lemma_disconnect_round_trip, Disconnect, DisconnectV,
};
use crate::packet::pingreq::{pingreq_dec, pingreq_enc, lemma_pingreq_round_trip, PingReq, PingReqV};
use crate::packet::pingresp::{
    pingresp_dec, pingresp_enc, lemma_pingresp_round_trip, PingResp, PingRespV,
};
use crate::packet::puback::{puback_dec, puback_enc, lemma_puback_round_trip, PubAck, PubAckV};
use crate::packet::pubcomp::{pubcomp_dec, pubcomp_enc, lemma_pubcomp_round_trip, PubComp, PubCompV};
use crate::packet::publish::{
    publish_body, publish_dec, publish_enc, publish_flags, publish_wf, lemma_publish_round_trip,
    Publish, PublishV,
};
use crate::packet::pubrec::{pubrec_dec, pubrec_enc, lemma_pubrec_round_trip, PubRec, PubRecV};
use crate::packet::pubrel::{pubrel_dec, pubrel_enc, lemma_pubrel_round_trip, PubRel, PubRelV};
use crate::packet::suback::{
    suback_body, suback_dec, suback_enc, suback_wf, lemma_suback_round_trip, SubAck, SubAckV,
};
use crate::packet::subscribe::{
    subscribe_body, subscribe_dec, subscribe_enc, subscribe_wf, lemma_subscribe_round_trip,
    Subscribe, SubscribeV,
};
use crate::packet::unsuback::{unsuback_dec, unsuback_enc, lemma_unsuback_round_trip, UnSubAck, UnSubAckV};
use crate::packet::unsubscribe::{
    unsubscribe_body, unsubscribe_dec, unsubscribe_enc, unsubscribe_wf,
    lemma_unsubscribe_round_trip, Unsubscribe, UnsubscribeV,
};
use crate::packet::read_fixed_header;
use crate::wire::{enc_u16, fh_enc, frame_size, vbi_enc, SpecDec, VBI_MAX};
use crate::{DecodeError, Encodable, EncodeError};

verus! {

/// What any packet carries, one case per packet type.
pub enum ValuePacketV {
    ConnectPacket(ConnectV),
    ConnackPacket(ConnackV),
    PublishPacket(PublishV),
    PubAckPacket(PubAckV),
    PubRecPacket(PubRecV),
    PubRelPacket(PubRelV),
    PubCompPacket(PubCompV),
    SubscribePacket(SubscribeV),
    SubAckPacket(SubAckV),
    UnsubscribePacket(UnsubscribeV),
    UnSubAckPacket(UnSubAckV),
    PingReqPacket(PingReqV),
    PingRespPacket(PingRespV),
    DisconnectPacket(DisconnectV),
}

pub open spec fn packet_wf(v: ValuePacketV) -> bool {
    match v {
        ValuePacketV::ConnectPacket(c) => connect_wf(c),
        ValuePacketV::PublishPacket(p) => publish_wf(p),
        ValuePacketV::SubscribePacket(p) => subscribe_wf(p),
        ValuePacketV::SubAckPacket(p) => suback_wf(p),
        ValuePacketV::UnsubscribePacket(p) => unsubscribe_wf(p),
        _ => true,
    }
}

pub open spec fn packet_enc(v: ValuePacketV) -> Seq<u8> {
    match v {
        ValuePacketV::ConnectPacket(c) => connect_enc(c),
        ValuePacketV::ConnackPacket(c) => connack_enc(c),
        ValuePacketV::PublishPacket(p) => publish_enc(p),
        ValuePacketV::PubAckPacket(p) => puback_enc(p),
        ValuePacketV::PubRecPacket(p) => pubrec_enc(p),
        ValuePacketV::PubRelPacket(p) => pubrel_enc(p),
        ValuePacketV::PubCompPacket(p) => pubcomp_enc(p),
        ValuePacketV::SubscribePacket(p) => subscribe_enc(p),
        ValuePacketV::SubAckPacket(p) => suback_enc(p),
        ValuePacketV::UnsubscribePacket(p) => unsubscribe_enc(p),
        ValuePacketV::UnSubAckPacket(p) => unsuback_enc(p),
        ValuePacketV::PingReqPacket(p) => pingreq_enc(p),
        ValuePacketV::PingRespPacket(p) => pingresp_enc(p),
        ValuePacketV::DisconnectPacket(p) => disconnect_enc(p),
    }
}

/// The bytes that follow the fixed header.
pub open spec fn packet_body(v: ValuePacketV) -> Seq<u8> {
    match v {
        ValuePacketV::ConnectPacket(c) => connect_body(c),
        ValuePacketV::ConnackPacket(c) => seq![
            if c.session_present {
                1u8
            } else {
                0u8
            },
            c.return_code,
        ],
        ValuePacketV::PublishPacket(p) => publish_body(p),
        ValuePacketV::PubAckPacket(p) => enc_u16(p.packet_identifier),
        ValuePacketV::PubRecPacket(p) => enc_u16(p.packet_identifier),
        ValuePacketV::PubRelPacket(p) => enc_u16(p.packet_identifier),
        ValuePacketV::PubCompPacket(p) => enc_u16(p.packet_identifier),
        ValuePacketV::SubscribePacket(p) => subscribe_body(p),
        ValuePacketV::SubAckPacket(p) => suback_body(p),
        ValuePacketV::UnsubscribePacket(p) => unsubscribe_body(p),
        ValuePacketV::UnSubAckPacket(p) => enc_u16(p.packet_identifier),
        _ => Seq::<u8>::empty(),
    }
}

/// The remaining-length value a well-formed packet carries.
pub open spec fn packet_remaining(v: ValuePacketV) -> int {
    packet_body(v).len() as int
}

/// The fixed header's byte count: the type byte plus the remaining-length
/// encoding.
pub open spec fn packet_header_len(v: ValuePacketV) -> int {
    1 + vbi_enc(packet_remaining(v)).len() as int
}

/// The packet-type nibble a packet is addressed by.
pub open spec fn packet_type_of(v: ValuePacketV) -> u8 {
    match v {
        ValuePacketV::ConnectPacket(_) => 1u8,
        ValuePacketV::ConnackPacket(_) => 2u8,
        ValuePacketV::PublishPacket(_) => 3u8,
        ValuePacketV::PubAckPacket(_) => 4u8,
        ValuePacketV::PubRecPacket(_) => 5u8,
        ValuePacketV::PubRelPacket(_) => 6u8,
        ValuePacketV::PubCompPacket(_) => 7u8,
        ValuePacketV::SubscribePacket(_) => 8u8,
        ValuePacketV::SubAckPacket(_) => 9u8,
        ValuePacketV::UnsubscribePacket(_) => 10u8,
        ValuePacketV::UnSubAckPacket(_) => 11u8,
        ValuePacketV::PingReqPacket(_) => 12u8,
        ValuePacketV::PingRespPacket(_) => 13u8,
        ValuePacketV::DisconnectPacket(_) => 14u8,
    }
}

/// The flags nibble a packet is emitted with.
pub open spec fn packet_flags_of(v: ValuePacketV) -> u8 {
    match v {
        ValuePacketV::PublishPacket(p) => publish_flags(p),
        ValuePacketV::SubscribePacket(_) => 2u8,
        _ => 0u8,
    }
}

/// Every well-formed packet's encoding is a fixed header carrying the body's
/// byte count, followed by the body.
#[verifier::rlimit(60)]
pub proof fn lemma_packet_enc_shape(v: ValuePacketV)
    requires
        packet_wf(v),
    ensures
        packet_enc(v) == fh_enc(packet_type_of(v), packet_flags_of(v), packet_remaining(v))
            + packet_body(v),
        1 <= packet_type_of(v) <= 14,
        packet_flags_of(v) < 16,
        0 <= packet_remaining(v) <= VBI_MAX,
{
    match v {
        ValuePacketV::PublishPacket(p) => {
            assert(publish_flags(p) < 16);
            assert(packet_enc(v) =~= fh_enc(3, publish_flags(p), packet_remaining(v))
                + packet_body(v));
        },
        _ => {
            assert(packet_enc(v) =~= fh_enc(
                packet_type_of(v),
                packet_flags_of(v),
                packet_remaining(v),
            ) + packet_body(v));
        },
    }
}

/// Decodes whichever packet the type nibble selects; nibbles 0 and 15 select
/// nothing.
pub open spec fn packet_dec(s: Seq<u8>) -> SpecDec<ValuePacketV> {
    if s.len() == 0 {
        SpecDec::Incomplete
    } else {
        let t = s[0] / 16;
        if t == 1 {
            match connect_dec(s) {
                SpecDec::Done(v, n) => SpecDec::Done(ValuePacketV::ConnectPacket(v), n),
                SpecDec::Incomplete => SpecDec::Incomplete,
                SpecDec::Malformed => SpecDec::Malformed,
            }
        } else if t == 2 {
            match connack_dec(s) {
                SpecDec::Done(v, n) => SpecDec::Done(ValuePacketV::ConnackPacket(v), n),
                SpecDec::Incomplete => SpecDec::Incomplete,
                SpecDec::Malformed => SpecDec::Malformed,
            }
        } else if t == 3 {
            match publish_dec(s) {
                SpecDec::Done(v, n) => SpecDec::Done(ValuePacketV::PublishPacket(v), n),
                SpecDec::Incomplete => SpecDec::Incomplete,
                SpecDec::Malformed => SpecDec::Malformed,
            }
        } else if t == 4 {
            match puback_dec(s) {
                SpecDec::Done(v, n) => SpecDec::Done(ValuePacketV::PubAckPacket(v), n),
                SpecDec::Incomplete => SpecDec::Incomplete,
                SpecDec::Malformed => SpecDec::Malformed,
            }
        } else if t == 5 {
            match pubrec_dec(s) {
                SpecDec::Done(v, n) => SpecDec::Done(ValuePacketV::PubRecPacket(v), n),
                SpecDec::Incomplete => SpecDec::Incomplete,
                SpecDec::Malformed => SpecDec::Malformed,
            }
        } else if t == 6 {
            match pubrel_dec(s) {
                SpecDec::Done(v, n) => SpecDec::Done(ValuePacketV::PubRelPacket(v), n),
                SpecDec::Incomplete => SpecDec::Incomplete,
                SpecDec::Malformed => SpecDec::Malformed,
            }
        } else if t == 7 {
            match pubcomp_dec(s) {
                SpecDec::Done(v, n) => SpecDec::Done(ValuePacketV::PubCompPacket(v), n),
                SpecDec::Incomplete => SpecDec::Incomplete,
                SpecDec::Malformed => SpecDec::Malformed,
            }
        } else if t == 8 {
            match subscribe_dec(s) {
                SpecDec::Done(v, n) => SpecDec::Done(ValuePacketV::SubscribePacket(v), n),
                SpecDec::Incomplete => SpecDec::Incomplete,
                SpecDec::Malformed => SpecDec::Malformed,
            }
        } else if t == 9 {
            match suback_dec(s) {
                SpecDec::Done(v, n) => SpecDec::Done(ValuePacketV::SubAckPacket(v), n),
                SpecDec::Incomplete => SpecDec::Incomplete,
                SpecDec::Malformed => SpecDec::Malformed,
            }
        } else if t == 10 {
            match unsubscribe_dec(s) {
                SpecDec::Done(v, n) => SpecDec::Done(ValuePacketV::UnsubscribePacket(v), n),
                SpecDec::Incomplete => SpecDec::Incomplete,
                SpecDec::Malformed => SpecDec::Malformed,
            }
        } else if t == 11 {
            match unsuback_dec(s) {
                SpecDec::Done(v, n) => SpecDec::Done(ValuePacketV::UnSubAckPacket(v), n),
                SpecDec::Incomplete => SpecDec::Incomplete,
                SpecDec::Malformed => SpecDec::Malformed,
            }
        } else if t == 12 {
            match pingreq_dec(s) {
                SpecDec::Done(v, n) => SpecDec::Done(ValuePacketV::PingReqPacket(v), n),
                SpecDec::Incomplete => SpecDec::Incomplete,
                SpecDec::Malformed => SpecDec::Malformed,
            }
        } else if t == 13 {
            match pingresp_dec(s) {
                SpecDec::Done(v, n) => SpecDec::Done(ValuePacketV::PingRespPacket(v), n),
                SpecDec::Incomplete => SpecDec::Incomplete,
                SpecDec::Malformed => SpecDec::Malformed,
            }
        } else if t == 14 {
            match disconnect_dec(s) {
                SpecDec::Done(v, n) => SpecDec::Done(ValuePacketV::DisconnectPacket(v), n),
                SpecDec::Incomplete => SpecDec::Incomplete,
                SpecDec::Malformed => SpecDec::Malformed,
            }
        } else {
            SpecDec::Malformed
        }
    }
}

/// Every well-formed packet, encoded and decoded through the dispatcher,
/// comes back as the same value of the same kind, and the decoder consumes
/// exactly the encoding, whatever bytes follow it.
#[verifier::rlimit(60)]
pub proof fn lemma_packet_round_trip(v: ValuePacketV, rest: Seq<u8>)
    requires
        packet_wf(v),
    ensures
        packet_dec(packet_enc(v) + rest) == SpecDec::Done(v, packet_enc(v).len() as int),
{
    let s = packet_enc(v) + rest;
    match v {
        ValuePacketV::ConnectPacket(c) => {
            assert(s[0] == 16);
            lemma_connect_round_trip(c, rest);
        },
        ValuePacketV::ConnackPacket(c) => {
            assert(s[0] == 32);
            lemma_connack_round_trip(c, rest);
        },
        ValuePacketV::PublishPacket(p) => {
            assert(s[0] == (3 * 16 + publish_flags(p)) as u8);
            assert(publish_flags(p) < 16);
            assert(s[0] / 16 == 3);
            lemma_publish_round_trip(p, rest);
        },
        ValuePacketV::PubAckPacket(p) => {
            assert(s[0] == 64);
            lemma_puback_round_trip(p, rest);
        },
        ValuePacketV::PubRecPacket(p) => {
            assert(s[0] == 80);
            lemma_pubrec_round_trip(p, rest);
        },
        ValuePacketV::PubRelPacket(p) => {
            assert(s[0] == 96);
            lemma_pubrel_round_trip(p, rest);
        },
        ValuePacketV::PubCompPacket(p) => {
            assert(s[0] == 112);
            lemma_pubcomp_round_trip(p, rest);
        },
        ValuePacketV::SubscribePacket(p) => {
            assert(s[0] == 130);
            lemma_subscribe_round_trip(p, rest);
        },
        ValuePacketV::SubAckPacket(p) => {
            assert(s[0] == 144);
            lemma_suback_round_trip(p, rest);
        },
        ValuePacketV::UnsubscribePacket(p) => {
            assert(s[0] == 160);
            lemma_unsubscribe_round_trip(p, rest);
        },
        ValuePacketV::UnSubAckPacket(p) => {
            assert(s[0] == 176);
            lemma_unsuback_round_trip(p, rest);
        },
        ValuePacketV::PingReqPacket(p) => {
            assert(s[0] == 192);
            lemma_pingreq_round_trip(p, rest);
        },
        ValuePacketV::PingRespPacket(p) => {
            assert(s[0] == 208);
            lemma_pingresp_round_trip(p, rest);
        },
        ValuePacketV::DisconnectPacket(p) => {
            assert(s[0] == 224);
            lemma_disconnect_round_trip(p, rest);
        },
    }
}

/// Every well-formed packet's encoding is its fixed header followed by
/// exactly as many bytes as the remaining-length field says.
#[verifier::rlimit(60)]
pub proof fn lemma_remaining_length_consistent(v: ValuePacketV)
    requires
        packet_wf(v),
    ensures
        packet_enc(v).len() == packet_header_len(v) + packet_remaining(v),
        packet_enc(v).skip(packet_header_len(v)) == packet_body(v),
{
    match v {
        ValuePacketV::ConnectPacket(c) => {
            assert(packet_enc(v).skip(packet_header_len(v)) =~= packet_body(v));
        },
        ValuePacketV::ConnackPacket(c) => {
            assert(packet_enc(v).skip(packet_header_len(v)) =~= packet_body(v));
        },
        ValuePacketV::PublishPacket(p) => {
            assert(packet_enc(v).skip(packet_header_len(v)) =~= packet_body(v));
        },
        ValuePacketV::PubAckPacket(p) => {
            assert(packet_enc(v).skip(packet_header_len(v)) =~= packet_body(v));
        },
        ValuePacketV::PubRecPacket(p) => {
            assert(packet_enc(v).skip(packet_header_len(v)) =~= packet_body(v));
        },
        ValuePacketV::PubRelPacket(p) => {
            assert(packet_enc(v).skip(packet_header_len(v)) =~= packet_body(v));
        },
        ValuePacketV::PubCompPacket(p) => {
            assert(packet_enc(v).skip(packet_header_len(v)) =~= packet_body(v));
        },
        ValuePacketV::SubscribePacket(p) => {
            assert(packet_enc(v).skip(packet_header_len(v)) =~= packet_body(v));
        },
        ValuePacketV::SubAckPacket(p) => {
            assert(packet_enc(v).skip(packet_header_len(v)) =~= packet_body(v));
        },
        ValuePacketV::UnsubscribePacket(p) => {
            assert(packet_enc(v).skip(packet_header_len(v)) =~= packet_body(v));
        },
        ValuePacketV::UnSubAckPacket(p) => {
            assert(packet_enc(v).skip(packet_header_len(v)) =~= packet_body(v));
        },
        ValuePacketV::PingReqPacket(p) => {
            assert(packet_enc(v).skip(packet_header_len(v)) =~= packet_body(v));
        },
        ValuePacketV::PingRespPacket(p) => {
            assert(packet_enc(v).skip(packet_header_len(v)) =~= packet_body(v));
        },
        ValuePacketV::DisconnectPacket(p) => {
            assert(packet_enc(v).skip(packet_header_len(v)) =~= packet_body(v));
        },
    }
}

/// A packet value of any of the fourteen kinds.
#[derive(Debug)]
pub enum ValuePacket {
    ConnectPacket(Connect),
    ConnackPacket(Connack),
    PublishPacket(Publish),
    PubAckPacket(PubAck),
    PubRecPacket(PubRec),
    PubRelPacket(PubRel),
    PubCompPacket(PubComp),
    SubscribePacket(Subscribe),
    SubAckPacket(SubAck),
    UnsubscribePacket(Unsubscribe),
    UnSubAckPacket(UnSubAck),
    PingReqPacket(PingReq),
    PingRespPacket(PingResp),
    DisconnectPacket(Disconnect),
}

impl View for ValuePacket {
    type V = ValuePacketV;

    closed spec fn view(&self) -> ValuePacketV {
        match self {
            ValuePacket::ConnectPacket(p) => ValuePacketV::ConnectPacket(p@),
            ValuePacket::ConnackPacket(p) => ValuePacketV::ConnackPacket(p@),
            ValuePacket::PublishPacket(p) => ValuePacketV::PublishPacket(p@),
            ValuePacket::PubAckPacket(p) => ValuePacketV::PubAckPacket(p@),
            ValuePacket::PubRecPacket(p) => ValuePacketV::PubRecPacket(p@),
            ValuePacket::PubRelPacket(p) => ValuePacketV::PubRelPacket(p@),
            ValuePacket::PubCompPacket(p) => ValuePacketV::PubCompPacket(p@),
            ValuePacket::SubscribePacket(p) => ValuePacketV::SubscribePacket(p@),
            ValuePacket::SubAckPacket(p) => ValuePacketV::SubAckPacket(p@),
            ValuePacket::UnsubscribePacket(p) => ValuePacketV::UnsubscribePacket(p@),
            ValuePacket::UnSubAckPacket(p) => ValuePacketV::UnSubAckPacket(p@),
            ValuePacket::PingReqPacket(p) => ValuePacketV::PingReqPacket(p@),
            ValuePacket::PingRespPacket(p) => ValuePacketV::PingRespPacket(p@),
            ValuePacket::DisconnectPacket(p) => ValuePacketV::DisconnectPacket(p@),
        }
    }
}

impl ValuePacket {
    /// Each variant's own well-formedness.
    pub open spec fn wf(&self) -> bool {
        match self {
            ValuePacket::ConnectPacket(p) => p.wf(),
            ValuePacket::ConnackPacket(p) => p.wf(),
            ValuePacket::PublishPacket(p) => p.wf(),
            ValuePacket::PubAckPacket(p) => p.wf(),
            ValuePacket::PubRecPacket(p) => p.wf(),
            ValuePacket::PubRelPacket(p) => p.wf(),
            ValuePacket::PubCompPacket(p) => p.wf(),
            ValuePacket::SubscribePacket(p) => p.wf(),
            ValuePacket::SubAckPacket(p) => p.wf(),
            ValuePacket::UnsubscribePacket(p) => p.wf(),
            ValuePacket::UnSubAckPacket(p) => p.wf(),
            ValuePacket::PingReqPacket(p) => p.wf(),
            ValuePacket::PingRespPacket(p) => p.wf(),
            ValuePacket::DisconnectPacket(p) => p.wf(),
        }
    }

    /// How many bytes the packet at the front of the buffer occupies in all,
    /// judged by the fixed header alone.
    pub fn get_packet_length(b: &bytes::BytesMut) -> (r: Result<u32, DecodeError>)
        ensures
            match frame_size(bytes_view(*b)) {
                SpecDec::Done(total, _) => r matches Ok(n) && n == total,
                SpecDec::Incomplete => r == Err::<u32, DecodeError>(DecodeError::NotEnoughBytes),
                SpecDec::Malformed => r == Err::<u32, DecodeError>(DecodeError::Malformed),
            },
    {
        let s = buf_as_slice(b);
        let (_, _, rem, hl) = match read_fixed_header(s) {
            Ok(h) => h,
            Err(e) => {
                return Err(e);
            },
        };
        Ok(hl as u32 + rem)
    }

    /// Decodes whichever packet the type nibble selects, consuming exactly
    /// the packet on success and nothing otherwise.
    #[verifier::rlimit(100)]
    #[verifier::spinoff_prover]
    pub fn decode(b: &mut bytes::BytesMut) -> (r: Result<ValuePacket, DecodeError>)
        ensures
            match packet_dec(bytes_view(*old(b))) {
                SpecDec::Done(v, n) => (r matches Ok(p) && p@ == v && p.wf()) && bytes_view(
                    *final(b),
                ) == bytes_view(*old(b)).skip(n),
                SpecDec::Incomplete => (r matches Err(e) && e == DecodeError::NotEnoughBytes)
                    && bytes_view(*final(b)) == bytes_view(*old(b)),
                SpecDec::Malformed => (r matches Err(e) && e == DecodeError::Malformed)
                    && bytes_view(*final(b)) == bytes_view(*old(b)),
            },
    {
        let ptype: u8;
        {
            let s = buf_as_slice(b);
            if s.len() == 0 {
                return Err(DecodeError::NotEnoughBytes);
            }
            ptype = s[0] / 16;
        }
        if ptype == 1 {
            match Connect::decode(b) {
                Ok(p) => Ok(ValuePacket::ConnectPacket(p)),
                Err(e) => Err(e),
            }
        } else if ptype == 2 {
            match Connack::decode(b) {
                Ok(p) => Ok(ValuePacket::ConnackPacket(p)),
                Err(e) => Err(e),
            }
        } else if ptype == 3 {
            match Publish::decode(b) {
                Ok(p) => Ok(ValuePacket::PublishPacket(p)),
                Err(e) => Err(e),
            }
        } else if ptype == 4 {
            match PubAck::decode(b) {
                Ok(p) => Ok(ValuePacket::PubAckPacket(p)),
                Err(e) => Err(e),
            }
        } else if ptype == 5 {
            match PubRec::decode(b) {
                Ok(p) => Ok(ValuePacket::PubRecPacket(p)),
                Err(e) => Err(e),
            }
        } else if ptype == 6 {
            match PubRel::decode(b) {
                Ok(p) => Ok(ValuePacket::PubRelPacket(p)),
                Err(e) => Err(e),
            }
        } else if ptype == 7 {
            match PubComp::decode(b) {
                Ok(p) => Ok(ValuePacket::PubCompPacket(p)),
                Err(e) => Err(e),
            }
        } else if ptype == 8 {
            match Subscribe::decode(b) {
                Ok(p) => Ok(ValuePacket::SubscribePacket(p)),
                Err(e) => Err(e),
            }
        } else if ptype == 9 {
            match SubAck::decode(b) {
                Ok(p) => Ok(ValuePacket::SubAckPacket(p)),
                Err(e) => Err(e),
            }
        } else if ptype == 10 {
            match Unsubscribe::decode(b) {
                Ok(p) => Ok(ValuePacket::UnsubscribePacket(p)),
                Err(e) => Err(e),
            }
        } else if ptype == 11 {
            match UnSubAck::decode(b) {
                Ok(p) => Ok(ValuePacket::UnSubAckPacket(p)),
                Err(e) => Err(e),
            }
        } else if ptype == 12 {
            match PingReq::decode(b) {
                Ok(p) => Ok(ValuePacket::PingReqPacket(p)),
                Err(e) => Err(e),
            }
        } else if ptype == 13 {
            match PingResp::decode(b) {
                Ok(p) => Ok(ValuePacket::PingRespPacket(p)),
                Err(e) => Err(e),
            }
        } else if ptype == 14 {
            match Disconnect::decode(b) {
                Ok(p) => Ok(ValuePacket::DisconnectPacket(p)),
                Err(e) => Err(e),
            }
        } else {
            Err(DecodeError::Malformed)
        }
    }
}

impl Encodable for ValuePacket {
    open spec fn wire(&self) -> Seq<u8> {
        packet_enc(self@)
    }

    open spec fn wire_wf(&self) -> bool {
        self.wf()
    }

    fn encode(&self) -> (r: Result<Vec<u8>, EncodeError>) {
        match self {
            ValuePacket::ConnectPacket(p) => p.encode(),
            ValuePacket::ConnackPacket(p) => p.encode(),
            ValuePacket::PublishPacket(p) => p.encode(),
            ValuePacket::PubAckPacket(p) => p.encode(),
            ValuePacket::PubRecPacket(p) => p.encode(),
            ValuePacket::PubRelPacket(p) => p.encode(),
            ValuePacket::PubCompPacket(p) => p.encode(),
            ValuePacket::SubscribePacket(p) => p.encode(),
            ValuePacket::SubAckPacket(p) => p.encode(),
            ValuePacket::UnsubscribePacket(p) => p.encode(),
            ValuePacket::UnSubAckPacket(p) => p.encode(),
            ValuePacket::PingReqPacket(p) => p.encode(),
            ValuePacket::PingRespPacket(p) => p.encode(),
            ValuePacket::DisconnectPacket(p) => p.encode(),
        }
    }

    fn encode_length(&self) -> (r: Result<u32, EncodeError>) {
        match self {
            ValuePacket::ConnectPacket(p) => p.encode_length(),
            ValuePacket::ConnackPacket(p) => p.encode_length(),
            ValuePacket::PublishPacket(p) => p.encode_length(),
            ValuePacket::PubAckPacket(p) => p.encode_length(),
            ValuePacket::PubRecPacket(p) => p.encode_length(),
            ValuePacket::PubRelPacket(p) => p.encode_length(),
            ValuePacket::PubCompPacket(p) => p.encode_length(),
            ValuePacket::SubscribePacket(p) => p.encode_length(),
            ValuePacket::SubAckPacket(p) => p.encode_length(),
            ValuePacket::UnsubscribePacket(p) => p.encode_length(),
            ValuePacket::UnSubAckPacket(p) => p.encode_length(),
            ValuePacket::PingReqPacket(p) => p.encode_length(),
            ValuePacket::PingRespPacket(p) => p.encode_length(),
            ValuePacket::DisconnectPacket(p) => p.encode_length(),
        }
    }
}

} // verus!
