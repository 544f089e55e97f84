//! The PUBLISH packet: the only packet whose fixed-header flags carry
//! meaning, and whose payload is the rest of the packet.
use vstd::prelude::*;
use crate::buffer::{buf_advance, buf_as_slice, bytes_view};
use crate::packet::{encode_fixedheader, read_fixed_header, read_str, read_u16_at};
use crate::variable_header::{PacketIdentifier, TopicName};
use crate::wire::{
    enc_str, enc_u16, fh_dec, fh_enc, str_field, str_wf, u16_of, SpecDec, VBI_MAX,
};
use crate::{encode_u16_bytes, DecodeError, Encodable, EncodeError};
use vstd::slice::{slice_subrange, slice_to_vec};
use vstd::utf8::{decode_utf8_encode_utf8, encode_utf8};

verus! {

/// What a PUBLISH carries: the delivery flags, the topic, the packet
/// identifier when the quality of service asks for one, and the message
/// itself.
#[verifier::ext_equal]
pub struct PublishV {
    pub dup: bool,
    pub qos: u8,
    pub retain: bool,
    pub topic_name: Seq<char>,
    pub packet_identifier: Option<u16>,
    pub payload: Seq<u8>,
}

/// A PUBLISH fits the wire when its topic fits a string field, its quality of
/// service is a level, the packet identifier is present exactly when the
/// level is above zero, and the body fits the remaining-length field.
pub open spec fn publish_wf(v: PublishV) -> bool {
    &&& str_wf(v.topic_name)
    &&& v.qos <= 2
    &&& (v.packet_identifier is Some <==> v.qos > 0)
    &&& publish_body(v).len() <= VBI_MAX
}

/// The body after the fixed header: topic, then the identifier when QoS is
/// above zero, then the payload bytes verbatim.
pub open spec fn publish_body(v: PublishV) -> Seq<u8> {
    enc_str(v.topic_name) + (match v.packet_identifier {
        Some(pid) => enc_u16(pid),
        None => Seq::<u8>::empty(),
    }) + v.payload
}

/// The flags nibble: DUP at bit 3, QoS at bits 2-1, RETAIN at bit 0.
pub open spec fn publish_flags(v: PublishV) -> u8 {
    ((if v.dup {
        8int
    } else {
        0int
    }) + (v.qos % 4) * 2 + (if v.retain {
        1int
    } else {
        0int
    })) as u8
}

pub open spec fn publish_enc(v: PublishV) -> Seq<u8> {
    fh_enc(3, publish_flags(v), publish_body(v).len() as int) + publish_body(v)
}

/// Decodes the body of a PUBLISH whose byte count is already settled.
pub open spec fn publish_body_dec(body: Seq<u8>, dup: bool, qos: u8, retain: bool) -> Option<
    PublishV,
> {
    match str_field(body) {
        Some(p) => {
            let topic = p.0;
            let n1 = p.1;
            if qos > 0 {
                if body.len() < n1 + 2 {
                    None
                } else {
                    Some(
                        PublishV {
                            dup,
                            qos,
                            retain,
                            topic_name: topic,
                            packet_identifier: Some(u16_of(body[n1], body[n1 + 1])),
                            payload: body.skip(n1 + 2),
                        },
                    )
                }
            } else {
                Some(
                    PublishV {
                        dup,
                        qos,
                        retain,
                        topic_name: topic,
                        packet_identifier: None,
                        payload: body.skip(n1),
                    },
                )
            }
        },
        None => None,
    }
}

/// Decodes a PUBLISH from the front of `s`.
pub open spec fn publish_dec(s: Seq<u8>) -> SpecDec<PublishV> {
    match fh_dec(s) {
        SpecDec::Done(h, hl) => {
            if h.0 != 3 || h.1 / 2 % 4 == 3 {
                SpecDec::Malformed
            } else if s.len() < hl + h.2 {
                SpecDec::Incomplete
            } else {
                match publish_body_dec(
                    s.subrange(hl, hl + h.2),
                    h.1 / 8 % 2 == 1,
                    (h.1 / 2 % 4) as u8,
                    h.1 % 2 == 1,
                ) {
                    Some(v) => SpecDec::Done(v, hl + h.2),
                    None => SpecDec::Malformed,
                }
            }
        },
        SpecDec::Incomplete => SpecDec::Incomplete,
        SpecDec::Malformed => SpecDec::Malformed,
    }
}

proof fn lemma_publish_flags_unpack(d: u8, q: u8, r: u8)
    requires
        d <= 1,
        q <= 3,
        r <= 1,
    ensures
        ({
            let n = (8 * d + 2 * q + r) as u8;
            &&& n / 8 % 2 == d
            &&& n / 2 % 4 == q
            &&& n % 2 == r
            &&& n < 16
        }),
{
    assert(({
        let n = (8 * d + 2 * q + r) as u8;
        &&& n / 8 % 2 == d
        &&& n / 2 % 4 == q
        &&& n % 2 == r
        &&& n < 16
    })) by (bit_vector)
        requires
            d <= 1,
            q <= 3,
            r <= 1,
    ;
}

/// Decoding what was encoded returns the same content and consumes exactly
/// the encoding, whatever follows it.
#[verifier::rlimit(30)]
pub proof fn lemma_publish_round_trip(v: PublishV, rest: Seq<u8>)
    requires
        publish_wf(v),
    ensures
        publish_dec(publish_enc(v) + rest) == SpecDec::Done(v, publish_enc(v).len() as int),
{
    let body = publish_body(v);
    let fl = publish_flags(v);
    let s = publish_enc(v) + rest;
    let d: u8 = if v.dup {
        1
    } else {
        0
    };
    let r: u8 = if v.retain {
        1
    } else {
        0
    };
    lemma_publish_flags_unpack(d, v.qos, r);
    assert(fl == (8 * d + 2 * v.qos + r) as u8);
    assert(s =~= crate::wire::fh_enc(3, fl, body.len() as int) + (body + rest));
    crate::wire::lemma_fh_round_trip(3, fl, body.len() as int, body + rest);
    let hl = 1 + crate::wire::vbi_enc(body.len() as int).len() as int;
    assert(s.subrange(hl, hl + body.len()) =~= body);
    // the body parses back to the same fields
    let mid: Seq<u8> = match v.packet_identifier {
        Some(pid) => enc_u16(pid),
        None => Seq::<u8>::empty(),
    };
    assert(body =~= enc_str(v.topic_name) + (mid + v.payload));
    crate::wire::lemma_str_round_trip(v.topic_name, mid + v.payload);
    let n1 = 2 + encode_utf8(v.topic_name).len() as int;
    assert(str_field(body) == Some((v.topic_name, n1)));
    if v.qos > 0 {
        let pid = v.packet_identifier->Some_0;
        assert(body[n1] == enc_u16(pid)[0]);
        assert(body[n1 + 1] == enc_u16(pid)[1]);
        assert(u16_of(enc_u16(pid)[0], enc_u16(pid)[1]) == pid);
        assert(body.skip(n1 + 2) =~= v.payload);
        assert(publish_body_dec(body, v.dup, v.qos, v.retain) matches Some(w) && w =~= v);
    } else {
        assert(body.skip(n1) =~= v.payload);
        assert(publish_body_dec(body, v.dup, v.qos, v.retain) matches Some(w) && w =~= v);
    }
}

/// The fixed header of a PUBLISH, with its flags unpacked.
#[derive(Debug, Clone, Copy, PartialEq, Eq, Structural)]
pub struct PublishFixedHeader {
    pub packet_type: u8,
    pub dup_flag: bool,
    pub qos_level: u8,
    pub retain: bool,
    pub remaining_length: u32,
}

/// A PUBLISH packet value.
#[derive(Debug)]
pub struct Publish {
    fixed_header: PublishFixedHeader,
    topic_name: TopicName,
    packet_identifier: Option<PacketIdentifier>,
    payload: Vec<u8>,
}

impl View for Publish {
    type V = PublishV;

    closed spec fn view(&self) -> PublishV {
        PublishV {
            dup: self.fixed_header.dup_flag,
            qos: self.fixed_header.qos_level,
            retain: self.fixed_header.retain,
            topic_name: self.topic_name.0@,
            packet_identifier: match self.packet_identifier {
                Some(p) => Some(p.0),
                None => None,
            },
            payload: self.payload@,
        }
    }
}

impl Publish {
    /// The fields fit the wire and the stored remaining length is the body's
    /// byte count.
    pub closed spec fn wf(&self) -> bool {
        &&& self.fixed_header.packet_type == 3
        &&& publish_wf(self@)
        &&& self.fixed_header.remaining_length == publish_body(self@).len()
    }

    /// A sample PUBLISH: topic `"a/b"`, quality of service 0 (so no packet
    /// identifier), a three-byte payload.
    pub fn new() -> (r: Publish)
        ensures
            r.wf(),
            r@.topic_name == "a/b"@,
            r@.qos == 0,
            r@.packet_identifier is None,
    {
        let topic: String = "a/b".to_owned();
        proof {
            reveal_strlit("a/b");
            lemma_short_ascii_str_wf(topic@);
        }
        let payload: Vec<u8> = vec![32, 32, 32];
        let mut publish = Publish {
            fixed_header: PublishFixedHeader {
                packet_type: 3,
                dup_flag: false,
                qos_level: 0,
                retain: false,
                remaining_length: 0,
            },
            topic_name: TopicName(topic),
            packet_identifier: None,
            payload,
        };
        let r = publish.calculate_remaining_length();
        proof {
            assert(r is Ok);
        }
        publish
    }

    /// Recomputes the stored remaining length from the fields. Fails, leaving
    /// the content unchanged, exactly when the topic cannot fit a string
    /// field or the body cannot fit the remaining-length encoding.
    pub fn calculate_remaining_length(&mut self) -> (r: Result<(), EncodeError>)
        ensures
            final(self)@ == old(self)@,
            ({
                let v = old(self)@;
                if !str_wf(v.topic_name) {
                    r == Err::<(), EncodeError>(EncodeError::FieldTooLong)
                } else if publish_body(v).len() > VBI_MAX {
                    r == Err::<(), EncodeError>(EncodeError::RemainingLengthOutOfRange)
                } else {
                    r is Ok && (old(self).shape_wf() ==> final(self).wf())
                }
            }),
    {
        let tl = self.topic_name.0.as_str().as_bytes_vec().len();
        if tl > 0xFFFF {
            return Err(EncodeError::FieldTooLong);
        }
        let pid_len: u64 = match self.packet_identifier {
            Some(_) => 2,
            None => 0,
        };
        let pl = self.payload.len();
        proof {
            assert(publish_body(self@).len() == 2 + tl + pid_len + pl);
        }
        if pl as u64 > VBI_MAX as u64 {
            return Err(EncodeError::RemainingLengthOutOfRange);
        }
        let total: u64 = 2 + (tl as u64) + pid_len + (pl as u64);
        if total > VBI_MAX as u64 {
            return Err(EncodeError::RemainingLengthOutOfRange);
        }
        self.fixed_header.remaining_length = total as u32;
        Ok(())
    }

    /// The parts of well-formedness that do not depend on field sizes: the
    /// type nibble, a QoS that is a level, and the identifier present exactly
    /// when the level asks for it.
    pub closed spec fn shape_wf(&self) -> bool {
        &&& self.fixed_header.packet_type == 3
        &&& self.fixed_header.qos_level <= 2
        &&& (self.packet_identifier is Some <==> self.fixed_header.qos_level > 0)
    }

    /// Decodes a PUBLISH from the front of the buffer, consuming exactly the
    /// packet on success and nothing otherwise.
    #[verifier::rlimit(100)]
    #[verifier::spinoff_prover]
    pub fn decode(b: &mut bytes::BytesMut) -> (r: Result<Publish, DecodeError>)
        ensures
            match publish_dec(bytes_view(*old(b))) {
                SpecDec::Done(v, n) => (r matches Ok(p) && p@ == v && p.wf()) && bytes_view(
                    *final(b),
                ) == bytes_view(*old(b)).skip(n),
                SpecDec::Incomplete => (r matches Err(e) && e == DecodeError::NotEnoughBytes)
                    && bytes_view(*final(b)) == bytes_view(*old(b)),
                SpecDec::Malformed => (r matches Err(e) && e == DecodeError::Malformed)
                    && bytes_view(*final(b)) == bytes_view(*old(b)),
            },
    {
        let dup: bool;
        let qos: u8;
        let retain: bool;
        let topic: String;
        let pid: Option<PacketIdentifier>;
        let payload: Vec<u8>;
        let rem: u32;
        let total: usize;
        {
            let s = buf_as_slice(b);
            let (t, fl, rem0, hl) = match read_fixed_header(s) {
                Ok(h) => h,
                Err(e) => {
                    return Err(e);
                },
            };
            if t != 3 || fl / 2 % 4 == 3 {
                return Err(DecodeError::Malformed);
            }
            dup = fl / 8 % 2 == 1;
            qos = fl / 2 % 4;
            retain = fl % 2 == 1;
            rem = rem0;
            let rem_us = rem0 as usize;
            if s.len() - hl < rem_us {
                return Err(DecodeError::NotEnoughBytes);
            }
            let end = hl + rem_us;
            let ghost body = s@.subrange(hl as int, end as int);
            let (tp, i) = match read_str(s, hl, end) {
                Ok(p) => p,
                Err(e) => {
                    return Err(e);
                },
            };
            topic = tp;
            let j: usize;
            if qos > 0 {
                if end - i < 2 {
                    return Err(DecodeError::Malformed);
                }
                proof {
                    assert(body[i - hl] == s@[i as int]);
                    assert(body[i - hl + 1] == s@[i as int + 1]);
                }
                pid = Some(PacketIdentifier(read_u16_at(s, i)));
                j = i + 2;
            } else {
                pid = None;
                j = i;
            }
            payload = slice_to_vec(slice_subrange(s, j, end));
            proof {
                assert(body.skip(j - hl) =~= s@.subrange(j as int, end as int));
                let dv = publish_body_dec(body, dup, qos, retain);
                assert(dv is Some);
                let topic_bytes = body.subrange(2, 2 + (u16_of(body[0], body[1]) as int));
                decode_utf8_encode_utf8(topic_bytes);
                assert(str_wf(dv->Some_0.topic_name));
            }
            total = end;
        }
        buf_advance(b, total);
        Ok(
            Publish {
                fixed_header: PublishFixedHeader {
                    packet_type: 3,
                    dup_flag: dup,
                    qos_level: qos,
                    retain,
                    remaining_length: rem,
                },
                topic_name: TopicName(topic),
                packet_identifier: pid,
                payload,
            },
        )
    }
}

/// A short all-ASCII character sequence fits a string field: each character
/// encodes to one byte.
pub proof fn lemma_short_ascii_str_wf(s: Seq<char>)
    requires
        vstd::utf8::is_ascii_chars(s),
        s.len() <= 0xFFFF,
    ensures
        str_wf(s),
        encode_utf8(s).len() == s.len(),
{
    vstd::utf8::is_ascii_chars_encode_utf8(s);
}

impl Encodable for Publish {
    open spec fn wire(&self) -> Seq<u8> {
        publish_enc(self@)
    }

    open spec fn wire_wf(&self) -> bool {
        self.wf()
    }

    fn encode(&self) -> (r: Result<Vec<u8>, EncodeError>) {
        let d: u8 = if self.fixed_header.dup_flag {
            8
        } else {
            0
        };
        let rt: u8 = if self.fixed_header.retain {
            1
        } else {
            0
        };
        let flags: u8 = d + self.fixed_header.qos_level % 4 * 2 + rt;
        let mut v = match encode_fixedheader(3, flags, self.fixed_header.remaining_length) {
            Ok(v) => v,
            Err(e) => {
                return Err(e);
            },
        };
        let mut topic = match self.topic_name.0.encode() {
            Ok(t) => t,
            Err(e) => {
                return Err(e);
            },
        };
        v.append(&mut topic);
        match &self.packet_identifier {
            Some(p) => {
                let mut pid = encode_u16_bytes(p.0);
                v.append(&mut pid);
            },
            None => {},
        }
        let mut pl = slice_to_vec(self.payload.as_slice());
        v.append(&mut pl);
        proof {
            if self.wf() {
                assert(v@ =~= publish_enc(self@));
            }
        }
        Ok(v)
    }

    fn encode_length(&self) -> (r: Result<u32, EncodeError>) {
        match crate::packet::get_remaining_length_bytes(self.fixed_header.remaining_length) {
            Ok(n) => Ok(n + self.fixed_header.remaining_length),
            Err(e) => Err(e),
        }
    }
}

} // verus!
