//! The SUBSCRIBE packet: a packet identifier and one or more topic filters,
//! each with a requested quality of service.
use vstd::prelude::*;
use crate::buffer::{buf_advance, buf_as_slice, bytes_view};
use crate::packet::publish::lemma_short_ascii_str_wf;
use crate::packet::{encode_fixedheader, read_fixed_header, read_str, read_u16_at, FixedHeader};
use crate::qos::{qos_byte, qos_from_byte, qos_of_byte, QualityOfService};
use crate::topic_name::TopicName;
use crate::variable_header::PacketIdentifier;
use crate::wire::{
    enc_str, enc_u16, fh_dec, fh_enc, lemma_fh_round_trip, lemma_str_round_trip, str_field,
    str_wf, u16_of, SpecDec, VBI_MAX,
};
use crate::{encode_u16_bytes, DecodeError, Encodable, EncodeError};
use vstd::utf8::encode_utf8;

verus! {

/// What a SUBSCRIBE carries: a packet identifier and the requested
/// subscriptions, each a filter with a quality-of-service level.
#[verifier::ext_equal]
pub struct SubscribeV {
    pub packet_identifier: u16,
    pub subscribes: Seq<(Seq<char>, QualityOfService)>,
}

/// The subscriptions, each a string field followed by one QoS byte.
pub open spec fn pairs_enc(ps: Seq<(Seq<char>, QualityOfService)>) -> Seq<u8>
    decreases ps.len(),
{
    if ps.len() == 0 {
        Seq::<u8>::empty()
    } else {
        enc_str(ps[0].0) + seq![qos_byte(ps[0].1)] + pairs_enc(ps.skip(1))
    }
}

/// Filter-and-QoS pairs read until the bytes run out; `None` when a field is
/// broken, a QoS byte is not a level, or a field runs past the end.
pub open spec fn pairs_dec(s: Seq<u8>) -> Option<Seq<(Seq<char>, QualityOfService)>>
    decreases s.len(),
{
    if s.len() == 0 {
        Some(Seq::<(Seq<char>, QualityOfService)>::empty())
    } else {
        match str_field(s) {
            Some(p) => {
                if 0 < p.1 && p.1 + 1 <= s.len() {
                    match qos_of_byte(s[p.1]) {
                        Some(q) => match pairs_dec(s.skip(p.1 + 1)) {
                            Some(t) => Some(seq![(p.0, q)] + t),
                            None => None,
                        },
                        None => None,
                    }
                } else {
                    None
                }
            },
            None => None,
        }
    }
}

/// Splitting a subscription list splits its encoding.
pub proof fn lemma_pairs_enc_split(ps: Seq<(Seq<char>, QualityOfService)>, i: int)
    requires
        0 <= i <= ps.len(),
    ensures
        pairs_enc(ps) == pairs_enc(ps.take(i)) + pairs_enc(ps.skip(i)),
    decreases i,
{
    if i == 0 {
        assert(ps.take(0) =~= Seq::<(Seq<char>, QualityOfService)>::empty());
        assert(ps.skip(0) =~= ps);
        assert(pairs_enc(ps.take(0)) + pairs_enc(ps) =~= pairs_enc(ps));
    } else {
        lemma_pairs_enc_split(ps.skip(1), i - 1);
        assert(ps.skip(1).take(i - 1) =~= ps.take(i).skip(1));
        assert(ps.skip(1).skip(i - 1) =~= ps.skip(i));
        assert(ps.take(i).len() != 0 && ps.take(i)[0] == ps[0]);
        let head = enc_str(ps[0].0) + seq![qos_byte(ps[0].1)];
        assert(head + (pairs_enc(ps.take(i).skip(1)) + pairs_enc(ps.skip(i))) =~= (head
            + pairs_enc(ps.take(i).skip(1))) + pairs_enc(ps.skip(i)));
    }
}

/// Appending one subscription appends its field and byte.
pub proof fn lemma_pairs_enc_push(
    ps: Seq<(Seq<char>, QualityOfService)>,
    x: (Seq<char>, QualityOfService),
)
    ensures
        pairs_enc(ps.push(x)) == pairs_enc(ps) + enc_str(x.0) + seq![qos_byte(x.1)],
{
    lemma_pairs_enc_split(ps.push(x), ps.len() as int);
    assert(ps.push(x).take(ps.len() as int) =~= ps);
    assert(ps.push(x).skip(ps.len() as int) =~= seq![x]);
    assert(seq![x].skip(1) =~= Seq::<(Seq<char>, QualityOfService)>::empty());
    assert(pairs_enc(seq![x]) =~= enc_str(x.0) + seq![qos_byte(x.1)] + pairs_enc(
        Seq::<(Seq<char>, QualityOfService)>::empty(),
    ));
    assert(pairs_enc(ps) + (enc_str(x.0) + seq![qos_byte(x.1)] + Seq::<u8>::empty()) =~= pairs_enc(
        ps,
    ) + enc_str(x.0) + seq![qos_byte(x.1)]);
}

/// With every filter well formed, the encoding's size is linear in the count.
pub proof fn lemma_pairs_enc_len(ps: Seq<(Seq<char>, QualityOfService)>)
    requires
        forall|i: int| 0 <= i < ps.len() ==> str_wf(#[trigger] ps[i].0),
    ensures
        pairs_enc(ps).len() <= ps.len() * 65538,
    decreases ps.len(),
{
    if ps.len() != 0 {
        assert(str_wf(ps[0].0));
        lemma_pairs_enc_len(ps.skip(1));
    }
}

/// Decoding an encoded subscription list returns the same subscriptions.
pub proof fn lemma_pairs_round_trip(ps: Seq<(Seq<char>, QualityOfService)>)
    requires
        forall|i: int| 0 <= i < ps.len() ==> str_wf(#[trigger] ps[i].0),
    ensures
        pairs_dec(pairs_enc(ps)) == Some(ps),
    decreases ps.len(),
{
    if ps.len() == 0 {
        assert(ps =~= Seq::<(Seq<char>, QualityOfService)>::empty());
    } else {
        let head = ps[0];
        let rest = ps.skip(1);
        let s = pairs_enc(ps);
        assert(str_wf(head.0));
        assert(s =~= enc_str(head.0) + (seq![qos_byte(head.1)] + pairs_enc(rest)));
        lemma_str_round_trip(head.0, seq![qos_byte(head.1)] + pairs_enc(rest));
        let n = 2 + encode_utf8(head.0).len() as int;
        assert(s[n] == qos_byte(head.1));
        assert(qos_of_byte(qos_byte(head.1)) == Some(head.1));
        assert(s.skip(n + 1) =~= pairs_enc(rest));
        lemma_pairs_round_trip(rest);
        assert(seq![(head.0, head.1)] + rest =~= ps);
    }
}

/// A successfully decoded subscription list re-encodes to exactly the bytes
/// it was read from.
pub proof fn lemma_pairs_dec_enc(s: Seq<u8>)
    ensures
        pairs_dec(s) matches Some(ps) ==> pairs_enc(ps) == s,
    decreases s.len(),
{
    if s.len() == 0 {
        assert(pairs_enc(Seq::<(Seq<char>, QualityOfService)>::empty()) =~= s);
    } else {
        match str_field(s) {
            Some(p) => {
                if 0 < p.1 && p.1 + 1 <= s.len() {
                    lemma_pairs_dec_enc(s.skip(p.1 + 1));
                    let l = u16_of(s[0], s[1]) as int;
                    let sub = s.subrange(2, 2 + l);
                    vstd::utf8::decode_utf8_encode_utf8(sub);
                    assert(enc_str(p.0) =~= s.take(p.1));
                    match qos_of_byte(s[p.1]) {
                        Some(q) => {
                            assert(qos_byte(q) == s[p.1]);
                            match pairs_dec(s.skip(p.1 + 1)) {
                                Some(t) => {
                                    assert(pairs_enc(seq![(p.0, q)] + t) == enc_str(p.0) + seq![
                                        qos_byte(q),
                                    ] + pairs_enc(t)) by {
                                        assert((seq![(p.0, q)] + t).skip(1) =~= t);
                                    }
                                    assert(enc_str(p.0) + seq![qos_byte(q)] + pairs_enc(t) =~= s)
                                        by {
                                        assert(enc_str(p.0) =~= s.take(p.1));
                                        assert(seq![s[p.1]] =~= s.subrange(p.1, p.1 + 1));
                                    }
                                },
                                None => {},
                            }
                        },
                        None => {},
                    }
                }
            },
            None => {},
        }
    }
}

pub open spec fn subscribe_wf(v: SubscribeV) -> bool {
    &&& v.subscribes.len() >= 1
    &&& forall|i: int| 0 <= i < v.subscribes.len() ==> str_wf(#[trigger] v.subscribes[i].0)
    &&& subscribe_body(v).len() <= VBI_MAX
}

pub open spec fn subscribe_body(v: SubscribeV) -> Seq<u8> {
    enc_u16(v.packet_identifier) + pairs_enc(v.subscribes)
}

/// SUBSCRIBE carries flags nibble 2 on the wire.
pub open spec fn subscribe_enc(v: SubscribeV) -> Seq<u8> {
    fh_enc(8, 2, subscribe_body(v).len() as int) + subscribe_body(v)
}

/// Decodes a SUBSCRIBE from the front of `s`: type nibble 8, flags 0 or 2, a
/// packet identifier, then at least one subscription filling the rest
/// exactly.
pub open spec fn subscribe_dec(s: Seq<u8>) -> SpecDec<SubscribeV> {
    match fh_dec(s) {
        SpecDec::Done(h, hl) => {
            if h.0 != 8 || (h.1 != 0 && h.1 != 2) || h.2 < 2 {
                SpecDec::Malformed
            } else if s.len() < hl + h.2 {
                SpecDec::Incomplete
            } else {
                match pairs_dec(s.subrange(hl + 2, hl + h.2)) {
                    Some(ps) => {
                        if ps.len() == 0 {
                            SpecDec::Malformed
                        } else {
                            SpecDec::Done(
                                SubscribeV {
                                    packet_identifier: u16_of(s[hl], s[hl + 1]),
                                    subscribes: ps,
                                },
                                hl + h.2,
                            )
                        }
                    },
                    None => SpecDec::Malformed,
                }
            }
        },
        SpecDec::Incomplete => SpecDec::Incomplete,
        SpecDec::Malformed => SpecDec::Malformed,
    }
}

/// Decoding what was encoded returns the same content and consumes exactly
/// the encoding, whatever follows it.
pub proof fn lemma_subscribe_round_trip(v: SubscribeV, rest: Seq<u8>)
    requires
        subscribe_wf(v),
    ensures
        subscribe_dec(subscribe_enc(v) + rest) == SpecDec::Done(v, subscribe_enc(v).len() as int),
{
    let body = subscribe_body(v);
    let s = subscribe_enc(v) + rest;
    assert(s =~= fh_enc(8, 2, body.len() as int) + (body + rest));
    lemma_fh_round_trip(8, 2, body.len() as int, body + rest);
    let hl = 1 + crate::wire::vbi_enc(body.len() as int).len() as int;
    assert(s[hl] == enc_u16(v.packet_identifier)[0]);
    assert(s[hl + 1] == enc_u16(v.packet_identifier)[1]);
    assert(u16_of(enc_u16(v.packet_identifier)[0], enc_u16(v.packet_identifier)[1])
        == v.packet_identifier);
    assert(s.subrange(hl + 2, hl + body.len() as int) =~= pairs_enc(v.subscribes));
    lemma_pairs_round_trip(v.subscribes);
}

/// The subscriptions a vector of name-and-level pairs stands for.
pub open spec fn subscribes_view(ps: Seq<(TopicName, QualityOfService)>) -> Seq<
    (Seq<char>, QualityOfService),
> {
    ps.map_values(|p: (TopicName, QualityOfService)| (p.0.0@, p.1))
}

/// A SUBSCRIBE packet value.
#[derive(Debug)]
pub struct Subscribe {
    fixed_header: FixedHeader,
    packet_identifier: PacketIdentifier,
    subscribes: Vec<(TopicName, QualityOfService)>,
}

impl View for Subscribe {
    type V = SubscribeV;

    closed spec fn view(&self) -> SubscribeV {
        SubscribeV {
            packet_identifier: self.packet_identifier.0,
            subscribes: subscribes_view(self.subscribes@),
        }
    }
}

impl Subscribe {
    /// The fields fit the wire and the stored remaining length is the body's
    /// byte count.
    pub closed spec fn wf(&self) -> bool {
        &&& self.fixed_header.packet_type == 8
        &&& self.fixed_header.reserved == 2
        &&& subscribe_wf(self@)
        &&& self.fixed_header.remaining_length == subscribe_body(self@).len()
    }

    /// A sample SUBSCRIBE: packet identifier 82 and five subscriptions to
    /// `"enjie"` at level 0.
    pub fn new() -> (r: Subscribe)
        ensures
            r.wf(),
            r@.packet_identifier == 82,
            r@.subscribes.len() == 5,
    {
        let mut subs: Vec<(TopicName, QualityOfService)> = Vec::new();
        let mut i: usize = 0;
        proof {
            reveal_strlit("enjie");
        }
        while i < 5
            invariant
                i <= 5,
                subs@.len() == i,
                forall|k: int|
                    0 <= k < i ==> (#[trigger] subs@[k]).0.0@ == "enjie"@ && subs@[k].1
                        == QualityOfService::Level0,
            decreases 5 - i,
        {
            let topic_name: String = "enjie".to_owned();
            let qos = QualityOfService::Level0;
            subs.push((TopicName(topic_name), qos));
            i = i + 1;
        }
        let mut subscribe = Subscribe {
            fixed_header: FixedHeader { packet_type: 8, reserved: 2, remaining_length: 0 },
            packet_identifier: PacketIdentifier(82),
            subscribes: subs,
        };
        let r = subscribe.calculate_remaining_length();
        proof {
            let vs = subscribe@.subscribes;
            assert(vs.len() == 5);
            lemma_short_ascii_str_wf("enjie"@);
            assert(forall|k: int| 0 <= k < vs.len() ==> str_wf(#[trigger] vs[k].0));
            lemma_pairs_enc_len(vs);
            assert(r is Ok);
        }
        subscribe
    }

    /// Recomputes the stored remaining length from the subscriptions. Fails,
    /// leaving the content unchanged, exactly when a filter cannot fit a
    /// string field or the body cannot fit the remaining-length encoding.
    pub fn calculate_remaining_length(&mut self) -> (r: Result<(), EncodeError>)
        ensures
            final(self)@ == old(self)@,
            ({
                let v = old(self)@;
                if !(forall|i: int|
                    0 <= i < v.subscribes.len() ==> str_wf(#[trigger] v.subscribes[i].0)) {
                    r == Err::<(), EncodeError>(EncodeError::FieldTooLong)
                } else if subscribe_body(v).len() > VBI_MAX {
                    r == Err::<(), EncodeError>(EncodeError::RemainingLengthOutOfRange)
                } else {
                    r is Ok && (old(self).shape_wf() && v.subscribes.len() >= 1
                        ==> final(self).wf())
                }
            }),
    {
        let ghost ps = self@.subscribes;
        let n = self.subscribes.len();
        let mut i: usize = 0;
        while i < n
            invariant
                i <= n,
                n == self.subscribes@.len(),
                ps == self@.subscribes,
                forall|k: int| 0 <= k < i ==> str_wf(#[trigger] ps[k].0),
            decreases n - i,
        {
            let tl = self.subscribes[i].0.0.as_str().as_bytes_vec().len();
            if tl > 0xFFFF {
                proof {
                    assert(!str_wf(ps[i as int].0));
                }
                return Err(EncodeError::FieldTooLong);
            }
            i = i + 1;
        }
        let mut total: u64 = 2;
        let mut j: usize = 0;
        while j < n
            invariant
                j <= n,
                n == self.subscribes@.len(),
                ps == self@.subscribes,
                forall|k: int| 0 <= k < n ==> str_wf(#[trigger] ps[k].0),
                total == 2 + pairs_enc(ps.take(j as int)).len(),
                total <= VBI_MAX as u64,
            decreases n - j,
        {
            let tl = self.subscribes[j].0.0.as_str().as_bytes_vec().len();
            proof {
                assert(str_wf(ps[j as int].0));
                assert(tl <= 0xFFFF);
            }
            let step: u64 = 3 + tl as u64;
            proof {
                lemma_pairs_enc_push(ps.take(j as int), ps[j as int]);
                assert(ps.take(j as int).push(ps[j as int]) =~= ps.take(j as int + 1));
            }
            if VBI_MAX as u64 - total < step {
                proof {
                    lemma_pairs_enc_split(ps, j as int + 1);
                }
                return Err(EncodeError::RemainingLengthOutOfRange);
            }
            total = total + step;
            j = j + 1;
        }
        proof {
            assert(ps.take(ps.len() as int) =~= ps);
        }
        self.fixed_header.remaining_length = total as u32;
        Ok(())
    }

    /// Well-formedness apart from the stored length: the type and flags
    /// nibbles.
    pub closed spec fn shape_wf(&self) -> bool {
        self.fixed_header.packet_type == 8 && self.fixed_header.reserved == 2
    }

    /// Decodes a SUBSCRIBE from the front of the buffer, consuming exactly
    /// the packet on success and nothing otherwise.
    #[verifier::rlimit(100)]
    #[verifier::spinoff_prover]
    pub fn decode(b: &mut bytes::BytesMut) -> (r: Result<Subscribe, DecodeError>)
        ensures
            match subscribe_dec(bytes_view(*old(b))) {
                SpecDec::Done(v, n) => (r matches Ok(p) && p@ == v && p.wf()) && bytes_view(
                    *final(b),
                ) == bytes_view(*old(b)).skip(n),
                SpecDec::Incomplete => (r matches Err(e) && e == DecodeError::NotEnoughBytes)
                    && bytes_view(*final(b)) == bytes_view(*old(b)),
                SpecDec::Malformed => (r matches Err(e) && e == DecodeError::Malformed)
                    && bytes_view(*final(b)) == bytes_view(*old(b)),
            },
    {
        let pid: u16;
        let subs: Vec<(TopicName, QualityOfService)>;
        let rem: u32;
        let total: usize;
        {
            let s = buf_as_slice(b);
            let (t, fl, rem0, hl) = match read_fixed_header(s) {
                Ok(h) => h,
                Err(e) => {
                    return Err(e);
                },
            };
            if t != 8 || (fl != 0 && fl != 2) || rem0 < 2 {
                return Err(DecodeError::Malformed);
            }
            let rem_us = rem0 as usize;
            if s.len() - hl < rem_us {
                return Err(DecodeError::NotEnoughBytes);
            }
            rem = rem0;
            let end = hl + rem_us;
            pid = read_u16_at(s, hl);
            let start = hl + 2;
            let ghost body = s@.subrange(start as int, end as int);
            let mut acc: Vec<(TopicName, QualityOfService)> = Vec::new();
            let mut i = start;
            while i < end
                invariant
                    start <= i <= end <= s@.len(),
                    body == s@.subrange(start as int, end as int),
                    forall|k: int|
                        0 <= k < acc@.len() ==> str_wf(#[trigger] subscribes_view(acc@)[k].0),
                    match pairs_dec(s@.subrange(i as int, end as int)) {
                        Some(t) => pairs_dec(body) == Some(subscribes_view(acc@) + t),
                        None => pairs_dec(body) is None,
                    },
                decreases end - i,
            {
                let ghost pre = s@.subrange(i as int, end as int);
                let (f, j) = match read_str(s, i, end) {
                    Ok(p) => p,
                    Err(_) => {
                        return Err(DecodeError::Malformed);
                    },
                };
                proof {
                    let p = str_field(pre)->Some_0;
                    vstd::utf8::decode_utf8_encode_utf8(
                        pre.subrange(2, 2 + (u16_of(pre[0], pre[1]) as int)),
                    );
                    assert(str_wf(p.0));
                }
                if j == end {
                    proof {
                        assert(pairs_dec(pre) is None);
                    }
                    return Err(DecodeError::Malformed);
                }
                proof {
                    assert(pre[j - i] == s@[j as int]);
                }
                let q = match qos_from_byte(s[j]) {
                    Some(q) => q,
                    None => {
                        proof {
                            assert(pairs_dec(pre) is None);
                        }
                        return Err(DecodeError::Malformed);
                    },
                };
                proof {
                    let p = str_field(pre)->Some_0;
                    assert(pre.skip(p.1 + 1) =~= s@.subrange(j as int + 1, end as int));
                    match pairs_dec(s@.subrange(j as int + 1, end as int)) {
                        Some(t2) => {
                            assert(pairs_dec(pre) == Some(seq![(p.0, q)] + t2));
                            assert(subscribes_view(acc@).push((f@, q)) + t2 =~= subscribes_view(
                                acc@,
                            ) + (seq![(p.0, q)] + t2));
                        },
                        None => {},
                    }
                    assert(subscribes_view(acc@.push((TopicName(f), q))) =~= subscribes_view(
                        acc@,
                    ).push((f@, q)));
                }
                acc.push((TopicName(f), q));
                i = j + 1;
            }
            proof {
                assert(s@.subrange(i as int, end as int) =~= Seq::<u8>::empty());
                assert(subscribes_view(acc@) + Seq::<(Seq<char>, QualityOfService)>::empty()
                    =~= subscribes_view(acc@));
                lemma_pairs_dec_enc(body);
            }
            if acc.len() == 0 {
                return Err(DecodeError::Malformed);
            }
            subs = acc;
            total = end;
        }
        buf_advance(b, total);
        Ok(
            Subscribe {
                fixed_header: FixedHeader { packet_type: 8, reserved: 2, remaining_length: rem },
                packet_identifier: PacketIdentifier(pid),
                subscribes: subs,
            },
        )
    }
}

impl Encodable for Subscribe {
    open spec fn wire(&self) -> Seq<u8> {
        subscribe_enc(self@)
    }

    open spec fn wire_wf(&self) -> bool {
        self.wf()
    }

    fn encode(&self) -> (r: Result<Vec<u8>, EncodeError>) {
        let mut v = match encode_fixedheader(8, 2, self.fixed_header.remaining_length) {
            Ok(v) => v,
            Err(e) => {
                return Err(e);
            },
        };
        let mut pid = encode_u16_bytes(self.packet_identifier.0);
        v.append(&mut pid);
        let ghost base = v@;
        let ghost ps = subscribes_view(self.subscribes@);
        let mut i: usize = 0;
        while i < self.subscribes.len()
            invariant
                i <= self.subscribes@.len(),
                self.wf() ==> v@ == base + pairs_enc(ps.take(i as int)),
            decreases self.subscribes@.len() - i,
        {
            let mut field = match self.subscribes[i].0.0.encode() {
                Ok(f) => f,
                Err(e) => {
                    return Err(e);
                },
            };
            v.append(&mut field);
            let byte: u8 = match self.subscribes[i].1 {
                QualityOfService::Level0 => 0,
                QualityOfService::Level1 => 1,
                QualityOfService::Level2 => 2,
            };
            v.push(byte);
            proof {
                lemma_pairs_enc_push(ps.take(i as int), ps[i as int]);
                assert(ps.take(i as int).push(ps[i as int]) =~= ps.take(i as int + 1));
                if self.wf() {
                    assert(v@ =~= base + pairs_enc(ps.take(i as int + 1)));
                }
            }
            i = i + 1;
        }
        proof {
            assert(ps.take(ps.len() as int) =~= ps);
            if self.wf() {
                assert(v@ =~= subscribe_enc(self@));
            }
        }
        Ok(v)
    }

    fn encode_length(&self) -> (r: Result<u32, EncodeError>) {
        match crate::packet::get_remaining_length_bytes(self.fixed_header.remaining_length) {
            Ok(n) => Ok(n + self.fixed_header.remaining_length),
            Err(e) => Err(e),
        }
    }
}

} // verus!
