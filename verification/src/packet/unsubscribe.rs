//! The UNSUBSCRIBE packet: a packet identifier and one or more topic filters.
use vstd::prelude::*;
use crate::buffer::{buf_advance, buf_as_slice, bytes_view};
use crate::packet::publish::lemma_short_ascii_str_wf;
use crate::packet::{
    encode_fixedheader, read_fixed_header, read_str, read_u16_at, FixedHeader,
};
use crate::topic_filter::TopicFilter;
use crate::variable_header::PacketIdentifier;
use crate::wire::{
    enc_str, enc_u16, fh_dec, fh_enc, lemma_fh_round_trip, lemma_str_round_trip, str_field,
    str_wf, u16_of, SpecDec, VBI_MAX,
};
use crate::{encode_u16_bytes, DecodeError, Encodable, EncodeError};
use vstd::utf8::encode_utf8;

verus! {

/// What an UNSUBSCRIBE carries: a packet identifier and the filters to drop.
#[verifier::ext_equal]
pub struct UnsubscribeV {
    pub packet_identifier: u16,
    pub filters: Seq<Seq<char>>,
}

/// The filters, one string field after another.
pub open spec fn filters_enc(fs: Seq<Seq<char>>) -> Seq<u8>
    decreases fs.len(),
{
    if fs.len() == 0 {
        Seq::<u8>::empty()
    } else {
        enc_str(fs[0]) + filters_enc(fs.skip(1))
    }
}

/// String fields read until the bytes run out; `None` when a field is broken
/// or runs past the end.
pub open spec fn filters_dec(s: Seq<u8>) -> Option<Seq<Seq<char>>>
    decreases s.len(),
{
    if s.len() == 0 {
        Some(Seq::<Seq<char>>::empty())
    } else {
        match str_field(s) {
            Some(p) => {
                if 0 < p.1 <= s.len() {
                    match filters_dec(s.skip(p.1)) {
                        Some(t) => Some(seq![p.0] + t),
                        None => None,
                    }
                } else {
                    None
                }
            },
            None => None,
        }
    }
}

/// Splitting a filter list splits its encoding.
pub proof fn lemma_filters_enc_split(fs: Seq<Seq<char>>, i: int)
    requires
        0 <= i <= fs.len(),
    ensures
        filters_enc(fs) == filters_enc(fs.take(i)) + filters_enc(fs.skip(i)),
    decreases i,
{
    if i == 0 {
        assert(fs.take(0) =~= Seq::<Seq<char>>::empty());
        assert(fs.skip(0) =~= fs);
        assert(filters_enc(fs.take(0)) + filters_enc(fs) =~= filters_enc(fs));
    } else {
        lemma_filters_enc_split(fs.skip(1), i - 1);
        assert(fs.skip(1).take(i - 1) =~= fs.take(i).skip(1));
        assert(fs.skip(1).skip(i - 1) =~= fs.skip(i));
        assert(fs.take(i).len() != 0 && fs.take(i)[0] == fs[0]);
        assert(enc_str(fs[0]) + (filters_enc(fs.take(i).skip(1)) + filters_enc(fs.skip(i)))
            =~= (enc_str(fs[0]) + filters_enc(fs.take(i).skip(1))) + filters_enc(fs.skip(i)));
    }
}

/// Appending one filter appends its field.
pub proof fn lemma_filters_enc_push(fs: Seq<Seq<char>>, x: Seq<char>)
    ensures
        filters_enc(fs.push(x)) == filters_enc(fs) + enc_str(x),
{
    lemma_filters_enc_split(fs.push(x), fs.len() as int);
    assert(fs.push(x).take(fs.len() as int) =~= fs);
    assert(fs.push(x).skip(fs.len() as int) =~= seq![x]);
    assert(seq![x].skip(1) =~= Seq::<Seq<char>>::empty());
    assert(filters_enc(seq![x]) =~= enc_str(x) + filters_enc(Seq::<Seq<char>>::empty()));
    assert(enc_str(x) + Seq::<u8>::empty() =~= enc_str(x));
}

/// Decoding an encoded filter list returns the same filters.
pub proof fn lemma_filters_round_trip(fs: Seq<Seq<char>>)
    requires
        forall|i: int| 0 <= i < fs.len() ==> str_wf(#[trigger] fs[i]),
    ensures
        filters_dec(filters_enc(fs)) == Some(fs),
    decreases fs.len(),
{
    if fs.len() == 0 {
        assert(filters_dec(filters_enc(fs)) == Some(Seq::<Seq<char>>::empty()));
        assert(fs =~= Seq::<Seq<char>>::empty());
    } else {
        let head = fs[0];
        let rest = fs.skip(1);
        let s = filters_enc(fs);
        assert(str_wf(head));
        lemma_str_round_trip(head, filters_enc(rest));
        let n = 2 + encode_utf8(head).len() as int;
        assert(s.skip(n) =~= filters_enc(rest));
        lemma_filters_round_trip(rest);
        assert(seq![head] + rest =~= fs);
    }
}

/// A successfully decoded filter list re-encodes to exactly the bytes it was
/// read from.
pub proof fn lemma_filters_dec_enc(s: Seq<u8>)
    ensures
        filters_dec(s) matches Some(fs) ==> filters_enc(fs) == s,
    decreases s.len(),
{
    if s.len() == 0 {
        assert(filters_enc(Seq::<Seq<char>>::empty()) =~= s);
    } else {
        match str_field(s) {
            Some(p) => {
                if 0 < p.1 <= s.len() {
                    lemma_filters_dec_enc(s.skip(p.1));
                    let l = u16_of(s[0], s[1]) as int;
                    let sub = s.subrange(2, 2 + l);
                    vstd::utf8::decode_utf8_encode_utf8(sub);
                    assert(enc_str(p.0) =~= s.take(p.1));
                    match filters_dec(s.skip(p.1)) {
                        Some(t) => {
                            assert(filters_enc(seq![p.0] + t) == enc_str(p.0) + filters_enc(t)) by {
                                assert((seq![p.0] + t).skip(1) =~= t);
                            }
                            assert(s.take(p.1) + s.skip(p.1) =~= s);
                        },
                        None => {},
                    }
                }
            },
            None => {},
        }
    }
}

pub open spec fn unsubscribe_wf(v: UnsubscribeV) -> bool {
    &&& v.filters.len() >= 1
    &&& forall|i: int| 0 <= i < v.filters.len() ==> str_wf(#[trigger] v.filters[i])
    &&& unsubscribe_body(v).len() <= VBI_MAX
}

pub open spec fn unsubscribe_body(v: UnsubscribeV) -> Seq<u8> {
    enc_u16(v.packet_identifier) + filters_enc(v.filters)
}

pub open spec fn unsubscribe_enc(v: UnsubscribeV) -> Seq<u8> {
    fh_enc(10, 0, unsubscribe_body(v).len() as int) + unsubscribe_body(v)
}

/// Decodes an UNSUBSCRIBE from the front of `s`: type nibble 10, zero flags,
/// a packet identifier, then at least one filter filling the rest exactly.
pub open spec fn unsubscribe_dec(s: Seq<u8>) -> SpecDec<UnsubscribeV> {
    match fh_dec(s) {
        SpecDec::Done(h, hl) => {
            if h.0 != 10 || h.1 != 0 || h.2 < 2 {
                SpecDec::Malformed
            } else if s.len() < hl + h.2 {
                SpecDec::Incomplete
            } else {
                match filters_dec(s.subrange(hl + 2, hl + h.2)) {
                    Some(fs) => {
                        if fs.len() == 0 {
                            SpecDec::Malformed
                        } else {
                            SpecDec::Done(
                                UnsubscribeV {
                                    packet_identifier: u16_of(s[hl], s[hl + 1]),
                                    filters: fs,
                                },
                                hl + h.2,
                            )
                        }
                    },
                    None => SpecDec::Malformed,
                }
            }
        },
        SpecDec::Incomplete => SpecDec::Incomplete,
        SpecDec::Malformed => SpecDec::Malformed,
    }
}

/// Decoding what was encoded returns the same content and consumes exactly
/// the encoding, whatever follows it.
pub proof fn lemma_unsubscribe_round_trip(v: UnsubscribeV, rest: Seq<u8>)
    requires
        unsubscribe_wf(v),
    ensures
        unsubscribe_dec(unsubscribe_enc(v) + rest) == SpecDec::Done(
            v,
            unsubscribe_enc(v).len() as int,
        ),
{
    let body = unsubscribe_body(v);
    let s = unsubscribe_enc(v) + rest;
    assert(s =~= fh_enc(10, 0, body.len() as int) + (body + rest));
    lemma_fh_round_trip(10, 0, body.len() as int, body + rest);
    let hl = 1 + crate::wire::vbi_enc(body.len() as int).len() as int;
    assert(s[hl] == enc_u16(v.packet_identifier)[0]);
    assert(s[hl + 1] == enc_u16(v.packet_identifier)[1]);
    assert(u16_of(enc_u16(v.packet_identifier)[0], enc_u16(v.packet_identifier)[1])
        == v.packet_identifier);
    assert(s.subrange(hl + 2, hl + body.len() as int) =~= filters_enc(v.filters));
    lemma_filters_round_trip(v.filters);
}

/// The filters a vector of topic filters stands for.
pub open spec fn topic_filters_view(fs: Seq<TopicFilter>) -> Seq<Seq<char>> {
    fs.map_values(|f: TopicFilter| f.0@)
}

/// An UNSUBSCRIBE packet value.
#[derive(Debug)]
pub struct Unsubscribe {
    fixed_header: FixedHeader,
    packet_identifier: PacketIdentifier,
    filters: Vec<TopicFilter>,
}

impl View for Unsubscribe {
    type V = UnsubscribeV;

    closed spec fn view(&self) -> UnsubscribeV {
        UnsubscribeV {
            packet_identifier: self.packet_identifier.0,
            filters: topic_filters_view(self.filters@),
        }
    }
}

impl Unsubscribe {
    /// The fields fit the wire and the stored remaining length is the body's
    /// byte count.
    pub closed spec fn wf(&self) -> bool {
        &&& self.fixed_header.packet_type == 10
        &&& self.fixed_header.reserved == 0
        &&& unsubscribe_wf(self@)
        &&& self.fixed_header.remaining_length == unsubscribe_body(self@).len()
    }

    /// A sample UNSUBSCRIBE: packet identifier 32 and the one filter `"a/b"`.
    pub fn new() -> (r: Unsubscribe)
        ensures
            r.wf(),
            r@.packet_identifier == 32,
            r@.filters.len() == 1,
            r@.filters[0] == "a/b"@,
    {
        let f: String = "a/b".to_owned();
        proof {
            reveal_strlit("a/b");
            lemma_short_ascii_str_wf(f@);
        }
        let filters: Vec<TopicFilter> = vec![TopicFilter(f)];
        let mut result = Unsubscribe {
            fixed_header: FixedHeader { packet_type: 10, reserved: 0, remaining_length: 0 },
            packet_identifier: PacketIdentifier(32),
            filters,
        };
        let r = result.calculate_remaining_length();
        proof {
            let fs = result@.filters;
            assert(fs =~= seq!["a/b"@]);
            assert(fs[0] == "a/b"@);
            assert(forall|i: int| 0 <= i < fs.len() ==> str_wf(#[trigger] fs[i]));
            assert(fs.skip(1) =~= Seq::<Seq<char>>::empty());
            assert(filters_enc(fs) =~= enc_str("a/b"@) + filters_enc(Seq::<Seq<char>>::empty()));
            assert(unsubscribe_body(result@).len() == 7);
            assert(r is Ok);
        }
        result
    }

    /// Recomputes the stored remaining length from the filters. Fails,
    /// leaving the content unchanged, exactly when a filter cannot fit a
    /// string field or the body cannot fit the remaining-length encoding.
    pub fn calculate_remaining_length(&mut self) -> (r: Result<(), EncodeError>)
        ensures
            final(self)@ == old(self)@,
            ({
                let v = old(self)@;
                if !(forall|i: int| 0 <= i < v.filters.len() ==> str_wf(#[trigger] v.filters[i])) {
                    r == Err::<(), EncodeError>(EncodeError::FieldTooLong)
                } else if unsubscribe_body(v).len() > VBI_MAX {
                    r == Err::<(), EncodeError>(EncodeError::RemainingLengthOutOfRange)
                } else {
                    r is Ok && (old(self).shape_wf() && v.filters.len() >= 1 ==> final(self).wf())
                }
            }),
    {
        let ghost fs = self@.filters;
        let n = self.filters.len();
        let mut i: usize = 0;
        while i < n
            invariant
                i <= n,
                n == self.filters@.len(),
                fs == self@.filters,
                forall|k: int| 0 <= k < i ==> str_wf(#[trigger] fs[k]),
            decreases n - i,
        {
            let tl = self.filters[i].0.as_str().as_bytes_vec().len();
            if tl > 0xFFFF {
                proof {
                    assert(!str_wf(fs[i as int]));
                }
                return Err(EncodeError::FieldTooLong);
            }
            i = i + 1;
        }
        let mut total: u64 = 2;
        let mut j: usize = 0;
        while j < n
            invariant
                j <= n,
                n == self.filters@.len(),
                fs == self@.filters,
                forall|k: int| 0 <= k < n ==> str_wf(#[trigger] fs[k]),
                total == 2 + filters_enc(fs.take(j as int)).len(),
                total <= VBI_MAX as u64,
            decreases n - j,
        {
            let tl = self.filters[j].0.as_str().as_bytes_vec().len();
            proof {
                assert(str_wf(fs[j as int]));
                assert(tl <= 0xFFFF);
            }
            let step: u64 = 2 + tl as u64;
            proof {
                lemma_filters_enc_push(fs.take(j as int), fs[j as int]);
                assert(fs.take(j as int).push(fs[j as int]) =~= fs.take(j as int + 1));
            }
            if VBI_MAX as u64 - total < step {
                proof {
                    lemma_filters_enc_split(fs, j as int + 1);
                }
                return Err(EncodeError::RemainingLengthOutOfRange);
            }
            total = total + step;
            j = j + 1;
        }
        proof {
            assert(fs.take(fs.len() as int) =~= fs);
        }
        self.fixed_header.remaining_length = total as u32;
        Ok(())
    }

    /// Well-formedness apart from the stored length: the type and flags
    /// nibbles.
    pub closed spec fn shape_wf(&self) -> bool {
        self.fixed_header.packet_type == 10 && self.fixed_header.reserved == 0
    }

    /// Decodes an UNSUBSCRIBE from the front of the buffer, consuming exactly
    /// the packet on success and nothing otherwise.
    #[verifier::rlimit(100)]
    #[verifier::spinoff_prover]
    pub fn decode(b: &mut bytes::BytesMut) -> (r: Result<Unsubscribe, DecodeError>)
        ensures
            match unsubscribe_dec(bytes_view(*old(b))) {
                SpecDec::Done(v, n) => (r matches Ok(p) && p@ == v && p.wf()) && bytes_view(
                    *final(b),
                ) == bytes_view(*old(b)).skip(n),
                SpecDec::Incomplete => (r matches Err(e) && e == DecodeError::NotEnoughBytes)
                    && bytes_view(*final(b)) == bytes_view(*old(b)),
                SpecDec::Malformed => (r matches Err(e) && e == DecodeError::Malformed)
                    && bytes_view(*final(b)) == bytes_view(*old(b)),
            },
    {
        let pid: u16;
        let filters: Vec<TopicFilter>;
        let rem: u32;
        let total: usize;
        {
            let s = buf_as_slice(b);
            let (t, fl, rem0, hl) = match read_fixed_header(s) {
                Ok(h) => h,
                Err(e) => {
                    return Err(e);
                },
            };
            if t != 10 || fl != 0 || rem0 < 2 {
                return Err(DecodeError::Malformed);
            }
            let rem_us = rem0 as usize;
            if s.len() - hl < rem_us {
                return Err(DecodeError::NotEnoughBytes);
            }
            rem = rem0;
            let end = hl + rem_us;
            pid = read_u16_at(s, hl);
            let start = hl + 2;
            let ghost body = s@.subrange(start as int, end as int);
            let mut acc: Vec<TopicFilter> = Vec::new();
            let mut i = start;
            while i < end
                invariant
                    start <= i <= end <= s@.len(),
                    body == s@.subrange(start as int, end as int),
                    forall|k: int|
                        0 <= k < acc@.len() ==> str_wf(
                            #[trigger] topic_filters_view(acc@)[k],
                        ),
                    match filters_dec(s@.subrange(i as int, end as int)) {
                        Some(t) => filters_dec(body) == Some(topic_filters_view(acc@) + t),
                        None => filters_dec(body) is None,
                    },
                decreases end - i,
            {
                let ghost pre = s@.subrange(i as int, end as int);
                let (f, j) = match read_str(s, i, end) {
                    Ok(p) => p,
                    Err(_) => {
                        return Err(DecodeError::Malformed);
                    },
                };
                proof {
                    let p = str_field(pre)->Some_0;
                    assert(pre.skip(p.1) =~= s@.subrange(j as int, end as int));
                    vstd::utf8::decode_utf8_encode_utf8(
                        pre.subrange(2, 2 + (u16_of(pre[0], pre[1]) as int)),
                    );
                    assert(str_wf(p.0));
                    match filters_dec(s@.subrange(j as int, end as int)) {
                        Some(t2) => {
                            assert(filters_dec(pre) == Some(seq![p.0] + t2));
                            assert(topic_filters_view(acc@).push(f@) + t2 =~= topic_filters_view(
                                acc@,
                            ) + (seq![p.0] + t2));
                        },
                        None => {},
                    }
                    assert(topic_filters_view(acc@.push(TopicFilter(f))) =~= topic_filters_view(acc@).push(f@));
                }
                acc.push(TopicFilter(f));
                i = j;
            }
            proof {
                assert(s@.subrange(i as int, end as int).len() == 0);
                assert(s@.subrange(i as int, end as int) =~= Seq::<u8>::empty());
                assert(topic_filters_view(acc@) + Seq::<Seq<char>>::empty() =~= topic_filters_view(
                    acc@,
                ));
                lemma_filters_dec_enc(body);
            }
            if acc.len() == 0 {
                return Err(DecodeError::Malformed);
            }
            filters = acc;
            total = end;
        }
        buf_advance(b, total);
        Ok(
            Unsubscribe {
                fixed_header: FixedHeader { packet_type: 10, reserved: 0, remaining_length: rem },
                packet_identifier: PacketIdentifier(pid),
                filters,
            },
        )
    }
}

impl Encodable for Unsubscribe {
    open spec fn wire(&self) -> Seq<u8> {
        unsubscribe_enc(self@)
    }

    open spec fn wire_wf(&self) -> bool {
        self.wf()
    }

    fn encode(&self) -> (r: Result<Vec<u8>, EncodeError>) {
        let mut v = match encode_fixedheader(10, 0, self.fixed_header.remaining_length) {
            Ok(v) => v,
            Err(e) => {
                return Err(e);
            },
        };
        let mut pid = encode_u16_bytes(self.packet_identifier.0);
        v.append(&mut pid);
        let ghost base = v@;
        let ghost fs = topic_filters_view(self.filters@);
        let mut i: usize = 0;
        while i < self.filters.len()
            invariant
                i <= self.filters@.len(),
                self.wf() ==> v@ == base + filters_enc(fs.take(i as int)),
            decreases self.filters@.len() - i,
        {
            let mut field = match self.filters[i].0.encode() {
                Ok(f) => f,
                Err(e) => {
                    return Err(e);
                },
            };
            proof {
                lemma_filters_enc_push(fs.take(i as int), fs[i as int]);
                assert(fs.take(i as int).push(fs[i as int]) =~= fs.take(i as int + 1));
            }
            v.append(&mut field);
            i = i + 1;
        }
        proof {
            assert(fs.take(fs.len() as int) =~= fs);
            if self.wf() {
                assert(v@ =~= unsubscribe_enc(self@));
            }
        }
        Ok(v)
    }

    fn encode_length(&self) -> (r: Result<u32, EncodeError>) {
        match crate::packet::get_remaining_length_bytes(self.fixed_header.remaining_length) {
            Ok(n) => Ok(n + self.fixed_header.remaining_length),
            Err(e) => Err(e),
        }
    }
}

} // verus!
