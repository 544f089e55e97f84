//! The wire format, stated mathematically.
//!
//! Every primitive of the protocol has a specification-level encoder over
//! `Seq<u8>` and a specification-level decoder. Executable code elsewhere in
//! the crate is proved to agree with these functions, and the round-trip laws
//! are proved about them directly.
use vstd::prelude::*;
use vstd::utf8::{decode_utf8, encode_utf8, valid_utf8};
use vstd::utf8::{encode_utf8_decode_utf8, encode_utf8_valid_utf8};

verus! {

/// Largest value a variable-byte integer can carry.
pub const VBI_MAX: u32 = 268435455;

/// Outcome of running a specification-level decoder on a byte sequence:
/// a decoded value together with the number of bytes it consumed, or a
/// request for more input, or a rejection.
pub enum SpecDec<T> {
    Done(T, int),
    Incomplete,
    Malformed,
}

// ---------------------------------------------------------------------------
// Two-byte big-endian integers.
// ---------------------------------------------------------------------------
pub open spec fn enc_u16(v: u16) -> Seq<u8> {
    seq![(v / 256) as u8, (v % 256) as u8]
}

/// The 16-bit value carried by two big-endian bytes.
pub open spec fn u16_of(hi: u8, lo: u8) -> u16 {
    (hi * 256 + lo) as u16
}

pub open spec fn u8_sdec(s: Seq<u8>) -> SpecDec<u8> {
    if s.len() < 1 {
        SpecDec::Incomplete
    } else {
        SpecDec::Done(s[0], 1)
    }
}

pub open spec fn u16_sdec(s: Seq<u8>) -> SpecDec<u16> {
    if s.len() < 2 {
        SpecDec::Incomplete
    } else {
        SpecDec::Done(u16_of(s[0], s[1]), 2)
    }
}

/// Decoding an encoded byte returns the byte and consumes exactly it,
/// whatever follows.
pub proof fn lemma_u8_round_trip(v: u8, rest: Seq<u8>)
    ensures
        u8_sdec(seq![v] + rest) == SpecDec::Done(v, 1),
{
    assert((seq![v] + rest)[0] == v);
}

/// Decoding an encoded 16-bit value returns the value and consumes exactly
/// its two bytes, whatever follows.
pub proof fn lemma_u16_round_trip(v: u16, rest: Seq<u8>)
    ensures
        u16_sdec(enc_u16(v) + rest) == SpecDec::Done(v, 2),
{
    let s = enc_u16(v) + rest;
    assert(s[0] == (v / 256) as u8);
    assert(s[1] == (v % 256) as u8);
}

// ---------------------------------------------------------------------------
// Length-prefixed UTF-8 strings and opaque byte blobs.
// ---------------------------------------------------------------------------
/// A string fits on the wire when its UTF-8 form fits the two-byte length
/// prefix.
pub open spec fn str_wf(s: Seq<char>) -> bool {
    encode_utf8(s).len() <= 0xFFFF
}

pub open spec fn enc_str(s: Seq<char>) -> Seq<u8> {
    enc_u16(encode_utf8(s).len() as u16) + encode_utf8(s)
}

pub open spec fn blob_wf(b: Seq<u8>) -> bool {
    b.len() <= 0xFFFF
}

pub open spec fn enc_blob(b: Seq<u8>) -> Seq<u8> {
    enc_u16(b.len() as u16) + b
}

/// Standalone decoder for a length-prefixed string: more input may still
/// arrive, so a short buffer is `Incomplete`.
pub open spec fn str_sdec(s: Seq<u8>) -> SpecDec<Seq<char>> {
    if s.len() < 2 {
        SpecDec::Incomplete
    } else {
        let l = u16_of(s[0], s[1]) as int;
        if s.len() < 2 + l {
            SpecDec::Incomplete
        } else if !valid_utf8(s.subrange(2, 2 + l)) {
            SpecDec::Malformed
        } else {
            SpecDec::Done(decode_utf8(s.subrange(2, 2 + l)), 2 + l)
        }
    }
}

pub open spec fn blob_sdec(s: Seq<u8>) -> SpecDec<Seq<u8>> {
    if s.len() < 2 {
        SpecDec::Incomplete
    } else {
        let l = u16_of(s[0], s[1]) as int;
        if s.len() < 2 + l {
            SpecDec::Incomplete
        } else {
            SpecDec::Done(s.subrange(2, 2 + l), 2 + l)
        }
    }
}

/// Decoder for a string field inside a packet whose byte count is already
/// known: running out of bytes there means the packet lied, so every failure
/// is a rejection, `None`.
pub open spec fn str_field(s: Seq<u8>) -> Option<(Seq<char>, int)> {
    match str_sdec(s) {
        SpecDec::Done(v, n) => Some((v, n)),
        _ => None,
    }
}

pub open spec fn blob_field(s: Seq<u8>) -> Option<(Seq<u8>, int)> {
    match blob_sdec(s) {
        SpecDec::Done(v, n) => Some((v, n)),
        _ => None,
    }
}

/// Decoding an encoded string returns the same characters and consumes
/// exactly the field, whatever follows.
pub proof fn lemma_str_round_trip(v: Seq<char>, rest: Seq<u8>)
    requires
        str_wf(v),
    ensures
        str_sdec(enc_str(v) + rest) == SpecDec::Done(v, 2 + encode_utf8(v).len() as int),
        str_field(enc_str(v) + rest) == Some((v, 2 + encode_utf8(v).len() as int)),
{
    let u = encode_utf8(v);
    let l = u.len() as int;
    let s = enc_str(v) + rest;
    assert(s[0] == ((l as u16) / 256) as u8);
    assert(s[1] == ((l as u16) % 256) as u8);
    assert(u16_of(s[0], s[1]) == l);
    assert(s.subrange(2, 2 + l) =~= u);
    encode_utf8_valid_utf8(v);
    encode_utf8_decode_utf8(v);
}

/// A decoded string field is itself well formed and consumed at least its
/// two-byte prefix: its characters re-encode to exactly the bytes it was read
/// from.
pub proof fn lemma_str_field_props(s: Seq<u8>)
    ensures
        str_field(s) matches Some(p) ==> str_wf(p.0) && 2 <= p.1 <= s.len() && encode_utf8(
            p.0,
        ).len() == p.1 - 2,
{
    if s.len() >= 2 {
        let l = u16_of(s[0], s[1]) as int;
        if s.len() >= 2 + l && valid_utf8(s.subrange(2, 2 + l)) {
            vstd::utf8::decode_utf8_encode_utf8(s.subrange(2, 2 + l));
        }
    }
}

/// Decoding an encoded blob returns the same bytes and consumes exactly the
/// field, whatever follows.
pub proof fn lemma_blob_round_trip(v: Seq<u8>, rest: Seq<u8>)
    requires
        blob_wf(v),
    ensures
        blob_sdec(enc_blob(v) + rest) == SpecDec::Done(v, 2 + v.len() as int),
        blob_field(enc_blob(v) + rest) == Some((v, 2 + v.len() as int)),
{
    let l = v.len() as int;
    let s = enc_blob(v) + rest;
    assert(s[0] == ((l as u16) / 256) as u8);
    assert(s[1] == ((l as u16) % 256) as u8);
    assert(u16_of(s[0], s[1]) == l);
    assert(s.subrange(2, 2 + l) =~= v);
}

// ---------------------------------------------------------------------------
// Variable-byte integers: little-endian by septet, continuation bit on high.
// ---------------------------------------------------------------------------
pub open spec fn vbi_enc(n: int) -> Seq<u8>
    recommends
        0 <= n <= VBI_MAX,
    decreases n,
{
    if n < 128 {
        seq![n as u8]
    } else {
        seq![(n % 128 + 128) as u8] + vbi_enc(n / 128)
    }
}

/// Number of bytes of the minimal encoding of `n`.
pub open spec fn vbi_len(n: int) -> int {
    if n < 128 {
        1
    } else if n < 16384 {
        2
    } else if n < 2097152 {
        3
    } else {
        4
    }
}

pub proof fn lemma_vbi_enc_len(n: int)
    requires
        0 <= n <= VBI_MAX,
    ensures
        vbi_enc(n).len() == vbi_len(n),
        1 <= vbi_enc(n).len() <= 4,
    decreases n,
{
    if n >= 128 {
        lemma_vbi_enc_len(n / 128);
    }
}

/// A decoder may read at most four bytes; `fuel` counts how many are still
/// allowed, so a fifth continuation byte is rejected.
pub open spec fn vbi_dec_rec(s: Seq<u8>, fuel: nat) -> SpecDec<u32>
    decreases fuel,
{
    if fuel == 0 {
        SpecDec::Malformed
    } else if s.len() == 0 {
        SpecDec::Incomplete
    } else if s[0] < 128 {
        SpecDec::Done(s[0] as u32, 1)
    } else {
        match vbi_dec_rec(s.skip(1), (fuel - 1) as nat) {
            SpecDec::Done(v, n) => SpecDec::Done((s[0] - 128 + 128 * v) as u32, n + 1),
            SpecDec::Incomplete => SpecDec::Incomplete,
            SpecDec::Malformed => SpecDec::Malformed,
        }
    }
}

pub open spec fn vbi_dec(s: Seq<u8>) -> SpecDec<u32> {
    vbi_dec_rec(s, 4)
}

/// A decoded value stays under `128^fuel`, so the arithmetic in the decoder
/// never wraps.
pub proof fn lemma_vbi_dec_bound(s: Seq<u8>, fuel: nat)
    requires
        fuel <= 4,
    ensures
        vbi_dec_rec(s, fuel) matches SpecDec::Done(v, n) ==> {
            &&& 1 <= n <= fuel
            &&& n <= s.len()
            &&& if fuel == 1 {
                v < 128
            } else if fuel == 2 {
                v < 16384
            } else if fuel == 3 {
                v < 2097152
            } else {
                v <= VBI_MAX
            }
        },
    decreases fuel,
{
    if fuel > 0 && s.len() > 0 && s[0] >= 128 {
        lemma_vbi_dec_bound(s.skip(1), (fuel - 1) as nat);
    }
}

/// The round trip of the variable-byte integer, stepped by the decoder's
/// fuel.
pub proof fn lemma_vbi_round_trip_rec(n: int, rest: Seq<u8>, fuel: nat)
    requires
        0 <= n <= VBI_MAX,
        vbi_enc(n).len() <= fuel <= 4,
    ensures
        vbi_dec_rec(vbi_enc(n) + rest, fuel) == SpecDec::Done(n as u32, vbi_enc(n).len() as int),
    decreases n,
{
    lemma_vbi_enc_len(n);
    let s = vbi_enc(n) + rest;
    if n < 128 {
        assert(s[0] == n as u8);
    } else {
        assert(s[0] == (n % 128 + 128) as u8);
        assert(s[0] >= 128);
        lemma_vbi_enc_len(n / 128);
        assert(s.skip(1) =~= vbi_enc(n / 128) + rest);
        lemma_vbi_round_trip_rec(n / 128, rest, (fuel - 1) as nat);
        assert(n % 128 + 128 * (n / 128) == n);
    }
}

/// Decoding an encoded variable-byte integer returns the value and consumes
/// exactly its encoding, whatever follows.
pub proof fn lemma_vbi_round_trip(n: int, rest: Seq<u8>)
    requires
        0 <= n <= VBI_MAX,
    ensures
        vbi_dec(vbi_enc(n) + rest) == SpecDec::Done(n as u32, vbi_enc(n).len() as int),
{
    lemma_vbi_enc_len(n);
    lemma_vbi_round_trip_rec(n, rest, 4);
}

/// A strict prefix of an encoding decodes to `Incomplete`: the framer asks
/// for more bytes rather than guessing.
pub proof fn lemma_vbi_prefix_incomplete(n: int, k: int)
    requires
        0 <= n <= VBI_MAX,
        0 <= k < vbi_enc(n).len(),
    ensures
        vbi_dec(vbi_enc(n).take(k)) == SpecDec::<u32>::Incomplete,
{
    lemma_vbi_enc_len(n);
    lemma_vbi_prefix_incomplete_rec(n, k, 4);
}

proof fn lemma_vbi_prefix_incomplete_rec(n: int, k: int, fuel: nat)
    requires
        0 <= n <= VBI_MAX,
        0 <= k < vbi_enc(n).len(),
        vbi_enc(n).len() <= fuel <= 4,
    ensures
        vbi_dec_rec(vbi_enc(n).take(k), fuel) == SpecDec::<u32>::Incomplete,
    decreases n,
{
    lemma_vbi_enc_len(n);
    let p = vbi_enc(n).take(k);
    if k == 0 {
    } else {
        assert(n >= 128);
        assert(p[0] == (n % 128 + 128) as u8);
        assert(p[0] >= 128);
        lemma_vbi_enc_len(n / 128);
        assert(p.skip(1) =~= vbi_enc(n / 128).take(k - 1));
        lemma_vbi_prefix_incomplete_rec(n / 128, k - 1, (fuel - 1) as nat);
    }
}

// ---------------------------------------------------------------------------
// The fixed header: one type/flags byte, then the remaining length.
// ---------------------------------------------------------------------------
/// Decodes the fixed header of a packet: the packet-type nibble, the flags
/// nibble, and the remaining length. The count in `Done` is the header's own
/// byte count.
pub open spec fn fh_dec(s: Seq<u8>) -> SpecDec<(u8, u8, u32)> {
    if s.len() == 0 {
        SpecDec::Incomplete
    } else {
        match vbi_dec(s.skip(1)) {
            SpecDec::Done(rem, n) => SpecDec::Done(((s[0] / 16) as u8, (s[0] % 16) as u8, rem), 1 + n),
            SpecDec::Incomplete => SpecDec::Incomplete,
            SpecDec::Malformed => SpecDec::Malformed,
        }
    }
}

/// The fixed header emitted for a packet: `ptype` and `flags` are nibbles,
/// `rem` the body's byte count.
pub open spec fn fh_enc(ptype: u8, flags: u8, rem: int) -> Seq<u8>
    recommends
        ptype < 16,
        flags < 16,
        0 <= rem <= VBI_MAX,
{
    seq![(ptype * 16 + flags) as u8] + vbi_enc(rem)
}

/// How many bytes the packet at the front of `s` occupies in all, judged by
/// the fixed header alone; the count in `Done` is the header's byte count.
pub open spec fn frame_size(s: Seq<u8>) -> SpecDec<int> {
    match fh_dec(s) {
        SpecDec::Done(h, hl) => SpecDec::Done(hl + h.2, hl),
        SpecDec::Incomplete => SpecDec::Incomplete,
        SpecDec::Malformed => SpecDec::Malformed,
    }
}

/// Decoding an encoded fixed header returns its three fields and consumes
/// exactly the header, whatever follows.
pub proof fn lemma_fh_round_trip(ptype: u8, flags: u8, rem: int, rest: Seq<u8>)
    requires
        ptype < 16,
        flags < 16,
        0 <= rem <= VBI_MAX,
    ensures
        fh_dec(fh_enc(ptype, flags, rem) + rest) == SpecDec::Done(
            (ptype, flags, rem as u32),
            1 + vbi_enc(rem).len() as int,
        ),
{
    let s = fh_enc(ptype, flags, rem) + rest;
    assert(s[0] == (ptype * 16 + flags) as u8);
    assert(s.skip(1) =~= vbi_enc(rem) + rest);
    lemma_vbi_round_trip(rem, rest);
    assert(s[0] / 16 == ptype && s[0] % 16 == flags);
}

} // verus!
