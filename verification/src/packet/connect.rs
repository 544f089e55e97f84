//! The CONNECT packet: protocol name and level, the connect flags, the
//! keep-alive, and a payload whose optional fields are governed by the flags.
use vstd::prelude::*;
use crate::buffer::{buf_advance, buf_as_slice, bytes_view};
use crate::packet::{
    encode_fixedheader, read_blob, read_fixed_header, read_str, read_u16_at, FixedHeader,
};
use crate::variable_header::connect_flags::{
    flags_byte, flags_of_byte, lemma_flags_round_trip, pack_connect_flags, unpack_connect_flags,
};
use crate::variable_header::{ConnectFlags, KeepAlive, ProtocolLevel, ProtocolName, VecBytes};
use crate::wire::{
    blob_field, blob_wf, enc_blob, enc_str, enc_u16, fh_dec, fh_enc, lemma_fh_round_trip,
    lemma_blob_round_trip, lemma_str_field_props, lemma_str_round_trip, str_field, str_wf, u16_of,
    SpecDec, VBI_MAX,
};
use crate::{encode_u16_bytes, DecodeError, Encodable, EncodeError};

verus! {

/// What the CONNECT payload carries: the client identifier and the optional
/// will, user name and password fields.
#[verifier::ext_equal]
pub struct ConnectPayloadV {
    pub client_identifier: Seq<char>,
    pub will_topic: Option<Seq<char>>,
    pub will_message: Option<Seq<u8>>,
    pub user_name: Option<Seq<char>>,
    pub password: Option<Seq<char>>,
}

/// What a CONNECT carries.
#[verifier::ext_equal]
pub struct ConnectV {
    pub protocol_name: Seq<char>,
    pub protocol_level: u8,
    pub connect_flags: ConnectFlags,
    pub keep_alive: u16,
    pub payload: ConnectPayloadV,
}

pub open spec fn opt_str_enc(o: Option<Seq<char>>) -> Seq<u8> {
    match o {
        Some(s) => enc_str(s),
        None => Seq::<u8>::empty(),
    }
}

pub open spec fn opt_blob_enc(o: Option<Seq<u8>>) -> Seq<u8> {
    match o {
        Some(b) => enc_blob(b),
        None => Seq::<u8>::empty(),
    }
}

pub open spec fn opt_str_wf(o: Option<Seq<char>>) -> bool {
    match o {
        Some(s) => str_wf(s),
        None => true,
    }
}

pub open spec fn connect_payload_enc(p: ConnectPayloadV) -> Seq<u8> {
    enc_str(p.client_identifier) + opt_str_enc(p.will_topic) + opt_blob_enc(p.will_message)
        + opt_str_enc(p.user_name) + opt_str_enc(p.password)
}

pub open spec fn connect_body(v: ConnectV) -> Seq<u8> {
    enc_str(v.protocol_name) + seq![v.protocol_level, flags_byte(v.connect_flags)] + enc_u16(
        v.keep_alive,
    ) + connect_payload_enc(v.payload)
}

pub open spec fn connect_enc(v: ConnectV) -> Seq<u8> {
    fh_enc(1, 0, connect_body(v).len() as int) + connect_body(v)
}

/// Every payload string or blob fits its field.
pub open spec fn payload_fields_fit(p: ConnectPayloadV) -> bool {
    &&& str_wf(p.client_identifier)
    &&& opt_str_wf(p.will_topic)
    &&& (p.will_message matches Some(m) ==> blob_wf(m))
    &&& opt_str_wf(p.user_name)
    &&& opt_str_wf(p.password)
}

/// Every string fits its field.
pub open spec fn connect_fields_fit(v: ConnectV) -> bool {
    &&& str_wf(v.protocol_name)
    &&& payload_fields_fit(v.payload)
}

/// A CONNECT fits the wire when its strings fit their fields, each optional
/// payload field is present exactly when its flag is set, the will QoS is a
/// level and is zero (with retain clear) when there is no will, and the body
/// fits the remaining-length field.
pub open spec fn connect_wf(v: ConnectV) -> bool {
    &&& connect_fields_fit(v)
    &&& (v.connect_flags.will_flag <==> v.payload.will_topic is Some)
    &&& (v.connect_flags.will_flag <==> v.payload.will_message is Some)
    &&& (v.connect_flags.user_name_flag <==> v.payload.user_name is Some)
    &&& (v.connect_flags.password_flag <==> v.payload.password is Some)
    &&& v.connect_flags.will_QoS <= 2
    &&& (!v.connect_flags.will_flag ==> v.connect_flags.will_QoS == 0
        && !v.connect_flags.will_retain)
    &&& connect_body(v).len() <= VBI_MAX
}

/// Decodes an optional string field: reads nothing when the flag is clear.
pub open spec fn opt_str_field(s: Seq<u8>, present: bool) -> Option<(Option<Seq<char>>, int)> {
    if present {
        match str_field(s) {
            Some(p) => Some((Some(p.0), p.1)),
            None => None,
        }
    } else {
        Some((None, 0))
    }
}

/// Decodes an optional blob field: reads nothing when the flag is clear.
pub open spec fn opt_blob_field(s: Seq<u8>, present: bool) -> Option<(Option<Seq<u8>>, int)> {
    if present {
        match blob_field(s) {
            Some(p) => Some((Some(p.0), p.1)),
            None => None,
        }
    } else {
        Some((None, 0))
    }
}

/// Decodes the payload fields in order, each gated by its flag.
pub open spec fn connect_payload_dec(s: Seq<u8>, f: ConnectFlags) -> Option<
    (ConnectPayloadV, int),
> {
    match str_field(s) {
        Some(c) => match opt_str_field(s.skip(c.1), f.will_flag) {
            Some(wt) => match opt_blob_field(s.skip(c.1 + wt.1), f.will_flag) {
                Some(wm) => match opt_str_field(s.skip(c.1 + wt.1 + wm.1), f.user_name_flag) {
                    Some(un) => match opt_str_field(
                        s.skip(c.1 + wt.1 + wm.1 + un.1),
                        f.password_flag,
                    ) {
                        Some(pw) => Some(
                            (
                                ConnectPayloadV {
                                    client_identifier: c.0,
                                    will_topic: wt.0,
                                    will_message: wm.0,
                                    user_name: un.0,
                                    password: pw.0,
                                },
                                c.1 + wt.1 + wm.1 + un.1 + pw.1,
                            ),
                        ),
                        None => None,
                    },
                    None => None,
                },
                None => None,
            },
            None => None,
        },
        None => None,
    }
}

/// Decodes the body of a CONNECT whose byte count is already settled: the
/// variable header, then the payload, which must fill the body exactly.
pub open spec fn connect_body_dec(body: Seq<u8>) -> Option<ConnectV> {
    match str_field(body) {
        Some(pn) => {
            if body.len() < pn.1 + 4 {
                None
            } else {
                let level = body[pn.1];
                let f = flags_of_byte(body[pn.1 + 1]);
                let ka = u16_of(body[pn.1 + 2], body[pn.1 + 3]);
                if f.will_QoS > 2 || (!f.will_flag && (f.will_QoS != 0 || f.will_retain)) {
                    None
                } else {
                    match connect_payload_dec(body.skip(pn.1 + 4), f) {
                        Some(pl) => {
                            if pn.1 + 4 + pl.1 == body.len() {
                                Some(
                                    ConnectV {
                                        protocol_name: pn.0,
                                        protocol_level: level,
                                        connect_flags: f,
                                        keep_alive: ka,
                                        payload: pl.0,
                                    },
                                )
                            } else {
                                None
                            }
                        },
                        None => None,
                    }
                }
            }
        },
        None => None,
    }
}

/// Decodes a CONNECT from the front of `s`: type nibble 1, zero flags, then
/// the body.
pub open spec fn connect_dec(s: Seq<u8>) -> SpecDec<ConnectV> {
    match fh_dec(s) {
        SpecDec::Done(h, hl) => {
            if h.0 != 1 || h.1 != 0 {
                SpecDec::Malformed
            } else if s.len() < hl + h.2 {
                SpecDec::Incomplete
            } else {
                match connect_body_dec(s.subrange(hl, hl + h.2)) {
                    Some(v) => SpecDec::Done(v, hl + h.2),
                    None => SpecDec::Malformed,
                }
            }
        },
        SpecDec::Incomplete => SpecDec::Incomplete,
        SpecDec::Malformed => SpecDec::Malformed,
    }
}

proof fn lemma_opt_str_round_trip(o: Option<Seq<char>>, rest: Seq<u8>)
    requires
        opt_str_wf(o),
    ensures
        opt_str_field(opt_str_enc(o) + rest, o is Some) == Some(
            (o, opt_str_enc(o).len() as int),
        ),
        (opt_str_enc(o) + rest).skip(opt_str_enc(o).len() as int) =~= rest,
{
    match o {
        Some(t) => {
            lemma_str_round_trip(t, rest);
        },
        None => {
            assert(opt_str_enc(o) + rest =~= rest);
        },
    }
    assert((opt_str_enc(o) + rest).skip(opt_str_enc(o).len() as int) =~= rest);
}

proof fn lemma_opt_blob_round_trip(o: Option<Seq<u8>>, rest: Seq<u8>)
    requires
        o matches Some(m) ==> blob_wf(m),
    ensures
        opt_blob_field(opt_blob_enc(o) + rest, o is Some) == Some(
            (o, opt_blob_enc(o).len() as int),
        ),
        (opt_blob_enc(o) + rest).skip(opt_blob_enc(o).len() as int) =~= rest,
{
    match o {
        Some(m) => {
            lemma_blob_round_trip(m, rest);
        },
        None => {
            assert(opt_blob_enc(o) + rest =~= rest);
        },
    }
    assert((opt_blob_enc(o) + rest).skip(opt_blob_enc(o).len() as int) =~= rest);
}

#[verifier::rlimit(100)]
proof fn lemma_connect_payload_round_trip(p: ConnectPayloadV, f: ConnectFlags, rest: Seq<u8>)
    requires
        payload_fields_fit(p),
        f.will_flag <==> p.will_topic is Some,
        f.will_flag <==> p.will_message is Some,
        f.user_name_flag <==> p.user_name is Some,
        f.password_flag <==> p.password is Some,
    ensures
        connect_payload_dec(connect_payload_enc(p) + rest, f) == Some(
            (p, connect_payload_enc(p).len() as int),
        ),
{
    let e0 = enc_str(p.client_identifier);
    let e1 = opt_str_enc(p.will_topic);
    let e2 = opt_blob_enc(p.will_message);
    let e3 = opt_str_enc(p.user_name);
    let e4 = opt_str_enc(p.password);
    let s = connect_payload_enc(p) + rest;
    let n0 = e0.len() as int;
    let n1 = e1.len() as int;
    let n2 = e2.len() as int;
    let n3 = e3.len() as int;
    let n4 = e4.len() as int;
    let s1 = s.skip(n0);
    let s2 = s.skip(n0 + n1);
    let s3 = s.skip(n0 + n1 + n2);
    let s4 = s.skip(n0 + n1 + n2 + n3);
    assert(s =~= e0 + (e1 + (e2 + (e3 + (e4 + rest)))));
    assert(s1 =~= e1 + (e2 + (e3 + (e4 + rest))));
    assert(s2 =~= e2 + (e3 + (e4 + rest)));
    assert(s3 =~= e3 + (e4 + rest));
    assert(s4 =~= e4 + rest);
    lemma_str_round_trip(p.client_identifier, e1 + (e2 + (e3 + (e4 + rest))));
    assert(str_field(s) == Some((p.client_identifier, n0)));
    lemma_opt_str_round_trip(p.will_topic, e2 + (e3 + (e4 + rest)));
    assert(opt_str_field(s1, f.will_flag) == Some((p.will_topic, n1)));
    lemma_opt_blob_round_trip(p.will_message, e3 + (e4 + rest));
    assert(opt_blob_field(s2, f.will_flag) == Some((p.will_message, n2)));
    lemma_opt_str_round_trip(p.user_name, e4 + rest);
    assert(opt_str_field(s3, f.user_name_flag) == Some((p.user_name, n3)));
    lemma_opt_str_round_trip(p.password, rest);
    assert(opt_str_field(s4, f.password_flag) == Some((p.password, n4)));
    assert(connect_payload_dec(s, f) matches Some(q) && q.0 =~= p && q.1 == n0 + n1 + n2 + n3
        + n4);
}

/// Decoding what was encoded returns the same content and consumes exactly
/// the encoding, whatever follows it.
#[verifier::rlimit(30)]
pub proof fn lemma_connect_round_trip(v: ConnectV, rest: Seq<u8>)
    requires
        connect_wf(v),
    ensures
        connect_dec(connect_enc(v) + rest) == SpecDec::Done(v, connect_enc(v).len() as int),
{
    let body = connect_body(v);
    let s = connect_enc(v) + rest;
    assert(s =~= fh_enc(1, 0, body.len() as int) + (body + rest));
    lemma_fh_round_trip(1, 0, body.len() as int, body + rest);
    let hl = 1 + crate::wire::vbi_enc(body.len() as int).len() as int;
    assert(s.subrange(hl, hl + body.len()) =~= body);
    let e0 = enc_str(v.protocol_name);
    let mid = seq![v.protocol_level, flags_byte(v.connect_flags)] + enc_u16(v.keep_alive)
        + connect_payload_enc(v.payload);
    assert(body =~= e0 + mid);
    lemma_str_round_trip(v.protocol_name, mid);
    let a = e0.len() as int;
    assert(str_field(body) == Some((v.protocol_name, a)));
    assert(body[a] == v.protocol_level);
    assert(body[a + 1] == flags_byte(v.connect_flags));
    lemma_flags_round_trip(v.connect_flags);
    assert(body[a + 2] == enc_u16(v.keep_alive)[0]);
    assert(body[a + 3] == enc_u16(v.keep_alive)[1]);
    assert(u16_of(enc_u16(v.keep_alive)[0], enc_u16(v.keep_alive)[1]) == v.keep_alive);
    assert(body.skip(a + 4) =~= connect_payload_enc(v.payload));
    assert(connect_payload_enc(v.payload) + Seq::<u8>::empty() =~= connect_payload_enc(v.payload));
    lemma_connect_payload_round_trip(v.payload, v.connect_flags, Seq::<u8>::empty());
    assert(connect_body_dec(body) matches Some(w) && w =~= v);
}

/// The payload of a CONNECT packet.
#[derive(Debug)]
pub struct ConnectPayload {
    client_identifier: String,
    will_topic: Option<String>,
    will_message: Option<VecBytes>,
    user_name: Option<String>,
    password: Option<String>,
}

impl View for ConnectPayload {
    type V = ConnectPayloadV;

    closed spec fn view(&self) -> ConnectPayloadV {
        ConnectPayloadV {
            client_identifier: self.client_identifier@,
            will_topic: match self.will_topic {
                Some(t) => Some(t@),
                None => None,
            },
            will_message: match self.will_message {
                Some(m) => Some(m.0@),
                None => None,
            },
            user_name: match self.user_name {
                Some(u) => Some(u@),
                None => None,
            },
            password: match self.password {
                Some(p) => Some(p@),
                None => None,
            },
        }
    }
}

impl ConnectPayload {
    /// A payload with only a client identifier.
    pub fn new(client_identifier: String) -> (r: ConnectPayload)
        ensures
            r@ == (ConnectPayloadV {
                client_identifier: client_identifier@,
                will_topic: None,
                will_message: None,
                user_name: None,
                password: None,
            }),
    {
        ConnectPayload {
            client_identifier,
            will_topic: None,
            will_message: None,
            user_name: None,
            password: None,
        }
    }
}

/// A CONNECT packet value.
#[derive(Debug)]
pub struct Connect {
    fix_header: FixedHeader,
    protocol_name: ProtocolName,
    protocol_level: ProtocolLevel,
    connect_flags: ConnectFlags,
    keep_alive: KeepAlive,
    payload: ConnectPayload,
}

impl View for Connect {
    type V = ConnectV;

    closed spec fn view(&self) -> ConnectV {
        ConnectV {
            protocol_name: self.protocol_name.0@,
            protocol_level: self.protocol_level.0,
            connect_flags: self.connect_flags,
            keep_alive: self.keep_alive.0,
            payload: self.payload@,
        }
    }
}

/// The view after replacing the will: setting one raises the flag; clearing
/// it also clears the will QoS and retain bits.
pub open spec fn with_will(v: ConnectV, w: Option<(Seq<char>, Seq<u8>)>) -> ConnectV {
    match w {
        Some(tm) => ConnectV {
            connect_flags: ConnectFlags { will_flag: true, ..v.connect_flags },
            payload: ConnectPayloadV {
                will_topic: Some(tm.0),
                will_message: Some(tm.1),
                ..v.payload
            },
            ..v
        },
        None => ConnectV {
            connect_flags: ConnectFlags {
                will_flag: false,
                will_QoS: 0u8,
                will_retain: false,
                ..v.connect_flags
            },
            payload: ConnectPayloadV { will_topic: None, will_message: None, ..v.payload },
            ..v
        },
    }
}

/// The view after replacing the user name.
pub open spec fn with_user_name(v: ConnectV, u: Option<Seq<char>>) -> ConnectV {
    ConnectV {
        connect_flags: ConnectFlags { user_name_flag: u is Some, ..v.connect_flags },
        payload: ConnectPayloadV { user_name: u, ..v.payload },
        ..v
    }
}

/// The view after replacing the password.
pub open spec fn with_password(v: ConnectV, u: Option<Seq<char>>) -> ConnectV {
    ConnectV {
        connect_flags: ConnectFlags { password_flag: u is Some, ..v.connect_flags },
        payload: ConnectPayloadV { password: u, ..v.payload },
        ..v
    }
}

pub open spec fn opt_string_view(o: Option<String>) -> Option<Seq<char>> {
    match o {
        Some(s) => Some(s@),
        None => None,
    }
}

pub open spec fn will_input_view(w: Option<(String, Vec<u8>)>) -> Option<(Seq<char>, Seq<u8>)> {
    match w {
        Some(tm) => Some((tm.0@, tm.1@)),
        None => None,
    }
}

impl Connect {
    /// The fields fit the wire and the stored remaining length is the body's
    /// byte count.
    pub closed spec fn wf(&self) -> bool {
        &&& self.fix_header.packet_type == 1
        &&& self.fix_header.reserved == 0
        &&& connect_wf(self@)
        &&& self.fix_header.remaining_length == connect_body(self@).len()
    }

    /// Well-formedness apart from the field sizes and the stored length.
    pub closed spec fn shape_wf(&self) -> bool {
        &&& self.fix_header.packet_type == 1
        &&& self.fix_header.reserved == 0
        &&& (self.connect_flags.will_flag <==> self.payload.will_topic is Some)
        &&& (self.connect_flags.will_flag <==> self.payload.will_message is Some)
        &&& (self.connect_flags.user_name_flag <==> self.payload.user_name is Some)
        &&& (self.connect_flags.password_flag <==> self.payload.password is Some)
        &&& self.connect_flags.will_QoS <= 2
        &&& (!self.connect_flags.will_flag ==> self.connect_flags.will_QoS == 0
            && !self.connect_flags.will_retain)
    }

    /// A CONNECT with the given protocol name, client identifier and protocol
    /// level, default flags and keep-alive zero. Fails exactly when a name
    /// cannot fit a string field.
    pub fn with_level(protocol_name: &str, client_identifier: &str, level: u8) -> (r: Result<
        Connect,
        EncodeError,
    >)
        ensures
            ({
                let nv = ConnectV {
                    protocol_name: protocol_name@,
                    protocol_level: level,
                    connect_flags: ConnectFlags {
                        user_name_flag: false,
                        password_flag: false,
                        will_retain: false,
                        will_QoS: 0u8,
                        will_flag: false,
                        clean_session: false,
                        reserved: false,
                    },
                    keep_alive: 0u16,
                    payload: ConnectPayloadV {
                        client_identifier: client_identifier@,
                        will_topic: None,
                        will_message: None,
                        user_name: None,
                        password: None,
                    },
                };
                if str_wf(protocol_name@) && str_wf(client_identifier@) {
                    r matches Ok(c) && c.wf() && c@ == nv
                } else {
                    r == Err::<Connect, EncodeError>(EncodeError::FieldTooLong)
                }
            }),
    {
        let mut connect = Connect {
            fix_header: FixedHeader { packet_type: 1, reserved: 0, remaining_length: 0 },
            protocol_name: ProtocolName(protocol_name.to_owned()),
            protocol_level: ProtocolLevel(level),
            connect_flags: ConnectFlags::new(),
            keep_alive: KeepAlive(0),
            payload: ConnectPayload::new(client_identifier.to_owned()),
        };
        let r = connect.calculate_remaining_length();
        proof {
            if str_wf(protocol_name@) && str_wf(client_identifier@) {
                assert(connect_body(connect@).len() <= 4 + (2 + 0xFFFF) + (2 + 0xFFFF));
            }
        }
        match r {
            Ok(_) => Ok(connect),
            Err(e) => Err(e),
        }
    }

    /// Recomputes the stored remaining length from the fields. Fails, leaving
    /// the content unchanged, exactly when a string or blob cannot fit its
    /// field or the body cannot fit the remaining-length encoding.
    #[verifier::rlimit(100)]
    pub fn calculate_remaining_length(&mut self) -> (r: Result<(), EncodeError>)
        ensures
            final(self)@ == old(self)@,
            ({
                let v = old(self)@;
                if !connect_fields_fit(v) {
                    r == Err::<(), EncodeError>(EncodeError::FieldTooLong)
                } else if connect_body(v).len() > VBI_MAX {
                    r == Err::<(), EncodeError>(EncodeError::RemainingLengthOutOfRange)
                } else {
                    r is Ok && (old(self).shape_wf() ==> final(self).wf())
                }
            }),
    {
        let pn_len = self.protocol_name.0.as_str().as_bytes_vec().len();
        if pn_len > 0xFFFF {
            return Err(EncodeError::FieldTooLong);
        }
        let cid_len = self.payload.client_identifier.as_str().as_bytes_vec().len();
        if cid_len > 0xFFFF {
            return Err(EncodeError::FieldTooLong);
        }
        let wt_len: u64;
        match &self.payload.will_topic {
            Some(t) => {
                let l = t.as_str().as_bytes_vec().len();
                if l > 0xFFFF {
                    return Err(EncodeError::FieldTooLong);
                }
                wt_len = 2 + l as u64;
            },
            None => {
                wt_len = 0;
            },
        }
        let wm_len: u64;
        match &self.payload.will_message {
            Some(m) => {
                if m.0.len() > 0xFFFF {
                    return Err(EncodeError::FieldTooLong);
                }
                wm_len = 2 + m.0.len() as u64;
            },
            None => {
                wm_len = 0;
            },
        }
        let un_len: u64;
        match &self.payload.user_name {
            Some(u) => {
                let l = u.as_str().as_bytes_vec().len();
                if l > 0xFFFF {
                    return Err(EncodeError::FieldTooLong);
                }
                un_len = 2 + l as u64;
            },
            None => {
                un_len = 0;
            },
        }
        let pw_len: u64;
        match &self.payload.password {
            Some(p) => {
                let l = p.as_str().as_bytes_vec().len();
                if l > 0xFFFF {
                    return Err(EncodeError::FieldTooLong);
                }
                pw_len = 2 + l as u64;
            },
            None => {
                pw_len = 0;
            },
        }
        let total: u64 = 2 + (pn_len as u64) + 4 + 2 + (cid_len as u64) + wt_len + wm_len + un_len
            + pw_len;
        proof {
            assert(connect_payload_enc(self@.payload).len() == 2 + cid_len + wt_len + wm_len
                + un_len + pw_len);
            assert(connect_body(self@).len() == 2 + pn_len + 4 + connect_payload_enc(
                self@.payload,
            ).len());
        }
        if total > VBI_MAX as u64 {
            return Err(EncodeError::RemainingLengthOutOfRange);
        }
        self.fix_header.remaining_length = total as u32;
        Ok(())
    }

    /// Replaces the will. Clearing it also clears the will QoS and retain
    /// bits, keeping the flags consistent. Fails exactly when the new topic
    /// or message cannot fit its field or the body outgrows the
    /// remaining-length encoding.
    pub fn set_will(&mut self, will: Option<(String, Vec<u8>)>) -> (r: Result<(), EncodeError>)
        requires
            old(self).wf(),
        ensures
            final(self)@ == with_will(old(self)@, will_input_view(will)),
            ({
                let nv = with_will(old(self)@, will_input_view(will));
                if !(will_input_view(will) matches Some(tm) ==> str_wf(tm.0) && blob_wf(tm.1)) {
                    r == Err::<(), EncodeError>(EncodeError::FieldTooLong)
                } else if connect_body(nv).len() > VBI_MAX {
                    r == Err::<(), EncodeError>(EncodeError::RemainingLengthOutOfRange)
                } else {
                    r is Ok && final(self).wf()
                }
            }),
    {
        self.connect_flags.will_flag = will.is_some();
        match will {
            Some((topic_name, message)) => {
                self.payload.will_topic = Some(topic_name);
                self.payload.will_message = Some(VecBytes(message));
            },
            None => {
                self.payload.will_topic = None;
                self.payload.will_message = None;
                self.connect_flags.will_QoS = 0;
                self.connect_flags.will_retain = false;
            },
        }
        self.calculate_remaining_length()
    }

    /// Replaces the user name, setting its flag to match. Fails exactly when
    /// the new name cannot fit its field or the body outgrows the
    /// remaining-length encoding.
    pub fn set_user_name(&mut self, user_name: Option<String>) -> (r: Result<(), EncodeError>)
        requires
            old(self).wf(),
        ensures
            final(self)@ == with_user_name(old(self)@, opt_string_view(user_name)),
            ({
                let nv = with_user_name(old(self)@, opt_string_view(user_name));
                if !opt_str_wf(opt_string_view(user_name)) {
                    r == Err::<(), EncodeError>(EncodeError::FieldTooLong)
                } else if connect_body(nv).len() > VBI_MAX {
                    r == Err::<(), EncodeError>(EncodeError::RemainingLengthOutOfRange)
                } else {
                    r is Ok && final(self).wf()
                }
            }),
    {
        self.connect_flags.user_name_flag = user_name.is_some();
        self.payload.user_name = user_name;
        self.calculate_remaining_length()
    }

    /// Replaces the password, setting its flag to match. Fails exactly when
    /// the new password cannot fit its field or the body outgrows the
    /// remaining-length encoding.
    pub fn set_password(&mut self, password: Option<String>) -> (r: Result<(), EncodeError>)
        requires
            old(self).wf(),
        ensures
            final(self)@ == with_password(old(self)@, opt_string_view(password)),
            ({
                let nv = with_password(old(self)@, opt_string_view(password));
                if !opt_str_wf(opt_string_view(password)) {
                    r == Err::<(), EncodeError>(EncodeError::FieldTooLong)
                } else if connect_body(nv).len() > VBI_MAX {
                    r == Err::<(), EncodeError>(EncodeError::RemainingLengthOutOfRange)
                } else {
                    r is Ok && final(self).wf()
                }
            }),
    {
        self.connect_flags.password_flag = password.is_some();
        self.payload.password = password;
        self.calculate_remaining_length()
    }

    /// Sets the clean-session flag; the wire size does not change.
    pub fn set_clean_session(&mut self, clean_session: bool)
        requires
            old(self).wf(),
        ensures
            final(self).wf(),
            final(self)@ == (ConnectV {
                connect_flags: ConnectFlags { clean_session, ..old(self)@.connect_flags },
                ..old(self)@
            }),
    {
        self.connect_flags.clean_session = clean_session;
    }

    /// Sets the will-retain bit; there must be a will to retain.
    pub fn set_will_retain(&mut self, will_retain: bool)
        requires
            old(self).wf(),
            will_retain ==> old(self)@.connect_flags.will_flag,
        ensures
            final(self).wf(),
            final(self)@ == (ConnectV {
                connect_flags: ConnectFlags { will_retain, ..old(self)@.connect_flags },
                ..old(self)@
            }),
    {
        self.connect_flags.will_retain = will_retain;
    }

    /// Sets the will QoS, a level of the will's delivery; there must be a
    /// will for a level above zero.
    pub fn set_will_qos(&mut self, will_qos: u8)
        requires
            old(self).wf(),
            will_qos <= 2,
            will_qos > 0 ==> old(self)@.connect_flags.will_flag,
        ensures
            final(self).wf(),
            final(self)@ == (ConnectV {
                connect_flags: ConnectFlags {
                    will_QoS: will_qos,
                    ..old(self)@.connect_flags
                },
                ..old(self)@
            }),
    {
        self.connect_flags.will_QoS = will_qos;
    }

    /// Decodes a CONNECT from the front of the buffer, consuming exactly the
    /// packet on success and nothing otherwise.
    pub fn decode(b: &mut bytes::BytesMut) -> (r: Result<Connect, DecodeError>)
        ensures
            match connect_dec(bytes_view(*old(b))) {
                SpecDec::Done(v, n) => (r matches Ok(p) && p@ == v && p.wf()) && bytes_view(
                    *final(b),
                ) == bytes_view(*old(b)).skip(n),
                SpecDec::Incomplete => (r matches Err(e) && e == DecodeError::NotEnoughBytes)
                    && bytes_view(*final(b)) == bytes_view(*old(b)),
                SpecDec::Malformed => (r matches Err(e) && e == DecodeError::Malformed)
                    && bytes_view(*final(b)) == bytes_view(*old(b)),
            },
    {
        let result: Connect;
        let total: usize;
        {
            let s = buf_as_slice(b);
            let (t, fl, rem0, hl) = match read_fixed_header(s) {
                Ok(h) => h,
                Err(e) => {
                    return Err(e);
                },
            };
            if t != 1 || fl != 0 {
                return Err(DecodeError::Malformed);
            }
            let rem_us = rem0 as usize;
            if s.len() - hl < rem_us {
                return Err(DecodeError::NotEnoughBytes);
            }
            let end = hl + rem_us;
            match read_connect_body(s, hl, end, rem0) {
                Ok(c) => {
                    result = c;
                },
                Err(e) => {
                    return Err(e);
                },
            }
            total = end;
        }
        buf_advance(b, total);
        Ok(result)
    }
}

/// Reads the CONNECT payload fields lying between `i` and `end`, each gated
/// by its connect flag.
#[verifier::rlimit(100)]
#[verifier::spinoff_prover]
fn read_connect_payload(s: &[u8], i: usize, end: usize, f: ConnectFlags) -> (r: Result<
    (ConnectPayload, usize),
    DecodeError,
>)
    requires
        i <= end <= s@.len(),
    ensures
        match connect_payload_dec(s@.subrange(i as int, end as int), f) {
            Some(pl) => r matches Ok(q) && q.0@ == pl.0 && q.1 == i + pl.1 && q.1 <= end
                && payload_fields_fit(pl.0) && connect_payload_enc(pl.0).len() == pl.1,
            None => r == Err::<(ConnectPayload, usize), DecodeError>(DecodeError::Malformed),
        },
{
    let ghost pls = s@.subrange(i as int, end as int);
    let (cid, i3) = match read_str(s, i, end) {
        Ok(p) => p,
        Err(_) => {
            proof {
                assert(connect_payload_dec(pls, f) is None);
            }
            return Err(DecodeError::Malformed);
        },
    };
    let ghost n0 = i3 - i;
    proof {
        lemma_str_field_props(pls);
        assert(str_field(pls) == Some((cid@, n0)));
        assert(enc_str(cid@).len() == n0);
        assert(pls.skip(n0) =~= s@.subrange(i3 as int, end as int));
    }
    let mut cur = i3;
    let wt: Option<String>;
    if f.will_flag {
        let (t0, j) = match read_str(s, cur, end) {
            Ok(p) => p,
            Err(_) => {
                proof {
                    assert(opt_str_field(pls.skip(n0), f.will_flag) is None);
                    assert(connect_payload_dec(pls, f) is None);
                }
                return Err(DecodeError::Malformed);
            },
        };
        proof {
            lemma_str_field_props(s@.subrange(cur as int, end as int));
            assert(opt_str_field(pls.skip(n0), f.will_flag) == Some(
                (Some(t0@), (j - i3) as int),
            ));
            assert(enc_str(t0@).len() == j - i3);
            assert(pls.skip(j - i) =~= s@.subrange(j as int, end as int));
        }
        wt = Some(t0);
        cur = j;
    } else {
        wt = None;
        proof {
            assert(opt_str_field(pls.skip(n0), f.will_flag) == Some((None::<Seq<char>>, 0int)));
        }
    }
    let ghost n1 = cur - i3;
    let ghost wt_view = opt_string_view(wt);
    proof {
        assert(opt_str_field(pls.skip(n0), f.will_flag) == Some((wt_view, n1)));
        assert(opt_str_enc(wt_view).len() == n1);
    }
    let mark1 = cur;
    let wm: Option<VecBytes>;
    if f.will_flag {
        let (m0, j) = match read_blob(s, cur, end) {
            Ok(p) => p,
            Err(_) => {
                proof {
                    assert(opt_blob_field(pls.skip(n0 + n1), f.will_flag) is None);
                    assert(connect_payload_dec(pls, f) is None);
                }
                return Err(DecodeError::Malformed);
            },
        };
        proof {
            assert(opt_blob_field(pls.skip(n0 + n1), f.will_flag) == Some(
                (Some(m0@), (j - mark1) as int),
            ));
            assert(pls.skip(j - i) =~= s@.subrange(j as int, end as int));
        }
        wm = Some(VecBytes(m0));
        cur = j;
    } else {
        wm = None;
        proof {
            assert(opt_blob_field(pls.skip(n0 + n1), f.will_flag) == Some(
                (None::<Seq<u8>>, 0int),
            ));
        }
    }
    let ghost n2 = cur - mark1;
    let ghost wm_view: Option<Seq<u8>> = match &wm {
        Some(m) => Some(m.0@),
        None => None,
    };
    proof {
        assert(opt_blob_field(pls.skip(n0 + n1), f.will_flag) == Some((wm_view, n2)));
        assert(opt_blob_enc(wm_view).len() == n2);
    }
    let mark2 = cur;
    let un: Option<String>;
    if f.user_name_flag {
        let (u0, j) = match read_str(s, cur, end) {
            Ok(p) => p,
            Err(_) => {
                proof {
                    assert(opt_str_field(pls.skip(n0 + n1 + n2), f.user_name_flag) is None);
                    assert(connect_payload_dec(pls, f) is None);
                }
                return Err(DecodeError::Malformed);
            },
        };
        proof {
            lemma_str_field_props(s@.subrange(cur as int, end as int));
            assert(opt_str_field(pls.skip(n0 + n1 + n2), f.user_name_flag) == Some(
                (Some(u0@), (j - mark2) as int),
            ));
            assert(enc_str(u0@).len() == j - mark2);
            assert(pls.skip(j - i) =~= s@.subrange(j as int, end as int));
        }
        un = Some(u0);
        cur = j;
    } else {
        un = None;
        proof {
            assert(opt_str_field(pls.skip(n0 + n1 + n2), f.user_name_flag) == Some(
                (None::<Seq<char>>, 0int),
            ));
        }
    }
    let ghost n3 = cur - mark2;
    let ghost un_view = opt_string_view(un);
    proof {
        assert(opt_str_field(pls.skip(n0 + n1 + n2), f.user_name_flag) == Some((un_view, n3)));
        assert(opt_str_enc(un_view).len() == n3);
    }
    let mark3 = cur;
    let pw: Option<String>;
    if f.password_flag {
        let (p0, j) = match read_str(s, cur, end) {
            Ok(p) => p,
            Err(_) => {
                proof {
                    assert(opt_str_field(pls.skip(n0 + n1 + n2 + n3), f.password_flag) is None);
                    assert(connect_payload_dec(pls, f) is None);
                }
                return Err(DecodeError::Malformed);
            },
        };
        proof {
            lemma_str_field_props(s@.subrange(cur as int, end as int));
            assert(opt_str_field(pls.skip(n0 + n1 + n2 + n3), f.password_flag) == Some(
                (Some(p0@), (j - mark3) as int),
            ));
            assert(enc_str(p0@).len() == j - mark3);
        }
        pw = Some(p0);
        cur = j;
    } else {
        pw = None;
        proof {
            assert(opt_str_field(pls.skip(n0 + n1 + n2 + n3), f.password_flag) == Some(
                (None::<Seq<char>>, 0int),
            ));
        }
    }
    let ghost n4 = cur - mark3;
    let ghost pw_view = opt_string_view(pw);
    proof {
        assert(opt_str_field(pls.skip(n0 + n1 + n2 + n3), f.password_flag) == Some(
            (pw_view, n4),
        ));
        assert(opt_str_enc(pw_view).len() == n4);
    }
    let payload = ConnectPayload {
        client_identifier: cid,
        will_topic: wt,
        will_message: wm,
        user_name: un,
        password: pw,
    };
    proof {
        assert(connect_payload_dec(pls, f) matches Some(pl) && pl.0 =~= payload@ && pl.1 == n0
            + n1 + n2 + n3 + n4);
        assert(connect_payload_enc(payload@).len() == n0 + n1 + n2 + n3 + n4);
    }
    Ok((payload, cur))
}

/// Reads the body of a CONNECT lying between `hl` and `end`, whose byte count
/// the fixed header has already settled.
#[verifier::rlimit(100)]
fn read_connect_body(s: &[u8], hl: usize, end: usize, rem: u32) -> (r: Result<Connect, DecodeError>)
    requires
        hl <= end <= s@.len(),
        end - hl == rem,
    ensures
        match connect_body_dec(s@.subrange(hl as int, end as int)) {
            Some(v) => r matches Ok(p) && p@ == v && p.wf(),
            None => r == Err::<Connect, DecodeError>(DecodeError::Malformed),
        },
{
    let ghost body = s@.subrange(hl as int, end as int);
    let (pn, i1) = match read_str(s, hl, end) {
        Ok(p) => p,
        Err(_) => {
            return Err(DecodeError::Malformed);
        },
    };
    let ghost a = i1 - hl;
    proof {
        lemma_str_field_props(body);
    }
    if end - i1 < 4 {
        return Err(DecodeError::Malformed);
    }
    let level = s[i1];
    let flags = unpack_connect_flags(s[i1 + 1]);
    let ka = read_u16_at(s, i1 + 2);
    proof {
        assert(body[a] == s@[i1 as int]);
        assert(body[a + 1] == s@[i1 as int + 1]);
        assert(body[a + 2] == s@[i1 as int + 2]);
        assert(body[a + 3] == s@[i1 as int + 3]);
    }
    if flags.will_QoS > 2 || (!flags.will_flag && (flags.will_QoS != 0 || flags.will_retain)) {
        return Err(DecodeError::Malformed);
    }
    let i2 = i1 + 4;
    proof {
        assert(body.skip(a + 4) =~= s@.subrange(i2 as int, end as int));
    }
    let (payload, cur) = match read_connect_payload(s, i2, end, flags) {
        Ok(q) => q,
        Err(_) => {
            return Err(DecodeError::Malformed);
        },
    };
    if cur != end {
        return Err(DecodeError::Malformed);
    }
    let c = Connect {
        fix_header: FixedHeader { packet_type: 1, reserved: 0, remaining_length: rem },
        protocol_name: ProtocolName(pn),
        protocol_level: ProtocolLevel(level),
        connect_flags: flags,
        keep_alive: KeepAlive(ka),
        payload,
    };
    proof {
        let v = connect_body_dec(body)->Some_0;
        assert(c@ =~= v);
        assert(connect_body(c@).len() == body.len());
    }
    Ok(c)
}

impl Encodable for Connect {
    open spec fn wire(&self) -> Seq<u8> {
        connect_enc(self@)
    }

    open spec fn wire_wf(&self) -> bool {
        self.wf()
    }

    #[verifier::rlimit(100)]
    fn encode(&self) -> (r: Result<Vec<u8>, EncodeError>) {
        let mut v = match encode_fixedheader(1, 0, self.fix_header.remaining_length) {
            Ok(v) => v,
            Err(e) => {
                return Err(e);
            },
        };
        let mut pn = match self.protocol_name.0.encode() {
            Ok(x) => x,
            Err(e) => {
                return Err(e);
            },
        };
        v.append(&mut pn);
        v.push(self.protocol_level.0);
        v.push(pack_connect_flags(self.connect_flags));
        let mut kab = encode_u16_bytes(self.keep_alive.0);
        v.append(&mut kab);
        let mut cid = match self.payload.client_identifier.encode() {
            Ok(x) => x,
            Err(e) => {
                return Err(e);
            },
        };
        v.append(&mut cid);
        match &self.payload.will_topic {
            Some(t) => {
                let mut x = match t.encode() {
                    Ok(x) => x,
                    Err(e) => {
                        return Err(e);
                    },
                };
                v.append(&mut x);
            },
            None => {},
        }
        match &self.payload.will_message {
            Some(m) => {
                let mut x = match m.encode() {
                    Ok(x) => x,
                    Err(e) => {
                        return Err(e);
                    },
                };
                v.append(&mut x);
            },
            None => {},
        }
        match &self.payload.user_name {
            Some(u) => {
                let mut x = match u.encode() {
                    Ok(x) => x,
                    Err(e) => {
                        return Err(e);
                    },
                };
                v.append(&mut x);
            },
            None => {},
        }
        match &self.payload.password {
            Some(p) => {
                let mut x = match p.encode() {
                    Ok(x) => x,
                    Err(e) => {
                        return Err(e);
                    },
                };
                v.append(&mut x);
            },
            None => {},
        }
        proof {
            if self.wf() {
                assert(v@ =~= connect_enc(self@));
            }
        }
        Ok(v)
    }

    fn encode_length(&self) -> (r: Result<u32, EncodeError>) {
        match crate::packet::get_remaining_length_bytes(self.fix_header.remaining_length) {
            Ok(n) => Ok(n + self.fix_header.remaining_length),
            Err(e) => Err(e),
        }
    }
}

} // verus!
