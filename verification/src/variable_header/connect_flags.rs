//! The connect flags byte: which optional CONNECT payload fields follow, and
//! the will's delivery options.
use vstd::prelude::*;
use crate::buffer::bytes_view;
use crate::wire::{u8_sdec, SpecDec};
use crate::{decode_u8, DecodeError, Encodable, EncodeError};

verus! {

/// The unpacked connect flags. Bit 7 holds `user_name_flag`, bit 6
/// `password_flag`, bit 5 `will_retain`, bits 4-3 `will_QoS`, bit 2
/// `will_flag`, bit 1 `clean_session`, bit 0 the reserved bit, which is
/// preserved round-trip rather than rejected.
#[allow(non_snake_case)]
#[derive(Debug, Clone, Copy, PartialEq, Eq, Structural)]
pub struct ConnectFlags {
    pub user_name_flag: bool,
    pub password_flag: bool,
    pub will_retain: bool,
    pub will_QoS: u8,
    pub will_flag: bool,
    pub clean_session: bool,
    pub reserved: bool,
}

impl ConnectFlags {
    /// All flags clear: no will, no user name, no password, sessions kept.
    pub fn new() -> (r: ConnectFlags)
        ensures
            r == (ConnectFlags {
                user_name_flag: false,
                password_flag: false,
                will_retain: false,
                will_QoS: 0u8,
                will_flag: false,
                clean_session: false,
                reserved: false,
            }),
    {
        ConnectFlags {
            user_name_flag: false,
            password_flag: false,
            will_retain: false,
            will_QoS: 0,
            will_flag: false,
            clean_session: false,
            reserved: false,
        }
    }

    pub fn decode(b: &mut bytes::BytesMut) -> (r: Result<ConnectFlags, DecodeError>)
        ensures
            match u8_sdec(bytes_view(*old(b))) {
                SpecDec::Done(v, n) => (r matches Ok(f) && f == flags_of_byte(v)) && bytes_view(
                    *final(b),
                ) == bytes_view(*old(b)).skip(n),
                _ => r == Err::<ConnectFlags, DecodeError>(DecodeError::NotEnoughBytes)
                    && bytes_view(*final(b)) == bytes_view(*old(b)),
            },
    {
        match decode_u8(b) {
            Ok(v) => Ok(unpack_connect_flags(v)),
            Err(e) => Err(e),
        }
    }
}

/// The flags byte emitted for `f`; a will QoS above 3 is masked to its low
/// two bits.
pub open spec fn flags_byte(f: ConnectFlags) -> u8 {
    ((if f.user_name_flag {
        128int
    } else {
        0int
    }) + (if f.password_flag {
        64int
    } else {
        0int
    }) + (if f.will_retain {
        32int
    } else {
        0int
    }) + (f.will_QoS % 4) * 8 + (if f.will_flag {
        4int
    } else {
        0int
    }) + (if f.clean_session {
        2int
    } else {
        0int
    }) + (if f.reserved {
        1int
    } else {
        0int
    })) as u8
}

/// The flags a received byte stands for.
pub open spec fn flags_of_byte(b: u8) -> ConnectFlags {
    ConnectFlags {
        user_name_flag: b / 128 % 2 == 1,
        password_flag: b / 64 % 2 == 1,
        will_retain: b / 32 % 2 == 1,
        will_QoS: (b / 8 % 4) as u8,
        will_flag: b / 4 % 2 == 1,
        clean_session: b / 2 % 2 == 1,
        reserved: b % 2 == 1,
    }
}

/// Packing the flags and reading them back returns the same flags, as long
/// as the will QoS uses only its two bits.
pub proof fn lemma_flags_round_trip(f: ConnectFlags)
    requires
        f.will_QoS <= 3,
    ensures
        flags_of_byte(flags_byte(f)) == f,
{
    let u: u8 = if f.user_name_flag {
        1
    } else {
        0
    };
    let p: u8 = if f.password_flag {
        1
    } else {
        0
    };
    let r: u8 = if f.will_retain {
        1
    } else {
        0
    };
    let q: u8 = f.will_QoS;
    let w: u8 = if f.will_flag {
        1
    } else {
        0
    };
    let c: u8 = if f.clean_session {
        1
    } else {
        0
    };
    let sv: u8 = if f.reserved {
        1
    } else {
        0
    };
    assert(flags_byte(f) == (128 * u + 64 * p + 32 * r + 8 * q + 4 * w + 2 * c + sv) as u8);
    lemma_flags_pack_unpack(u, p, r, q, w, c, sv);
}

proof fn lemma_flags_pack_unpack(u: u8, p: u8, r: u8, q: u8, w: u8, c: u8, sv: u8)
    requires
        u <= 1,
        p <= 1,
        r <= 1,
        q <= 3,
        w <= 1,
        c <= 1,
        sv <= 1,
    ensures
        ({
            let b = (128 * u + 64 * p + 32 * r + 8 * q + 4 * w + 2 * c + sv) as u8;
            &&& b / 128 % 2 == u
            &&& b / 64 % 2 == p
            &&& b / 32 % 2 == r
            &&& b / 8 % 4 == q
            &&& b / 4 % 2 == w
            &&& b / 2 % 2 == c
            &&& b % 2 == sv
        }),
{
    assert(({
        let b = (128 * u + 64 * p + 32 * r + 8 * q + 4 * w + 2 * c + sv) as u8;
        &&& b / 128 % 2 == u
        &&& b / 64 % 2 == p
        &&& b / 32 % 2 == r
        &&& b / 8 % 4 == q
        &&& b / 4 % 2 == w
        &&& b / 2 % 2 == c
        &&& b % 2 == sv
    })) by (bit_vector)
        requires
            u <= 1,
            p <= 1,
            r <= 1,
            q <= 3,
            w <= 1,
            c <= 1,
            sv <= 1,
    ;
}

/// The unpacking that `flags_of_byte` describes, executably.
pub fn unpack_connect_flags(b: u8) -> (r: ConnectFlags)
    ensures
        r == flags_of_byte(b),
{
    ConnectFlags {
        user_name_flag: b / 128 % 2 == 1,
        password_flag: b / 64 % 2 == 1,
        will_retain: b / 32 % 2 == 1,
        will_QoS: b / 8 % 4,
        will_flag: b / 4 % 2 == 1,
        clean_session: b / 2 % 2 == 1,
        reserved: b % 2 == 1,
    }
}

impl Encodable for ConnectFlags {
    open spec fn wire(&self) -> Seq<u8> {
        seq![flags_byte(*self)]
    }

    open spec fn wire_wf(&self) -> bool {
        true
    }

    fn encode(&self) -> (r: Result<Vec<u8>, EncodeError>) {
        let byte: u8 = pack_connect_flags(*self);
        let v: Vec<u8> = vec![byte];
        Ok(v)
    }

    fn encode_length(&self) -> (r: Result<u32, EncodeError>) {
        Ok(1)
    }
}

/// The packing that `flags_byte` describes, executably.
pub fn pack_connect_flags(f: ConnectFlags) -> (r: u8)
    ensures
        r == flags_byte(f),
{
    let mut byte: u8 = 0;
    if f.user_name_flag {
        byte = byte + 128;
    }
    if f.password_flag {
        byte = byte + 64;
    }
    if f.will_retain {
        byte = byte + 32;
    }
    byte = byte + (f.will_QoS % 4) * 8;
    if f.will_flag {
        byte = byte + 4;
    }
    if f.clean_session {
        byte = byte + 2;
    }
    if f.reserved {
        byte = byte + 1;
    }
    byte
}

} // verus!
