//! Per-subscription return codes, as they appear in a SUBACK payload.
use vstd::prelude::*;
use crate::buffer::{buf_advance, buf_as_slice, bytes_view};
use crate::wire::{u8_sdec, SpecDec};
use crate::{DecodeError, Encodable, EncodeError};

verus! {

/// The broker's answer to one subscription request: the granted maximum
/// quality of service, or failure.
#[derive(Debug, Clone, Copy, PartialEq, Eq, Structural)]
pub enum SubscribeReturnCode {
    MaximumQos0,
    MaximumQos1,
    MaximumQos2,
    Failure,
}

/// The byte a return code is written as; failure is `0x80`.
pub open spec fn src_byte(c: SubscribeReturnCode) -> u8 {
    match c {
        SubscribeReturnCode::MaximumQos0 => 0u8,
        SubscribeReturnCode::MaximumQos1 => 1u8,
        SubscribeReturnCode::MaximumQos2 => 2u8,
        SubscribeReturnCode::Failure => 128u8,
    }
}

/// The return code a received byte stands for; any other byte stands for
/// none.
pub open spec fn src_of_byte(b: u8) -> Option<SubscribeReturnCode> {
    if b == 0 {
        Some(SubscribeReturnCode::MaximumQos0)
    } else if b == 1 {
        Some(SubscribeReturnCode::MaximumQos1)
    } else if b == 2 {
        Some(SubscribeReturnCode::MaximumQos2)
    } else if b == 128 {
        Some(SubscribeReturnCode::Failure)
    } else {
        None
    }
}

/// Reading back the byte a return code was written as yields the code.
pub proof fn lemma_src_round_trip(c: SubscribeReturnCode)
    ensures
        src_of_byte(src_byte(c)) == Some(c),
{
}

/// The executable form of `src_of_byte`.
pub fn src_from_byte(b: u8) -> (r: Option<SubscribeReturnCode>)
    ensures
        r == src_of_byte(b),
{
    if b == 0 {
        Some(SubscribeReturnCode::MaximumQos0)
    } else if b == 1 {
        Some(SubscribeReturnCode::MaximumQos1)
    } else if b == 2 {
        Some(SubscribeReturnCode::MaximumQos2)
    } else if b == 128 {
        Some(SubscribeReturnCode::Failure)
    } else {
        None
    }
}

impl SubscribeReturnCode {
    pub fn decode(b: &mut bytes::BytesMut) -> (r: Result<SubscribeReturnCode, DecodeError>)
        ensures
            match u8_sdec(bytes_view(*old(b))) {
                SpecDec::Done(v, n) => match src_of_byte(v) {
                    Some(c) => (r matches Ok(x) && x == c) && bytes_view(*final(b)) == bytes_view(
                        *old(b),
                    ).skip(n),
                    None => r == Err::<SubscribeReturnCode, DecodeError>(DecodeError::Malformed)
                        && bytes_view(*final(b)) == bytes_view(*old(b)),
                },
                _ => r == Err::<SubscribeReturnCode, DecodeError>(DecodeError::NotEnoughBytes)
                    && bytes_view(*final(b)) == bytes_view(*old(b)),
            },
    {
        let v: u8;
        {
            let s = buf_as_slice(b);
            if s.len() < 1 {
                return Err(DecodeError::NotEnoughBytes);
            }
            v = s[0];
        }
        match src_from_byte(v) {
            Some(c) => {
                buf_advance(b, 1);
                Ok(c)
            },
            None => Err(DecodeError::Malformed),
        }
    }
}

impl Encodable for SubscribeReturnCode {
    open spec fn wire(&self) -> Seq<u8> {
        seq![src_byte(*self)]
    }

    open spec fn wire_wf(&self) -> bool {
        true
    }

    fn encode(&self) -> (r: Result<Vec<u8>, EncodeError>) {
        let byte: u8 = match *self {
            SubscribeReturnCode::MaximumQos0 => 0,
            SubscribeReturnCode::MaximumQos1 => 1,
            SubscribeReturnCode::MaximumQos2 => 2,
            SubscribeReturnCode::Failure => 128,
        };
        let v: Vec<u8> = vec![byte];
        Ok(v)
    }

    fn encode_length(&self) -> (r: Result<u32, EncodeError>) {
        Ok(1)
    }
}

} // verus!
