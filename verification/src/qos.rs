//! Quality-of-service levels, as they appear in a SUBSCRIBE payload.
use vstd::prelude::*;
use crate::buffer::{buf_advance, buf_as_slice, bytes_view};
use crate::wire::{u8_sdec, SpecDec};
use crate::{DecodeError, Encodable, EncodeError};

verus! {

/// The delivery guarantee requested for a subscription: at most once, at
/// least once, or exactly once.
#[derive(Debug, Clone, Copy, PartialEq, Eq, Structural)]
pub enum QualityOfService {
    Level0,
    Level1,
    Level2,
}

/// The byte a level is written as.
pub open spec fn qos_byte(q: QualityOfService) -> u8 {
    match q {
        QualityOfService::Level0 => 0u8,
        QualityOfService::Level1 => 1u8,
        QualityOfService::Level2 => 2u8,
    }
}

/// The level a received byte stands for; bytes above 2 stand for none.
pub open spec fn qos_of_byte(b: u8) -> Option<QualityOfService> {
    if b == 0 {
        Some(QualityOfService::Level0)
    } else if b == 1 {
        Some(QualityOfService::Level1)
    } else if b == 2 {
        Some(QualityOfService::Level2)
    } else {
        None
    }
}

/// Reading back the byte a level was written as yields the level.
pub proof fn lemma_qos_round_trip(q: QualityOfService)
    ensures
        qos_of_byte(qos_byte(q)) == Some(q),
{
}

/// The executable form of `qos_of_byte`.
pub fn qos_from_byte(b: u8) -> (r: Option<QualityOfService>)
    ensures
        r == qos_of_byte(b),
{
    if b == 0 {
        Some(QualityOfService::Level0)
    } else if b == 1 {
        Some(QualityOfService::Level1)
    } else if b == 2 {
        Some(QualityOfService::Level2)
    } else {
        None
    }
}

impl QualityOfService {
    pub fn decode(b: &mut bytes::BytesMut) -> (r: Result<QualityOfService, DecodeError>)
        ensures
            match u8_sdec(bytes_view(*old(b))) {
                SpecDec::Done(v, n) => match qos_of_byte(v) {
                    Some(q) => (r matches Ok(x) && x == q) && bytes_view(*final(b)) == bytes_view(
                        *old(b),
                    ).skip(n),
                    None => r == Err::<QualityOfService, DecodeError>(DecodeError::Malformed)
                        && bytes_view(*final(b)) == bytes_view(*old(b)),
                },
                _ => r == Err::<QualityOfService, DecodeError>(DecodeError::NotEnoughBytes)
                    && bytes_view(*final(b)) == bytes_view(*old(b)),
            },
    {
        let v: u8;
        {
            let s = buf_as_slice(b);
            if s.len() < 1 {
                return Err(DecodeError::NotEnoughBytes);
            }
            v = s[0];
        }
        match qos_from_byte(v) {
            Some(q) => {
                buf_advance(b, 1);
                Ok(q)
            },
            None => Err(DecodeError::Malformed),
        }
    }
}

impl Encodable for QualityOfService {
    open spec fn wire(&self) -> Seq<u8> {
        seq![qos_byte(*self)]
    }

    open spec fn wire_wf(&self) -> bool {
        true
    }

    fn encode(&self) -> (r: Result<Vec<u8>, EncodeError>) {
        let byte: u8 = match *self {
            QualityOfService::Level0 => 0,
            QualityOfService::Level1 => 1,
            QualityOfService::Level2 => 2,
        };
        let v: Vec<u8> = vec![byte];
        Ok(v)
    }

    fn encode_length(&self) -> (r: Result<u32, EncodeError>) {
        Ok(1)
    }
}

} // verus!
