//! The protocol level byte of a CONNECT packet.
use vstd::prelude::*;
use crate::buffer::bytes_view;
use crate::wire::{u8_sdec, SpecDec};
use crate::{decode_u8, DecodeError, Encodable, EncodeError};

verus! {

/// The revision of the protocol the client speaks; level 4 is the 3.1.1
/// revision.
#[derive(Debug, Clone, Copy, PartialEq, Eq, Structural)]
pub struct ProtocolLevel(pub u8);

impl ProtocolLevel {
    pub fn decode(b: &mut bytes::BytesMut) -> (r: Result<ProtocolLevel, DecodeError>)
        ensures
            match u8_sdec(bytes_view(*old(b))) {
                SpecDec::Done(v, n) => (r matches Ok(l) && l.0 == v) && bytes_view(*final(b))
                    == bytes_view(*old(b)).skip(n),
                _ => r == Err::<ProtocolLevel, DecodeError>(DecodeError::NotEnoughBytes)
                    && bytes_view(*final(b)) == bytes_view(*old(b)),
            },
    {
        match decode_u8(b) {
            Ok(v) => Ok(ProtocolLevel(v)),
            Err(e) => Err(e),
        }
    }
}

impl Encodable for ProtocolLevel {
    open spec fn wire(&self) -> Seq<u8> {
        seq![self.0]
    }

    open spec fn wire_wf(&self) -> bool {
        true
    }

    fn encode(&self) -> (r: Result<Vec<u8>, EncodeError>) {
        let v: Vec<u8> = vec![self.0];
        Ok(v)
    }

    fn encode_length(&self) -> (r: Result<u32, EncodeError>) {
        Ok(1)
    }
}

} // verus!
