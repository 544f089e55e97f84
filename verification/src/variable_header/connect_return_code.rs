//! The connect return code byte of a CONNACK packet.
use vstd::prelude::*;
use crate::buffer::bytes_view;
use crate::wire::{u8_sdec, SpecDec};
use crate::{decode_u8, DecodeError, Encodable, EncodeError};

verus! {

/// The broker's answer to a connection request; zero accepts it.
#[derive(Debug, Clone, Copy, PartialEq, Eq, Structural)]
pub struct ConnectReturnCode(pub u8);

impl ConnectReturnCode {
    pub fn decode(b: &mut bytes::BytesMut) -> (r: Result<ConnectReturnCode, DecodeError>)
        ensures
            match u8_sdec(bytes_view(*old(b))) {
                SpecDec::Done(v, n) => (r matches Ok(c) && c.0 == v) && bytes_view(*final(b))
                    == bytes_view(*old(b)).skip(n),
                _ => r == Err::<ConnectReturnCode, DecodeError>(DecodeError::NotEnoughBytes)
                    && bytes_view(*final(b)) == bytes_view(*old(b)),
            },
    {
        match decode_u8(b) {
            Ok(v) => Ok(ConnectReturnCode(v)),
            Err(e) => Err(e),
        }
    }
}

impl Encodable for ConnectReturnCode {
    open spec fn wire(&self) -> Seq<u8> {
        seq![self.0]
    }

    open spec fn wire_wf(&self) -> bool {
        true
    }

    fn encode(&self) -> (r: Result<Vec<u8>, EncodeError>) {
        let v: Vec<u8> = vec![self.0];
        Ok(v)
    }

    fn encode_length(&self) -> (r: Result<u32, EncodeError>) {
        Ok(1)
    }
}

} // verus!
