//! The keep-alive interval of a CONNECT packet, in seconds.
use vstd::prelude::*;
use crate::buffer::bytes_view;
use crate::wire::{enc_u16, u16_sdec, SpecDec};
use crate::{decode_u16, DecodeError, Encodable, EncodeError};

verus! {

/// Seconds the broker may wait between control packets before it drops the
/// connection; zero disables the mechanism.
#[derive(Debug, Clone, Copy, PartialEq, Eq, Structural)]
pub struct KeepAlive(pub u16);

impl KeepAlive {
    pub fn decode(b: &mut bytes::BytesMut) -> (r: Result<KeepAlive, DecodeError>)
        ensures
            match u16_sdec(bytes_view(*old(b))) {
                SpecDec::Done(v, n) => (r matches Ok(k) && k.0 == v) && bytes_view(*final(b))
                    == bytes_view(*old(b)).skip(n),
                _ => r == Err::<KeepAlive, DecodeError>(DecodeError::NotEnoughBytes) && bytes_view(
                    *final(b),
                ) == bytes_view(*old(b)),
            },
    {
        match decode_u16(b) {
            Ok(v) => Ok(KeepAlive(v)),
            Err(e) => Err(e),
        }
    }
}

impl Encodable for KeepAlive {
    open spec fn wire(&self) -> Seq<u8> {
        enc_u16(self.0)
    }

    open spec fn wire_wf(&self) -> bool {
        true
    }

    fn encode(&self) -> (r: Result<Vec<u8>, EncodeError>) {
        self.0.encode()
    }

    fn encode_length(&self) -> (r: Result<u32, EncodeError>) {
        self.0.encode_length()
    }
}

} // verus!
