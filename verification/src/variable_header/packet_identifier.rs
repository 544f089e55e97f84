//! The packet identifier that correlates acknowledgements with requests.
use vstd::prelude::*;
use crate::buffer::bytes_view;
use crate::wire::{enc_u16, u16_sdec, SpecDec};
use crate::{decode_u16, DecodeError, Encodable, EncodeError};

verus! {

/// A 16-bit correlator matching an acknowledgement to the packet it answers;
/// nonzero when used.
#[derive(Debug, Clone, Copy, PartialEq, Eq, Structural)]
pub struct PacketIdentifier(pub u16);

impl PacketIdentifier {
    pub fn decode(b: &mut bytes::BytesMut) -> (r: Result<PacketIdentifier, DecodeError>)
        ensures
            match u16_sdec(bytes_view(*old(b))) {
                SpecDec::Done(v, n) => (r matches Ok(k) && k.0 == v) && bytes_view(*final(b))
                    == bytes_view(*old(b)).skip(n),
                _ => r == Err::<PacketIdentifier, DecodeError>(DecodeError::NotEnoughBytes) && bytes_view(
                    *final(b),
                ) == bytes_view(*old(b)),
            },
    {
        match decode_u16(b) {
            Ok(v) => Ok(PacketIdentifier(v)),
            Err(e) => Err(e),
        }
    }
}

impl Encodable for PacketIdentifier {
    open spec fn wire(&self) -> Seq<u8> {
        enc_u16(self.0)
    }

    open spec fn wire_wf(&self) -> bool {
        true
    }

    fn encode(&self) -> (r: Result<Vec<u8>, EncodeError>) {
        self.0.encode()
    }

    fn encode_length(&self) -> (r: Result<u32, EncodeError>) {
        self.0.encode_length()
    }
}

} // verus!
