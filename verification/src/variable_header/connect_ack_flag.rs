//! The connect-acknowledgement flags byte: session-present in bit 0.
use vstd::prelude::*;
use crate::buffer::{buf_advance, buf_as_slice, bytes_view};
use crate::wire::{u8_sdec, SpecDec};
use crate::{DecodeError, Encodable, EncodeError};

verus! {

/// True when the broker kept session state for the client.
#[derive(Debug, Clone, Copy, PartialEq, Eq, Structural)]
pub struct ConnectAckFlags(pub bool);

/// The single byte that carries the flags on the wire.
pub open spec fn ack_flags_byte(session_present: bool) -> u8 {
    if session_present {
        1u8
    } else {
        0u8
    }
}

impl ConnectAckFlags {
    /// Reads the flags byte; only bit 0 is interpreted.
    pub fn decode(b: &mut bytes::BytesMut) -> (r: Result<ConnectAckFlags, DecodeError>)
        ensures
            match u8_sdec(bytes_view(*old(b))) {
                SpecDec::Done(v, n) => (r matches Ok(f) && f.0 == (v % 2 == 1)) && bytes_view(
                    *final(b),
                ) == bytes_view(*old(b)).skip(n),
                _ => r == Err::<ConnectAckFlags, DecodeError>(DecodeError::NotEnoughBytes)
                    && bytes_view(*final(b)) == bytes_view(*old(b)),
            },
    {
        let v: u8;
        {
            let s = buf_as_slice(b);
            if s.len() < 1 {
                return Err(DecodeError::NotEnoughBytes);
            }
            v = s[0];
        }
        buf_advance(b, 1);
        Ok(ConnectAckFlags(v % 2 == 1))
    }
}

impl Encodable for ConnectAckFlags {
    open spec fn wire(&self) -> Seq<u8> {
        seq![ack_flags_byte(self.0)]
    }

    open spec fn wire_wf(&self) -> bool {
        true
    }

    fn encode(&self) -> (r: Result<Vec<u8>, EncodeError>) {
        let byte: u8 = if self.0 {
            1
        } else {
            0
        };
        let v: Vec<u8> = vec![byte];
        Ok(v)
    }

    fn encode_length(&self) -> (r: Result<u32, EncodeError>) {
        Ok(1)
    }
}

} // verus!
