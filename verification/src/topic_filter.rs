//! Topic filter strings, as carried by SUBSCRIBE and UNSUBSCRIBE payloads.
use vstd::prelude::*;
use crate::buffer::bytes_view;
use crate::wire::{enc_str, str_sdec, str_wf, SpecDec};
use crate::{decode_string, DecodeError, Encodable, EncodeError};

verus! {

/// A topic pattern a client subscribes to; wildcards are permitted.
#[derive(Debug)]
pub struct TopicFilter(pub String);

impl TopicFilter {
    pub fn decode(b: &mut bytes::BytesMut) -> (r: Result<TopicFilter, DecodeError>)
        ensures
            match str_sdec(bytes_view(*old(b))) {
                SpecDec::Done(v, n) => (r matches Ok(p) && p.0@ == v) && bytes_view(*final(b))
                    == bytes_view(*old(b)).skip(n),
                SpecDec::Incomplete => (r matches Err(e) && e == DecodeError::NotEnoughBytes)
                    && bytes_view(*final(b)) == bytes_view(*old(b)),
                SpecDec::Malformed => (r matches Err(e) && e == DecodeError::Malformed)
                    && bytes_view(*final(b)) == bytes_view(*old(b)),
            },
    {
        match decode_string(b) {
            Ok(v) => Ok(TopicFilter(v)),
            Err(e) => Err(e),
        }
    }
}

impl Encodable for TopicFilter {
    open spec fn wire(&self) -> Seq<u8> {
        enc_str(self.0@)
    }

    open spec fn wire_wf(&self) -> bool {
        str_wf(self.0@)
    }

    fn encode(&self) -> (r: Result<Vec<u8>, EncodeError>) {
        self.0.encode()
    }

    fn encode_length(&self) -> (r: Result<u32, EncodeError>) {
        self.0.encode_length()
    }
}

} // verus!
