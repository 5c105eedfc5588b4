//! Events that a contract emits through its host.

use vstd::prelude::*;
use vstd::utf8::encode_utf8;

use crate::allocator::{frame, SharedMem};
use crate::proto::{bytes_field, encode_string, lemma_utf8_empty, AbiMessage};

verus! {

/// The request that asks the host to emit an event.
pub struct GenerateEventRequest {
    pub event: String,
}

impl AbiMessage for GenerateEventRequest {
    open spec fn spec_encode(&self) -> Seq<u8> {
        bytes_field(1, encode_utf8(self.event@))
    }

    fn encode_to_vec(&self) -> (bytes: Vec<u8>) {
        let mut buf: Vec<u8> = Vec::new();
        if !self.event.as_str().is_empty() {
            encode_string(1, &self.event, &mut buf);
        }
        proof {
            lemma_utf8_empty(self.event@);
            assert(buf@ =~= self.spec_encode());
        }
        buf
    }
}

/// The encoding of the request that emits `event`.
pub open spec fn generate_event_request_bytes(event: Seq<char>) -> Seq<u8> {
    bytes_field(1, encode_utf8(event))
}

/// Places the request that emits `event` in the shared buffer and returns its
/// address, to be passed to the host.
pub fn generate_event(mem: &mut SharedMem, event: String) -> (ptr: u32)
    requires
        generate_event_request_bytes(event@).len() + 4 <= u32::MAX,
    ensures
        final(mem).delivers(ptr, frame(generate_event_request_bytes(event@))),
{
    let request = GenerateEventRequest { event };
    request.encode_length_prefixed(mem)
}

} // verus!
