//! Addresses as the host's ABI carries them, and their conversion to text.

use vstd::prelude::*;

use crate::allocator::{frame, SharedMem};
use crate::proto::{
    bytes_field, embedded, encode_bytes, encode_int32, encode_optional, encode_uint64,
    message_field, scalar_field, AbiMessage,
};

verus! {

/// An address: its category (user or smart contract), the version of its
/// format, and its bytes.
#[derive(Clone, PartialEq, Eq, Debug)]
pub struct NativeAddress {
    pub category: i32,
    pub version: u64,
    pub content: Vec<u8>,
}

impl AbiMessage for NativeAddress {
    open spec fn spec_encode(&self) -> Seq<u8> {
        scalar_field(1, self.category as u64) + scalar_field(2, self.version) + bytes_field(
            3,
            self.content@,
        )
    }

    fn encode_to_vec(&self) -> (bytes: Vec<u8>) {
        let mut buf: Vec<u8> = Vec::new();
        if self.category != 0 {
            encode_int32(1, &self.category, &mut buf);
        }
        if self.version != 0 {
            encode_uint64(2, &self.version, &mut buf);
        }
        if self.content.len() != 0 {
            encode_bytes(3, &self.content, &mut buf);
        }
        proof {
            let c = self.category;
            assert((c as u64 == 0) == (c == 0)) by (bit_vector);
            assert(buf@ =~= self.spec_encode());
        }
        buf
    }
}

/// An address, as contracts hand it to the ABI calls.
#[derive(Clone, PartialEq, Eq, Debug)]
pub struct Address(pub NativeAddress);

impl From<NativeAddress> for Address {
    fn from(value: NativeAddress) -> (address: Address) {
        Address(value)
    }
}

impl vstd::std_specs::convert::FromSpecImpl<NativeAddress> for Address {
    open spec fn obeys_from_spec() -> bool {
        true
    }

    open spec fn from_spec(value: NativeAddress) -> Address {
        Address(value)
    }
}

impl From<Address> for NativeAddress {
    fn from(value: Address) -> (native: NativeAddress) {
        value.0
    }
}

impl vstd::std_specs::convert::FromSpecImpl<Address> for NativeAddress {
    open spec fn obeys_from_spec() -> bool {
        true
    }

    open spec fn from_spec(value: Address) -> NativeAddress {
        value.0
    }
}

/// The request that asks the host for the text form of an address.
pub struct NativeAddressToStringRequest {
    pub address_to_convert: Option<NativeAddress>,
}

impl AbiMessage for NativeAddressToStringRequest {
    open spec fn spec_encode(&self) -> Seq<u8> {
        message_field(1, embedded(self.address_to_convert))
    }

    fn encode_to_vec(&self) -> (bytes: Vec<u8>) {
        let mut buf: Vec<u8> = Vec::new();
        encode_optional(1, &self.address_to_convert, &mut buf);
        proof {
            assert(buf@ =~= self.spec_encode());
        }
        buf
    }
}

/// The host's reply: the address as text.
pub struct NativeAddressToStringResponse {
    pub converted_address: String,
}

/// The encoding of the request that asks for the text form of `address`.
pub open spec fn address_to_string_request_bytes(address: NativeAddress) -> Seq<u8> {
    (NativeAddressToStringRequest { address_to_convert: Some(address) }).spec_encode()
}

/// Places the request for the text form of `address_to_convert` in the shared
/// buffer and returns its address, to be passed to the host.
pub fn native_address_to_string_request(mem: &mut SharedMem, address_to_convert: NativeAddress) -> (ptr: u32)
    requires
        address_to_string_request_bytes(address_to_convert).len() + 4 <= u32::MAX,
    ensures
        final(mem).delivers(ptr, frame(address_to_string_request_bytes(address_to_convert))),
{
    let request = NativeAddressToStringRequest { address_to_convert: Some(address_to_convert) };
    request.encode_length_prefixed(mem)
}

/// Interprets the host's reply: `None` stands for a reply that did not decode.
pub fn native_address_to_string_result(response: Option<NativeAddressToStringResponse>) -> (res: Result<String, String>)
    ensures
        match response {
            Some(r) => res == Ok::<String, String>(r.converted_address),
            None => res matches Err(e) && e@ == "Error decoding NativeAddressToStringResponse"@,
        },
{
    match response {
        Some(r) => Ok(r.converted_address),
        None => Err("Error decoding NativeAddressToStringResponse".to_owned()),
    }
}

} // verus!
