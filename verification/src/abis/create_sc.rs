//! Deployment of a new contract from its bytecode.

use vstd::prelude::*;

use super::native_address::{Address, NativeAddress};
use crate::allocator::{frame, SharedMem};
use crate::proto::{bytes_field, encode_bytes, AbiMessage};

verus! {

/// The request that asks the host to deploy `bytecode` as a new contract.
pub struct CreateScRequest {
    pub bytecode: Vec<u8>,
}

impl AbiMessage for CreateScRequest {
    open spec fn spec_encode(&self) -> Seq<u8> {
        bytes_field(1, self.bytecode@)
    }

    fn encode_to_vec(&self) -> (bytes: Vec<u8>) {
        let mut buf: Vec<u8> = Vec::new();
        if self.bytecode.len() != 0 {
            encode_bytes(1, &self.bytecode, &mut buf);
        }
        proof {
            assert(buf@ =~= self.spec_encode());
        }
        buf
    }
}

/// The host's reply: the address of the new contract, if it gave one.
pub struct CreateScResponse {
    pub sc_address: Option<NativeAddress>,
}

/// The encoding of the request that deploys `bytecode`.
pub open spec fn create_sc_request_bytes(bytecode: Seq<u8>) -> Seq<u8> {
    bytes_field(1, bytecode)
}

/// Places the request that deploys `bytecode` in the shared buffer and returns
/// its address, to be passed to the host.
pub fn create_sc_request(mem: &mut SharedMem, bytecode: Vec<u8>) -> (ptr: u32)
    requires
        create_sc_request_bytes(bytecode@).len() + 4 <= u32::MAX,
    ensures
        final(mem).delivers(ptr, frame(create_sc_request_bytes(bytecode@))),
{
    let request = CreateScRequest { bytecode };
    request.encode_length_prefixed(mem)
}

/// Interprets the host's reply to a deployment: `None` stands for a reply that
/// did not decode; a reply without an address is an error too.
pub fn create_sc_result(response: Option<CreateScResponse>) -> (res: Result<Address, String>)
    ensures
        match response {
            Some(r) => match r.sc_address {
                Some(a) => res == Ok::<Address, String>(Address(a)),
                None => res matches Err(e) && e@ == "No address return"@,
            },
            None => res matches Err(e) && e@ == "Create SC response decode error"@,
        },
{
    match response {
        Some(r) => match r.sc_address {
            Some(a) => Ok(Address::from(a)),
            None => Err("No address return".to_owned()),
        },
        None => Err("Create SC response decode error".to_owned()),
    }
}

} // verus!
