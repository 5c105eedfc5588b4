//! Calls from one contract to a function of another.

use vstd::prelude::*;
use vstd::utf8::encode_utf8;

use super::native_address::{Address, NativeAddress};
use super::native_amount::{Amount, NativeAmount};
use crate::allocator::{frame, SharedMem};
use crate::proto::{
    bytes_field, embedded, encode_bytes, encode_optional, encode_string, lemma_utf8_empty,
    message_field, AbiMessage,
};

verus! {

/// The request that asks the host to call `target_function_name` of the contract
/// at `target_sc_address` with `function_arg`, sending `call_coins` along.
pub struct CallRequest {
    pub target_sc_address: Option<NativeAddress>,
    pub target_function_name: String,
    pub function_arg: Vec<u8>,
    pub call_coins: Option<NativeAmount>,
}

impl AbiMessage for CallRequest {
    open spec fn spec_encode(&self) -> Seq<u8> {
        message_field(1, embedded(self.target_sc_address)) + bytes_field(
            2,
            encode_utf8(self.target_function_name@),
        ) + bytes_field(3, self.function_arg@) + message_field(4, embedded(self.call_coins))
    }

    fn encode_to_vec(&self) -> (bytes: Vec<u8>) {
        let mut buf: Vec<u8> = Vec::new();
        encode_optional(1, &self.target_sc_address, &mut buf);
        if !self.target_function_name.as_str().is_empty() {
            encode_string(2, &self.target_function_name, &mut buf);
        }
        if self.function_arg.len() != 0 {
            encode_bytes(3, &self.function_arg, &mut buf);
        }
        encode_optional(4, &self.call_coins, &mut buf);
        proof {
            lemma_utf8_empty(self.target_function_name@);
            assert(buf@ =~= self.spec_encode());
        }
        buf
    }
}

/// The host's reply: what the called function returned.
pub struct CallResponse {
    pub data: Vec<u8>,
}

/// The encoding of the request that calls `function` of the contract at
/// `address` with `arg` and `coins`.
pub open spec fn call_request_bytes(
    address: NativeAddress,
    function: Seq<char>,
    arg: Seq<u8>,
    coins: NativeAmount,
) -> Seq<u8> {
    message_field(1, Some(address.spec_encode())) + bytes_field(2, encode_utf8(function))
        + bytes_field(3, arg) + message_field(4, Some(coins.spec_encode()))
}

/// Places the request that calls `function` of the contract at `address` in the
/// shared buffer and returns its address, to be passed to the host.
pub fn call_request(
    mem: &mut SharedMem,
    address: Address,
    function: String,
    arg: Vec<u8>,
    call_coins: Amount,
) -> (ptr: u32)
    requires
        call_request_bytes(address.0, function@, arg@, call_coins.0).len() + 4 <= u32::MAX,
    ensures
        final(mem).delivers(ptr, frame(call_request_bytes(address.0, function@, arg@, call_coins.0))),
{
    let request = CallRequest {
        target_sc_address: Some(NativeAddress::from(address)),
        target_function_name: function,
        function_arg: arg,
        call_coins: Some(NativeAmount::from(call_coins)),
    };
    request.encode_length_prefixed(mem)
}

/// Interprets the host's reply to a call: `None` stands for a reply that did not
/// decode.
pub fn call_result(response: Option<CallResponse>) -> (res: Result<Vec<u8>, String>)
    ensures
        match response {
            Some(r) => res matches Ok(data) && data@ == r.data@,
            None => res matches Err(e) && e@ == "Create SC response decode error"@,
        },
{
    match response {
        Some(r) => Ok(r.data),
        None => Err("Create SC response decode error".to_owned()),
    }
}

} // verus!
