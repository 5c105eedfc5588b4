//! Transfers of coins from the contract to an address.

use vstd::prelude::*;

use super::native_address::{Address, NativeAddress};
use super::native_amount::{Amount, NativeAmount};
use crate::allocator::{frame, SharedMem};
use crate::proto::{embedded, encode_optional, message_field, AbiMessage};

verus! {

/// The request that asks the host to send `raw_amount` to `to_address`.
pub struct TransferCoinsRequest {
    pub to_address: Option<NativeAddress>,
    pub raw_amount: Option<NativeAmount>,
}

impl AbiMessage for TransferCoinsRequest {
    open spec fn spec_encode(&self) -> Seq<u8> {
        message_field(1, embedded(self.to_address)) + message_field(2, embedded(self.raw_amount))
    }

    fn encode_to_vec(&self) -> (bytes: Vec<u8>) {
        let mut buf: Vec<u8> = Vec::new();
        encode_optional(1, &self.to_address, &mut buf);
        encode_optional(2, &self.raw_amount, &mut buf);
        proof {
            assert(buf@ =~= self.spec_encode());
        }
        buf
    }
}

/// The encoding of the request that sends `amount` to `address`.
pub open spec fn transfer_coins_request_bytes(address: NativeAddress, amount: NativeAmount) -> Seq<u8> {
    message_field(1, Some(address.spec_encode())) + message_field(2, Some(amount.spec_encode()))
}

/// Places the request that sends `raw_amount` to `to_address` in the shared buffer
/// and returns its address, to be passed to the host.
pub fn transfer_coins_request(mem: &mut SharedMem, to_address: Address, raw_amount: Amount) -> (ptr: u32)
    requires
        transfer_coins_request_bytes(to_address.0, raw_amount.0).len() + 4 <= u32::MAX,
    ensures
        final(mem).delivers(ptr, frame(transfer_coins_request_bytes(to_address.0, raw_amount.0))),
{
    let request = TransferCoinsRequest {
        to_address: Some(NativeAddress::from(to_address)),
        raw_amount: Some(NativeAmount::from(raw_amount)),
    };
    request.encode_length_prefixed(mem)
}

} // verus!
