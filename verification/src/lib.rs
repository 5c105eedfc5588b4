//! Runtime support for smart contracts that talk to their host through a
//! shared, length-prefixed memory buffer, with Protocol Buffers messages for
//! the host's ABI.

pub mod abis;
pub mod allocator;
pub mod proto;
pub mod test;

use vstd::prelude::*;

use crate::allocator::{frame, SharedMem};

verus! {

/// Takes the arguments that the host placed in the shared buffer at `arg_ptr`.
pub fn get_parameters(mem: &mut SharedMem, arg_ptr: u32) -> (params: Vec<u8>)
    requires
        !old(mem).is_consumed(),
        arg_ptr == old(mem).address(),
    ensures
        params@ == old(mem).contents(),
        final(mem).contents() == Seq::<u8>::empty(),
        final(mem).is_consumed(),
{
    mem.get_parameters(arg_ptr)
}

/// Places `data`, framed with its length as a little-endian `u32`, in the shared
/// buffer and returns the buffer's address for the host.
pub fn encode_length_prefixed(mem: &mut SharedMem, data: Vec<u8>) -> (ptr: u32)
    requires
        data@.len() + 4 <= u32::MAX,
    ensures
        final(mem).delivers(ptr, frame(data@)),
{
    mem.encode_length_prefixed(data)
}

} // verus!
