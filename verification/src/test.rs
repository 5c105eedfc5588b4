//! The host's side of the shared buffer, to exercise contracts without a host.

use vstd::prelude::*;

use crate::allocator::{is_framed, SharedMem};

verus! {

/// Simulates the host passing `data` to the contract: the shared buffer is
/// allocated to `data`'s size and filled with it; its address is returned.
pub fn host_write_buffer(mem: &mut SharedMem, data: &[u8]) -> (ptr: u32)
    requires
        data@.len() <= u32::MAX,
    ensures
        final(mem).delivers(ptr, data@),
{
    mem.host_write_buffer(data)
}

/// Simulates the host reading what the contract framed into the shared buffer at
/// `arg_ptr`: the buffer is taken and the bytes after the length are returned.
pub fn host_read_buffer(mem: &mut SharedMem, arg_ptr: u32) -> (arg: Vec<u8>)
    requires
        !old(mem).is_consumed(),
        arg_ptr == old(mem).address(),
        is_framed(old(mem).contents()),
    ensures
        arg@ == old(mem).contents().skip(4),
        final(mem).contents() == Seq::<u8>::empty(),
        final(mem).is_consumed(),
{
    mem.host_read_buffer(arg_ptr)
}

} // verus!
