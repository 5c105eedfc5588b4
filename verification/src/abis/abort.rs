//! The message a contract leaves when it stops on a panic.

use vstd::prelude::*;
use vstd::utf8::encode_utf8;

use crate::allocator::{frame, SharedMem};

verus! {

/// Places `arg`, as UTF-8 and framed with its length, in the shared buffer and
/// returns its address, to be passed to the host's abort call.
pub fn abort_request(mem: &mut SharedMem, arg: String) -> (ptr: u32)
    requires
        encode_utf8(arg@).len() + 4 <= u32::MAX,
    ensures
        final(mem).delivers(ptr, frame(encode_utf8(arg@))),
{
    let bytes = vstd::slice::slice_to_vec(arg.as_str().as_bytes());
    mem.encode_length_prefixed(bytes)
}

} // verus!
