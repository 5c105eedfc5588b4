//! The buffer through which the contract and its host exchange arguments.
//!
//! The host asks the contract for `size` bytes (`myalloc`), writes into them and
//! hands back the address; the contract takes the bytes out (`get_parameters`).
//! In the other direction the contract frames a payload with its length as a
//! little-endian `u32` (`encode_length_prefixed`) and gives the host the address.

use vstd::prelude::*;

verus! {

/// The four bytes of `x`, least significant first.
pub open spec fn le_bytes(x: u32) -> Seq<u8> {
    seq![(x % 256) as u8, (x / 256 % 256) as u8, (x / 65536 % 256) as u8, (x / 16777216) as u8]
}

/// The number that the first four bytes of `s` make, least significant first.
pub open spec fn le_value(s: Seq<u8>) -> int {
    s[0] + 256 * s[1] + 65536 * s[2] + 16777216 * s[3]
}

/// The payload framed with its length, as a little-endian `u32`, in front.
pub open spec fn frame(data: Seq<u8>) -> Seq<u8> {
    le_bytes(data.len() as u32) + data
}

/// `bytes` starts with a little-endian `u32` that counts exactly the bytes after it.
pub open spec fn is_framed(bytes: Seq<u8>) -> bool {
    &&& bytes.len() >= 4
    &&& le_value(bytes) + 4 == bytes.len()
}

/// The four bytes of `x`, least significant first.
fn u32_le_bytes(x: u32) -> (bytes: Vec<u8>)
    ensures
        bytes@ == le_bytes(x),
{
    let mut bytes: Vec<u8> = Vec::new();
    bytes.push((x % 256) as u8);
    bytes.push((x / 256 % 256) as u8);
    bytes.push((x / 65536 % 256) as u8);
    bytes.push((x / 16777216) as u8);
    assert(bytes@ =~= le_bytes(x));
    bytes
}

/// The bytes of a `u32`, read back least significant first, give the `u32`.
pub proof fn lemma_le_bytes_value(x: u32)
    ensures
        le_bytes(x).len() == 4,
        le_value(le_bytes(x)) == x,
{
    let b = le_bytes(x);
    assert(b[0] == x % 256);
    assert(b[1] == x / 256 % 256);
    assert(b[2] == x / 65536 % 256);
    assert(b[3] == x / 16777216);
    assert(x % 256 + 256 * (x / 256 % 256) + 65536 * (x / 65536 % 256) + 16777216 * (x
        / 16777216) == x) by (nonlinear_arith);
}

/// Address of the first byte of `buf` in the module's linear memory, as the host
/// uses it: `Vec::as_ptr`, cast to `u32` (which truncates on targets wider than
/// 32 bits). Nothing is stated of it: the allocator chooses it.
#[verifier::external_body]
fn buffer_address(buf: &Vec<u8>) -> u32 {
    buf.as_ptr() as u32
}

/// The memory shared with the host: one buffer, the address at which the host
/// finds it, and whether its contents have been taken since it was last filled.
///
/// The address is read when the buffer is allocated or replaced; the writes that
/// follow an allocation stay within the size allocated, so the buffer does not move.
pub struct SharedMem {
    buf: Vec<u8>,
    addr: u32,
    consumed: bool,
}

impl SharedMem {
    /// The bytes the buffer holds.
    pub closed spec fn contents(&self) -> Seq<u8> {
        self.buf@
    }

    /// The address the host is given for the buffer.
    pub closed spec fn address(&self) -> u32 {
        self.addr
    }

    /// The contents have been taken since the buffer was last filled.
    pub closed spec fn is_consumed(&self) -> bool {
        self.consumed
    }

    /// The buffer holds `data`, not yet taken, at address `ptr`.
    pub open spec fn delivers(&self, ptr: u32, data: Seq<u8>) -> bool {
        &&& !self.is_consumed()
        &&& self.address() == ptr
        &&& self.contents() == data
    }

    /// The address the host is given for the buffer.
    pub fn get_shared_mem_as_u32(&self) -> (ptr: u32)
        ensures
            ptr == self.address(),
    {
        self.addr
    }

    /// Whether the contents have been taken since the buffer was last filled.
    pub fn is_shared_mem_consumed(&self) -> (consumed: bool)
        ensures
            consumed == self.is_consumed(),
    {
        self.consumed
    }

    /// Whether the buffer starts with a little-endian `u32` that counts exactly the
    /// bytes after it.
    pub fn holds_frame(&self) -> (framed: bool)
        ensures
            framed == is_framed(self.contents()),
    {
        if self.buf.len() < 4 {
            return false;
        }
        let len: u64 = self.buf[0] as u64 + 256 * (self.buf[1] as u64) + 65536 * (
        self.buf[2] as u64) + 16777216 * (self.buf[3] as u64);
        len == (self.buf.len() - 4) as u64
    }

    /// An empty buffer, with nothing left to take.
    pub fn new() -> (mem: Self)
        ensures
            mem.contents() == Seq::<u8>::empty(),
            mem.is_consumed(),
    {
        let buf: Vec<u8> = Vec::new();
        let addr = buffer_address(&buf);
        SharedMem { buf, addr, consumed: true }
    }

    /// Replaces the buffer with `size` zero bytes, marks them as not yet taken
    /// and returns their address.
    pub fn myalloc(&mut self, size: u32) -> (ptr: u32)
        ensures
            final(self).delivers(ptr, Seq::new(size as nat, |i: int| 0u8)),
    {
        self.buf = vec![0u8; size as usize];
        self.consumed = false;
        self.addr = buffer_address(&self.buf);
        assert(self.buf@ =~= Seq::new(size as nat, |i: int| 0u8));
        self.addr
    }

    /// Takes the contents out of the buffer, which the host placed at `arg_ptr`,
    /// leaving it empty and marked as taken.
    pub fn get_parameters(&mut self, arg_ptr: u32) -> (params: Vec<u8>)
        requires
            !old(self).is_consumed(),
            arg_ptr == old(self).address(),
        ensures
            params@ == old(self).contents(),
            final(self).contents() == Seq::<u8>::empty(),
            final(self).is_consumed(),
    {
        let mut params: Vec<u8> = Vec::new();
        std::mem::swap(&mut params, &mut self.buf);
        self.consumed = true;
        self.addr = buffer_address(&self.buf);
        params
    }

    /// Fills the buffer with `data` preceded by its length as a little-endian `u32`
    /// and returns the buffer's address.
    pub fn encode_length_prefixed(&mut self, data: Vec<u8>) -> (ptr: u32)
        requires
            data@.len() + 4 <= u32::MAX,
        ensures
            final(self).delivers(ptr, frame(data@)),
    {
        let ghost payload = data@;
        let data_len: u32 = data.len() as u32;
        let buf_len: u32 = data_len + 4;
        self.myalloc(buf_len);
        self.buf.clear();
        let prefix = u32_le_bytes(data_len);
        self.buf.extend_from_slice(prefix.as_slice());
        let mut data = data;
        self.buf.append(&mut data);
        self.addr = buffer_address(&self.buf);
        proof {
            assert(self.buf@ =~= frame(payload));
        }
        self.addr
    }

    /// Host side: allocates a buffer of `data`'s size, fills it with `data` and
    /// returns its address, as the host does when it passes arguments.
    pub fn host_write_buffer(&mut self, data: &[u8]) -> (ptr: u32)
        requires
            data@.len() <= u32::MAX,
        ensures
            final(self).delivers(ptr, data@),
    {
        let buf_ptr = self.myalloc(data.len() as u32);
        self.buf.clear();
        self.buf.extend_from_slice(data);
        proof {
            assert(self.buf@ =~= data@);
        }
        buf_ptr
    }

    /// Host side: takes the buffer at `arg_ptr`, checks that its first four bytes
    /// count the bytes after them, and returns those bytes.
    pub fn host_read_buffer(&mut self, arg_ptr: u32) -> (arg: Vec<u8>)
        requires
            !old(self).is_consumed(),
            arg_ptr == old(self).address(),
            is_framed(old(self).contents()),
        ensures
            arg@ == old(self).contents().skip(4),
            final(self).contents() == Seq::<u8>::empty(),
            final(self).is_consumed(),
    {
        let mut arg = self.get_parameters(arg_ptr);
        let payload = arg.split_off(4);
        proof {
            assert(arg@ =~= old(self).contents().take(4));
        }
        payload
    }
}

/// Whatever the buffer delivers at an address, `get_parameters` accepts at that
/// address and hands out whole: the buffer is not yet taken, its address is the
/// one given, and its contents are the bytes delivered.
pub proof fn lemma_delivered_bytes_are_taken(mem: SharedMem, ptr: u32, data: Seq<u8>)
    requires
        mem.delivers(ptr, data),
    ensures
        !mem.is_consumed(),
        ptr == mem.address(),
        mem.contents() == data,
{
}

/// Framing a payload and reading the frame back gives the payload: the frame is
/// well formed, four bytes longer, its first four bytes are the payload's length
/// least significant byte first, and what follows them is the payload.
pub proof fn lemma_frame_roundtrip(data: Seq<u8>)
    requires
        data.len() + 4 <= u32::MAX,
    ensures
        is_framed(frame(data)),
        frame(data).len() == data.len() + 4,
        frame(data).skip(4) == data,
        frame(data)[0] + 256 * frame(data)[1] + 65536 * frame(data)[2] + 16777216 * frame(
            data,
        )[3] == data.len(),
{
    lemma_le_bytes_value(data.len() as u32);
    let prefix = le_bytes(data.len() as u32);
    assert(frame(data).take(4) =~= prefix);
    assert(frame(data).skip(4) =~= data);
}

} // verus!
