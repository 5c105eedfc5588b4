# massa_sc_sdk

Runtime support for smart contracts compiled to WebAssembly that exchange
arguments with their host through one shared memory buffer.

- `src/allocator.rs`: the shared buffer as a state machine (`SharedMem`):
  allocation for the host, taking the arguments out once, and framing a
  payload with its length as a little-endian `u32`.
- `src/proto.rs`: the Protocol Buffers field encodings of the host's ABI
  messages, written with `prost`'s field encoders.
- `src/abis/`: the ABI requests (call, contract creation, events, address
  conversion, coin transfer, abort) and the interpretation of the replies.
- `src/test.rs`: the host's side of the buffer, for tests.
- `app/`: the WebAssembly glue: the buffer in a per-thread cell, the exported
  `__alloc`, the imported host functions, and `prost` decoding of replies.
