# ws_uring

Verified core of an io_uring-driven websocket client.

- `src/user_data.rs`: packing of event, owner and request id into the 64-bit user data word.
- `src/op.rs`: submission entries and the operations that fill them (read, write, send, receive, multishot receive).
- `src/ring.rs`: reservation of submission slots on the ring, with the proof that a reserved slot is never one the kernel still reads.
- `src/read_buf.rs`: kernel-provided buffers and the FIFO reader over them.
- `src/cqe.rs`: completion entries and the buffers they name.
- `src/net.rs`: the per-stream state: completions, ring-driven reads and writes.
- `app/`: sockets, TLS and websocket handshake, and dispatch of completions to streams.
