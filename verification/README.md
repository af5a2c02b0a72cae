# network

The handshake layer of a Minecraft Bedrock (RakNet) server, verified with Verus.

- `src/buffer.rs` — the `bytes::BytesMut` buffer seen as a sequence of bytes, with
  one trusted wrapper per method of `bytes` that the library calls.
- `src/wire.rs` — big-endian integers and their round-trip lemmas.
- `src/text.rs` — decimal rendering of numbers.
- `src/error.rs` — `NetworkError`.
- `src/raknet/protocol/` — the offline handshake packets: their byte layouts as
  spec functions, and readers and writers proved against them.
- `src/raknet/motd.rs` — the advertised server message.
- `src/raknet/listener.rs` — the answer to each incoming packet.
- `app/` — the UDP server around the library: socket, receive loop, sending.
