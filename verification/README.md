# rustcomm

A peer-to-peer communication library in three layers: transports move raw
bytes over TCP or QUIC, the messenger frames typed messages on top of them,
and the RPC layer matches responses to requests.

The decisions of every layer are written in Verus and proved against their
contracts; the sockets, threads and timers around them are ordinary Rust.

- `src/` — the verified library:
  - `frame.rs`, `context.rs`, `bytes.rs`: the wire format of frames and
    message contexts, with the round-trip laws;
  - `registry.rs`: the message registry;
  - `messenger.rs`: per-connection reassembly of frames into messages;
  - `transport.rs`, `connection.rs`: connection IDs, broadcast targets,
    send buffers, poll interest and the events of the TCP transport;
  - `quic.rs`: the stream of a QUIC connection (sending, receiving, half
    shutdowns) on top of quinn-proto;
  - `tls.rs`: TLS configurations from PEM text, on top of rustls;
  - `settings.rs`: configuration lookup with per-instance namespacing;
  - `rpc.rs`: request IDs and the pending-request table.
- `tests/`: tests of the library on concrete values.
- `app/`: the event loops, sockets, files and threads: `Transport`,
  `Messenger` and `RpcMessenger`.
