# antarc_protocol

A custom protocol on top of UDP with reliable and unreliable packets, a connection handshake
and fragmentation of large payloads, written in Verus: every operation carries a contract
(`requires` / `ensures`) and Verus proves the code against it.

## Layout

- `src/` — the verified library.
  - `packets/` — the packet kinds, their wire encoding (`encode.rs`), decoding with the CRC32
    check (`raw.rs`, `decode.rs`), scheduled packets (`scheduled.rs`) and the proofs that what
    is encoded decodes back (`wire_laws.rs`).
  - `payload.rs` — cutting payloads into chunks, and the proof that the chunks join back.
  - `table.rs` — an ordered key/value table with unique keys, used for every peer list.
  - `peers.rs` — peers in each connection state, and fragment reassembly.
  - `scheduler.rs`, `reliability.rs` — what waits to be sent, and reliable packets kept for a
    retry until their time to live runs out.
  - `client/`, `server/` — the two sides of the handshake and of packet handling, each with
    the `Protocol` operations that run on its clock.
  - `protocol.rs` — `Protocol`, scheduling of payloads and heartbeats for one or every peer.
  - `packet/`, `legacy/`, `header.rs`, `controls.rs`, `connection.rs` — the earlier packet
    layout (header with a status code, footer with the checksum) and its host types.
  - `readiness.rs` — what the network poller's events say about the socket.
- `tests/` — tests on concrete values: wire round trips, corrupted packets, the handshake,
  fragmented transfers, expiry of sent packets and fragment groups, scheduling errors and the
  earlier packet layout.
- `app/` — a client and a server that exchange packets through in-memory buffers, each on a
  thread; the error type that implements `std::error::Error`; conversions to std types.

## Trusted code

The contracts that Verus takes without proof are those of the calls into `crc32fast::hash`
(`src/checksum.rs`) and into `std::time::Instant` (`src/protocol.rs`).
