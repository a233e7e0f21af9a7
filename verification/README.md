# up-wire-arrow

An Apache Arrow IPC payload codec for Eclipse uProtocol, verified with Verus.

A payload is one complete, uncompressed Arrow IPC stream with exactly one record batch. The
eight-byte end-of-stream marker must be its last eight bytes. Decoding refuses absent or
additional batches, missing or truncated markers, trailing bytes, malformed streams, readers that
give fewer or more bytes than declared, and payloads over 64 MiB; the limit is checked before a
reader is read. Encoding writes through a sink that keeps the same limit.

`TelemetryTableV1` is the reference mapping. It finds its columns by name, so columns may be
reordered and others added; its three columns must be non-null and exactly `UInt64`, `UInt32` and
`Float64`.

## Layout

- `src/` is the verified library.
  - `envelope.rs` walks the messages of a stream, and `framing.rs` proves which byte strings it
    accepts.
  - `bounded.rs` is the limited sink, `error.rs` the errors and their texts.
  - `batch.rs`, `message.rs` and `stream.rs` hold what is taken on trust from the Arrow crates.
  - `telemetry.rs` is the telemetry mapping with its laws, `half.rs` the values of its fixture.
  - `wire.rs` encodes and decodes; `laws.rs` proves what holds of both together.
- `tests/` runs the library with the Arrow crates.
- `app/` puts the library behind the traits of up-rust, and reads payloads from readers.

Arrow's stream reader panics on some malformed streams. `decode_payload` therefore asks that the
stream can be opened and read; `try_decode_payload` finds out first, for columns of fixed-width
values, booleans, strings and byte strings, and gives `None` for others. In the same way,
`encode_payload` asks that a value's batch can be written, since flatbuffers panics on metadata of
two gigabytes; a telemetry table always can, and `try_encode_payload` finds out first for batches
of `UInt64`, `UInt32` and `Float64` columns.

The compact identities `0xA201` (wire) and `0xA202` (payload family) are provisional and not
globally registered.
