# stream_json

Streaming JSON serialization, verified with Verus. A value becomes a
serializer that hands out its JSON text chunk by chunk, and can report the
exact size of that text ahead of time.

Every serializer is described by spec functions: `remaining()`, the bytes
it has still to emit, and `fails()`, whether it will report an error. Each
call of `poll` is proved to hand out a non-empty prefix of `remaining()` (or
an error only where `fails()` holds), so a run of polls that does not wait
ends with the whole text; `Pending` comes only from a serializer whose
`may_pend()` holds, that is one that waits on something or holds one that
does. Where a value's size is known ahead of time and serializing it cannot
fail, `size()` is proved to equal the length of its `json()`; a container
whose values declare their size unknown answers `None`. An error that a
serializer hands out is one that the part of it being polled is due to
report (`reports`), so wrappers pass their inner serializer's error on.
`poll` takes the task context, which the serializers that hold others hand
on, so a serializer that waits can arrange to be woken.

## Layout

- `src/serde.rs`: the `Serializer` and `IntoSerializer` traits, the fused
  stream, tokens, and the spec functions for arrays and objects; the laws on
  runs of polls and on sizes.
- `src/text.rs`: decimal numbers, UTF-8 and JSON string escaping, with their
  laws (escaping distributes over concatenation, leaves no control bytes and
  keeps distinct strings distinct).
- `src/std_impl.rs`: serializers for `()`, `bool`, integers, strings,
  `Option`, `Box`, `Vec` and boxed serializers.
- `src/plaintext.rs`, `src/base64_embed.rs`: bytes written as text or as
  base64.
- `src/derived/`: the serializers that `#[derive(IntoSerializer)]` produces,
  written out for a set of structs and enums (some holding base64 data), on
  shared member helpers.
- `src/buffer.rs`, `src/error.rs`: the chunk type and the error type.
- `app/`: the `futures` stream adapter, floats, `serde_json::Value`, the std
  types written through `Display`, and the error type with `thiserror`.
