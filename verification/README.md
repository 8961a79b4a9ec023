# telegram

A Telegram MTProto client library, verified with Verus.

- `src/ser.rs` — the TL binary encoding (`Serialize`) of integers, booleans,
  strings and vectors; every encoding is a whole number of 32-bit words.
- `src/request.rs` — unencrypted requests: message ids, the frame around a
  message body, and the HTTP request that carries it.
- `src/codegen/` — translation of the TL schema into Rust definitions
  (`translate_typename`, `translate_id`, `to_constructor`, `generate`).
- `src/derive.rs` — the `Serialize` derive: the definition parsed with syn, and
  the source of the impl written from it.
- `src/text.rs`, `src/numeral.rs` — character and number helpers.
- `app/` — the HTTP client (hyper), reading the JSON schema and writing the
  generated file, and the derive entry point.
