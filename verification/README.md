# pico_limbo

The verified core of a lightweight Minecraft limbo server, written in Verus.

- `src/` is the library: the wire encodings (VarInt, strings, identifiers,
  length-prefixed lists, UUIDs, block positions), protocol versions and
  their names, NBT (options, conversion from JSON, binary reading and
  writing), registry keys, loaded registries and what is sent of them per
  version, the configuration packets sent after login, the decisions of a
  client connection, the Floodgate handshake, chat commands, hotbar and
  pick-block logic, game profiles, configuration placeholders and the
  packet batch queue. Verus proves the contracts of its functions. A few
  small functions are trusted instead: each makes one call into an outside
  crate (base64, AES-GCM, SHA-256, UUID parsing, regular expressions) or
  into std's UTF-8 conversion, is marked `#[verifier::external_body]` and
  says in its doc comment what its contract claims of that call.
  The laws that span functions are public proof functions beside the code they
  are about, such as `nbt::roundtrip::lemma_nbt_roundtrip` and
  `connection::lemma_join_at_most_once`.
- `app/` is a command-line tool around it: file I/O, compression streams,
  the environment, floating point and serde.
- `tests/` runs the library on concrete values.
