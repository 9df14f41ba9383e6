# inno

A read-only parser for Inno Setup installers, written and proved in Verus.

- `src/open.rs` opens an installer: it finds the loader table, reads the version, refuses
  releases that are too new, and tries the candidates of an ambiguous version one after the other.
- `src/stream.rs` reads the two header streams of an installer, one request at a time.
- `src/plan.rs` states in which order that happens, and that reading gives back what an installer
  holds.
- `src/inno.rs`, `src/entry.rs` and `src/header.rs` hold what was read.
- `src/codepage.rs` picks the codepage of an installer's text.
- `src/decoder.rs` reads data that are stored or compressed, and `src/lzma_stream_header.rs` the
  header of raw LZMA1 streams.

The library does no input or output. `app/` runs it over any reader that can seek.
