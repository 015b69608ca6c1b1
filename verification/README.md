# roto

Parts of the Roto filter language: its syntax tree, the parser of value
expressions, type definitions, records backed by the bytes of BMP messages,
and the stages of compiling a program, with their contracts proved by Verus.

- `src/ast.rs`, `src/syntax.rs`: syntax trees and the spans of their nodes.
- `src/parser/`: tokens, reading numbers, IP addresses and communities from
  token text, the grammar of value expressions (`grammar.rs`), and the parser
  that reads it (`reader.rs`, `value.rs`).
- `src/types/`: type definitions, their order and texts, chains of field
  names through records (`fields.rs`), method lookup (`methods.rs`), and
  BMP message records. The field and method tables of the built-in types
  are not here: the functions that consult them take them as arguments,
  and their contracts speak of whatever those tables answer.
- `src/pipeline.rs`: the stages from loaded files to the value of a program.
- `src/report.rs`: what an error report shows for each error.
- `app/`: reading files from disk and drawing error reports.
- `tests/`: tests of the library.

Verify with `verus src/lib.rs` and the outside crates of `Cargo.toml`.
