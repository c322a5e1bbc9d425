# cddl_parsing

Reads the rules of a CDDL document (RFC 8610) and collects, in a table, the Rust types
that represent what they describe: records, tables, enums over types and over groups,
wrappers, aliases and generic definitions with their instances.

- `src/` is the library, verified with Verus. `parsing` adds rules to the table of types
  in `intermediate`; its contracts are stated over `model`, which says what the types of a
  document are and which syntax has a representation. `support` decides the latter before
  anything is added. `laws` holds what is proved of documents as a whole.
- `app/` puts the library behind the syntax tree of the `cddl` crate.
- `tests/` runs the library on concrete rules.

`serde_json` is named in `Cargo.toml` for its `std` feature alone: `cddl` takes it without
default features, and it does not build so.

The library rests on four statements that are not proved: what `String::push` and
`std::str::from_utf8` do, and how `cddl` displays identifiers and byte strings.
