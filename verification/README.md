# cch24

A small festive web service whose decisions are verified with Verus.

- `src/address.rs`: address "encryption" on IPv4 octets (addition modulo
  256) and IPv6 octets (exclusive or), with the laws that key recovery
  undoes it.
- `src/value.rs`: one tree (`UnifiedValue`) for TOML, JSON and YAML
  documents, and the lookups the rules use.
- `src/formats.rs`: the calls into `toml`, `serde_json`, `serde_yaml` and
  `cargo_manifest`, each behind a contract that names its result.
- `src/float_literal.rs`: the grammar of strings that read as an `f64`,
  used for `package.rust-version`.
- `src/text.rs`: characters, ASCII case folding, decimal notation.
- `src/manifest.rs`: the manifest endpoint's rules and its reply.
- `app/main.rs`: the actix-web routes on Shuttle, query and header
  handling, and `std::net` address parsing and printing.
