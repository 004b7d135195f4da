# cargo-scout-audit, verified

A static analyser for ink! smart contracts: a set of detectors that read a
contract's syntax tree, typed tree and MIR and warn about unsafe patterns,
and the command-line tool that selects, builds and runs them and writes
reports of what they found.

`src/` is the library, verified with Verus. Each detector's decisions are
functions over a plain model of what the compiler hands it:

- `mir` models basic blocks, places, operands and terminators; `guard`,
  `storage_ops`, `self_destruct`, `reentrancy`, `transfer_from` and
  `lazy_values` walk them; `env_calls` finds, over the HIR model, which
  functions the calls they watch resolve to.
- `hir` models expressions, statements, patterns, token trees, attributes
  and items; the syntax-based detectors (`unsafe_expect`, `reentry_flag`,
  `delegate_call`, `arithmetic`, `span_probes`, `set_storage`, `loops`,
  `early_lints`, `lazy_mut_get`, `storage_types`, `lazy_delegate`) read them.
- `manifest` holds the checks on `Cargo.toml` (overflow checks, the ink!
  version), through the `toml` and `semver` crates.
- `selection`, `listing`, `workflow`, `output`, `report`, `markdown` and
  `templates` are the tool's logic: choosing detectors, naming and keeping
  built libraries, reading the compiler's output, and the report formats.

`app/` is the program around it: argument parsing, processes, files, the
network, serde, and cargo's own crate for fetching detector sources. The
compiler driver that feeds the detectors is not part of this crate.

`tests/` runs the library on concrete values.
