# franken_engine

Verified gates, ledgers and reducers of the franken-engine runtime, written in
Verus. Every module under `src/` states its behaviour in `requires`/`ensures`
contracts over mathematical models (sequences, maps, byte strings) and proves
them; cross-function properties are stated as public `law_*` proof functions.

## Layout

- `src/foundation.rs` — content hashes (SHA-256 through the `sha2` crate),
  hexadecimal and decimal rendering, canonical byte encodings, security epochs.
- `src/collections.rs`, `src/strmap.rs` — ordered sets and maps keyed by small
  enumerations or by strings, iterated in a fixed order.
- `src/text.rs` — UTF-8 byte lengths, white space, substring search and
  replacement, joining and line counting over character sequences.
- `src/hardware_*.rs` — hardware claim gating, localization residuals and the
  hardware parameter manifold with symmetry-based obligation reduction.
- `src/hierarchical_delta_debug.rs` — fragmenting failing programs and
  reducing them against an oracle to a minimal reproduction.
- `src/hindsight_*.rs` — trace escalation policies, decisions and bundles.
- `src/hole_witness_generator.rs` — witness programs for frontier holes.
- `src/hostcall_*.rs` — the hostcall session state machine, its anti-replay
  ledger, and the conformance governance gates.
- `tests/` — executable tests of the library.
- `app/` — file output around the library (the hostcall evidence bundle).
