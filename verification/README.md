# steady_state telemetry and scheduling core, verified

The logic behind the steady_state actor framework's telemetry and actor
placement, written in Verus. Every executable function in `src/` has its
contract proved, except the few trusted wrappers that call `itoa`,
`hdrhistogram` and `String::push`; their doc comments say
what is assumed of each call.

## Layout

- `src/` — the verified library.
  - `channel_stats.rs`, `actor_stats.rs`: the per-channel and per-actor
    telemetry computers (rolling windows, averages, alert triggers, line
    colors, labels).
  - `rolling_window.rs`: the bucketed rolling window shared by both, with
    histogram buckets held through `hdrhistogram`.
  - `channel_stats_labels.rs`: number and label formatting (compressed
    counts, memory sizes, label prefixes), with `itoa` for decimals.
  - `stats_compare.rs`: exact rational comparisons of window averages.
  - `core_balancer.rs`, `affinity.rs`: CPU core selection for actors.
  - `telemetry_window.rs`: refresh and window sizes in bits.
  - `troupe.rs`: actor groups and their member bookkeeping.
  - `core_rx.rs`: receive-side arithmetic for channels and streams
    (available units, slice copies, defragmentation plans).
  - `actor_units.rs`, `channel_units.rs`, `channel_builder.rs`: units and
    small helpers.
- `tests/` — tests of the library against the real outside crates.
- `app/` — what stays unverified: floating-point summaries (standard
  deviations, percentiles, time labels), thread pinning through `libc`,
  and running an actor's future to completion with `futures-lite`.

Laws of the library are public proof functions named `law_*`.
