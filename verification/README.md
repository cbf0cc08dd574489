# prv_core

The portable core of a DJ and music-performance studio, written in Verus: each
decision is an executable function with a contract, and each rule the core
promises is a proof.

## Layout

- `src/` — the verified library.
  - `time` — frames, sample rates, exact tempi, signatures, musical time, the
    transport clock, tempo maps and beat grids, all in integer arithmetic.
  - `transport` — playback state and intent, the transition table, loops and
    slip, and the transport that drives the clock.
  - `timeline` — clips and the edits on them, parameter addresses, automation
    lanes and snapping.
  - `waveform` — the resolution ladder, viewports, which tiles each pixel
    column covers, and whether a chunk of audio is taken.
  - `sync` — the synchronisation state machine, the outbox, version vectors
    and restore-point thinning.
  - `security` — capabilities and roles, consent, redaction, secrets and the
    audit log.
  - `settings` — experience modes, settings and their store, and accessibility
    joined with what the platform reports.
  - `telemetry` — counts and diagnostics, kept only with the user's agreement.
  - `tokens` — the Swift bindings rendered from the design token source.
  - `text` — decimal rendering and the string helpers the rest uses.
- `tests/` — tests run against the compiled library.
- `app/` — the token generator program, and the parts of the core that compute
  in floating point: tempi in beats per minute, durations in seconds,
  automation curves, parameter ranges, accessibility text scales and waveform
  summaries.

## Checking

Verification and tests run through the workspace scripts; the library has one
outside dependency, `serde_json`, used by the generator in `app/` to read the
token source.

## What a secret does not offer

`Secret` has no `Debug` at all, rather than one that prints a placeholder:
a hand-written `Debug` cannot be verified here, and a derived one would
print the bytes. A structure that derives `Debug` therefore cannot hold a
`Secret`, which keeps the secret out of every log line by refusal rather
than by redaction; `Secret::to_text` gives the placeholder where one is
wanted.
