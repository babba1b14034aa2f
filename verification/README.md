# clairo

Repeatable measurements of GPU execution time for `wgpu` code: a suite of benchmark cases is
registered, the selected cases run on one hardware adapter, and each case yields timed samples
and a statistical summary.

- `src/` is the library. It holds the decisions of a run as executable Rust with contracts that
  Verus proves: case identities and selection, registration, the requirements of a run, the choice
  of an adapter, the passes and timestamps of an iteration, calibration, the course of a case, of
  its warm-up and of a sample, readback bounds, and the ordering of samples.
- `app/` talks to the GPU. It takes the planned cases in turn and stops at the first that fails,
  performs what the library asks for, reports back what happened, and does the floating-point
  arithmetic of durations and summaries.
- `tests/` runs the library on concrete values.

The items of `wgpu` and of the standard library whose contracts are taken as given are documented
where they are declared, in `src/requirements.rs`, `src/readback.rs`, `src/adapter.rs`,
`src/observation.rs` and `src/text.rs`.
