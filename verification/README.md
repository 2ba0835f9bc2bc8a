# aiconfigurator_core (operator layer)

Latency operators of the AIConfigurator Rust core, with their integer logic
proved by Verus.

- `src/` — the verified library:
  - `base`: provenance tags (`Source`) and how they combine; latency results
    as the composition logic reads them (latency as an ordering key).
  - `overlap`: overlap composition — the max latency of each overlap group,
    the groups in order, the combined provenance.
  - `mla`, `wideep_mla`: the MLA and WideEP MLA operators, the exact prefix
    correction and the context-parallel (zigzag) plan of a prefill.
  - `mhc`: the mHC module operator and the integer terms of its roofline,
    with overflow reported instead of wrapped.
  - `enums`: the quantization modes the operators carry.
- `app/` — the rest: serde forms of the operators, the error type, the
  perf-database queries and the floating-point latency arithmetic.
- `tests/` — tests of the library.
