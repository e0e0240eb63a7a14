# nanogpt_120a

Verified building blocks of a cost-constrained GPT-2 training setup and of the
sweep that searches its model shapes and optimizer settings.

- `src/checkpoint/` — the NVFP4 checkpoint format: header and tensor records,
  the tensor-name schema, saving a host model and loading it back with every
  check (magic, version, tensor count, duplicates, missing tensors, lengths).
  A saved model is proved to load back unchanged.
- `src/config.rs`, `src/run_output.rs`, `src/run_info.rs`, `src/env_file.rs`,
  `src/number.rs`, `src/text.rs` — run settings from environment values, run
  directories and paths, UTC stamps, `key=value` files, number parsing and the
  string operations they rest on, each stated against the std behaviour it
  follows.
- `src/sweep/` — the sweep's xorshift generator, candidate shapes and Aurora
  phase layouts, Halton points as exact fractions, training-log parsing, the
  trials table format, source selection and the per-trial step decisions.
- `app/` — the sweep program and the file, process and floating-point glue
  around the library (loss graphs, float settings, wall-clock budget).
