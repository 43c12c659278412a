# rlx_metal

The decisions of a Metal backend for compiled tensor graphs, written in Verus: which kernel runs a
product or an attention, what each command binds and launches, where parameters and handles live,
how graphs are rewritten before they are compiled, and how tuned candidates are kept.

- `src/` is the verified library. Encoders append to a stream of commands (`command`), and each
  contract gives the exact stream. Floats travel as bit patterns.
- `tests/` runs the library on concrete values.
- `app/` is ordinary Rust around it: environment, files, floating-point estimates, and, on Apple
  systems, playing the streams on Metal encoders.

Where to start:

| Module | What it decides |
| --- | --- |
| `cost`, `estimate` | the variant of a matrix product, and the work it stands for |
| `blas`, `sdpa`, `fft_dispatch`, `encode` | the commands of each operation |
| `icb` | which parts of a schedule become indirect command buffers, and what they hold |
| `graph`, `graph_rewrite`, `scratch` | rewriting a graph and sizing its scratch memory |
| `executable`, `run`, `mps_plan` | where data lives, what is copied, and what is bound |
| `float_bits` | what half floats, brain floats and integers become in single precision |
| `kernel_plan`, `tune_cache`, `config` | plans, tuned candidates and options |
