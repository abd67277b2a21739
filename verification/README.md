# Prunr application library

Prunr removes backgrounds from pictures on the user's own machine. This crate holds
what the application decides and computes around the inference engine: batches and
their memory, undo history, presets, live previews, strokes of the eraser, downloads
of models, the command line, and what the window does with each of them.

* `src/` — the library. Verus proves what its functions are stated to do, but for the
  small wrappers named below, whose contracts are believed.
* `tests/` — tests of the library on concrete values.
* `app/` — ordinary Rust around the library: arguments, files, threads, the network,
  memory of the machine, and the shell of the window. Inference is behind traits.

Floating-point settings are held by their bit patterns (`pipeline::Scalar`), times as
nanoseconds, and paths as text with slashes. Calls into `zstd`, `image`, `serde_json`,
`sha2` and `hex`, and the standard library's `Arc::clone`, stand behind small wrappers;
`String::push` has an assumed contract. What each is taken to do is written above it.
