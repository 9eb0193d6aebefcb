# mcd_core

A codec framework for media pipelines, verified with Verus: codec descriptors
and capability flags, the built-in PCM codecs (`pcm_s16le`, `pcm_s32le`,
`pcm_f32le`, `pcm_f64le`), a registry that maps codec names to decoder and
encoder factories, and the error type they share.

- `src/` — the library, with its contracts and proofs.
- `tests/` — tests of the library.
- `app/` — the napi-rs bindings for JavaScript and the process-wide registry
  (a lock around the library's registry, swappable at run time).
