# kr0ki_core

The core of kr0ki, a diagram-rendering and model-viewpoint service: the
format vocabulary and cache keys of the render service, the recognizers that
lift Kubernetes manifests, Rust sources, SysML v2 snapshots and b00t Turtle
into a UFO semantic graph, the renderers of that graph (D2, Mermaid), the
ReqIF import/adapter/export path onto a requirements graph, rule-document
extraction and the folding of rule outcomes into that graph, and the MCP tool
manifest.

Every function in `src/` is verified with Verus against a contract stated over
mathematical views (`Seq`, `Map`, spec functions). Calls into outside crates
(sha2, oxttl/oxrdf, usvg/resvg/tiny-skia, zip, syn's parser, url handling of
reqwest) sit behind small trusted wrappers whose contracts name or state what
the crate returns, or, where that depends on more than the arguments (the
pixels of an SVG whose `<image>` files are read from disk), what holds of every
outcome; public proof functions named `law_*` state properties that
span several functions (round trips, uniqueness, idempotence).

Layout:

- `src/` — the verified library, one module per concern (`lib.rs` lists them).
- `tests/` — integration tests of the library, one file per module.
- `app/` — the unverified shell: HTTP service plumbing, file and network I/O
  (the fetch loop performs what `reqif_fetch::fetch_step` decides), the walk
  of `syn`'s `Visit` trait that copies a parsed tree into the library's
  syntax records, serde bridges.
