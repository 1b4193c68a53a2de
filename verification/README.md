# nano_core

The core of the NANO edge runtime — its virtual file system, sliver bundles,
module resolution, WebAssembly checks and worker bookkeeping — written in
Verus, with each public function's behaviour stated in `requires`/`ensures`
and proved.

Layout:

- `src/vfs` — normalized VFS paths, per-tenant namespaces, the in-memory,
  disk and object-store backends' paths, quotas and listings, backend choice.
- `src/sliver` — the sliver archive format: reading and assembling entries,
  integrity checks, restoring files into a VFS and verifying them, the
  sliver cache's keys and its hot-loading decisions.
- `src/v8` — isolate lifecycle states, heap limits, snapshot checks and the
  ES module loader's import resolution and cache.
- `src/wasm` — WebAssembly module validation, the JS API's checks and the
  compiled-module cache format.
- `src/worker` — CPU time tracking, execution timeouts, memory pressure
  levels, isolate eviction, work-queue statistics and isolate telemetry.
- `app/` — the surroundings that touch the outside world: clocks, files,
  process-wide registries, metadata JSON and the floating-point memory
  monitor.
- `tests/` — tests run against the compiled library.
