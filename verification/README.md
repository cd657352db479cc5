# chaos_rust

Support library of the Static Chaos MUD server, verified with Verus.

- `src/config/` — path resolution: joining paths, trailing slashes, the
  override / environment-root / default cascade for every runtime path, the
  getters with their compiled defaults, and the four-slot rotating buffer for
  area file paths. The test for whether a directory exists is passed in as a
  function (the server passes `path_exists`), and the contracts say which
  paths it is asked about.
- `src/util/rand.rs` — the lagged Fibonacci generator (`number_mm`),
  rejection-sampled ranges (`number_range`) and the server's integer square
  root (`isquare`), each with a contract over a model of the generator state.
- `app/` — the process-level layer: reads the `CHAOS_*` environment
  variables, keeps the configuration and the generator in globals, and
  exports the C entry points.
- `tests/` — the test suite, run against the compiled library.
