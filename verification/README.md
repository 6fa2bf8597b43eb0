# wrapper

Argument handling for wrappers around C/C++ compilers and linkers (Clang/LLVM, MSVC,
GCC, GNU `ld`, and `sccache`/`ccache` drivers), verified with Verus.

A wrapper run goes through these stages:

1. `begin_run` works out the (wrapper, tool) names from the wrapper's own name (a bare
   `sccache` takes the tool from its first argument) and how each is to be looked up.
2. The caller looks the executables up on disk.
3. `PendingLookup::resolve` classifies the deputy tool into a family and kind, picks the
   filter pack, runs the argument pipeline (`apply_filter`: split fused `/Fd` `/Fo` flags,
   drop bad flags, swap flags, add extra flags just before the last flag unless the
   command is a pure link, fall back to `--version`) and decides on a response file.
4. The caller writes the response file when one is wanted.
5. `PendingArguments::finish` builds the final command line.

Layout:

- `src/` — the verified library: `patterns` (regex wrappers), `strings`, `constants`,
  `classification`, `parser` (flag/value structure from the `zccache_depgraph` parsers),
  `filter` (the pipeline and response files), `executable`, `runtime`, `usage` (help box),
  `flags`, and `laws` (properties proved for every input).
- `app/` — the binary: environment, disk lookups, response-file writing, logging, printing.
- `tests/` — tests of the library.
