# whichllm

Finds the local LLM builds that run best on a machine: it reads what the
hardware probes report, estimates the VRAM and the speed of every GGUF build of
the most downloaded Hugging Face models, attaches benchmark scores and ranks
the builds.

## Layout

- `src/` — the library, verified with Verus. Every public function states its
  result in `ensures` over spec functions on `Seq`, `int` and the types' views.
  - `text.rs`: char-level helpers (splitting, trimming, number parsing).
  - `models/`: quantisation formats, rows of the model index, merging of the
    listings, the cache layout.
  - `benchmarks/`: evidence kinds and the attachment of benchmark scores.
  - `hardware/`: readers for `nvidia-smi`, `rocm-smi`, `xe-smi`, sysfs,
    `system_profiler`, `/proc/meminfo` and the Windows adapter list, and the
    `--gpu` simulation table.
  - `engine/`: VRAM, placement, speed, score components and the ranking;
    `engine/laws.rs` holds properties that hold across them.
  - `output.rs`: the labels and speed bands of the listing.
- `tests/` — tests on concrete values.
- `app/` — the program: command line, running the probes, HTTP, the cache
  files, the floating-point score and printing.

## Units

The library computes in integers: VRAM and RAM in MB, bandwidth in tenths of a
GB/s, speeds in hundredths of a token per second, parameter counts in
millions, bits per weight, confidences and factors in hundredths, benchmark
scores in hundredths of a point.

## Lookups by model id

Merging the listings and looking up benchmark entries go by model id, a
`String`. Both keep their data in a `Vec` whose invariant is that no two ids
are equal (the last benchmark entry of an id wins), not in a `HashMap` keyed by
`String`: with `String` keys vstd's specification of `HashMap` proves nothing
of the map's contents — tried, not even that one `insert` into an empty map
leaves one entry — so no contract over the merge could have been proved.
