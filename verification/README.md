# sweep

Find what is eating your disk and clean it safely: a parallel size scanner,
a registry of detectors for regenerable developer caches and build output,
and a cleaner that deletes only an approved, re-validated plan.

## Layout

- `src/` — the library `sweep_core`, written and proved with Verus.
  - `model.rs`: findings, safety labels, options, plans and receipts.
  - `paths.rs`, `text.rs`: the path and text model the contracts speak of.
  - `scanner.rs`: per-walker directory tallies and their merge, ranking the
    totals into a size report, size texts.
  - `detectors/`: one module per ecosystem; each turns a context and what
    was found on disk into findings. `mod.rs` holds the registry, ranking
    and the project-walk rules.
  - `cleaner.rs`: planning (gates, duplicates, nesting, withheld children),
    the two phases of execution, and the rules of the one-pass tree deleter.
  - `cli.rs`: the decisions and text of the command line.
  - `laws.rs`: properties that span several functions.
- `app/` — the `sweep` command: argument parsing, filesystem walks and
  probes, deletion, JSON output. It gathers facts, hands them to the
  library and performs what the library decides.
- `tests/` — tests of the library on concrete values.

## Safety model

Findings carry `SAFE`, `CAUTION` or `DANGER`. `clean` is a dry run unless
`--execute` is given, moves to the trash unless `--permanent` is given,
plans only findings within `--only` (and `DANGER` only with `--force`),
never runs commands or manual steps, removes each location once, skips a
location covered by a broader one, and never removes a parent that holds a
finding excluded from the run.
