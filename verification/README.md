# sense_maxer

The decision logic of an aim-training and input-validation lab, verified with
Verus: raw mouse input bookkeeping, identifiers and dates, task generators,
run state machines, movement segmentation and the fairness rules of trial
comparison.

## Layout

- `src/` — the verified library.
  - `types`, `queue`, `integrity`: raw mouse samples, the capture queue and
    the stream integrity counters.
  - `ids`, `civil`, `session`: zero-padded identifiers, UTC calendar dates,
    validation session guards and database integer ranges.
  - `rng`, `gridshot`, `flick`: the seeded generator and the target pickers.
  - `trial`, `lab`, `tracking`, `run`: run clocks and pauses, the lab shell,
    hold-to-fire tracking, and the bookkeeping of every aim task (shots,
    target lifecycles, scores, stored record contents).
  - `segment`, `acquisition`, `analysis`, `scope`, `compare`, `replay`:
    movement segmentation and shot linking, acquisition windows, quality
    flags, metric scopes, comparison validity, and replay cursors.
  - `processor`, `task_config`: processor selection and task configuration
    texts.
- `tests/` — tests of the library.
- `app/` — a command-line front end over the SQLite telemetry store
  (`analyze`, `compare`, `candidates`, `history`, `date`), with the floating
  point geometry, acceleration curves and metrics around the library.
