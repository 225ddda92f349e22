# SMARTSCAN

Adaptive scan scheduling for an RF receiver: which frequency band should the
receiver look at next?

## Layout

- `src/` — the library, verified with Verus. It holds the integer core of the
  project: the bit-packed ground-truth grid of the simulator, the receiver's
  monitored-band window, period and phase estimation and next-window
  prediction, the round-robin and random schedulers and the dashboard's sweep
  rule, the scan history behind PPO observations, early stopping, column-header
  normalisation and lookup, temporal windows and scenario splits, the framing
  of compact pulse files, TSRD layout checks and configuration validation.
  Contracts are stated over `Seq`/`nat` models; laws relating several calls
  (read-after-write on the grid, the round-robin cycle, recovery of regular
  periods, idempotent header normalisation and others) are public proof
  functions.
- `tests/` — tests of the library on concrete values.
- `app/` — the command-line program around the library: argument parsing,
  file, database and network I/O, TOML/JSON/CSV handling, and the models that
  compute with floating point (GRU predictor, PPO agent, bandit schedulers,
  emitters and receiver noise).

`rand` is called from the library through small trusted wrappers whose
contracts state only what the crate documents.

The PPO-training, benchmark, demo and dashboard commands drive the RF
environment step by step. The environment of this release records only its
dimensions and has no stepping interface, so those commands stop with an error
that says so. HDF5 preprocessing is likewise reported as unsupported by this
build.
