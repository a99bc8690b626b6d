# tcping

Pings a TCP port: connects to `<host>:<port>` a number of times and reports
each connection time and the round-trip statistics.

```sh
tcping <host> <port> [-n <count>] [-t <timeout secs>] [-i <interval ms>]
```

Layout:

- `src/` — the verified library.
  - `stats.rs`: running statistics over latencies in nanoseconds, kept
    exactly (sum, sum of squares, extremes); mean and sample variance as
    exact fractions, with the laws that tie them to the batch formulas.
  - `session.rs`: the run as a state machine (probe, wait, finish) and the
    laws of an uninterrupted or stopped run.
  - `options.rs`: checking of the run's settings.
  - `report.rs`: every line the tool prints, built from plain values.
  - `wide.rs`, `text.rs`: 256-bit arithmetic for the exact sums, decimal
    rendering of integers.
- `app/main.rs` — argument parsing (clap), name resolution, TCP connects and
  timing, sleeping, Ctrl-C handling (ctrlc), the floating-point figures
  (milliseconds, percentages, square root) and printing.
- `tests/` — tests of the library.
