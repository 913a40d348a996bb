# gauntlet

An adversarial test harness for an SVG thumbnail provider, and the proofs that the
harness itself judges what it sees correctly.

The harness loads the provider as the shell does and tries to break it: malformed
input, hostile streams, abuse of the COM contract, concurrency, resource
retention. A harness that goes green while a defect exists is worse than none, so
everything that decides something is in a library that is verified with Verus:

| Where | What |
|---|---|
| `src/supervisor*` | command line, selection of suites, exit codes and verdicts, the watchdog, the summary |
| `src/report.rs` | checks, their bookkeeping and the exit code of a suite |
| `src/corpus*` | the synthetic inputs: plain, compressed and oversized |
| `src/suites/*` | what each suite does next and how it judges what came back |
| `src/streams.rs` | the hostile streams |
| `src/thumb.rs` | reading a bitmap and telling artwork from a fallback |
| `src/rng.rs`, `src/metrics.rs`, `src/numbers.rs`, `src/text.rs` | the reproducible random numbers, the resource counters, numbers and text |
| `src/unload_harness.rs`, `src/thumb_driver.rs` | the decisions of the unload harness and of the shell driver |
| `src/gzip.rs` | the calls into the compressor, which are trusted |
| `app/` | processes, threads, files, the network and COM |

Some of the laws that are proved beside the functions: a failed check is never
forgotten and nothing is allowed to stay "known"; a run is green exactly when every
suite passed, and no suite stops it; a child replays the run it was started by;
every case has a name of its own, so a heartbeat names one input, and a suite that is
asked for one case by its name runs that case and no other (files of a corpus on disk
that share a name are run together); a sequence of operations never unlocks what it has not locked, and winding down leaves nothing
held; a library is accepted as unloadable exactly when nothing is held; no colour
of the concurrency storm can pass for another; the files chosen from a corpus do not
depend on the order in which its directories happen to be listed.

Times and percentages that are only shown are formatted in `app/`; every limit is
compared exactly, in integers.

## Running it

```powershell
gauntlet run                       # everything
gauntlet run --suite adversarial   # one suite
gauntlet list                      # what there is
gauntlet exec render --dll PATH --seed N --only size_sweep_256
```

Exit codes: `0` pass, `1` a check failed, `10` the suite could not run, `101` a
panic in the harness, `124` killed by the watchdog, and a large negative value for
an unhandled exception.
