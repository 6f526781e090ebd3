# slotgate

A bounded-parallelism job runner that gives each concurrency slot its own
disjoint port range, so jobs that bind ports can run side by side.

The library under `src/` holds the logic, each function with a contract that
Verus proves:

- `ports`: the port range each slot owns, and the proof that slots below the
  top of the port space never share a port.
- `execution`: the seeded job order (a permutation, replayed by its seed), the
  free-slot bookkeeping of the slot pool, the verdict on a finished job, the
  environment a job is started with, and the lines and summary a run prints.
- `config`: where the job names come from (`--jobs`, a job file, or a scan of
  a source tree for test functions), the jobs built from them, the module path
  of a test file, and the test binary named in cargo's JSON output.
- `text`: the string operations the rest is written with, each proved against
  a short statement of what the standard library does.

`app/` is the command-line program around it: argument parsing, reading files,
spawning the job processes with their timeouts, and waiting for free slots.
