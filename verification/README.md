# evaluator

The judge of a programming-contest platform: it takes queued submissions,
builds and runs them in a sandbox on each test case of their problem, checks
every run (with a testlib checker or by comparing outputs), decides the
overall verdict and stores it.

- `src/` is the verified library: the sandbox command lines, the toolchain
  argument filling, the classification of runs and checker exit codes, the
  chunked collection of test-case results, their ordering and the overall
  verdict, the grouping of test-case files by number, and the addresses and
  paths the service uses. `src/laws.rs` states the properties that span
  several functions.
- `app/` is the service around it: configuration, the database, the queue,
  the broker and cache connections, the file system and the processes.
- `tests/` exercises the library on concrete values.
