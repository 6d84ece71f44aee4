# cache_cleaner_daemon

The decision core of an Android cache cleaning daemon, written in Verus: which
paths are junk, which targets a device has, what a plan may remove and in which
order, how each change is committed, made and checked, and what a caller may ask
of the daemon. Every function under `src/` is verified, but for what calls out of
the library. There the contract is trusted: four wrappers (`file_kind` around
rustix, `lower_text` and `upper_text` around the case tables of `str`, and
`elapsed_since_epoch` around the clock) and two assumed specifications
(`core::str::from_utf8` and `Duration::as_secs`). The types of outside errors are
opaque.

- `src/` is the library. `domain` holds the vocabulary; `catalog`, `scanner`,
  `safety`, `policy`, `planner`, `auth` and `executor` are the steps of a job and
  `pipeline` ties them together; `engine` holds the path rules, the directory walk
  and the optimizers; `hardware` and `platform` read what a device tells; `ipc` and
  `cli` decide on frames, callers and messages; `recovery` sorts out what a crash
  left behind. Functions that begin with `law_` state what holds of several of them
  together.
- `tests/` runs the library on concrete values.
- `app/` is the program around it: the command line, the daemon's loop, files,
  sockets and signals. It performs what the library orders and reports back what
  came of it.
