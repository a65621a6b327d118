# momentum_app

The decision and formatting logic of the Momentum race client, written
in Verus and proved against its contracts.

- `src/` is the verified library. Each module states what its functions
  return through spec functions over `Seq`, `Map` and integers, and the
  `law_*` proof functions state properties that span several calls
  (lobby transitions, the autosplit source lock, the encoder fallback
  ladder, the ffmpeg command lines' formats and encoder options, the
  segment-name round trip, the frame copy, the upload protocol's
  retries).
- `tests/` runs the library on concrete values.
- `app/` is the unverified shell: ffmpeg child processes, files, the
  WebSocket and HTTP clients, serde copies of the library's types, and
  the few computations done in floating point. It takes every decision
  from the library.

Split files are read with livesplit-core's `.lss` parser; before it
runs, `lobby::unreadable_split_file` flags the texts on which that parser
could fail rather than return, and such files are refused.

Calls into outside crates from `src/` go through small trusted wrappers
(`serde_json`, `base64`, `rand`, `chrono`, `livesplit-core`, and
`String::push`), each documented with what its contract assumes.
