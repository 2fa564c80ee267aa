# io_maildir

I/O-free coroutines that deliver, copy and move Maildir entries, verified with Verus.

A coroutine is resumed with the reply to its last request and yields the next one: the time, the
process id, the host name, files to look up, create, copy or move. Whoever drives it performs the
I/O.

- `src/entry` — storing, locating, copying and moving entries, the entry types, and, in
  `laws.rs`, what holds of deliveries as a whole: unique names never collide, a stored entry is
  located again by its id, relocating preserves flags.
- `src/entry/body.rs` — which bodies `mail_parser` gets through; `try_parsed` and `try_headers` test
  for them.
- `src/coroutine.rs` — requests, replies and the coroutine trait.
- `src/flag`, `src/maildir`, `src/path.rs`, `src/paths.rs`, `src/text.rs` — flags, Maildirs, paths,
  collections keyed by path, text.
- `app` — the process-wide id counter, tracing, and errors with messages.

Trusted: the calls into `mail_parser` in `src/entry/message.rs`, and two items on `std` in
`src/entry/types.rs`.
