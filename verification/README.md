# spice2x_cli

A command-line client for the SpiceAPI control protocol of spice2x, built around a
library whose logic is specified and proved with Verus.

- `src/` is the verified library: the RC4 cipher (`rc4`), the JSON document model
  (`json`), request and response messages (`request`, `response`), the decisions of a
  connection — cipher choice, null-byte framing, receiving in chunks, retries, session
  refresh (`connection`) — the protocol and command errors (`error`), the actions
  (`cli`), the calls and result handling of every command (`commands`), and the
  human-readable output (`output`).
- `app/` is the program around it: argument parsing (clap), the TCP socket, JSON
  encoding and decoding (serde_json), pretty-printed JSON output, file writing and the
  clock for capture file names.
- `tests/` exercises the library on concrete values.
