# thru

Thru moves files between a computer and a phone, over SSH (`scp` to a
Termux phone) or over HTTP on the local network (`thru serve` on one side,
`thru send --lan` on the other, with multicast discovery).

This crate is written in Verus. `src/` is the verified library: the
decisions the commands make, the texts they parse and the command lines they
build are functions with contracts, proved by Verus. What `app/` keeps is
the order of the I/O steps around them (when to ask, read, write or run),
the conversions to and from the serde types, and the tally of the processes
that `pull --all` runs.

| module        | what it holds |
|---------------|---------------|
| `text`        | trimming, splitting, white-space tokens and lines, as std's `str` methods do them |
| `number`      | the unsigned-integer grammar of std's `parse`, canonical decimal writing, and their round trip |
| `size`        | human-readable sizes, computing the `f64` quotient and its one-decimal rounding exactly in integers |
| `config`      | the configuration, device aliases (a map with read-after-write laws), `config` and `init` edits (answers checked, overwrite confirmed), `config show` |
| `history`     | transfer history entries and the `--clear` / `--keep` edits, with their laws |
| `http_server` | which client addresses may upload, port fallback, stored file names |
| `http_client` | the upload address |
| `discovery`   | discovery messages and the choice of replies |
| `tailscale`   | Tailscale addresses and peer names, the status command |
| `receive`     | how the device of a received file is named |
| `list`        | the local receive directory listing |
| `pull`        | what `pull` does, and reading the phone's `ls -la` listing (ISO-8601 times, whole file names) |
| `send`        | what `send` does, LAN addresses, picking a discovered device, falling back to scp |
| `ssh`         | key paths and key info, `keygen` decisions and command, the SSH service commands and state |
| `transfer`    | the `ssh` / `scp` argument lists |

`app/` is the program around it: argument parsing, files, processes,
sockets, the HTTP service, and the serde copies of the library's types.
`tests/` runs the library on concrete values.
