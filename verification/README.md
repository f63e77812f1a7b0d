# sidecar

A manifest-driven manager for a small set of cooperating local processes,
with its logic verified by Verus.

- `src/` is the verified library: the `sidecar.toml` model and its
  diagnostics, the launch plan, the packed `--sidecar-stamp` and
  `--sidecar-broker` arguments (percent-encoded, with round-trip proofs), the
  command-line grammar and routing, process-listing and `/proc/net/tcp`
  readers, the broker handshake, the inspect reply frames, data directories,
  release-version ordering, and the signalling sequence that stops or kills
  a process group.
- `app/` is the `sidecar` program around it: reading files and the
  environment, running `ps`, `kill` and child processes, sockets, and
  printing.
- `tests/` exercise the library on concrete values.
