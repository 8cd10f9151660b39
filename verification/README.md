# microsandbox_vfs

A programmable virtual filesystem for sandboxes, verified with Verus.

`VirtualFs` owns everything that a FUSE session needs: inode numbers, the map
between inodes and paths, lookup references, open handles, directory snapshots
and the pages they are served in. What an operation means is up to a provider,
an implementation of the trait `PathFs`, which sees absolute guest paths and
nothing else. A provider may run in another process; the `rpc` modules hold both
ends of the bridge to it.

- `src/` is the library. Every function states in its contract what it returns
  and how it changes the tables. The laws that relate several functions are
  public proof functions next to them, and in `src/invariants.rs`.
- `app/` connects the library to the outside: sockets, CBOR, staging files, host
  system calls, and the FUSE-facing methods.
- `tests/` runs the library on concrete values.

Hard links are not supported: a path-keyed provider cannot express two names that
share one inode.
