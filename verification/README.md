# nfsserve

An NFS version 3 server. The protocol is a library that is verified with Verus;
the sockets around it are ordinary async Rust.

## Layout

- `src/xdr.rs`, `src/rpc.rs`, `src/nfs.rs`, `src/nfs_args.rs`: the messages, as
  types with an encoding and a parse. Reading gives back what was written.
- `src/vfs.rs`: what the server asks of an exported file system and what it is
  answered, file handles, paths, and what a file system does unless it says
  otherwise.
- `src/nfs_handlers.rs` and `src/nfs_handlers/`: one machine per procedure. A
  machine asks the file system one thing at a time and is resumed with the
  answer. `dispatch.rs` picks the machine and states what holds of all of them;
  `runs.rs` states what whole calls are answered.
- `src/rpcwire.rs`: one message from its bytes to its reply.
- `src/transaction_tracker.rs`, `src/transaction_table.rs`: which calls have been
  seen before.
- `src/tcp.rs`: records, and the state of a connection.
- `src/text.rs`: numbers and paths as text.
- `app/`: the file system trait, the sockets and the tasks.
- `tests/`: tests of the library.

## What is trusted

Big-endian numbers are written and read by `byteorder`. The clock is
`std::time::Instant`, and memory for a record is reserved by
`Vec::try_reserve_exact`. Nothing is claimed of the clock, and of the reservation
only that it leaves the record as it is and that an empty fragment needs none.
