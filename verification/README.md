# async_net

Async TCP and Unix-domain networking on top of `async-io`, with the decisions that
choose among socket outcomes verified by Verus.

- `src/` is the verified library:
  - `attempt`: the run of bind or connect attempts over a list of resolved addresses
    (first success wins; otherwise the last error; an empty list is an invalid-input
    error), with the rule proved as `lemma_first_success_else_last_error`;
  - `incoming`: the items of the endless stream of accepted connections.
- `app/` holds the socket types (`TcpListener`, `TcpStream`, `unix::UnixListener`,
  `unix::UnixStream`, `unix::UnixDatagram`) and their `AsyncRead`, `AsyncWrite` and
  `Stream` impls, which do the I/O and hand the outcomes to the library.
- `tests/` runs the library on concrete values.
