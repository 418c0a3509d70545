# syauth

The pairing and unlock core of DeskUnlock, verified with Verus.

- `src/` is the library. Every function in it carries a contract that Verus
  proves: the versioned bilateral pairing transaction and its wire formats
  (`pair_transaction`), the local confirmation frames and broker bookkeeping
  (`pairing`), the daemon's pair engine as a state machine (`pair_engine`),
  the desktop-side V2 coordinator and the operator decision files
  (`pair_backend`), crash recovery (`pair_recovery`, `reconcile`), the
  peripheral's write routing and agent bookkeeping (`peripheral`), the OOB
  confirmation code (`oob`), peer selection for the out-of-band unlock
  (`unlock_request`, `bonds`) and the daemon's startup rules (`presenced`).
  Laws that relate several operations are public proof functions next to the
  code they speak of.
- `app/` holds the I/O around the library: files, sockets, standard input,
  processes and the async plumbing. It makes no decision of its own.
- `tests/` exercise the library on concrete values.
