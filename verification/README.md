# plex_pg_core

The decision core of a shim that is loaded into an application written against
SQLite and makes it run on PostgreSQL. What stands under `src/` is verified with
Verus; `app/` is the plain Rust around it.

The proofs rest on three statements that Verus takes on trust, each about a
function or constants from outside:

- `String::push` (in `text`) appends one character.
- `utf8_text` (in `shim_init`) calls `std::str::from_utf8`, which reads valid
  UTF-8 and nothing else.
- `platform_signals` (in `runtime_linux`) reads the signal numbers of the `libc`
  crate.

- `ffi_types`, `conn_ownership`, `reexecution`: statements, the pooled
  connections they point at, and the counting that keeps a connection allocated
  for as long as anything points at it.
- `pg_client_config`, `pg_client_registry`, `pool`, `pool_shrink`, `worker`: the
  connection pool, who holds which slot, and when a connection is given up.
- `sql_lexer`, `keywords`, `nocase`, `pragma`, `translate`: a statement of SQLite as one of
  PostgreSQL, as far as keywords go.
- `runtime_linux`, `shim_init`, `tls_support`: what is decided while the shim
  starts, when a signal handler is installed, when an exception is thrown, and
  which block of memory is a thread's own.
- `text`: characters, numbers and searching.

Foreign objects are named by handles: an address as a plain number, zero for
null. The environment, the dynamic linker, locks and threads belong to `app/`,
which hands the core plain values and does what it is told.

The public proof functions whose names start with `law_` state what holds across
several functions.
