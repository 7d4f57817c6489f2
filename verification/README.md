# checkmate

Verified core of the Checkmate chess-escrow system, written in Verus.

- `src/` is the verified library: the escrow types, the oracle contract's
  result log with its per-oracle sliding-window rate limiter (`oracle`,
  `rate_limit`, laws in `oracle_laws`), and the event indexer's event parsing
  (`rpc`), cache (`cache`, laws in `cache_laws`), query building and match
  summaries (`db`), HTTP answers (`api`), configuration checks (`config`),
  and the Chess.com result helpers (`chess_com`). `text` holds the string
  routines they share.
- `tests/` runs the library on concrete values.
- `app/` is the unverified shell: the Soroban contract entry points, the
  SQLite store, the RPC poller, the axum server and the Chess.com HTTP client.
  Each of them reads or writes the outside world and hands plain values to
  the library.
