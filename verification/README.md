# idb

The verified core of iDB, a storage engine that keeps all data in one
N-dimensional key space and queries it with a small query language.

- `src/` is the library, specified and proved with Verus: the binary wire
  protocol and version negotiation; the query language (lexer, parser,
  canonical fixtures, and the 64-bit float each number literal reads as,
  decided exactly on its digits), the logical planner and the compilation of plans into
  executor requests; graph traversal and candidate generation; the durable
  index of records and their space keys; changefeeds and watch sessions;
  backend capabilities and stage routing; the ordered log with its
  compaction, retention and consumer-group offsets, and the durable mutation
  stream built on it; gateway routing and session tables; access control.
- `tests/` runs the library on concrete cases.
- `app/` is the engine around the library: files on disk (write-ahead log,
  ordered-log files), JSON at the transports, floating-point scoring and
  embeddings, and the backend, runtime and server that tie them together.
