# velocache

The verified core of VeloCache, an HTTP/HTTPS caching proxy.

`src/` is a Verus library:

- `cache` — the two-level cache manager: an LRU memory level (the `lru`
  crate, specified in `memory`) in front of a disk level whose files the
  caller reads and writes, with hit/miss/size statistics; `cache_laws`
  proves read-after-write, freshness, eviction, accounting and deletion
  properties over the outcomes the operations guarantee.
- `clock`, `hashing`, `entry`, `listing` — time stamps and the expiry rule,
  the MD5 file names of cache keys, the cached records, and the
  newest-first listing.
- `handler`, `proxy` — request routing (whitelist, tunnels, cache keys,
  which answers are cached), the CONNECT header reader and target parser.
- `config`, `management`, `certs` — settings and their once-only slot,
  the live-log filter and API answers, and the certificate authority: the
  requests its root and leaf certificates are made from, the `rcgen`
  parameters built from them field by field, the root's stored texts, and
  the per-domain TLS configurations, each with its leaf certificate and the
  chain signed by the root.

`app/` is the program around it: configuration loading, sockets, files,
the hyper proxy and the warp management server.
