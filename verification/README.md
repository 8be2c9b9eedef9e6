# zynsearch

A small local search engine with verified internals: text analysis, an
inverted index with conjunctive search, boolean and phrase queries, the
configuration and its overrides, the decisions of the REST front end,
length-prefixed framing, a memtable and the segments built from it.

- `src/` is the library. Every function there carries a contract that Verus
  proves; the few calls into std and into outside crates (stemming, stop
  words, JSON and base64 decoding, path splitting, the skip list) go through
  small trusted functions whose contracts say what is assumed of them.
  `src/properties.rs` states properties that span several operations, such
  as what a search finds after an ingestion or a deletion.
- `tests/` runs the library on concrete inputs.
- `app/` is the daemon around it: command-line and file configuration,
  crawling and reading files, S3 listing, the TCP and HTTP servers, the
  fan-out of a query over the partitions, and the output formats. No BM25
  scorer ships with it: each partition answers with its live documents that
  hold a query term (the library gathers the term statistics a ranking
  would read), every one scored 0.
