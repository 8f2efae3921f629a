# meliclaw_intent_router

Layer-1 intent classifier of the Meliclaw platform: it maps a user query to
one of a set of routes (factual, temporal, preference, …) by comparing its
embedding with the embeddings of each route's example utterances.

## Layout

- `src/` — the library, verified with Verus. It holds everything that decides
  something without floating point or I/O:
  - `encoder/` — the embedding-model catalog (ids, aliases, native widths),
    the configuration, URLs, request framing and answer checks of the
    OpenAI-compatible, Ollama and ONNX encoders, and the integer side of the
    hashing, BM25 and TF-IDF encoders (tokens, buckets, vocabularies, counts);
  - `index/` — the in-memory indexes' records and pre-scoring checks, the
    Postgres statements and row selection, the Qdrant URLs and status rules;
  - `router/` — route tables and thresholds, hit grouping, and which scored
    routes pass;
  - `sync.rs` — the local/remote utterance sync plan;
  - `config.rs` — configuration defaults, file formats and fingerprint;
  - `cli/` — the embeddings probe's model allowlist and input rules.
- `tests/` — tests of the library.
- `app/` — the programs: the embeddings probe and the HTTP routing service,
  with the HTTP, database and file I/O, the async encoder and index
  interfaces, and the floating-point scoring.
