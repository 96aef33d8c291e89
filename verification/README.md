# mem_agent

A persistent memory store for coding agents, verified with Verus.

The library (`src/`) holds the logic, each function with a contract that
Verus proves:

- `text`: tokenizing, stopwords, search snippets, and the term counts behind
  BM25 scoring;
- `db`: escaping FTS5 queries, the migrations a schema needs, statistics;
- `search`: search modes and scopes, routing a query, reranking results by
  scope and recency, the ranks that reciprocal-rank fusion gives the
  documents of two result lists (the fused scores and their order are
  floating point, in `app/`), and the report texts;
- `vector`: the in-memory vector store;
- `persist`: the layout of the vector file;
- `embed`: encoding texts into token ids (the vocabulary is the loaded
  tokenizer's), batching texts and padding token rows for the embedding model;
- `observer`: the observer's prompts and requests, reading its replies and
  the opencode key, its XML replies, the fallback classifier, and the
  memories it records;
- `mcp`: the Model Context Protocol methods and tools, their arguments and
  their answers;
- `cli`, `types`, `simulation`: the command line's values, the stored
  records, and sample memories.

`app/` is the program around it: the SQLite database, the embedding model,
the HTTP calls, floating-point scoring, the MCP server loop and the command
line.
