# semantic-memory-mcp

An MCP server for the `semantic-memory` knowledge store: hybrid search with
durable receipts, a typed knowledge graph, a hash-chained claim ledger that
backs the trust of search results, and routing that learns from feedback.

The library under `src/` holds what the server decides, verified with Verus:
which tools a profile shows, which HTTP requests are admitted and where they
go, what a search shows and in which order, how the graph is walked, what the
claim ledger accepts and how it is compacted, and the documents of the
replies. What chance, the time or the walk of a hash map decides is left open
there, as is the working of the outside crates. A tool is split around its work on the store: a function that plans or
checks a request, and one that turns what the store gave back into the reply.

The program under `app/` does the rest: command line, sockets, files, the
store and the local model, and the analyses that compute in floating point.

| Module | Subject |
| --- | --- |
| `profile`, `server`, `tools`, `skills` | tool profiles, the catalogue, parameters, prompts and resources |
| `http`, `http_api`, `http_writes`, `rerank` | request heads, admission, routing of requests, replies, reranking |
| `search`, `witness`, `routing`, `second_order`, `conversations` | searches and their replies |
| `facts`, `admission`, `governed` | facts, what may be stored, governed decisions |
| `graph`, `path`, `graph_tools`, `auto_edges`, `lifecycle` | edges, shortest paths, communities, gaps, maintenance |
| `trust`, `trigrams`, `ledger`, `ledger_store`, `claims`, `contradictions` | the claim ledger and the trust that follows from it |
| `feedback`, `audit`, `parsing`, `bridge`, `receipts` | routing feedback, receipts, model output, configuration |
| `json`, `text`, `skill_texts` | documents and texts |

What is taken from outside crates without proof is marked
`#[verifier::external_body]`, each with a comment that names the outside
function and says what is claimed of it.
