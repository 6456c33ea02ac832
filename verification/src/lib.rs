//! Decision core of the semantic-memory MCP server.
pub mod admission;
pub mod audit;
pub mod auto_edges;
pub mod bridge;
pub mod claims;
pub mod contradictions;
pub mod conversations;
pub mod facts;
pub mod feedback;
pub mod governed;
pub mod graph;
pub mod graph_tools;
pub mod http;
pub mod http_api;
pub mod http_writes;
pub mod json;
pub mod ledger;
pub mod ledger_store;
pub mod lifecycle;
pub mod parsing;
pub mod path;
pub mod profile;
pub mod receipts;
pub mod rerank;
pub mod routing;
pub mod search;
pub mod second_order;
pub mod server;
pub mod skill_texts;
pub mod skills;
pub mod text;
pub mod tools;
pub mod trigrams;
pub mod trust;
pub mod witness;
