use semantic_memory_mcp::bridge::EmbedderBackend;
use semantic_memory_mcp::rerank::{
    rerank_candidate_limit, truncate_rerank_content, MAX_RERANK_CONTENT_BYTES, MAX_RERANK_RESULTS,
};

#[test]
fn bridge_rejects_unknown_embedder_string() {
    let result: Result<EmbedderBackend, _> = "garbage".parse();
    assert!(result.is_err());
}

#[test]
fn bridge_parses_embedder_variants() {
    assert_eq!("candle".parse::<EmbedderBackend>().unwrap(), EmbedderBackend::Candle);
    assert_eq!("CANDLE".parse::<EmbedderBackend>().unwrap(), EmbedderBackend::Candle);
    assert_eq!("ollama".parse::<EmbedderBackend>().unwrap(), EmbedderBackend::Ollama);
    assert_eq!("mock".parse::<EmbedderBackend>().unwrap(), EmbedderBackend::Mock);
}

#[test]
fn rerank_limits_use_utf8_bytes_and_bound_search_candidates() {
    let content = "🦀".repeat(MAX_RERANK_CONTENT_BYTES);
    let truncated = truncate_rerank_content(&content);
    assert!(truncated.len() <= MAX_RERANK_CONTENT_BYTES);
    assert!(truncated.is_char_boundary(truncated.len()));

    assert_eq!(rerank_candidate_limit(1), 2);
    assert_eq!(rerank_candidate_limit(100), MAX_RERANK_RESULTS);
}
