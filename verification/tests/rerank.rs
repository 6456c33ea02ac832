use semantic_memory_mcp::json::{parse_document, write_document, Json};
use semantic_memory_mcp::rerank::{
    apply_ratings, rating_of, rerank_request, truncate_rerank_content, RerankStatus, RERANK_MODEL,
};
use serde_json::Value;

fn documents(texts: &[&str]) -> Vec<Json> {
    texts.iter().map(|text| parse_document(text).unwrap()).collect()
}

fn values(items: &[Json]) -> Vec<Value> {
    items
        .iter()
        .map(|item| serde_json::from_str(&write_document(item)).unwrap())
        .collect()
}

#[test]
fn rerank_failure_preserves_original_order_and_scores() {
    let results = documents(&[
        r#"{"result_id": "fact:first", "score": 0.9, "content": "first"}"#,
        r#"{"result_id": "fact:second", "score": 0.8, "content": "second"}"#,
    ]);
    let (reranked, status) = apply_ratings(&results, &vec![None, None]);

    assert_eq!(status.name(), "degraded");
    assert_eq!(values(&reranked), values(&results));
    assert!(values(&reranked)
        .iter()
        .all(|result| result.get("rerank_score").is_none()));
}

#[test]
fn ratings_sort_descending_and_keep_ties_in_order() {
    let results = documents(&[
        r#"{"id":"a"}"#,
        r#"{"id":"b"}"#,
        r#"{"id":"c"}"#,
        r#"{"id":"d"}"#,
    ]);
    let (sorted, status) = apply_ratings(&results, &vec![Some(2), Some(5), Some(2), Some(3)]);
    assert_eq!(status, RerankStatus::Applied);
    let ids: Vec<String> = values(&sorted)
        .iter()
        .map(|result| result["id"].as_str().unwrap().to_string())
        .collect();
    assert_eq!(ids, ["b", "d", "a", "c"]);
    assert_eq!(values(&sorted)[0]["rerank_score"], 5.0);
    assert!(matches!(sorted[0].get("rerank_score"), Some(Json::Decimal(score)) if score == "5.0"));
}

#[test]
fn one_missing_rating_degrades_all() {
    let results = documents(&[r#"{"id":"a"}"#, r#"{"id":"b"}"#]);
    for ratings in [vec![Some(1), None], vec![None, Some(5)]] {
        let (kept, status) = apply_ratings(&results, &ratings);
        assert_eq!(status, RerankStatus::Degraded);
        assert_eq!(values(&kept), values(&results));
    }
}

#[test]
fn ratings_are_read_from_the_first_character() {
    let rating = |reply: &str| rating_of(&parse_document(reply).unwrap());
    assert_eq!(rating(r#"{"response":" 4 of 5"}"#), Some(4));
    assert_eq!(rating(r#"{"response":"1"}"#), Some(1));
    assert_eq!(rating(r#"{"response":"5"}"#), Some(5));
    for bad in [
        r#"{"response":"0"}"#,
        r#"{"response":"6"}"#,
        r#"{"response":"five"}"#,
        r#"{"response":""}"#,
        r#"{"response":4}"#,
        r#"{}"#,
    ] {
        assert_eq!(rating(bad), None, "{bad}");
    }
}

#[test]
fn rating_prompts_hold_query_and_document() {
    let result = parse_document(r#"{"content":"a document"}"#).unwrap();
    let request: Value =
        serde_json::from_str(&write_document(&rerank_request("a query", &result, RERANK_MODEL)))
            .unwrap();
    assert_eq!(request["model"], "granite4.1:3b");
    assert_eq!(
        request["prompt"],
        "Rate the relevance of this document to the query on a scale of 1-5. Reply with ONLY the number.\nQuery: a query\nDocument: a document\nRating:"
    );
    assert_eq!(request["stream"], false);
    assert_eq!(request["options"]["temperature"], 0);
    assert_eq!(request["options"]["num_predict"], 1);
}

#[test]
fn rated_content_is_cut_between_characters() {
    assert_eq!(truncate_rerank_content("short"), "short");
    assert_eq!(truncate_rerank_content(&"é".repeat(1000)).len(), 2000);
    assert_eq!(truncate_rerank_content(&"é".repeat(1001)).len(), 2000);
    assert_eq!(truncate_rerank_content(&format!("a{}", "é".repeat(1000))).len(), 1999);
}
