use semantic_memory_mcp::graph::{
    edge_pairs, find_community, group_results, superseded_targets, Community, EdgeKind, EdgeRecord,
};
use semantic_memory_mcp::json::{parse_document, write_document, Json};
use semantic_memory_mcp::search::{
    finish_search, finish_search_explained, query_allows_superseded, requested_count, result_ids,
    search_count, shown_results, current_results, HitSource, ScoreBreakdown, SearchHit,
};
use serde_json::Value;

fn value(document: &Json) -> Value {
    serde_json::from_str(&write_document(document)).unwrap()
}

fn hit(id: &str, content: &str) -> SearchHit {
    SearchHit {
        result_id: format!("fact:{id}"),
        content: content.to_string(),
        score: Json::Decimal("0.5".to_string()),
        bm25_rank: Some(1),
        vector_rank: None,
        cosine_similarity: Json::Decimal("0.25".to_string()),
        source: HitSource::Fact {
            fact_id: id.to_string(),
            namespace: "state".to_string(),
        },
        source_text: format!("Fact {{ {id} }}"),
    }
}

fn edge(source: &str, target: &str, relation: &str) -> EdgeRecord {
    EdgeRecord {
        source: format!("fact:{source}"),
        target: format!("fact:{target}"),
        kind: Some(EdgeKind::Entity {
            relation: relation.to_string(),
        }),
        weight: Json::Decimal("1.0".to_string()),
        metadata: None,
    }
}

#[test]
fn superseded_results_are_dropped_where_others_are_left() {
    let hits = vec![hit("old", "violet"), hit("new", "saffron")];
    let edges = vec![edge("new", "old", "supersedes")];
    let reply = value(&finish_search("runtime channel", &hits, &edges, 10));
    assert_eq!(reply["count"], 1);
    assert_eq!(reply["results"][0]["content"], "saffron");
    assert_eq!(reply["superseded_filtered_count"], 1);
    assert_eq!(reply["results"][0]["source"], "Fact { new }");

    let alone = value(&finish_search("runtime channel", &vec![hit("old", "violet")], &edges, 10));
    assert_eq!(alone["count"], 1);
    assert_eq!(alone["superseded_filtered_count"], 0);

    let history = value(&finish_search("History of the channel", &hits, &edges, 10));
    assert_eq!(history["count"], 2);

    let other = value(&finish_search("channel", &hits, &vec![edge("new", "old", "mentions")], 1));
    assert_eq!(other["count"], 1);
    assert_eq!(other["results"][0]["content"], "violet");
    assert_eq!(other["superseded_filtered_count"], 0);
}

#[test]
fn explained_searches_show_the_same_results() {
    let number = |text: &str| Json::Decimal(text.to_string());
    let scores = |rank: u64| ScoreBreakdown {
        rrf_score: number("0.1"),
        bm25_score: number("0.2"),
        vector_score: Json::Null,
        recency_score: Json::Null,
        bm25_rank: Some(rank),
        vector_rank: None,
        vector_source_rank: None,
        vector_source_score: Json::Null,
        bm25_contribution: number("0.3"),
        vector_contribution: Json::Null,
        vector_reranked_from_f32: false,
        bm25_weight: number("1.0"),
        vector_weight: number("1.0"),
        recency_weight: Json::Null,
        rrf_k: number("60.0"),
    };
    let reply = value(&finish_search_explained(
        "runtime channel",
        &vec![hit("old", "violet"), hit("new", "saffron")],
        &vec![scores(1), scores(2)],
        &vec![edge("new", "old", "supersedes")],
        10,
    ));
    assert_eq!(reply["count"], 1);
    assert_eq!(reply["results"][0]["content"], "saffron");
    assert_eq!(reply["results"][0]["breakdown"]["bm25_rank"], 2);
    assert_eq!(reply["results"][0]["breakdown"]["rrf_k"], 60.0);
}

#[test]
fn queries_may_ask_for_history() {
    for query in ["superseded facts", "STALE entries", "obsolete", "Historical", "old facts", "previous fact"] {
        assert!(query_allows_superseded(query), "{query}");
    }
    for query in ["current facts", "oldest", "previous"] {
        assert!(!query_allows_superseded(query), "{query}");
    }
    assert_eq!(requested_count(None, 5), 5);
    assert_eq!(requested_count(Some(7), 5), 7);
    assert_eq!(search_count(5, false), 20);
    assert_eq!(search_count(6, false), 24);
    assert_eq!(search_count(6, true), 6);
}

#[test]
fn shown_results_keep_their_order() {
    let hits = vec![hit("a", "1"), hit("b", "2"), hit("c", "3")];
    assert_eq!(result_ids(&hits), vec!["fact:a", "fact:b", "fact:c"]);
    assert_eq!(shown_results(&hits, &vec!["fact:b".to_string()], false), vec![0, 2]);
    assert_eq!(shown_results(&hits, &vec!["fact:b".to_string()], true), vec![0, 1, 2]);
}

#[test]
fn routed_results_are_current() {
    let hits = vec![hit("a", "1"), hit("b", "2")];
    let edges = vec![edge("c", "b", "supersedes")];
    assert_eq!(current_results("plain", &hits, &edges), vec![0]);
    assert_eq!(current_results("old facts", &hits, &edges), vec![0, 1]);
    assert_eq!(current_results("plain", &hits, &vec![]), vec![0, 1]);
    let all = vec![edge("c", "a", "supersedes"), edge("c", "b", "supersedes")];
    assert!(current_results("plain", &hits, &all).is_empty());
    assert_eq!(shown_results(&hits, &superseded_targets(&all), false), vec![0, 1]);
}

#[test]
fn only_supersession_edges_supersede() {
    let mut unreadable = edge("x", "y", "supersedes");
    unreadable.kind = None;
    let semantic = EdgeRecord {
        kind: Some(EdgeKind::Semantic {
            cosine_similarity: Json::Null,
        }),
        ..edge("p", "q", "")
    };
    let edges = vec![edge("a", "b", "supersedes"), edge("c", "d", "cites"), unreadable, semantic];
    assert_eq!(superseded_targets(&edges), vec!["fact:b"]);
    assert_eq!(edges[0].label_or_entity(), "entity");
    assert_eq!(edge_pairs(&edges)[1], ("fact:c".to_string(), "fact:d".to_string()));
}

#[test]
fn results_are_grouped_by_community() {
    let communities = vec![
        Community {
            id: "c1".to_string(),
            members: vec!["fact:a".to_string(), "fact:b".to_string()],
        },
        Community {
            id: "c2".to_string(),
            members: vec!["fact:c".to_string()],
        },
    ];
    assert_eq!(find_community(&communities, "fact:c"), Some("c2".to_string()));
    assert_eq!(find_community(&communities, "fact:z"), None);
    let results: Vec<Json> = ["a", "c", "z", "b"]
        .iter()
        .map(|id| parse_document(&format!(r#"{{"result_id":"fact:{id}"}}"#)).unwrap())
        .collect();
    let text = write_document(&group_results(&results, &communities));
    for part in ["c1", "c2", "fact:z"] {
        assert!(text.contains(part), "{part}");
    }
}
