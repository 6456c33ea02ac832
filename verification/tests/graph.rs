use semantic_memory_mcp::audit::{
    check_as_of, finish_as_of, finish_dirty, finish_get_receipt, finish_import,
    finish_import_status, finish_list_imports, finish_projection, finish_reconcile,
    finish_reembed, finish_replay_receipt, finish_replay_stored, finish_stats, finish_vacuum,
    projection_limit, read_action, ReplayReport, SearchReceipt,
};
use semantic_memory_mcp::bridge::{BridgeConfig, EmbedderBackend};
use semantic_memory_mcp::facts::FactText;
use semantic_memory_mcp::feedback::{
    finish_get_policy, finish_record_outcome, read_outcome_label, OutcomeBatch, PolicyState,
    StoredPolicy, PERSIST_BATCH,
};
use semantic_memory_mcp::graph::{
    adjacency, edges_around, readable_edges, Community, EdgeKind, EdgeRecord, EdgeSelection,
};
use semantic_memory_mcp::graph_tools::{
    contradicting_pairs, edge_metadata, finish_add_edge, finish_community, finish_discord_search,
    finish_factor_graph, finish_invalidate_edge, finish_list_edges, finish_set_provenance,
    compression_advice, prune_subgraphs, read_summary, requested_edge, summary_request, topology,
    CompressionAdvice,
    EdgeDetails, FactorCounts, FactorGraphReport, FactorWeights, StoredEdge,
};
use semantic_memory_mcp::http_api::{
    finish_routed, routed_request, IntegrityReport, ReconcileAction, RoutingOutcome, StoreStats,
};
use semantic_memory_mcp::json::{parse_document, write_document, Json};
use semantic_memory_mcp::lifecycle::{
    analyze_items, describe_candidates, describe_communities, describe_conflicts,
    detect_communities, finish_lifecycle, run_lifecycle, usual_communities,
    CommunityConflict, DetectedCommunity, ItemAnalysis, SubtractionCandidate,
};
use semantic_memory_mcp::routing::{
    choose_resolution, default_route, describe_betti, result_communities, describe_grouping, describe_new_hits,
    describe_topology, finish_routed_search, query_complexity, route_reply, select_route, wants_communities,
    wants_topology, DiscordHit, FactorGraphOutcome, FactorGraphRun, QueryComplexityClass,
    RoutedFindings, RoutingDecision,
};
use semantic_memory_mcp::search::{HitSource, SearchHit};
use semantic_memory_mcp::second_order::{
    facts_named, hits_over_all, hits_over_readable, with_facts,
};
use semantic_memory_mcp::skills::{
    all_prompts, all_resource_templates, all_resources, get_prompt, read_resource,
};
use semantic_memory_mcp::tools::{EdgeType, ProjectionQueryParams};
use serde_json::Value;

fn value(document: &Json) -> Value {
    serde_json::from_str(&write_document(document)).unwrap()
}

fn number(text: &str) -> Json {
    Json::Decimal(text.to_string())
}

fn texts(items: &[&str]) -> Vec<String> {
    items.iter().map(|item| item.to_string()).collect()
}

fn pairs(items: &[(&str, &str)]) -> Vec<(String, String)> {
    items
        .iter()
        .map(|(a, b)| (a.to_string(), b.to_string()))
        .collect()
}

fn hit(id: &str) -> SearchHit {
    SearchHit {
        result_id: format!("fact:{id}"),
        content: format!("content of {id}"),
        score: number("0.5"),
        bm25_rank: Some(1),
        vector_rank: None,
        cosine_similarity: Json::Null,
        source: HitSource::Other,
        source_text: String::new(),
    }
}

#[test]
fn queries_are_routed_by_their_shape() {
    for query in [
        "rust",
        "compare rust vs python performance",
        "what changed since last week and why does it contradict the plan?",
    ] {
        let profile = semantic_memory::routing::QueryProfile::from_query(query);
        let expected = semantic_memory::routing::RetrievalRouter::default().route(&profile);
        let route = default_route(query);
        assert_eq!(route.bm25_coarse, expected.bm25_coarse);
        assert_eq!(route.vector_medium, expected.vector_medium);
        assert_eq!(route.rerank_fine, expected.rerank_fine);
        assert_eq!(route.graph_expansion, expected.graph_expansion);
        assert_eq!(route.decoder, expected.decoder);
        assert_eq!(route.discord, expected.discord);
        assert_eq!(route.no_retrieval, expected.no_retrieval);
        assert_eq!(route.reasoning, expected.reasoning);
    }
    let simple = default_route("rust");
    assert_eq!(query_complexity("rust"), QueryComplexityClass::Simple);
    let selected = select_route("rust", None);
    assert!(!selected.trained);
    assert_eq!(selected.decision.reasoning, simple.reasoning);
    let mut learned = default_route("rust");
    learned.decoder = !learned.decoder;
    let decoder = learned.decoder;
    let selected = select_route("rust", Some(learned));
    assert!(selected.trained);
    assert_eq!(selected.decision.decoder, decoder);
    let reply = value(&route_reply(&selected));
    assert!(reply.to_string().contains("reasoning"));
}

#[test]
fn topology_is_looked_at_for_broad_syntheses() {
    assert!(wants_topology(QueryComplexityClass::Synthesis, 11));
    assert!(!wants_topology(QueryComplexityClass::Synthesis, 10));
    assert!(!wants_topology(QueryComplexityClass::Simple, 11));
    assert_eq!(value(&describe_topology(false, &vec![]))["auto_called"], false);
    assert_eq!(
        value(&describe_topology(true, &vec![]))["note"],
        "no graph edges in store"
    );
    let square = pairs(&[("a", "b"), ("b", "c"), ("c", "d"), ("d", "a"), ("x", "y")]);
    let betti = value(&describe_betti(&square));
    assert_eq!(betti["betti_0"], 2);
    assert_eq!(betti["betti_1"], 1);
    let called = value(&describe_topology(true, &square));
    assert_eq!(called["betti_numbers"]["betti_0"], 2);
    assert!(wants_communities(true, &square));
    assert!(!wants_communities(true, &vec![]));
    assert!(!wants_communities(false, &square));
    assert!(value(&describe_grouping(false, &vec![], &None)).to_string().len() > 1);
}

fn discord_hit(id: &str) -> DiscordHit {
    DiscordHit {
        item_id: id.to_string(),
        discord_score: number("0.75"),
        anchor_ids: texts(&["fact:a"]),
        relationship_types: texts(&["entity"]),
        fact: None,
    }
}

#[test]
fn second_order_hits_are_new() {
    let hits = vec![discord_hit("fact:a"), discord_hit("fact:b")];
    let list = describe_new_hits(&hits, &texts(&["fact:a"]));
    assert_eq!(list.len(), 1);
    assert_eq!(value(&list[0])["result_id"], "fact:b");
}

fn decision(decoder: bool, discord: bool) -> RoutingDecision {
    RoutingDecision {
        bm25_coarse: true,
        vector_medium: true,
        rerank_fine: false,
        graph_expansion: false,
        decoder,
        discord,
        no_retrieval: false,
        reasoning: "because".to_string(),
    }
}

fn findings(decoder: bool, discord: bool) -> RoutedFindings {
    RoutedFindings {
        selected: select_route("q", Some(decision(decoder, discord))),
        factor_graph: FactorGraphOutcome::Ran(FactorGraphRun {
            top_beliefs: vec![("fact:a".to_string(), number("0.9"))],
            iterations: 3,
            converged: true,
            elapsed_ms: number("0.1"),
            semantic: 1,
            temporal: 0,
            causal: 0,
            entity: 2,
            total: 3,
        }),
        discord: Some(vec![discord_hit("fact:z")]),
        matryoshka: None,
        group_by_community: false,
        communities: None,
    }
}

#[test]
fn only_planned_stages_execute() {
    let hits = vec![hit("a"), hit("b")];
    let run = value(&finish_routed_search("q", &hits, &vec![1], 5, &findings(true, true), &vec![]));
    assert_eq!(run["count"], 1);
    assert_eq!(run["results"][0]["result_id"], "fact:b");
    assert_eq!(run["superseded_filtered_count"], 1);
    assert_eq!(run["decoder_planned"], true);
    assert_eq!(run["decoder_executed"], false);
    assert_eq!(run["factor_graph"]["enabled"], true);
    assert_eq!(run["discord_executed"], true);
    let idle = value(&finish_routed_search("q", &hits, &vec![0, 1], 5, &findings(false, false), &vec![]));
    assert_eq!(idle["count"], 2);
    assert_eq!(idle["decoder_executed"], false);
    assert_eq!(idle["discord_executed"], false);
}

#[test]
fn routed_requests_are_answered_with_their_stages() {
    let request = routed_request(
        r#"{"query":"q","query_class":"D","top_k":3,"group_by_community":true,"contradictions":[["a","b"]]}"#,
    )
    .ok()
    .unwrap();
    assert_eq!(request.base_top_k, 3);
    assert_eq!(request.top_k, 6);
    let mut found = findings(true, true);
    found.communities = Some(vec![Community {
        id: "c1".to_string(),
        members: texts(&["fact:a"]),
    }]);
    let reply = finish_routed(&request, &vec![hit("a"), hit("b")], &found);
    assert_eq!(reply.status.line(), "200 OK");
    let body = value(&reply.body);
    assert_eq!(body["top_k"], 3);
    assert_eq!(body["routed"], true);
    assert_eq!(body["results"][1]["source_type"], "unknown");
    assert_eq!(body["provenance"]["stages_fired"]["bm25"], true);
    assert_eq!(body["provenance"]["stages_fired"]["vector"], false);
    assert_eq!(body["provenance"]["verification_status"], "unverified");
    assert_eq!(body["decoder_executed"], true);
    assert_eq!(body["discord_results"][0]["result_id"], "fact:z");
    assert!(body["discord_results"][0].get("content").is_none());
    let hits = found.discord.take().unwrap();
    assert_eq!(facts_named(&hits), vec![Some("z".to_string())]);
    found.discord = Some(with_facts(
        &hits,
        &vec![Some(FactText {
            namespace: "notes".to_string(),
            content: "what z says".to_string(),
        })],
    ));
    let told = value(&finish_routed(&request, &vec![hit("a"), hit("b")], &found).body);
    assert_eq!(told["discord_results"][0]["content"], "what z says");
    assert_eq!(told["discord_results"][0]["namespace"], "notes");
    assert_eq!(facts_named(&vec![discord_hit("namespace:n")]), vec![None]);
    assert_eq!(body["factor_graph"]["top_k_beliefs"][0]["item_id"], "fact:a");
    assert_eq!(body["grouped_results"]["community_c1"][0]["result_id"], "fact:a");
    assert_eq!(body["grouped_results"]["ungrouped"][0]["result_id"], "fact:b");
    let idle = value(&finish_routed(&request, &vec![], &findings(false, false)).body);
    assert_eq!(idle["decoder_executed"], false);
    assert_eq!(idle["factor_graph"]["enabled"], false);
    assert_eq!(idle["grouped_results"], serde_json::Value::Null);
}

#[test]
fn risky_queries_are_looked_up_in_full() {
    let broad = choose_resolution("notes");
    assert_eq!(broad.embedding_dim, 768);
    assert_eq!(broad.candidate_dim, 64);
    assert_eq!(value(&broad.estimated_recall), 0.28867513459481287);
    let mut found = findings(false, false);
    found.matryoshka = Some(broad);
    let reply = value(&finish_routed_search("notes", &vec![], &vec![], 5, &found, &vec![]));
    assert_eq!(reply["matryoshka"]["enabled"], true);
    assert_eq!(reply["matryoshka"]["candidate_dim"], 64);
}

#[test]
fn neighborhoods_are_bounded() {
    match edges_around(&texts(&["fact:a"])) {
        EdgeSelection::Around { seeds, hops, nodes } => {
            assert_eq!(seeds, texts(&["fact:a"]));
            assert_eq!(hops, 2);
            assert_eq!(nodes, 200);
        }
        EdgeSelection::All => panic!("seeds were given"),
    }
    assert!(matches!(edges_around(&vec![]), EdgeSelection::All));
    let map = adjacency(&pairs(&[("a", "b"), ("b", "c")]));
    let of = |node: &str| map.iter().find(|(name, _)| name == node).unwrap().1.clone();
    assert_eq!(of("b"), texts(&["a", "c"]));
}

fn edge(source: &str, target: &str, kind: Option<EdgeKind>) -> EdgeRecord {
    EdgeRecord {
        source: source.to_string(),
        target: target.to_string(),
        kind,
        weight: number("1.0"),
        metadata: None,
    }
}

#[test]
fn edges_have_labels() {
    let causal = EdgeKind::Causal {
        confidence: number("0.5"),
        evidence_ids: texts(&["e1"]),
    };
    assert_eq!(causal.label(), "causal");
    assert_eq!(value(&causal.describe())["evidence_ids"][0], "e1");
    let temporal = EdgeKind::Temporal { delta_secs: 60 };
    assert_eq!(value(&temporal.describe())["delta_secs"], 60);
    assert_eq!(
        readable_edges(&vec![edge("a", "b", None), edge("a", "b", Some(temporal))]),
        vec![1]
    );
}

#[test]
fn requested_edges_take_their_details() {
    let details = EdgeDetails {
        cosine_similarity: None,
        delta_secs: Some(5),
        confidence: None,
        evidence_ids: None,
        relation: Some("cites".to_string()),
    };
    assert!(matches!(
        requested_edge(EdgeType::Entity, &details),
        EdgeKind::Entity { relation } if relation == "cites"
    ));
    assert!(matches!(
        requested_edge(EdgeType::Temporal, &details),
        EdgeKind::Temporal { delta_secs: 5 }
    ));
    assert!(edge_metadata(&None).ok().unwrap().is_none());
    assert!(edge_metadata(&Some("{".to_string())).is_err());
    assert!(edge_metadata(&Some(r#"{"a":1}"#.to_string())).ok().unwrap().is_some());
}

#[test]
fn edges_are_answered() {
    let stored = StoredEdge {
        id: "e1".to_string(),
        source: "fact:a".to_string(),
        target: "fact:b".to_string(),
        edge_type: "entity".to_string(),
        weight: number("1.0"),
        metadata: Json::Null,
        content_digest: Json::Null,
        recorded_at: "t0".to_string(),
    };
    let added = value(&finish_add_edge(&stored, Json::Null));
    assert_eq!(added["ok"], true);
    let listed = value(&finish_list_edges(&vec![stored]));
    assert_eq!(listed["edges"][0]["target"], "fact:b");
    assert_eq!(value(&finish_invalidate_edge("e1", Json::Null))["ok"], true);
    let provenance = value(&finish_set_provenance(
        Json::from_text("p1"),
        "fact:a",
        Json::from_text("Confidence"),
        Json::from_text("t0"),
    ));
    assert_eq!(provenance["item_id"], "fact:a");
}

#[test]
fn topology_counts_components_and_cycles() {
    let reply = value(&topology(&pairs(&[("a", "b"), ("b", "c"), ("c", "d"), ("d", "a")])));
    assert_eq!(reply["betti_numbers"]["betti_0"], 1);
    assert_eq!(reply["betti_numbers"]["betti_1"], 1);
    assert_eq!(reply["edges_loaded_from_store"], 4);
    assert_eq!(
        reply["void_count"].as_u64().unwrap() as usize,
        reply["voids"].as_array().unwrap().len()
    );
    assert!(reply["report"].is_string());
}

#[test]
fn graphs_without_edges_have_no_topology() {
    let reply = value(&topology(&vec![]));
    assert_eq!(reply["betti_numbers"]["betti_0"], 0);
    assert_eq!(reply["betti_numbers"]["betti_1"], 0);
    assert_eq!(reply["void_count"], 0);
    assert!(reply["voids"].as_array().unwrap().is_empty());
    assert_eq!(reply["edges_loaded_from_store"], 0);
}

#[test]
fn triangles_have_one_component_and_one_cycle() {
    let triangle = pairs(&[("a", "b"), ("b", "c"), ("c", "a")]);
    let reply = value(&topology(&triangle));
    assert_eq!(reply["betti_numbers"]["betti_0"], 1);
    assert_eq!(reply["betti_numbers"]["betti_1"], 1);
    assert_eq!(reply["void_count"], 0);

    let apart = pairs(&[("a", "b"), ("b", "c"), ("c", "a"), ("x", "y")]);
    let reply = value(&topology(&apart));
    assert_eq!(reply["betti_numbers"]["betti_0"], 2);
    assert_eq!(reply["betti_numbers"]["betti_1"], 1);
}

#[test]
fn gaps_are_found_between_nodes() {
    let reply = value(&topology(&pairs(&[("a", "b"), ("b", "a")])));
    assert_eq!(reply["void_count"], 3);
    let voids = reply["voids"].as_array().unwrap();
    let mut found: Vec<(String, String)> = voids
        .iter()
        .map(|v| {
            (
                v["void_type"].as_str().unwrap().to_string(),
                v["nearby_items"][0].as_str().unwrap().to_string(),
            )
        })
        .collect();
    found.sort();
    assert_eq!(
        found,
        pairs(&[("ContradictionGap", "a"), ("MissingContext", "a"), ("MissingContext", "b")])
    );
    assert!(reply["report"]
        .as_str()
        .unwrap()
        .starts_with("Topological void report: 3 void(s)\nMissingLink: 0\nMissingContext: 2\nContradictionGap: 1\n"));
}

#[test]
fn pruning_takes_connected_parts() {
    let edges = pairs(&[("b", "a"), ("d", "c"), ("c", "e")]);
    let reply = value(&prune_subgraphs(Some(false), None, &edges, &vec![], Json::Null));
    assert_eq!(reply["dry_run"], false);
    assert_eq!(reply["subgraphs_identified"], 2);
    assert_eq!(reply["subgraphs_pruned"], 2);
    let mut parts: Vec<(String, usize)> = reply["receipts"]
        .as_array()
        .unwrap()
        .iter()
        .map(|part| {
            let nodes = part["pruned_nodes"].as_array().unwrap();
            assert_eq!(part["subgraph_root"], nodes[0]);
            (nodes[0].as_str().unwrap().to_string(), nodes.len())
        })
        .collect();
    parts.sort();
    assert_eq!(parts, vec![("a".to_string(), 2), ("c".to_string(), 3)]);

    let one = value(&prune_subgraphs(Some(false), Some(1), &edges, &vec![], Json::Null));
    assert_eq!(one["subgraphs_pruned"], 1);
}

fn community(id: &str, members: &[&str]) -> DetectedCommunity {
    DetectedCommunity {
        id: id.to_string(),
        members: texts(members),
        level: 0,
        parent: None,
    }
}

#[test]
fn contradictions_are_found_inside_communities() {
    let communities = vec![community("c1", &["a", "b"]), community("c2", &["c"])];
    let contradicts = |a: &str, b: &str| {
        edge(
            a,
            b,
            Some(EdgeKind::Entity {
                relation: "contradicts".to_string(),
            }),
        )
    };
    let found = contradicting_pairs(&vec![contradicts("a", "b"), edge("a", "c", None)]);
    assert_eq!(found, pairs(&[("a", "b")]));
    let reply = value(&finish_community(
        &communities,
        &vec![Some("about a and b".to_string()), None],
        &pairs(&[("a", "b"), ("a", "c"), ("x", "y")]),
        &vec![CompressionAdvice {
            community_id: "c1".to_string(),
            quantization_level: "Q8".to_string(),
            reason: "small".to_string(),
        }],
        7,
    ));
    assert_eq!(reply["community_count"], 2);
    assert_eq!(reply["contradiction_count"], 1);
    assert_eq!(reply["contradictions"][0]["community_id"], "c1");
    assert_eq!(
        reply["contradictions"][0]["description"],
        "contradiction observed inside c1"
    );
    assert_eq!(reply["communities"][0]["summary"], "about a and b");
    assert!(reply["communities"][1]["summary"].is_null());
    assert_eq!(reply["edges_loaded_from_store"], 7);
}

#[test]
fn communities_are_summarized_by_a_model() {
    let request = value(&summary_request(&texts(&["one", "two"])).unwrap());
    assert_eq!(
        request["prompt"],
        "Summarize these related facts in 1-2 sentences:\none\n---\ntwo\nSummary:"
    );
    assert!(summary_request(&vec![]).is_none());
    assert_eq!(
        read_summary(&parse_document(r#"{"response":" short "}"#).unwrap()),
        Some("short".to_string())
    );
    assert_eq!(read_summary(&parse_document("{}").unwrap()), None);
}

#[test]
fn dry_runs_prune_nothing() {
    let edges = pairs(&[("a", "b"), ("c", "d")]);
    let reply = value(&prune_subgraphs(None, None, &edges, &vec![], Json::Null));
    assert_eq!(reply["dry_run"], true);
    assert_eq!(reply["subgraphs_pruned"], 0);
    assert!(reply["receipts"].as_array().unwrap().is_empty());
    assert!(reply["summary"].as_str().unwrap().ends_with(" 0 pruned"));
    assert_eq!(reply["subgraphs_identified"], 2);
}

#[test]
fn factor_graphs_are_answered() {
    let reply = value(&finish_factor_graph(&FactorGraphReport {
        node_beliefs: parse_document(r#"{"fact:a":0.5}"#).unwrap(),
        iterations: 4,
        converged: true,
        elapsed_ms: number("0.2"),
        edges_loaded: 3,
        counts: FactorCounts {
            semantic: 1,
            temporal: 1,
            causal: 0,
            entity: 1,
            total: 3,
        },
        weights: FactorWeights {
            semantic: number("1.0"),
            temporal: number("1.0"),
            causal: number("1.0"),
            entity: number("1.0"),
            self_influence: number("0.5"),
            max_iterations: 50,
            convergence_threshold: number("0.001"),
        },
    }));
    assert_eq!(reply["factor_counts"]["total"], 3);
    assert_eq!(reply["config"]["max_iterations"], 50);
    let discord = value(&finish_discord_search(&vec![discord_hit("fact:b")], 9));
    assert!(discord.to_string().contains("fact:b"));
}

fn analysis(keeps_f32: bool) -> ItemAnalysis {
    ItemAnalysis {
        syndromes: 1,
        corrections: 2,
        candidates: vec![SubtractionCandidate {
            item_id: "fact:a".to_string(),
            structuring_score: number("0.1"),
            operation_type: Json::from_text("Forget"),
            reason: "stale".to_string(),
        }],
        communities: vec![community("c1", &["a", "b"])],
        keeps_f32,
    }
}

#[test]
fn lifecycles_are_summed_up() {
    let reply = value(&finish_lifecycle(
        &texts(&["fact:a", "fact:b"]),
        &pairs(&[("a", "b")]),
        &analysis(true),
    ));
    assert_eq!(reply["items_analyzed"], 2);
    assert_eq!(reply["syndromes_detected"], 1);
    assert_eq!(reply["topology"]["enabled"], true);
    assert_eq!(reply["topology"]["betti_numbers"]["betti_0"], 1);
    assert!(reply["recompression_reason"].is_string());
    assert!(reply["summary"]
        .as_str()
        .unwrap()
        .starts_with("Analyzed 2 items: 1 syndromes, 2 corrections, 1 subtraction candidates"));
    let empty = value(&finish_lifecycle(&vec![], &vec![], &analysis(false)));
    assert_eq!(empty["topology"]["enabled"], false);
    assert_eq!(empty["topology"]["betti_numbers"]["betti_0"], 0);
    assert_eq!(
        value(&describe_candidates(&analysis(true).candidates))[0]["reason"],
        "stale"
    );
    assert_eq!(
        value(&describe_communities(&analysis(true).communities))[0]["member_count"],
        2
    );
    let conflict = CommunityConflict {
        community_id: "c1".to_string(),
        item_a: "a".to_string(),
        item_b: "b".to_string(),
        description: "d".to_string(),
    };
    assert_eq!(value(&describe_conflicts(&vec![conflict]))[0]["item_b"], "b");
}

#[test]
fn lifecycles_subtract_nothing() {
    let items = texts(&["a", "b", "b", "ref_z", "ref_a"]);
    let found = analyze_items(&items, &vec![]);
    // Three neighbours differ, and "ref_z" refers to an item that is missing.
    assert_eq!(found.syndromes, 4);
    assert_eq!(found.corrections, 15);
    assert!(found.candidates.is_empty());
    assert!(found.communities.is_empty());
    assert!(!found.keeps_f32);

    let many: Vec<String> = (0..31).map(|i| format!("fact:{i}")).collect();
    let found = analyze_items(&many, &vec![]);
    assert_eq!((found.syndromes, found.corrections), (30, 31));
    let more: Vec<String> = (0..51).map(|i| format!("fact:{i}")).collect();
    let found = analyze_items(&more, &vec![]);
    assert_eq!((found.syndromes, found.corrections), (50, 50));

    let reply = value(&run_lifecycle(&items, &pairs(&[("a", "b"), ("b", "c")])));
    assert_eq!(reply["items_analyzed"], 5);
    assert_eq!(reply["syndromes_detected"], 4);
    assert_eq!(reply["corrections_computed"], 15);
    assert_eq!(reply["recompression_triggered"], false);
    assert_eq!(reply["turbo_quantization_assessment"]["would_retain_f32"], 0);
    assert_eq!(reply["turbo_quantization_assessment"]["would_compress"], 5);
    assert_eq!(reply["subgraph_pruning_assessment"]["subgraph_count"], 1);
    assert!(reply["community_detection"]["community_count"].as_u64().unwrap() > 0);
}

#[test]
fn communities_are_detected() {
    let apart = pairs(&[("a", "b"), ("x", "y")]);
    let found = usual_communities(&apart);
    let mut members: Vec<Vec<String>> = found.iter().map(|c| c.members.clone()).collect();
    members.sort();
    assert_eq!(members, vec![texts(&["a", "b"]), texts(&["x", "y"])]);
    assert_eq!(found[0].id, "community_0");
    assert_eq!(found[0].level, 0);
    assert_eq!(found[0].parent, None);
    let again = detect_communities(&apart, "1.0", 42).unwrap();
    assert_eq!(again.len(), found.len());
    assert!(detect_communities(&apart, "much", 42).is_none());
    assert!(usual_communities(&vec![]).is_empty());

    let groups = result_communities(true, &apart).unwrap();
    assert_eq!(groups.len(), 2);
    assert_eq!(groups[1].members, found[1].members);
    assert!(result_communities(false, &apart).is_none());
    assert!(result_communities(true, &vec![]).is_none());
}

#[test]
fn communities_are_compressed_by_importance() {
    let found = vec![community("c1", &["a", "b"]), community("c2", &["z"])];
    let plain = compression_advice(&found, &vec![]).unwrap();
    assert_eq!(plain.len(), 2);
    assert_eq!(plain[0].community_id, "c1");
    assert_eq!(plain[0].quantization_level, "SQ8");
    assert_eq!(plain[0].reason, "default community encoding");
    assert_eq!(plain[1].quantization_level, "SQ4");
    assert_eq!(plain[1].reason, "isolated low-importance fact");
    let weighed = compression_advice(&found, &pairs(&[("z", "0.9"), ("a", "1.0"), ("b", "0.8")]));
    let weighed = weighed.unwrap();
    assert_eq!(weighed[0].reason, "tight high-importance community");
    assert_eq!(weighed[1].quantization_level, "F32");
    assert!(compression_advice(&found, &pairs(&[("z", "much")])).is_none());
}

#[test]
fn second_order_hits_are_scored() {
    let entity = || {
        Some(EdgeKind::Entity {
            relation: "r".to_string(),
        })
    };
    let edges = vec![edge("a", "n", entity()), edge("m", "b", None), edge("a", "b", entity())];
    let direct = texts(&["a", "b"]);
    let hits = hits_over_all(&direct, &edges).unwrap();
    let ids: Vec<&str> = hits.iter().map(|hit| hit.item_id.as_str()).collect();
    assert_eq!(ids, vec!["n", "m"]);
    assert_eq!(value(&hits[0].discord_score), 1.0);
    assert_eq!(value(&hits[1].discord_score), 0.5);
    assert_eq!(hits[0].anchor_ids, texts(&["a"]));
    assert_eq!(hits[1].relationship_types, texts(&["entity"]));
    let (readable, count) = hits_over_readable(&direct, &edges).unwrap();
    assert_eq!(readable.len(), 1);
    assert_eq!(count, 2);
    assert_eq!(value(&describe_new_hits(&hits, &direct)[1])["result_id"], "m");
    let heavy = EdgeRecord {
        weight: Json::Null,
        ..edge("a", "n", entity())
    };
    assert!(hits_over_all(&direct, &vec![heavy]).is_none());
    assert!(hits_over_all(&vec![], &edges).unwrap().is_empty());
}

#[test]
fn recompression_needs_more_than_a_tenth() {
    let items = |n: usize| (0..n).map(|i| format!("fact:{i}")).collect::<Vec<String>>();
    let tenth = value(&finish_lifecycle(&items(10), &vec![], &analysis(false)));
    assert_eq!(tenth["recompression_triggered"], false);
    assert_eq!(
        tenth["recompression_reason"],
        "subtraction below threshold — no recompression needed"
    );
    let more = value(&finish_lifecycle(&items(9), &vec![], &analysis(false)));
    assert_eq!(more["recompression_triggered"], true);
    assert!(more["summary"].as_str().unwrap().ends_with("recompression: needed"));
}

fn search_receipt(id: &str) -> SearchReceipt {
    SearchReceipt {
        receipt_id: id.to_string(),
        trace_id: Json::Null,
        search_profile: Json::from_text("default"),
        evaluation_time: Json::from_text("t0"),
        result_ids: texts(&["fact:a"]),
        query_embedding_digest: Json::Null,
        query_text_digest: Json::Null,
        query_input_digest: Json::Null,
        filter_digest: Json::Null,
        redaction_state: Json::Null,
        approximate: false,
        attempt_family_id: Json::Null,
        budget_id: Json::Null,
    }
}

#[test]
fn receipts_are_shown_and_replayed() {
    let found = value(&finish_get_receipt("r1", &Some(search_receipt("r1"))));
    assert_eq!(found["ok"], true);
    assert!(found.to_string().contains("fact:a"));
    let missing = value(&finish_get_receipt("r2", &None));
    assert_ne!(missing, found);
    let report = ReplayReport {
        receipt_id: "r1".to_string(),
        replay_receipt_id: Json::from_text("r2"),
        query_embedding_digest_matches: Json::Bool(true),
        result_ids_match: true,
        missing_result_ids: vec![],
        added_result_ids: texts(&["fact:b"]),
        original: search_receipt("r1"),
        replay: search_receipt("r2"),
    };
    let replayed = value(&finish_replay_receipt(&report));
    assert_eq!(replayed["result_ids_match"], true);
    assert_eq!(replayed["added_result_ids"][0], "fact:b");
    let stored = value(&finish_replay_stored(&report));
    assert_eq!(stored["query_embedding_digest_matches"], true);
}

#[test]
fn maintenance_is_answered() {
    for (name, action) in [
        ("report_only", ReconcileAction::ReportOnly),
        ("rebuild-fts", ReconcileAction::RebuildFts),
        ("reembed", ReconcileAction::ReEmbed),
    ] {
        assert_eq!(read_action(name).unwrap(), action);
    }
    assert_eq!(
        read_action("destroy").unwrap_err(),
        "action must be 'report_only', 'rebuild_fts', or 're_embed', got 'destroy'"
    );
    let report = IntegrityReport {
        ok: true,
        schema_version: 1,
        fact_count: 1,
        chunk_count: 0,
        message_count: 0,
        facts_missing_embeddings: 0,
        chunks_missing_embeddings: 0,
        issues: vec![],
    };
    assert_eq!(value(&finish_reconcile("ReportOnly", &report))["ok"], true);
    assert_eq!(value(&finish_vacuum(Json::Null))["ok"], true);
    assert!(write_document(&finish_reembed(12, Json::Null)).contains("12"));
    assert!(write_document(&finish_dirty(true)).contains("true"));
    assert!(write_document(&finish_import("e1", false, 3)).contains("e1"));
    assert!(write_document(&finish_import_status("e1", Json::from_list(vec![]), 0)).contains("e1"));
    assert!(write_document(&finish_list_imports(Json::from_list(vec![]), 0)).contains('0'));
    assert!(write_document(&finish_projection(Json::from_list(vec![]), 0)).contains('0'));
}

#[test]
fn partial_statistics_are_flagged() {
    let stats = || {
        Ok(StoreStats {
            facts: 3,
            documents: 2,
            chunks: 1,
            sessions: 0,
            messages: 0,
            database_bytes: 2_097_152,
            database_megabytes: number("2.0"),
            embedding_model: None,
            embedding_dimensions: Some(768),
        })
    };
    let whole = value(&finish_stats(&stats(), &Ok(4)));
    assert_eq!(whole["ok"], true);
    assert_eq!(whole["graph_edges"], 4);
    assert_eq!(whole["db_size_mb"], 2.0);
    let partial = value(&finish_stats(&stats(), &Err("locked".to_string())));
    assert_eq!(partial["ok"], false);
    assert_eq!(partial["facts"], 3);
    assert!(partial["graph_edges"].is_null());
    let none = value(&finish_stats(&Err("gone".to_string()), &Ok(1)));
    assert_eq!(none["ok"], false);
    assert!(none["facts"].is_null());
}

#[test]
fn dates_are_checked() {
    assert!(check_as_of("2026-01-01T00:00:00Z").is_ok());
    assert!(check_as_of("2026-01-01").is_err());
    assert!(check_as_of("yesterday").is_err());
    let reply = value(&finish_as_of("q", "2026-01-01T00:00:00Z", &vec![hit("a"), hit("b")], 1));
    assert_eq!(reply["count"], 1);
    assert_eq!(
        reply["message"],
        "Found 1 facts valid as of 2026-01-01T00:00:00Z"
    );
}

#[test]
fn projections_have_a_limit() {
    let mut params = ProjectionQueryParams {
        namespace: "ns".to_string(),
        domain: None,
        workspace_id: None,
        repo_id: None,
        text_query: None,
        valid_at: None,
        recorded_at_or_before: None,
        subject_entity_id: None,
        canonical_entity_id: None,
        claim_state: None,
        claim_id: None,
        claim_version_id: None,
        limit: None,
    };
    assert_eq!(projection_limit(&params), 10);
    params.limit = Some(3);
    assert_eq!(projection_limit(&params), 3);
}

#[test]
fn refused_outcomes_are_not_counted() {
    let mut batch = OutcomeBatch::new();
    let mut stored = 0;
    for label in ["good", "fine", "BAD", "neutral", ""].iter().cycle().take(50) {
        if read_outcome_label(label).is_err() {
            continue;
        }
        if batch.record() {
            stored += 1;
            batch.stored();
        }
    }
    assert_eq!(stored, 3);
    assert_eq!(batch.pending, 0);
}

#[test]
fn every_tenth_outcome_is_stored() {
    let mut batch = OutcomeBatch::new();
    for index in 0..2 * PERSIST_BATCH {
        let persist = batch.record();
        assert_eq!(persist, (index + 1) % PERSIST_BATCH == 0, "{index}");
        if persist {
            batch.stored();
        }
    }
    assert_eq!(batch.pending, 0);
}

#[test]
fn outcomes_are_answered() {
    assert_eq!(read_outcome_label("Bad").unwrap(), RoutingOutcome::Bad);
    assert_eq!(
        read_outcome_label("fine").unwrap_err(),
        "outcome must be 'good', 'bad', or 'neutral', got 'fine'"
    );
    let reply = value(&finish_record_outcome(
        "q",
        "good",
        &decision(false, false),
        &PolicyState {
            trained_examples: 3,
            baseline: number("0.5"),
            weights: Json::Null,
            last_updated: Json::Null,
            persisted: false,
            pending_outcomes: 3,
        },
        Json::Null,
    ));
    assert_eq!(reply["mutating"], true);
    assert_eq!(reply["feedback"]["kind"], "ProxyLabel");
    assert_eq!(reply["policy_state"]["pending_outcomes"], 3);
    let stored = value(&finish_get_policy(&Some(StoredPolicy {
        weights: Json::Null,
        trained_examples: 10,
        trained: true,
        last_updated: Json::from_text("t0"),
    })));
    assert_eq!(stored["policy"]["training_examples_count"], 10);
    assert_ne!(value(&finish_get_policy(&None)), stored);
}

#[test]
fn prompts_are_listed_and_filled_in() {
    let prompts = all_prompts();
    assert_eq!(prompts.len(), 6);
    for prompt in &prompts {
        let args: Vec<(String, String)> = prompt
            .arguments
            .iter()
            .filter(|argument| argument.required)
            .map(|argument| (argument.name.clone(), "given".to_string()))
            .collect();
        let filled = get_prompt(&prompt.name, &args).ok().unwrap();
        assert!(!filled.user.is_empty());
        assert!(filled.system.starts_with("You are a "));
        if !args.is_empty() {
            assert!(get_prompt(&prompt.name, &vec![]).is_err());
        }
    }
    assert_eq!(
        get_prompt("sm-nothing", &vec![]).err().unwrap(),
        "Unknown prompt: sm-nothing"
    );
}

#[test]
fn prompts_hold_their_arguments() {
    let args = |items: &[(&str, &str)]| pairs(items);
    let recall = get_prompt("sm-recall", &args(&[("query", "old"), ("query", "rust"), ("namespace", "ns")]))
        .ok()
        .unwrap();
    assert_eq!(recall.description, "Recall: rust");
    assert!(recall.user.starts_with(
        "## Recall request\n\nQuery: rust\nTop K: 5\n   - Namespace filter: ns\n\n## Steps\n\n1. Call `sm_search_witnessed` with query=\"rust\", top_k=5. Use namespaces=[\"ns\"]\n2. "
    ));
    assert!(recall.user.ends_with("`sm_decide_action_authority`."));
    let path = args(&[("topic", "a"), ("mode", "path")]);
    assert_eq!(
        get_prompt("sm-explore-graph", &path).err().unwrap(),
        "Missing required argument: second_topic for path mode"
    );
    let path = args(&[("topic", "a"), ("mode", "path"), ("second_topic", "b")]);
    let explored = get_prompt("sm-explore-graph", &path).ok().unwrap();
    assert!(explored.user.contains("2. `sm_search(\"b\")`"));
    let vacuum = get_prompt("sm-maintenance", &args(&[("action", "vacuum")])).ok().unwrap();
    assert_eq!(vacuum.description, "Maintenance: Vacuum the SQLite database");
    let audit = get_prompt("sm-audit", &args(&[("namespace", "ns")])).ok().unwrap();
    assert_eq!(audit.description, "Audit semantic memory: ns");
    assert!(audit.user.contains("each namespace, focusing on 'ns'."));
    assert_eq!(
        get_prompt("sm-capture-fact", &args(&[("content", "c")])).err().unwrap(),
        "Missing required argument: namespace"
    );
}

#[test]
fn documents_are_listed_and_read() {
    let resources = all_resources();
    assert_eq!(resources.len(), 8);
    for resource in &resources {
        assert_eq!(resource.mime_type, "text/markdown");
        assert!(read_resource(&resource.uri).unwrap().starts_with("# "));
    }
    assert_eq!(
        read_resource("sm://skill/authority-model").unwrap(),
        read_resource("sm://protocol/authority").unwrap()
    );
    assert_eq!(
        read_resource("sm://skill/none").unwrap_err(),
        "Unknown skill resource: none"
    );
    assert_eq!(
        read_resource("http://x").unwrap_err(),
        "Unknown resource URI: http://x"
    );
    assert_eq!(all_resource_templates()[0].uri, "sm://skill/{skill_name}");
}

#[test]
fn configurations_have_defaults() {
    let config = BridgeConfig::from_args("/m", EmbedderBackend::Mock, None, None, None, true, None, Some(32));
    assert_eq!(config.embedding_url, "http://localhost:11434");
    assert_eq!(config.embedding_model, "nomic-embed-text");
    assert_eq!(config.embedding_dims, 768);
    let settings = config.embedding_settings();
    assert_eq!(settings.batch_size, 32);
    assert_eq!(settings.timeout_secs, 60);
    assert_eq!(config.candidate_settings(8, 16), (true, 8, 32));
    let candle = BridgeConfig::from_args("/m", EmbedderBackend::Candle, None, None, None, false, None, None);
    assert_eq!(candle.embedding_settings().model, "nomic-ai/nomic-embed-text-v1.5");
    assert_eq!(candle.candidate_settings(8, 16).0, false);
}
