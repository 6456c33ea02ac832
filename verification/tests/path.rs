use semantic_memory_mcp::graph::{
    build_path_segments, graph_path_reply, EdgeKind, PathEdge,
};
use semantic_memory_mcp::json::{write_document, Json};
use semantic_memory_mcp::path::{
    typed_graph_path, Expansion, GraphLink, GraphPathOutcome, PathStep,
};
use serde_json::Value;

fn value(document: &Json) -> Value {
    serde_json::from_str(&write_document(document)).unwrap()
}

/// A graph of undirected edges, read node by node.
struct TestGraph(Vec<(String, String)>);

impl TestGraph {
    fn of(edges: &[(&str, &str)]) -> TestGraph {
        TestGraph(
            edges
                .iter()
                .map(|(a, b)| (a.to_string(), b.to_string()))
                .collect(),
        )
    }

    fn expansion(&self, node: &str) -> Expansion {
        let links = self
            .0
            .iter()
            .filter(|(a, b)| a == node || b == node)
            .map(|(a, b)| GraphLink {
                source: a.clone(),
                target: b.clone(),
            })
            .collect();
        Expansion {
            node: node.to_string(),
            links,
        }
    }

    fn search(&self, from: &str, to: &str, max_depth: usize) -> GraphPathOutcome {
        let mut known: Vec<Expansion> = Vec::new();
        loop {
            match typed_graph_path(&known, from, to, max_depth) {
                PathStep::Done(outcome) => return outcome,
                PathStep::Expand(node) => {
                    assert!(known.iter().all(|expansion| expansion.node != node));
                    known.push(self.expansion(&node));
                }
            }
        }
    }
}

fn path_of(nodes: &[&str]) -> GraphPathOutcome {
    GraphPathOutcome::Found(nodes.iter().map(|node| node.to_string()).collect())
}

#[test]
fn graph_path_outcomes_do_not_conflate_exhaustion_and_budget() {
    let graph = TestGraph::of(&[("a", "b"), ("b", "c"), ("x", "y")]);
    assert_eq!(graph.search("a", "c", 2), path_of(&["a", "b", "c"]));
    assert_eq!(graph.search("a", "c", 1), GraphPathOutcome::BudgetExceeded);
    assert_eq!(
        graph.search("a", "x", 5),
        GraphPathOutcome::NoPathWithinCompleteSearch
    );
    assert_eq!(
        graph.search("missing", "x", 5),
        GraphPathOutcome::InvalidEndpoint("missing".into())
    );
}

#[test]
fn found_paths_are_shortest() {
    let graph = TestGraph::of(&[
        ("a", "b"),
        ("b", "c"),
        ("c", "d"),
        ("a", "e"),
        ("e", "d"),
        ("d", "f"),
    ]);
    assert_eq!(graph.search("a", "d", 5), path_of(&["a", "e", "d"]));
    assert_eq!(graph.search("f", "a", 5), path_of(&["f", "d", "e", "a"]));
    assert_eq!(graph.search("a", "a", 0), path_of(&["a"]));
    assert_eq!(
        graph.search("a", "nowhere", 5),
        GraphPathOutcome::InvalidEndpoint("nowhere".into())
    );
}

#[test]
fn wide_graphs_exceed_the_node_budget() {
    let star: Vec<(String, String)> = (0..600)
        .map(|i| ("hub".to_string(), format!("leaf{i}")))
        .chain([("far".to_string(), "end".to_string())])
        .collect();
    let graph = TestGraph(star);
    assert_eq!(graph.search("hub", "end", 5), GraphPathOutcome::BudgetExceeded);
    assert_eq!(graph.search("hub", "leaf400", 5), path_of(&["hub", "leaf400"]));
    assert_eq!(graph.search("hub", "leaf550", 5), GraphPathOutcome::BudgetExceeded);
}

#[test]
fn nothing_is_asked_for_beyond_the_node_budget() {
    let chain: Vec<(String, String)> = (0..700)
        .map(|i| (format!("n{i}"), format!("n{}", i + 1)))
        .collect();
    let graph = TestGraph(chain);
    let mut known: Vec<Expansion> = Vec::new();
    let outcome = loop {
        match typed_graph_path(&known, "n0", "n700", 1000) {
            PathStep::Done(outcome) => break outcome,
            PathStep::Expand(node) => known.push(graph.expansion(&node)),
        }
    };
    assert_eq!(outcome, GraphPathOutcome::BudgetExceeded);
    assert_eq!(known.len(), 500);
    assert_eq!(
        graph.search("n0", "n3", 2),
        GraphPathOutcome::BudgetExceeded
    );
    let (here, there) = (TestGraph::of(&[("a", "b"), ("x", "y")]), ("a", "x"));
    assert_eq!(
        here.search(there.0, there.1, 1),
        GraphPathOutcome::NoPathWithinCompleteSearch
    );
    assert_eq!(here.search(there.0, there.1, 0), GraphPathOutcome::BudgetExceeded);
}

#[test]
fn segments_carry_the_connecting_edge() {
    let edge = |source: &str, target: &str, relation: &str| PathEdge {
        source: source.to_string(),
        target: target.to_string(),
        kind: EdgeKind::Entity {
            relation: relation.to_string(),
        },
        weight: Json::Decimal("1.0".to_string()),
        metadata: Json::Null,
    };
    let path = vec!["a".to_string(), "b".to_string(), "c".to_string()];
    let edges = vec![
        Some(vec![edge("a", "z", "other"), edge("b", "a", "first"), edge("a", "b", "second")]),
        None,
    ];
    let segments = build_path_segments(&path, &edges);
    assert_eq!(segments.len(), 2);
    let first = value(&segments[0]);
    assert_eq!(first["source"], "a");
    assert_eq!(first["target"], "b");
    assert_eq!(first["edge_type"]["type"], "entity");
    assert_eq!(first["edge_type"]["relation"], "first");
    assert_eq!(first["weight"], 1.0);
    let second = value(&segments[1]);
    assert!(second["edge_type"].is_null());
    assert!(second["weight"].is_null());
    assert!(build_path_segments(&vec!["a".to_string()], &vec![]).is_empty());
}

#[test]
fn path_replies_name_the_outcome() {
    let found = value(&graph_path_reply(
        &path_of(&["a", "b"]),
        "a",
        "b",
        5,
        vec![Json::Null],
    ));
    assert_eq!(found["ok"], true);
    assert_eq!(found["path"][1], "b");
    let texts: Vec<String> = [
        GraphPathOutcome::NoPathWithinCompleteSearch,
        GraphPathOutcome::BudgetExceeded,
        GraphPathOutcome::InvalidEndpoint("a".to_string()),
    ]
    .iter()
    .map(|outcome| write_document(&graph_path_reply(outcome, "a", "b", 5, vec![])))
    .collect();
    assert_ne!(texts[0], texts[1]);
    assert_ne!(texts[1], texts[2]);
}
