use semantic_memory_mcp::json::{write_document, Json};
use semantic_memory_mcp::ledger_store::ClaimLedgerStore;
use semantic_memory_mcp::profile::{EffectClass, ToolProfile};
use semantic_memory_mcp::server::{structured_output, SemanticMemoryServer};

fn empty_ledger() -> ClaimLedgerStore {
    let path = "claim_ledger.jsonl";
    ClaimLedgerStore::open(ClaimLedgerStore::open_file(Ok(None), path), path)
}

fn open_server(profile: &str) -> SemanticMemoryServer {
    SemanticMemoryServer::new(empty_ledger(), profile).expect("a known profile")
}

#[test]
fn agent_profile_is_bounded_read_only_until_trusted_issuer_is_injected() {
    let server = open_server("agent");
    assert_eq!(
        server.exposed_tool_names(),
        vec![
            "sm_decide_action_authority",
            "sm_decide_assertion_authority",
            "sm_get_fact",
            "sm_get_fact_neighbors",
            "sm_get_search_receipt",
            "sm_graph_path",
            "sm_list_namespaces",
            "sm_replay_search",
            "sm_search_conversations",
            "sm_search_witnessed",
            "sm_stats",
        ]
    );
    for forbidden in [
        "sm_add_fact",
        "sm_add_graph_edge",
        "sm_set_provenance",
        "sm_supersede_fact",
        "sm_update_fact",
        "sm_delete_fact",
        "sm_delete_namespace",
        "sm_import_envelope",
        "sm_reembed_all",
        "sm_reconcile",
        "sm_run_lifecycle",
        "sm_search",
        "sm_search_with_routing",
        "sm_vacuum",
    ] {
        assert!(!server.exposes_tool(forbidden), "agent exposed {forbidden}");
    }
}

#[test]
fn routing_feedback_is_declared_mutating() {
    let server = open_server("full");
    let annotations = server
        .tool_annotations("sm_record_outcome")
        .expect("record outcome metadata");
    assert_eq!(annotations.read_only, Some(false));
    assert_eq!(annotations.destructive, Some(false));
}

#[test]
fn standard_is_exactly_the_lean_alias() {
    assert_eq!(
        open_server("lean").exposed_tool_names(),
        open_server("standard").exposed_tool_names()
    );
}

#[test]
fn stable_router_is_exact_and_schema_backed() {
    let server = SemanticMemoryServer::stable(empty_ledger(), "stable").expect("the stable profile");
    let expected = [
        "sm_search",
        "sm_search_witnessed",
        "sm_stats",
        "sm_list_namespaces",
        "sm_get_fact",
        "sm_get_fact_neighbors",
        "sm_graph_path",
        "sm_search_conversations",
        "sm_add_fact",
        "sm_supersede_fact",
        "sm_add_graph_edge",
        "sm_decide_assertion_authority",
        "sm_decide_action_authority",
    ];
    let tools = server.exposed_tool_names();
    assert_eq!(tools.len(), expected.len());
    for tool in tools {
        assert!(expected.contains(&tool.as_str()));
    }
    for forbidden in [
        "sm_delete_fact",
        "sm_route_query",
        "sm_create_claim",
        "sm_parse_json",
    ] {
        assert!(!server.exposes_tool(forbidden));
    }
    for reply in [Json::Null, Json::from_text("x"), Json::from_list(vec![])] {
        assert!(matches!(structured_output(reply), Json::Object(_)));
    }
}

#[test]
fn stable_build_takes_no_other_profile() {
    assert!(SemanticMemoryServer::stable(empty_ledger(), "full").is_none());
    assert!(SemanticMemoryServer::stable(empty_ledger(), "stable ").is_none());
}

#[test]
fn server_constructs_with_claim_integration() {
    let server = open_server("full");
    assert!(server.trust.is_enabled());
    assert!(server.ledger.trust_enabled);
}

#[test]
fn full_profile_allows_all_tools() {
    let server = open_server("full");
    let names = server.exposed_tool_names();
    assert_eq!(names.len(), 67);
    for name in names {
        assert!(server.exposes_tool(&name));
        assert!(server.tool_annotations(&name).is_some());
    }
}

#[test]
fn standard_profile_hides_admin_tools() {
    let server = open_server("standard");
    assert!(!server.exposes_tool("sm_vacuum"));
    assert!(!server.exposes_tool("sm_delete_namespace"));
}

#[test]
fn lean_profile_hides_all_admin_tools() {
    let server = open_server("lean");
    assert!(!server.exposes_tool("sm_vacuum"));
    assert!(!server.exposes_tool("sm_reembed_all"));
    assert!(server.tool_annotations("sm_vacuum").is_none());
}

#[test]
fn server_constructs_with_orchestration() {
    assert_eq!(open_server("full").profile, ToolProfile::Full);
}

#[test]
fn server_constructs_with_orchestration_lean() {
    assert_eq!(open_server("lean").profile, ToolProfile::Lean);
}

#[test]
fn server_constructs_with_orchestration_standard() {
    assert_eq!(open_server("standard").profile, ToolProfile::Standard);
}

#[test]
fn unknown_profiles_give_no_server() {
    for name in ["", "FULL", "operator", "lean,full"] {
        assert!(SemanticMemoryServer::new(empty_ledger(), name).is_none(), "{name}");
    }
}

#[test]
fn tools_are_listed_in_alphabetical_order() {
    for profile in ["stable", "lean", "standard", "agent", "full"] {
        let names = open_server(profile).exposed_tool_names();
        let mut sorted = names.clone();
        sorted.sort();
        sorted.dedup();
        assert_eq!(names, sorted, "{profile}");
    }
}

#[test]
fn unknown_tools_are_not_shown() {
    let server = open_server("full");
    assert!(!server.exposes_tool("sm_create_session"));
    assert!(server.exposes_tool("sm_search_explained"));
    assert!(!open_server("agent").exposes_tool("sm_search_explained"));
    assert!(server.tool_annotations("sm_nothing").is_none());
}

#[test]
fn bounded_profiles_show_only_reads() {
    for profile in [ToolProfile::Lean, ToolProfile::Standard, ToolProfile::Agent] {
        for grant in profile.manifest().unwrap() {
            assert_eq!(
                profile.exposes(grant.name),
                grant.effect == EffectClass::Read,
                "{}",
                grant.name
            );
        }
    }
    assert!(ToolProfile::Full.manifest().is_none());
    assert_eq!(ToolProfile::from_name("agent"), Some(ToolProfile::Agent));
    assert_eq!(ToolProfile::Agent.name(), "agent");
}

#[test]
fn structured_replies_have_an_object_at_the_root() {
    let wrapped = structured_output(Json::from_texts(&vec!["a".to_string()]));
    assert_eq!(write_document(&wrapped), r#"{"value":["a"]}"#);
    let object = Json::Object(vec![("ok".to_string(), Json::Bool(true))]);
    assert_eq!(write_document(&structured_output(object)), r#"{"ok":true}"#);
}

#[test]
fn trust_is_rebuilt_from_the_ledger() {
    let mut server = open_server("full");
    server.trust.disable();
    assert!(!server.trust.is_enabled());
    server.rebuild_trust();
    assert!(server.trust.is_enabled());
    assert!(server.exposes_tool("sm_compact_claim_ledger"));
}
