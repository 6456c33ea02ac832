use semantic_memory_mcp::admission::{
    appended_fact, check_admission, check_admission_as, entity_request, evidence_digests,
    finish_add_fact, named_entities, read_entities, FactOrigin,
};
use semantic_memory_mcp::conversations::{
    finish_add_message, finish_create_session, finish_get_messages, finish_list_sessions,
    finish_search_conversations, read_role, role_of_name, session_metadata, MessageRecord,
    MessageRole, SessionRecord,
};
use semantic_memory_mcp::facts::{
    finish_consolidation, finish_delete_namespace, finish_forgetting, finish_get_fact,
    finish_ingest_document, finish_list_facts, finish_list_namespaces, finish_neighbors,
    finish_supersession, finish_update_fact, merge_contents, neighbor_of, node_of_fact,
    node_of_item, plan_consolidation, plan_forgetting, plan_forgetting_as, plan_supersession,
    FactText, NamespaceDeletion, NeighborEdge, StoredFact,
};
use semantic_memory_mcp::governed::check_governed;
use semantic_memory_mcp::json::{parse_document, write_document, Json};
use semantic_memory_mcp::receipts::{mcp_receipt, receipt_of};
use semantic_memory_mcp::search::{HitSource, SearchHit};
use semantic_memory_mcp::tools::{
    AddFactParams, GovernedAccessPurposeParam, GovernedDecisionParams, GovernedLeaseParams,
    GovernedNamespaceScopeParams,
};
use semantic_memory_mcp::trust::{ClaimTrustIndex, SupportState};
use semantic_memory_mcp::witness::text_digest;
use serde_json::Value;

fn value(document: &Json) -> Value {
    serde_json::from_str(&write_document(document)).unwrap()
}

fn receipt() -> Json {
    receipt_of("sm_test", "mcp-receipt:sm_test:1", "2026-01-01T00:00:00+00:00")
}

fn add_fact_params(content: &str, idempotency_key: Option<&str>) -> AddFactParams {
    AddFactParams {
        content: content.into(),
        namespace: "authority-test".into(),
        source: Some("tests/authority-source.md".into()),
        extract_entities: Some(false),
        memory_kind: Some("durable_fact".into()),
        sensitivity: Some("internal".into()),
        evidence_refs: Some(vec!["evidence:authority-test".into()]),
        idempotency_key: idempotency_key.map(str::to_string),
    }
}

#[test]
fn sm_add_fact_preserves_ephemeral_evidence_refs_admission_rule() {
    let mut params = add_fact_params("unsupported inference", Some("ephemeral-source-only"));
    params.memory_kind = Some("ephemeral_inference".into());
    params.evidence_refs = None;

    let error = check_admission(&params).err().unwrap();
    assert!(error.contains("requires evidence_refs"));

    params.evidence_refs = Some(vec!["  ".into()]);
    assert!(check_admission(&params).is_err());
    params.evidence_refs = Some(vec!["evidence:1".into()]);
    assert!(check_admission(&params).is_ok());
}

#[test]
fn admitted_facts_carry_their_evidence() {
    let admitted = check_admission_as(&add_fact_params("x", None), "id-1").ok().unwrap();
    assert_eq!(
        admitted.evidence,
        vec!["evidence:authority-test", "tests/authority-source.md"]
    );
    let digests = evidence_digests(&admitted.evidence);
    assert_eq!(digests.len(), admitted.evidence.len());
    for (digest, reference) in digests.iter().zip(&admitted.evidence) {
        assert_eq!(digest, &text_digest(reference));
    }
    assert_eq!(admitted.idempotency_key, "mcp-sm-add-fact:id-1");
    match admitted.origin {
        FactOrigin::Evidence { digest } => assert_eq!(
            digest,
            format!(
                "blake3:{}",
                blake3::hash(b"evidence:authority-test\ntests/authority-source.md").to_hex()
            )
        ),
        FactOrigin::Operator => panic!("there is evidence"),
    }
    let metadata = value(&admitted.metadata);
    assert_eq!(metadata["memory_kind"], "durable_fact");
    assert_eq!(metadata["sensitivity"], "internal");
    assert_eq!(metadata["evidence_refs"][0], "evidence:authority-test");

    let mut bare = add_fact_params("x", Some("key"));
    bare.source = Some(" ".into());
    bare.evidence_refs = None;
    bare.sensitivity = None;
    let admitted = check_admission(&bare).ok().unwrap();
    assert!(matches!(admitted.origin, FactOrigin::Operator));
    assert_eq!(admitted.idempotency_key, "key");
    assert!(value(&admitted.metadata).get("evidence_refs").is_none());

    let mut named_twice = add_fact_params("x", None);
    named_twice.source = Some("evidence:authority-test".into());
    assert_eq!(check_admission(&named_twice).ok().unwrap().evidence.len(), 1);
}

#[test]
fn fresh_keys_differ() {
    let params = add_fact_params("legitimate duplicate", None);
    let first = check_admission(&params).ok().unwrap().idempotency_key;
    let second = check_admission(&params).ok().unwrap().idempotency_key;
    assert!(first.starts_with("mcp-sm-add-fact:"));
    assert_ne!(first, second);
}

#[test]
fn sensitive_and_unkeyed_facts_are_refused() {
    for class in ["confidential", "restricted"] {
        let mut params = add_fact_params("x", None);
        params.sensitivity = Some(class.into());
        assert_eq!(
            check_admission(&params).err().unwrap(),
            format!("Admission gate BLOCKED: sensitivity='{class}' content cannot be stored without explicit user request")
        );
    }
    assert_eq!(
        check_admission(&add_fact_params("x", Some("\t"))).err().unwrap(),
        "idempotency_key must not be blank"
    );
}

#[test]
fn added_facts_are_linked_and_answered() {
    let mut index = ClaimTrustIndex::new();
    index.enable();
    index.register_claim("claim-1", "rust is a systems language");
    index.record_judgment("claim-1", SupportState::Supported);
    let reply = value(&finish_add_fact(
        &mut index,
        "f1",
        "authority-test",
        "Rust is a systems language",
        receipt(),
    ));
    assert_eq!(reply["ok"], true);
    assert_eq!(reply["fact_id"], "f1");
    assert_eq!(reply["namespace"], "authority-test");
    assert_eq!(reply["message"], "Fact added successfully");
    assert_eq!(reply.as_object().unwrap().len(), 5);
    assert_eq!(index.trust_for_fact("f1"), "supported");
    assert_eq!(appended_fact(&vec!["f1".to_string()]).unwrap(), "f1");
    assert_eq!(
        appended_fact(&vec![]).unwrap_err(),
        "authority append returned no affected fact id"
    );
}

#[test]
fn receipts_name_their_tool_and_differ() {
    let first = value(&mcp_receipt("sm_add_fact"));
    let second = value(&mcp_receipt("sm_add_fact"));
    assert_eq!(first["tool"], "sm_add_fact");
    assert!(first["receipt_id"].as_str().unwrap().starts_with("mcp-receipt:sm_add_fact:"));
    assert!(chrono::DateTime::parse_from_rfc3339(first["recorded_at"].as_str().unwrap()).is_ok());
    assert_ne!(first["receipt_id"], second["receipt_id"]);
}

#[test]
fn entities_are_read_strictly() {
    let reply = parse_document(
        r#"{"response":"{\"entities\":[{\"name\":\"Rust\",\"type\":\"tool\"},{\"type\":\"x\"},{\"name\":\"Verus\"}]}"}"#,
    )
    .unwrap();
    let nodes = read_entities(&reply);
    assert_eq!(nodes.len(), 2);
    assert!(nodes.iter().all(|node| node.contains(':')));
    let doubled = parse_document(
        r#"{"response":"{\"entities\":[{\"name\":\"a\",\"name\":\"b\"}]}"}"#,
    )
    .unwrap();
    assert!(read_entities(&doubled).is_empty());
    assert!(read_entities(&parse_document("{}").unwrap()).is_empty());
    assert!(named_entities(&parse_document(r#"{"entities":7}"#).unwrap()).is_empty());
    let request = value(&entity_request("some text"));
    assert_eq!(request["model"], "granite4.1:3b");
    assert!(request["prompt"].as_str().unwrap().ends_with("\nText: some text\nJSON:"));
}

fn scope(namespace: &str) -> GovernedNamespaceScopeParams {
    GovernedNamespaceScopeParams {
        namespace: namespace.into(),
        domain: None,
        workspace_id: None,
        repo_id: None,
    }
}

fn decision_params(fact_id: &str) -> GovernedDecisionParams {
    GovernedDecisionParams {
        fact_id: fact_id.into(),
        caller: "principal:alice".into(),
        subject: "principal:patient".into(),
        audiences: vec!["principal:alice".into(), "team:medical".into()],
        scope: scope("medical"),
        delegation_or_elevation: None,
    }
}

#[test]
fn governed_requests_name_their_principals() {
    assert_eq!(check_governed(&decision_params("fact:f1")).unwrap(), "f1");
    assert_eq!(check_governed(&decision_params("f1")).unwrap(), "f1");
    let mut nobody = decision_params("f1");
    nobody.caller = " ".into();
    assert!(check_governed(&nobody).is_err());
    let mut no_subject = decision_params("f1");
    no_subject.subject = String::new();
    assert!(check_governed(&no_subject).is_err());
    let mut leased = decision_params("f1");
    leased.delegation_or_elevation = Some(GovernedLeaseParams {
        lease_id: "lease:assertion".into(),
        delegator: "principal:patient".into(),
        delegatee: "".into(),
        purposes: vec![GovernedAccessPurposeParam::Assertion],
        scope: scope("medical"),
        audiences: vec!["team:medical".into()],
        expires_at: "2999-01-01T00:00:00Z".into(),
        revoked: false,
        elevation: false,
    });
    assert!(check_governed(&leased).is_err());
}

fn stored_fact() -> StoredFact {
    StoredFact {
        id: "f1".to_string(),
        namespace: "ns".to_string(),
        content: "content".to_string(),
        source: None,
        created_at: "t0".to_string(),
        updated_at: "t1".to_string(),
        metadata: Json::Null,
    }
}

#[test]
fn facts_are_shown_in_full_or_listed() {
    let found = value(&finish_get_fact("fact:f1", &Some(stored_fact())));
    assert_eq!(found["found"], true);
    assert_eq!(found["fact"]["result_id"], "fact:f1");
    assert!(found["fact"]["source"].is_null());
    let missing = value(&finish_get_fact("fact:f2", &None));
    assert_eq!(missing["found"], false);
    assert_eq!(missing["message"], "No fact with id 'fact:f2'");
    let list = value(&finish_list_facts("ns", 50, 10, &vec![stored_fact()]));
    assert_eq!(list["count"], 1);
    assert_eq!(list["limit"], 50);
    assert_eq!(list["offset"], 10);
    assert!(list["facts"][0].get("created_at").is_none());
    let namespaces = value(&finish_list_namespaces(&vec!["a".to_string(), "b".to_string()]));
    assert_eq!(namespaces["namespaces"][1], "b");
}

#[test]
fn neighbors_have_a_direction() {
    assert_eq!(node_of_fact("x"), "fact:x");
    assert_eq!(node_of_item("x"), "fact:x");
    assert_eq!(node_of_item("namespace:rust"), "namespace:rust");
    let edge = |source: &str, target: &str| NeighborEdge {
        source: source.to_string(),
        target: target.to_string(),
        edge_type: "entity".to_string(),
        weight: Json::Decimal("1.0".to_string()),
    };
    assert_eq!(neighbor_of("fact:a", &edge("fact:a", "fact:b")), "fact:b");
    assert_eq!(neighbor_of("fact:a", &edge("fact:b", "fact:a")), "fact:b");
    let reply = value(&finish_neighbors(
        "fact:a",
        &Some("center".to_string()),
        &vec![edge("fact:a", "fact:b"), edge("fact:c", "fact:a")],
        &vec![Some("b".to_string()), None],
    ));
    assert_eq!(reply["neighbor_count"], 2);
    assert_eq!(reply["neighbors"][0]["direction"], "out");
    assert_eq!(reply["neighbors"][1]["direction"], "in");
    assert_eq!(reply["neighbors"][1]["neighbor_id"], "fact:c");
    assert!(reply["neighbors"][1]["content"].is_null());
}

#[test]
fn supersession_keeps_the_namespace_unless_told() {
    let plan = plan_supersession("fact:old", &Some("ns".to_string()), &None, &None).ok().unwrap();
    assert_eq!(plan.old_bare, "old");
    assert_eq!(plan.old_node, "fact:old");
    assert_eq!(plan.namespace, "ns");
    assert_eq!(
        value(&plan.metadata)["reason"],
        "replacement fact supersedes stale fact"
    );
    let moved = plan_supersession(
        "old",
        &Some("ns".to_string()),
        &Some("other".to_string()),
        &Some("why".to_string()),
    )
    .ok()
    .unwrap();
    assert_eq!(moved.namespace, "other");
    assert_eq!(value(&moved.metadata)["reason"], "why");
    assert!(plan_supersession("old", &None, &None, &None).is_err());
    let reply = value(&finish_supersession(&plan, "new", "edge-1", receipt()));
    assert_eq!(reply["new_result_id"], "fact:new");
    assert_eq!(reply["relation"], "supersedes");
    assert_eq!(reply["edge_id"], "edge-1");
}

#[test]
fn merged_contents_hold_both() {
    assert_eq!(merge_contents("abc def", "abc"), "abc def");
    assert_eq!(merge_contents("abc", "abc def"), "abc def");
    assert_eq!(merge_contents("long one", "other"), "long one\n\nAdditional: other");
    assert_eq!(merge_contents("other", "long one"), "long one\n\nAdditional: other");
    // Lengths are those of the encoded texts.
    assert_eq!(merge_contents("ééé", "abcde"), "ééé\n\nAdditional: abcde");
}

#[test]
fn consolidation_merges_two_facts() {
    let text = |content: &str| FactText {
        namespace: "ns".to_string(),
        content: content.to_string(),
    };
    let plan = plan_consolidation(
        "fact:a",
        "fact:b",
        &Some(text("first fact")),
        &Some(text("second")),
        &None,
    )
    .ok()
    .unwrap();
    assert_eq!(plan.content, "first fact\n\nAdditional: second");
    assert_eq!(plan.keep_bare, "a");
    assert_eq!(plan.superseded_bare, "b");
    assert_eq!(plan.source, "fact:a");
    assert_eq!(plan.target, "fact:b");
    assert_eq!(plan.relation, "supersedes");
    assert_eq!(value(&plan.metadata)["consolidated_with"], "fact:a");
    let given = plan_consolidation(
        "a",
        "b",
        &Some(text("x")),
        &Some(text("y")),
        &Some("given".to_string()),
    )
    .ok()
    .unwrap();
    assert_eq!(given.content, "given");
    assert!(plan_consolidation("a", "b", &None, &Some(text("y")), &None).is_err());
    let kept_alone = plan_consolidation("a", "b", &Some(text("x")), &None, &None).ok().unwrap();
    assert_eq!(kept_alone.content, "x");
    let reply = value(&finish_consolidation(&plan, receipt()));
    assert_eq!(reply["ok"], true);
    assert_eq!(reply["kept_fact_id"], "fact:a");
    assert_eq!(reply["superseded_fact_id"], "fact:b");
    assert!(reply.get("new_fact_id").is_none());
}

#[test]
fn forgetting_needs_a_governed_origin() {
    let plan = plan_forgetting_as(
        "fact:f1",
        &Some("ns".to_string()),
        &Some("principal:x".to_string()),
        "id-1",
    )
    .ok()
    .unwrap();
    assert_eq!(plan.fact_id, "f1");
    assert_eq!(plan.namespace, "ns");
    assert_eq!(plan.principal, "principal:x");
    assert_eq!(plan.idempotency_key, "mcp-sm-delete-fact:id-1");
    assert_eq!(plan.caller, "caller:sm_delete_fact");
    assert_eq!(plan.reason, "explicit MCP fact-forgetting request");
    assert_eq!(plan.max_affected, 4096);
    assert_eq!(
        plan_forgetting("f1", &None, &Some("p".to_string())).err().unwrap(),
        "fact not found: fact:f1"
    );
    assert_eq!(
        plan_forgetting("f1", &Some("ns".to_string()), &None).err().unwrap(),
        "fact has no governed origin authority: fact:f1"
    );
    let reply = value(&finish_forgetting(
        "f1",
        parse_document(r#"{"schema_version":"forgetting_closure_receipt_v1"}"#).unwrap(),
    ));
    assert_eq!(reply["forgotten"], true);
    assert_eq!(reply["deleted"], false);
    assert_eq!(
        reply["forgetting_receipt"]["schema_version"],
        "forgetting_closure_receipt_v1"
    );
}

#[test]
fn updates_and_deletions_are_answered() {
    assert_eq!(value(&finish_update_fact("f1", receipt()))["ok"], true);
    let reply = value(&finish_delete_namespace(
        "ns",
        &NamespaceDeletion {
            facts: 1,
            documents: 2,
            chunks: 3,
            messages: 4,
            sessions: 5,
            episodes: 6,
            projection_rows: 7,
        },
        receipt(),
    ));
    assert_eq!(reply["ok"], true);
    assert!(reply.to_string().contains('7'));
    let ingested = value(&finish_ingest_document("d1", "title", 3, receipt()));
    assert_eq!(ingested["document_id"], "d1");
}

#[test]
fn roles_are_named() {
    assert_eq!(read_role("USER").unwrap(), MessageRole::User);
    assert_eq!(role_of_name("assistant").unwrap(), MessageRole::Assistant);
    assert_eq!(role_of_name("system").unwrap(), MessageRole::System);
    assert_eq!(role_of_name("tool").unwrap(), MessageRole::Tool);
    assert!(read_role("robot").is_err());
}

#[test]
fn sessions_are_answered() {
    assert!(session_metadata(&None).is_none());
    assert!(session_metadata(&Some("not json".to_string())).is_none());
    assert_eq!(
        value(&session_metadata(&Some(r#"{"a":1}"#.to_string())).unwrap())["a"],
        1
    );
    let created = value(&finish_create_session("s1", "cli", receipt()));
    assert_eq!(created["session_id"], "s1");
    let added = value(&finish_add_message(Json::Unsigned(9), "s1", receipt()));
    assert_eq!(added["message_id"], 9);
    let sessions = value(&finish_list_sessions(&vec![SessionRecord {
        id: "s1".to_string(),
        channel: "cli".to_string(),
        message_count: 2,
        created_at: "t0".to_string(),
        updated_at: "t1".to_string(),
    }]));
    assert_eq!(sessions["sessions"][0]["message_count"], 2);
    let messages = value(&finish_get_messages(
        "s1",
        &vec![MessageRecord {
            id: Json::Unsigned(9),
            role: Json::from_text("user"),
            content: "hello".to_string(),
            token_count: Json::Null,
            created_at: "t0".to_string(),
        }],
    ));
    assert_eq!(messages["messages"][0]["content"], "hello");
    let hits = value(&finish_search_conversations(&vec![SearchHit {
        result_id: "msg:1".to_string(),
        content: "hello".to_string(),
        score: Json::Decimal("0.5".to_string()),
        bm25_rank: None,
        vector_rank: None,
        cosine_similarity: Json::Null,
        source: HitSource::Message,
        source_text: String::new(),
    }]));
    assert_eq!(hits["results"][0]["result_id"], "msg:1");
}
