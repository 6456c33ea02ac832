//! The library's decisions around a real store with a mock embedder.
use semantic_memory::rl_routing::{is_trained, record_routing_outcome, route_with_policy, RoutingOutcome};
use semantic_memory::routing::{QueryProfile, RetrievalRouter};
use semantic_memory::{
    AuthorityFaultStage, AuthorityPermit, AuthorityScopeV1, AuthorityScopesV1,
    CallerPrincipalV1, ElevationRequirementV1, EmbeddingConfig,
    ExactnessProfile, ForgettingClosureRequestV1, GovernedAccessPurposeV1, GovernedAccessRequestV1,
    GraphEdgeType, MemoryConfig, MemoryStore, MockEmbedder, NamespaceScopeV1,
    OriginAuthorityLabelV1, OriginClassV1, OriginRiskV1, ReceiptMode, ReplayMode,
    RevocationStatusV1, SearchContext, SearchResult, SearchSource, StoredGraphEdge,
    SubjectPrincipalV1,
};
use semantic_memory_mcp::admission::{
    appended_fact, check_admission, evidence_digests, finish_add_fact, FactOrigin,
};
use semantic_memory_mcp::audit::finish_stats;
use semantic_memory_mcp::auto_edges::{outdated_edges, plan_auto_edges, ScannedFact};
use semantic_memory_mcp::bridge::{BridgeConfig, EmbedderBackend};
use semantic_memory_mcp::facts::{
    finish_forgetting, finish_get_fact, finish_list_namespaces, finish_supersession, node_of_fact,
    plan_consolidation, plan_forgetting, plan_supersession, FactText,
};
use semantic_memory_mcp::feedback::{
    finish_get_policy, finish_record_outcome, OutcomeBatch, PolicyState, StoredPolicy, PERSIST_BATCH,
};
use semantic_memory_mcp::governed::check_governed;
use semantic_memory_mcp::graph::{listed_edge, EdgeRecord};
use semantic_memory_mcp::graph_tools::StoredEdge;
use semantic_memory_mcp::http::{route, Route};
use semantic_memory_mcp::http_api;
use semantic_memory_mcp::json::{parse_document, write_document, Json};
use semantic_memory_mcp::ledger_store::ClaimLedgerStore;
use semantic_memory_mcp::profile::ToolProfile;
use semantic_memory_mcp::receipts::mcp_receipt;
use semantic_memory_mcp::routing::RoutingDecision;
use semantic_memory_mcp::search::{
    finish_search, query_allows_superseded, requested_count, search_count, HitSource, SearchHit,
};
use semantic_memory_mcp::second_order::{facts_named, hits_over_all, with_facts};
use semantic_memory_mcp::server::SemanticMemoryServer;
use semantic_memory_mcp::tools::{
    AddFactParams, GovernedDecisionParams, GovernedNamespaceScopeParams, ReplayModeParam, RetrievalModeParam, SearchWitnessedParams,
};
use semantic_memory_mcp::trust::ClaimTrustIndex;
use semantic_memory_mcp::witness::{
    check_durable, finish_witnessed, missing_witness, plan_witnessed, receipt_reference,
    witnessed_results, AuthorityState, FactRecord, ModelIdentity, WitnessReceipt,
};
use serde_json::Value;

fn open_store(dir: &tempfile::TempDir) -> MemoryStore {
    let config = BridgeConfig::from_args(
        &dir.path().to_string_lossy(),
        EmbedderBackend::Mock,
        None,
        Some("mock"),
        None,
        false,
        None,
        None,
    );
    let settings = config.embedding_settings();
    MemoryStore::open_with_embedder(
        MemoryConfig {
            base_dir: config.memory_dir.into(),
            embedding: EmbeddingConfig {
                ollama_url: settings.ollama_url,
                model: settings.model,
                dimensions: settings.dimensions,
                batch_size: settings.batch_size,
                timeout_secs: settings.timeout_secs,
            },
            ..Default::default()
        },
        Box::new(MockEmbedder::new(settings.dimensions)),
    )
    .unwrap()
}

fn runtime() -> tokio::runtime::Runtime {
    tokio::runtime::Builder::new_multi_thread().enable_all().build().unwrap()
}

fn value(document: &Json) -> Value {
    serde_json::from_str(&write_document(document)).unwrap()
}

fn number(n: f64) -> Json {
    match serde_json::Number::from_f64(n) {
        Some(n) => Json::Decimal(n.to_string()),
        None => Json::Null,
    }
}

fn document(value: &Value) -> Json {
    parse_document(&value.to_string()).unwrap()
}

fn hit(result: &SearchResult) -> SearchHit {
    SearchHit {
        result_id: result.source.result_id(),
        content: result.content.clone(),
        score: number(result.score),
        bm25_rank: result.bm25_rank.map(|rank| rank as u64),
        vector_rank: result.vector_rank.map(|rank| rank as u64),
        cosine_similarity: result.cosine_similarity.map(number).unwrap_or(Json::Null),
        source: match &result.source {
            SearchSource::Fact { fact_id, namespace } => HitSource::Fact {
                fact_id: fact_id.clone(),
                namespace: namespace.clone(),
            },
            SearchSource::Chunk { document_title, .. } => HitSource::Chunk {
                document_title: document_title.clone(),
            },
            SearchSource::Message { .. } => HitSource::Message,
            _ => HitSource::Other,
        },
        source_text: format!("{:?}", result.source),
    }
}

fn edge(edge: &StoredGraphEdge) -> EdgeRecord {
    listed_edge(
        &edge.source,
        &edge.target,
        &edge.edge_type,
        number(edge.weight),
        &edge.metadata,
    )
}

fn superseding() -> GraphEdgeType {
    GraphEdgeType::Entity {
        relation: "supersedes".into(),
    }
}

#[test]
fn sm_search_tool_returns_only_current_supersession_head() {
    let dir = tempfile::tempdir().unwrap();
    let store = open_store(&dir);
    let runtime = runtime();
    let old = runtime
        .block_on(store.add_fact("state", "runtime channel is violet", None, None))
        .unwrap();
    let new = runtime
        .block_on(store.add_fact("state", "runtime channel is saffron", None, None))
        .unwrap();
    runtime
        .block_on(store.add_graph_edge(
            &format!("fact:{new}"),
            &format!("fact:{old}"),
            superseding(),
            1.0,
            None,
        ))
        .unwrap();
    let query = "runtime channel";
    let k = requested_count(Some(10), 5);
    let count = search_count(k, query_allows_superseded(query));
    let results = runtime
        .block_on(store.search(query, Some(count as usize), Some(&["state"]), None))
        .unwrap();
    let edges = runtime.block_on(store.list_all_graph_edges()).unwrap();
    let body = write_document(&finish_search(
        query,
        &results.iter().map(hit).collect(),
        &edges.iter().map(edge).collect(),
        k,
    ));
    assert!(body.contains("saffron"));
    assert!(!body.contains("violet"));
}

#[test]
fn http_search_returns_current_supersession_head_only() {
    let dir = tempfile::tempdir().unwrap();
    let store = open_store(&dir);
    let rt = runtime();
    let old_id = rt
        .block_on(store.add_fact("state", "release train is indigo", None, None))
        .unwrap();
    let new_id = rt
        .block_on(store.add_fact("state", "release train is coral", None, None))
        .unwrap();
    rt.block_on(store.add_graph_edge(
        &format!("fact:{new_id}"),
        &format!("fact:{old_id}"),
        superseding(),
        1.0,
        None,
    ))
    .unwrap();
    let request = http_api::search_request(
        r#"{"query":"release train","top_k":10,"namespaces":["state"]}"#,
    )
    .ok()
    .unwrap();
    let namespaces = request.namespaces.clone().unwrap();
    let names: Vec<&str> = namespaces.iter().map(String::as_str).collect();
    let results = rt
        .block_on(store.search(&request.query, Some(request.fetch_k), Some(names.as_slice()), None))
        .unwrap();
    let hits: Vec<SearchHit> = results.iter().map(hit).collect();
    let reply = http_api::finish_search(&request, http_api::search_results(&hits), &vec![]);
    let json = value(&reply.body);
    let contents: Vec<&str> = json["results"]
        .as_array()
        .unwrap()
        .iter()
        .filter_map(|r| r["content"].as_str())
        .collect();
    assert!(contents.iter().any(|value| value.contains("coral")));
    assert!(!contents.iter().any(|value| value.contains("indigo")));
}

fn server(profile: &str) -> SemanticMemoryServer {
    let path = "claim_ledger.jsonl";
    let ledger = ClaimLedgerStore::open(ClaimLedgerStore::open_file(Ok(None), path), path);
    SemanticMemoryServer::new(ledger, profile).unwrap()
}

fn witnessed(
    runtime: &tokio::runtime::Runtime,
    store: &MemoryStore,
    index: &mut ClaimTrustIndex,
    params: SearchWitnessedParams,
) -> Value {
    let plan = plan_witnessed(&params, 1);
    let mut context = SearchContext::default_now();
    context.receipt_mode = ReceiptMode::ReturnReceipt;
    context.replay_mode = match plan.replay {
        ReplayModeParam::NoReplay => ReplayMode::NoReplay,
        ReplayModeParam::StoreInputs => ReplayMode::StoreInputs,
    };
    context.exactness_profile = ExactnessProfile::PreferExact;
    context.request_id = Some(plan.request_id.clone());
    context.query_text_digest = Some(plan.query_digest.clone());
    context.query_input_digest = Some(plan.input_digest.clone());
    context.filter_digest = Some(plan.filter_digest.clone());
    let namespaces = params.namespaces.clone().unwrap_or_default();
    let names: Vec<&str> = namespaces.iter().map(String::as_str).collect();
    let filter = params.namespaces.as_ref().map(|_| names.as_slice());
    let k = Some(plan.top_k as usize);
    let response = runtime
        .block_on(async {
            match plan.mode {
                RetrievalModeParam::Hybrid => {
                    store
                        .search_with_context(&params.query, k, filter, None, context)
                        .await
                }
                RetrievalModeParam::FtsOnly => {
                    store
                        .search_fts_only_with_context(&params.query, k, filter, None, context)
                        .await
                }
                RetrievalModeParam::VectorOnly => {
                    store
                        .search_vector_only_with_context(&params.query, k, filter, None, context)
                        .await
                }
            }
        })
        .unwrap();
    let receipt = response.receipt.expect(&missing_witness());
    let state = runtime.block_on(store.authority().current_state()).unwrap();
    let durable = runtime.block_on(store.get_search_receipt(&receipt.receipt_id)).unwrap();
    check_durable(durable.is_some()).unwrap();
    let available = runtime
        .block_on(store.search_replay_inputs_available(&receipt.receipt_id))
        .unwrap();
    let stats = runtime.block_on(store.stats()).unwrap();
    let mut hits = Vec::new();
    let mut facts = Vec::new();
    for result in &response.results {
        facts.push(match &result.source {
            SearchSource::Fact { fact_id, .. } => {
                runtime.block_on(store.get_fact(fact_id)).unwrap().map(|fact| FactRecord {
                    id: fact.id,
                    content: fact.content,
                    namespace: fact.namespace,
                    source: fact.source,
                })
            }
            _ => None,
        });
        hits.push(hit(result));
    }
    let results = witnessed_results(&hits, &facts, &receipt_reference(&receipt.receipt_id));
    let results = index.enrich_results_with_trust(results);
    value(&finish_witnessed(
        &plan,
        &WitnessReceipt {
            receipt_id: receipt.receipt_id.clone(),
            evaluation_time: document(&serde_json::to_value(receipt.evaluation_time).unwrap()),
            candidate_backend: Json::from_text(&receipt.candidate_backend),
            artifact_generation_id: Json::from_optional_text(&receipt.artifact_generation_id),
            degradations: document(&serde_json::to_value(&receipt.degradations).unwrap()),
            approximate: receipt.approximate,
            exact_rerank: receipt.exact_rerank,
        },
        &AuthorityState {
            snapshot_id: Json::from_text(&state.snapshot_id.0),
            retrieval_epoch: Json::Unsigned(state.retrieval_epoch.0),
        },
        &ModelIdentity {
            model: stats.embedding_model,
            dimensions: stats.embedding_dimensions.map(|n| n as u64),
        },
        results,
        available,
    ))
}

#[test]
fn witnessed_search_hydrates_complete_honest_fact_provenance() {
    let dir = tempfile::tempdir().unwrap();
    let store = open_store(&dir);
    let runtime = runtime();
    let fact_id = runtime
        .block_on(store.add_fact(
            "provenance-test",
            "witnessed facts must retain their source",
            Some("tests/witnessed-source.md"),
            None,
        ))
        .unwrap();
    let json = witnessed(
        &runtime,
        &store,
        &mut server("full").trust,
        SearchWitnessedParams {
            query: "witnessed facts retain source".into(),
            top_k: Some(5),
            namespaces: Some(vec!["provenance-test".into()]),
            request_id: Some("witnessed-provenance-test".into()),
            retrieval_mode: None,
            replay_mode: None,
        },
    );
    let hit = json["results"]
        .as_array()
        .unwrap()
        .iter()
        .find(|hit| hit["memory_id"] == format!("fact:{fact_id}"))
        .expect("the stored fact is an injectible witnessed result");

    assert_eq!(hit["namespace"], "provenance-test");
    assert_eq!(hit["source"], "tests/witnessed-source.md");
    assert_eq!(hit["trust"], "persisted_unjudged");
    assert_eq!(hit["state"], "current");
    assert_eq!(
        hit["retrieval_receipt_ref"],
        format!("receipt:{}", json["receipt_id"].as_str().unwrap())
    );
}

#[test]
fn witnessed_search_omits_noninjectible_fact_without_source() {
    let dir = tempfile::tempdir().unwrap();
    let store = open_store(&dir);
    let runtime = runtime();
    let _fact_id = runtime
        .block_on(store.add_fact(
            "provenance-test",
            "source-less facts cannot be injected autonomously",
            None,
            None,
        ))
        .unwrap();
    let json = witnessed(
        &runtime,
        &store,
        &mut server("full").trust,
        SearchWitnessedParams {
            query: "source-less facts autonomous injection".into(),
            top_k: Some(5),
            namespaces: Some(vec!["provenance-test".into()]),
            request_id: Some("witnessed-source-less-test".into()),
            retrieval_mode: None,
            replay_mode: None,
        },
    );
    assert!(json["results"].as_array().unwrap().is_empty());
}

#[test]
fn sm_search_witnessed_exposes_authority_state_and_vector_evidence() {
    let dir = tempfile::tempdir().unwrap();
    let store = open_store(&dir);
    let runtime = runtime();
    let permit = AuthorityPermit::operator_system(
        "witness-principal",
        "witness-caller",
        AuthorityPermit::APPEND_CAPABILITY,
    );
    let receipt = runtime
        .block_on(store.authority().append(
            permit,
            "witnessed-state-1".into(),
            "stateful".into(),
            "governed witnessed state should expose".into(),
            Some("tests/witnessed-state.md".into()),
        ))
        .unwrap();

    let json = witnessed(
        &runtime,
        &store,
        &mut server("lean").trust,
        SearchWitnessedParams {
            query: "governed witnessed state should expose".into(),
            top_k: Some(5),
            namespaces: Some(vec!["stateful".into()]),
            request_id: Some("witnessed-state-request".into()),
            retrieval_mode: None,
            replay_mode: None,
        },
    );

    assert_eq!(json["retrieval_mode"], "hybrid");
    assert!(json["authority"]["snapshot_id"].as_str().is_some());
    assert!(
        json["authority"]["retrieval_epoch"].as_u64().is_some()
            || json["authority"]["retrieval_epoch"].as_str().is_some(),
        "authoritative retrieval epoch should be surfaced"
    );
    assert!(json["current_snapshot_id"].as_str().is_some());
    assert!(
        json["retrieval_epoch"].as_u64().is_some() || json["retrieval_epoch"].as_str().is_some(),
        "top-level retrieval epoch should be surfaced"
    );

    assert_eq!(json["authority"]["status"], "Applied");
    assert_eq!(
        json["stage_outcomes"]["authority_snapshot"]["outcome"],
        "Applied"
    );

    let hit = json["results"]
        .as_array()
        .unwrap()
        .iter()
        .find(|hit| {
            hit.get("content")
                .and_then(|value| value.as_str())
                .is_some_and(|content| content.contains("governed witnessed state"))
        })
        .expect("governed witnessed result should be returned");

    assert!(hit["cosine_similarity"].as_f64().is_some());
    assert_eq!(
        hit["source"], "tests/witnessed-state.md",
        "witnessed path should retain source"
    );
    assert_eq!(
        json["ordered_results"][0]["result_id"],
        format!("fact:{}", receipt.affected_ids[0])
    );
}

#[test]
fn sm_search_witnessed_accepts_general_retrieval_modes() {
    let dir = tempfile::tempdir().unwrap();
    let store = open_store(&dir);
    let rt = runtime();
    rt.block_on(store.add_fact("modes", "alpha beta gamma", Some("test"), None))
        .unwrap();
    let mut server = server("full");
    for (retrieval_mode, name) in [
        (RetrievalModeParam::Hybrid, "hybrid"),
        (RetrievalModeParam::FtsOnly, "fts_only"),
        (RetrievalModeParam::VectorOnly, "vector_only"),
    ] {
        let json = witnessed(
            &rt,
            &store,
            &mut server.trust,
            SearchWitnessedParams {
                query: "alpha beta".into(),
                top_k: Some(5),
                namespaces: Some(vec!["modes".into()]),
                request_id: None,
                retrieval_mode: Some(retrieval_mode),
                replay_mode: None,
            },
        );
        assert_eq!(json["ok"], true);
        assert!(json["receipt_id"].is_string());
        assert_eq!(json["retrieval_mode"], name);
    }
}

#[test]
fn witnessed_search_opt_in_enables_complete_replay() {
    let dir = tempfile::tempdir().unwrap();
    let store = open_store(&dir);
    let runtime = runtime();
    runtime
        .block_on(store.add_fact(
            "stored-replay",
            "complete replay uses explicitly retained inputs",
            Some("tests/stored-replay.md"),
            None,
        ))
        .unwrap();
    let witnessed = witnessed(
        &runtime,
        &store,
        &mut server("full").trust,
        SearchWitnessedParams {
            query: "complete replay explicitly retained inputs".into(),
            top_k: Some(1),
            namespaces: Some(vec!["stored-replay".into()]),
            request_id: Some("mcp-stored-replay".into()),
            retrieval_mode: None,
            replay_mode: Some(ReplayModeParam::StoreInputs),
        },
    );
    assert_eq!(witnessed["complete_replay_available"], true);
    assert_eq!(witnessed["stage_outcomes"]["replay"]["outcome"], "Applied");

    let replay = runtime
        .block_on(store.replay_search_from_stored_inputs("mcp-stored-replay"))
        .unwrap();
    assert_eq!(replay.result_ids_match, true);
    assert_eq!(replay.query_embedding_digest_matches, true);
}

fn add_fact_params(content: &str, idempotency_key: Option<&str>) -> AddFactParams {
    AddFactParams {
        content: content.into(),
        namespace: "authority-test".into(),
        source: Some("tests/authority-source.md".into()),
        extract_entities: Some(false),
        memory_kind: Some("durable_fact".into()),
        sensitivity: Some("internal".into()),
        evidence_refs: Some(vec!["evidence:authority-test".into()]),
        idempotency_key: idempotency_key.map(str::to_string),
    }
}

fn invoke_add_fact(
    runtime: &tokio::runtime::Runtime,
    store: &MemoryStore,
    server: &mut SemanticMemoryServer,
    params: AddFactParams,
) -> Result<Value, String> {
    let admitted = check_admission(&params)?;
    let principal = "principal:semantic-memory-mcp";
    let caller = "caller:sm_add_fact";
    let permit = match admitted.origin {
        FactOrigin::Operator => {
            AuthorityPermit::operator_system(principal, caller, AuthorityPermit::APPEND_CAPABILITY)
                .with_origin(OriginAuthorityLabelV1::operator_system(principal, caller))
        }
        FactOrigin::Evidence { digest } => AuthorityPermit::with_evidence(
            principal,
            caller,
            AuthorityPermit::APPEND_CAPABILITY,
            evidence_digests(&admitted.evidence),
        )
        .with_origin(OriginAuthorityLabelV1::new(
            OriginClassV1::ExternalEvidence,
            principal,
            caller,
            digest,
            OriginRiskV1::Medium,
            AuthorityScopesV1 {
                recall: AuthorityScopeV1::Universal,
                assertion: AuthorityScopeV1::Denied,
                action: AuthorityScopeV1::Denied,
            },
            ElevationRequirementV1::ExplicitOperatorApproval,
            None,
            RevocationStatusV1::Active,
            vec![principal.into()],
        )?),
    };
    let receipt = runtime
        .block_on(store.authority().append(
            permit,
            admitted.idempotency_key,
            params.namespace.clone(),
            params.content.clone(),
            params.source.clone(),
        ))
        .map_err(|error| format!("add_fact error: {error}"))?;
    let id = appended_fact(&receipt.affected_ids)?;
    Ok(value(&finish_add_fact(
        &mut server.trust,
        &id,
        &params.namespace,
        &params.content,
        mcp_receipt("sm_add_fact"),
    )))
}

#[test]
fn sm_add_fact_uses_authority_append_and_preserves_output_contract() {
    let dir = tempfile::tempdir().unwrap();
    let store = open_store(&dir);
    let mut server = server("full");
    let runtime = runtime();
    store.authority().set_fault(Some(AuthorityFaultStage::BeforeAppend));

    let error = invoke_add_fact(
        &runtime,
        &store,
        &mut server,
        add_fact_params("must pass through authority", Some("mcp-authority-fault")),
    )
    .unwrap_err();
    assert!(error.contains("authority fault injected"));
    assert_eq!(runtime.block_on(store.stats()).unwrap().total_facts, 0);

    let json = invoke_add_fact(
        &runtime,
        &store,
        &mut server,
        add_fact_params("must pass through authority", Some("mcp-authority-success")),
    )
    .unwrap();
    assert_eq!(json["ok"], true);
    assert_eq!(json["namespace"], "authority-test");
    assert_eq!(json["message"], "Fact added successfully");
    assert!(json["fact_id"].as_str().is_some());
    assert_eq!(json.as_object().unwrap().len(), 5);
    assert!(json["receipt"]["receipt_id"].as_str().is_some());
    assert!(json["receipt"]["recorded_at"].as_str().is_some());
    assert_eq!(json["receipt"]["tool"], "sm_add_fact");
}

#[test]
fn sm_add_fact_replays_explicit_key_but_unkeyed_identical_writes_remain_distinct() {
    let dir = tempfile::tempdir().unwrap();
    let store = open_store(&dir);
    let mut server = server("full");
    let runtime = runtime();
    let mut add = |content: &str, key: Option<&str>| {
        invoke_add_fact(&runtime, &store, &mut server, add_fact_params(content, key)).unwrap()
            ["fact_id"]
            .as_str()
            .unwrap()
            .to_string()
    };

    let first = add("retry-safe", Some("caller-retry-key"));
    let retry = add("retry-safe", Some("caller-retry-key"));
    assert_eq!(first, retry);

    let unkeyed_a = add("legitimate duplicate", None);
    let unkeyed_b = add("legitimate duplicate", None);
    assert_ne!(unkeyed_a, unkeyed_b);
    assert_eq!(runtime.block_on(store.stats()).unwrap().total_facts, 3);
}

fn delete_fact(runtime: &tokio::runtime::Runtime, store: &MemoryStore, fact_id: &str) -> Value {
    let fact = runtime.block_on(store.get_fact_raw_compat(fact_id)).unwrap();
    let origin = runtime
        .block_on(store.authority().get_origin_authority(fact_id))
        .unwrap();
    let plan = plan_forgetting(
        fact_id,
        &fact.map(|fact| fact.namespace),
        &origin.map(|record| record.label.origin_principal),
    )
    .ok()
    .unwrap();
    let permit = AuthorityPermit::operator_system(
        plan.principal.clone(),
        plan.caller.clone(),
        AuthorityPermit::FORGET_CAPABILITY,
    )
    .with_origin(OriginAuthorityLabelV1::operator_system(
        &plan.principal,
        &plan.caller,
    ));
    let request = ForgettingClosureRequestV1::new(
        vec![plan.fact_id.clone()],
        plan.namespace.clone(),
        plan.reason.as_str(),
        plan.max_affected,
    );
    let receipt = runtime
        .block_on(store.authority().forget(permit, plan.idempotency_key.clone(), request))
        .unwrap();
    value(&finish_forgetting(
        &plan.fact_id,
        document(&serde_json::to_value(&receipt).unwrap()),
    ))
}

#[test]
fn sm_delete_fact_uses_governed_forgetting_closure() {
    let dir = tempfile::tempdir().unwrap();
    let store = open_store(&dir);
    let mut server = server("full");
    let runtime = runtime();
    let added = invoke_add_fact(
        &runtime,
        &store,
        &mut server,
        add_fact_params("forget through MCP", Some("mcp-forget-source")),
    )
    .unwrap();
    let fact_id = added["fact_id"].as_str().unwrap().to_string();
    let json = delete_fact(&runtime, &store, &fact_id);
    assert_eq!(json["forgotten"], true);
    assert_eq!(json["deleted"], false);
    assert_eq!(
        json["forgetting_receipt"]["schema_version"],
        "forgetting_closure_receipt_v1"
    );
    let raw = runtime
        .block_on(store.get_fact_raw_compat(&fact_id))
        .unwrap()
        .unwrap();
    assert_eq!(raw.content, "[FORGOTTEN]");

    let http_origin = OriginAuthorityLabelV1::operator_system(
        "principal:semantic-memory-http",
        "caller:http-add",
    );
    let http_fact = runtime
        .block_on(store.authority().append(
            AuthorityPermit::operator_system(
                "principal:semantic-memory-http",
                "caller:http-add",
                AuthorityPermit::APPEND_CAPABILITY,
            )
            .with_origin(http_origin),
            "cross-adapter-forget".into(),
            "authority-test".into(),
            "cross adapter fact".into(),
            None,
        ))
        .unwrap()
        .affected_ids[0]
        .clone();
    let json = delete_fact(&runtime, &store, &http_fact);
    assert_eq!(json["forgotten"], true);
    assert_eq!(
        runtime
            .block_on(store.get_fact_raw_compat(&http_fact))
            .unwrap()
            .unwrap()
            .content,
        "[FORGOTTEN]"
    );
}

#[test]
fn routing_feedback_batch_persists_and_survives_restart() {
    let dir = tempfile::tempdir().unwrap();
    let runtime = runtime();
    let store = open_store(&dir);
    let query = "compare rust vs python performance";
    let profile = QueryProfile::from_query(query);
    let router = RetrievalRouter::default();

    let mut batch = OutcomeBatch::new();
    let mut policy = runtime.block_on(store.load_routing_policy()).unwrap().unwrap_or_default();
    for index in 0..PERSIST_BATCH {
        let decision = if is_trained(&policy) {
            route_with_policy(&policy, &profile)
        } else {
            router.route(&profile)
        };
        record_routing_outcome(&mut policy, &profile, &decision, RoutingOutcome::Bad);
        let persisted = batch.record();
        if persisted {
            runtime.block_on(store.save_routing_policy(&policy)).unwrap();
            batch.stored();
        }
        let receipt = value(&finish_record_outcome(
            query,
            "bad",
            &RoutingDecision {
                bm25_coarse: decision.bm25_coarse,
                vector_medium: decision.vector_medium,
                rerank_fine: decision.rerank_fine,
                graph_expansion: decision.graph_expansion,
                decoder: decision.decoder,
                discord: decision.discord,
                no_retrieval: decision.no_retrieval,
                reasoning: decision.reasoning.clone(),
            },
            &PolicyState {
                trained_examples: policy.trained_examples as u64,
                baseline: number(policy.baseline),
                weights: document(&serde_json::to_value(&policy.weights).unwrap()),
                last_updated: Json::from_optional_text(&policy.last_updated),
                persisted,
                pending_outcomes: batch.pending,
            },
            mcp_receipt("sm_record_outcome"),
        ));
        assert_eq!(
            receipt["policy_state"]["persisted"],
            index + 1 == PERSIST_BATCH
        );
    }

    let persisted = runtime
        .block_on(store.load_routing_policy())
        .unwrap()
        .expect("batched routing policy persisted");
    assert_eq!(persisted.trained_examples, PERSIST_BATCH);
    assert!(persisted.last_updated.is_some());
    assert!(is_trained(&persisted));

    let heuristic = router.route(&profile);
    let before_restart = route_with_policy(&persisted, &profile);
    assert_ne!(before_restart.rerank_fine, heuristic.rerank_fine);

    let policy_json = value(&finish_get_policy(&Some(StoredPolicy {
        weights: document(&serde_json::to_value(&persisted.weights).unwrap()),
        trained_examples: persisted.trained_examples as u64,
        trained: is_trained(&persisted),
        last_updated: Json::from_optional_text(&persisted.last_updated),
    })));
    assert_eq!(policy_json["policy"]["training_examples_count"], PERSIST_BATCH);
    assert!(policy_json["policy"]["last_updated"].is_string());

    drop(store);
    let restarted = open_store(&dir);
    let loaded = runtime
        .block_on(restarted.load_routing_policy())
        .unwrap()
        .expect("routing policy loaded after restart");
    let after_restart = route_with_policy(&loaded, &profile);
    assert_eq!(after_restart.bm25_coarse, before_restart.bm25_coarse);
    assert_eq!(after_restart.vector_medium, before_restart.vector_medium);
    assert_eq!(after_restart.rerank_fine, before_restart.rerank_fine);
    assert_eq!(after_restart.decoder, before_restart.decoder);
}

fn governed_store(
    dir: &tempfile::TempDir,
    runtime: &tokio::runtime::Runtime,
    scopes: AuthorityScopesV1,
) -> (MemoryStore, String) {
    let store = open_store(dir);
    let origin = OriginAuthorityLabelV1::new(
        OriginClassV1::UserStatement,
        "principal:writer",
        "governed-decision-test",
        "blake3:governed-decision-source",
        OriginRiskV1::Low,
        scopes,
        ElevationRequirementV1::ExplicitOperatorApproval,
        None,
        RevocationStatusV1::Active,
        vec!["principal:alice".into(), "team:medical".into()],
    )
    .unwrap()
    .with_subject_principal(SubjectPrincipalV1::new("principal:patient").unwrap())
    .with_resource_scope(NamespaceScopeV1::exact("medical"));
    let fact_id = runtime
        .block_on(
            store.authority().append(
                AuthorityPermit::with_evidence(
                    "principal:writer",
                    "governed-decision-test",
                    AuthorityPermit::APPEND_CAPABILITY,
                    evidence_digests(&vec!["evidence:test".into()]),
                )
                .with_origin(origin),
                "governed-decision".into(),
                "medical".into(),
                "CONFIDENTIAL_MEMORY_SENTINEL".into(),
                None,
            ),
        )
        .unwrap()
        .affected_ids[0]
        .clone();
    (store, fact_id)
}

fn medical(namespace: &str) -> GovernedNamespaceScopeParams {
    GovernedNamespaceScopeParams {
        namespace: namespace.into(),
        domain: None,
        workspace_id: None,
        repo_id: None,
    }
}

fn decision_params(fact_id: &str) -> GovernedDecisionParams {
    GovernedDecisionParams {
        fact_id: fact_id.into(),
        caller: "principal:alice".into(),
        subject: "principal:patient".into(),
        audiences: vec!["principal:alice".into(), "team:medical".into()],
        scope: medical("medical"),
        delegation_or_elevation: None,
    }
}

fn scope_of(scope: &GovernedNamespaceScopeParams) -> NamespaceScopeV1 {
    NamespaceScopeV1 {
        namespace: scope.namespace.clone(),
        domain: scope.domain.clone(),
        workspace_id: scope.workspace_id.clone(),
        repo_id: scope.repo_id.clone(),
    }
}

fn invoke_decision(
    runtime: &tokio::runtime::Runtime,
    store: &MemoryStore,
    purpose: GovernedAccessPurposeV1,
    params: &GovernedDecisionParams,
) -> Value {
    let fact_id = check_governed(params).unwrap();
    let request = GovernedAccessRequestV1::for_principals(
        CallerPrincipalV1::new(params.caller.clone()).unwrap(),
        SubjectPrincipalV1::new(params.subject.clone()).unwrap(),
        params.audiences.clone(),
        purpose,
        scope_of(&params.scope),
    );
    let access = runtime
        .block_on(store.authority().get_fact_governed(&fact_id, request))
        .unwrap();
    serde_json::to_value(&access.decision).unwrap()
}

fn gives(receipt: &Value, reason: &str) -> bool {
    receipt["reasons"]
        .as_array()
        .unwrap()
        .iter()
        .any(|given| given == reason)
}

#[test]
fn recall_authority_does_not_imply_assertion_or_action_authority_and_denials_omit_content() {
    let dir = tempfile::tempdir().unwrap();
    let runtime = runtime();
    let (store, fact_id) = governed_store(
        &dir,
        &runtime,
        AuthorityScopesV1 {
            recall: AuthorityScopeV1::Audience,
            assertion: AuthorityScopeV1::Denied,
            action: AuthorityScopeV1::Denied,
        },
    );

    for (purpose, name) in [
        (GovernedAccessPurposeV1::Assertion, "assertion"),
        (GovernedAccessPurposeV1::Action, "action"),
    ] {
        let receipt = invoke_decision(&runtime, &store, purpose, &decision_params(&fact_id));
        assert_eq!(receipt["schema_version"], "origin_authority_decision_v1");
        assert_eq!(receipt["allowed"], false);
        assert_eq!(receipt["purpose"], name);
        assert!(gives(&receipt, "scope_or_principal_denied"));
        let serialized = receipt.to_string();
        assert!(!serialized.contains("CONFIDENTIAL_MEMORY_SENTINEL"));
        for forbidden in ["fact", "content", "origin", "memory"] {
            assert!(receipt.get(forbidden).is_none(), "leaked field {forbidden}");
        }
    }
}

fn add_fact(store: &MemoryStore, content: &str, namespace: &str) -> String {
    runtime()
        .block_on(store.add_fact(namespace, content, None, None))
        .expect("add_fact should succeed")
}

#[test]
fn bridge_opens_with_mock_embedder() {
    let dir = tempfile::tempdir().unwrap();
    let _store = open_store(&dir);
    assert!(dir.path().join("memory.db").exists());
}

#[test]
fn add_and_search_fact() {
    let dir = tempfile::tempdir().unwrap();
    let store = open_store(&dir);
    let id = add_fact(
        &store,
        "Rust is a systems programming language focused on safety and performance.",
        "coding",
    );
    assert!(!id.is_empty(), "fact_id should be non-empty");

    let query = "Rust programming safety";
    let results = runtime()
        .block_on(store.search(query, Some(10), None, None))
        .expect("search should succeed");
    assert!(!results.is_empty(), "search should return results");
    let found = results.iter().any(|r| r.content.contains("Rust"));
    assert!(found, "search should find the Rust fact");
    let reply = value(&finish_search(query, &results.iter().map(hit).collect(), &vec![], 10));
    assert_eq!(reply["results"][0]["result_id"], format!("fact:{id}"));
}

#[test]
fn add_facts_in_multiple_namespaces_and_filter() {
    let dir = tempfile::tempdir().unwrap();
    let store = open_store(&dir);
    add_fact(&store, "Python is great for data science and ML pipelines.", "coding");
    add_fact(&store, "The cat sat on the mat in Albertville Alabama.", "personal");
    let rt = runtime();
    let all = rt
        .block_on(store.search("cat mat Albertville", Some(10), None, None))
        .expect("search should succeed");
    assert!(!all.is_empty());

    let filtered = rt
        .block_on(store.search("cat mat", Some(10), Some(&["personal"]), None))
        .expect("search should succeed");
    assert!(!filtered.is_empty());
    let all_personal = filtered
        .iter()
        .all(|r| r.content.contains("cat") || r.content.contains("Albertville"));
    assert!(all_personal, "filtered results should all be from personal namespace");
    let shown = http_api::search_results(&filtered.iter().map(hit).collect());
    assert!(shown.iter().all(|result| value(result)["namespace"] == "personal"));
}

#[test]
fn supersede_fact_via_graph_edge() {
    let dir = tempfile::tempdir().unwrap();
    let store = open_store(&dir);
    let rt = runtime();
    let old_id = add_fact(&store, "turbo-quant has 1000 downloads.", "libraries");
    let plan = plan_supersession(&old_id, &Some("libraries".to_string()), &None, &None)
        .ok()
        .unwrap();
    let new_id = rt
        .block_on(store.add_fact(&plan.namespace, "turbo-quant has 4000 downloads.", None, None))
        .expect("add replacement should succeed");
    assert_eq!(plan.old_node, format!("fact:{}", old_id));
    let edge = rt
        .block_on(store.add_graph_edge(
            &format!("fact:{}", new_id),
            &plan.old_node,
            superseding(),
            1.0,
            Some(value(&plan.metadata)),
        ))
        .expect("add supersedes edge should succeed");
    let reply = value(&finish_supersession(
        &plan,
        &new_id,
        &edge.id,
        mcp_receipt("sm_supersede_fact"),
    ));
    assert_eq!(reply["new_result_id"], format!("fact:{}", new_id));

    let results = rt
        .block_on(store.search("turbo-quant downloads", Some(10), None, None))
        .expect("search should succeed");
    let has_new = results.iter().any(|r| r.content.contains("4000 downloads"));
    assert!(has_new, "new fact should appear in search");
}

#[test]
fn delete_fact_removes_it() {
    let dir = tempfile::tempdir().unwrap();
    let store = open_store(&dir);
    let id = add_fact(&store, "Temporary fact to be deleted.", "test");
    let rt = runtime();
    rt.block_on(store.delete_fact(&id)).expect("delete should succeed");
    let fact = rt.block_on(store.get_fact(&id));
    assert!(
        fact.is_err() || fact.is_ok_and(|f| f.is_none()),
        "deleted fact should not be retrievable"
    );
    assert_eq!(value(&finish_get_fact(&id, &None))["found"], false);
}

#[test]
fn list_namespaces_returns_all() {
    let dir = tempfile::tempdir().unwrap();
    let store = open_store(&dir);
    add_fact(&store, "Fact in namespace alpha.", "alpha");
    add_fact(&store, "Fact in namespace beta.", "beta");
    add_fact(&store, "Fact in namespace gamma.", "gamma");
    let namespaces = runtime()
        .block_on(store.list_fact_namespaces())
        .expect("list_fact_namespaces should succeed");
    assert!(
        namespaces.len() >= 3,
        "should have at least 3 namespaces, got: {:?}",
        namespaces
    );
    assert!(namespaces.contains(&"alpha".to_string()));
    assert!(namespaces.contains(&"beta".to_string()));
    assert!(namespaces.contains(&"gamma".to_string()));
    let reply = value(&finish_list_namespaces(&namespaces));
    assert_eq!(reply["count"], namespaces.len());
}

#[test]
fn add_and_list_graph_edges() {
    let dir = tempfile::tempdir().unwrap();
    let store = open_store(&dir);
    let id_a = add_fact(&store, "Fact A about semantic search.", "graph");
    let id_b = add_fact(&store, "Fact B about vector databases.", "graph");
    let rt = runtime();
    let source = node_of_fact(&id_a);
    let target = node_of_fact(&id_b);
    assert_eq!(source, format!("fact:{}", id_a));
    rt.block_on(store.add_graph_edge(
        &source,
        &target,
        GraphEdgeType::Semantic {
            cosine_similarity: 0.85,
        },
        1.0,
        None,
    ))
    .expect("add_graph_edge should succeed");

    let edges = rt
        .block_on(store.list_graph_edges_for_node(&source))
        .expect("list_graph_edges should succeed");
    assert!(!edges.is_empty(), "should have at least one edge from A");
    let found = edges.iter().any(|e| e.target == target);
    assert!(found, "should find the edge A->B");
    assert_eq!(edge(&edges[0]).label_or_entity(), "semantic");
}

#[test]
fn stats_returns_counts() {
    let dir = tempfile::tempdir().unwrap();
    let store = open_store(&dir);
    add_fact(&store, "Fact for stats test.", "stats_ns");
    let stats = runtime()
        .block_on(store.stats())
        .expect("stats should succeed");
    assert!(
        stats.total_facts >= 1,
        "should have at least 1 fact, got: {}",
        stats.total_facts
    );
    let reply = value(&finish_stats(
        &Ok(http_api::StoreStats {
            facts: stats.total_facts,
            documents: stats.total_documents,
            chunks: stats.total_chunks,
            sessions: stats.total_sessions,
            messages: stats.total_messages,
            database_bytes: stats.database_size_bytes,
            database_megabytes: Json::Null,
            embedding_model: stats.embedding_model,
            embedding_dimensions: stats.embedding_dimensions.map(|n| n as u64),
        }),
        &Ok(0),
    ));
    assert_eq!(reply["facts"], 1);
    assert_eq!(reply["ok"], true);
}

#[test]
fn autonomous_profiles_expose_witnessed_search_and_stored_replay() {
    // Lean is the autonomous read-only profile: 4 governed tools only.
    let lean = server("lean");
    assert!(lean.exposes_tool("sm_search_witnessed"));
    assert!(lean.exposes_tool("sm_replay_search"));
    assert!(lean.exposes_tool("sm_decide_assertion_authority"));
    assert!(lean.exposes_tool("sm_decide_action_authority"));
    assert!(!lean.exposes_tool("sm_search"));
    assert_eq!(
        lean.exposed_tool_names(),
        vec![
            "sm_decide_action_authority",
            "sm_decide_assertion_authority",
            "sm_replay_search",
            "sm_search_witnessed",
        ]
    );
    for name in [
        "sm_decide_assertion_authority",
        "sm_decide_action_authority",
    ] {
        let annotations = lean.tool_annotations(name).expect("decision metadata");
        assert_eq!(annotations.read_only, Some(true));
        assert_ne!(annotations.destructive, Some(true));
    }
    for forbidden in [
        "sm_add_fact",
        "sm_delete_fact",
        "sm_delete_namespace",
        "sm_update_fact",
        "sm_set_provenance",
        "sm_record_outcome",
    ] {
        assert!(!lean.exposes_tool(forbidden), "lean exposed {forbidden}");
    }

    // Standard is an exact compatibility alias for lean.
    let second = server("standard");
    assert!(second.exposes_tool("sm_search_witnessed"));
    assert!(second.exposes_tool("sm_replay_search"));
    assert!(second.exposes_tool("sm_decide_assertion_authority"));
    assert!(second.exposes_tool("sm_decide_action_authority"));
    assert_eq!(second.exposed_tool_names(), lean.exposed_tool_names());
    for forbidden in [
        "sm_search",
        "sm_add_fact",
        "sm_delete_fact",
        "sm_delete_namespace",
        "sm_record_outcome",
    ] {
        assert!(
            !second.exposes_tool(forbidden),
            "standard exposed {forbidden}"
        );
    }

    let dir = tempfile::tempdir().unwrap();
    let store = open_store(&dir);
    let runtime = runtime();
    let permit = AuthorityPermit::operator_system(
        "lean-principal",
        "lean-caller",
        AuthorityPermit::APPEND_CAPABILITY,
    );
    runtime
        .block_on(store.authority().append(
            permit,
            "lean-canary".into(),
            "lean".into(),
            "lean profile canary should remain queryable by witnessed surfaces".into(),
            Some("tests/canary.md".into()),
        ))
        .unwrap();
    let lean_server = server("lean");
    assert!(lean_server.exposes_tool("sm_search_witnessed"));
    assert!(!lean_server.exposes_tool("sm_add_fact"));
    let results = runtime
        .block_on(store.search("lean profile canary", Some(5), None, None))
        .unwrap();
    assert!(
        results
            .iter()
            .any(|result| result.content.contains("lean profile canary")),
        "Canary should be queryable in lean-profile environment"
    );
    let reply = value(&finish_search(
        "lean profile canary",
        &results.iter().map(hit).collect(),
        &vec![],
        5,
    ));
    assert!(reply.to_string().contains("lean profile canary"));

    let full = server("full");
    assert!(full.exposes_tool("sm_search_witnessed"));
    assert!(full.exposes_tool("sm_search"));
}

fn store_stats(store: &MemoryStore) -> http_api::StoreStats {
    let stats = runtime().block_on(store.stats()).expect("stats should succeed");
    http_api::StoreStats {
        facts: stats.total_facts,
        documents: stats.total_documents,
        chunks: stats.total_chunks,
        sessions: stats.total_sessions,
        messages: stats.total_messages,
        database_bytes: stats.database_size_bytes,
        database_megabytes: Json::Null,
        embedding_model: stats.embedding_model,
        embedding_dimensions: stats.embedding_dimensions.map(|n| n as u64),
    }
}

#[test]
fn stats_endpoint_returns_counts() {
    let dir = tempfile::tempdir().unwrap();
    let store = open_store(&dir);
    add_fact(&store, "Test fact for stats.", "stats");
    assert!(matches!(route("POST", "/stats", ToolProfile::Full), Route::Stats));
    let edges = runtime().block_on(store.list_all_graph_edges()).unwrap();
    let reply = http_api::stats_reply(&Ok(store_stats(&store)), &Ok(edges.len()));
    let body = write_document(&reply.body);
    let json: Value = serde_json::from_str(&body).expect("valid JSON");
    assert_eq!(json["ok"], Value::Bool(true));
    assert_eq!(json["components"]["core"]["health"], "healthy");
    assert_eq!(json["components"]["graph"]["health"], "healthy");
    assert!(
        json["facts"].as_u64().unwrap_or(0) >= 1,
        "should have >= 1 fact, got: {}",
        body
    );
}

fn stored(edge: &StoredGraphEdge) -> StoredEdge {
    StoredEdge {
        id: edge.id.clone(),
        source: edge.source.clone(),
        target: edge.target.clone(),
        edge_type: edge.edge_type.clone(),
        weight: number(edge.weight),
        metadata: Json::from_optional_text(&edge.metadata),
        content_digest: Json::from_text(&edge.content_digest),
        recorded_at: edge.recorded_at.clone(),
    }
}

#[test]
fn listed_edges_have_the_type_that_was_stored() {
    let dir = tempfile::tempdir().unwrap();
    let store = open_store(&dir);
    let rt = runtime();
    for (target, kind) in [
        ("b", GraphEdgeType::Semantic { cosine_similarity: 0.5 }),
        ("c", GraphEdgeType::Temporal { delta_secs: 60 }),
        (
            "d",
            GraphEdgeType::Causal {
                confidence: 0.25,
                evidence_ids: vec!["e".to_string()],
            },
        ),
        ("e", superseding()),
    ] {
        rt.block_on(store.add_graph_edge("fact:a", target, kind, 1.0, None)).unwrap();
    }
    for listed in rt.block_on(store.list_all_graph_edges()).unwrap() {
        let told = value(&edge(&listed).kind.expect("a known type").describe());
        match listed.target.as_str() {
            "b" => assert_eq!(told["cosine_similarity"], 0.5),
            "c" => assert_eq!(told["delta_secs"], 60),
            "d" => {
                assert_eq!(told["confidence"], 0.25);
                assert_eq!(told["evidence_ids"][0], "e");
            }
            _ => assert_eq!(told["relation"], "supersedes"),
        }
    }
    assert!(listed_edge("a", "b", "not a type", Json::Null, &None).kind.is_none());
}

#[test]
fn auto_edges_are_created_once_and_rebuilt() {
    let dir = tempfile::tempdir().unwrap();
    let store = open_store(&dir);
    let rt = runtime();
    let mut facts: Vec<ScannedFact> = Vec::new();
    for (namespace, content) in [
        ("coding", "Tokio drives the scheduler"),
        ("notes", "We ran tokio in the lab"),
        ("twitter", "tokio is trending"),
        ("notes", "the cat sat on a mat"),
    ] {
        facts.push(ScannedFact {
            id: add_fact(&store, content, namespace),
            namespace: namespace.to_string(),
            content: content.to_string(),
        });
    }
    let joined = |edges: &[StoredGraphEdge]| -> Vec<(String, String)> {
        edges.iter().map(|e| (e.source.clone(), e.target.clone())).collect()
    };
    let plan = plan_auto_edges(&facts, &vec![]);
    assert_eq!(plan.len(), 1);
    assert_eq!(plan[0].source, format!("fact:{}", facts[0].id));
    assert_eq!(plan[0].target, format!("fact:{}", facts[1].id));
    assert_eq!(plan[0].relation, "related");
    assert_eq!(value(&plan[0].metadata)["term"], "tokio");
    rt.block_on(store.add_graph_edge(
        &plan[0].source,
        &plan[0].target,
        GraphEdgeType::Entity {
            relation: plan[0].relation.clone(),
        },
        1.0,
        Some(value(&plan[0].metadata)),
    ))
    .unwrap();
    let edges = rt.block_on(store.list_all_graph_edges()).unwrap();
    assert!(plan_auto_edges(&facts, &joined(&edges)).is_empty());
    let outdated = outdated_edges(&edges.iter().map(stored).collect());
    assert_eq!(outdated, vec![edges[0].id.clone()]);
    rt.block_on(store.invalidate_graph_edge(&outdated[0], "auto-edge rebuild")).unwrap();
    let edges = rt.block_on(store.list_all_graph_edges()).unwrap();
    assert_eq!(plan_auto_edges(&facts, &joined(&edges)).len(), 1);
}

#[test]
fn second_order_hits_are_told_with_their_facts() {
    let dir = tempfile::tempdir().unwrap();
    let store = open_store(&dir);
    let rt = runtime();
    let near = add_fact(&store, "a neighbour", "notes");
    let far = add_fact(&store, "the anchor", "notes");
    let anchor = node_of_fact(&far);
    rt.block_on(store.add_graph_edge(
        &anchor,
        &node_of_fact(&near),
        GraphEdgeType::Entity {
            relation: "related".into(),
        },
        1.0,
        None,
    ))
    .unwrap();
    let edges = rt.block_on(store.list_all_graph_edges()).unwrap();
    let direct = vec![anchor];
    let hits = hits_over_all(&direct, &edges.iter().map(edge).collect()).unwrap();
    let ids = facts_named(&hits);
    assert_eq!(ids, vec![Some(near.clone())]);
    let facts = ids
        .iter()
        .map(|id| {
            let fact = rt.block_on(store.get_fact(id.as_ref()?)).ok().flatten()?;
            Some(FactText {
                namespace: fact.namespace,
                content: fact.content,
            })
        })
        .collect();
    let reply = http_api::finish_discord(&direct, edges.len(), &with_facts(&hits, &facts));
    let told = value(&reply.body)["discord_results"][0].clone();
    assert_eq!(told["result_id"], node_of_fact(&near));
    assert_eq!(told["content"], "a neighbour");
    assert_eq!(told["namespace"], "notes");
    let bare = http_api::finish_discord(&direct, edges.len(), &hits);
    assert!(value(&bare.body)["discord_results"][0].get("content").is_none());
}

#[test]
fn consolidated_facts_supersede_from_the_kept_one() {
    let dir = tempfile::tempdir().unwrap();
    let store = open_store(&dir);
    let rt = runtime();
    let keep = add_fact(&store, "the scheduler is fast", "notes");
    let other = add_fact(&store, "the scheduler is quick", "notes");
    let text = |id: &str| {
        rt.block_on(store.get_fact(id)).unwrap().map(|fact| FactText {
            namespace: fact.namespace,
            content: fact.content,
        })
    };
    let plan = plan_consolidation(
        &keep,
        &other,
        &text(&keep),
        &text(&other),
        &Some("the scheduler is fast and quick".to_string()),
    )
    .unwrap();
    rt.block_on(store.update_fact(&plan.keep_bare, &plan.content)).unwrap();
    rt.block_on(store.add_graph_edge(
        &plan.source,
        &plan.target,
        GraphEdgeType::Entity {
            relation: plan.relation.clone(),
        },
        1.0,
        Some(value(&plan.metadata)),
    ))
    .unwrap();
    assert_eq!(rt.block_on(store.stats()).unwrap().total_facts, 2);
    let edges = rt.block_on(store.list_all_graph_edges()).unwrap();
    assert_eq!(edges[0].source, node_of_fact(&keep));
    assert_eq!(edges[0].target, node_of_fact(&other));
    let results = rt.block_on(store.search("scheduler", Some(10), None, None)).unwrap();
    let reply = value(&finish_search(
        "scheduler",
        &results.iter().map(hit).collect(),
        &edges.iter().map(edge).collect(),
        10,
    ));
    assert_eq!(reply["count"], 1);
    assert_eq!(reply["results"][0]["content"], "the scheduler is fast and quick");
}
