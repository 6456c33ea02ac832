use semantic_memory_mcp::json::{write_document, Json};
use semantic_memory_mcp::search::{HitSource, SearchHit};
use semantic_memory_mcp::tools::{ReplayModeParam, RetrievalModeParam, SearchWitnessedParams};
use semantic_memory_mcp::witness::{
    check_durable, document_digest, exactness_name, finish_witnessed, missing_witness,
    plan_witnessed, plan_witnessed_at, rank_by_belief, receipt_reference, text_digest,
    witness_request_id, witnessed_injectible_fact, witnessed_results, AuthorityState, FactRecord,
    ModelIdentity, WitnessReceipt,
};
use serde_json::Value;

fn value(document: &Json) -> Value {
    serde_json::from_str(&write_document(document)).unwrap()
}

fn params() -> SearchWitnessedParams {
    SearchWitnessedParams {
        query: "alpha beta".into(),
        top_k: None,
        namespaces: Some(vec!["modes".into()]),
        request_id: None,
        retrieval_mode: None,
        replay_mode: None,
    }
}

fn hit(id: &str) -> SearchHit {
    SearchHit {
        result_id: format!("fact:{id}"),
        content: "found content".to_string(),
        score: Json::Decimal("0.5".to_string()),
        bm25_rank: Some(1),
        vector_rank: Some(2),
        cosine_similarity: Json::Decimal("0.75".to_string()),
        source: HitSource::Fact {
            fact_id: id.to_string(),
            namespace: "ns".to_string(),
        },
        source_text: String::new(),
    }
}

fn fact(id: &str, source: Option<&str>) -> FactRecord {
    FactRecord {
        id: id.to_string(),
        content: format!("stored content of {id}"),
        namespace: "ns".to_string(),
        source: source.map(|s| s.to_string()),
    }
}

#[test]
fn plans_digest_their_inputs() {
    let plan = plan_witnessed_at(&params(), 1_700_000_000_000_000, 7);
    assert_eq!(plan.request_id, "mcp-witness-1700000000000000-7");
    assert_eq!(plan.top_k, 5);
    assert_eq!(plan.mode, RetrievalModeParam::Hybrid);
    assert_eq!(plan.replay, ReplayModeParam::NoReplay);
    let blake = |text: &str| format!("blake3:{}", blake3::hash(text.as_bytes()).to_hex());
    assert_eq!(plan.query_digest, blake("alpha beta"));
    assert_eq!(plan.filter_digest, blake(r#"{"namespaces":["modes"]}"#));
    assert_eq!(
        plan.input_digest,
        blake(r#"{"filters":{"namespaces":["modes"]},"query":"alpha beta","top_k":5}"#)
    );
    assert_eq!(
        plan.config_digest,
        blake("retrieval_mode=hybrid;top_k=5;state=current;cache=bypass;exactness=prefer_exact")
    );
    assert_eq!(text_digest("x"), blake("x"));
    assert_eq!(document_digest(&Json::Null), blake("null"));
    assert_eq!(witness_request_id(-5, 0), "mcp-witness--5-0");
    assert!(plan_witnessed(&params(), 9).request_id.starts_with("mcp-witness-"));
    let mut named = params();
    named.request_id = Some("mine".into());
    assert_eq!(plan_witnessed(&named, 9).request_id, "mine");
}

#[test]
fn only_sourced_facts_are_injected() {
    let reference = receipt_reference("r1");
    assert_eq!(reference, "receipt:r1");
    let found = value(
        &witnessed_injectible_fact(&hit("f1"), &Some(fact("f1", Some("doc.md"))), &reference).unwrap(),
    );
    assert_eq!(found["memory_id"], "fact:f1");
    assert_eq!(found["content"], "stored content of f1");
    assert_eq!(found["source"], "doc.md");
    assert_eq!(found["trust"], "persisted_unjudged");
    assert_eq!(found["state"], "current");
    assert_eq!(found["retrieval_receipt_ref"], "receipt:r1");
    assert_eq!(found["cosine_similarity"], 0.75);
    assert!(witnessed_injectible_fact(&hit("f1"), &None, &reference).is_none());
    assert!(witnessed_injectible_fact(&hit("f1"), &Some(fact("f1", None)), &reference).is_none());
    assert!(witnessed_injectible_fact(&hit("f1"), &Some(fact("f1", Some(" \n"))), &reference).is_none());
    let mut chunk = hit("f1");
    chunk.source = HitSource::Chunk {
        document_title: "t".to_string(),
    };
    assert!(witnessed_injectible_fact(&chunk, &Some(fact("f1", Some("doc.md"))), &reference).is_none());
    let results = witnessed_results(
        &vec![hit("f1"), hit("f2"), hit("f3")],
        &vec![Some(fact("f1", Some("a"))), None, Some(fact("f3", Some("b")))],
        &reference,
    );
    assert_eq!(results.len(), 2);
    assert_eq!(value(&results[1])["memory_id"], "fact:f3");
}

#[test]
fn beliefs_rank_results() {
    let results = witnessed_results(
        &vec![hit("a"), hit("b"), hit("c")],
        &vec![
            Some(fact("a", Some("s"))),
            Some(fact("b", Some("s"))),
            Some(fact("c", Some("s"))),
        ],
        "receipt:r",
    );
    let ranked = rank_by_belief(
        results,
        &vec![
            ("fact:a".to_string(), 1),
            ("fact:c".to_string(), 9),
            ("fact:b".to_string(), 5),
        ],
    );
    let ids: Vec<String> = ranked
        .iter()
        .map(|result| value(result)["memory_id"].as_str().unwrap().to_string())
        .collect();
    assert_eq!(ids, ["fact:c", "fact:b", "fact:a"]);
}

#[test]
fn replies_say_what_ran() {
    let plan = plan_witnessed_at(&params(), 1, 1);
    let receipt = WitnessReceipt {
        receipt_id: "r1".to_string(),
        evaluation_time: Json::from_text("t0"),
        candidate_backend: Json::from_text("brute_force"),
        artifact_generation_id: Json::Null,
        degradations: Json::from_list(vec![]),
        approximate: false,
        exact_rerank: true,
    };
    let authority = AuthorityState {
        snapshot_id: Json::from_text("s1"),
        retrieval_epoch: Json::Unsigned(3),
    };
    let model = ModelIdentity {
        model: Some("mock".to_string()),
        dimensions: Some(768),
    };
    let results = witnessed_results(&vec![hit("a")], &vec![Some(fact("a", Some("s")))], "receipt:r1");
    let reply = value(&finish_witnessed(&plan, &receipt, &authority, &model, results, true));
    assert_eq!(reply["ok"], true);
    assert_eq!(reply["receipt_id"], "r1");
    assert_eq!(reply["retrieval_mode"], "hybrid");
    assert_eq!(reply["authority"]["snapshot_id"], "s1");
    assert_eq!(reply["complete_replay_available"], true);
    assert_eq!(reply["results"][0]["memory_id"], "fact:a");
    assert_eq!(reply["ordered_results"][0]["result_id"], "fact:a");
    let identity = blake3::hash(br#"{"dimensions":768,"model":"mock"}"#);
    assert_eq!(reply["digests"]["model"], format!("blake3:{}", identity.to_hex()));
}

#[test]
fn receipts_have_to_be_durable() {
    assert!(check_durable(true).is_ok());
    assert_eq!(
        check_durable(false).unwrap_err(),
        "receipt not durable; operation contained"
    );
    assert!(!missing_witness().is_empty());
    assert_ne!(exactness_name(true, false), exactness_name(false, false));
}
