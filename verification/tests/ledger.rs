use claim_ledger::{
    evaluate_proof_debt_gate, ContradictionRecord, ContradictionStatus, LedgerEntryBuilder,
    ProofDebtBudgetV1, ProofDebtGateDecision, ProofDebtSummaryV1, SupportState as LedgerState,
};
use semantic_memory_mcp::claims::{
    add_evidence, all_trust_labels, claim_without_fact, finish_benchmark_trust,
    finish_search_proof_debt, judged_results, prepare_claim, prepare_judgment, prepare_judgment_as,
    proof_debts_for_support_state, record_claim, record_judgment, risk_class_named,
    state_of_judgment, verify_claim, BenchmarkQuery, JudgmentError, ProofDebt, RiskClass,
};
use semantic_memory_mcp::contradictions::{
    detect_contradictions, finish_contradictions, finish_decoder, prepare_contradiction, record_contradiction, FoundCorrection,
    DetectedPair, MessagePassing, FoundSyndrome,
};
use semantic_memory_mcp::json::{parse_document, write_document, Json};
use semantic_memory_mcp::ledger::{read_checkpoint, read_entries, read_entry, support_state_named};
use semantic_memory_mcp::ledger_store::{
    expired_names, ClaimLedgerStore, CompactionConfig, CompactionStep, LedgerManifest, Publication,
};
use semantic_memory_mcp::search::{HitSource, SearchHit};
use semantic_memory_mcp::trust::{
    bare_fact_id, support_state_label, ClaimTrustIndex, LedgerEntry, LedgerEvent, SnapshotFacts,
    SupportState,
};
use serde_json::Value;

const LEGACY: &str = "claim_ledger.jsonl";

fn value(document: &Json) -> Value {
    serde_json::from_str(&write_document(document)).unwrap()
}

fn receipt() -> Json {
    Json::from_text("receipt")
}

fn claim_test_lines() -> Vec<String> {
    let first = LedgerEntryBuilder::new(1, None)
        .add_claim(
            "claim-1",
            "semantic-memory:fact:fact-1",
            "full",
            "verified claim",
        )
        .unwrap();
    let second = LedgerEntryBuilder::new(2, Some(first.entry_digest.clone()))
        .add_support_judgment(
            "judgment-1",
            "claim-1",
            "bundle-1",
            LedgerState::Supported,
            "test",
        )
        .unwrap();
    vec![
        claim_ledger::serialize_entry(&first).unwrap(),
        claim_ledger::serialize_entry(&second).unwrap(),
    ]
}

fn jsonl(lines: &[String]) -> String {
    lines.iter().map(|line| format!("{line}\n")).collect()
}

fn open_legacy(contents: Option<String>) -> ClaimLedgerStore {
    ClaimLedgerStore::open(ClaimLedgerStore::open_file(Ok(contents), LEGACY), LEGACY)
}

fn eager() -> CompactionConfig {
    CompactionConfig {
        dry_run: false,
        max_entries: 0,
        max_bytes: 0,
        retain_tail_entries: 1,
        max_backups: 2,
    }
}

fn publish(store: &ClaimLedgerStore, config: &CompactionConfig) -> Publication {
    match store.compact(config, 1_000).expect("a ledger that can be compacted") {
        CompactionStep::Publish(publication) => publication,
        CompactionStep::Report(_) => panic!("the compaction is due"),
    }
}

fn reopen(snapshot: &str, publication: &Publication) -> ClaimLedgerStore {
    let tail_path = publication.manifest.tail_path.clone();
    ClaimLedgerStore::open(
        ClaimLedgerStore::open_generation(
            Ok(snapshot.to_string()),
            Ok(publication.receipt.clone()),
            Ok(publication.tail.clone()),
            &tail_path,
            LEGACY,
        ),
        LEGACY,
    )
}

#[test]
fn claim_ledger_startup_rebuilds_from_verified_snapshot_and_tail() {
    let store = open_legacy(Some(jsonl(&claim_test_lines())));
    let publication = publish(&store, &eager());
    assert_eq!(value(&publication.report)["compacted"], true);

    let reopened = reopen(&publication.snapshot, &publication);
    assert!(reopened.trust_enabled);
    assert!(reopened.checkpoint.is_some());
    assert_eq!(reopened.entries.len(), 1);
    let mut index = ClaimTrustIndex::new();
    index.enable();
    index.load_snapshot(&reopened.checkpoint.as_ref().unwrap().facts);
    index.rebuild_from_ledger_incremental(&reopened.entries);
    assert_eq!(index.trust_for_fact("fact-1"), "supported");
    assert_eq!(reopened.trust_index().trust_for_fact("fact-1"), "supported");
    assert_eq!(reopened.next_sequence(), 3);
}

#[test]
fn interrupted_compaction_files_leave_old_ledger_usable() {
    let lines = claim_test_lines();
    // Without a manifest no generation is looked at.
    let reopened = open_legacy(Some(jsonl(&lines)));
    assert!(reopened.trust_enabled);
    assert!(reopened.checkpoint.is_none());
    assert_eq!(reopened.entries.len(), lines.len());
}

#[test]
fn tampered_active_snapshot_disables_claim_trust() {
    let store = open_legacy(Some(jsonl(&claim_test_lines())));
    let publication = publish(&store, &eager());
    let mut snapshot: Value = serde_json::from_str(&publication.snapshot).unwrap();
    snapshot["claims"][0]["normalized_claim"] = Value::from("tampered");

    let reopened = reopen(&snapshot.to_string(), &publication);
    assert!(!reopened.trust_enabled);
    assert!(reopened.entries.is_empty());
    assert_eq!(
        reopened.trust_index().trust_for_fact("fact-1"),
        "trust_enrichment_disabled"
    );
}

#[test]
fn compact_claim_ledger_defaults_to_dry_run_without_writes() {
    let mut store = open_legacy(None);
    for line in claim_test_lines() {
        let entry = read_entry(&line).unwrap();
        assert_eq!(store.check_append(&entry).unwrap(), format!("{line}\n"));
        store.append(entry);
    }
    let config = CompactionConfig::from_options(None, Some(0), Some(0), Some(1), Some(2));
    assert!(config.dry_run);
    match store.compact(&config, 1_000).unwrap() {
        CompactionStep::Report(response) => {
            let response = value(&response);
            assert_eq!(response["dry_run"], true);
            assert_eq!(response["compacted"], false);
        }
        CompactionStep::Publish(_) => panic!("a dry run publishes nothing"),
    }
    assert_eq!(store.entries.len(), 2);
    assert!(store.checkpoint.is_none());
}

#[test]
fn verify_ledger_accepts_empty_input() {
    let store = open_legacy(Some(String::new()));
    assert!(store.trust_enabled);
    assert!(store.entries.is_empty());
    assert_eq!(store.next_sequence(), 1);
    assert_eq!(store.last_digest(), None);
}

#[test]
fn proof_debt_budget_creates_with_defaults() {
    let budget = ProofDebtBudgetV1::new("claim:test_001", 1_000_000);
    assert!(budget.budget_id.starts_with("pdb_"));
    assert_eq!(budget.budget_micros, 1_000_000);
    assert_eq!(budget.consumed_micros, 0);
    assert!(!budget.is_exhausted());

    let summary = ProofDebtSummaryV1::from_budget(&budget);
    assert_eq!(summary.scope, "claim:test_001");
    assert_eq!(summary.consumed_pct, 0);
    assert!(!summary.exhausted);
}

#[test]
fn contradiction_record_creates_with_candidate_status() {
    let record = ContradictionRecord::new(
        "claim:a_001",
        "claim:b_001",
        "numeric_disagreement",
        "values 42 and 99 conflict",
    );
    assert!(record.contradiction_id.starts_with("ctr_"));
    assert_eq!(record.claim_refs.len(), 2);
    assert_eq!(record.status, ContradictionStatus::Candidate);
    assert_eq!(record.pattern, "numeric_disagreement");
}

#[test]
fn proof_debt_gate_proceeds_with_low_consumption() {
    let budget = ProofDebtBudgetV1::new("claim:test_002", 1_000_000);
    let gate = evaluate_proof_debt_gate(&budget);
    assert_eq!(gate.decision, ProofDebtGateDecision::Proceed);
    assert!(!gate.exhausted);
    assert!(gate.decision.allows_proceed());
    assert!(!gate.decision.blocks());

    let index = open_legacy(None).trust_index();
    let reply = finish_search_proof_debt(
        "q",
        &index,
        &vec!["fact:a".to_string()],
        Some(1_000_000),
        receipt(),
    );
    let debt = &value(&reply)["proof_debt"];
    assert_eq!(debt["gate_decision"], "proceed");
    assert_eq!(debt["exhausted"], false);
    assert_eq!(debt["consumed_pct"], 0);
    assert_eq!(debt["gate_summary"], "proof debt ok: 0% consumed (0 / 1000000 micros)");
}

#[test]
fn proof_debt_gate_degrades_when_exhausted() {
    let mut budget = ProofDebtBudgetV1::new("claim:test_003", 100_000);
    budget.consume(100_000, "test", "100% consumption", false);
    let gate = evaluate_proof_debt_gate(&budget);
    assert_eq!(gate.decision, ProofDebtGateDecision::Degrade);
    assert!(gate.exhausted);
    assert!(gate.decision.blocks());

    let index = judged_index();
    let reply = finish_search_proof_debt(
        "q",
        &index,
        &vec!["fact:unsupported".to_string()],
        Some(250_000),
        receipt(),
    );
    let debt = &value(&reply)["proof_debt"];
    assert_eq!(debt["gate_decision"], "degrade");
    assert_eq!(debt["exhausted"], true);
    assert_eq!(debt["consumed_pct"], 100);
    assert_eq!(
        debt["gate_summary"],
        "proof debt exhausted: 100% consumed (250000 / 250000 micros)"
    );
}

fn judged_index() -> ClaimTrustIndex {
    let mut index = ClaimTrustIndex::new();
    index.enable();
    for (fact, state) in [
        ("supported", SupportState::Supported),
        ("unsupported", SupportState::Unsupported),
        ("contradicted", SupportState::Contradicted),
    ] {
        index.link_fact(fact, &format!("claim-{fact}"));
        index.record_judgment(&format!("claim-{fact}"), state);
    }
    index.link_fact("unjudged", "claim-unjudged");
    index
}

#[test]
fn proof_debt_adds_up_over_results() {
    let index = judged_index();
    let ids: Vec<String> = ["fact:supported", "unsupported", "fact:contradicted", "fact:unjudged", "other"]
        .iter()
        .map(|id| id.to_string())
        .collect();
    let reply = value(&finish_search_proof_debt("q", &index, &ids, None, receipt()));
    let micros: Vec<u64> = reply["results"]
        .as_array()
        .unwrap()
        .iter()
        .map(|result| result["debt_micros"].as_u64().unwrap())
        .collect();
    assert_eq!(micros, [0, 250_000, 400_000, 250_000, 0]);
    assert_eq!(reply["results"][2]["claim_id"], "claim-contradicted");
    assert_eq!(reply["results"][2]["trust"], "contradicted");
    assert!(reply["results"][4]["claim_id"].is_null());
    let debt = &reply["proof_debt"];
    assert_eq!(debt["total_debt_micros"], 900_000);
    assert_eq!(debt["unsupported_count"], 3);
    assert_eq!(debt["budget_micros"], 500_000);
    assert_eq!(debt["consumed_pct"], 180);
    assert_eq!(debt["gate_decision"], "retract");
    assert_eq!(debt["debit_count"], 4);
}

#[test]
fn contradicted_claims_owe_most() {
    assert_eq!(
        proof_debts_for_support_state(SupportState::Contradicted),
        vec![ProofDebt::MissingSourceBasis, ProofDebt::MissingRepro]
    );
    assert_eq!(
        proof_debts_for_support_state(SupportState::Unknown),
        vec![ProofDebt::MissingSourceBasis]
    );
    assert!(proof_debts_for_support_state(SupportState::PartiallySupported).is_empty());
}

#[test]
fn trust_is_benchmarked_over_queries() {
    let index = judged_index();
    let queries = vec![
        BenchmarkQuery {
            query: "one".to_string(),
            result_ids: vec!["fact:supported".to_string(), "fact:other".to_string()],
        },
        BenchmarkQuery {
            query: "two".to_string(),
            result_ids: vec!["fact:contradicted".to_string()],
        },
    ];
    assert_eq!(judged_results(&index, &queries), (2, 3));
    assert_eq!(
        all_trust_labels(&index, &queries),
        vec!["supported", "persisted_unjudged", "contradicted"]
    );
    let reply = value(&finish_benchmark_trust(
        &index,
        &queries,
        5,
        Json::Decimal("66.7".to_string()),
        receipt(),
    ));
    assert_eq!(reply["queries_run"], 2);
    assert_eq!(reply["total_results"], 3);
    assert_eq!(reply["judged_pct"], 66.7);
    assert_eq!(reply["trust_distribution"]["supported"], 1);
    assert_eq!(reply["per_query"][1]["trust_distribution"]["contradicted"], 1);
    assert_eq!(reply["per_query"][1]["result_count"], 1);
}

#[test]
fn recorded_claims_and_judgments_survive_a_restart() {
    let mut store = open_legacy(None);
    let mut index = store.trust_index();
    let mut file = String::new();

    let claim = prepare_claim(&store, "fact:f1", &None, "  Rust   IS fast ").unwrap();
    assert_eq!(claim.source_id, "semantic-memory:fact:f1");
    assert_eq!(claim.span_id, "full");
    assert_ne!(claim.normalized_claim, "  Rust   IS fast ");
    let claim_id = claim.claim_id.clone();
    file.push_str(&claim.written);
    let reply = value(&record_claim(&mut store, &mut index, "fact:f1", "  Rust   IS fast ", claim, receipt()));
    assert_eq!(reply["ok"], true);
    assert_eq!(reply["claim_id"], claim_id.as_str());
    assert_eq!(index.trust_for_fact("f1"), "persisted_unjudged");

    let judgment = prepare_judgment(&store, &claim_id, "supported").ok().unwrap();
    file.push_str(&judgment.written);
    let reply = value(&record_judgment(&mut store, &mut index, judgment, receipt()));
    assert_eq!(reply["ok"], true);
    assert_eq!(index.trust_for_fact("f1"), "supported");
    assert_eq!(store.next_sequence(), 3);

    let reopened = open_legacy(Some(file));
    assert!(reopened.trust_enabled);
    assert_eq!(reopened.entries.len(), 2);
    assert_eq!(reopened.trust_index().trust_for_fact("f1"), "supported");
    assert_eq!(reopened.last_digest(), store.last_digest());
}

#[test]
fn claims_are_identified_by_what_they_say() {
    let store = open_legacy(None);
    let id = |fact: &str, span: Option<&str>, content: &str| {
        prepare_claim(&store, fact, &span.map(|s| s.to_string()), content)
            .unwrap()
            .claim_id
    };
    assert_eq!(id("fact:a", None, "x"), id("a", Some("full"), "x"));
    assert_ne!(id("fact:a", None, "x"), id("fact:b", None, "x"));
    assert_ne!(id("fact:a", None, "x"), id("fact:a", None, "y"));
    assert_eq!(claim_without_fact("fact:z"), "fact not found: fact:z");
}

#[test]
fn unknown_judgments_are_refused() {
    let store = open_legacy(None);
    match prepare_judgment(&store, "claim-1", "maybe") {
        Err(JudgmentError::Invalid(message)) => assert!(message.contains("maybe")),
        _ => panic!("no such judgment"),
    }
    assert_eq!(state_of_judgment("contradicted"), Some(SupportState::Contradicted));
    assert_eq!(state_of_judgment("Supported"), None);
    let judged = prepare_judgment_as(&store, "j-1".to_string(), "claim-1", "unsupported").ok().unwrap();
    assert_eq!(judged.judgment_id, "j-1");
    assert_eq!(judged.state, SupportState::Unsupported);
    assert!(judged.written.contains("j-1"));
}

#[test]
fn disabled_ledgers_take_no_entries() {
    let store = open_legacy(Some("not json\n".to_string()));
    assert!(!store.trust_enabled);
    assert_eq!(
        prepare_claim(&store, "fact:f", &None, "x").err().unwrap(),
        "failed to record claim to ledger: claim ledger is disabled after verification failure"
    );
    match prepare_judgment(&store, "claim-1", "supported") {
        Err(JudgmentError::Ledger(message)) => assert!(message.contains("disabled")),
        _ => panic!("the ledger is disabled"),
    }
    assert!(!store.trust_index().is_enabled());
}

#[test]
fn broken_chains_disable_the_ledger() {
    let lines = claim_test_lines();
    for contents in [
        jsonl(&lines[1..]),
        jsonl(&[lines[0].clone(), lines[0].clone()]),
        jsonl(&[lines[1].clone(), lines[0].clone()]),
        jsonl(&[lines[0].replace("verified claim", "another claim"), lines[1].clone()]),
    ] {
        assert!(!open_legacy(Some(contents)).trust_enabled);
    }
    let unread = ClaimLedgerStore::open_file(Err("permission denied".to_string()), LEGACY);
    assert!(unread.is_err());
    assert!(!ClaimLedgerStore::open(unread, LEGACY).trust_enabled);
}

#[test]
fn entries_have_to_continue_the_head() {
    let lines = claim_test_lines();
    let mut store = open_legacy(Some(jsonl(&lines[..1])));
    let first = read_entry(&lines[0]).unwrap();
    let second = read_entry(&lines[1]).unwrap();
    assert!(store.check_append(&first).is_err());
    assert!(store.check_append(&second).is_ok());
    assert_eq!(store.append(second), store.last_digest().unwrap());
    assert_eq!(store.next_sequence(), 3);
}

#[test]
fn entries_are_read_from_their_lines() {
    let lines = claim_test_lines();
    let entries = read_entries(&lines).unwrap();
    assert_eq!(entries[0].sequence, 1);
    assert_eq!(entries[0].previous_entry_digest, None);
    assert_eq!(entries[1].previous_entry_digest, Some(entries[0].entry_digest.clone()));
    match &entries[0].event {
        LedgerEvent::ClaimAdded { claim_id, source_id, normalized_claim } => {
            assert_eq!(claim_id, "claim-1");
            assert_eq!(source_id, "semantic-memory:fact:fact-1");
            assert_eq!(normalized_claim, "verified claim");
        }
        _ => panic!("a claim was added"),
    }
    match &entries[1].event {
        LedgerEvent::SupportJudgment { claim_id, support_state } => {
            assert_eq!(claim_id, "claim-1");
            assert_eq!(*support_state, SupportState::Supported);
        }
        _ => panic!("a judgment was made"),
    }
    assert!(read_entry("{}").is_none());
    assert!(read_entries(&vec![lines[0].clone(), "x".to_string()]).is_none());
    assert_eq!(support_state_named("heuristic_only"), Some(SupportState::HeuristicOnly));
    assert_eq!(support_state_named("certain"), None);
}

#[test]
fn compaction_keeps_the_head_and_reports_what_it_did() {
    let store = open_legacy(Some(jsonl(&claim_test_lines())));
    let publication = publish(&store, &eager());
    assert_eq!(publication.retained, 1);
    assert_eq!(publication.facts.last_sequence, 1);
    let facts = read_checkpoint(&publication.snapshot).unwrap();
    assert_eq!(facts.last_sequence, publication.facts.last_sequence);
    assert_eq!(facts.last_digest, publication.facts.last_digest);
    assert!(publication.manifest.check().is_ok());
    let report = value(&publication.report);
    assert_eq!(report["ok"], true);

    let mut active = open_legacy(Some(jsonl(&claim_test_lines())));
    let head = (active.next_sequence(), active.last_digest());
    let tail_path = publication.manifest.tail_path.clone();
    active.activate(publication, &tail_path);
    assert_eq!((active.next_sequence(), active.last_digest()), head);
    assert_eq!(active.path, tail_path);
    assert_eq!(active.legacy_path, LEGACY);
    assert_eq!(active.trust_index().trust_for_fact("fact-1"), "supported");
}

#[test]
fn compaction_keeps_the_trust() {
    let mut store = open_legacy(Some(jsonl(&claim_test_lines())));
    for n in 2..4 {
        let claim = format!("claim-{n}");
        let source = format!("semantic-memory:fact:fact-{n}");
        let entry = LedgerEntryBuilder::new(store.next_sequence(), store.last_digest())
            .add_claim(&claim, &source, "full", &format!("another statement {n}"))
            .unwrap();
        let line = claim_ledger::serialize_entry(&entry).unwrap();
        assert_eq!(store.append(read_entry(&line).unwrap()), entry.entry_digest);
    }
    let entry = LedgerEntryBuilder::new(store.next_sequence(), store.last_digest())
        .add_support_judgment("judgment-2", "claim-2", "bundle-2", LedgerState::Unsupported, "test")
        .unwrap();
    let line = claim_ledger::serialize_entry(&entry).unwrap();
    assert_eq!(store.append(read_entry(&line).unwrap()), entry.entry_digest);

    let whole = store.trust_index();
    let labels = |index: &ClaimTrustIndex| -> Vec<String> {
        ["fact-1", "fact-2", "fact-3", "fact-4"]
            .iter()
            .map(|fact| index.trust_for_fact(fact).to_string())
            .collect()
    };
    assert_eq!(
        labels(&whole),
        vec!["supported", "unsupported", "persisted_unjudged", "persisted_unjudged"]
    );
    for retained in 0..5 {
        let config = CompactionConfig { retain_tail_entries: retained, ..eager() };
        let publication = publish(&store, &config);
        assert_eq!(publication.retained, retained);
        let reopened = reopen(&publication.snapshot, &publication);
        assert_eq!(labels(&reopened.trust_index()), labels(&whole));
        assert_eq!(reopened.next_sequence(), store.next_sequence());
    }
}

fn append_built(store: &mut ClaimLedgerStore, entry: claim_ledger::LedgerEntry) {
    let line = claim_ledger::serialize_entry(&entry).unwrap();
    assert_eq!(store.append(read_entry(&line).unwrap()), entry.entry_digest);
}

#[test]
fn compaction_stops_before_events_that_no_snapshot_holds() {
    let mut store = open_legacy(Some(jsonl(&claim_test_lines())));
    let resolved = LedgerEntryBuilder::new(store.next_sequence(), store.last_digest())
        .add_contradiction_resolved("r1", "c1", "kept", vec!["claim-1".to_string()])
        .unwrap();
    append_built(&mut store, resolved);
    assert!(matches!(store.entries[2].event, LedgerEvent::ContradictionResolved));
    let consumed = LedgerEntryBuilder::new(store.next_sequence(), store.last_digest())
        .add_proof_debt_consumed("b1", "d1", 5, "test", false)
        .unwrap();
    append_built(&mut store, consumed);
    assert!(matches!(store.entries[3].event, LedgerEvent::Other));
    let claim = LedgerEntryBuilder::new(store.next_sequence(), store.last_digest())
        .add_claim("claim-9", "semantic-memory:fact:fact-9", "full", "a later claim")
        .unwrap();
    append_built(&mut store, claim);
    for (retain, retained) in [(0, 2), (1, 2), (2, 2), (3, 3), (4, 4)] {
        let config = CompactionConfig { retain_tail_entries: retain, ..eager() };
        let publication = publish(&store, &config);
        assert_eq!(publication.retained, retained, "{retain}");
        assert_eq!(value(&publication.report)["compacted"], true);
        let reopened = reopen(&publication.snapshot, &publication);
        assert_eq!(reopened.entries.len(), retained);
        assert_eq!(reopened.trust_index().trust_for_fact("fact-1"), "supported");
    }
    let config = CompactionConfig { retain_tail_entries: 5, ..eager() };
    match store.compact(&config, 1_000).unwrap() {
        CompactionStep::Report(report) => assert_eq!(value(&report)["compacted"], false),
        CompactionStep::Publish(_) => panic!("everything is to stay"),
    }
    let config = CompactionConfig { dry_run: true, retain_tail_entries: 1, ..eager() };
    match store.compact(&config, 1_000).unwrap() {
        CompactionStep::Report(report) => {
            assert_eq!(value(&report)["retained_tail_entries"], 2);
            assert_eq!(value(&report)["snapshot_sequence"], 3);
        }
        CompactionStep::Publish(_) => panic!("a dry run changes nothing"),
    }
}

#[test]
fn compacted_ledgers_can_be_compacted_again() {
    let mut store = open_legacy(Some(jsonl(&claim_test_lines())));
    let publication = publish(&store, &eager());
    let path = publication.manifest.tail_path.clone();
    store.activate(publication, &path);
    let claim = LedgerEntryBuilder::new(store.next_sequence(), store.last_digest())
        .add_claim("claim-2", "semantic-memory:fact:fact-2", "full", "another claim")
        .unwrap();
    append_built(&mut store, claim);
    let again = publish(&store, &eager());
    assert_eq!(again.retained, 1);
    assert_eq!(again.facts.last_sequence, 2);
    assert_eq!(reopen(&again.snapshot, &again).next_sequence(), 4);
}

#[test]
fn altered_entries_are_not_compacted() {
    let mut store = open_legacy(Some(jsonl(&claim_test_lines())));
    let mut altered = LedgerEntryBuilder::new(store.next_sequence(), store.last_digest())
        .add_claim("claim-2", "semantic-memory:fact:fact-2", "full", "another claim")
        .unwrap();
    altered.entry_digest = "0".repeat(64);
    append_built(&mut store, altered);
    let error = match store.compact(&eager(), 1_000) {
        Err(error) => error,
        Ok(_) => panic!("the digest is wrong"),
    };
    assert!(error.contains("tail entry digest mismatch at sequence 3"), "{error}");
}

#[test]
fn small_ledgers_are_not_compacted() {
    let store = open_legacy(Some(jsonl(&claim_test_lines())));
    let config = CompactionConfig {
        dry_run: false,
        max_entries: 10,
        max_bytes: 1_000_000,
        retain_tail_entries: 1,
        max_backups: 2,
    };
    match store.compact(&config, 1_000).unwrap() {
        CompactionStep::Report(report) => assert_eq!(value(&report)["compacted"], false),
        CompactionStep::Publish(_) => panic!("no threshold was reached"),
    }
    let disabled = open_legacy(Some("not json\n".to_string()));
    assert!(disabled.compact(&config, 1_000).is_err());
}

#[test]
fn manifests_name_paths_below_the_store() {
    let manifest = |snapshot: &str| LedgerManifest {
        snapshot_path: snapshot.to_string(),
        ..LedgerManifest::of_generation("generation-1")
    };
    assert!(LedgerManifest::of_generation("generation-1").check().is_ok());
    assert!(manifest("../snapshot.json").check().is_err());
    assert!(manifest("/etc/snapshot.json").check().is_err());
    let other = LedgerManifest {
        format_version: "v0".to_string(),
        ..LedgerManifest::of_generation("generation-1")
    };
    assert!(other.check().is_err());
}

#[test]
fn rotation_keeps_the_newest_generations() {
    let names: Vec<String> = ["a", "b", "c", "d"].iter().map(|n| n.to_string()).collect();
    assert_eq!(expired_names(&names, Some("b"), 2), vec!["a"]);
    assert_eq!(expired_names(&names, None, 2), vec!["a", "b"]);
    assert!(expired_names(&names, None, 9).is_empty());
}

#[test]
fn trust_labels_follow_the_index() {
    let index = judged_index();
    assert_eq!(index.trust_for_fact("supported"), "supported");
    assert_eq!(index.trust_for_fact("unjudged"), "persisted_unjudged");
    assert_eq!(index.trust_for_fact("nothing"), "persisted_unjudged");
    assert_eq!(
        index.claim_and_state_for_fact("unsupported"),
        Some(("claim-unsupported".to_string(), Some(SupportState::Unsupported)))
    );
    assert_eq!(
        index.claim_and_state_for_fact("unjudged"),
        Some(("claim-unjudged".to_string(), None))
    );
    let mut off = judged_index();
    off.disable();
    assert_eq!(off.trust_for_fact("supported"), "trust_enrichment_disabled");
    for (state, label) in [
        (SupportState::Supported, "supported"),
        (SupportState::PartiallySupported, "partially_supported"),
        (SupportState::Unsupported, "unsupported"),
        (SupportState::Contradicted, "contradicted"),
        (SupportState::HeuristicOnly, "heuristic_only"),
        (SupportState::Unknown, "persisted_unjudged"),
    ] {
        assert_eq!(support_state_label(state), label);
    }
    assert_eq!(bare_fact_id("fact:fact:x"), "fact:x");
    assert_eq!(bare_fact_id("x"), "x");
}

#[test]
fn similar_content_is_linked_to_its_claim() {
    let mut index = ClaimTrustIndex::new();
    index.enable();
    index.register_claim("claim-1", "the release train is coral this week");
    index.record_judgment("claim-1", SupportState::Supported);
    assert_eq!(
        index.auto_link_content("f1", "The release train is CORAL this week"),
        Some("claim-1".to_string())
    );
    assert_eq!(index.trust_for_fact("f1"), "supported");
    assert_eq!(
        index.auto_link_content("f2", "the release train is coral this weekend"),
        Some("claim-1".to_string())
    );
    assert_eq!(index.auto_link_content("f3", "something else entirely"), None);
    assert_eq!(index.trust_for_fact("f3"), "persisted_unjudged");
    let results = vec![parse_document(
        r#"{"memory_id":"fact:f4","content":"the release train is coral this week"}"#,
    )
    .unwrap()];
    let enriched = index.enrich_results_with_trust(results);
    assert_eq!(value(&enriched[0])["trust"], "supported");
}

#[test]
fn catching_up_skips_what_was_seen() {
    let entries = read_entries(&claim_test_lines()).unwrap();
    let mut index = ClaimTrustIndex::new();
    index.enable();
    index.rebuild_from_ledger_incremental(&entries);
    index.record_judgment("claim-1", SupportState::Contradicted);
    index.rebuild_from_ledger_incremental(&entries);
    assert_eq!(index.trust_for_fact("fact-1"), "contradicted");
    index.apply_entry(&entries[1]);
    let mut snapshot_index = ClaimTrustIndex::new();
    snapshot_index.enable();
    snapshot_index.load_snapshot(&SnapshotFacts {
        content_links: vec![("text".to_string(), "claim-9".to_string())],
        fact_links: vec![("f9".to_string(), "claim-9".to_string())],
        support: vec![("claim-9".to_string(), SupportState::PartiallySupported)],
        last_sequence: 7,
        last_digest: None,
    });
    assert_eq!(snapshot_index.trust_for_fact("f9"), "partially_supported");
    snapshot_index.rebuild_from_ledger_incremental(&entries);
    assert_eq!(snapshot_index.trust_for_fact("fact-1"), "persisted_unjudged");
}

fn found(id: &str, content: &str) -> SearchHit {
    SearchHit {
        result_id: id.to_string(),
        content: content.to_string(),
        source: HitSource::Other,
        source_text: String::new(),
        score: Json::Null,
        bm25_rank: None,
        vector_rank: None,
        cosine_similarity: Json::Null,
    }
}

#[test]
fn contradictions_are_found_by_content() {
    let hits = vec![
        found("fact:a", "The MCP server exposes 33 tools."),
        found("fact:b", "The MCP server exposes 12 tools."),
        found("fact:c", "Something unrelated"),
    ];
    let pairs = detect_contradictions(&hits).unwrap();
    assert_eq!(pairs.len(), 1);
    assert_eq!((pairs[0].a.as_str(), pairs[0].b.as_str()), ("fact:a", "fact:b"));
    assert_eq!(pairs[0].signals, vec!["NumericDisagreement"]);
    assert_eq!(value(&pairs[0].score), 0.4 + 0.2 + 0.3);
    assert!(pairs[0].reason.contains("different numbers"));

    let values = vec![
        found("fact:a", "The default embedder is Candle"),
        found("fact:b", "The default embedder is Ollama"),
    ];
    assert_eq!(detect_contradictions(&values).unwrap()[0].signals, vec!["ValueDisagreement"]);
    assert!(detect_contradictions(&vec![]).unwrap().is_empty());
}

#[test]
fn texts_that_cannot_be_cut_are_not_compared() {
    // The lower case of the first character takes one byte more.
    let shifted = "\u{23a}\u{e9} is X";
    let hits = vec![found("fact:a", shifted), found("fact:b", "It is Y")];
    assert!(detect_contradictions(&hits).is_some());
    let inside = "\u{23a}x is \u{e9}";
    let hits = vec![found("fact:a", inside), found("fact:b", "It is Y")];
    assert!(detect_contradictions(&hits).is_none());
    assert!(detect_contradictions(&vec![found("fact:a", inside)]).unwrap().is_empty());
}

#[test]
fn contradictions_are_recorded_between_facts() {
    let mut store = open_legacy(None);
    let mut index = store.trust_index();
    let pair = DetectedPair {
        a: "fact:a".to_string(),
        b: "fact:b".to_string(),
        score: Json::Decimal("0.8".to_string()),
        signals: vec!["negation".to_string()],
        reason: "one denies the other".to_string(),
    };
    let prepared = prepare_contradiction(&mut index, &store, &pair).unwrap();
    let written = prepared.written.clone();
    let turned = DetectedPair {
        a: pair.b.clone(),
        b: pair.a.clone(),
        score: Json::Null,
        signals: pair.signals.clone(),
        reason: String::new(),
    };
    let again = prepare_contradiction(&mut index, &store, &turned).unwrap();
    assert_eq!(again.id, prepared.id);
    let recorded = record_contradiction(&mut store, prepared);
    assert_eq!(store.next_sequence(), 2);
    assert!(open_legacy(Some(written)).trust_enabled);
    let reply = value(&finish_contradictions(
        "q",
        2,
        &vec![pair],
        vec![recorded],
        receipt(),
    ));
    assert_eq!(reply["ok"], true);
    let entries: &Vec<LedgerEntry> = &store.entries;
    assert!(matches!(entries[0].event, LedgerEvent::ContradictionCandidate { .. }));
}

#[test]
fn decoder_replies_list_syndromes_and_corrections() {
    let reply = value(&finish_decoder(
        &vec![FoundSyndrome {
            id: Json::from_text("s1"),
            severity: "High".to_string(),
            items: vec!["fact:a".to_string()],
            description: "conflict".to_string(),
            syndrome_type: "Contradiction".to_string(),
        }],
        &vec![FoundCorrection {
            id: Json::from_text("c1"),
            confidence: Json::Decimal("0.5".to_string()),
            cost: Json::Decimal("1.0".to_string()),
            operations: 2,
        }],
        &MessagePassing {
            iterations: Json::Unsigned(3),
            converged: true,
            elapsed_ms: Json::Unsigned(1),
        },
    ));
    assert_eq!(reply["ok"], true);
    assert!(reply.to_string().contains("conflict"));
}

#[test]
fn risky_claims_need_more() {
    let verdict = |risk: &str, refs: Option<Vec<String>>, refuted: Option<bool>| {
        value(&verify_claim("a claim", risk, &refs, refuted).unwrap())
    };
    let bare = verdict("critical", None, None);
    assert_eq!(bare["ok"], true);
    let backed = verdict("low", Some(vec!["e1".to_string()]), Some(true));
    assert_ne!(bare["disposition"], backed["disposition"]);
    for risk in ["high", "critical"] {
        for refuted in [None, Some(false)] {
            let untested = verdict(risk, Some(vec!["e1".to_string()]), refuted);
            assert_eq!(untested["can_promote"], false, "{risk}");
            assert_ne!(untested["disposition"], "promote", "{risk}");
        }
    }
    assert_eq!(
        verdict("high", Some(vec!["e1".to_string()]), Some(false))["disposition"],
        "defer"
    );
    assert!(verify_claim("a claim", "extreme", &None, None).is_err());
    assert_eq!(risk_class_named("high"), Some(RiskClass::High));
    assert_eq!(risk_class_named("none"), None);
}

#[test]
fn evidence_is_bundled_for_a_claim() {
    let one = value(&add_evidence("claim-1", receipt()));
    let two = value(&add_evidence("claim-2", receipt()));
    assert_eq!(one["ok"], true);
    assert_eq!(one["claim_id"], "claim-1");
    assert_ne!(one.to_string(), two.to_string());
}
