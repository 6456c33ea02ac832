//! The parameters of the tools.
use vstd::prelude::*;

verus! {

/// Edge type for graph edges. JSON Schema enum helps LLMs pick the
/// right value without guessing.
#[derive(Clone, Copy, Debug, PartialEq, Eq, Structural)]
pub enum EdgeType {
    /// Semantic similarity edge (requires cosine_similarity)
    Semantic,
    /// Temporal ordering edge (requires delta_secs)
    Temporal,
    /// Causal relationship edge (requires confidence)
    Causal,
    /// Named relationship edge (requires relation)
    Entity,
}

/// Parameters for sm_search
#[derive(Debug)]
pub struct SearchParams {
    /// The search query string
    pub query: String,
    /// Maximum number of results to return (default 5)
    pub top_k: Option<u32>,
    /// Optional namespace filter (restrict search to these namespaces)
    pub namespaces: Option<Vec<String>>,
}

/// Parameters for sm_search_explained
#[derive(Debug)]
pub struct SearchExplainedParams {
    /// The query string
    pub query: String,
    /// Maximum number of results to return (default 5)
    pub top_k: Option<u32>,
}

/// Parameters for sm_add_fact
#[derive(Debug)]
pub struct AddFactParams {
    /// The fact content text
    pub content: String,
    /// Namespace to store the fact in (e.g. "general", "research", "coding")
    pub namespace: String,
    /// Optional source attribution
    pub source: Option<String>,
    /// When true, extract named entities via Ollama and link them as graph edges (opt-in)
    pub extract_entities: Option<bool>,
    /// Memory kind classification: durable_fact, preference, project_state, instruction_policy,
    /// correction, observation, episode_summary, skill_procedure, ephemeral_inference.
    /// Default: durable_fact. Ephemeral inferences require evidence_refs to promote.
    pub memory_kind: Option<String>,
    /// Sensitivity class: public, internal, confidential, restricted.
    /// Default: internal. Confidential/restricted facts are blocked from autocapture.
    pub sensitivity: Option<String>,
    /// Evidence references supporting this fact (URLs, fact IDs, source paths).
    pub evidence_refs: Option<Vec<String>>,
    /// Optional caller-provided idempotency key. Retries with the same key and
    /// payload return the original fact; omit it for a distinct append.
    pub idempotency_key: Option<String>,
}

/// Parameters for sm_ingest_document
#[derive(Debug)]
pub struct IngestDocumentParams {
    /// The document content text
    pub content: String,
    /// Document title
    pub title: String,
    /// Namespace to store the document in
    pub namespace: String,
}

/// Parameters for sm_graph_path
#[derive(Debug)]
pub struct GraphPathParams {
    /// Starting item ID
    pub from_id: String,
    /// Target item ID
    pub to_id: String,
    /// Maximum BFS depth (default 5)
    pub max_depth: Option<u32>,
}

/// Parameters for sm_route_query
#[derive(Debug)]
pub struct RouteQueryParams {
    /// The query string to profile and route
    pub query: String,
}

/// Parameters for sm_detect_contradictions
#[derive(Debug)]
pub struct DetectContradictionsParams {
    /// The query whose top results are scanned for content contradictions
    pub query: String,
    /// How many top results to scan (default 10)
    pub top_k: Option<u32>,
}

/// Parameters for sm_search_with_routing
#[derive(Debug)]
pub struct SearchWithRoutingParams {
    /// The search query string
    pub query: String,
    /// Maximum number of results (default 5)
    pub top_k: Option<u32>,
    /// Known contradiction pairs (item_a, item_b)
    pub contradictions: Option<Vec<(String, String)>>,
    /// When true, group search results by knowledge graph community membership
    pub group_by_community: Option<bool>,
}

/// Parameters for sm_discord_search
#[derive(Debug)]
pub struct DiscordSearchParams {
    /// Direct result item IDs (the top-K from search)
    pub direct_result_ids: Vec<String>,
}

/// Parameters for sm_run_lifecycle
#[derive(Debug)]
pub struct RunLifecycleParams {
    /// Item IDs to process in the lifecycle pass
    pub item_ids: Vec<String>,
}

/// Parameters for sm_list_graph_edges
#[derive(Debug)]
pub struct ListGraphEdgesParams {
    /// Node ID to list edges for. If omitted, lists all edges.
    pub node_id: Option<String>,
}

/// Parameters for sm_invalidate_graph_edge
#[derive(Debug)]
pub struct InvalidateGraphEdgeParams {
    /// Edge ID to invalidate
    pub edge_id: String,
    /// Reason for invalidation
    pub reason: String,
}

/// Parameters for sm_topology
#[derive(Debug)]
pub struct TopologyParams {}

/// Parameters for sm_get_fact
#[derive(Debug)]
pub struct GetFactParams {
    /// The fact id. Accepts a bare UUID or a prefixed id like "fact:<uuid>".
    pub fact_id: String,
}

/// Parameters for sm_list_facts
#[derive(Debug)]
pub struct ListFactsParams {
    /// Namespace to enumerate facts from.
    pub namespace: String,
    /// Maximum facts to return (default 50).
    pub limit: Option<u32>,
    /// Offset for pagination (default 0).
    pub offset: Option<u32>,
}

/// Parameters for sm_get_fact_neighbors
#[derive(Debug)]
pub struct GetFactNeighborsParams {
    /// The node id whose neighbors to fetch (bare UUID or prefixed "fact:<uuid>").
    pub item_id: String,
}

/// Parameters for sm_supersede_fact
#[derive(Debug)]
pub struct SupersedeFactParams {
    /// Existing stale fact id. Accepts a bare UUID or prefixed "fact:<uuid>".
    pub old_fact_id: String,
    /// Replacement fact content.
    pub content: String,
    /// Optional namespace for the replacement fact. Defaults to the old fact's namespace.
    pub namespace: Option<String>,
    /// Optional source attribution for the replacement fact.
    pub source: Option<String>,
    /// Optional reason stored on the supersedes graph edge.
    pub reason: Option<String>,
}

/// Parameters for sm_create_session
#[derive(Debug)]
pub struct CreateSessionParams {
    /// Channel or label of the session (e.g. "editor", "project-x").
    pub channel: String,
    /// Optional metadata as a JSON object string.
    pub metadata: Option<String>,
}

/// Parameters for sm_add_message
#[derive(Debug)]
pub struct AddMessageParams {
    /// Session id to append to.
    pub session_id: String,
    /// Role: "user", "assistant", "system", or "tool".
    pub role: String,
    /// Message content (embedded + FTS-indexed for conversation search).
    pub content: String,
}

/// Parameters for sm_list_sessions
#[derive(Debug)]
pub struct ListSessionsParams {
    /// Maximum sessions to return (default 20).
    pub limit: Option<u32>,
    /// Offset for pagination (default 0).
    pub offset: Option<u32>,
}

/// Parameters for sm_get_messages
#[derive(Debug)]
pub struct GetMessagesParams {
    /// Session id to read messages from.
    pub session_id: String,
    /// Return the most recent messages fitting within this token budget (default 4000).
    pub max_tokens: Option<u32>,
}

/// Parameters for sm_search_conversations
#[derive(Debug)]
pub struct SearchConversationsParams {
    /// The search query string.
    pub query: String,
    /// Maximum number of results (default 5).
    pub top_k: Option<u32>,
}

/// Parameters for sm_delete_fact
#[derive(Debug)]
pub struct DeleteFactParams {
    /// The fact id to permanently delete (bare UUID or prefixed "fact:<uuid>").
    pub fact_id: String,
}

/// Parameters for sm_delete_namespace
#[derive(Debug)]
pub struct DeleteNamespaceParams {
    /// The namespace to permanently delete (all its facts, documents, chunks, and namespaced sessions).
    pub namespace: String,
}

/// Parameters for sm_update_fact
#[derive(Debug)]
pub struct UpdateFactParams {
    /// The fact ID to update (with or without "fact:" prefix).
    pub fact_id: String,
    /// The new content for the fact.
    pub content: String,
}

/// Parameters for sm_consolidate_facts
#[derive(Debug)]
pub struct ConsolidateFactsParams {
    /// First fact ID (will be kept and updated with merged content).
    pub keep_id: String,
    /// Second fact ID (will be superseded by the kept fact).
    pub supersede_id: String,
    /// Optional merged content. If not provided, content from both facts will be concatenated.
    pub merged_content: Option<String>,
}

/// Parameters for sm_record_outcome
#[derive(Debug)]
pub struct RecordOutcomeParams {
    /// The query string that was routed.
    pub query: String,
    /// The outcome of the routing decision: "good", "bad", or "neutral".
    pub outcome: String,
}

/// Parameters for sm_create_claim
#[derive(Debug)]
pub struct CreateClaimParams {
    /// The fact ID to create a claim from (with or without "fact:" prefix).
    pub fact_id: String,
    /// Optional source span description (e.g., "line 42-58").
    pub source_span: Option<String>,
}

/// Parameters for sm_add_evidence
#[derive(Debug)]
pub struct AddEvidenceParams {
    /// The claim ID to add evidence to.
    pub claim_id: String,
    /// The evidence text supporting the claim.
    pub evidence_text: String,
    /// Optional source type (e.g., "document", "web", "experiment").
    pub source_type: Option<String>,
}

/// Parameters for sm_judge_support
#[derive(Debug)]
pub struct JudgeSupportParams {
    /// The claim ID to judge.
    pub claim_id: String,
    /// The support judgment: "supported", "unsupported", "contested", or "heuristic_only".
    pub judgment: String,
    /// Optional rationale for the judgment.
    pub rationale: Option<String>,
}

/// Parameters for sm_search_as_of
#[derive(Debug)]
pub struct SearchAsOfParams {
    /// The search query.
    pub query: String,
    /// The date to search as of (ISO 8601, e.g., "2026-01-15T00:00:00Z").
    pub as_of_date: String,
    /// Maximum number of results (default: 5).
    pub top_k: Option<usize>,
    /// Optional namespace filter.
    pub namespace: Option<String>,
}

/// Parameters for sm_verify_claim
#[derive(Debug)]
pub struct VerifyClaimParams {
    /// The claim text to verify.
    pub claim: String,
    /// Risk class: low, medium, high, critical.
    pub risk_class: String,
    /// Optional evidence references supporting the claim.
    pub evidence_refs: Option<Vec<String>>,
    /// Whether refutation was attempted (if false, high/critical claims cannot be promoted).
    pub refutation_attempted: Option<bool>,
}

/// Parameters for sm_get_search_receipt
#[derive(Debug)]
pub struct GetSearchReceiptParams {
    /// The receipt/request ID to look up.
    pub receipt_id: String,
}

/// Parameters for sm_replay_search_receipt
#[derive(Debug)]
pub struct ReplaySearchReceiptParams {
    /// The receipt/request ID to replay.
    pub receipt_id: String,
    /// The query text to use for replay (receipts don't store query text).
    pub query: String,
    /// Optional top_k for replay (defaults to original receipt's result count).
    pub top_k: Option<u32>,
    /// Optional namespace filter for replay.
    pub namespaces: Option<Vec<String>>,
}

/// Parameters for sm_reconcile
#[derive(Debug)]
pub struct ReconcileParams {
    /// Action to take: "report_only", "rebuild_fts", or "re_embed".
    pub action: String,
}

/// Parameters for sm_embeddings_are_dirty
#[derive(Debug)]
pub struct EmbeddingsAreDirtyParams {}

/// Parameters for sm_list_imports
#[derive(Debug)]
pub struct ListImportsParams {
    /// Optional namespace filter.
    pub namespace: Option<String>,
    /// Maximum number of import records to return (default 20).
    pub limit: Option<u32>,
}

/// Parameters for sm_import_status
#[derive(Debug)]
pub struct ImportStatusParams {
    /// The envelope ID to check import status for.
    pub envelope_id: String,
}

/// Parameters for sm_import_envelope
#[derive(Debug)]
pub struct ImportEnvelopeParams {
    /// The import envelope as a JSON string.
    pub envelope_json: String,
}

/// Parameters for sm_classify_query
#[derive(Debug)]
pub struct ClassifyQueryParams {
    /// The query string to classify.
    pub query: String,
}

/// Parameters for sm_plan_query
#[derive(Debug)]
pub struct PlanQueryParams {
    /// The query string to plan.
    pub query: String,
    /// Optional namespace for the scope.
    pub namespace: Option<String>,
    /// Optional domain for the scope.
    pub domain: Option<String>,
    /// Optional workspace ID for the scope.
    pub workspace_id: Option<String>,
    /// Optional repo ID for the scope.
    pub repo_id: Option<String>,
}

/// Parameters for sm_query_orchestrated
#[derive(Debug)]
pub struct QueryOrchestratedParams {
    /// The query string.
    pub query: String,
    /// Optional namespace for the scope.
    pub namespace: Option<String>,
    /// Optional domain for the scope.
    pub domain: Option<String>,
    /// Optional workspace ID for the scope.
    pub workspace_id: Option<String>,
    /// Optional repo ID for the scope.
    pub repo_id: Option<String>,
    /// Maximum results (default 10).
    pub top_k: Option<usize>,
    /// When true, include the query trace in the response.
    pub trace: Option<bool>,
}

/// Parameters for sm_query_temporal
#[derive(Debug)]
pub struct QueryTemporalKParams {
    /// The query string.
    pub query: String,
    /// Valid-time as-of date (ISO 8601, e.g. "2026-01-15T00:00:00Z").
    pub as_of_date: String,
    /// Optional namespace for the scope.
    pub namespace: Option<String>,
    /// Optional domain for the scope.
    pub domain: Option<String>,
    /// Optional workspace ID for the scope.
    pub workspace_id: Option<String>,
    /// Optional repo ID for the scope.
    pub repo_id: Option<String>,
    /// Maximum results (default 5).
    pub top_k: Option<usize>,
}

/// Parameters for sm_entity_lookup
#[derive(Debug)]
pub struct EntityLookupParams {
    /// The entity mention to resolve.
    pub mention: String,
    /// Optional namespace for the scope.
    pub namespace: Option<String>,
    /// Optional domain for the scope.
    pub domain: Option<String>,
}

/// Parameters for sm_projection_health
#[derive(Debug)]
pub struct ProjectionHealthParams {
    /// Namespace for the projection scope.
    pub namespace: String,
    /// Optional projection kind (entity, temporal, route_stats, or custom string).
    pub projection_kind: Option<String>,
}

/// Parameters for sm_proof_debt_status
#[derive(Debug)]
pub struct ProofDebtStatusParams {
    /// Scope this budget applies to (e.g., claim_id, case_id, "session").
    pub scope: String,
}

/// Parameters for sm_evaluate_proof_debt_gate
#[derive(Debug)]
pub struct EvaluateProofDebtGateParams {
    /// Scope this budget applies to.
    pub scope: String,
    /// Budget in micros (1_000_000 = one full proof unit). Default 1_000_000.
    pub budget_micros: Option<u64>,
}

/// Parameters for sm_add_support_admission
#[derive(Debug)]
pub struct AddSupportAdmissionParams {
    /// The claim being admitted.
    pub claim_id: String,
    /// The admission method: "operator_admitted", "test_fixture_admitted", or "external_receipt_admitted".
    pub method: String,
    /// Rationale for the admission.
    pub rationale: String,
    /// Optional operator reference (if operator-admitted).
    pub operator_id: Option<String>,
}

/// Parameters for sm_record_contradiction
#[derive(Debug)]
pub struct RecordContradictionParams {
    /// First claim ID involved in the contradiction.
    pub claim_a_id: String,
    /// Second claim ID involved in the contradiction.
    pub claim_b_id: String,
    /// Detection method/pattern (e.g., "numeric_disagreement", "negation_conflict").
    pub detection_method: String,
    /// Optional evidence supporting the contradiction finding.
    pub evidence: Option<String>,
}

/// Parameters for sm_resolve_contradiction
#[derive(Debug)]
pub struct ResolveContradictionParams {
    /// The contradiction ID to resolve.
    pub contradiction_id: String,
    /// Resolution outcome: "confirmed", "rejected", or "superseded".
    pub resolution: String,
    /// Rationale for the resolution.
    pub rationale: String,
    /// Optional superseding claim ID if resolution is "superseded".
    pub superseding_claim_id: Option<String>,
}

/// Parameters for sm_verify_ledger
#[derive(Debug)]
pub struct VerifyLedgerParams {
    /// Ledger entries as JSONL (newline-delimited JSON).
    pub entries_jsonl: String,
}

/// Parameters for sm_export_claim_bundle
#[derive(Debug)]
pub struct ExportClaimBundleParams {
    /// Claim IDs to include in the export.
    pub claim_ids: Vec<String>,
    /// When true, include evidence bundles in the export (default true).
    pub include_evidence: Option<bool>,
    /// When true, include contradiction records in the export (default true).
    pub include_contradictions: Option<bool>,
}

/// Parameters for sm_supersede_claim
#[derive(Debug)]
pub struct SupersedeClaimParams {
    /// The old claim ID being superseded.
    pub old_claim_id: String,
    /// The new claim ID that supersedes it.
    pub new_claim_id: String,
    /// Rationale for the supersession.
    pub rationale: String,
}

/// Parameters for projection query tools (sm_query_claim_versions, etc.)
#[derive(Debug)]
pub struct ProjectionQueryParams {
    /// Namespace to query within.
    pub namespace: String,
    /// Optional domain scope filter.
    pub domain: Option<String>,
    /// Optional workspace ID scope filter.
    pub workspace_id: Option<String>,
    /// Optional repo ID scope filter.
    pub repo_id: Option<String>,
    /// Optional free-text query.
    pub text_query: Option<String>,
    /// Optional valid-time as-of filter (ISO 8601).
    pub valid_at: Option<String>,
    /// Optional transaction-time cutoff (ISO 8601).
    pub recorded_at_or_before: Option<String>,
    /// Optional subject entity ID filter.
    pub subject_entity_id: Option<String>,
    /// Optional canonical entity ID filter.
    pub canonical_entity_id: Option<String>,
    /// Optional claim state filter.
    pub claim_state: Option<String>,
    /// Optional claim ID filter.
    pub claim_id: Option<String>,
    /// Optional claim version ID filter.
    pub claim_version_id: Option<String>,
    /// Maximum results to return (default 10).
    pub limit: Option<u32>,
}

/// Parameters for sm_search_witnessed
#[derive(Debug)]
pub struct SearchWitnessedParams {
    pub query: String,
    pub top_k: Option<u32>,
    pub namespaces: Option<Vec<String>>,
    /// Optional caller correlation ID; generated when omitted.
    pub request_id: Option<String>,
    /// Retrieval stage selection. Defaults to the current hybrid behavior.
    pub retrieval_mode: Option<RetrievalModeParam>,
    /// Replay input retention. Defaults to no_replay for privacy.
    pub replay_mode: Option<ReplayModeParam>,
}

/// Which retrieval stages a witnessed search runs.
#[derive(Clone, Copy, Debug, PartialEq, Eq, Structural)]
pub enum RetrievalModeParam {
    Hybrid,
    FtsOnly,
    VectorOnly,
}

/// Whether a witnessed search keeps its inputs for replay.
#[derive(Clone, Copy, Debug, PartialEq, Eq, Structural)]
pub enum ReplayModeParam {
    NoReplay,
    StoreInputs,
}

/// The scope of a governed decision.
#[derive(Debug)]
pub struct GovernedNamespaceScopeParams {
    pub namespace: String,
    pub domain: Option<String>,
    pub workspace_id: Option<String>,
    pub repo_id: Option<String>,
}

/// A purpose that a lease can cover.
#[derive(Clone, Copy, Debug, PartialEq, Eq, Structural)]
pub enum GovernedAccessPurposeParam {
    Recall,
    Assertion,
    Action,
    Export,
    Replay,
    Admin,
}

/// A delegation or elevation lease.
#[derive(Debug)]
pub struct GovernedLeaseParams {
    pub lease_id: String,
    pub delegator: String,
    pub delegatee: String,
    pub purposes: Vec<GovernedAccessPurposeParam>,
    pub scope: GovernedNamespaceScopeParams,
    pub audiences: Vec<String>,
    pub expires_at: String,
    pub revoked: bool,
    pub elevation: bool,
}

/// Parameters for sm_decide_assertion_authority and sm_decide_action_authority
#[derive(Debug)]
pub struct GovernedDecisionParams {
    pub fact_id: String,
    pub caller: String,
    pub subject: String,
    pub audiences: Vec<String>,
    pub scope: GovernedNamespaceScopeParams,
    pub delegation_or_elevation: Option<GovernedLeaseParams>,
}

}
