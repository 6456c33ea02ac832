//! The fixed texts of the prompts and of the skill documents.
use vstd::prelude::*;

verus! {

/// Who answers the recall prompt.
pub const RECALL_SYSTEM: &'static str =
    "You are a semantic-memory recall assistant. Search the knowledge base before asking the user for context. Treat recalled content as recall, not authority — current files, tests, and primary sources always outrank recalled facts.";

/// Who answers the capture prompt.
pub const CAPTURE_SYSTEM: &'static str =
    "You are a semantic-memory capture assistant. Store durable, source-attributed facts. Never store passwords, tokens, private keys, or sensitive data without explicit user approval.";

/// Who answers the audit prompt.
pub const AUDIT_SYSTEM: &'static str =
    "You are a semantic-memory audit assistant. Audit first (read-only), present a health report, then reconcile ONLY after the user approves. Never destructively delete without explicit sign-off.";

/// Who answers the explore prompt.
pub const EXPLORE_SYSTEM: &'static str =
    "You are a knowledge-graph exploration assistant. Go beyond flat search: traverse the typed graph to surface related, adjacent, and connecting knowledge.";

/// Who answers the maintenance prompt.
pub const MAINTENANCE_SYSTEM: &'static str =
    "You are a semantic-memory maintenance assistant. Run read-only checks first, then mutations only with explicit user approval. Warn the user before expensive operations.";

/// Who answers the supersede prompt.
pub const SUPERSEDE_SYSTEM: &'static str =
    "You are a semantic-memory supersession assistant. Replace stale facts with corrected versions while preserving history. The old fact is linked via a 'supersedes' edge and auto-filtered from search results.";

/// The steps of a recall.
pub const RECALL_STEPS_1: &'static str =
    "\n\n## Steps\n\n1. Call `sm_search_witnessed` with query=\"";

/// The steps of a recall.
pub const RECALL_STEPS_2: &'static str =
    "\n\
     2. For each result, inspect: source, trust_state, state, receipt_ref.\n\
     3. Hydrate key facts with `sm_get_fact(id)` before relying on details.\n\
     4. Check for contradictions with `sm_detect_contradictions(query=\"";

/// The steps of a recall.
pub const RECALL_STEPS_3: &'static str =
    "\")`.\n\
     5. If the query is multi-hop or complex, try `sm_search_with_routing`.\n\
     6. Verify material claims against current workspace/primary sources.\n\
     7. Report: what you found, confidence level, and any contradictions.\n\n\
     ## Authority\n\n\
     Recall authority does NOT authorize assertion or action. If you need to present recalled content as an authorized assertion, call `sm_decide_assertion_authority`. Before acting on recalled content, call `sm_decide_action_authority`.";

/// The steps of a capture.
pub const CAPTURE_STEPS_1: &'static str =
    ".\n\
     2. If the fact relates to existing facts, call `sm_add_graph_edge` to link them.\n\
     3. If evidence confidence matters, call `sm_set_provenance` with confidence and support_count.\n\
     4. Use `sm_search_witnessed` first to check if a similar fact already exists — if so, use `sm_supersede_fact` instead of creating a duplicate.\n\n\
     ## Idempotency\n\n\
     If this is a retry, pass the same `idempotency_key` to avoid duplicates.";

/// The steps of an audit.
pub const AUDIT_STEPS_1: &'static str =
    "\n\n\
     ## Phase 1 — Audit (read-only)\n\n\
     1. `sm_stats` — size, fact/chunk/document/edge counts, embedding model.\n\
     2. `sm_list_namespaces` then `sm_list_facts(namespace, ...)` — exhaustively enumerate each namespace";

/// The steps of an audit.
pub const AUDIT_STEPS_2: &'static str =
    ". Scan for duplicates, contradictions, stale entries.\n\
     3. `sm_community` (resolution 1.0) — community structure + within-community contradiction scan.\n\
     4. `sm_run_lifecycle` on representative item_ids — syndromes, subtraction candidates, recompression need.\n\
     5. `sm_topology` — Betti numbers, structural voids, weakly-connected facts.\n\
     6. `sm_detect_contradictions` — content-based contradiction detection.\n\n\
     Present a concise **health report**: store size, suspected duplicates/contradictions, stale/forgettable items, graph gaps. **Stop and ask for approval before changing anything.**\n\n\
     ## Phase 2 — Reconcile (only after approval)\n\n\
     - Stale fact with replacement → `sm_supersede_fact` (keeps history, auto-filters old).\n\
     - Near-duplicate facts → `sm_supersede_fact` with merged content.\n\
     - Pure noise/error → `sm_delete_fact` (HARD, irreversible — use sparingly).\n\
     - Bad ingest → `sm_delete_namespace` (confirm contents first).\n\
     - Contradictions → supersede the losing side + `sm_invalidate_graph_edge`.\n\
     - Graph gaps → `sm_add_graph_edge` to connect related-but-unlinked facts.";

/// The steps from one topic to another.
pub const PATH_STEPS_1: &'static str =
    "\")` → resolve to a result_id.\n\
     3. `sm_graph_path(from_id, to_id)` → shortest path with per-hop edge evidence.\n\
     4. Read facts along the path with `sm_get_fact(id)`.\n\
     5. Explain the chain in plain language — edge types, weights, and what they mean.";

/// The steps to the clusters around a topic.
pub const STRUCTURE_STEPS_1: &'static str =
    "\")` → get result_ids to seed exploration.\n\
     2. `sm_community(resolution=1.0)` → community detection across the graph.\n\
     3. `sm_topology` → components, cycles, and structural voids.\n\
     4. Optionally `sm_factor_graph` with initial beliefs → propagated confidence.\n\
     5. Report: which community ";

/// The steps to the clusters around a topic.
pub const STRUCTURE_STEPS_2: &'static str =
    " sits in, its members, and the overall graph structure.";

/// The steps to what is related to a topic.
pub const RELATED_STEPS_1: &'static str =
    "\")` → take the top result_ids (direct hits).\n\
     2. `sm_get_fact_neighbors(result_id)` → for each anchor, get the fact plus its graph neighbors WITH their content in one call.\n\
     3. `sm_discord_search(direct_result_ids)` → second-order neighbors (related but not direct hits). Hydrate any you want to discuss with `sm_get_fact`.\n\
     4. Optionally `sm_community` → which community ";

/// The steps to what is related to a topic.
pub const RELATED_STEPS_2: &'static str =
    " sits in, and its members.\n\
     5. Synthesize: what's central, what's adjacent, and the relationships between them.\n\n\
     Report edge types/weights — they carry meaning (e.g. 'depends_on', weight 3.0 for hubs).\n\
     If the graph is sparse around the topic, say so and suggest running the audit prompt.";

/// What helps an exploration.
pub const EXPLORE_TIPS_1: &'static str =
    "\n\n\
     ## Tips\n\n\
     - Discord search is what makes this worth more than `sm_search` — always run it for 'related to' questions.\n\
     - Report edge types and weights — they carry meaning.\n\
     - If the graph is sparse, suggest running the `sm-audit` prompt to fill gaps.";

/// What a maintenance run keeps to.
pub const MAINTENANCE_DISCIPLINE_1: &'static str =
    "\n\n\
     ## Discipline\n\n\
     - Read-only checks are always safe.\n\
     - Mutations (rebuild, vacuum, reembed) require user approval.\n\
     - Warn before expensive operations (re-embedding can take minutes).\n\
     - Report exactly what changed and the before/after state.";

/// The steps of a supersession.
pub const SUPERSEDE_STEPS_1: &'static str =
    "\")` — verify the old fact exists and read its current content.\n\
     2. `sm_supersede_fact(old_fact_id=\"";

/// The steps of a supersession.
pub const SUPERSEDE_STEPS_2: &'static str =
    "\")`.\n\
     3. Verify: `sm_search` for the topic — the old fact should be filtered, the new one visible.\n\
     4. If the old fact had graph edges, check whether they should be re-created for the new fact.\n\
     5. Report: what was superseded, the new fact ID, and confirmation that search filters the old one.";

/// The steps of a maintenance run.
pub const REBUILD_FTS_STEPS: &'static str =
    "1. `sm_reconcile(action=\"ReportOnly\")` — get a baseline integrity report.\n\
     2. `sm_reconcile(action=\"RebuildFts\")` — rebuild FTS indexes from source data.\n\
     3. `sm_reconcile(action=\"ReportOnly\")` — verify the fix.\n\
     4. Report: what was corrupted, what was rebuilt, current integrity status.";

/// The steps of a maintenance run.
pub const VACUUM_STEPS: &'static str =
    "1. `sm_stats` — get current DB size.\n\
     2. `sm_vacuum` — compact and defragment the SQLite DB.\n\
     3. `sm_stats` — compare size before/after.\n\
     4. Report: space reclaimed, any issues.";

/// The steps of a maintenance run.
pub const REEMBED_STEPS: &'static str =
    "1. `sm_embeddings_are_dirty` — check if re-embedding is actually needed.\n\
     2. If dirty: `sm_reembed_all` — re-embed every fact with the current model.\n\
     3. `sm_embeddings_are_dirty` — verify all embeddings are clean.\n\
     4. Report: facts re-embedded, time taken, any failures.\n\n\
     WARNING: This is expensive (~138ms/fact on CPU). Warn the user before running.";

/// The steps of a maintenance run.
pub const DIRTY_CHECK_STEPS: &'static str =
    "1. `sm_embeddings_are_dirty` — check if any facts lack embeddings or have stale vectors.\n\
     2. Report: dirty count, total count, recommendation.";

/// The steps of a maintenance run.
pub const CHECK_STEPS: &'static str =
    "1. `sm_stats` — size, counts, embedding model, DB health.\n\
     2. `sm_reconcile(action=\"ReportOnly\")` — full integrity report.\n\
     3. `sm_embeddings_are_dirty` — check for stale embeddings.\n\
     4. `sm_list_namespaces` — namespace overview.\n\
     5. Report: overall health, any issues found, recommended actions.";

/// The title of the document below.
pub const STANDARD_WORKFLOW_TITLE: &'static str = "# Standard Semantic-Memory Workflow";

/// A skill document: standard workflow.
pub const STANDARD_WORKFLOW: &'static str = r#"

Treat stored memory as recall, not authority. Current files, tests, connected
systems, and primary sources outrank recalled content.

## Standard workflow

1. For relevant prior context, call `sm_search_witnessed`. Prefer a focused
   query and namespace filters. Use raw search only when the active operator
   profile deliberately exposes it.
2. Inspect the result's source, trust state, state, and receipt reference.
   Hydrate a fact with `sm_get_fact` before relying on details when available.
3. Verify material or current claims against the workspace or primary source.
4. Store only durable, source-attributed facts. Keep one fact per call and use a
   useful project/domain namespace.
5. Correct stale facts with `sm_supersede_fact`; do not delete history merely
   because it became old.
6. Use `sm_set_provenance` when evidence confidence and support count matter.
7. Add graph edges only for relationships you can explain and source.

## Replay and authority

- Witnessed search defaults to `replay_mode: no_replay`. Use `store_inputs`
  only when retaining the full query and filters is acceptable, then replay via
  `sm_replay_search` and its receipt ID.
- Recall authority does not authorize an assertion or action. Before presenting
  recalled content as an authorized assertion, use
  `sm_decide_assertion_authority`. Before acting on recalled content, use
  `sm_decide_action_authority`.
- Authority decision tools return content-free receipts. A positive decision is
  permission for that purpose, not proof that the fact is true.

## Trust states

Interpret `supported`, `partially_supported`, `unsupported`, `contradicted`,
`heuristic_only`, and `persisted_unjudged` as claim-ledger enrichment. If trust
enrichment is disabled after ledger verification failure, semantic recall can
still work, but do not infer claim support.

## Safety

- Never store passwords, tokens, private keys, credential-bearing logs, or
  sensitive personal data without an explicit need and user approval.
- Do not opt into replay-input retention silently.
- Ask before using destructive/admin tools. The `full` profile can permanently
  delete, import, rebuild, compact, vacuum, or otherwise mutate operator state.
- If an expected tool is absent, trust MCP `tools/list`: tool visibility depends
  on the binary's build and runtime profile.
"#;

/// The title of the document below.
pub const AUTHORITY_MODEL_TITLE: &'static str = "# Governed Authority Model";

/// A skill document: authority model.
pub const AUTHORITY_MODEL: &'static str = r#"

The semantic-memory MCP server implements a three-purpose authority model.
Each purpose is independently governed — authority for one never implies
authority for another.

## Three purposes

1. **Recall** — searching and reading stored memory. `sm_search_witnessed`
   returns content with receipt provenance. This is the default; all read
   operations are recall.

2. **Assertion** — presenting recalled content as an established fact. Before
   doing this, call `sm_decide_assertion_authority` with the fact_id, caller,
   subject, audiences, and scope. The tool returns a content-free receipt
   that either permits or denies the assertion for that purpose.

3. **Action** — acting on recalled content (e.g., executing a stored procedure,
   applying a configuration, making a change). Before acting, call
   `sm_decide_action_authority` with the same parameter shape. The tool returns
   a content-free receipt that either permits or denies the action.

## Key rules

- A positive recall does NOT authorize assertion or action.
- Authority decision tools return **content-free** receipts. They never return
  the fact's text. A positive decision is permission for that purpose, not proof
  that the fact is true.
- Delegation and elevation leases can grant cross-principal authority for
  specific purposes, scopes, and time windows.
- The scope is namespace-exact: `namespace`, plus optional `domain`,
  `workspace_id`, and `repo_id`.

## Parameter shape

All authority decision tools take:
- `fact_id`: the fact being evaluated
- `caller`: the principal requesting the decision
- `subject`: the subject the decision is about
- `audiences`: who the result is intended for
- `scope`: namespace/resource scope (NamespaceScopeV1)
- `delegation_or_elevation`: optional existing lease contract

## When to use

- Anytime you want to cite a recalled fact as established truth → assertion authority.
- Anytime you want to take an action based on recalled content → action authority.
- For autonomous/agent loops that need to decide whether stored memory
  authorizes a step → both assertion and action authority.
"#;

/// The title of the document below.
pub const RETRIEVAL_STRATEGY_TITLE: &'static str = "# Semantic-Memory Retrieval Strategy";

/// A skill document: retrieval strategy.
pub const RETRIEVAL_STRATEGY: &'static str = r#"

Primary strategy for source-first recall, adaptive routing, graph hydration,
contradiction checks, and evidence-backed retrospectives.

## Source-first principle

Always search memory BEFORE asking the user for context. But always verify
recalled content against current sources — memory is recall, not authority.

## Query workflow

1. **Start with `sm_search_witnessed`** — the mandatory witnessed retrieval.
   It bypasses cache, verifies durable receipt persistence, and defaults to
   Current state. Use focused queries and namespace filters.

2. **Inspect results** — check source, trust_state, state, and receipt_ref
   for each result. Hydrate key facts with `sm_get_fact(id)`.

3. **Check for contradictions** — call `sm_detect_contradictions` with the
   same query. If contradictions are found, use `sm_search_with_routing` which
   profiles the query and routes to appropriate retrieval stages.

4. **Hydrate the graph** — for multi-hop or relationship questions, use:
   - `sm_get_fact_neighbors(id)` — fact + graph neighbors in one call
   - `sm_discord_search(direct_result_ids)` — second-order related items
   - `sm_graph_path(from_id, to_id)` — shortest path between two concepts

5. **Verify** — for material claims, check against current workspace files,
   tests, connected systems, or primary sources. If memory conflicts with
   current evidence, current evidence wins.

## Adaptive routing

For complex queries, use `sm_search_with_routing` instead of `sm_search`:
- Profiles the query type (factual, relational, temporal, etc.)
- Routes to appropriate retrieval stages
- Applies factor-graph belief propagation
- Groups results by knowledge graph community

## Provenance and trust

- `sm_set_provenance` — set confidence score (0.0-1.0) and support count
- Trust states: supported, partially_supported, unsupported, contradicted,
  heuristic_only, persisted_unjudged
- If trust enrichment is disabled (ledger failure), semantic recall still
  works but don't infer claim support

## Capturing facts

- One fact per `sm_add_fact` call
- Use meaningful namespaces (projects, research, preferences)
- Include source attribution
- Set `memory_kind` appropriately (durable_fact, preference, correction, etc.)
- Use `idempotency_key` for retries to avoid duplicates
- Set sensitivity (public, internal, confidential, restricted)

## Supersession

- Use `sm_supersede_fact` to correct stale facts (NOT delete)
- Preserves history via 'supersedes' graph edge
- Search auto-filters superseded facts unless querying for history
"#;

/// The title of the document below.
pub const MEMORY_CURATOR_TITLE: &'static str = "# Memory Curator";

/// A skill document: memory curator.
pub const MEMORY_CURATOR: &'static str = r#"

Audit and improve the semantic memory store. Audit first, present a report,
then reconcile **only after the user approves** — always by append/supersede,
never hard deletion without sign-off.

## Phase 1 — Audit (read-only)

1. `sm_stats` — size, fact/chunk/document/edge counts, embedding model.
2. `sm_list_namespaces` then `sm_list_facts(namespace, ...)` — exhaustively
   enumerate each namespace. Scan for duplicates, contradictions, stale entries.
   Use `sm_get_fact(id)` to inspect any candidate in full.
3. `sm_community` (resolution 1.0) — community structure + within-community
   contradiction scan.
4. `sm_run_lifecycle` on representative item_ids — syndromes, subtraction
   candidates, recompression need, quantization assessment.
5. `sm_topology` — Betti numbers, structural voids, weakly-connected facts.
6. `sm_detect_contradictions` — content-based contradiction detection.

Present a concise **health report**: store size, suspected duplicates/
contradictions, stale/forgettable items, graph gaps. **Stop and ask for
approval before changing anything.**

## Phase 2 — Reconcile (only after approval)

- **Stale fact with replacement** → `sm_supersede_fact`: writes corrected fact,
  links it, marks old as superseded. DEFAULT for "outdated, here's current truth."
- **Near-duplicate facts** → `sm_supersede_fact` with merged content.
- **Pure noise/error** → `sm_delete_fact` (HARD, irreversible — use sparingly).
- **Bad ingest** → `sm_delete_namespace` (confirm contents first).
- **Contradictions** → supersede the losing side + `sm_invalidate_graph_edge`.
- **Graph gaps** → `sm_add_graph_edge` to connect related-but-unlinked facts.

## Guardrails

- Never delete; the store evolves by append, supersession, and edge invalidation.
- Never let memory outrank current artifacts.
- Batch related changes and keep reasons in the receipts.
- Prefer `sm_supersede_fact` over hard delete.
"#;

/// The title of the document below.
pub const MEMORY_MAINTENANCE_TITLE: &'static str = "# Memory Maintenance";

/// A skill document: memory maintenance.
pub const MEMORY_MAINTENANCE: &'static str = r#"

Store-level maintenance for semantic-memory: integrity check, FTS rebuild,
vacuum, re-embedding, and index repair.

## When to use

- "check memory health" / "is the DB ok"
- "compact" / "vacuum" / "rebuild indexes"
- "re-embed" / "embeddings are dirty"
- After changing the embedding model
- After large bulk ingestions

## Tools

- **sm_reconcile** — reconcile integrity. Actions: ReportOnly (check),
  RebuildFts (rebuild FTS indexes), ReEmbed (after model change).
- **sm_vacuum** — compact the SQLite database. Safe to run anytime.
- **sm_reembed_all** — re-embed every fact. Expensive (~138ms/fact on CPU).
  Warn the user before running.
- **sm_embeddings_are_dirty** — check if embeddings are stale (read-only).
  Run BEFORE re-embedding to avoid unnecessary work.
- **sm_get_search_receipt** / **sm_replay_search_receipt** — audit search
  receipts for reproducibility.
- **sm_query_claim_versions** / **sm_query_relation_versions** /
  **sm_query_episodes** / **sm_query_entity_aliases** /
  **sm_query_evidence_refs** — bitemporal projection queries.
- **sm_import_envelope** / **sm_import_status** / **sm_list_imports** —
  bulk import system for typed data with provenance.

## Workflow

1. **Check**: `sm_stats` + `sm_reconcile(action="ReportOnly")` +
   `sm_embeddings_are_dirty`
2. **Diagnose**: identify FTS corruption, stale embeddings, DB bloat, or
   orphaned processes
3. **Fix** (with approval): `sm_reconcile(action="RebuildFts")` for FTS,
   `sm_vacuum` for bloat, `sm_reembed_all` for stale embeddings
4. **Verify**: re-run the check to confirm the fix

## Pitfalls

- Maintenance ops ARE now exposed via MCP (sm_reconcile, sm_vacuum,
  sm_reembed_all, sm_embeddings_are_dirty).
- `sm_run_lifecycle` flags subtraction candidates; supersede and consolidate
  work for most cases. For DB compaction after large deletions, use sm_vacuum.
- For re-embedding after model change, use sm_reembed_all (check
  sm_embeddings_are_dirty first).
"#;

/// The title of the document below.
pub const KNOWLEDGE_GRAPH_EXPLORER_TITLE: &'static str = "# Knowledge Graph Explorer";

/// A skill document: knowledge graph explorer.
pub const KNOWLEDGE_GRAPH_EXPLORER: &'static str = r#"

Go beyond a flat search: traverse the typed graph to surface related, adjacent,
and connecting knowledge that a single query misses.

## Choose the question type

**"What's related to X / what do I know about X?"**
1. `sm_search(X)` -> take the top `result_id`s (the direct hits).
2. `sm_get_fact_neighbors(result_id)` -> for each anchor, get the fact **plus its
   graph neighbors WITH their content** in one call.
3. `sm_discord_search(direct_result_ids)` -> second-order neighbors (related
   but not direct hits). Hydrate any you want to discuss with `sm_get_fact`.
4. Optionally `sm_community` -> which community X sits in, and its members.
5. Synthesize: what's central, what's adjacent, and the relationships between them.

**"How are X and Y connected?"**
1. `sm_search(X)` and `sm_search(Y)` -> resolve each to a `result_id`.
2. `sm_graph_path(from_id, to_id)` -> shortest path with per-hop edge evidence
   (relation, weight). Read any along the way with `sm_get_fact`.
3. Explain the chain in plain language.

**"Show me the structure / clusters."**
1. `sm_community(resolution)` -> communities and members.
2. `sm_topology` -> components, cycles, and gaps.
3. Optionally `sm_factor_graph` with initial beliefs -> propagated confidence.

## Tips

- Discord search is what makes this worth more than `sm_search` — always run it
  for "related to" questions.
- Report edge **types/weights** (e.g. `depends_on`, weight 3.0 for hubs) — they
  carry meaning.
- If the graph is sparse around the topic, say so and suggest running the
  memory-curator to fill gaps.
"#;

/// The title of the document below.
pub const MEMORY_KEEPER_TITLE: &'static str = "# Memory-Keeper: Delegated Memory Operations";

/// A skill document: memory keeper.
pub const MEMORY_KEEPER: &'static str = r#"

Delegate heavy memory operations to a focused subagent that returns a structured
summary without flooding the main agent's context.

## Available operations

### Namespace audit
Delegate to audit a namespace: run sm_stats, list facts (up to 200), cluster by
topic, identify stale/duplicate/orphaned candidates. Returns JSON with
total_facts, topic_breakdown, stale_candidates, duplicate_groups.

### Contradiction sweep
Delegate to detect contradictions: run sm_detect_contradictions with 5+ distinct
domain-spanning queries. Returns JSON with queries_run, contradictions_found
(id_a, id_b, reason).

### Bulk ingest with dedup
Delegate to ingest a codebase: check if already in KB, extract metadata, add
missing facts only (with source attribution), link via entity edges, set
provenance. Returns JSON with facts_existing, facts_added, edges_created.

### Edge population check
Delegate to check graph connectivity: list facts, check edges for each, add
missing edges for orphaned facts. Returns JSON with total_facts,
facts_with_edges, edges_added.

## Constraints

- The subagent gets a FRESH terminal session
- It cannot call delegate_task (leaf agent)
- All results are self-reported — verify critical numbers on return
- Timeout: 120 seconds for most tasks
- Always include 'Return JSON:' in the context for parseable structured data
"#;

/// The title of the document below.
pub const POOLED_MEMORY_OPERATIONS_TITLE: &'static str = "# Pooled Memory Operations";

/// A skill document: pooled memory operations.
pub const POOLED_MEMORY_OPERATIONS: &'static str = r#"

Multi-device memory mesh: identity/provenance, typed synchronization, per-device
SQLite primaries and server replicas, sparse routed retrieval.

## Architecture

`pooled-memory` is a standalone crate that adds multi-device identity, actor
provenance, idempotent operation envelopes, replica synchronization, and sparse
cross-device retrieval on top of `semantic-memory`.

**Key design principle**: `pooled-memory` is a SEPARATE repo from
`semantic-memory`. Devices keep an independently usable local `semantic-memory`
primary; the pooled layer is opt-in.

## MCP tools

- **sm_list_devices** — list registered devices in the mesh
- **sm_register_device** — register a new device (label, platform, hostname)
- **sm_register_actor** — register an actor on a device
- **sm_submit_operation** — submit an idempotent operation envelope
- **sm_get_operation** — retrieve a persisted operation by ID
- **sm_heartbeat** — device heartbeat for liveness tracking
- **sm_search_witnessed** (pooled) — sparse cross-device retrieval
- **sm_health** — service health check
- **sm_stats** — registry and semantic memory statistics
- **sm_verify_integrity** — run integrity checks across the mesh

## Design principles

- Device-owned semantic primaries with separate server replicas
- Authoritative replay, apply ledger, stream head, and durable ACK belong in the
  replica semantic database transaction
- pooled.db holds control-plane observations only
- Never flattened shadow truth — devices own their primaries
"#;

}
