//! Receipts of searches, the upkeep of the store, and imported projections.
use crate::http_api::{
    component_json,
    describe_component,
    integrity_fields,
    with_integrity,
    IntegrityReport,
    ReconcileAction,
    StoreStats,
};
use crate::json::{
    fields,
    json_views,
    optional_count_json,
    optional_text_json,
    texts_json,
    Fields,
    Json,
    JsonView,
};
use crate::search::SearchHit;
use crate::text::{
    cat2,
    cat3,
    cat4,
    cat5,
    decimal,
    decimal_text,
    optional_text,
    same_text,
    texts,
    to_lowercase,
    unicode_lowered,
};
use crate::tools::ProjectionQueryParams;
use vstd::prelude::*;

verus! {

/// A receipt of a search as the store keeps it. What only the store reads is
/// handed on as it is.
pub struct SearchReceipt {
    pub receipt_id: String,
    pub trace_id: Json,
    pub search_profile: Json,
    pub evaluation_time: Json,
    pub result_ids: Vec<String>,
    pub query_embedding_digest: Json,
    pub query_text_digest: Json,
    pub query_input_digest: Json,
    pub filter_digest: Json,
    pub redaction_state: Json,
    pub approximate: bool,
    pub attempt_family_id: Json,
    pub budget_id: Json,
}

/// A receipt in full, as a reply tells it.
pub open spec fn full_receipt_json(r: SearchReceipt) -> JsonView {
    fields().put("receipt_id"@, JsonView::Text(r.receipt_id@)).put("trace_id"@, r.trace_id@).put(
        "search_profile"@,
        r.search_profile@,
    ).put("evaluation_time"@, r.evaluation_time@).put(
        "result_ids"@,
        texts_json(texts(r.result_ids@)),
    ).put("query_embedding_digest"@, r.query_embedding_digest@).put(
        "query_text_digest"@,
        r.query_text_digest@,
    ).put("query_input_digest"@, r.query_input_digest@).put("filter_digest"@, r.filter_digest@).put(
        "redaction_state"@,
        r.redaction_state@,
    ).put("approximate"@, JsonView::Bool(r.approximate)).put(
        "attempt_family_id"@,
        r.attempt_family_id@,
    ).put("budget_id"@, r.budget_id@).object()
}

/// The reply to a request for a receipt.
pub fn finish_get_receipt(receipt_id: &str, receipt: &Option<SearchReceipt>) -> (reply: Json)
    ensures
        reply@ == (match *receipt {
            Some(r) => fields().put("ok"@, JsonView::Bool(true)).put(
                "receipt"@,
                full_receipt_json(r),
            ).object(),
            None => fields().put("ok"@, JsonView::Bool(true)).put(
                "found"@,
                JsonView::Bool(false),
            ).put("receipt_id"@, JsonView::Text(receipt_id@)).put(
                "message"@,
                JsonView::Text("No receipt found with that ID"@),
            ).object(),
        }),
{
    match receipt {
        Some(r) => Fields::new().with_bool("ok", true).with(
            "receipt",
            Fields::new().with_text("receipt_id", &r.receipt_id).with(
                "trace_id",
                r.trace_id.copy(),
            ).with("search_profile", r.search_profile.copy()).with(
                "evaluation_time",
                r.evaluation_time.copy(),
            ).with("result_ids", Json::from_texts(&r.result_ids)).with(
                "query_embedding_digest",
                r.query_embedding_digest.copy(),
            ).with("query_text_digest", r.query_text_digest.copy()).with(
                "query_input_digest",
                r.query_input_digest.copy(),
            ).with("filter_digest", r.filter_digest.copy()).with(
                "redaction_state",
                r.redaction_state.copy(),
            ).with_bool("approximate", r.approximate).with(
                "attempt_family_id",
                r.attempt_family_id.copy(),
            ).with("budget_id", r.budget_id.copy()).object(),
        ).object(),
        None => Fields::new().with_bool("ok", true).with_bool("found", false).with_text(
            "receipt_id",
            receipt_id,
        ).with_text("message", "No receipt found with that ID").object(),
    }
}

/// What a replay of a search found.
pub struct ReplayReport {
    pub receipt_id: String,
    pub replay_receipt_id: Json,
    pub query_embedding_digest_matches: Json,
    pub result_ids_match: bool,
    pub missing_result_ids: Vec<String>,
    pub added_result_ids: Vec<String>,
    pub original: SearchReceipt,
    pub replay: SearchReceipt,
}

/// A receipt in short, as a reply tells it.
pub open spec fn short_receipt_json(r: SearchReceipt) -> JsonView {
    fields().put("receipt_id"@, JsonView::Text(r.receipt_id@)).put(
        "result_ids"@,
        texts_json(texts(r.result_ids@)),
    ).put("search_profile"@, r.search_profile@).put("evaluation_time"@, r.evaluation_time@).object()
}

/// A receipt in short, as a reply tells it.
fn describe_short(r: &SearchReceipt) -> (document: Json)
    ensures
        document@ == short_receipt_json(*r),
{
    Fields::new().with_text("receipt_id", &r.receipt_id).with(
        "result_ids",
        Json::from_texts(&r.result_ids),
    ).with("search_profile", r.search_profile.copy()).with(
        "evaluation_time",
        r.evaluation_time.copy(),
    ).object()
}

/// What a replay found, as fields of a reply.
pub open spec fn replay_fields(r: ReplayReport) -> crate::json::FieldsView {
    fields().put("ok"@, JsonView::Bool(true)).put(
        "receipt_id"@,
        JsonView::Text(r.receipt_id@),
    ).put("replay_receipt_id"@, r.replay_receipt_id@).put(
        "query_embedding_digest_matches"@,
        r.query_embedding_digest_matches@,
    ).put("result_ids_match"@, JsonView::Bool(r.result_ids_match)).put(
        "missing_result_ids"@,
        texts_json(texts(r.missing_result_ids@)),
    ).put("added_result_ids"@, texts_json(texts(r.added_result_ids@)))
}

/// What a replay found, as fields of a reply.
fn describe_replay(r: &ReplayReport) -> (f: Fields)
    ensures
        f@ == replay_fields(*r),
{
    Fields::new().with_bool("ok", true).with_text("receipt_id", &r.receipt_id).with(
        "replay_receipt_id",
        r.replay_receipt_id.copy(),
    ).with("query_embedding_digest_matches", r.query_embedding_digest_matches.copy()).with_bool(
        "result_ids_match",
        r.result_ids_match,
    ).with("missing_result_ids", Json::from_texts(&r.missing_result_ids)).with(
        "added_result_ids",
        Json::from_texts(&r.added_result_ids),
    )
}

/// The reply to a replay with inputs that the caller gave.
pub fn finish_replay_receipt(r: &ReplayReport) -> (reply: Json)
    ensures
        reply@ == replay_fields(*r).put("original_receipt"@, short_receipt_json(r.original)).put(
            "replay_receipt"@,
            short_receipt_json(r.replay),
        ).object(),
{
    describe_replay(r).with("original_receipt", describe_short(&r.original)).with(
        "replay_receipt",
        describe_short(&r.replay),
    ).object()
}

/// The reply to a replay with inputs that were stored.
pub fn finish_replay_stored(r: &ReplayReport) -> (reply: Json)
    ensures
        reply@ == replay_fields(*r).put(
            "original_result_ids"@,
            texts_json(texts(r.original.result_ids@)),
        ).put("replay_result_ids"@, texts_json(texts(r.replay.result_ids@))).object(),
{
    describe_replay(r).with("original_result_ids", Json::from_texts(&r.original.result_ids)).with(
        "replay_result_ids",
        Json::from_texts(&r.replay.result_ids),
    ).object()
}

/// The action that a name stands for, in lower case.
pub open spec fn action_named(name: Seq<char>) -> Option<ReconcileAction> {
    if name == "report_only"@ || name == "report-only"@ {
        Some(ReconcileAction::ReportOnly)
    } else if name == "rebuild_fts"@ || name == "rebuild-fts"@ {
        Some(ReconcileAction::RebuildFts)
    } else if name == "re_embed"@ || name == "re-embed"@ || name == "reembed"@ {
        Some(ReconcileAction::ReEmbed)
    } else {
        None
    }
}

/// The action that a name stands for, in lower case.
pub fn action_of_name(name: &str) -> (action: Option<ReconcileAction>)
    ensures
        action == action_named(name@),
{
    if same_text(name, "report_only") || same_text(name, "report-only") {
        Some(ReconcileAction::ReportOnly)
    } else if same_text(name, "rebuild_fts") || same_text(name, "rebuild-fts") {
        Some(ReconcileAction::RebuildFts)
    } else if same_text(name, "re_embed") || same_text(name, "re-embed") || same_text(
        name,
        "reembed",
    ) {
        Some(ReconcileAction::ReEmbed)
    } else {
        None
    }
}

/// The action that a request names, in any letter case.
pub fn read_action(action: &str) -> (r: Result<ReconcileAction, String>)
    ensures
        (match (action_named(unicode_lowered(action@)), r) {
            (Some(named), Ok(read)) => read == named,
            (None, Err(message)) => message@
                == "action must be 'report_only', 'rebuild_fts', or 're_embed', got '"@ + action@
                + "'"@,
            _ => false,
        }),
{
    match action_of_name(&to_lowercase(action)) {
        Some(action) => Ok(action),
        None => Err(
            cat3(
                "action must be 'report_only', 'rebuild_fts', or 're_embed', got '",
                action,
                "'",
            ),
        ),
    }
}

/// The reply to a reconciliation.
pub fn finish_reconcile(action: &str, report: &IntegrityReport) -> (reply: Json)
    ensures
        reply@ == integrity_fields(
            fields().put("ok"@, JsonView::Bool(report.ok)),
            *report,
        ).put("action"@, JsonView::Text(action@)).object(),
{
    with_integrity(Fields::new().with_bool("ok", report.ok), report).with_text("action", action).object()
}

/// The reply to a vacuum of the database.
pub fn finish_vacuum(receipt: Json) -> (reply: Json)
    ensures
        reply@ == fields().put("ok"@, JsonView::Bool(true)).put("receipt"@, receipt@).put(
            "message"@,
            JsonView::Text("Database vacuumed successfully"@),
        ).object(),
{
    Fields::new().with_bool("ok", true).with("receipt", receipt).with_text(
        "message",
        "Database vacuumed successfully",
    ).object()
}

/// The reply to a new embedding of everything.
pub fn finish_reembed(count: u64, receipt: Json) -> (reply: Json)
    ensures
        reply@ == fields().put("ok"@, JsonView::Bool(true)).put("receipt"@, receipt@).put(
            "reembedded_count"@,
            JsonView::Unsigned(count),
        ).put(
            "message"@,
            JsonView::Text("Re-embedded "@ + decimal(count as nat) + " items"@),
        ).object(),
{
    Fields::new().with_bool("ok", true).with("receipt", receipt).with(
        "reembedded_count",
        Json::Unsigned(count),
    ).with_text("message", &cat3("Re-embedded ", &decimal_text(count), " items")).object()
}

/// The reply on whether embeddings are out of date.
pub fn finish_dirty(dirty: bool) -> (reply: Json)
    ensures
        reply@ == fields().put("ok"@, JsonView::Bool(true)).put(
            "dirty"@,
            JsonView::Bool(dirty),
        ).put(
            "message"@,
            JsonView::Text(
                if dirty {
                    "Embeddings are dirty and need re-generation. Call sm_reembed_all."@
                } else {
                    "Embeddings are up to date"@
                },
            ),
        ).object(),
{
    let message = if dirty {
        "Embeddings are dirty and need re-generation. Call sm_reembed_all."
    } else {
        "Embeddings are up to date"
    };
    Fields::new().with_bool("ok", true).with_bool("dirty", dirty).with_text("message", message).object()
}

/// The number of rows that a query for projections asks for.
pub fn projection_limit(params: &ProjectionQueryParams) -> (n: u64)
    ensures
        n == (match params.limit {
            Some(limit) => limit as u64,
            None => 10,
        }),
{
    match params.limit {
        Some(limit) => limit as u64,
        None => 10,
    }
}

/// The reply to a query for projections. The rows are handed on as they are.
pub fn finish_projection(rows: Json, count: usize) -> (reply: Json)
    ensures
        reply@ == fields().put("ok"@, JsonView::Bool(true)).put("results"@, rows@).put(
            "count"@,
            JsonView::Unsigned(count as u64),
        ).object(),
{
    Fields::new().with_bool("ok", true).with("results", rows).with_count("count", count).object()
}

/// What `serde_json::from_str` finds wrong with a text as a
/// `semantic_memory::projection_import::ImportEnvelope`; nothing where it is
/// one.
pub uninterp spec fn envelope_parse_fault(text: Seq<char>) -> Option<Seq<char>>;

/// `serde_json::from_str` into an
/// `semantic_memory::projection_import::ImportEnvelope`: what is wrong with the
/// text, if anything is, depends on the text alone.
#[allow(deprecated)]
#[verifier::external_body]
fn parse_fault(text: &str) -> (fault: Option<String>)
    ensures
        optional_text(fault) == envelope_parse_fault(text@),
{
    serde_json::from_str::<semantic_memory::projection_import::ImportEnvelope>(text)
        .err()
        .map(|error| error.to_string())
}

/// What `semantic_memory::projection_import::ImportEnvelope::validate` finds
/// wrong with the envelope that a text holds; nothing where the text holds
/// none.
pub uninterp spec fn envelope_fault(text: Seq<char>) -> Option<Seq<char>>;

/// `semantic_memory::projection_import::ImportEnvelope::validate` on the
/// envelope that a text holds: what is wrong with it, if anything is, depends
/// on the text alone. A text that holds no envelope has no such fault.
#[allow(deprecated)]
#[verifier::external_body]
fn validation_fault(text: &str) -> (fault: Option<String>)
    ensures
        optional_text(fault) == envelope_fault(text@),
{
    let envelope: semantic_memory::projection_import::ImportEnvelope =
        serde_json::from_str(text).ok()?;
    envelope.validate().err().map(|error| error.to_string())
}

/// Whether a text holds an envelope that can be imported: it has to read as
/// one, and to be valid.
pub fn check_envelope(envelope_json: &str) -> (r: Result<(), String>)
    ensures
        (match (envelope_parse_fault(envelope_json@), envelope_fault(envelope_json@)) {
            (Some(fault), _) => r matches Err(message) && message@
                == "Failed to parse envelope JSON: "@ + fault,
            (None, Some(fault)) => r matches Err(message) && message@
                == "Envelope validation failed: "@ + fault,
            (None, None) => r is Ok,
        }),
{
    if let Some(fault) = parse_fault(envelope_json) {
        return Err(cat2("Failed to parse envelope JSON: ", &fault));
    }
    match validation_fault(envelope_json) {
        Some(fault) => Err(cat2("Envelope validation failed: ", &fault)),
        None => Ok(()),
    }
}

/// The reply to an import of an envelope.
pub fn finish_import(envelope_id: &str, was_duplicate: bool, records: u64) -> (reply: Json)
    ensures
        reply@ == fields().put("ok"@, JsonView::Bool(true)).put(
            "envelope_id"@,
            JsonView::Text(envelope_id@),
        ).put("was_duplicate"@, JsonView::Bool(was_duplicate)).put(
            "imported_count"@,
            JsonView::Unsigned(records),
        ).put("receipt_id"@, JsonView::Text(envelope_id@)).object(),
{
    Fields::new().with_bool("ok", true).with_text("envelope_id", envelope_id).with_bool(
        "was_duplicate",
        was_duplicate,
    ).with("imported_count", Json::Unsigned(records)).with_text("receipt_id", envelope_id).object()
}

/// The reply to a request for the imports of an envelope.
pub fn finish_import_status(envelope_id: &str, receipts: Json, count: usize) -> (reply: Json)
    ensures
        reply@ == fields().put("ok"@, JsonView::Bool(true)).put(
            "envelope_id"@,
            JsonView::Text(envelope_id@),
        ).put("receipts"@, receipts@).put("count"@, JsonView::Unsigned(count as u64)).object(),
{
    Fields::new().with_bool("ok", true).with_text("envelope_id", envelope_id).with(
        "receipts",
        receipts,
    ).with_count("count", count).object()
}

/// The reply to a listing of imports.
pub fn finish_list_imports(receipts: Json, count: usize) -> (reply: Json)
    ensures
        reply@ == fields().put("ok"@, JsonView::Bool(true)).put("receipts"@, receipts@).put(
            "count"@,
            JsonView::Unsigned(count as u64),
        ).object(),
{
    Fields::new().with_bool("ok", true).with("receipts", receipts).with_count("count", count).object()
}

/// A figure of the store, or null where the store could not be read.
pub open spec fn figure(stats: Result<StoreStats, String>, value: JsonView) -> JsonView {
    if stats is Ok {
        value
    } else {
        JsonView::Null
    }
}

/// The error of a component, if it has one.
pub open spec fn fault_of<T>(r: Result<T, String>) -> Option<Seq<char>> {
    match r {
        Ok(_) => None,
        Err(e) => Some(e@),
    }
}

/// The reply to a request for the statistics of the store and the graph: what
/// could not be read is null, and the reply is not in order.
pub open spec fn stats_json(
    stats: Result<StoreStats, String>,
    edges: Result<usize, String>,
) -> JsonView {
    let s = stats->Ok_0;
    fields().put("ok"@, JsonView::Bool(stats is Ok && edges is Ok)).put(
        "components"@,
        fields().put("core"@, component_json(fault_of(stats))).put(
            "graph"@,
            component_json(fault_of(edges)),
        ).object(),
    ).put("facts"@, figure(stats, JsonView::Unsigned(s.facts))).put(
        "chunks"@,
        figure(stats, JsonView::Unsigned(s.chunks)),
    ).put("documents"@, figure(stats, JsonView::Unsigned(s.documents))).put(
        "sessions"@,
        figure(stats, JsonView::Unsigned(s.sessions)),
    ).put("messages"@, figure(stats, JsonView::Unsigned(s.messages))).put(
        "graph_edges"@,
        match edges {
            Ok(n) => JsonView::Unsigned(n as u64),
            Err(_) => JsonView::Null,
        },
    ).put("db_size_bytes"@, figure(stats, JsonView::Unsigned(s.database_bytes))).put(
        "db_size_mb"@,
        figure(stats, s.database_megabytes@),
    ).put(
        "embedding_model"@,
        figure(stats, optional_text_json(optional_text(s.embedding_model))),
    ).put(
        "embedding_dimensions"@,
        figure(stats, optional_count_json(s.embedding_dimensions)),
    ).object()
}

/// The health of both components.
fn describe_components(stats: &Result<StoreStats, String>, edges: &Result<usize, String>) -> (document:
    Json)
    ensures
        document@ == fields().put("core"@, component_json(fault_of(*stats))).put(
            "graph"@,
            component_json(fault_of(*edges)),
        ).object(),
{
    let core = match stats {
        Ok(_) => None,
        Err(e) => Some(e),
    };
    let graph = match edges {
        Ok(_) => None,
        Err(e) => Some(e),
    };
    Fields::new().with("core", describe_component(core)).with(
        "graph",
        describe_component(graph),
    ).object()
}

/// The reply to a request for the statistics of the store and the graph.
pub fn finish_stats(stats: &Result<StoreStats, String>, edges: &Result<usize, String>) -> (reply: Json)
    ensures
        reply@ == stats_json(*stats, *edges),
{
    let components = describe_components(stats, edges);
    let edge_count = match edges {
        Ok(n) => Json::from_count(*n),
        Err(_) => Json::Null,
    };
    let ok = stats.is_ok() && edges.is_ok();
    let start = Fields::new().with_bool("ok", ok).with("components", components);
    match stats {
        Ok(s) => start.with("facts", Json::Unsigned(s.facts)).with(
            "chunks",
            Json::Unsigned(s.chunks),
        ).with("documents", Json::Unsigned(s.documents)).with(
            "sessions",
            Json::Unsigned(s.sessions),
        ).with("messages", Json::Unsigned(s.messages)).with("graph_edges", edge_count).with(
            "db_size_bytes",
            Json::Unsigned(s.database_bytes),
        ).with("db_size_mb", s.database_megabytes.copy()).with(
            "embedding_model",
            Json::from_optional_text(&s.embedding_model),
        ).with("embedding_dimensions", Json::from_optional_count(s.embedding_dimensions)).object(),
        Err(_) => start.with_null("facts").with_null("chunks").with_null("documents").with_null(
            "sessions",
        ).with_null("messages").with("graph_edges", edge_count).with_null("db_size_bytes").with_null(
            "db_size_mb",
        ).with_null("embedding_model").with_null("embedding_dimensions").object(),
    }
}

/// Statistics are in order exactly where both the store and the graph were
/// read; a part that failed never hides the other.
pub proof fn law_partial_statistics_are_flagged(
    stats: Result<StoreStats, String>,
    edges: Result<usize, String>,
)
    ensures
        stats_json(stats, edges).true_member("ok"@) == (stats is Ok && edges is Ok),
{
    let list = stats_json(stats, edges)->Object_0;
    crate::json::lemma_field_index(list, "ok"@, 0);
}

/// What `chrono::DateTime::parse_from_rfc3339` says of a text: nothing, or the
/// message of the error.
pub uninterp spec fn date_fault(text: Seq<char>) -> Option<Seq<char>>;

/// `chrono::DateTime::parse_from_rfc3339`: refuses a text that is no date. Which
/// texts are dates is not stated.
#[verifier::external_body]
fn check_date(text: &str) -> (r: Result<(), String>)
    ensures
        (match r {
            Ok(_) => date_fault(text@) is None,
            Err(message) => date_fault(text@) == Some(message@),
        }),
{
    chrono::DateTime::parse_from_rfc3339(text).map(|_| ()).map_err(|e| e.to_string())
}

/// Refuses a search at a time that cannot be read.
pub fn check_as_of(date: &str) -> (r: Result<(), String>)
    ensures
        (match r {
            Ok(_) => date_fault(date@) is None,
            Err(message) => date_fault(date@) matches Some(fault) && message@
                == "Invalid as_of_date '"@ + date@ + "': "@ + fault
                + ". Use ISO 8601 format like 2026-01-15T00:00:00Z"@,
        }),
{
    match check_date(date) {
        Ok(_) => Ok(()),
        Err(message) => Err(
            cat5(
                "Invalid as_of_date '",
                date,
                "': ",
                &message,
                ". Use ISO 8601 format like 2026-01-15T00:00:00Z",
            ),
        ),
    }
}

/// A hit as a search at a time replies with it.
pub open spec fn dated_hit_json(hit: SearchHit) -> JsonView {
    fields().put("result_id"@, JsonView::Text(hit.result_id@)).put(
        "content"@,
        JsonView::Text(hit.content@),
    ).put("score"@, hit.score@).object()
}

/// How many of the hits a search at a time shows.
pub open spec fn shown_count(hits: nat, k: nat) -> nat {
    if hits < k {
        hits
    } else {
        k
    }
}

/// The reply to a search at a time.
pub open spec fn as_of_reply(
    query: Seq<char>,
    date: Seq<char>,
    hits: Seq<SearchHit>,
    k: nat,
) -> JsonView {
    let n = shown_count(hits.len(), k);
    fields().put("ok"@, JsonView::Bool(true)).put("query"@, JsonView::Text(query)).put(
        "as_of_date"@,
        JsonView::Text(date),
    ).put(
        "results"@,
        JsonView::Array(Seq::new(n, |i: int| dated_hit_json(hits[i]))),
    ).put("count"@, JsonView::Unsigned(n as u64)).put(
        "message"@,
        JsonView::Text("Found "@ + decimal(n) + " facts valid as of "@ + date),
    ).object()
}

/// The reply to a search at a time: the first `k` hits.
pub fn finish_as_of(query: &str, date: &str, hits: &Vec<SearchHit>, k: usize) -> (reply: Json)
    ensures
        reply@ == as_of_reply(query@, date@, hits@, k as nat),
{
    let n: usize = if hits.len() < k {
        hits.len()
    } else {
        k
    };
    let mut list: Vec<Json> = Vec::new();
    let mut i: usize = 0;
    while i < n
        invariant
            i <= n <= hits.len(),
            list@.len() == i,
            forall|j: int| 0 <= j < i ==> (#[trigger] list@[j])@ == dated_hit_json(hits@[j]),
        decreases n - i,
    {
        let hit = &hits[i];
        list.push(
            Fields::new().with_text("result_id", &hit.result_id).with_text(
                "content",
                &hit.content,
            ).with("score", hit.score.copy()).object(),
        );
        i += 1;
    }
    assert(json_views(list@) =~= Seq::new(n as nat, |j: int| dated_hit_json(hits@[j])));
    Fields::new().with_bool("ok", true).with_text("query", query).with_text("as_of_date", date).with(
        "results",
        Json::from_list(list),
    ).with_count("count", n).with_text(
        "message",
        &cat4("Found ", &decimal_text(n as u64), " facts valid as of ", date),
    ).object()
}

/// A search at a time shows the first `k` of its hits, or all of them where
/// there are fewer, in their order and as they were found, and counts them.
pub proof fn law_dated_searches_show_the_first(
    query: Seq<char>,
    date: Seq<char>,
    hits: Seq<SearchHit>,
    k: nat,
)
    ensures
        ({
            let reply = as_of_reply(query, date, hits, k);
            &&& reply.true_member("ok"@)
            &&& reply.text_member("query"@) == Some(query)
            &&& reply.text_member("as_of_date"@) == Some(date)
            &&& reply.member("results"@) matches Some(JsonView::Array(results)) && (
            crate::search::shows_first(
                results,
                hits,
                Seq::new(hits.len(), |i: int| i),
                k as int,
            )) && reply.member("count"@) == Some(JsonView::Unsigned(results.len() as u64))
        }),
{
    reveal_strlit("result_id");
    reveal_strlit("content");
    reveal_strlit("score");
    reveal_strlit("ok");
    reveal_strlit("query");
    reveal_strlit("as_of_date");
    reveal_strlit("results");
    reveal_strlit("count");
    assert("result_id"@.len() == 9 && "content"@.len() == 7 && "score"@.len() == 5);
    assert("ok"@.len() == 2 && "query"@.len() == 5 && "query"@[0] == 'q' && "count"@[0] == 'c');
    assert("as_of_date"@.len() == 10 && "results"@.len() == 7 && "count"@.len() == 5);
    broadcast use crate::json::lemma_put_member, crate::json::lemma_no_member;

}

/// Every name of a reconciliation stands for one action: the two or three
/// notations of a name for the same, and different names for different ones.
pub proof fn law_actions_are_read_by_name(name: Seq<char>)
    ensures
        action_named("report_only"@) == Some(ReconcileAction::ReportOnly),
        action_named("rebuild_fts"@) == Some(ReconcileAction::RebuildFts),
        action_named("re_embed"@) == Some(ReconcileAction::ReEmbed),
        action_named("report-only"@) == action_named("report_only"@),
        action_named("rebuild-fts"@) == action_named("rebuild_fts"@),
        action_named("re-embed"@) == action_named("re_embed"@),
        action_named("reembed"@) == action_named("re_embed"@),
        action_named(name) is Some ==> name == "report_only"@ || name == "report-only"@ || name
            == "rebuild_fts"@ || name == "rebuild-fts"@ || name == "re_embed"@ || name
            == "re-embed"@ || name == "reembed"@,
{
    reveal_strlit("report_only");
    reveal_strlit("report-only");
    reveal_strlit("rebuild_fts");
    reveal_strlit("rebuild-fts");
    reveal_strlit("re_embed");
    reveal_strlit("re-embed");
    reveal_strlit("reembed");
    assert("report_only"@.len() == 11 && "report_only"@[2] == 'p' && "report-only"@[2] == 'p');
    assert("rebuild_fts"@[2] == 'b' && "rebuild-fts"@[2] == 'b' && "re_embed"@.len() == 8);
    assert("re-embed"@.len() == 8 && "reembed"@.len() == 7 && "report-only"@.len() == 11);
    assert("rebuild_fts"@.len() == 11 && "rebuild-fts"@.len() == 11);
}

/// A part of the statistics that was read is told, whatever became of the other
/// part; a part that was not read is null.
pub proof fn law_statistics_tell_what_was_read(
    stats: Result<StoreStats, String>,
    edges: Result<usize, String>,
)
    ensures
        stats matches Ok(s) ==> ({
            let reply = stats_json(stats, edges);
            &&& reply.member("facts"@) == Some(JsonView::Unsigned(s.facts))
            &&& reply.member("chunks"@) == Some(JsonView::Unsigned(s.chunks))
            &&& reply.member("documents"@) == Some(JsonView::Unsigned(s.documents))
        }),
        stats is Err ==> ({
            let reply = stats_json(stats, edges);
            &&& reply.member("facts"@) == Some(JsonView::Null)
            &&& reply.member("chunks"@) == Some(JsonView::Null)
            &&& reply.member("documents"@) == Some(JsonView::Null)
        }),
{
    reveal_strlit("ok");
    reveal_strlit("components");
    reveal_strlit("facts");
    reveal_strlit("chunks");
    reveal_strlit("documents");
    assert("ok"@.len() == 2 && "components"@.len() == 10 && "facts"@.len() == 5);
    assert("chunks"@.len() == 6 && "documents"@.len() == 9);
    broadcast use crate::json::lemma_put_member, crate::json::lemma_no_member;

}

/// A replay tells whether it found the same results, and which were missing and
/// which were added.
pub proof fn law_replays_are_told(r: ReplayReport)
    ensures
        ({
            let told = replay_fields(r).object();
            &&& told.text_member("receipt_id"@) == Some(r.receipt_id@)
            &&& told.member("replay_receipt_id"@) == Some(r.replay_receipt_id@)
            &&& told.true_member("result_ids_match"@) <==> r.result_ids_match
            &&& told.member("missing_result_ids"@) == Some(
                texts_json(texts(r.missing_result_ids@)),
            )
            &&& told.member("added_result_ids"@) == Some(texts_json(texts(r.added_result_ids@)))
        }),
{
    reveal_strlit("ok");
    reveal_strlit("receipt_id");
    reveal_strlit("replay_receipt_id");
    reveal_strlit("query_embedding_digest_matches");
    reveal_strlit("result_ids_match");
    reveal_strlit("missing_result_ids");
    reveal_strlit("added_result_ids");
    assert("ok"@.len() == 2 && "receipt_id"@.len() == 10 && "replay_receipt_id"@.len() == 17);
    assert("query_embedding_digest_matches"@.len() == 30 && "result_ids_match"@.len() == 16);
    assert("missing_result_ids"@.len() == 18 && "added_result_ids"@.len() == 16);
    assert("result_ids_match"@[0] == 'r' && "added_result_ids"@[0] == 'a');
    broadcast use crate::json::lemma_put_member, crate::json::lemma_no_member;

}

}
