//! The HTTP endpoints: reading their JSON bodies, and writing their replies.
use crate::json::{
    copy_documents,
    fields,
    json_views,
    pair_texts,
    parse_document,
    read_document,
    texts_json,
    Fields,
    FieldsView,
    Json,
    JsonView,
};
use crate::rerank::{
    apply_ratings,
    rerank_candidate_limit,
    reranked,
    RerankStatus,
    MAX_RERANK_CONTENT_BYTES,
    MAX_RERANK_RESULTS,
    RERANK_MODEL,
};
use crate::routing::{
    decision_fields,
    decoder_ran,
    describe_grouping,
    describe_new_hits,
    discord_ran,
    grouping_json,
    new_hits,
    with_decision,
    DiscordHit,
    RouteView,
    RoutedFindings,
    RoutingDecision,
};
use crate::search::{hit_ids, result_ids, HitSource, SearchHit};
use crate::text::{
    cat2,
    decimal,
    decimal_text,
    optional_texts,
    same_text,
    texts,
    to_lowercase,
    unicode_lowered,
};
use vstd::prelude::*;

verus! {

/// The most results that a request may ask for.
pub const MAX_TOP_K: u64 = 100;

/// The most direct results that a second-order request may name.
pub const MAX_DIRECT_IDS: usize = 100;

/// The status of a reply.
#[derive(Clone, Copy, Debug, PartialEq, Eq, Structural)]
pub enum HttpStatus {
    Success,
    BadRequest,
    NotFound,
    InternalServerError,
    ServiceUnavailable,
}

impl HttpStatus {
    /// The status as the status line writes it.
    pub open spec fn text(self) -> Seq<char> {
        match self {
            HttpStatus::Success => "200 OK"@,
            HttpStatus::BadRequest => "400 Bad Request"@,
            HttpStatus::NotFound => "404 Not Found"@,
            HttpStatus::InternalServerError => "500 Internal Server Error"@,
            HttpStatus::ServiceUnavailable => "503 Service Unavailable"@,
        }
    }

    /// The status as the status line writes it.
    pub fn line(self) -> (s: &'static str)
        ensures
            s@ == self.text(),
    {
        match self {
            HttpStatus::Success => "200 OK",
            HttpStatus::BadRequest => "400 Bad Request",
            HttpStatus::NotFound => "404 Not Found",
            HttpStatus::InternalServerError => "500 Internal Server Error",
            HttpStatus::ServiceUnavailable => "503 Service Unavailable",
        }
    }
}

/// A reply: a status and a JSON body.
pub struct Reply {
    pub status: HttpStatus,
    pub body: Json,
}

/// What a reply says.
pub struct ReplyView {
    pub status: HttpStatus,
    pub body: JsonView,
}

impl View for Reply {
    type V = ReplyView;

    open spec fn view(&self) -> ReplyView {
        ReplyView { status: self.status, body: self.body@ }
    }
}

/// The reply that reports a failure.
pub open spec fn failure_view(status: HttpStatus, message: Seq<char>) -> ReplyView {
    ReplyView {
        status,
        body: fields().put("ok"@, JsonView::Bool(false)).put(
            "error"@,
            JsonView::Text(message),
        ).object(),
    }
}

/// The reply that reports a failure.
pub fn failure(status: HttpStatus, message: &str) -> (reply: Reply)
    ensures
        reply@ == failure_view(status, message@),
{
    Reply { status, body: Fields::new().with_bool("ok", false).with_text("error", message).object() }
}

/// The reply to a request that the server itself could not carry out: what was
/// attempted, and the error.
pub fn operation_failed(operation: &str, error: &str) -> (reply: Reply)
    ensures
        reply@ == failure_view(HttpStatus::InternalServerError, operation@ + error@),
{
    failure(HttpStatus::InternalServerError, &cat2(operation, error))
}

/// The reply to the health check.
pub fn health() -> (reply: Reply)
    ensures
        reply@ == (ReplyView {
            status: HttpStatus::Success,
            body: fields().put("ok"@, JsonView::Bool(true)).put(
                "service"@,
                JsonView::Text("semantic-memory-mcp"@),
            ).object(),
        }),
{
    Reply {
        status: HttpStatus::Success,
        body: Fields::new().with_bool("ok", true).with_text("service", "semantic-memory-mcp").object(),
    }
}

/// The reply to a request for a path that is not served.
pub fn not_found(path: &str) -> (reply: Reply)
    ensures
        reply@ == (ReplyView {
            status: HttpStatus::NotFound,
            body: fields().put("error"@, JsonView::Text("not found"@)).put(
                "path"@,
                JsonView::Text(path@),
            ).object(),
        }),
{
    Reply {
        status: HttpStatus::NotFound,
        body: Fields::new().with_text("error", "not found").with_text("path", path).object(),
    }
}

/// The reply to a body that holds no JSON document.
pub open spec fn invalid_json(message: Seq<char>) -> ReplyView {
    failure_view(HttpStatus::BadRequest, "invalid JSON: "@ + message)
}

/// The JSON document of a body.
pub fn read_body(body: &str) -> (r: Result<Json, Reply>)
    ensures
        (match r {
            Ok(document) => read_document(body@) == Ok::<JsonView, Seq<char>>(document@),
            Err(reply) => read_document(body@) is Err && reply@ == invalid_json(
                read_document(body@)->Err_0,
            ),
        }),
{
    match parse_document(body) {
        Ok(document) => Ok(document),
        Err(message) => Err(failure(HttpStatus::BadRequest, &cat2("invalid JSON: ", &message))),
    }
}

/// The number of results that a request asks for: the default where it says
/// nothing, else a whole number from 1 to the limit.
pub open spec fn top_k_of(params: JsonView, default: int) -> Result<int, Seq<char>> {
    match params.member("top_k"@) {
        None => Ok(default),
        Some(JsonView::Unsigned(n)) => if 1 <= n <= MAX_TOP_K {
            Ok(n as int)
        } else {
            Err("top_k must be between 1 and "@ + decimal(MAX_TOP_K as nat))
        },
        Some(_) => Err("top_k must be an unsigned integer"@),
    }
}

/// The number of results that a request asks for.
pub fn bounded_top_k(params: &Json, default: usize) -> (r: Result<usize, Reply>)
    ensures
        (match r {
            Ok(k) => top_k_of(params@, default as int) == Ok::<int, Seq<char>>(k as int),
            Err(reply) => top_k_of(params@, default as int) is Err && reply@ == failure_view(
                HttpStatus::BadRequest,
                top_k_of(params@, default as int)->Err_0,
            ),
        }),
{
    match params.get("top_k") {
        None => Ok(default),
        Some(Json::Unsigned(n)) => {
            let n = *n;
            if n == 0 || n > MAX_TOP_K {
                let message = cat2("top_k must be between 1 and ", &decimal_text(MAX_TOP_K));
                return Err(failure(HttpStatus::BadRequest, &message));
            }
            Ok(n as usize)
        },
        Some(_) => Err(failure(HttpStatus::BadRequest, "top_k must be an unsigned integer")),
    }
}

/// The query of a request.
pub open spec fn query_of(params: JsonView) -> Seq<char> {
    params.text_member_or("query"@, ""@)
}

/// The namespaces that a request is restricted to.
pub open spec fn namespaces_of(params: JsonView) -> Option<Seq<Seq<char>>> {
    match params.member("namespaces"@) {
        Some(value) => value.text_list(),
        None => None,
    }
}

/// The namespaces that a request is restricted to.
fn read_namespaces(params: &Json) -> (r: Option<Vec<String>>)
    ensures
        optional_texts(r) == namespaces_of(params@),
{
    match params.get("namespaces") {
        Some(value) => value.as_text_list(),
        None => None,
    }
}

/// A search that a client asked for.
pub struct SearchRequest {
    pub query: String,
    pub top_k: usize,
    pub namespaces: Option<Vec<String>>,
    pub rerank: bool,
    /// How many results to fetch from the store.
    pub fetch_k: usize,
}

/// Why a request is refused: its `top_k` first, then a missing query.
pub open spec fn query_refusal(params: JsonView, default: int) -> Option<ReplyView> {
    if top_k_of(params, default) is Err {
        Some(failure_view(HttpStatus::BadRequest, top_k_of(params, default)->Err_0))
    } else if query_of(params).len() == 0 {
        Some(failure_view(HttpStatus::BadRequest, "missing 'query' field"@))
    } else {
        None
    }
}

/// `r` is what reading the parameters of a search gives.
pub open spec fn search_read(params: JsonView, r: Result<SearchRequest, Reply>) -> bool {
    match r {
        Ok(request) => {
            &&& query_refusal(params, 5) is None
            &&& request.query@ == query_of(params)
            &&& request.top_k == top_k_of(params, 5)->Ok_0
            &&& optional_texts(request.namespaces) == namespaces_of(params)
            &&& request.rerank == params.true_member("rerank"@)
            &&& request.fetch_k == (if request.rerank && 2 * request.top_k < MAX_RERANK_RESULTS {
                2 * request.top_k
            } else if request.rerank {
                MAX_RERANK_RESULTS as int
            } else {
                request.top_k as int
            })
        },
        Err(reply) => query_refusal(params, 5) == Some(reply@),
    }
}

/// The search that a body asks for.
pub fn search_request(body: &str) -> (r: Result<SearchRequest, Reply>)
    ensures
        (match read_document(body@) {
            Ok(params) => search_read(params, r),
            Err(message) => r is Err && r->Err_0@ == invalid_json(message),
        }),
{
    match read_body(body) {
        Ok(params) => read_search(&params),
        Err(reply) => Err(reply),
    }
}

/// Reads the parameters of a search.
pub fn read_search(params: &Json) -> (r: Result<SearchRequest, Reply>)
    ensures
        search_read(params@, r),
{
    let query = params.get_text_or("query", "");
    let top_k = match bounded_top_k(params, 5) {
        Ok(k) => k,
        Err(reply) => {
            return Err(reply);
        },
    };
    let namespaces = read_namespaces(params);
    let rerank = params.get_true("rerank");
    if query.as_str().is_empty() {
        return Err(failure(HttpStatus::BadRequest, "missing 'query' field"));
    }
    let fetch_k = if rerank {
        rerank_candidate_limit(top_k)
    } else {
        top_k
    };
    Ok(SearchRequest { query, top_k, namespaces, rerank, fetch_k })
}

/// The namespace under which a hit is shown: that of a fact, the title of a
/// chunk's document, and nothing for other hits.
pub open spec fn shown_namespace(source: HitSource) -> Seq<char> {
    match source {
        HitSource::Fact { fact_id, namespace } => namespace@,
        HitSource::Chunk { document_title } => document_title@,
        _ => ""@,
    }
}

/// The namespace under which a hit is shown.
fn namespace_of(source: &HitSource) -> (s: String)
    ensures
        s@ == shown_namespace(*source),
{
    match source {
        HitSource::Fact { fact_id: _, namespace } => namespace.clone(),
        HitSource::Chunk { document_title } => document_title.clone(),
        _ => "".to_owned(),
    }
}

/// A hit as the search endpoint replies with it.
pub open spec fn http_hit_fields(hit: SearchHit) -> FieldsView {
    fields().put("result_id"@, JsonView::Text(hit.result_id@)).put(
        "content"@,
        JsonView::Text(hit.content@),
    ).put("score"@, hit.score@).put("cosine_similarity"@, hit.cosine_similarity@).put(
        "namespace"@,
        JsonView::Text(shown_namespace(hit.source)),
    )
}

/// A hit as the search endpoint replies with it.
fn http_hit(hit: &SearchHit) -> (r: Fields)
    ensures
        r@ == http_hit_fields(*hit),
{
    Fields::new().with_text("result_id", &hit.result_id).with_text("content", &hit.content).with(
        "score",
        hit.score.copy(),
    ).with("cosine_similarity", hit.cosine_similarity.copy()).with_text(
        "namespace",
        &namespace_of(&hit.source),
    )
}

/// The hits as the search endpoint replies with them.
pub open spec fn http_hits(hits: Seq<SearchHit>) -> Seq<JsonView> {
    Seq::new(hits.len(), |i: int| http_hit_fields(hits[i]).object())
}

/// The hits as the search endpoint replies with them.
pub fn search_results(hits: &Vec<SearchHit>) -> (results: Vec<Json>)
    ensures
        json_views(results@) == http_hits(hits@),
{
    let mut results: Vec<Json> = Vec::new();
    let mut i: usize = 0;
    while i < hits.len()
        invariant
            i <= hits.len(),
            results.len() == i,
            forall|k: int|
                0 <= k < i ==> (#[trigger] results@[k])@ == http_hit_fields(hits@[k]).object(),
        decreases hits.len() - i,
    {
        results.push(http_hit(&hits[i]).object());
        i = i + 1;
    }
    assert(json_views(results@) =~= http_hits(hits@));
    results
}

/// What a search shows, and how its rerank ended: the results as found, unless
/// a rerank was asked for and there is something to rerank; then the best
/// `top_k` of the reranked ones.
pub open spec fn final_results(
    results: Seq<JsonView>,
    rerank: bool,
    ratings: Seq<Option<u8>>,
    top_k: int,
) -> (Seq<JsonView>, RerankStatus) {
    if rerank && results.len() > 0 {
        let (ordered, status) = reranked(results, ratings);
        (
            if ordered.len() <= top_k {
                ordered
            } else {
                ordered.subrange(0, top_k)
            },
            status,
        )
    } else {
        (results, RerankStatus::NotApplicable)
    }
}

/// What a search shows, and how its rerank ended.
fn choose_results(
    results: Vec<Json>,
    rerank: bool,
    ratings: &Vec<Option<u8>>,
    top_k: usize,
) -> (r: (Vec<Json>, RerankStatus))
    ensures
        (json_views(r.0@), r.1) == final_results(
            json_views(results@),
            rerank,
            ratings@,
            top_k as int,
        ),
{
    if rerank && results.len() > 0 {
        let (ordered, status) = apply_ratings(&results, ratings);
        let ghost all = json_views(ordered@);
        let mut list = ordered;
        if list.len() > top_k {
            list.truncate(top_k);
            assert(json_views(list@) =~= all.subrange(0, top_k as int));
        }
        (list, status)
    } else {
        (results, RerankStatus::NotApplicable)
    }
}

/// The provenance of a search: nothing is claimed verified.
pub open spec fn search_provenance(applied: bool, rerank: bool, count: int) -> JsonView {
    fields().put(
        "stages_fired"@,
        fields().put("bm25"@, JsonView::Bool(true)).put("vector"@, JsonView::Bool(true)).put(
            "late_interaction"@,
            JsonView::Bool(false),
        ).put("rerank"@, JsonView::Bool(applied)).object(),
    ).put("rerank_requested"@, JsonView::Bool(rerank)).put(
        "result_count"@,
        JsonView::Unsigned(count as u64),
    ).put("view"@, JsonView::Text("semantic"@)).put("widening_occurred"@, JsonView::Null).put(
        "widening_reason"@,
        JsonView::Null,
    ).put("verification_status"@, JsonView::Text("unverified"@)).put(
        "proof_reference"@,
        JsonView::Null,
    ).object()
}

/// The reply of a search.
pub open spec fn search_reply(
    query: Seq<char>,
    top_k: int,
    rerank: bool,
    shown: Seq<JsonView>,
    status: RerankStatus,
) -> ReplyView {
    let applied = status == RerankStatus::Applied;
    ReplyView {
        status: HttpStatus::Success,
        body: fields().put("ok"@, JsonView::Bool(true)).put("query"@, JsonView::Text(query)).put(
            "top_k"@,
            JsonView::Unsigned(top_k as u64),
        ).put("results"@, JsonView::Array(shown)).put(
            "count"@,
            JsonView::Unsigned(shown.len() as u64),
        ).put("reranked"@, JsonView::Bool(applied)).put(
            "rerank_status"@,
            JsonView::Text(status.text()),
        ).put("provenance"@, search_provenance(applied, rerank, shown.len() as int)).object(),
    }
}

/// The reply of a search. `ratings` are those that were given to the results,
/// in their order, where a rerank was asked for.
pub fn finish_search(
    request: &SearchRequest,
    results: Vec<Json>,
    ratings: &Vec<Option<u8>>,
) -> (reply: Reply)
    ensures
        ({
            let (shown, status) = final_results(
                json_views(results@),
                request.rerank,
                ratings@,
                request.top_k as int,
            );
            reply@ == search_reply(
                request.query@,
                request.top_k as int,
                request.rerank,
                shown,
                status,
            )
        }),
{
    let (shown, status) = choose_results(results, request.rerank, ratings, request.top_k);
    let applied = matches!(status, RerankStatus::Applied);
    let count = shown.len();
    let provenance = Fields::new().with(
        "stages_fired",
        Fields::new().with_bool("bm25", true).with_bool("vector", true).with_bool(
            "late_interaction",
            false,
        ).with_bool("rerank", applied).object(),
    ).with_bool("rerank_requested", request.rerank).with_count("result_count", count).with_text(
        "view",
        "semantic",
    ).with_null("widening_occurred").with_null("widening_reason").with_text(
        "verification_status",
        "unverified",
    ).with_null("proof_reference").object();
    Reply {
        status: HttpStatus::Success,
        body: Fields::new().with_bool("ok", true).with_text("query", &request.query).with_count(
            "top_k",
            request.top_k,
        ).with("results", Json::from_list(shown)).with_count("count", count).with_bool(
            "reranked",
            applied,
        ).with_text("rerank_status", status.name()).with("provenance", provenance).object(),
    }
}

/// Results that a client wants reranked.
pub struct RerankRequest {
    pub query: String,
    pub results: Vec<Json>,
}

/// The length of the content of a result, in bytes.
pub open spec fn content_bytes(result: JsonView) -> nat {
    match result.text_member("content"@) {
        Some(s) => crate::http::byte_length(s),
        None => 0,
    }
}

/// Why a rerank is refused.
pub open spec fn rerank_refusal(params: JsonView) -> Option<Seq<char>> {
    match params.member("results"@) {
        Some(JsonView::Array(results)) => if query_of(params).len() == 0 {
            Some("missing 'query' field"@)
        } else if results.len() > MAX_RERANK_RESULTS {
            Some("results exceeds maximum of "@ + decimal(MAX_RERANK_RESULTS as nat))
        } else if exists|i: int|
            0 <= i < results.len() && content_bytes(#[trigger] results[i])
                > MAX_RERANK_CONTENT_BYTES {
            Some(
                "result content exceeds maximum of "@ + decimal(MAX_RERANK_CONTENT_BYTES as nat)
                    + " bytes"@,
            )
        } else {
            None
        },
        _ => Some("missing 'results' array"@),
    }
}

/// Whether the content of a result is over the limit.
fn content_too_long(result: &Json) -> (r: bool)
    ensures
        r == (content_bytes(result@) > MAX_RERANK_CONTENT_BYTES),
{
    match result.get_text("content") {
        Some(s) => s.as_str().as_bytes().len() > MAX_RERANK_CONTENT_BYTES,
        None => false,
    }
}

/// `r` is what reading the parameters of a rerank gives.
pub open spec fn rerank_read(params: JsonView, r: Result<RerankRequest, Reply>) -> bool {
    match r {
        Ok(request) => {
            &&& rerank_refusal(params) is None
            &&& request.query@ == query_of(params)
            &&& params.member("results"@) == Some(JsonView::Array(json_views(request.results@)))
        },
        Err(reply) => rerank_refusal(params) is Some && reply@ == failure_view(
            HttpStatus::BadRequest,
            rerank_refusal(params)->0,
        ),
    }
}

/// The rerank that a body asks for.
pub fn rerank_request(body: &str) -> (r: Result<RerankRequest, Reply>)
    ensures
        (match read_document(body@) {
            Ok(params) => rerank_read(params, r),
            Err(message) => r is Err && r->Err_0@ == invalid_json(message),
        }),
{
    match read_body(body) {
        Ok(params) => read_rerank(&params),
        Err(reply) => Err(reply),
    }
}

/// Reads the parameters of a rerank.
pub fn read_rerank(params: &Json) -> (r: Result<RerankRequest, Reply>)
    ensures
        rerank_read(params@, r),
{
    let query = params.get_text_or("query", "");
    let results = match params.get("results") {
        Some(Json::Array(items)) => {
            let ghost whole = params@.member("results"@)->0;
            let list = copy_documents(items);
            assert(whole->Array_0 =~= json_views(list@));
            list
        },
        _ => {
            return Err(failure(HttpStatus::BadRequest, "missing 'results' array"));
        },
    };
    let ghost views = json_views(results@);
    if query.as_str().is_empty() {
        return Err(failure(HttpStatus::BadRequest, "missing 'query' field"));
    }
    if results.len() > MAX_RERANK_RESULTS {
        let message = cat2(
            "results exceeds maximum of ",
            &decimal_text(MAX_RERANK_RESULTS as u64),
        );
        return Err(failure(HttpStatus::BadRequest, &message));
    }
    let mut i: usize = 0;
    while i < results.len()
        invariant
            i <= results.len(),
            views == json_views(results@),
            params@.member("results"@) == Some(JsonView::Array(views)),
            query@ == query_of(params@),
            query@.len() > 0,
            results@.len() <= MAX_RERANK_RESULTS,
            forall|k: int|
                0 <= k < i ==> content_bytes(#[trigger] views[k]) <= MAX_RERANK_CONTENT_BYTES,
        decreases results.len() - i,
    {
        if content_too_long(&results[i]) {
            assert(content_bytes(views[i as int]) > MAX_RERANK_CONTENT_BYTES);
            let message = crate::text::cat3(
                "result content exceeds maximum of ",
                &decimal_text(MAX_RERANK_CONTENT_BYTES as u64),
                " bytes",
            );
            return Err(failure(HttpStatus::BadRequest, &message));
        }
        i = i + 1;
    }
    Ok(RerankRequest { query, results })
}

/// The reply of a rerank, given the ratings of its results.
pub fn finish_rerank(request: &RerankRequest, ratings: &Vec<Option<u8>>) -> (reply: Reply)
    ensures
        ({
            let (ordered, status) = reranked(json_views(request.results@), ratings@);
            reply@ == (ReplyView {
                status: HttpStatus::Success,
                body: fields().put("ok"@, JsonView::Bool(true)).put(
                    "results"@,
                    JsonView::Array(ordered),
                ).put("count"@, JsonView::Unsigned(ordered.len() as u64)).put(
                    "rerank_status"@,
                    JsonView::Text(status.text()),
                ).put("model"@, JsonView::Text(RERANK_MODEL@)).object(),
            })
        }),
{
    let (ordered, status) = apply_ratings(&request.results, ratings);
    let count = ordered.len();
    Reply {
        status: HttpStatus::Success,
        body: Fields::new().with_bool("ok", true).with("results", Json::from_list(ordered)).with_count(
            "count",
            count,
        ).with_text("rerank_status", status.name()).with_text("model", RERANK_MODEL).object(),
    }
}

/// The reply to an attempt to add a fact over HTTP: always refused.
pub fn add_refused() -> (reply: Reply)
    ensures
        reply@ == failure_view(
            HttpStatus::ServiceUnavailable,
            "HTTP evidence admission is disabled: no trusted authenticated authority issuer or immutable evidence resolver is configured"@,
        ),
{
    failure(
        HttpStatus::ServiceUnavailable,
        "HTTP evidence admission is disabled: no trusted authenticated authority issuer or immutable evidence resolver is configured",
    )
}

/// The label that a client gives a routing decision.
#[derive(Clone, Copy, Debug, PartialEq, Eq, Structural)]
pub enum RoutingOutcome {
    Good,
    Bad,
    Neutral,
}

/// The outcome with the given name in lower case.
pub open spec fn outcome_named(lowered: Seq<char>) -> Option<RoutingOutcome> {
    if lowered == "good"@ {
        Some(RoutingOutcome::Good)
    } else if lowered == "bad"@ {
        Some(RoutingOutcome::Bad)
    } else if lowered == "neutral"@ {
        Some(RoutingOutcome::Neutral)
    } else {
        None
    }
}

/// The outcome with the given name in lower case.
pub fn outcome_by_name(lowered: &str) -> (r: Option<RoutingOutcome>)
    ensures
        r == outcome_named(lowered@),
{
    if same_text(lowered, "good") {
        Some(RoutingOutcome::Good)
    } else if same_text(lowered, "bad") {
        Some(RoutingOutcome::Bad)
    } else if same_text(lowered, "neutral") {
        Some(RoutingOutcome::Neutral)
    } else {
        None
    }
}

/// A routing outcome that a client reports.
pub struct OutcomeRequest {
    pub query: String,
    /// The outcome as the client wrote it.
    pub label: String,
    pub outcome: RoutingOutcome,
}

/// The outcome that a request names.
pub open spec fn label_of(params: JsonView) -> Seq<char> {
    params.text_member_or("outcome"@, "neutral"@)
}

/// Why a reported outcome is refused.
pub open spec fn outcome_refusal(params: JsonView) -> Option<Seq<char>> {
    if query_of(params).len() == 0 {
        Some("missing 'query' field"@)
    } else if outcome_named(unicode_lowered(label_of(params))) is None {
        Some("outcome must be 'good', 'bad', or 'neutral'"@)
    } else {
        None
    }
}

/// `r` is what reading a reported outcome gives.
pub open spec fn outcome_read(params: JsonView, r: Result<OutcomeRequest, Reply>) -> bool {
    match r {
        Ok(request) => {
            &&& outcome_refusal(params) is None
            &&& request.query@ == query_of(params)
            &&& request.label@ == label_of(params)
            &&& outcome_named(unicode_lowered(label_of(params))) == Some(request.outcome)
        },
        Err(reply) => outcome_refusal(params) is Some && reply@ == failure_view(
            HttpStatus::BadRequest,
            outcome_refusal(params)->0,
        ),
    }
}

/// Reads a reported outcome.
pub fn read_outcome(params: &Json) -> (r: Result<OutcomeRequest, Reply>)
    ensures
        outcome_read(params@, r),
{
    let query = params.get_text_or("query", "");
    let label = params.get_text_or("outcome", "neutral");
    if query.as_str().is_empty() {
        return Err(failure(HttpStatus::BadRequest, "missing 'query' field"));
    }
    match outcome_by_name(&to_lowercase(&label)) {
        Some(outcome) => Ok(OutcomeRequest { query, label, outcome }),
        None => Err(
            failure(HttpStatus::BadRequest, "outcome must be 'good', 'bad', or 'neutral'"),
        ),
    }
}

/// The outcome that a body reports.
pub fn outcome_request(body: &str) -> (r: Result<OutcomeRequest, Reply>)
    ensures
        (match read_document(body@) {
            Ok(params) => outcome_read(params, r),
            Err(message) => r is Err && r->Err_0@ == invalid_json(message),
        }),
{
    match read_body(body) {
        Ok(params) => read_outcome(&params),
        Err(reply) => Err(reply),
    }
}

/// The reply to a reported outcome: a label that changed the policy, with the
/// decision that it labels and the policy's state.
pub open spec fn outcome_reply(
    label: Seq<char>,
    decision: RouteView,
    trained_examples: u64,
    baseline: JsonView,
) -> ReplyView {
    ReplyView {
        status: HttpStatus::Success,
        body: fields().put("ok"@, JsonView::Bool(true)).put(
            "mutating"@,
            JsonView::Bool(true),
        ).put("recorded"@, JsonView::Bool(true)).put(
            "feedback"@,
            fields().put("kind"@, JsonView::Text("ProxyLabel"@)).put(
                "label"@,
                JsonView::Text(label),
            ).object(),
        ).put("routing_decision"@, decision_fields(fields(), decision).object()).put(
            "policy_state"@,
            fields().put("trained_examples"@, JsonView::Unsigned(trained_examples)).put(
                "baseline"@,
                baseline,
            ).object(),
        ).object(),
    }
}

/// The reply to a reported outcome.
pub fn finish_outcome(
    request: &OutcomeRequest,
    decision: &RoutingDecision,
    trained_examples: u64,
    baseline: Json,
) -> (reply: Reply)
    ensures
        reply@ == outcome_reply(request.label@, decision@, trained_examples, baseline@),
{
    Reply {
        status: HttpStatus::Success,
        body: Fields::new().with_bool("ok", true).with_bool("mutating", true).with_bool(
            "recorded",
            true,
        ).with(
            "feedback",
            Fields::new().with_text("kind", "ProxyLabel").with_text("label", &request.label).object(),
        ).with("routing_decision", with_decision(Fields::new(), decision).object()).with(
            "policy_state",
            Fields::new().with("trained_examples", Json::Unsigned(trained_examples)).with(
                "baseline",
                baseline,
            ).object(),
        ).object(),
    }
}

/// What an integrity check found.
pub struct IntegrityReport {
    pub ok: bool,
    pub schema_version: u64,
    pub fact_count: usize,
    pub chunk_count: usize,
    pub message_count: usize,
    pub facts_missing_embeddings: usize,
    pub chunks_missing_embeddings: usize,
    pub issues: Vec<String>,
}

/// The findings of an integrity check as fields of a reply.
pub open spec fn integrity_fields(before: FieldsView, report: IntegrityReport) -> FieldsView {
    before.put("schema_version"@, JsonView::Unsigned(report.schema_version)).put(
        "fact_count"@,
        JsonView::Unsigned(report.fact_count as u64),
    ).put("chunk_count"@, JsonView::Unsigned(report.chunk_count as u64)).put(
        "message_count"@,
        JsonView::Unsigned(report.message_count as u64),
    ).put(
        "facts_missing_embeddings"@,
        JsonView::Unsigned(report.facts_missing_embeddings as u64),
    ).put(
        "chunks_missing_embeddings"@,
        JsonView::Unsigned(report.chunks_missing_embeddings as u64),
    ).put("issues"@, texts_json(texts(report.issues@))).put(
        "issue_count"@,
        JsonView::Unsigned(report.issues@.len() as u64),
    )
}

/// Adds the findings of an integrity check to the fields of a reply.
pub(crate) fn with_integrity(before: Fields, report: &IntegrityReport) -> (r: Fields)
    ensures
        r@ == integrity_fields(before@, *report),
{
    before.with("schema_version", Json::Unsigned(report.schema_version)).with_count(
        "fact_count",
        report.fact_count,
    ).with_count("chunk_count", report.chunk_count).with_count(
        "message_count",
        report.message_count,
    ).with_count("facts_missing_embeddings", report.facts_missing_embeddings).with_count(
        "chunks_missing_embeddings",
        report.chunks_missing_embeddings,
    ).with("issues", Json::from_texts(&report.issues)).with_count(
        "issue_count",
        report.issues.len(),
    )
}

/// The reply to an integrity check.
pub fn integrity_reply(report: &IntegrityReport) -> (reply: Reply)
    ensures
        reply@ == (ReplyView {
            status: HttpStatus::Success,
            body: integrity_fields(
                fields().put("ok"@, JsonView::Bool(report.ok)).put(
                    "integrity"@,
                    JsonView::Bool(report.ok),
                ),
                *report,
            ).put(
                "message"@,
                JsonView::Text(
                    if report.ok {
                        "All integrity checks passed"@
                    } else {
                        decimal(report.issues@.len()) + " integrity issues found"@
                    },
                ),
            ).object(),
        }),
{
    let message = if report.ok {
        "All integrity checks passed".to_owned()
    } else {
        cat2(&decimal_text(report.issues.len() as u64), " integrity issues found")
    };
    Reply {
        status: HttpStatus::Success,
        body: with_integrity(
            Fields::new().with_bool("ok", report.ok).with_bool("integrity", report.ok),
            report,
        ).with_text("message", &message).object(),
    }
}

/// The reply to an integrity check that failed.
pub fn integrity_failed(error: &str) -> (reply: Reply)
    ensures
        reply@ == (ReplyView {
            status: HttpStatus::InternalServerError,
            body: fields().put("ok"@, JsonView::Bool(false)).put(
                "integrity"@,
                JsonView::Bool(false),
            ).put("error"@, JsonView::Text("verify_integrity error: "@ + error@)).object(),
        }),
{
    Reply {
        status: HttpStatus::InternalServerError,
        body: Fields::new().with_bool("ok", false).with_bool("integrity", false).with_text(
            "error",
            &cat2("verify_integrity error: ", error),
        ).object(),
    }
}

/// The message of a maintenance check.
pub open spec fn check_message(ok: bool, dirty: bool, issues: nat) -> Seq<char> {
    if ok && !dirty {
        "All checks passed"@
    } else if ok {
        "Integrity OK but embeddings need re-embedding"@
    } else {
        decimal(issues) + " integrity issues found"@
    }
}

/// The reply to a maintenance check.
pub fn maintenance_check_reply(report: &IntegrityReport, embeddings_dirty: bool) -> (reply: Reply)
    ensures
        reply@ == (ReplyView {
            status: HttpStatus::Success,
            body: fields().put("ok"@, JsonView::Bool(report.ok)).put(
                "embeddings_are_dirty"@,
                JsonView::Bool(embeddings_dirty),
            ).put(
                "integrity"@,
                integrity_fields(
                    fields().put("ok"@, JsonView::Bool(report.ok)),
                    *report,
                ).object(),
            ).put(
                "message"@,
                JsonView::Text(check_message(report.ok, embeddings_dirty, report.issues@.len())),
            ).object(),
        }),
{
    let message = if report.ok && !embeddings_dirty {
        "All checks passed".to_owned()
    } else if report.ok {
        "Integrity OK but embeddings need re-embedding".to_owned()
    } else {
        cat2(&decimal_text(report.issues.len() as u64), " integrity issues found")
    };
    Reply {
        status: HttpStatus::Success,
        body: Fields::new().with_bool("ok", report.ok).with_bool(
            "embeddings_are_dirty",
            embeddings_dirty,
        ).with(
            "integrity",
            with_integrity(Fields::new().with_bool("ok", report.ok), report).object(),
        ).with_text("message", &message).object(),
    }
}

/// The reply to a maintenance check whose integrity check failed.
pub fn maintenance_check_failed(embeddings_dirty: bool, error: &str) -> (reply: Reply)
    ensures
        reply@ == (ReplyView {
            status: HttpStatus::InternalServerError,
            body: fields().put("ok"@, JsonView::Bool(false)).put(
                "embeddings_are_dirty"@,
                JsonView::Bool(embeddings_dirty),
            ).put("error"@, JsonView::Text("verify_integrity error: "@ + error@)).object(),
        }),
{
    Reply {
        status: HttpStatus::InternalServerError,
        body: Fields::new().with_bool("ok", false).with_bool(
            "embeddings_are_dirty",
            embeddings_dirty,
        ).with_text("error", &cat2("verify_integrity error: ", error)).object(),
    }
}

/// The reply to a vacuum.
pub fn vacuum_reply() -> (reply: Reply)
    ensures
        reply@ == (ReplyView {
            status: HttpStatus::Success,
            body: fields().put("ok"@, JsonView::Bool(true)).put(
                "action"@,
                JsonView::Text("vacuum"@),
            ).put("message"@, JsonView::Text("Database vacuumed successfully"@)).object(),
        }),
{
    Reply {
        status: HttpStatus::Success,
        body: Fields::new().with_bool("ok", true).with_text("action", "vacuum").with_text(
            "message",
            "Database vacuumed successfully",
        ).object(),
    }
}

/// The reply to a re-embedding of so many items.
pub fn reembed_reply(count: usize) -> (reply: Reply)
    ensures
        reply@ == (ReplyView {
            status: HttpStatus::Success,
            body: fields().put("ok"@, JsonView::Bool(true)).put(
                "action"@,
                JsonView::Text("reembed"@),
            ).put("reembedded_count"@, JsonView::Unsigned(count as u64)).put(
                "message"@,
                JsonView::Text("Re-embedded "@ + decimal(count as nat) + " items"@),
            ).object(),
        }),
{
    let message = crate::text::cat3("Re-embedded ", &decimal_text(count as u64), " items");
    Reply {
        status: HttpStatus::Success,
        body: Fields::new().with_bool("ok", true).with_text("action", "reembed").with_count(
            "reembedded_count",
            count,
        ).with_text("message", &message).object(),
    }
}

/// What a reconciliation does about the issues it finds.
#[derive(Clone, Copy, Debug, PartialEq, Eq, Structural)]
pub enum ReconcileAction {
    ReportOnly,
    RebuildFts,
    ReEmbed,
}

/// A reconciliation that a client asked for.
pub struct ReconcileRequest {
    /// The action as the client wrote it.
    pub label: String,
    pub action: ReconcileAction,
}

/// The action with the given name; any other name only reports.
pub open spec fn reconcile_action(label: Seq<char>) -> ReconcileAction {
    if label == "RebuildFts"@ {
        ReconcileAction::RebuildFts
    } else if label == "ReEmbed"@ {
        ReconcileAction::ReEmbed
    } else {
        ReconcileAction::ReportOnly
    }
}

/// Reads the parameters of a reconciliation.
pub fn read_reconcile(params: &Json) -> (request: ReconcileRequest)
    ensures
        request.label@ == params@.text_member_or("action"@, "ReportOnly"@),
        request.action == reconcile_action(request.label@),
{
    let label = params.get_text_or("action", "ReportOnly");
    let action = if same_text(&label, "RebuildFts") {
        ReconcileAction::RebuildFts
    } else if same_text(&label, "ReEmbed") {
        ReconcileAction::ReEmbed
    } else {
        ReconcileAction::ReportOnly
    };
    ReconcileRequest { label, action }
}

/// The reconciliation that a body asks for.
pub fn reconcile_request(body: &str) -> (r: Result<ReconcileRequest, Reply>)
    ensures
        (match read_document(body@) {
            Ok(params) => r is Ok && r->Ok_0.label@ == params.text_member_or(
                "action"@,
                "ReportOnly"@,
            ) && r->Ok_0.action == reconcile_action(r->Ok_0.label@),
            Err(message) => r is Err && r->Err_0@ == invalid_json(message),
        }),
{
    match read_body(body) {
        Ok(params) => Ok(read_reconcile(&params)),
        Err(reply) => Err(reply),
    }
}

/// The reply to a reconciliation.
pub fn reconcile_reply(request: &ReconcileRequest, report: &IntegrityReport) -> (reply: Reply)
    ensures
        reply@ == (ReplyView {
            status: HttpStatus::Success,
            body: fields().put("ok"@, JsonView::Bool(report.ok)).put(
                "action"@,
                JsonView::Text("reconcile"@),
            ).put("reconcile_action"@, JsonView::Text(request.label@)).put(
                "integrity"@,
                integrity_fields(
                    fields().put("ok"@, JsonView::Bool(report.ok)),
                    *report,
                ).object(),
            ).put(
                "message"@,
                JsonView::Text(
                    if report.ok {
                        "Reconciliation completed, no issues found"@
                    } else {
                        "Reconciliation completed with "@ + decimal(report.issues@.len())
                            + " issues"@
                    },
                ),
            ).object(),
        }),
{
    let message = if report.ok {
        "Reconciliation completed, no issues found".to_owned()
    } else {
        crate::text::cat3(
            "Reconciliation completed with ",
            &decimal_text(report.issues.len() as u64),
            " issues",
        )
    };
    Reply {
        status: HttpStatus::Success,
        body: Fields::new().with_bool("ok", report.ok).with_text("action", "reconcile").with_text(
            "reconcile_action",
            &request.label,
        ).with(
            "integrity",
            with_integrity(Fields::new().with_bool("ok", report.ok), report).object(),
        ).with_text("message", &message).object(),
    }
}

/// The reply to a request for index maintenance that the vector backend does
/// not need.
pub fn index_maintenance_skipped(action: &str, message: &str) -> (reply: Reply)
    ensures
        reply@ == (ReplyView {
            status: HttpStatus::Success,
            body: fields().put("ok"@, JsonView::Bool(true)).put(
                "action"@,
                JsonView::Text(action@),
            ).put("message"@, JsonView::Text(message@)).put(
                "skipped"@,
                JsonView::Bool(true),
            ).object(),
        }),
{
    Reply {
        status: HttpStatus::Success,
        body: Fields::new().with_bool("ok", true).with_text("action", action).with_text(
            "message",
            message,
        ).with_bool("skipped", true).object(),
    }
}

/// The size of the store.
pub struct StoreStats {
    pub facts: u64,
    pub documents: u64,
    pub chunks: u64,
    pub sessions: u64,
    pub messages: u64,
    pub database_bytes: u64,
    /// The size in megabytes, in decimal notation.
    pub database_megabytes: Json,
    pub embedding_model: Option<String>,
    pub embedding_dimensions: Option<u64>,
}

/// The health of a component: its error, if it has one.
pub open spec fn component_json(error: Option<Seq<char>>) -> JsonView {
    fields().put(
        "health"@,
        JsonView::Text(
            if error is Some {
                "error"@
            } else {
                "healthy"@
            },
        ),
    ).put("error"@, crate::json::optional_text_json(error)).object()
}

/// The error of a result.
pub open spec fn error_of<T>(r: Result<T, String>) -> Option<Seq<char>> {
    match r {
        Ok(_) => None,
        Err(e) => Some(e@),
    }
}

/// The health of a component.
pub(crate) fn describe_component(error: Option<&String>) -> (document: Json)
    ensures
        document@ == component_json(
            match error {
                Some(e) => Some(e@),
                None => None,
            },
        ),
{
    match error {
        Some(e) => Fields::new().with_text("health", "error").with(
            "error",
            Json::from_text(e),
        ).object(),
        None => Fields::new().with_text("health", "healthy").with_null("error").object(),
    }
}

/// A count of the store, if the store could be read.
pub open spec fn stat_json(stats: Result<StoreStats, String>, value: u64) -> JsonView {
    if stats is Ok {
        JsonView::Unsigned(value)
    } else {
        JsonView::Null
    }
}

/// The reply to a request for statistics: complete where both the store and
/// the graph could be read, else unavailable, with what could be read.
pub open spec fn stats_view(
    stats: Result<StoreStats, String>,
    edges: Result<usize, String>,
) -> ReplyView {
    let ok = stats is Ok && edges is Ok;
    ReplyView {
        status: if ok {
            HttpStatus::Success
        } else {
            HttpStatus::ServiceUnavailable
        },
        body: fields().put("ok"@, JsonView::Bool(ok)).put(
            "components"@,
            fields().put("core"@, component_json(error_of(stats))).put(
                "graph"@,
                component_json(error_of(edges)),
            ).object(),
        ).put("facts"@, stat_json(stats, stats->Ok_0.facts)).put(
            "documents"@,
            stat_json(stats, stats->Ok_0.documents),
        ).put("chunks"@, stat_json(stats, stats->Ok_0.chunks)).put(
            "graph_edges"@,
            if edges is Ok {
                JsonView::Unsigned(edges->Ok_0 as u64)
            } else {
                JsonView::Null
            },
        ).put(
            "db_size_mb"@,
            if stats is Ok {
                stats->Ok_0.database_megabytes@
            } else {
                JsonView::Null
            },
        ).object(),
    }
}

/// The reply to a request for statistics.
pub fn stats_reply(stats: &Result<StoreStats, String>, edges: &Result<usize, String>) -> (reply:
    Reply)
    ensures
        reply@ == stats_view(*stats, *edges),
{
    let (facts, documents, chunks, size, core_error) = match stats {
        Ok(s) => (
            Json::Unsigned(s.facts),
            Json::Unsigned(s.documents),
            Json::Unsigned(s.chunks),
            s.database_megabytes.copy(),
            None,
        ),
        Err(e) => (Json::Null, Json::Null, Json::Null, Json::Null, Some(e)),
    };
    let (edge_count, graph_error) = match edges {
        Ok(n) => (Json::from_count(*n), None),
        Err(e) => (Json::Null, Some(e)),
    };
    let ok = stats.is_ok() && edges.is_ok();
    let status = if ok {
        HttpStatus::Success
    } else {
        HttpStatus::ServiceUnavailable
    };
    Reply {
        status,
        body: Fields::new().with_bool("ok", ok).with(
            "components",
            Fields::new().with("core", describe_component(core_error)).with(
                "graph",
                describe_component(graph_error),
            ).object(),
        ).with("facts", facts).with("documents", documents).with("chunks", chunks).with(
            "graph_edges",
            edge_count,
        ).with("db_size_mb", size).object(),
    }
}

/// A second-order search that a client asked for: around results that it
/// names, or around those of a search.
pub enum DiscordRequest {
    Around(Vec<String>),
    AroundSearch { query: String, top_k: usize },
}

/// Why a second-order search is refused.
pub open spec fn discord_refusal(params: JsonView) -> Option<Seq<char>> {
    if top_k_of(params, 5) is Err {
        Some(top_k_of(params, 5)->Err_0)
    } else {
        match params.member("direct_ids"@) {
            Some(JsonView::Array(items)) => if items.len() > MAX_DIRECT_IDS || JsonView::Array(
                items,
            ).text_list() is None {
                Some(
                    "direct_ids must contain at most "@ + decimal(MAX_DIRECT_IDS as nat)
                        + " strings"@,
                )
            } else {
                None
            },
            _ => if query_of(params).len() == 0 {
                Some("either 'direct_ids' or 'query' must be provided"@)
            } else {
                None
            },
        }
    }
}

/// `r` is what reading the parameters of a second-order search gives.
pub open spec fn discord_read(params: JsonView, r: Result<DiscordRequest, Reply>) -> bool {
    match r {
        Ok(DiscordRequest::Around(ids)) => {
            &&& discord_refusal(params) is None
            &&& params.member("direct_ids"@) is Some
            &&& params.member("direct_ids"@)->0.text_list() == Some(texts(ids@))
        },
        Ok(DiscordRequest::AroundSearch { query, top_k }) => {
            &&& discord_refusal(params) is None
            &&& !(params.member("direct_ids"@) is Some && params.member("direct_ids"@)->0 is Array)
            &&& query@ == query_of(params)
            &&& top_k == top_k_of(params, 5)->Ok_0
        },
        Err(reply) => discord_refusal(params) is Some && reply@ == failure_view(
            HttpStatus::BadRequest,
            discord_refusal(params)->0,
        ),
    }
}

/// Reads the parameters of a second-order search.
pub fn read_discord(params: &Json) -> (r: Result<DiscordRequest, Reply>)
    ensures
        discord_read(params@, r),
{
    let query = params.get_text_or("query", "");
    let top_k = match bounded_top_k(params, 5) {
        Ok(k) => k,
        Err(reply) => {
            return Err(reply);
        },
    };
    match params.get("direct_ids") {
        Some(value) => match value {
            Json::Array(items) => {
                let ghost whole = params@.member("direct_ids"@)->0;
                assert(whole is Array && whole->Array_0.len() == items@.len());
                let count = items.len();
                match value.as_text_list() {
                    Some(ids) => {
                        if count <= MAX_DIRECT_IDS {
                            return Ok(DiscordRequest::Around(ids));
                        }
                    },
                    None => {},
                }
                let message = crate::text::cat3(
                    "direct_ids must contain at most ",
                    &decimal_text(MAX_DIRECT_IDS as u64),
                    " strings",
                );
                return Err(failure(HttpStatus::BadRequest, &message));
            },
            _ => {},
        },
        None => {},
    }
    if query.as_str().is_empty() {
        return Err(
            failure(HttpStatus::BadRequest, "either 'direct_ids' or 'query' must be provided"),
        );
    }
    Ok(DiscordRequest::AroundSearch { query, top_k })
}

/// The second-order search that a body asks for.
pub fn discord_request(body: &str) -> (r: Result<DiscordRequest, Reply>)
    ensures
        (match read_document(body@) {
            Ok(params) => discord_read(params, r),
            Err(message) => r is Err && r->Err_0@ == invalid_json(message),
        }),
{
    match read_body(body) {
        Ok(params) => read_discord(&params),
        Err(reply) => Err(reply),
    }
}

/// The reply of a second-order search around the given results: nothing where
/// there are none, else the hits that are not among them.
pub open spec fn discord_view(
    direct: Seq<Seq<char>>,
    edges_loaded: int,
    hits: Seq<DiscordHit>,
) -> ReplyView {
    ReplyView {
        status: HttpStatus::Success,
        body: if direct.len() == 0 {
            fields().put("ok"@, JsonView::Bool(true)).put(
                "discord_results"@,
                JsonView::Array(Seq::empty()),
            ).put("count"@, JsonView::Unsigned(0)).put(
                "edges_loaded"@,
                JsonView::Unsigned(0),
            ).object()
        } else {
            fields().put("ok"@, JsonView::Bool(true)).put(
                "discord_results"@,
                JsonView::Array(new_hits(hits, direct)),
            ).put("count"@, JsonView::Unsigned(new_hits(hits, direct).len() as u64)).put(
                "edges_loaded"@,
                JsonView::Unsigned(edges_loaded as u64),
            ).put("direct_ids"@, texts_json(direct)).object()
        },
    }
}

/// The reply of a second-order search around the given results.
pub fn finish_discord(direct: &Vec<String>, edges_loaded: usize, hits: &Vec<DiscordHit>) -> (reply:
    Reply)
    ensures
        reply@ == discord_view(texts(direct@), edges_loaded as int, hits@),
{
    if direct.len() == 0 {
        let none: Vec<Json> = Vec::new();
        assert(json_views(none@) =~= Seq::empty());
        return Reply {
            status: HttpStatus::Success,
            body: Fields::new().with_bool("ok", true).with(
                "discord_results",
                Json::from_list(none),
            ).with_count("count", 0).with_count("edges_loaded", 0).object(),
        };
    }
    let list = describe_new_hits(hits, direct);
    let count = list.len();
    Reply {
        status: HttpStatus::Success,
        body: Fields::new().with_bool("ok", true).with(
            "discord_results",
            Json::from_list(list),
        ).with_count("count", count).with_count("edges_loaded", edges_loaded).with(
            "direct_ids",
            Json::from_texts(direct),
        ).object(),
    }
}

/// A routed search that a client asked for.
pub struct RoutedRequest {
    pub query: String,
    /// The number of results that the client asked for.
    pub base_top_k: usize,
    /// The number of results to fetch.
    pub top_k: usize,
    pub query_class: String,
    pub namespaces: Option<Vec<String>>,
    pub contradictions: Vec<(String, String)>,
    pub group_by_community: bool,
    /// Whether exact scoring is preferred.
    pub exact: bool,
}

/// The class that a client gives its query.
pub open spec fn class_of(params: JsonView) -> Seq<char> {
    params.text_member_or("query_class"@, "A"@)
}

/// The contradictions that a client names.
pub open spec fn contradictions_of(params: JsonView) -> Seq<(Seq<char>, Seq<char>)> {
    match params.member("contradictions"@) {
        Some(value) => match value.text_pairs() {
            Some(pairs) => pairs,
            None => Seq::empty(),
        },
        None => Seq::empty(),
    }
}

/// The number of results to fetch for a query of the given class: a synthesis
/// looks at twice as many, up to 20.
pub open spec fn routed_top_k(base: int, class: Seq<char>) -> int {
    if class == "D"@ {
        if 2 * base < 20 {
            2 * base
        } else {
            20
        }
    } else {
        base
    }
}

/// `r` is what reading the parameters of a routed search gives.
pub open spec fn routed_read(params: JsonView, r: Result<RoutedRequest, Reply>) -> bool {
    match r {
        Ok(request) => {
            &&& query_refusal(params, 12) is None
            &&& request.query@ == query_of(params)
            &&& request.base_top_k == top_k_of(params, 12)->Ok_0
            &&& request.top_k == routed_top_k(request.base_top_k as int, class_of(params))
            &&& request.query_class@ == class_of(params)
            &&& optional_texts(request.namespaces) == namespaces_of(params)
            &&& pair_texts(request.contradictions@) == contradictions_of(params)
            &&& request.group_by_community == params.true_member("group_by_community"@)
            &&& request.exact == (class_of(params) == "C"@)
        },
        Err(reply) => query_refusal(params, 12) == Some(reply@),
    }
}

/// Reads the parameters of a routed search.
pub fn read_routed(params: &Json) -> (r: Result<RoutedRequest, Reply>)
    ensures
        routed_read(params@, r),
{
    let query = params.get_text_or("query", "");
    let base_top_k = match bounded_top_k(params, 12) {
        Ok(k) => k,
        Err(reply) => {
            return Err(reply);
        },
    };
    let query_class = params.get_text_or("query_class", "A");
    let namespaces = read_namespaces(params);
    let contradictions = read_contradictions(params);
    let group_by_community = params.get_true("group_by_community");
    if query.as_str().is_empty() {
        return Err(failure(HttpStatus::BadRequest, "missing 'query' field"));
    }
    let top_k = if same_text(&query_class, "D") {
        if base_top_k < 10 {
            base_top_k * 2
        } else {
            20
        }
    } else {
        base_top_k
    };
    let exact = same_text(&query_class, "C");
    Ok(
        RoutedRequest {
            query,
            base_top_k,
            top_k,
            query_class,
            namespaces,
            contradictions,
            group_by_community,
            exact,
        },
    )
}

/// The contradictions that a client names.
fn read_contradictions(params: &Json) -> (pairs: Vec<(String, String)>)
    ensures
        pair_texts(pairs@) == contradictions_of(params@),
{
    if let Some(value) = params.get("contradictions") {
        if let Some(pairs) = value.as_text_pairs() {
            return pairs;
        }
    }
    let none: Vec<(String, String)> = Vec::new();
    assert(pair_texts(none@) =~= Seq::empty());
    none
}

/// The routed search that a body asks for.
pub fn routed_request(body: &str) -> (r: Result<RoutedRequest, Reply>)
    ensures
        (match read_document(body@) {
            Ok(params) => routed_read(params, r),
            Err(message) => r is Err && r->Err_0@ == invalid_json(message),
        }),
{
    match read_body(body) {
        Ok(params) => read_routed(&params),
        Err(reply) => Err(reply),
    }
}

/// The name of what a hit is.
pub open spec fn source_type(source: HitSource) -> Seq<char> {
    match source {
        HitSource::Fact { .. } => "fact"@,
        HitSource::Chunk { .. } => "chunk"@,
        HitSource::Message => "message"@,
        HitSource::Other => "unknown"@,
    }
}

/// The hits as the routed search endpoint replies with them.
pub open spec fn routed_hits(hits: Seq<SearchHit>) -> Seq<JsonView> {
    Seq::new(
        hits.len(),
        |i: int|
            http_hit_fields(hits[i]).put(
                "source_type"@,
                JsonView::Text(source_type(hits[i].source)),
            ).object(),
    )
}

/// The hits as the routed search endpoint replies with them.
fn describe_routed_hits(hits: &Vec<SearchHit>) -> (results: Vec<Json>)
    ensures
        json_views(results@) == routed_hits(hits@),
{
    let mut results: Vec<Json> = Vec::new();
    let mut i: usize = 0;
    while i < hits.len()
        invariant
            i <= hits.len(),
            results.len() == i,
            forall|k: int| 0 <= k < i ==> (#[trigger] results@[k])@ == routed_hits(hits@)[k],
        decreases hits.len() - i,
    {
        let label = match &hits[i].source {
            HitSource::Fact { .. } => "fact",
            HitSource::Chunk { .. } => "chunk",
            HitSource::Message => "message",
            HitSource::Other => "unknown",
        };
        results.push(http_hit(&hits[i]).with_text("source_type", label).object());
        i = i + 1;
    }
    assert(json_views(results@) =~= routed_hits(hits@));
    results
}

/// Some hit was ranked by the keyword stage.
pub open spec fn any_bm25(hits: Seq<SearchHit>) -> bool {
    exists|i: int| 0 <= i < hits.len() && (#[trigger] hits[i]).bm25_rank is Some
}

/// Some hit was ranked by the vector stage.
pub open spec fn any_vector(hits: Seq<SearchHit>) -> bool {
    exists|i: int| 0 <= i < hits.len() && (#[trigger] hits[i]).vector_rank is Some
}

/// Whether some hit was ranked by the keyword stage, and by the vector stage.
fn ranked_stages(hits: &Vec<SearchHit>) -> (r: (bool, bool))
    ensures
        r.0 == any_bm25(hits@),
        r.1 == any_vector(hits@),
{
    let mut bm25 = false;
    let mut vector = false;
    let mut i: usize = 0;
    while i < hits.len()
        invariant
            i <= hits.len(),
            bm25 == exists|k: int| 0 <= k < i && (#[trigger] hits@[k]).bm25_rank is Some,
            vector == exists|k: int| 0 <= k < i && (#[trigger] hits@[k]).vector_rank is Some,
        decreases hits.len() - i,
    {
        let ghost at = hits@[i as int];
        if hits[i].bm25_rank.is_some() {
            bm25 = true;
        }
        if hits[i].vector_rank.is_some() {
            vector = true;
        }
        i = i + 1;
    }
    (bm25, vector)
}

/// The provenance of a routed search: which stages contributed, and nothing
/// claimed verified.
pub open spec fn routed_provenance(
    hits: Seq<SearchHit>,
    discord: bool,
    decoder: bool,
    class: Seq<char>,
) -> JsonView {
    fields().put(
        "stages_fired"@,
        fields().put("bm25"@, JsonView::Bool(any_bm25(hits))).put(
            "vector"@,
            JsonView::Bool(any_vector(hits)),
        ).put("late_interaction"@, JsonView::Bool(true)).put(
            "discord"@,
            JsonView::Bool(discord),
        ).put("decoder"@, JsonView::Bool(decoder)).object(),
    ).put("result_count"@, JsonView::Unsigned(hits.len() as u64)).put(
        "view"@,
        JsonView::Text("routed"@),
    ).put("query_class"@, JsonView::Text(class)).put("widening_occurred"@, JsonView::Null).put(
        "widening_reason"@,
        JsonView::Null,
    ).put("verification_status"@, JsonView::Text("unverified"@)).put(
        "proof_reference"@,
        JsonView::Null,
    ).object()
}

/// The reply of a routed search.
pub open spec fn routed_view(
    request: RoutedRequest,
    hits: Seq<SearchHit>,
    found: RoutedFindings,
) -> ReplyView {
    let decision = found.selected.decision@;
    let decoder = decoder_ran(decision, found.factor_graph, request.contradictions@.len());
    let discord = discord_ran(decision, found.discord);
    let results = routed_hits(hits);
    ReplyView {
        status: HttpStatus::Success,
        body: fields().put("ok"@, JsonView::Bool(true)).put(
            "query"@,
            JsonView::Text(request.query@),
        ).put("top_k"@, JsonView::Unsigned(request.base_top_k as u64)).put(
            "results"@,
            JsonView::Array(results),
        ).put(
            "provenance"@,
            routed_provenance(hits, discord, decoder, request.query_class@),
        ).put("query_class"@, JsonView::Text(request.query_class@)).put(
            "routed"@,
            JsonView::Bool(true),
        ).put(
            "routing_decision"@,
            crate::routing::selected_json(decision, found.selected.trained),
        ).put("decoder_planned"@, JsonView::Bool(decision.decoder)).put(
            "decoder_executed"@,
            JsonView::Bool(decoder),
        ).put("discord_planned"@, JsonView::Bool(decision.discord)).put(
            "discord_executed"@,
            JsonView::Bool(discord),
        ).put(
            "discord_results"@,
            crate::routing::discord_json(decision, found.discord, hit_ids(hits)),
        ).put(
            "factor_graph"@,
            crate::routing::factor_graph_json(decision.decoder, found.factor_graph, false),
        ).put(
            "grouped_results"@,
            grouping_json(request.group_by_community, results, found.communities),
        ).object(),
    }
}

/// The reply of a routed search, given its hits and what its stages found.
pub fn finish_routed(request: &RoutedRequest, hits: &Vec<SearchHit>, found: &RoutedFindings) -> (
reply: Reply)
    ensures
        reply@ == routed_view(*request, hits@, *found),
{
    let decision = &found.selected.decision;
    let decoder = crate::routing::decoder_executed(
        decision,
        &found.factor_graph,
        request.contradictions.len(),
    );
    let discord = decision.discord && found.discord.is_some();
    let results = describe_routed_hits(hits);
    let (bm25, vector) = ranked_stages(hits);
    let direct = result_ids(hits);
    let provenance = Fields::new().with(
        "stages_fired",
        Fields::new().with_bool("bm25", bm25).with_bool("vector", vector).with_bool(
            "late_interaction",
            true,
        ).with_bool("discord", discord).with_bool("decoder", decoder).object(),
    ).with_count("result_count", hits.len()).with_text("view", "routed").with_text(
        "query_class",
        &request.query_class,
    ).with_null("widening_occurred").with_null("widening_reason").with_text(
        "verification_status",
        "unverified",
    ).with_null("proof_reference").object();
    let grouping = describe_grouping(request.group_by_community, &results, &found.communities);
    Reply {
        status: HttpStatus::Success,
        body: Fields::new().with_bool("ok", true).with_text("query", &request.query).with_count(
            "top_k",
            request.base_top_k,
        ).with("results", Json::from_list(results)).with("provenance", provenance).with_text(
            "query_class",
            &request.query_class,
        ).with_bool("routed", true).with(
            "routing_decision",
            crate::routing::describe_selected(&found.selected),
        ).with_bool("decoder_planned", decision.decoder).with_bool(
            "decoder_executed",
            decoder,
        ).with_bool("discord_planned", decision.discord).with_bool("discord_executed", discord).with(
            "discord_results",
            crate::routing::describe_discord(decision, &found.discord, &direct),
        ).with(
            "factor_graph",
            crate::routing::describe_factor_graph(decision.decoder, &found.factor_graph, false),
        ).with("grouped_results", grouping).object(),
    }
}

/// No search reply claims to be verified.
pub proof fn law_searches_claim_no_verification(
    applied: bool,
    rerank: bool,
    count: int,
    hits: Seq<SearchHit>,
    discord: bool,
    decoder: bool,
    class: Seq<char>,
)
    ensures
        search_provenance(applied, rerank, count).text_member("verification_status"@) == Some(
            "unverified"@,
        ),
        search_provenance(applied, rerank, count).member("proof_reference"@) == Some(
            JsonView::Null,
        ),
        routed_provenance(hits, discord, decoder, class).text_member("verification_status"@)
            == Some("unverified"@),
        routed_provenance(hits, discord, decoder, class).member("proof_reference"@) == Some(
            JsonView::Null,
        ),
{
    reveal_strlit("stages_fired");
    reveal_strlit("rerank_requested");
    reveal_strlit("result_count");
    reveal_strlit("view");
    reveal_strlit("query_class");
    reveal_strlit("widening_occurred");
    reveal_strlit("widening_reason");
    reveal_strlit("verification_status");
    reveal_strlit("proof_reference");
    assert("stages_fired"@.len() == 12 && "rerank_requested"@.len() == 16);
    assert("result_count"@.len() == 12 && "view"@.len() == 4 && "query_class"@.len() == 11);
    assert("widening_occurred"@.len() == 17 && "widening_reason"@.len() == 15);
    assert("verification_status"@.len() == 19 && "proof_reference"@.len() == 15);
    assert("proof_reference"@[0] == 'p' && "widening_reason"@[0] == 'w');
    let a = search_provenance(applied, rerank, count)->Object_0;
    crate::json::lemma_field_index(a, "verification_status"@, 6);
    crate::json::lemma_field_index(a, "proof_reference"@, 7);
    let b = routed_provenance(hits, discord, decoder, class)->Object_0;
    crate::json::lemma_field_index(b, "verification_status"@, 6);
    crate::json::lemma_field_index(b, "proof_reference"@, 7);
}

/// A request is never given more results than the limit, and always at least
/// one.
pub proof fn law_top_k_is_bounded(params: JsonView, default: int)
    requires
        1 <= default <= MAX_TOP_K,
    ensures
        top_k_of(params, default) is Ok ==> 1 <= top_k_of(params, default)->Ok_0 <= MAX_TOP_K,
{
}

/// A search without a rerank shows every result as it was found. One whose
/// results were all rated shows the best `top_k` of them, or all where there are
/// fewer: none that is left out has a better rating than one that is shown, and
/// the ratings never rise from one shown result to the next. `order` gives, for
/// each result from the best to the worst, the offset that it had.
pub proof fn law_reranked_searches_show_the_best(
    results: Seq<JsonView>,
    ratings: Seq<Option<u8>>,
    top_k: int,
) -> (order: Seq<int>)
    requires
        top_k >= 0,
        results.len() > 0,
        ratings.len() == results.len(),
        forall|i: int|
            0 <= i < ratings.len() ==> (#[trigger] ratings[i]) is Some && 1 <= ratings[i]->0 <= 5,
    ensures
        final_results(results, false, ratings, top_k) == (results, RerankStatus::NotApplicable),
        ({
            let (shown, status) = final_results(results, true, ratings, top_k);
            &&& status == RerankStatus::Applied
            &&& shown.len() == (if top_k < results.len() {
                top_k
            } else {
                results.len() as int
            })
            &&& order.len() == results.len()
            &&& forall|n: int|
                0 <= n < order.len() ==> 0 <= #[trigger] order[n] < results.len() && (n
                    < shown.len() ==> shown[n] == results[order[n]].with_member(
                    "rerank_score"@,
                    JsonView::Decimal(seq![(48 + ratings[order[n]]->0) as char, '.', '0']),
                ))
        }),
        forall|n: int, m: int|
            0 <= n < m < order.len() ==> ratings[#[trigger] order[n]]->0 >= ratings[
                #[trigger] order[m]
            ]->0 && order[n] != order[m],
{
    let order = crate::rerank::law_rerank_orders_by_rating(results, ratings);
    assert forall|n: int, m: int| 0 <= n < m < order.len() implies ratings[
        #[trigger] order[n]
    ]->0 >= ratings[#[trigger] order[m]]->0 && order[n] != order[m] by {
        if ratings[order[n]] == ratings[order[m]] {
            assert(order[n] < order[m]);
        }
    }
    order
}

/// A search whose results were not all rated shows the first `top_k` as they
/// were found, and says that the rerank was degraded.
pub proof fn law_degraded_searches_show_the_first(
    results: Seq<JsonView>,
    ratings: Seq<Option<u8>>,
    top_k: int,
    i: int,
)
    requires
        top_k >= 0,
        0 <= i < ratings.len(),
        ratings[i] is None,
        results.len() > 0,
    ensures
        ({
            let (shown, status) = final_results(results, true, ratings, top_k);
            &&& status == RerankStatus::Degraded
            &&& shown.len() == (if top_k < results.len() {
                top_k
            } else {
                results.len() as int
            })
            &&& forall|n: int| 0 <= n < shown.len() ==> #[trigger] shown[n] == results[n]
        }),
{
    crate::rerank::law_degraded_rerank_changes_nothing(results, ratings, i);
}

/// The keys of a search reply differ.
proof fn lemma_search_keys()
    ensures
        "ok"@ != "query"@,
        "ok"@ != "top_k"@,
        "ok"@ != "results"@,
        "ok"@ != "count"@,
        "ok"@ != "reranked"@,
        "ok"@ != "rerank_status"@,
        "query"@ != "top_k"@,
        "query"@ != "results"@,
        "query"@ != "count"@,
        "query"@ != "reranked"@,
        "query"@ != "rerank_status"@,
        "top_k"@ != "results"@,
        "top_k"@ != "count"@,
        "top_k"@ != "reranked"@,
        "top_k"@ != "rerank_status"@,
        "results"@ != "count"@,
        "results"@ != "reranked"@,
        "results"@ != "rerank_status"@,
        "count"@ != "reranked"@,
        "count"@ != "rerank_status"@,
        "reranked"@ != "rerank_status"@,
{
    reveal_strlit("ok");
    reveal_strlit("query");
    reveal_strlit("top_k");
    reveal_strlit("results");
    reveal_strlit("count");
    reveal_strlit("reranked");
    reveal_strlit("rerank_status");
    assert("ok"@.len() == 2 && "results"@.len() == 7 && "reranked"@.len() == 8);
    assert("rerank_status"@.len() == 13);
    assert("query"@[0] == 'q' && "top_k"@[0] == 't' && "count"@[0] == 'c');
    assert("query"@.len() == 5 && "top_k"@.len() == 5 && "count"@.len() == 5);
}

/// The reply of a search holds what is shown and counts it, repeats the query
/// and the number asked for, and says that it was reranked just where it was.
pub proof fn law_search_replies_hold_what_is_shown(
    query: Seq<char>,
    top_k: int,
    rerank: bool,
    shown: Seq<JsonView>,
    status: RerankStatus,
)
    ensures
        ({
            let reply = search_reply(query, top_k, rerank, shown, status);
            &&& reply.status == HttpStatus::Success
            &&& reply.body.true_member("ok"@)
            &&& reply.body.text_member("query"@) == Some(query)
            &&& reply.body.member("top_k"@) == Some(JsonView::Unsigned(top_k as u64))
            &&& reply.body.member("results"@) == Some(JsonView::Array(shown))
            &&& reply.body.member("count"@) == Some(JsonView::Unsigned(shown.len() as u64))
            &&& reply.body.true_member("reranked"@) <==> status == RerankStatus::Applied
            &&& reply.body.text_member("rerank_status"@) == Some(status.text())
        }),
{
    lemma_search_keys();
    broadcast use crate::json::lemma_put_member, crate::json::lemma_no_member;

}

/// The keys of a hit differ.
proof fn lemma_http_hit_members(hit: SearchHit)
    ensures
        ({
            let result = http_hit_fields(hit).object();
            &&& result.text_member("result_id"@) == Some(hit.result_id@)
            &&& result.text_member("content"@) == Some(hit.content@)
            &&& result.member("score"@) == Some(hit.score@)
            &&& result.member("cosine_similarity"@) == Some(hit.cosine_similarity@)
            &&& result.text_member("namespace"@) == Some(shown_namespace(hit.source))
            &&& result.member("source_type"@) is None
        }),
{
    broadcast use crate::json::lemma_put_member, crate::json::lemma_no_member;

    reveal_strlit("result_id");
    reveal_strlit("content");
    reveal_strlit("score");
    reveal_strlit("cosine_similarity");
    reveal_strlit("namespace");
    reveal_strlit("source_type");
    assert("result_id"@.len() == 9 && "result_id"@[0] == 'r' && "namespace"@[0] == 'n');
    assert("content"@.len() == 7 && "score"@.len() == 5 && "cosine_similarity"@.len() == 17);
    assert("namespace"@.len() == 9 && "source_type"@.len() == 11);
}

/// The search endpoints show every hit that they are given, in its place, by its
/// identifier, content, score and namespace; the routed one also says what it
/// is.
pub proof fn law_http_hits_are_shown_in_place(hits: Seq<SearchHit>, i: int)
    requires
        0 <= i < hits.len(),
    ensures
        http_hits(hits).len() == hits.len(),
        routed_hits(hits).len() == hits.len(),
        ({
            let (plain, routed, hit) = (http_hits(hits)[i], routed_hits(hits)[i], hits[i]);
            let namespace = match hit.source {
                HitSource::Fact { namespace, .. } => namespace@,
                HitSource::Chunk { document_title } => document_title@,
                _ => Seq::empty(),
            };
            &&& plain.text_member("result_id"@) == Some(hit.result_id@)
            &&& plain.text_member("content"@) == Some(hit.content@)
            &&& plain.member("score"@) == Some(hit.score@)
            &&& plain.member("cosine_similarity"@) == Some(hit.cosine_similarity@)
            &&& plain.text_member("namespace"@) == Some(namespace)
            &&& routed.text_member("result_id"@) == Some(hit.result_id@)
            &&& routed.text_member("content"@) == Some(hit.content@)
            &&& routed.member("score"@) == Some(hit.score@)
            &&& routed.text_member("namespace"@) == Some(namespace)
            &&& routed.text_member("source_type"@) == Some("fact"@) <==> hit.source is Fact
            &&& routed.text_member("source_type"@) == Some("chunk"@) <==> hit.source is Chunk
            &&& routed.text_member("source_type"@) == Some("message"@) <==> hit.source is Message
        }),
{
    lemma_http_hit_members(hits[i]);
    broadcast use crate::json::lemma_put_member;

    reveal_strlit("");
    reveal_strlit("fact");
    reveal_strlit("chunk");
    reveal_strlit("message");
    reveal_strlit("unknown");
    reveal_strlit("result_id");
    reveal_strlit("content");
    reveal_strlit("score");
    reveal_strlit("namespace");
    reveal_strlit("source_type");
    assert(""@ =~= Seq::<char>::empty());
    assert("fact"@.len() == 4 && "chunk"@.len() == 5 && "message"@[0] == 'm');
    assert("message"@.len() == 7 && "unknown"@.len() == 7 && "unknown"@[0] == 'u');
    assert("source_type"@.len() == 11 && "result_id"@.len() == 9 && "content"@.len() == 7);
    assert("score"@.len() == 5 && "namespace"@.len() == 9);
}

/// A request is given the number of results that it asks for, where the limit
/// allows it, and is refused where not; the default is for requests that say
/// nothing.
pub proof fn law_requests_are_given_their_number(params: JsonView, n: u64, default: int)
    ensures
        params.member("top_k"@) is None ==> top_k_of(params, default) == Ok::<int, Seq<char>>(
            default,
        ),
        params.member("top_k"@) == Some(JsonView::Unsigned(n)) && 1 <= n <= MAX_TOP_K
            ==> top_k_of(params, default) == Ok::<int, Seq<char>>(n as int),
        params.member("top_k"@) == Some(JsonView::Unsigned(n)) && !(1 <= n <= MAX_TOP_K)
            ==> top_k_of(params, default) is Err,
        params.member("top_k"@) is Some && !(params.member("top_k"@)->0 is Unsigned) ==> top_k_of(
            params,
            default,
        ) is Err,
{
}

/// A synthesis looks at twice as many results as were asked for, up to 20; any
/// other query at just as many.
pub proof fn law_syntheses_look_further(base: int, class: Seq<char>)
    requires
        1 <= base,
    ensures
        class != "D"@ ==> routed_top_k(base, class) == base,
        class == "D"@ ==> ({
            let n = routed_top_k(base, class);
            n <= 20 && n <= 2 * base && (n == 20 || n == 2 * base)
        }),
{
}

impl RoutingOutcome {
    /// The name of the outcome in requests.
    pub open spec fn text(self) -> Seq<char> {
        match self {
            RoutingOutcome::Good => "good"@,
            RoutingOutcome::Bad => "bad"@,
            RoutingOutcome::Neutral => "neutral"@,
        }
    }
}

/// Every outcome is read by its name, and nothing else is read as one.
pub proof fn law_outcomes_are_read_by_name(outcome: RoutingOutcome, name: Seq<char>)
    ensures
        outcome_named(outcome.text()) == Some(outcome),
        outcome_named(name) matches Some(read) ==> read.text() == name,
{
    reveal_strlit("good");
    reveal_strlit("bad");
    reveal_strlit("neutral");
    assert("good"@.len() == 4 && "bad"@.len() == 3 && "neutral"@.len() == 7);
}

/// A search fetches what it shows, and where it reranks twice as many, up to the
/// most that are rated. It has a query and shows at least one result.
pub proof fn law_searches_fetch_enough(params: JsonView, r: Result<SearchRequest, Reply>)
    requires
        search_read(params, r),
        r is Ok,
    ensures
        ({
            let request = r->Ok_0;
            &&& params.text_member("query"@) == Some(request.query@)
            &&& request.query@.len() > 0
            &&& 1 <= request.top_k <= MAX_TOP_K
            &&& params.member("rerank"@) != Some(JsonView::Bool(true)) ==> request.fetch_k
                == request.top_k
            &&& params.member("rerank"@) == Some(JsonView::Bool(true)) ==> request.fetch_k
                <= MAX_RERANK_RESULTS && request.fetch_k <= 2 * request.top_k && (request.fetch_k
                == MAX_RERANK_RESULTS || request.fetch_k == 2 * request.top_k)
        }),
{
    reveal_strlit("");
}

/// A rerank is taken where it has a query and no more results than are rated,
/// none of which is too long, and refused otherwise.
pub proof fn law_reranks_are_limited(params: JsonView, r: Result<RerankRequest, Reply>)
    requires
        rerank_read(params, r),
    ensures
        r is Ok <==> {
            &&& params.text_member("query"@) matches Some(query) && query.len() > 0
            &&& params.member("results"@) matches Some(JsonView::Array(results)) && results.len()
                <= MAX_RERANK_RESULTS && forall|i: int|
                0 <= i < results.len() ==> content_bytes(#[trigger] results[i])
                    <= MAX_RERANK_CONTENT_BYTES
        },
        r matches Err(reply) ==> reply@.status == HttpStatus::BadRequest,
{
    reveal_strlit("");
}

/// A reported outcome is taken under its name in any letter case, and refused
/// where it has no query or no known name.
pub proof fn law_outcomes_are_taken_by_name(
    params: JsonView,
    r: Result<OutcomeRequest, Reply>,
    outcome: RoutingOutcome,
)
    requires
        outcome_read(params, r),
    ensures
        (r is Ok && r->Ok_0.outcome == outcome) <==> (params.text_member("query"@) is Some
            && params.text_member("query"@)->0.len() > 0 && unicode_lowered(
            match params.text_member("outcome"@) {
                Some(name) => name,
                None => "neutral"@,
            },
        ) == outcome.text()),
{
    reveal_strlit("");
    law_outcomes_are_read_by_name(outcome, unicode_lowered(label_of(params)));
}

/// A second-order search starts from the results that it names, and from a
/// search for its query where it names none.
pub proof fn law_second_order_searches_start_where_asked(
    params: JsonView,
    r: Result<DiscordRequest, Reply>,
    ids: Seq<Seq<char>>,
)
    requires
        discord_read(params, r),
        params.member("top_k"@) is None,
    ensures
        params.member("direct_ids"@) == Some(
            JsonView::Array(Seq::new(ids.len(), |i: int| JsonView::Text(ids[i]))),
        ) && ids.len() <= MAX_DIRECT_IDS ==> (r matches Ok(DiscordRequest::Around(start)) && texts(
            start@,
        ) == ids),
        params.member("direct_ids"@) == Some(
            JsonView::Array(Seq::new(ids.len(), |i: int| JsonView::Text(ids[i]))),
        ) && ids.len() > MAX_DIRECT_IDS ==> r is Err,
        params.member("direct_ids"@) is None && params.text_member("query"@) is None ==> r is Err,
        params.member("direct_ids"@) is None && (params.text_member("query"@) matches Some(asked)
            && asked.len() > 0) ==> (r matches Ok(DiscordRequest::AroundSearch { query, top_k })
            && Some(query@) == params.text_member("query"@) && top_k == 5),
{
    reveal_strlit("");
    let list = Seq::new(ids.len(), |i: int| JsonView::Text(ids[i]));
    assert(JsonView::Array(list).text_list() is Some);
    assert(JsonView::Array(list).text_list()->0 =~= ids);
}

/// A request gives a list of pairs under a name, each as an array of its two
/// texts.
pub open spec fn gives_pairs(
    params: JsonView,
    key: Seq<char>,
    pairs: Seq<(Seq<char>, Seq<char>)>,
) -> bool {
    params.member(key) matches Some(JsonView::Array(items)) && items.len() == pairs.len()
        && forall|i: int|
        0 <= i < items.len() ==> #[trigger] items[i] == JsonView::Array(
            seq![JsonView::Text(pairs[i].0), JsonView::Text(pairs[i].1)],
        )
}

/// A routed search is exact for a query of class C alone, takes the
/// contradictions that it is given, pair by pair, and groups where it is asked
/// to.
pub proof fn law_routed_searches_are_read_as_asked(
    params: JsonView,
    r: Result<RoutedRequest, Reply>,
    pairs: Seq<(Seq<char>, Seq<char>)>,
)
    requires
        routed_read(params, r),
        r is Ok,
    ensures
        ({
            let request = r->Ok_0;
            &&& params.text_member("query"@) == Some(request.query@)
            &&& request.exact <==> params.text_member("query_class"@) == Some("C"@)
            &&& request.group_by_community <==> params.member("group_by_community"@) == Some(
                JsonView::Bool(true),
            )
            &&& params.member("contradictions"@) is None ==> request.contradictions@.len() == 0
            &&& gives_pairs(params, "contradictions"@, pairs) ==> pair_texts(
                request.contradictions@,
            ) == pairs
        }),
{
    reveal_strlit("");
    reveal_strlit("A");
    reveal_strlit("C");
    assert("A"@[0] == 'A' && "C"@[0] == 'C');
    assert(pair_texts(r->Ok_0.contradictions@).len() == r->Ok_0.contradictions@.len());
    if gives_pairs(params, "contradictions"@, pairs) {
        let list = params.member("contradictions"@)->0->Array_0;
        assert forall|i: int| 0 <= i < list.len() implies (#[trigger] list[i]).is_text_pair()
            && list[i].text_list()->0 == seq![pairs[i].0, pairs[i].1] by {
            let items = list[i]->Array_0;
            assert(items.len() == 2);
            assert(items[0] is Text && items[1] is Text);
            assert(list[i].text_list()->0 =~= seq![pairs[i].0, pairs[i].1]);
        }
        assert(JsonView::Array(list).text_pairs() is Some);
        assert(JsonView::Array(list).text_pairs()->0 =~= pairs);
    }
}

/// A reconciliation changes something only where its action is named, letter
/// for letter.
pub proof fn law_reconciliation_reports_unless_named(label: Seq<char>)
    ensures
        reconcile_action(label) == ReconcileAction::RebuildFts <==> label == "RebuildFts"@,
        reconcile_action(label) == ReconcileAction::ReEmbed <==> label == "ReEmbed"@,
        reconcile_action(label) == ReconcileAction::ReportOnly <==> label != "RebuildFts"@ && label
            != "ReEmbed"@,
{
    reveal_strlit("RebuildFts");
    reveal_strlit("ReEmbed");
    assert("RebuildFts"@.len() == 10 && "ReEmbed"@.len() == 7);
}

/// A refusal is no success, and says why.
pub proof fn law_refusals_say_why(status: HttpStatus, message: Seq<char>)
    ensures
        failure_view(status, message).status == status,
        failure_view(status, message).body.member("ok"@) == Some(JsonView::Bool(false)),
        failure_view(status, message).body.member("error"@) == Some(JsonView::Text(message)),
{
    reveal_strlit("ok");
    reveal_strlit("error");
    assert("ok"@.len() == 2 && "error"@.len() == 5);
    broadcast use crate::json::lemma_put_member, crate::json::lemma_no_member;

}

/// A rerank that is taken rates the given results for the given query.
pub proof fn law_reranks_rate_what_is_given(params: JsonView, r: Result<RerankRequest, Reply>)
    requires
        rerank_read(params, r),
        r is Ok,
    ensures
        params.text_member("query"@) == Some(r->Ok_0.query@),
        params.member("results"@) == Some(JsonView::Array(json_views(r->Ok_0.results@))),
{
    reveal_strlit("");
}

/// A stage is told to have contributed just where it ranked some hit.
pub proof fn law_stages_are_told_by_their_ranks(
    hits: Seq<SearchHit>,
    discord: bool,
    decoder: bool,
    class: Seq<char>,
    i: int,
)
    ensures
        ({
            let stages = routed_provenance(hits, discord, decoder, class).member(
                "stages_fired"@,
            )->0;
            &&& 0 <= i < hits.len() && hits[i].bm25_rank is Some ==> stages.true_member("bm25"@)
            &&& 0 <= i < hits.len() && hits[i].vector_rank is Some ==> stages.true_member("vector"@)
            &&& (forall|j: int| 0 <= j < hits.len() ==> (#[trigger] hits[j]).bm25_rank is None)
                ==> !stages.true_member("bm25"@)
            &&& (forall|j: int| 0 <= j < hits.len() ==> (#[trigger] hits[j]).vector_rank is None)
                ==> !stages.true_member("vector"@)
            &&& stages.true_member("discord"@) <==> discord
            &&& stages.true_member("decoder"@) <==> decoder
        }),
{
    reveal_strlit("stages_fired");
    reveal_strlit("result_count");
    reveal_strlit("view");
    reveal_strlit("query_class");
    reveal_strlit("widening_occurred");
    reveal_strlit("widening_reason");
    reveal_strlit("verification_status");
    reveal_strlit("proof_reference");
    reveal_strlit("bm25");
    reveal_strlit("vector");
    reveal_strlit("late_interaction");
    reveal_strlit("discord");
    reveal_strlit("decoder");
    assert("stages_fired"@.len() == 12 && "result_count"@.len() == 12 && "view"@.len() == 4);
    assert("query_class"@.len() == 11 && "widening_occurred"@.len() == 17);
    assert("widening_reason"@.len() == 15 && "verification_status"@.len() == 19);
    assert("proof_reference"@.len() == 15 && "bm25"@.len() == 4 && "vector"@.len() == 6);
    assert("late_interaction"@.len() == 16 && "discord"@.len() == 7 && "decoder"@.len() == 7);
    assert("stages_fired"@[0] == 's' && "result_count"@[0] == 'r' && "view"@[0] == 'v');
    assert("bm25"@[0] == 'b' && "widening_reason"@[0] == 'w' && "proof_reference"@[0] == 'p');
    assert("discord"@[1] == 'i' && "decoder"@[1] == 'e');
    broadcast use crate::json::lemma_put_member, crate::json::lemma_no_member;

}

/// Statistics are complete where both the store and the graph were read; what
/// could not be read is told as missing.
pub proof fn law_statistics_are_complete_where_all_was_read(
    stats: Result<StoreStats, String>,
    edges: Result<usize, String>,
)
    ensures
        ({
            let reply = stats_view(stats, edges);
            &&& reply.status == HttpStatus::Success <==> stats is Ok && edges is Ok
            &&& reply.body.true_member("ok"@) <==> stats is Ok && edges is Ok
            &&& stats matches Ok(read) ==> reply.body.member("facts"@) == Some(
                JsonView::Unsigned(read.facts),
            ) && reply.body.member("documents"@) == Some(JsonView::Unsigned(read.documents))
                && reply.body.member("chunks"@) == Some(JsonView::Unsigned(read.chunks))
            &&& stats is Err ==> reply.body.member("facts"@) == Some(JsonView::Null)
                && reply.body.member("documents"@) == Some(JsonView::Null) && reply.body.member(
                "chunks"@,
            ) == Some(JsonView::Null)
            &&& edges matches Ok(count) ==> reply.body.member("graph_edges"@) == Some(
                JsonView::Unsigned(count as u64),
            )
            &&& edges is Err ==> reply.body.member("graph_edges"@) == Some(JsonView::Null)
        }),
{
    reveal_strlit("ok");
    reveal_strlit("components");
    reveal_strlit("facts");
    reveal_strlit("documents");
    reveal_strlit("chunks");
    reveal_strlit("graph_edges");
    reveal_strlit("db_size_mb");
    assert("ok"@.len() == 2 && "components"@.len() == 10 && "facts"@.len() == 5);
    assert("documents"@.len() == 9 && "chunks"@.len() == 6 && "graph_edges"@.len() == 11);
    assert("db_size_mb"@.len() == 10 && "components"@[0] == 'c' && "db_size_mb"@[0] == 'd');
    broadcast use crate::json::lemma_put_member, crate::json::lemma_no_member;

}

/// A hit is shown under the namespace of its fact or the title of its document.
pub proof fn law_hits_are_shown_under_their_namespace(source: HitSource)
    ensures
        source matches HitSource::Fact { fact_id, namespace } ==> shown_namespace(source)
            == namespace@,
        source matches HitSource::Chunk { document_title } ==> shown_namespace(source)
            == document_title@,
{
}

/// A check passes only where the store is sound and no embedding is stale; a
/// sound store with stale embeddings has a message of its own.
pub proof fn law_checks_pass_where_nothing_is_wrong(ok: bool, dirty: bool, issues: nat)
    ensures
        ok && !dirty ==> check_message(ok, dirty, issues) == "All checks passed"@,
        ok && dirty ==> check_message(ok, dirty, issues)
            == "Integrity OK but embeddings need re-embedding"@ && check_message(ok, dirty, issues)
            != "All checks passed"@,
        !ok ==> check_message(ok, dirty, issues) == decimal(issues) + " integrity issues found"@,
{
    reveal_strlit("All checks passed");
    reveal_strlit("Integrity OK but embeddings need re-embedding");
    assert("All checks passed"@[0] == 'A');
    assert("Integrity OK but embeddings need re-embedding"@[0] == 'I');
}

/// What is measured of a result is its content, in bytes.
pub proof fn law_contents_are_measured(result: JsonView, content: Seq<char>)
    ensures
        result.member("content"@) == Some(JsonView::Text(content)) ==> content_bytes(result)
            == crate::http::byte_length(content),
        result.member("content"@) is None ==> content_bytes(result) == 0,
{
}

/// A routed search keeps the class that the client gives its query; a query that
/// is given none has class A.
pub proof fn law_queries_keep_their_class(
    params: JsonView,
    r: Result<RoutedRequest, Reply>,
    class: Seq<char>,
)
    requires
        routed_read(params, r),
        r is Ok,
    ensures
        params.member("query_class"@) == Some(JsonView::Text(class)) ==> r->Ok_0.query_class@
            == class && r->Ok_0.top_k == routed_top_k(r->Ok_0.base_top_k as int, class),
        params.member("query_class"@) is None ==> r->Ok_0.query_class@ == "A"@,
{
}

}
