//! Witnessed retrieval: searches that leave a durable receipt and hand back
//! only facts whose provenance is complete.
use crate::json::{
    compact_text,
    fields,
    json_views,
    optional_count_json,
    optional_text_json,
    stored,
    texts_json,
    write_document,
    Fields,
    FieldsView,
    Json,
    JsonView,
};
use crate::search::{HitSource, SearchHit};
use crate::text::{
    blank,
    cat2,
    cat4,
    cat5,
    decimal,
    decimal_text,
    is_blank,
    optional_text,
    optional_texts,
    same_text,
};
use crate::tools::{ReplayModeParam, RetrievalModeParam, SearchWitnessedParams};
use vstd::prelude::*;

verus! {

/// The digest that `blake3::hash` gives of a text, in hexadecimal notation.
pub uninterp spec fn blake3_hex(text: Seq<char>) -> Seq<char>;

/// `blake3::hash` of the bytes of a text, in hexadecimal notation.
#[verifier::external_body]
fn hash_text(text: &str) -> (s: String)
    ensures
        s@ == blake3_hex(text@),
{
    blake3::hash(text.as_bytes()).to_hex().to_string()
}

/// The digest of a text, as receipts and replies give it.
pub open spec fn digest_of_text(text: Seq<char>) -> Seq<char> {
    "blake3:"@ + blake3_hex(text)
}

/// The digest of a document: that of its text with ordered keys.
pub open spec fn digest_of_document(document: JsonView) -> Seq<char> {
    digest_of_text(compact_text(stored(document)))
}

/// The digest of a text.
pub fn text_digest(text: &str) -> (s: String)
    ensures
        s@ == digest_of_text(text@),
{
    cat2("blake3:", &hash_text(text))
}

/// The digest of a document.
pub fn document_digest(document: &Json) -> (s: String)
    ensures
        s@ == digest_of_document(document@),
{
    text_digest(&write_document(document))
}

/// `chrono::Utc::now`, in microseconds since 1970. Nothing is said of the time.
#[verifier::external_body]
fn now_micros() -> i64 {
    chrono::Utc::now().timestamp_micros()
}

/// The notation of a signed number.
pub open spec fn signed_decimal(n: int) -> Seq<char> {
    if n < 0 {
        "-"@ + decimal((-n) as nat)
    } else {
        decimal(n as nat)
    }
}

/// The notation of a signed number.
fn signed_text(n: i64) -> (s: String)
    ensures
        s@ == signed_decimal(n as int),
{
    if n < 0 {
        let size: i128 = -(n as i128);
        cat2("-", &decimal_text(size as u64))
    } else {
        decimal_text(n as u64)
    }
}

/// The identifier of a request that came without one, from the time and the
/// number of such requests before it.
pub open spec fn witness_id(micros: int, sequence: nat) -> Seq<char> {
    "mcp-witness-"@ + signed_decimal(micros) + "-"@ + decimal(sequence)
}

/// The identifier of a request that came without one.
pub fn witness_request_id(micros: i64, sequence: u64) -> (id: String)
    ensures
        id@ == witness_id(micros as int, sequence as nat),
{
    cat4("mcp-witness-", &signed_text(micros), "-", &decimal_text(sequence))
}

impl RetrievalModeParam {
    /// The name of the mode in digests and replies.
    pub open spec fn text(self) -> Seq<char> {
        match self {
            RetrievalModeParam::Hybrid => "hybrid"@,
            RetrievalModeParam::FtsOnly => "fts_only"@,
            RetrievalModeParam::VectorOnly => "vector_only"@,
        }
    }

    /// The name of the mode in digests and replies.
    pub fn name(self) -> (s: &'static str)
        ensures
            s@ == self.text(),
    {
        match self {
            RetrievalModeParam::Hybrid => "hybrid",
            RetrievalModeParam::FtsOnly => "fts_only",
            RetrievalModeParam::VectorOnly => "vector_only",
        }
    }
}

/// A witnessed search that is to be run.
pub struct WitnessPlan {
    pub request_id: String,
    pub top_k: u64,
    pub mode: RetrievalModeParam,
    pub replay: ReplayModeParam,
    pub query_digest: String,
    pub input_digest: String,
    pub filter_digest: String,
    pub config_digest: String,
}

/// The filters of a search as a document.
pub open spec fn filters_json(namespaces: Option<Seq<Seq<char>>>) -> JsonView {
    fields().put(
        "namespaces"@,
        match namespaces {
            Some(namespaces) => texts_json(namespaces),
            None => JsonView::Null,
        },
    ).object()
}

/// The inputs of a search as a document.
pub open spec fn input_json(
    query: Seq<char>,
    top_k: u64,
    namespaces: Option<Seq<Seq<char>>>,
) -> JsonView {
    fields().put("query"@, JsonView::Text(query)).put("top_k"@, JsonView::Unsigned(top_k)).put(
        "filters"@,
        filters_json(namespaces),
    ).object()
}

/// The configuration of a search as a text.
pub open spec fn config_text(mode: RetrievalModeParam, top_k: u64) -> Seq<char> {
    "retrieval_mode="@ + mode.text() + ";top_k="@ + decimal(top_k as nat)
        + ";state=current;cache=bypass;exactness=prefer_exact"@
}

/// The filters of a search as a document.
fn filters_document(namespaces: &Option<Vec<String>>) -> (document: Json)
    ensures
        document@ == filters_json(optional_texts(*namespaces)),
{
    let list = match namespaces {
        Some(namespaces) => Json::from_texts(namespaces),
        None => Json::Null,
    };
    Fields::new().with("namespaces", list).object()
}

/// Plans a witnessed search. A request without an identifier gets one from the
/// given time and number; five results, all stages and no stored inputs are the
/// defaults.
pub fn plan_witnessed_at(params: &SearchWitnessedParams, micros: i64, sequence: u64) -> (plan:
    WitnessPlan)
    ensures
        plan.request_id@ == (match optional_text(params.request_id) {
            Some(id) => id,
            None => witness_id(micros as int, sequence as nat),
        }),
        plan.top_k == (match params.top_k {
            Some(k) => k as u64,
            None => 5,
        }),
        plan.mode == (match params.retrieval_mode {
            Some(mode) => mode,
            None => RetrievalModeParam::Hybrid,
        }),
        plan.replay == (match params.replay_mode {
            Some(replay) => replay,
            None => ReplayModeParam::NoReplay,
        }),
        plan.query_digest@ == digest_of_text(params.query@),
        plan.input_digest@ == digest_of_document(
            input_json(params.query@, plan.top_k, optional_texts(params.namespaces)),
        ),
        plan.filter_digest@ == digest_of_document(filters_json(optional_texts(params.namespaces))),
        plan.config_digest@ == digest_of_text(config_text(plan.mode, plan.top_k)),
{
    let request_id = match &params.request_id {
        Some(id) => id.clone(),
        None => witness_request_id(micros, sequence),
    };
    let top_k: u64 = match params.top_k {
        Some(k) => k as u64,
        None => 5,
    };
    let mode = match params.retrieval_mode {
        Some(mode) => mode,
        None => RetrievalModeParam::Hybrid,
    };
    let replay = match params.replay_mode {
        Some(replay) => replay,
        None => ReplayModeParam::NoReplay,
    };
    let filters = filters_document(&params.namespaces);
    let filter_digest = document_digest(&filters);
    let input = Fields::new().with_text("query", &params.query).with(
        "top_k",
        Json::Unsigned(top_k),
    ).with("filters", filters).object();
    let config = cat5(
        "retrieval_mode=",
        mode.name(),
        ";top_k=",
        &decimal_text(top_k),
        ";state=current;cache=bypass;exactness=prefer_exact",
    );
    WitnessPlan {
        request_id,
        top_k,
        mode,
        replay,
        query_digest: text_digest(&params.query),
        input_digest: document_digest(&input),
        filter_digest,
        config_digest: text_digest(&config),
    }
}

/// Plans a witnessed search now. `sequence` is the number of requests before it
/// that came without an identifier.
pub fn plan_witnessed(params: &SearchWitnessedParams, sequence: u64) -> (plan: WitnessPlan)
    ensures
        params.request_id is Some ==> plan.request_id@ == params.request_id->0@,
        params.request_id is None ==> exists|micros: int|
            plan.request_id@ == #[trigger] witness_id(micros, sequence as nat),
        plan.top_k == (match params.top_k {
            Some(k) => k as u64,
            None => 5,
        }),
        plan.mode == (match params.retrieval_mode {
            Some(mode) => mode,
            None => RetrievalModeParam::Hybrid,
        }),
        plan.replay == (match params.replay_mode {
            Some(replay) => replay,
            None => ReplayModeParam::NoReplay,
        }),
        plan.query_digest@ == digest_of_text(params.query@),
        plan.input_digest@ == digest_of_document(
            input_json(params.query@, plan.top_k, optional_texts(params.namespaces)),
        ),
        plan.filter_digest@ == digest_of_document(filters_json(optional_texts(params.namespaces))),
        plan.config_digest@ == digest_of_text(config_text(plan.mode, plan.top_k)),
{
    plan_witnessed_at(params, now_micros(), sequence)
}

/// A fact as the store keeps it.
pub struct FactRecord {
    pub id: String,
    pub content: String,
    pub namespace: String,
    pub source: Option<String>,
}

/// The result that a fact found by a witnessed search becomes.
pub open spec fn witnessed_json(
    hit: SearchHit,
    fact: FactRecord,
    source: Seq<char>,
    receipt_ref: Seq<char>,
) -> JsonView {
    fields().put("memory_id"@, JsonView::Text("fact:"@ + fact.id@)).put(
        "result_id"@,
        JsonView::Text(hit.result_id@),
    ).put("content"@, JsonView::Text(fact.content@)).put(
        "namespace"@,
        JsonView::Text(fact.namespace@),
    ).put("source"@, JsonView::Text(source)).put(
        "trust"@,
        JsonView::Text("persisted_unjudged"@),
    ).put("state"@, JsonView::Text("current"@)).put(
        "retrieval_receipt_ref"@,
        JsonView::Text(receipt_ref),
    ).put("score"@, hit.score@).put("bm25_rank"@, optional_count_json(hit.bm25_rank)).put(
        "vector_rank"@,
        optional_count_json(hit.vector_rank),
    ).put("cosine_similarity"@, hit.cosine_similarity@).object()
}

/// The result that a hit becomes, where it is a stored fact whose source is
/// known. `fact` is what the store keeps under the hit's identifier.
pub open spec fn injectible(
    hit: SearchHit,
    fact: Option<FactRecord>,
    receipt_ref: Seq<char>,
) -> Option<JsonView> {
    match (hit.source, fact) {
        (HitSource::Fact { .. }, Some(fact)) => match optional_text(fact.source) {
            Some(source) => if blank(source) {
                None
            } else {
                Some(witnessed_json(hit, fact, source, receipt_ref))
            },
            None => None,
        },
        _ => None,
    }
}

/// The result that a hit becomes, where it is a stored fact whose source is
/// known: a hit of another family has no complete provenance and is left out.
pub fn witnessed_injectible_fact(hit: &SearchHit, fact: &Option<FactRecord>, receipt_ref: &str) -> (r:
    Option<Json>)
    ensures
        (match r {
            Some(result) => injectible(*hit, *fact, receipt_ref@) == Some(result@),
            None => injectible(*hit, *fact, receipt_ref@) is None,
        }),
{
    match (&hit.source, fact) {
        (HitSource::Fact { .. }, Some(fact)) => match &fact.source {
            Some(source) => if is_blank(source) {
                None
            } else {
                Some(
                    Fields::new().with_text("memory_id", &cat2("fact:", &fact.id)).with_text(
                        "result_id",
                        &hit.result_id,
                    ).with_text("content", &fact.content).with_text(
                        "namespace",
                        &fact.namespace,
                    ).with_text("source", source).with_text("trust", "persisted_unjudged").with_text(
                        "state",
                        "current",
                    ).with_text("retrieval_receipt_ref", receipt_ref).with(
                        "score",
                        hit.score.copy(),
                    ).with("bm25_rank", Json::from_optional_count(hit.bm25_rank)).with(
                        "vector_rank",
                        Json::from_optional_count(hit.vector_rank),
                    ).with("cosine_similarity", hit.cosine_similarity.copy()).object(),
                )
            },
            None => None,
        },
        _ => None,
    }
}

/// The results that hits become, in their order, without those that are left
/// out.
pub open spec fn all_injectible(
    hits: Seq<SearchHit>,
    facts: Seq<Option<FactRecord>>,
    receipt_ref: Seq<char>,
) -> Seq<JsonView>
    decreases hits.len(),
{
    if hits.len() == 0 {
        Seq::empty()
    } else {
        let before = all_injectible(hits.drop_last(), facts, receipt_ref);
        match injectible(hits.last(), facts[hits.len() - 1], receipt_ref) {
            Some(result) => before.push(result),
            None => before,
        }
    }
}

/// The results that hits become. `facts` gives for each hit what the store
/// keeps under its identifier.
pub fn witnessed_results(
    hits: &Vec<SearchHit>,
    facts: &Vec<Option<FactRecord>>,
    receipt_ref: &str,
) -> (results: Vec<Json>)
    requires
        facts@.len() == hits@.len(),
    ensures
        json_views(results@) == all_injectible(hits@, facts@, receipt_ref@),
{
    let mut results: Vec<Json> = Vec::new();
    let mut i: usize = 0;
    assert(hits@.subrange(0, 0) =~= Seq::empty());
    assert(json_views(results@) =~= Seq::empty());
    while i < hits.len()
        invariant
            i <= hits.len(),
            facts@.len() == hits@.len(),
            json_views(results@) == all_injectible(
                hits@.subrange(0, i as int),
                facts@,
                receipt_ref@,
            ),
        decreases hits.len() - i,
    {
        assert(hits@.subrange(0, i as int + 1).drop_last() =~= hits@.subrange(0, i as int));
        if let Some(result) = witnessed_injectible_fact(&hits[i], &facts[i], receipt_ref) {
            let ghost before = results@;
            results.push(result);
            assert(json_views(results@) =~= json_views(before).push(result@));
        }
        i += 1;
    }
    assert(hits@.subrange(0, hits@.len() as int) =~= hits@);
    results
}

/// Every result of a witnessed search names its memory, a source that is not
/// blank, and the receipt.
pub proof fn law_witnessed_results_have_provenance(
    hit: SearchHit,
    fact: Option<FactRecord>,
    receipt_ref: Seq<char>,
)
    requires
        injectible(hit, fact, receipt_ref) is Some,
    ensures
        ({
            let result = injectible(hit, fact, receipt_ref)->0;
            &&& result.text_member("source"@) matches Some(source) && !blank(source)
            &&& result.text_member("memory_id"@) == Some("fact:"@ + fact->0.id@)
            &&& result.text_member("retrieval_receipt_ref"@) == Some(receipt_ref)
        }),
{
    let result = injectible(hit, fact, receipt_ref)->0;
    let list = result->Object_0;
    reveal_strlit("memory_id");
    reveal_strlit("result_id");
    reveal_strlit("content");
    reveal_strlit("namespace");
    reveal_strlit("source");
    reveal_strlit("trust");
    reveal_strlit("state");
    reveal_strlit("retrieval_receipt_ref");
    assert("memory_id"@[0] == 'm');
    assert("result_id"@[0] == 'r');
    assert("result_id"@.len() == 9);
    assert("content"@[0] == 'c');
    assert("namespace"@[0] == 'n');
    assert("source"@.len() == 6 && "source"@[0] == 's');
    assert("trust"@[0] == 't');
    assert("state"@.len() == 5);
    assert("retrieval_receipt_ref"@.len() == 21);
    crate::json::lemma_field_index(list, "memory_id"@, 0);
    crate::json::lemma_field_index(list, "source"@, 4);
    crate::json::lemma_field_index(list, "retrieval_receipt_ref"@, 7);
}

/// A hit is a stored fact with a source that is not blank. `fact` is what the
/// store keeps under the hit's identifier.
pub open spec fn is_sourced_fact(hit: SearchHit, fact: Option<FactRecord>) -> bool {
    hit.source is Fact && fact is Some && fact->0.source is Some && exists|i: int|
        0 <= i < fact->0.source->0@.len() && !crate::text::white_space(
            #[trigger] fact->0.source->0@[i],
        )
}

/// The offsets of the sourced facts among hits, in their order.
pub open spec fn sourced_facts(hits: Seq<SearchHit>, facts: Seq<Option<FactRecord>>) -> Seq<int>
    decreases hits.len(),
{
    if hits.len() == 0 {
        Seq::empty()
    } else if is_sourced_fact(hits.last(), facts[hits.len() - 1]) {
        sourced_facts(hits.drop_last(), facts).push(hits.len() - 1)
    } else {
        sourced_facts(hits.drop_last(), facts)
    }
}

/// The offsets of the sourced facts are those of all of them, ascending.
proof fn lemma_sourced_facts(hits: Seq<SearchHit>, facts: Seq<Option<FactRecord>>)
    ensures
        ({
            let found = sourced_facts(hits, facts);
            &&& forall|n: int|
                0 <= n < found.len() ==> 0 <= #[trigger] found[n] < hits.len() && is_sourced_fact(
                    hits[found[n]],
                    facts[found[n]],
                )
            &&& forall|n: int, m: int|
                0 <= n < m < found.len() ==> #[trigger] found[n] < #[trigger] found[m]
            &&& forall|i: int|
                0 <= i < hits.len() && is_sourced_fact(#[trigger] hits[i], facts[i])
                    ==> found.contains(i)
        }),
    decreases hits.len(),
{
    if hits.len() > 0 {
        let fewer = hits.drop_last();
        let last = hits.len() - 1;
        let found = sourced_facts(hits, facts);
        let before = sourced_facts(fewer, facts);
        lemma_sourced_facts(fewer, facts);
        assert forall|n: int| 0 <= n < found.len() implies 0 <= #[trigger] found[n] < hits.len()
            && is_sourced_fact(hits[found[n]], facts[found[n]]) by {
            if n < before.len() {
                assert(before[n] == found[n]);
                assert(fewer[before[n]] == hits[before[n]]);
            }
        }
        assert forall|n: int, m: int| 0 <= n < m < found.len() implies #[trigger] found[n]
            < #[trigger] found[m] by {
            assert(before[n] == found[n]);
            if m < before.len() {
                assert(before[m] == found[m]);
            }
        }
        assert forall|i: int|
            0 <= i < hits.len() && is_sourced_fact(#[trigger] hits[i], facts[i]) implies found.contains(
            i,
        ) by {
            if i < last {
                assert(fewer[i] == hits[i]);
                let n = choose|n: int| 0 <= n < before.len() && before[n] == i;
                assert(found[n] == i);
            } else {
                assert(found[before.len() as int] == i);
            }
        }
    }
}

/// A hit becomes a result just where it is a sourced fact.
proof fn lemma_injectible(hit: SearchHit, fact: Option<FactRecord>, receipt_ref: Seq<char>)
    ensures
        injectible(hit, fact, receipt_ref) is Some <==> is_sourced_fact(hit, fact),
{
}

/// The results are those of the sourced facts, one by one.
proof fn lemma_all_injectible(
    hits: Seq<SearchHit>,
    facts: Seq<Option<FactRecord>>,
    receipt_ref: Seq<char>,
)
    ensures
        ({
            let found = sourced_facts(hits, facts);
            let results = all_injectible(hits, facts, receipt_ref);
            &&& results.len() == found.len()
            &&& forall|n: int|
                0 <= n < found.len() ==> injectible(
                    hits[#[trigger] found[n]],
                    facts[found[n]],
                    receipt_ref,
                ) == Some(results[n])
        }),
    decreases hits.len(),
{
    if hits.len() > 0 {
        let fewer = hits.drop_last();
        let last = hits.len() - 1;
        let found = sourced_facts(hits, facts);
        let before = sourced_facts(fewer, facts);
        lemma_all_injectible(fewer, facts, receipt_ref);
        lemma_injectible(hits.last(), facts[last], receipt_ref);
        lemma_sourced_facts(fewer, facts);
        let results = all_injectible(hits, facts, receipt_ref);
        assert forall|n: int| 0 <= n < found.len() implies injectible(
            hits[#[trigger] found[n]],
            facts[found[n]],
            receipt_ref,
        ) == Some(results[n]) by {
            if n < before.len() {
                assert(before[n] == found[n]);
                assert(fewer[before[n]] == hits[before[n]]);
            }
        }
    }
}

/// A witnessed search hands back all that it found: each hit that is a stored
/// fact with a source that is not blank, and nothing else, in the order of the
/// hits. `offsets` lists those hits.
pub proof fn law_witnessed_results_are_complete(
    hits: Seq<SearchHit>,
    facts: Seq<Option<FactRecord>>,
    receipt_ref: Seq<char>,
) -> (offsets: Seq<int>)
    requires
        facts.len() == hits.len(),
    ensures
        all_injectible(hits, facts, receipt_ref).len() == offsets.len(),
        forall|n: int, m: int|
            0 <= n < m < offsets.len() ==> #[trigger] offsets[n] < #[trigger] offsets[m],
        forall|i: int|
            0 <= i < hits.len() ==> (offsets.contains(i) <==> is_sourced_fact(
                #[trigger] hits[i],
                facts[i],
            )),
        forall|n: int|
            0 <= n < offsets.len() ==> 0 <= #[trigger] offsets[n] < hits.len() && ({
                let (hit, fact) = (hits[offsets[n]], facts[offsets[n]]->0);
                let result = all_injectible(hits, facts, receipt_ref)[n];
                &&& result.text_member("result_id"@) == Some(hit.result_id@)
                &&& result.text_member("memory_id"@) == Some("fact:"@ + fact.id@)
                &&& result.text_member("content"@) == Some(fact.content@)
                &&& result.text_member("namespace"@) == Some(fact.namespace@)
                &&& result.text_member("source"@) == Some(fact.source->0@)
                &&& result.text_member("trust"@) == Some("persisted_unjudged"@)
                &&& result.text_member("state"@) == Some("current"@)
                &&& result.text_member("retrieval_receipt_ref"@) == Some(receipt_ref)
                &&& result.member("score"@) == Some(hit.score@)
            }),
{
    let offsets = sourced_facts(hits, facts);
    lemma_sourced_facts(hits, facts);
    lemma_all_injectible(hits, facts, receipt_ref);
    assert forall|n: int| 0 <= n < offsets.len() implies 0 <= #[trigger] offsets[n] < hits.len()
        && ({
        let (hit, fact) = (hits[offsets[n]], facts[offsets[n]]->0);
        let result = all_injectible(hits, facts, receipt_ref)[n];
        &&& result.text_member("result_id"@) == Some(hit.result_id@)
        &&& result.text_member("memory_id"@) == Some("fact:"@ + fact.id@)
        &&& result.text_member("content"@) == Some(fact.content@)
        &&& result.text_member("namespace"@) == Some(fact.namespace@)
        &&& result.text_member("source"@) == Some(fact.source->0@)
        &&& result.text_member("trust"@) == Some("persisted_unjudged"@)
        &&& result.text_member("state"@) == Some("current"@)
        &&& result.text_member("retrieval_receipt_ref"@) == Some(receipt_ref)
        &&& result.member("score"@) == Some(hit.score@)
    }) by {
        lemma_witnessed_members(
            hits[offsets[n]],
            facts[offsets[n]]->0,
            facts[offsets[n]]->0.source->0@,
            receipt_ref,
        );
    }
    offsets
}

/// The members of a result of a witnessed search.
proof fn lemma_witnessed_members(
    hit: SearchHit,
    fact: FactRecord,
    source: Seq<char>,
    receipt_ref: Seq<char>,
)
    ensures
        ({
            let result = witnessed_json(hit, fact, source, receipt_ref);
            &&& result.text_member("result_id"@) == Some(hit.result_id@)
            &&& result.text_member("memory_id"@) == Some("fact:"@ + fact.id@)
            &&& result.text_member("content"@) == Some(fact.content@)
            &&& result.text_member("namespace"@) == Some(fact.namespace@)
            &&& result.text_member("source"@) == Some(source)
            &&& result.text_member("trust"@) == Some("persisted_unjudged"@)
            &&& result.text_member("state"@) == Some("current"@)
            &&& result.text_member("retrieval_receipt_ref"@) == Some(receipt_ref)
            &&& result.member("score"@) == Some(hit.score@)
        }),
{
    broadcast use crate::json::lemma_put_member, crate::json::lemma_no_member;

    reveal_strlit("memory_id");
    reveal_strlit("result_id");
    reveal_strlit("content");
    reveal_strlit("namespace");
    reveal_strlit("source");
    reveal_strlit("trust");
    reveal_strlit("state");
    reveal_strlit("retrieval_receipt_ref");
    reveal_strlit("score");
    assert("memory_id"@[0] == 'm' && "result_id"@[0] == 'r' && "namespace"@[0] == 'n');
    assert("trust"@[0] == 't' && "state"@[1] == 't' && "score"@[1] == 'c');
    assert("trust"@[1] == 'r');
    assert("source"@.len() == 6 && "content"@.len() == 7 && "retrieval_receipt_ref"@.len() == 21);
}

/// What is believed of a result: the first entry for its memory, or nothing.
pub open spec fn belief_of(beliefs: Seq<(Seq<char>, u64)>, result: JsonView) -> u64 {
    belief_of_id(beliefs, result.text_member_or("memory_id"@, ""@))
}

/// What is believed of a memory: its first entry, or nothing.
pub open spec fn belief_of_id(beliefs: Seq<(Seq<char>, u64)>, id: Seq<char>) -> u64
    decreases beliefs.len(),
{
    if beliefs.len() == 0 {
        0
    } else if beliefs[0].0 == id {
        beliefs[0].1
    } else {
        belief_of_id(beliefs.subrange(1, beliefs.len() as int), id)
    }
}

/// Where a result with the given belief goes among ranked ones: before the
/// first that is believed less.
pub open spec fn place(
    ranked: Seq<JsonView>,
    beliefs: Seq<(Seq<char>, u64)>,
    belief: u64,
) -> int
    decreases ranked.len(),
{
    if ranked.len() == 0 || belief_of(beliefs, ranked[0]) < belief {
        0
    } else {
        1 + place(ranked.subrange(1, ranked.len() as int), beliefs, belief)
    }
}

/// The results from the most believed to the least; equally believed ones keep
/// their order.
pub open spec fn ranked_by_belief(results: Seq<JsonView>, beliefs: Seq<(Seq<char>, u64)>) -> Seq<
    JsonView,
>
    decreases results.len(),
{
    if results.len() == 0 {
        Seq::empty()
    } else {
        let before = ranked_by_belief(results.drop_last(), beliefs);
        before.insert(
            place(before, beliefs, belief_of(beliefs, results.last())),
            results.last(),
        )
    }
}

/// The place among ranked results is within them, and everything before it is
/// believed as much or more.
proof fn lemma_place(ranked: Seq<JsonView>, beliefs: Seq<(Seq<char>, u64)>, belief: u64)
    ensures
        0 <= place(ranked, beliefs, belief) <= ranked.len(),
        forall|i: int|
            0 <= i < place(ranked, beliefs, belief) ==> belief_of(beliefs, #[trigger] ranked[i])
                >= belief,
        place(ranked, beliefs, belief) < ranked.len() ==> belief_of(
            beliefs,
            ranked[place(ranked, beliefs, belief)],
        ) < belief,
    decreases ranked.len(),
{
    if ranked.len() > 0 && belief_of(beliefs, ranked[0]) >= belief {
        let rest = ranked.subrange(1, ranked.len() as int);
        lemma_place(rest, beliefs, belief);
        assert forall|i: int| 0 <= i < place(ranked, beliefs, belief) implies belief_of(
            beliefs,
            #[trigger] ranked[i],
        ) >= belief by {
            if i > 0 {
                assert(rest[i - 1] == ranked[i]);
            }
        }
    }
}

/// The place is the first offset with a smaller belief, where there is one.
proof fn lemma_place_is(
    ranked: Seq<JsonView>,
    beliefs: Seq<(Seq<char>, u64)>,
    belief: u64,
    k: int,
)
    requires
        0 <= k <= ranked.len(),
        forall|i: int| 0 <= i < k ==> belief_of(beliefs, #[trigger] ranked[i]) >= belief,
        k < ranked.len() ==> belief_of(beliefs, ranked[k]) < belief,
    ensures
        place(ranked, beliefs, belief) == k,
    decreases ranked.len(),
{
    if k > 0 {
        let rest = ranked.subrange(1, ranked.len() as int);
        assert forall|i: int| 0 <= i < k - 1 implies belief_of(beliefs, #[trigger] rest[i])
            >= belief by {
            assert(rest[i] == ranked[i + 1]);
        }
        assert(belief_of(beliefs, ranked[0]) >= belief);
        lemma_place_is(rest, beliefs, belief, k - 1);
    }
}

/// Ranking loses and adds no result.
pub proof fn law_ranking_is_a_permutation(results: Seq<JsonView>, beliefs: Seq<(Seq<char>, u64)>)
    ensures
        ranked_by_belief(results, beliefs).to_multiset() == results.to_multiset(),
    decreases results.len(),
{
    if results.len() > 0 {
        let before = ranked_by_belief(results.drop_last(), beliefs);
        let last = results.last();
        let at = place(before, beliefs, belief_of(beliefs, last));
        law_ranking_is_a_permutation(results.drop_last(), beliefs);
        lemma_place(before, beliefs, belief_of(beliefs, last));
        before.to_multiset_ensures();
        assert(before.insert(at, last).to_multiset() =~= before.to_multiset().insert(last)) by {
            let (a, b) = (before.subrange(0, at), before.subrange(at, before.len() as int));
            assert(before.insert(at, last) =~= a.push(last) + b);
            assert(before =~= a + b);
            vstd::seq_lib::lemma_multiset_commutative(a.push(last), b);
            vstd::seq_lib::lemma_multiset_commutative(a, b);
            a.to_multiset_ensures();
        }
        assert(results =~= results.drop_last().push(last));
        results.drop_last().to_multiset_ensures();
        assert(results.to_multiset() =~= results.drop_last().to_multiset().insert(last));
    } else {
        assert(results =~= Seq::empty());
    }
}

/// Ranked results never rise in belief.
pub proof fn law_ranking_is_ordered(
    results: Seq<JsonView>,
    beliefs: Seq<(Seq<char>, u64)>,
    i: int,
    j: int,
)
    requires
        0 <= i <= j < ranked_by_belief(results, beliefs).len(),
    ensures
        belief_of(beliefs, ranked_by_belief(results, beliefs)[i]) >= belief_of(
            beliefs,
            ranked_by_belief(results, beliefs)[j],
        ),
    decreases results.len(),
{
    if results.len() > 0 {
        let before = ranked_by_belief(results.drop_last(), beliefs);
        let belief = belief_of(beliefs, results.last());
        let at = place(before, beliefs, belief);
        lemma_place(before, beliefs, belief);
        let to = |k: int| if k < at {
            k
        } else {
            k - 1
        };
        if i != at && j != at {
            law_ranking_is_ordered(results.drop_last(), beliefs, to(i), to(j));
        } else if i == at && j > at {
            law_ranking_is_ordered(results.drop_last(), beliefs, at, j - 1);
        } else if j == at && i < at {
            assert(belief_of(beliefs, before[i]) >= belief);
        }
    }
}

/// What is believed, memory by memory.
pub open spec fn belief_views(beliefs: Seq<(String, u64)>) -> Seq<(Seq<char>, u64)> {
    Seq::new(beliefs.len(), |i: int| (beliefs[i].0@, beliefs[i].1))
}

/// What is believed of a memory.
fn find_belief(beliefs: &Vec<(String, u64)>, id: &str) -> (belief: u64)
    ensures
        belief == belief_of_id(belief_views(beliefs@), id@),
{
    let ghost all = belief_views(beliefs@);
    let mut i: usize = 0;
    assert(all.subrange(0, all.len() as int) =~= all);
    while i < beliefs.len() && !same_text(&beliefs[i].0, id)
        invariant
            i <= beliefs.len(),
            all == belief_views(beliefs@),
            belief_of_id(all, id@) == belief_of_id(all.subrange(i as int, all.len() as int), id@),
        decreases beliefs.len() - i,
    {
        let ghost rest = all.subrange(i as int, all.len() as int);
        assert(rest.subrange(1, rest.len() as int) =~= all.subrange(
            i as int + 1,
            all.len() as int,
        ));
        i += 1;
    }
    if i < beliefs.len() {
        beliefs[i].1
    } else {
        0
    }
}

/// The results from the most believed to the least. The beliefs are numbers
/// that stand in the order of the probabilities they were made from.
pub fn rank_by_belief(results: Vec<Json>, beliefs: &Vec<(String, u64)>) -> (r: Vec<Json>)
    ensures
        json_views(r@) == ranked_by_belief(json_views(results@), belief_views(beliefs@)),
{
    let ghost all = json_views(results@);
    let ghost known = belief_views(beliefs@);
    let mut ranked: Vec<Json> = Vec::new();
    let mut i: usize = 0;
    assert(all.subrange(0, 0) =~= Seq::empty());
    assert(json_views(ranked@) =~= Seq::empty());
    while i < results.len()
        invariant
            i <= results.len(),
            all == json_views(results@),
            known == belief_views(beliefs@),
            json_views(ranked@) == ranked_by_belief(all.subrange(0, i as int), known),
        decreases results.len() - i,
    {
        assert(all.subrange(0, i as int + 1).drop_last() =~= all.subrange(0, i as int));
        let belief: u64 = find_belief(beliefs, &results[i].get_text_or("memory_id", ""));
        let ghost before = json_views(ranked@);
        let mut at: usize = 0;
        let mut found = false;
        while at < ranked.len() && !found
            invariant
                at <= ranked.len(),
                known == belief_views(beliefs@),
                before == json_views(ranked@),
                forall|k: int|
                    0 <= k < at ==> belief_of(known, #[trigger] before[k]) >= belief,
                found ==> at < ranked.len() && belief_of(known, before[at as int]) < belief,
            decreases ranked.len() - at, (if found { 0int } else { 1int }),
        {
            if find_belief(beliefs, &ranked[at].get_text_or("memory_id", "")) < belief {
                found = true;
            } else {
                assert(belief_of(known, before[at as int]) >= belief);
                at += 1;
            }
        }
        proof {
            lemma_place_is(before, known, belief, at as int);
        }
        let result = results[i].copy();
        let ghost added = result@;
        ranked.insert(at, result);
        assert(json_views(ranked@) =~= before.insert(at as int, added));
        i += 1;
    }
    assert(all.subrange(0, all.len() as int) =~= all);
    ranked
}

/// The receipt of a witnessed search, as far as the reply goes. What the store
/// alone reads is handed on as it is.
pub struct WitnessReceipt {
    pub receipt_id: String,
    pub evaluation_time: Json,
    pub candidate_backend: Json,
    pub artifact_generation_id: Json,
    pub degradations: Json,
    pub approximate: bool,
    pub exact_rerank: bool,
}

/// The state of the authority that a search ran in.
pub struct AuthorityState {
    pub snapshot_id: Json,
    pub retrieval_epoch: Json,
}

/// The model that embedded the memories.
pub struct ModelIdentity {
    pub model: Option<String>,
    pub dimensions: Option<u64>,
}

/// How exact the candidates of a search were.
pub open spec fn exactness(approximate: bool, exact_rerank: bool) -> Seq<char> {
    if approximate {
        "approximate_candidates"@
    } else if exact_rerank {
        "exact_f32_rerank"@
    } else {
        "backend_reported_non_approximate"@
    }
}

/// How exact the candidates of a search were.
pub fn exactness_name(approximate: bool, exact_rerank: bool) -> (s: &'static str)
    ensures
        s@ == exactness(approximate, exact_rerank),
{
    if approximate {
        "approximate_candidates"
    } else if exact_rerank {
        "exact_f32_rerank"
    } else {
        "backend_reported_non_approximate"
    }
}

/// What a search whose receipt is missing is answered.
pub fn missing_witness() -> (s: String)
    ensures
        s@ == "witness missing; operation contained"@,
{
    "witness missing; operation contained".to_owned()
}

/// A search whose receipt cannot be loaded again is contained.
pub fn check_durable(durable: bool) -> (r: Result<(), String>)
    ensures
        (match r {
            Ok(_) => durable,
            Err(message) => !durable && message@ == "receipt not durable; operation contained"@,
        }),
{
    if durable {
        Ok(())
    } else {
        Err("receipt not durable; operation contained".to_owned())
    }
}

/// The reference to a receipt.
pub fn receipt_reference(receipt_id: &str) -> (s: String)
    ensures
        s@ == "receipt:"@ + receipt_id@,
{
    cat2("receipt:", receipt_id)
}

/// The outcome of a stage.
pub open spec fn stage(outcome: Seq<char>, degradation: JsonView) -> FieldsView {
    fields().put("outcome"@, JsonView::Text(outcome)).put("degradation"@, degradation)
}

/// The outcome of a stage.
fn stage_fields(outcome: &str, degradation: Json) -> (f: Fields)
    ensures
        f@ == stage(outcome@, degradation@),
{
    Fields::new().with_text("outcome", outcome).with("degradation", degradation)
}

/// The outcomes of the stages of a witnessed search.
pub open spec fn stages_json(mode: RetrievalModeParam, replay_available: bool) -> JsonView {
    fields().put("authority_snapshot"@, stage("Applied"@, JsonView::Null).object()).put(
        "hybrid_retrieval"@,
        stage(
            if mode == RetrievalModeParam::Hybrid {
                "Applied"@
            } else {
                "Skipped"@
            },
            JsonView::Null,
        ).object(),
    ).put(
        "selected_retrieval"@,
        stage("Applied"@, JsonView::Null).put("mode"@, JsonView::Text(mode.text())).object(),
    ).put("receipt_persistence"@, stage("Applied"@, JsonView::Null).object()).put(
        "cache"@,
        stage("Skipped"@, JsonView::Text("witnessed retrieval bypasses cache"@)).object(),
    ).put(
        "replay"@,
        if replay_available {
            stage("Applied"@, JsonView::Null).object()
        } else {
            stage(
                "AnalysisOnly"@,
                JsonView::Text("complete replay inputs are not available"@),
            ).object()
        },
    ).object()
}

/// A result's identifier with the digest of the result.
pub open spec fn ordered_json(result: JsonView) -> JsonView {
    fields().put(
        "result_id"@,
        match result.member("result_id"@) {
            Some(id) => id,
            None => JsonView::Null,
        },
    ).put("result_digest"@, JsonView::Text(digest_of_document(result))).object()
}

/// The model as a document.
pub open spec fn model_json(model: Option<Seq<char>>, dimensions: Option<u64>) -> JsonView {
    fields().put("model"@, optional_text_json(model)).put(
        "dimensions"@,
        optional_count_json(dimensions),
    ).object()
}

/// The reply to a witnessed search.
pub open spec fn witnessed_reply(
    plan: WitnessPlan,
    receipt: WitnessReceipt,
    authority: AuthorityState,
    model: ModelIdentity,
    results: Seq<JsonView>,
    replay_available: bool,
) -> JsonView {
    fields().put("schema_version"@, JsonView::Text("retrieval_response_v1"@)).put(
        "ok"@,
        JsonView::Bool(true),
    ).put("request_id"@, JsonView::Text(plan.request_id@)).put(
        "receipt_id"@,
        JsonView::Text(receipt.receipt_id@),
    ).put("retrieval_mode"@, JsonView::Text(plan.mode.text())).put(
        "state_view"@,
        fields().put("kind"@, JsonView::Text("Current"@)).object(),
    ).put("current_snapshot_id"@, authority.snapshot_id@).put(
        "retrieval_epoch"@,
        authority.retrieval_epoch@,
    ).put("evaluation_time"@, receipt.evaluation_time@).put(
        "authority"@,
        fields().put("snapshot_id"@, authority.snapshot_id@).put(
            "retrieval_epoch"@,
            authority.retrieval_epoch@,
        ).put("status"@, JsonView::Text("Applied"@)).put("degradation"@, JsonView::Null).object(),
    ).put(
        "digests"@,
        fields().put("query_text"@, JsonView::Text(plan.query_digest@)).put(
            "input"@,
            JsonView::Text(plan.input_digest@),
        ).put("filter"@, JsonView::Text(plan.filter_digest@)).put(
            "config"@,
            JsonView::Text(plan.config_digest@),
        ).put(
            "model"@,
            JsonView::Text(digest_of_document(model_json(optional_text(model.model), model.dimensions))),
        ).object(),
    ).put(
        "execution"@,
        fields().put("cache"@, JsonView::Text("bypassed"@)).put(
            "candidate_backend"@,
            receipt.candidate_backend@,
        ).put(
            "exactness"@,
            JsonView::Text(exactness(receipt.approximate, receipt.exact_rerank)),
        ).put("artifact_generation_id"@, receipt.artifact_generation_id@).object(),
    ).put(
        "ordered_results"@,
        JsonView::Array(Seq::new(results.len(), |i: int| ordered_json(results[i]))),
    ).put("results"@, JsonView::Array(results)).put(
        "stage_outcomes"@,
        stages_json(plan.mode, replay_available),
    ).put("degradations"@, receipt.degradations@).put(
        "complete_replay_available"@,
        JsonView::Bool(replay_available),
    ).object()
}

/// The outcomes of the stages of a witnessed search.
fn stages_document(mode: RetrievalModeParam, replay_available: bool) -> (document: Json)
    ensures
        document@ == stages_json(mode, replay_available),
{
    let hybrid = if mode == RetrievalModeParam::Hybrid {
        "Applied"
    } else {
        "Skipped"
    };
    let replay = if replay_available {
        stage_fields("Applied", Json::Null).object()
    } else {
        stage_fields(
            "AnalysisOnly",
            Json::from_text("complete replay inputs are not available"),
        ).object()
    };
    Fields::new().with("authority_snapshot", stage_fields("Applied", Json::Null).object()).with(
        "hybrid_retrieval",
        stage_fields(hybrid, Json::Null).object(),
    ).with(
        "selected_retrieval",
        stage_fields("Applied", Json::Null).with_text("mode", mode.name()).object(),
    ).with("receipt_persistence", stage_fields("Applied", Json::Null).object()).with(
        "cache",
        stage_fields("Skipped", Json::from_text("witnessed retrieval bypasses cache")).object(),
    ).with("replay", replay).object()
}

/// The identifiers of the results with their digests, in their order.
fn ordered_results(results: &Vec<Json>) -> (document: Json)
    ensures
        document@ == JsonView::Array(
            Seq::new(results@.len(), |i: int| ordered_json(results@[i]@)),
        ),
{
    let mut ordered: Vec<Json> = Vec::new();
    let mut i: usize = 0;
    while i < results.len()
        invariant
            i <= results.len(),
            ordered@.len() == i,
            forall|j: int| 0 <= j < i ==> (#[trigger] ordered@[j])@ == ordered_json(results@[j]@),
        decreases results.len() - i,
    {
        let id = match results[i].get("result_id") {
            Some(id) => id.copy(),
            None => Json::Null,
        };
        ordered.push(
            Fields::new().with("result_id", id).with_text(
                "result_digest",
                &document_digest(&results[i]),
            ).object(),
        );
        i += 1;
    }
    let document = Json::from_list(ordered);
    assert(document@->Array_0 =~= Seq::new(
        results@.len(),
        |j: int| ordered_json(results@[j]@),
    ));
    document
}

/// The reply to a witnessed search.
pub fn finish_witnessed(
    plan: &WitnessPlan,
    receipt: &WitnessReceipt,
    authority: &AuthorityState,
    model: &ModelIdentity,
    results: Vec<Json>,
    replay_available: bool,
) -> (reply: Json)
    ensures
        reply@ == witnessed_reply(
            *plan,
            *receipt,
            *authority,
            *model,
            json_views(results@),
            replay_available,
        ),
{
    let model_document = Fields::new().with("model", Json::from_optional_text(&model.model)).with(
        "dimensions",
        Json::from_optional_count(model.dimensions),
    ).object();
    let digests = Fields::new().with_text("query_text", &plan.query_digest).with_text(
        "input",
        &plan.input_digest,
    ).with_text("filter", &plan.filter_digest).with_text("config", &plan.config_digest).with_text(
        "model",
        &document_digest(&model_document),
    ).object();
    let authority_document = Fields::new().with("snapshot_id", authority.snapshot_id.copy()).with(
        "retrieval_epoch",
        authority.retrieval_epoch.copy(),
    ).with_text("status", "Applied").with_null("degradation").object();
    let execution = Fields::new().with_text("cache", "bypassed").with(
        "candidate_backend",
        receipt.candidate_backend.copy(),
    ).with_text("exactness", exactness_name(receipt.approximate, receipt.exact_rerank)).with(
        "artifact_generation_id",
        receipt.artifact_generation_id.copy(),
    ).object();
    let ordered = ordered_results(&results);
    assert(ordered@->Array_0 =~= Seq::new(
        results@.len(),
        |i: int| ordered_json(json_views(results@)[i]),
    ));
    Fields::new().with_text("schema_version", "retrieval_response_v1").with_bool("ok", true).with_text(
        "request_id",
        &plan.request_id,
    ).with_text("receipt_id", &receipt.receipt_id).with_text("retrieval_mode", plan.mode.name()).with(
        "state_view",
        Fields::new().with_text("kind", "Current").object(),
    ).with("current_snapshot_id", authority.snapshot_id.copy()).with(
        "retrieval_epoch",
        authority.retrieval_epoch.copy(),
    ).with("evaluation_time", receipt.evaluation_time.copy()).with("authority", authority_document).with(
        "digests",
        digests,
    ).with("execution", execution).with("ordered_results", ordered).with(
        "results",
        Json::from_list(results),
    ).with("stage_outcomes", stages_document(plan.mode, replay_available)).with(
        "degradations",
        receipt.degradations.copy(),
    ).with_bool("complete_replay_available", replay_available).object()
}

/// Ranking puts the more believed result first, and results that are believed
/// alike keep their order. `order` gives for each ranked result the offset that
/// it had, each offset once.
pub proof fn law_ranking_is_stable(results: Seq<JsonView>, beliefs: Seq<(Seq<char>, u64)>) -> (order:
    Seq<int>)
    ensures
        order.len() == results.len(),
        ranked_by_belief(results, beliefs).len() == results.len(),
        forall|n: int|
            0 <= n < order.len() ==> 0 <= #[trigger] order[n] < results.len() && ranked_by_belief(
                results,
                beliefs,
            )[n] == results[order[n]],
        forall|n: int, m: int|
            0 <= n < m < order.len() ==> {
                let (a, b) = (#[trigger] order[n], #[trigger] order[m]);
                belief_of(beliefs, results[a]) > belief_of(beliefs, results[b]) || (belief_of(
                    beliefs,
                    results[a],
                ) == belief_of(beliefs, results[b]) && a < b)
            },
    decreases results.len(),
{
    if results.len() == 0 {
        Seq::empty()
    } else {
        let fewer = results.drop_last();
        let last = results.len() - 1;
        let before = ranked_by_belief(fewer, beliefs);
        let belief = belief_of(beliefs, results.last());
        let at = place(before, beliefs, belief);
        let less = law_ranking_is_stable(fewer, beliefs);
        lemma_place(before, beliefs, belief);
        let order = less.insert(at, last);
        let ranked = ranked_by_belief(results, beliefs);
        assert forall|n: int| 0 <= n < order.len() implies 0 <= #[trigger] order[n] < results.len()
            && ranked[n] == results[order[n]] by {
            if n < at {
                assert(order[n] == less[n]);
                assert(fewer[less[n]] == results[less[n]]);
            } else if n > at {
                assert(order[n] == less[n - 1]);
                assert(fewer[less[n - 1]] == results[less[n - 1]]);
            }
        }
        assert forall|n: int, m: int| 0 <= n < m < order.len() implies {
            let (a, b) = (#[trigger] order[n], #[trigger] order[m]);
            belief_of(beliefs, results[a]) > belief_of(beliefs, results[b]) || (belief_of(
                beliefs,
                results[a],
            ) == belief_of(beliefs, results[b]) && a < b)
        } by {
            let p = if n < at {
                n
            } else {
                n - 1
            };
            let q = if m < at {
                m
            } else {
                m - 1
            };
            if n != at && m != at {
                assert(order[n] == less[p] && order[m] == less[q]);
                assert(fewer[less[p]] == results[less[p]]);
                assert(fewer[less[q]] == results[less[q]]);
            } else if m == at {
                assert(order[n] == less[n]);
                assert(fewer[less[n]] == results[less[n]]);
                assert(belief_of(beliefs, before[n]) >= belief);
            } else {
                assert(order[m] == less[q]);
                assert(fewer[less[q]] == results[less[q]]);
                assert(fewer[less[at]] == results[less[at]]);
                assert(belief_of(beliefs, before[at]) < belief);
                if q > at {
                    assert(belief_of(beliefs, fewer[less[at]]) >= belief_of(
                        beliefs,
                        fewer[less[q]],
                    ));
                }
            }
        }
        order
    }
}

/// What is believed of a memory is what its first entry says, and nothing where
/// it has none.
pub proof fn law_first_beliefs_count(beliefs: Seq<(Seq<char>, u64)>, id: Seq<char>, k: int)
    requires
        0 <= k <= beliefs.len(),
        forall|i: int| 0 <= i < k ==> (#[trigger] beliefs[i]).0 != id,
        k < beliefs.len() ==> beliefs[k].0 == id,
    ensures
        belief_of_id(beliefs, id) == (if k < beliefs.len() {
            beliefs[k].1
        } else {
            0
        }),
    decreases beliefs.len(),
{
    if k > 0 {
        let rest = beliefs.subrange(1, beliefs.len() as int);
        assert forall|i: int| 0 <= i < k - 1 implies (#[trigger] rest[i]).0 != id by {
            assert(beliefs[i + 1].0 != id);
        }
        assert(beliefs[0].0 != id);
        law_first_beliefs_count(rest, id, k - 1);
    }
}

/// The reply to a witnessed search holds the results that it was given, in their
/// order, names the receipt and the request, and lists for every result its
/// identifier with the digest of that result.
pub proof fn law_witnessed_replies_hold_the_results(
    plan: WitnessPlan,
    receipt: WitnessReceipt,
    authority: AuthorityState,
    model: ModelIdentity,
    results: Seq<JsonView>,
    replay_available: bool,
)
    ensures
        ({
            let reply = witnessed_reply(
                plan,
                receipt,
                authority,
                model,
                results,
                replay_available,
            );
            &&& reply.true_member("ok"@)
            &&& reply.text_member("request_id"@) == Some(plan.request_id@)
            &&& reply.text_member("receipt_id"@) == Some(receipt.receipt_id@)
            &&& reply.member("results"@) == Some(JsonView::Array(results))
            &&& reply.true_member("complete_replay_available"@) <==> replay_available
            &&& reply.member("ordered_results"@) matches Some(JsonView::Array(ordered))
                && ordered.len() == results.len() && forall|i: int|
                0 <= i < results.len() ==> (#[trigger] ordered[i]).text_member("result_digest"@)
                    == Some(digest_of_document(results[i])) && (results[i].member(
                    "result_id"@,
                ) matches Some(id) ==> ordered[i].member("result_id"@) == Some(id))
        }),
{
    assert forall|result: JsonView| ({
        let entry = #[trigger] ordered_json(result);
        &&& entry.text_member("result_digest"@) == Some(digest_of_document(result))
        &&& result.member("result_id"@) matches Some(id) ==> entry.member("result_id"@) == Some(id)
    }) by {
        reveal_strlit("result_id");
        reveal_strlit("result_digest");
        assert("result_id"@.len() == 9 && "result_digest"@.len() == 13);
        broadcast use crate::json::lemma_put_member, crate::json::lemma_no_member;

    }
    reveal_strlit("schema_version");
    reveal_strlit("ok");
    reveal_strlit("request_id");
    reveal_strlit("receipt_id");
    reveal_strlit("retrieval_mode");
    reveal_strlit("state_view");
    reveal_strlit("current_snapshot_id");
    reveal_strlit("retrieval_epoch");
    reveal_strlit("evaluation_time");
    reveal_strlit("authority");
    reveal_strlit("digests");
    reveal_strlit("execution");
    reveal_strlit("ordered_results");
    reveal_strlit("results");
    reveal_strlit("stage_outcomes");
    reveal_strlit("degradations");
    reveal_strlit("complete_replay_available");
    assert("schema_version"@.len() == 14 && "ok"@.len() == 2);
    assert("request_id"@.len() == 10 && "request_id"@[2] == 'q');
    assert("receipt_id"@.len() == 10 && "receipt_id"@[2] == 'c' && "receipt_id"@[0] == 'r');
    assert("request_id"@[0] == 'r' && "state_view"@.len() == 10 && "state_view"@[0] == 's');
    assert("retrieval_mode"@.len() == 14 && "current_snapshot_id"@.len() == 19);
    assert("retrieval_epoch"@.len() == 15 && "retrieval_epoch"@[0] == 'r');
    assert("evaluation_time"@.len() == 15 && "evaluation_time"@[0] == 'e');
    assert("ordered_results"@.len() == 15 && "ordered_results"@[0] == 'o');
    assert("authority"@.len() == 9 && "execution"@.len() == 9);
    assert("digests"@.len() == 7 && "digests"@[0] == 'd');
    assert("results"@.len() == 7 && "results"@[0] == 'r');
    assert("stage_outcomes"@.len() == 14 && "degradations"@.len() == 12);
    assert("complete_replay_available"@.len() == 25);
    broadcast use crate::json::lemma_put_member, crate::json::lemma_no_member;

}

/// Requests that come without an identifier at one time are told apart by their
/// number.
pub proof fn law_witness_ids_differ(micros: int, a: nat, b: nat)
    requires
        a != b,
    ensures
        witness_id(micros, a) != witness_id(micros, b),
{
    crate::text::law_decimals_differ(a, b);
    let head = "mcp-witness-"@ + signed_decimal(micros) + "-"@;
    let (x, y) = (witness_id(micros, a), witness_id(micros, b));
    assert(x.subrange(head.len() as int, x.len() as int) =~= decimal(a));
    assert(y.subrange(head.len() as int, y.len() as int) =~= decimal(b));
}

/// The modes of retrieval have different names, so that searches in different
/// modes have different configurations.
pub proof fn law_retrieval_modes_differ(a: RetrievalModeParam, b: RetrievalModeParam)
    requires
        a != b,
    ensures
        a.text() != b.text(),
{
    reveal_strlit("hybrid");
    reveal_strlit("fts_only");
    reveal_strlit("vector_only");
    assert("hybrid"@.len() == 6 && "fts_only"@.len() == 8 && "vector_only"@.len() == 11);
}

/// The inputs of a search tell its query, its number and its namespaces.
pub proof fn law_inputs_are_told(
    query: Seq<char>,
    top_k: u64,
    namespaces: Option<Seq<Seq<char>>>,
)
    ensures
        ({
            let input = input_json(query, top_k, namespaces);
            &&& input.text_member("query"@) == Some(query)
            &&& input.member("top_k"@) == Some(JsonView::Unsigned(top_k))
            &&& input.member("filters"@) matches Some(filters) && filters.member("namespaces"@)
                == Some(
                match namespaces {
                    Some(namespaces) => texts_json(namespaces),
                    None => JsonView::Null,
                },
            )
        }),
{
    reveal_strlit("query");
    reveal_strlit("top_k");
    reveal_strlit("filters");
    reveal_strlit("namespaces");
    assert("query"@.len() == 5 && "top_k"@.len() == 5 && "filters"@.len() == 7);
    assert("namespaces"@.len() == 10 && "query"@[0] == 'q' && "top_k"@[0] == 't');
    broadcast use crate::json::lemma_put_member, crate::json::lemma_no_member;

}

/// A fact that a witnessed search found is told as it is stored, with where it
/// came from and the receipt of the search; nothing is claimed of its trust.
pub proof fn law_witnessed_facts_are_told(
    hit: SearchHit,
    fact: FactRecord,
    source: Seq<char>,
    receipt_ref: Seq<char>,
)
    ensures
        ({
            let told = witnessed_json(hit, fact, source, receipt_ref);
            &&& told.text_member("memory_id"@) == Some("fact:"@ + fact.id@)
            &&& told.text_member("result_id"@) == Some(hit.result_id@)
            &&& told.text_member("content"@) == Some(fact.content@)
            &&& told.text_member("namespace"@) == Some(fact.namespace@)
            &&& told.text_member("source"@) == Some(source)
            &&& told.text_member("trust"@) == Some("persisted_unjudged"@)
            &&& told.text_member("retrieval_receipt_ref"@) == Some(receipt_ref)
            &&& told.member("score"@) == Some(hit.score@)
        }),
{
    reveal_strlit("memory_id");
    reveal_strlit("result_id");
    reveal_strlit("content");
    reveal_strlit("namespace");
    reveal_strlit("source");
    reveal_strlit("trust");
    reveal_strlit("state");
    reveal_strlit("retrieval_receipt_ref");
    reveal_strlit("score");
    reveal_strlit("bm25_rank");
    reveal_strlit("vector_rank");
    reveal_strlit("cosine_similarity");
    assert("memory_id"@.len() == 9 && "result_id"@.len() == 9 && "content"@.len() == 7);
    assert("namespace"@.len() == 9 && "source"@.len() == 6 && "trust"@.len() == 5);
    assert("state"@.len() == 5 && "retrieval_receipt_ref"@.len() == 21 && "score"@.len() == 5);
    assert("bm25_rank"@.len() == 9 && "vector_rank"@.len() == 11);
    assert("cosine_similarity"@.len() == 17 && "memory_id"@[0] == 'm' && "result_id"@[0] == 'r');
    assert("namespace"@[0] == 'n' && "bm25_rank"@[0] == 'b' && "trust"@[0] == 't');
    assert("state"@[0] == 's' && "score"@[0] == 's' && "state"@[1] == 't' && "score"@[1] == 'c');
    broadcast use crate::json::lemma_put_member, crate::json::lemma_no_member;

}

/// Searches of different numbers have different configurations.
pub proof fn law_configurations_differ(mode: RetrievalModeParam, a: u64, b: u64)
    ensures
        config_text(mode, a) == config_text(mode, b) ==> a == b,
{
    if config_text(mode, a) == config_text(mode, b) {
        let start = "retrieval_mode="@ + mode.text() + ";top_k="@;
        let end = ";state=current;cache=bypass;exactness=prefer_exact"@;
        let (x, y) = (config_text(mode, a), config_text(mode, b));
        let n = start.len() as int;
        assert(x.subrange(n, x.len() - end.len()) =~= decimal(a as nat));
        assert(y.subrange(n, y.len() - end.len()) =~= decimal(b as nat));
        if a != b {
            crate::text::law_decimals_differ(a as nat, b as nat);
        }
    }
}

/// A result is believed as the memory that it names.
pub proof fn law_results_are_believed_by_their_memory(
    beliefs: Seq<(Seq<char>, u64)>,
    result: JsonView,
    id: Seq<char>,
)
    requires
        result.member("memory_id"@) == Some(JsonView::Text(id)),
    ensures
        belief_of(beliefs, result) == belief_of_id(beliefs, id),
{
}

}
