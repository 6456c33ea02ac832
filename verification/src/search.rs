//! Plain search: how many candidates to fetch, and which of them are current.
use crate::graph::{superseded_in, EdgeRecord};
use crate::json::{fields, json_views, optional_count_json, Fields, FieldsView, Json, JsonView};
use crate::text::{contains, contains_text, holds, texts, to_lowercase, unicode_lowered};
use vstd::prelude::*;

verus! {

/// Where a hit comes from.
pub enum HitSource {
    Fact { fact_id: String, namespace: String },
    Chunk { document_title: String },
    Message,
    Other,
}

/// A search result of the store.
pub struct SearchHit {
    pub result_id: String,
    pub content: String,
    pub score: Json,
    pub bm25_rank: Option<u64>,
    pub vector_rank: Option<u64>,
    pub cosine_similarity: Json,
    pub source: HitSource,
    pub source_text: String,
}

/// The identifiers of hits.
pub open spec fn hit_ids(hits: Seq<SearchHit>) -> Seq<Seq<char>> {
    Seq::new(hits.len(), |i: int| hits[i].result_id@)
}

/// The identifiers of hits.
pub fn result_ids(hits: &Vec<SearchHit>) -> (ids: Vec<String>)
    ensures
        texts(ids@) == hit_ids(hits@),
{
    let mut ids: Vec<String> = Vec::new();
    let mut i: usize = 0;
    while i < hits.len()
        invariant
            i <= hits.len(),
            ids.len() == i,
            forall|k: int| 0 <= k < i ==> (#[trigger] ids@[k])@ == hits@[k].result_id@,
        decreases hits.len() - i,
    {
        ids.push(hits[i].result_id.clone());
        i = i + 1;
    }
    assert(texts(ids@) =~= hit_ids(hits@));
    ids
}

/// A query in lower case that asks for facts that are no longer current.
pub open spec fn asks_for_history_text(lowered: Seq<char>) -> bool {
    ||| contains_text(lowered, "supersed"@)
    ||| contains_text(lowered, "stale"@)
    ||| contains_text(lowered, "obsolete"@)
    ||| contains_text(lowered, "histor"@)
    ||| contains_text(lowered, "old fact"@)
    ||| contains_text(lowered, "previous fact"@)
}

/// Whether a query in lower case asks for facts that are no longer current.
pub fn asks_for_history(lowered: &str) -> (r: bool)
    ensures
        r == asks_for_history_text(lowered@),
{
    contains(lowered, "supersed") || contains(lowered, "stale") || contains(lowered, "obsolete")
        || contains(lowered, "histor") || contains(lowered, "old fact") || contains(
        lowered,
        "previous fact",
    )
}

/// Whether a query, in any letter case, asks for facts that are no longer
/// current.
pub fn query_allows_superseded(query: &str) -> (r: bool)
    ensures
        r == asks_for_history_text(unicode_lowered(query@)),
{
    asks_for_history(&to_lowercase(query))
}

/// The number of results that a request asks for.
pub fn requested_count(top_k: Option<u32>, default: u64) -> (k: u64)
    ensures
        k == (match top_k {
            Some(n) => n as u64,
            None => default,
        }),
{
    match top_k {
        Some(n) => n as u64,
        None => default,
    }
}

/// The number of candidates to fetch for `k` results: where superseded ones
/// will be dropped, four times as many, and at least 20.
pub open spec fn candidate_count(k: int, allow_superseded: bool) -> int {
    if allow_superseded {
        k
    } else if 4 * k < 20 {
        20
    } else {
        4 * k
    }
}

/// The number of candidates to fetch for `k` results.
pub fn search_count(k: u64, allow_superseded: bool) -> (n: u64)
    requires
        4 * k <= u64::MAX,
    ensures
        n == candidate_count(k as int, allow_superseded),
{
    if allow_superseded {
        k
    } else if k * 4 < 20 {
        20
    } else {
        k * 4
    }
}

/// The offsets of the identifiers that are no target, in their order.
pub open spec fn fresh_in(ids: Seq<Seq<char>>, targets: Seq<Seq<char>>) -> Seq<int>
    decreases ids.len(),
{
    if ids.len() == 0 {
        Seq::empty()
    } else if targets.contains(ids.last()) {
        fresh_in(ids.drop_last(), targets)
    } else {
        fresh_in(ids.drop_last(), targets).push(ids.len() - 1)
    }
}

/// The offsets of the results to show: superseded ones are dropped where
/// others are left, unless the query asks for them.
pub open spec fn shown_in(
    ids: Seq<Seq<char>>,
    targets: Seq<Seq<char>>,
    allow_superseded: bool,
) -> Seq<int> {
    if allow_superseded || fresh_in(ids, targets).len() == 0 {
        Seq::new(ids.len(), |i: int| i)
    } else {
        fresh_in(ids, targets)
    }
}

/// Offsets as integers.
pub open spec fn offsets(indices: Seq<usize>) -> Seq<int> {
    Seq::new(indices.len(), |i: int| indices[i] as int)
}

/// What is fresh is among the given offsets, ascending.
pub proof fn lemma_fresh(ids: Seq<Seq<char>>, targets: Seq<Seq<char>>)
    ensures
        fresh_in(ids, targets).len() <= ids.len(),
        forall|i: int|
            0 <= i < fresh_in(ids, targets).len() ==> 0 <= #[trigger] fresh_in(ids, targets)[i]
                < ids.len() && !targets.contains(ids[fresh_in(ids, targets)[i]]),
        forall|i: int, j: int|
            0 <= i < j < fresh_in(ids, targets).len() ==> #[trigger] fresh_in(ids, targets)[i]
                < #[trigger] fresh_in(ids, targets)[j],
    decreases ids.len(),
{
    if ids.len() > 0 {
        lemma_fresh(ids.drop_last(), targets);
        let before = fresh_in(ids.drop_last(), targets);
        assert forall|i: int| 0 <= i < fresh_in(ids, targets).len() implies 0
            <= #[trigger] fresh_in(ids, targets)[i] < ids.len() && !targets.contains(
            ids[fresh_in(ids, targets)[i]],
        ) by {
            if i < before.len() {
                assert(before[i] == fresh_in(ids, targets)[i]);
            }
        }
        assert forall|i: int, j: int| 0 <= i < j < fresh_in(ids, targets).len() implies
            #[trigger] fresh_in(ids, targets)[i] < #[trigger] fresh_in(ids, targets)[j] by {
            assert(before[i] == fresh_in(ids, targets)[i]);
            if j < before.len() {
                assert(before[j] == fresh_in(ids, targets)[j]);
            }
        }
    }
}

/// A result that is no target is fresh.
pub proof fn lemma_fresh_complete(ids: Seq<Seq<char>>, targets: Seq<Seq<char>>, i: int)
    requires
        0 <= i < ids.len(),
        !targets.contains(ids[i]),
    ensures
        fresh_in(ids, targets).contains(i),
    decreases ids.len(),
{
    let before = fresh_in(ids.drop_last(), targets);
    if i == ids.len() - 1 {
        assert(fresh_in(ids, targets)[before.len() as int] == i);
    } else {
        lemma_fresh_complete(ids.drop_last(), targets, i);
        let k = choose|k: int| 0 <= k < before.len() && before[k] == i;
        assert(fresh_in(ids, targets)[k] == i);
    }
}

/// The offsets of the hits that are no target, in their order.
fn fresh_results(hits: &Vec<SearchHit>, targets: &Vec<String>) -> (fresh: Vec<usize>)
    ensures
        offsets(fresh@) == fresh_in(hit_ids(hits@), texts(targets@)),
{
    let ghost ids = hit_ids(hits@);
    let ghost gone = texts(targets@);
    let mut fresh: Vec<usize> = Vec::new();
    let mut i: usize = 0;
    assert(ids.subrange(0, 0) =~= Seq::empty());
    assert(offsets(fresh@) =~= Seq::empty());
    while i < hits.len()
        invariant
            i <= hits.len(),
            ids == hit_ids(hits@),
            gone == texts(targets@),
            offsets(fresh@) == fresh_in(ids.subrange(0, i as int), gone),
        decreases hits.len() - i,
    {
        let ghost before = fresh@;
        assert(ids.subrange(0, i as int + 1).drop_last() =~= ids.subrange(0, i as int));
        if !holds(targets, &hits[i].result_id) {
            fresh.push(i);
            assert(offsets(fresh@) =~= offsets(before).push(i as int));
        }
        i = i + 1;
    }
    assert(ids.subrange(0, ids.len() as int) =~= ids);
    fresh
}

/// The offsets of all hits.
fn all_results(hits: &Vec<SearchHit>) -> (all: Vec<usize>)
    ensures
        offsets(all@) == Seq::new(hits@.len(), |i: int| i),
{
    let mut all: Vec<usize> = Vec::new();
    let mut k: usize = 0;
    while k < hits.len()
        invariant
            k <= hits.len(),
            all.len() == k,
            forall|j: int| 0 <= j < k ==> #[trigger] all@[j] == j,
        decreases hits.len() - k,
    {
        all.push(k);
        k = k + 1;
    }
    assert(offsets(all@) =~= Seq::new(hits@.len(), |i: int| i));
    all
}

/// The offsets of the results to show.
pub fn shown_results(hits: &Vec<SearchHit>, targets: &Vec<String>, allow_superseded: bool) -> (
shown: Vec<usize>)
    ensures
        offsets(shown@) == shown_in(hit_ids(hits@), texts(targets@), allow_superseded),
{
    let fresh = fresh_results(hits, targets);
    if allow_superseded || fresh.len() == 0 {
        assert(offsets(fresh@).len() == fresh@.len());
        all_results(hits)
    } else {
        assert(offsets(fresh@).len() == fresh@.len());
        fresh
    }
}

/// The offsets of the results that a routed search shows: superseded ones are
/// dropped, even where nothing else is left, unless the query asks for them.
pub open spec fn current_in(
    ids: Seq<Seq<char>>,
    targets: Seq<Seq<char>>,
    allow_superseded: bool,
) -> Seq<int> {
    if allow_superseded {
        Seq::new(ids.len(), |i: int| i)
    } else {
        fresh_in(ids, targets)
    }
}

/// The offsets of the results that a routed search shows, given the stored
/// edges.
pub fn current_results(query: &str, hits: &Vec<SearchHit>, edges: &Vec<EdgeRecord>) -> (shown: Vec<
    usize,
>)
    ensures
        offsets(shown@) == current_in(
            hit_ids(hits@),
            superseded_in(edges@),
            asks_for_history_text(unicode_lowered(query@)),
        ),
{
    if query_allows_superseded(query) {
        all_results(hits)
    } else {
        fresh_results(hits, &crate::graph::superseded_targets(edges))
    }
}

/// The fields of a hit as a search replies with it.
pub open spec fn hit_fields(hit: SearchHit) -> FieldsView {
    fields().put("result_id"@, JsonView::Text(hit.result_id@)).put(
        "content"@,
        JsonView::Text(hit.content@),
    ).put("source"@, JsonView::Text(hit.source_text@)).put("score"@, hit.score@).put(
        "bm25_rank"@,
        optional_count_json(hit.bm25_rank),
    ).put("vector_rank"@, optional_count_json(hit.vector_rank)).put(
        "cosine_similarity"@,
        hit.cosine_similarity@,
    )
}

/// A hit as plain search replies with it.
pub open spec fn hit_json(hit: SearchHit) -> JsonView {
    hit_fields(hit).object()
}

/// The fields of a hit as a search replies with it.
fn describe_hit(hit: &SearchHit) -> (described: Fields)
    ensures
        described@ == hit_fields(*hit),
{
    Fields::new().with_text("result_id", &hit.result_id).with_text("content", &hit.content).with_text(
        "source",
        &hit.source_text,
    ).with("score", hit.score.copy()).with(
        "bm25_rank",
        Json::from_optional_count(hit.bm25_rank),
    ).with("vector_rank", Json::from_optional_count(hit.vector_rank)).with(
        "cosine_similarity",
        hit.cosine_similarity.copy(),
    )
}

/// The first `k` of the given offsets.
pub open spec fn first_of(shown: Seq<int>, k: int) -> Seq<int> {
    if shown.len() <= k {
        shown
    } else {
        shown.subrange(0, k)
    }
}

/// The reply of a plain search.
pub open spec fn search_reply(hits: Seq<SearchHit>, shown: Seq<int>, k: int) -> JsonView {
    let kept = first_of(shown, k);
    fields().put("ok"@, JsonView::Bool(true)).put(
        "results"@,
        JsonView::Array(Seq::new(kept.len(), |i: int| hit_json(hits[kept[i]]))),
    ).put("count"@, JsonView::Unsigned(kept.len() as u64)).put(
        "superseded_filtered_count"@,
        JsonView::Unsigned((hits.len() - shown.len()) as u64),
    ).object()
}

/// Every shown offset is one of a hit.
pub proof fn lemma_shown_in_range(
    ids: Seq<Seq<char>>,
    targets: Seq<Seq<char>>,
    allow_superseded: bool,
)
    ensures
        shown_in(ids, targets, allow_superseded).len() <= ids.len(),
        forall|i: int|
            0 <= i < shown_in(ids, targets, allow_superseded).len() ==> 0 <= #[trigger] shown_in(
                ids,
                targets,
                allow_superseded,
            )[i] < ids.len(),
{
    lemma_fresh(ids, targets);
}

/// The reply of a plain search for `k` results, given the hits and the stored
/// edges. The `k` is the number asked for; the query decides whether
/// superseded results stay.
pub fn finish_search(query: &str, hits: &Vec<SearchHit>, edges: &Vec<EdgeRecord>, k: u64) -> (reply:
    Json)
    ensures
        reply@ == search_reply(
            hits@,
            shown_in(
                hit_ids(hits@),
                superseded_in(edges@),
                asks_for_history_text(unicode_lowered(query@)),
            ),
            k as int,
        ),
{
    let allow = query_allows_superseded(query);
    let targets = crate::graph::superseded_targets(edges);
    let shown = shown_results(hits, &targets, allow);
    describe_results(hits, &shown, k, Ghost((superseded_in(edges@), allow)))
}

/// The reply of a plain search that shows the given hits.
fn describe_results(
    hits: &Vec<SearchHit>,
    shown: &Vec<usize>,
    k: u64,
    Ghost(why): Ghost<(Seq<Seq<char>>, bool)>,
) -> (reply: Json)
    requires
        offsets(shown@) == shown_in(hit_ids(hits@), why.0, why.1),
    ensures
        reply@ == search_reply(hits@, offsets(shown@), k as int),
{
    proof {
        lemma_shown_in_range(hit_ids(hits@), why.0, why.1);
    }
    let mut results: Vec<Json> = Vec::new();
    let ghost kept = first_of(offsets(shown@), k as int);
    let mut i: usize = 0;
    while i < shown.len() && (i as u64) < k
        invariant
            i <= shown.len(),
            i <= k,
            shown@.len() <= hits@.len(),
            offsets(shown@) == shown_in(hit_ids(hits@), why.0, why.1),
            forall|j: int| 0 <= j < shown@.len() ==> 0 <= #[trigger] offsets(shown@)[j] < hits@.len(),
            kept == first_of(offsets(shown@), k as int),
            results.len() == i,
            forall|j: int| 0 <= j < i ==> (#[trigger] results@[j])@ == hit_json(hits@[kept[j]]),
        decreases shown.len() - i,
    {
        assert(offsets(shown@)[i as int] == shown@[i as int]);
        results.push(describe_hit(&hits[shown[i]]).object());
        i = i + 1;
    }
    assert(kept.len() == i);
    assert(json_views(results@) =~= Seq::new(kept.len(), |j: int| hit_json(hits@[kept[j]])));
    let count = results.len();
    Fields::new().with_bool("ok", true).with("results", Json::from_list(results)).with_count(
        "count",
        count,
    ).with_count("superseded_filtered_count", hits.len() - shown.len()).object()
}

/// How the score of a hit came about.
pub struct ScoreBreakdown {
    pub rrf_score: Json,
    pub bm25_score: Json,
    pub vector_score: Json,
    pub recency_score: Json,
    pub bm25_rank: Option<u64>,
    pub vector_rank: Option<u64>,
    pub vector_source_rank: Option<u64>,
    pub vector_source_score: Json,
    pub bm25_contribution: Json,
    pub vector_contribution: Json,
    pub vector_reranked_from_f32: bool,
    pub bm25_weight: Json,
    pub vector_weight: Json,
    pub recency_weight: Json,
    pub rrf_k: Json,
}

/// How the score of a hit came about, as an explained search replies with it.
pub open spec fn breakdown_json(scores: ScoreBreakdown) -> JsonView {
    fields().put(
        "rrf_score"@,
        scores.rrf_score@,
    ).put(
        "bm25_score"@,
        scores.bm25_score@,
    ).put(
        "vector_score"@,
        scores.vector_score@,
    ).put(
        "recency_score"@,
        scores.recency_score@,
    ).put(
        "bm25_rank"@,
        optional_count_json(scores.bm25_rank),
    ).put(
        "vector_rank"@,
        optional_count_json(scores.vector_rank),
    ).put(
        "vector_source_rank"@,
        optional_count_json(scores.vector_source_rank),
    ).put(
        "vector_source_score"@,
        scores.vector_source_score@,
    ).put(
        "bm25_contribution"@,
        scores.bm25_contribution@,
    ).put(
        "vector_contribution"@,
        scores.vector_contribution@,
    ).put(
        "vector_reranked_from_f32"@,
        JsonView::Bool(scores.vector_reranked_from_f32),
    ).put(
        "bm25_weight"@,
        scores.bm25_weight@,
    ).put(
        "vector_weight"@,
        scores.vector_weight@,
    ).put(
        "recency_weight"@,
        scores.recency_weight@,
    ).put(
        "rrf_k"@,
        scores.rrf_k@,
    ).object()
}

/// A hit as an explained search replies with it.
pub open spec fn explained_json(hit: SearchHit, scores: ScoreBreakdown) -> JsonView {
    hit_fields(hit).put("breakdown"@, breakdown_json(scores)).object()
}

/// How the score of a hit came about, as an explained search replies with it.
fn describe_breakdown(scores: &ScoreBreakdown) -> (document: Json)
    ensures
        document@ == breakdown_json(*scores),
{
    Fields::new().with(
        "rrf_score",
        scores.rrf_score.copy(),
    ).with(
        "bm25_score",
        scores.bm25_score.copy(),
    ).with(
        "vector_score",
        scores.vector_score.copy(),
    ).with(
        "recency_score",
        scores.recency_score.copy(),
    ).with(
        "bm25_rank",
        Json::from_optional_count(scores.bm25_rank),
    ).with(
        "vector_rank",
        Json::from_optional_count(scores.vector_rank),
    ).with(
        "vector_source_rank",
        Json::from_optional_count(scores.vector_source_rank),
    ).with(
        "vector_source_score",
        scores.vector_source_score.copy(),
    ).with(
        "bm25_contribution",
        scores.bm25_contribution.copy(),
    ).with(
        "vector_contribution",
        scores.vector_contribution.copy(),
    ).with_bool("vector_reranked_from_f32", scores.vector_reranked_from_f32).with(
        "bm25_weight",
        scores.bm25_weight.copy(),
    ).with(
        "vector_weight",
        scores.vector_weight.copy(),
    ).with(
        "recency_weight",
        scores.recency_weight.copy(),
    ).with(
        "rrf_k",
        scores.rrf_k.copy(),
    ).object()
}

/// The reply of an explained search.
pub open spec fn explained_reply(
    hits: Seq<SearchHit>,
    breakdowns: Seq<ScoreBreakdown>,
    shown: Seq<int>,
    k: int,
) -> JsonView {
    let kept = first_of(shown, k);
    fields().put("ok"@, JsonView::Bool(true)).put(
        "results"@,
        JsonView::Array(
            Seq::new(kept.len(), |i: int| explained_json(hits[kept[i]], breakdowns[kept[i]])),
        ),
    ).put("count"@, JsonView::Unsigned(kept.len() as u64)).put(
        "superseded_filtered_count"@,
        JsonView::Unsigned((hits.len() - shown.len()) as u64),
    ).object()
}

/// The reply of a search for `k` results that explains its scores, given the
/// hits, the breakdown of each, and the stored edges. It shows the hits that
/// plain search would show.
pub fn finish_search_explained(
    query: &str,
    hits: &Vec<SearchHit>,
    breakdowns: &Vec<ScoreBreakdown>,
    edges: &Vec<EdgeRecord>,
    k: u64,
) -> (reply: Json)
    requires
        hits@.len() == breakdowns@.len(),
    ensures
        reply@ == explained_reply(
            hits@,
            breakdowns@,
            shown_in(
                hit_ids(hits@),
                superseded_in(edges@),
                asks_for_history_text(unicode_lowered(query@)),
            ),
            k as int,
        ),
{
    let allow = query_allows_superseded(query);
    let targets = crate::graph::superseded_targets(edges);
    let shown = shown_results(hits, &targets, allow);
    proof {
        lemma_shown_in_range(hit_ids(hits@), superseded_in(edges@), allow);
    }
    let mut results: Vec<Json> = Vec::new();
    let ghost kept = first_of(offsets(shown@), k as int);
    let mut i: usize = 0;
    while i < shown.len() && (i as u64) < k
        invariant
            i <= shown.len(),
            i <= k,
            hits@.len() == breakdowns@.len(),
            forall|j: int| 0 <= j < shown@.len() ==> 0 <= #[trigger] offsets(shown@)[j] < hits@.len(),
            kept == first_of(offsets(shown@), k as int),
            results.len() == i,
            forall|j: int|
                0 <= j < i ==> (#[trigger] results@[j])@ == explained_json(
                    hits@[kept[j]],
                    breakdowns@[kept[j]],
                ),
        decreases shown.len() - i,
    {
        assert(offsets(shown@)[i as int] == shown@[i as int]);
        results.push(
            describe_hit(&hits[shown[i]]).with("breakdown", describe_breakdown(&breakdowns[shown[i]])).object(),
        );
        i = i + 1;
    }
    assert(kept.len() == i);
    assert(json_views(results@) =~= Seq::new(
        kept.len(),
        |j: int| explained_json(hits@[kept[j]], breakdowns@[kept[j]]),
    ));
    let count = results.len();
    Fields::new().with_bool("ok", true).with("results", Json::from_list(results)).with_count(
        "count",
        count,
    ).with_count("superseded_filtered_count", hits.len() - shown.len()).object()
}

/// No superseded result is shown where there is one that is not, unless the
/// query asks for superseded facts.
pub proof fn law_superseded_results_are_dropped(
    ids: Seq<Seq<char>>,
    targets: Seq<Seq<char>>,
    current: int,
    i: int,
)
    requires
        0 <= current < ids.len(),
        !targets.contains(ids[current]),
        0 <= i < shown_in(ids, targets, false).len(),
    ensures
        !targets.contains(ids[shown_in(ids, targets, false)[i]]),
{
    lemma_fresh_complete(ids, targets, current);
    lemma_fresh(ids, targets);
}

/// Every result that was not superseded is shown.
pub proof fn law_current_results_are_kept(
    ids: Seq<Seq<char>>,
    targets: Seq<Seq<char>>,
    allow_superseded: bool,
    i: int,
)
    requires
        0 <= i < ids.len(),
        !targets.contains(ids[i]),
    ensures
        shown_in(ids, targets, allow_superseded).contains(i),
{
    lemma_fresh_complete(ids, targets, i);
    if allow_superseded {
        assert(shown_in(ids, targets, allow_superseded)[i] == i);
    }
}

/// A routed search shows no superseded result, unless the query asks for
/// superseded facts, and shows every other one.
pub proof fn law_routed_results_are_current(
    ids: Seq<Seq<char>>,
    targets: Seq<Seq<char>>,
    i: int,
)
    ensures
        0 <= i < current_in(ids, targets, false).len() ==> 0 <= current_in(ids, targets, false)[i]
            < ids.len() && !targets.contains(ids[current_in(ids, targets, false)[i]]),
        0 <= i < ids.len() && !targets.contains(ids[i]) ==> current_in(
            ids,
            targets,
            false,
        ).contains(i),
{
    lemma_fresh(ids, targets);
    if 0 <= i < ids.len() && !targets.contains(ids[i]) {
        lemma_fresh_complete(ids, targets, i);
    }
}

/// A query that asks for superseded facts is shown every result.
pub proof fn law_history_keeps_everything(ids: Seq<Seq<char>>, targets: Seq<Seq<char>>)
    ensures
        shown_in(ids, targets, true) == Seq::new(ids.len(), |i: int| i),
        current_in(ids, targets, true) == Seq::new(ids.len(), |i: int| i),
{
}

/// The results that are shown keep their order.
pub proof fn law_shown_results_keep_their_order(
    ids: Seq<Seq<char>>,
    targets: Seq<Seq<char>>,
    allow_superseded: bool,
    i: int,
    j: int,
)
    requires
        0 <= i < j < shown_in(ids, targets, allow_superseded).len(),
    ensures
        shown_in(ids, targets, allow_superseded)[i] < shown_in(ids, targets, allow_superseded)[j],
{
    lemma_fresh(ids, targets);
}

/// `results` show the first `k` of the hits at the given offsets, or all of them
/// where there are fewer, in their order.
pub open spec fn shows_first(
    results: Seq<JsonView>,
    hits: Seq<SearchHit>,
    shown: Seq<int>,
    k: int,
) -> bool {
    &&& results.len() == (if k < shown.len() {
        k
    } else {
        shown.len() as int
    })
    &&& forall|i: int|
        0 <= i < results.len() ==> ({
            let hit = hits[shown[i]];
            &&& (#[trigger] results[i]).text_member("result_id"@) == Some(hit.result_id@)
            &&& results[i].text_member("content"@) == Some(hit.content@)
            &&& results[i].member("score"@) == Some(hit.score@)
        })
}

/// The members of a hit in the reply of a search.
proof fn lemma_hit_members(hit: SearchHit)
    ensures
        ({
            let result = hit_json(hit);
            &&& result.text_member("result_id"@) == Some(hit.result_id@)
            &&& result.text_member("content"@) == Some(hit.content@)
            &&& result.text_member("source"@) == Some(hit.source_text@)
            &&& result.member("score"@) == Some(hit.score@)
            &&& result.member("breakdown"@) is None
        }),
{
    broadcast use crate::json::lemma_put_member, crate::json::lemma_no_member;

    reveal_strlit("result_id");
    reveal_strlit("content");
    reveal_strlit("source");
    reveal_strlit("score");
    reveal_strlit("breakdown");
    reveal_strlit("bm25_rank");
    reveal_strlit("vector_rank");
    reveal_strlit("cosine_similarity");
    assert("result_id"@.len() == 9 && "result_id"@[0] == 'r' && "content"@.len() == 7);
    assert("source"@.len() == 6 && "score"@.len() == 5);
    assert("breakdown"@.len() == 9 && "breakdown"@[1] == 'r' && "bm25_rank"@[1] == 'm');
    assert("result_id"@[1] == 'e' && "vector_rank"@.len() == 11);
    assert("cosine_similarity"@.len() == 17);
}

/// A plain search shows the first `k` of the hits that it has to show, each as
/// it was found, and counts them.
pub proof fn law_searches_show_the_first(hits: Seq<SearchHit>, shown: Seq<int>, k: u64)
    ensures
        ({
            let reply = search_reply(hits, shown, k as int);
            &&& reply.true_member("ok"@)
            &&& reply.member("results"@) matches Some(JsonView::Array(results)) && shows_first(
                results,
                hits,
                shown,
                k as int,
            ) && reply.member("count"@) == Some(JsonView::Unsigned(results.len() as u64))
            &&& reply.member("superseded_filtered_count"@) == Some(
                JsonView::Unsigned((hits.len() - shown.len()) as u64),
            )
        }),
{
    lemma_reply_keys();
    assert forall|hit: SearchHit| ({
        let result = #[trigger] hit_json(hit);
        &&& result.text_member("result_id"@) == Some(hit.result_id@)
        &&& result.text_member("content"@) == Some(hit.content@)
        &&& result.member("score"@) == Some(hit.score@)
    }) by {
        lemma_hit_members(hit);
    }
    broadcast use crate::json::lemma_put_member, crate::json::lemma_no_member;

}

/// The keys of a reply differ.
proof fn lemma_reply_keys()
    ensures
        "ok"@ != "results"@,
        "ok"@ != "count"@,
        "ok"@ != "superseded_filtered_count"@,
        "results"@ != "count"@,
        "results"@ != "superseded_filtered_count"@,
        "count"@ != "superseded_filtered_count"@,
{
    reveal_strlit("ok");
    reveal_strlit("results");
    reveal_strlit("count");
    reveal_strlit("superseded_filtered_count");
    assert("ok"@.len() == 2 && "results"@.len() == 7 && "count"@.len() == 5);
    assert("superseded_filtered_count"@.len() == 25);
}

/// An explained search shows the hits that plain search shows, each with how its
/// own score came about.
pub proof fn law_explained_searches_show_the_first(
    hits: Seq<SearchHit>,
    breakdowns: Seq<ScoreBreakdown>,
    shown: Seq<int>,
    k: u64,
)
    ensures
        ({
            let reply = explained_reply(hits, breakdowns, shown, k as int);
            &&& reply.true_member("ok"@)
            &&& reply.member("results"@) matches Some(JsonView::Array(results)) && shows_first(
                results,
                hits,
                shown,
                k as int,
            ) && reply.member("count"@) == Some(JsonView::Unsigned(results.len() as u64)) && (
            forall|i: int|
                0 <= i < results.len() ==> (#[trigger] results[i]).member("breakdown"@) == Some(
                    breakdown_json(breakdowns[shown[i]]),
                ))
            &&& reply.member("superseded_filtered_count"@) == Some(
                JsonView::Unsigned((hits.len() - shown.len()) as u64),
            )
        }),
{
    lemma_reply_keys();
    assert forall|hit: SearchHit, scores: ScoreBreakdown| ({
        let result = #[trigger] explained_json(hit, scores);
        &&& result.text_member("result_id"@) == Some(hit.result_id@)
        &&& result.text_member("content"@) == Some(hit.content@)
        &&& result.member("score"@) == Some(hit.score@)
        &&& result.member("breakdown"@) == Some(breakdown_json(scores))
    }) by {
        lemma_hit_members(hit);
        broadcast use crate::json::lemma_put_member;

    }
    broadcast use crate::json::lemma_put_member, crate::json::lemma_no_member;

}

/// A plain search for `k` results shows the best `k` current ones: where the
/// query does not ask for superseded facts and any hit was not superseded, the
/// results are the first `k` hits that were not superseded, in the order of the
/// hits, and all of them where there are fewer. `current` lists the offsets of
/// those hits.
pub proof fn law_searches_show_the_best_current_results(
    hits: Seq<SearchHit>,
    edges: Seq<EdgeRecord>,
    k: u64,
    some: int,
) -> (current: Seq<int>)
    requires
        0 <= some < hits.len(),
        !superseded_in(edges).contains(hits[some].result_id@),
    ensures
        forall|n: int, m: int|
            0 <= n < m < current.len() ==> #[trigger] current[n] < #[trigger] current[m],
        forall|n: int| 0 <= n < current.len() ==> 0 <= #[trigger] current[n] < hits.len(),
        forall|i: int|
            0 <= i < hits.len() ==> (current.contains(i) <==> !superseded_in(edges).contains(
                (#[trigger] hits[i]).result_id@,
            )),
        search_reply(hits, shown_in(hit_ids(hits), superseded_in(edges), false), k as int).member(
            "results"@,
        ) matches Some(JsonView::Array(results)) && shows_first(results, hits, current, k as int),
{
    let ids = hit_ids(hits);
    let targets = superseded_in(edges);
    let current = shown_in(ids, targets, false);
    lemma_fresh(ids, targets);
    lemma_fresh_complete(ids, targets, some);
    assert forall|i: int| 0 <= i < hits.len() implies (current.contains(i) <==> !targets.contains(
        (#[trigger] hits[i]).result_id@,
    )) by {
        assert(ids[i] == hits[i].result_id@);
        if !targets.contains(ids[i]) {
            lemma_fresh_complete(ids, targets, i);
        }
    }
    law_searches_show_the_first(hits, current, k);
    current
}

/// A query that asks for superseded facts is shown the first `k` of all hits.
pub proof fn law_history_searches_show_everything(
    hits: Seq<SearchHit>,
    edges: Seq<EdgeRecord>,
    k: u64,
)
    ensures
        search_reply(hits, shown_in(hit_ids(hits), superseded_in(edges), true), k as int).member(
            "results"@,
        ) matches Some(JsonView::Array(results)) && results.len() == (if k < hits.len() {
            k as int
        } else {
            hits.len() as int
        }) && forall|i: int|
            0 <= i < results.len() ==> (#[trigger] results[i]).text_member("result_id"@) == Some(
                hits[i].result_id@,
            ),
{
    law_searches_show_the_first(hits, shown_in(hit_ids(hits), superseded_in(edges), true), k);
}

/// Enough candidates are fetched: never fewer than were asked for. Where
/// superseded ones will be dropped, four times as many and no fewer than 20, and
/// one of both exactly.
pub proof fn law_candidates_suffice(k: int, allow_superseded: bool)
    requires
        0 <= k,
    ensures
        candidate_count(k, allow_superseded) >= k,
        allow_superseded ==> candidate_count(k, allow_superseded) == k,
        !allow_superseded ==> ({
            let n = candidate_count(k, allow_superseded);
            n >= 4 * k && n >= 20 && (n == 4 * k || n == 20)
        }),
{
}

/// A query asks for history wherever one of the words for it stands in it, and
/// not otherwise: whatever stands around a query that asks for history, it still
/// does.
pub proof fn law_history_is_asked_for_by_words(
    before: Seq<char>,
    asking: Seq<char>,
    behind: Seq<char>,
)
    requires
        asking == "supersed"@ || asking == "stale"@ || asking == "obsolete"@ || asking == "histor"@
            || asking == "old fact"@ || asking == "previous fact"@ || asks_for_history_text(asking),
    ensures
        asks_for_history_text(before + asking + behind),
{
    let whole = before + asking + behind;
    let n = before.len() as int;
    if asking == "supersed"@ || asking == "stale"@ || asking == "obsolete"@ || asking == "histor"@
        || asking == "old fact"@ || asking == "previous fact"@ {
        assert(whole.subrange(n, n + asking.len()) =~= asking);
        assert(crate::text::occurs_at(whole, asking, n));
    } else {
        let part = choose|part: Seq<char>|
            (part == "supersed"@ || part == "stale"@ || part == "obsolete"@ || part == "histor"@
                || part == "old fact"@ || part == "previous fact"@) && #[trigger] contains_text(
                asking,
                part,
            );
        let at = choose|at: int| crate::text::occurs_at(asking, part, at);
        assert(whole.subrange(n + at, n + at + part.len()) =~= asking.subrange(
            at,
            at + part.len(),
        ));
        assert(crate::text::occurs_at(whole, part, n + at));
    }
}

/// A short query does not ask for history.
pub proof fn law_short_queries_ask_for_no_history(query: Seq<char>)
    requires
        query.len() < 5,
    ensures
        !asks_for_history_text(query),
{
    reveal_strlit("supersed");
    reveal_strlit("stale");
    reveal_strlit("obsolete");
    reveal_strlit("histor");
    reveal_strlit("old fact");
    reveal_strlit("previous fact");
    assert("supersed"@.len() == 8 && "stale"@.len() == 5 && "obsolete"@.len() == 8);
    assert("histor"@.len() == 6 && "old fact"@.len() == 8 && "previous fact"@.len() == 13);
}

}
