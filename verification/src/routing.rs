//! Adaptive search: which retrieval stages a query activates, and the reply
//! that tells which of them ran.
use crate::facts::FactText;
use crate::graph::{
    adjacency,
    adjacency_of,
    are_voids_of,
    betti_counts,
    betti_numbers,
    find_voids,
    group_results,
    grouped,
    grouped_json,
    Community,
    StructuralVoid,
};
use crate::json::{
    fields,
    json_views,
    pair_texts,
    texts_json,
    Fields,
    FieldsView,
    Json,
    JsonView,
};
use crate::lifecycle::{community_views, default_communities, usual_communities};
use crate::search::{first_of, offsets, SearchHit};
use crate::text::{cat2, copy_texts, holds, texts};
use vstd::prelude::*;

verus! {

/// Which retrieval stages a query activates.
pub struct RoutingDecision {
    pub bm25_coarse: bool,
    pub vector_medium: bool,
    pub rerank_fine: bool,
    pub graph_expansion: bool,
    pub decoder: bool,
    pub discord: bool,
    pub no_retrieval: bool,
    pub reasoning: String,
}

/// Which retrieval stages a query activates.
pub struct RouteView {
    pub bm25_coarse: bool,
    pub vector_medium: bool,
    pub rerank_fine: bool,
    pub graph_expansion: bool,
    pub decoder: bool,
    pub discord: bool,
    pub no_retrieval: bool,
    pub reasoning: Seq<char>,
}

impl View for RoutingDecision {
    type V = RouteView;

    open spec fn view(&self) -> RouteView {
        RouteView {
            bm25_coarse: self.bm25_coarse,
            vector_medium: self.vector_medium,
            rerank_fine: self.rerank_fine,
            graph_expansion: self.graph_expansion,
            decoder: self.decoder,
            discord: self.discord,
            no_retrieval: self.no_retrieval,
            reasoning: self.reasoning@,
        }
    }
}

/// How complex a query is.
#[derive(Clone, Copy, Debug, PartialEq, Eq, Structural)]
pub enum QueryComplexityClass {
    Simple,
    MultiHop,
    Contradiction,
    Synthesis,
    Temporal,
    Creative,
}

/// What `semantic_memory::routing::RetrievalRouter::route_query` decides for a
/// query, with or without the decoder and the discord stage.
pub uninterp spec fn heuristic_route(
    query: Seq<char>,
    decoder_enabled: bool,
    discord_enabled: bool,
) -> RouteView;

/// The class that `semantic_memory::routing::QueryProfile::from_query` gives a
/// query.
pub uninterp spec fn complexity_of(query: Seq<char>) -> QueryComplexityClass;

/// `semantic_memory::routing::RetrievalRouter::route_query` with the default
/// thresholds: the stages that the heuristics activate for a query.
#[verifier::external_body]
fn route_by_heuristics(query: &str, decoder_enabled: bool, discord_enabled: bool) -> (decision:
    RoutingDecision)
    ensures
        decision@ == heuristic_route(query@, decoder_enabled, discord_enabled),
{
    let router = semantic_memory::routing::RetrievalRouter {
        decoder_enabled,
        discord_enabled,
        ..Default::default()
    };
    let d = router.route_query(query);
    RoutingDecision {
        bm25_coarse: d.bm25_coarse, vector_medium: d.vector_medium, rerank_fine: d.rerank_fine,
        graph_expansion: d.graph_expansion, decoder: d.decoder, discord: d.discord,
        no_retrieval: d.no_retrieval, reasoning: d.reasoning,
    }
}

/// `semantic_memory::routing::QueryProfile::from_query`: the complexity class
/// of a query.
#[verifier::external_body]
fn classify(query: &str) -> (class: QueryComplexityClass)
    ensures
        class == complexity_of(query@),
{
    match semantic_memory::routing::QueryProfile::from_query(query).complexity_class {
        semantic_memory::routing::QueryComplexityClass::Simple => QueryComplexityClass::Simple,
        semantic_memory::routing::QueryComplexityClass::MultiHop => QueryComplexityClass::MultiHop,
        semantic_memory::routing::QueryComplexityClass::Contradiction => {
            QueryComplexityClass::Contradiction
        },
        semantic_memory::routing::QueryComplexityClass::Synthesis => QueryComplexityClass::Synthesis,
        semantic_memory::routing::QueryComplexityClass::Temporal => QueryComplexityClass::Temporal,
        semantic_memory::routing::QueryComplexityClass::Creative => QueryComplexityClass::Creative,
    }
}

/// The complexity class of a query.
pub fn query_complexity(query: &str) -> (class: QueryComplexityClass)
    ensures
        class == complexity_of(query@),
{
    classify(query)
}

/// The stages that the heuristics activate for a query when neither the
/// decoder nor the discord stage is enabled.
pub fn default_route(query: &str) -> (decision: RoutingDecision)
    ensures
        decision@ == heuristic_route(query@, false, false),
{
    route_by_heuristics(query, false, false)
}

/// A routing decision and whether a trained policy made it.
pub struct SelectedRoute {
    pub decision: RoutingDecision,
    pub trained: bool,
}

/// The routing of a query: what a trained policy decided, where there is one,
/// and the heuristics with every stage enabled where there is none.
pub fn select_route(query: &str, by_policy: Option<RoutingDecision>) -> (selected: SelectedRoute)
    ensures
        (match by_policy {
            Some(decision) => selected.decision == decision && selected.trained,
            None => selected.decision@ == heuristic_route(query@, true, true) && !selected.trained,
        }),
{
    match by_policy {
        Some(decision) => SelectedRoute { decision, trained: true },
        None => SelectedRoute { decision: route_by_heuristics(query, true, true), trained: false },
    }
}

/// The name of what made a routing decision.
pub open spec fn source_text(trained: bool) -> Seq<char> {
    if trained {
        "trained_policy"@
    } else {
        "heuristic"@
    }
}

/// The name of what made a routing decision.
fn source_name(trained: bool) -> (s: &'static str)
    ensures
        s@ == source_text(trained),
{
    if trained {
        "trained_policy"
    } else {
        "heuristic"
    }
}

/// A decision as fields of a reply.
pub open spec fn decision_fields(before: FieldsView, d: RouteView) -> FieldsView {
    before.put("bm25_coarse"@, JsonView::Bool(d.bm25_coarse)).put(
        "vector_medium"@,
        JsonView::Bool(d.vector_medium),
    ).put("rerank_fine"@, JsonView::Bool(d.rerank_fine)).put(
        "graph_expansion"@,
        JsonView::Bool(d.graph_expansion),
    ).put("decoder"@, JsonView::Bool(d.decoder)).put("discord"@, JsonView::Bool(d.discord)).put(
        "no_retrieval"@,
        JsonView::Bool(d.no_retrieval),
    ).put("reasoning"@, JsonView::Text(d.reasoning))
}

/// Adds a decision to the fields of a reply.
pub(crate) fn with_decision(before: Fields, d: &RoutingDecision) -> (r: Fields)
    ensures
        r@ == decision_fields(before@, d@),
{
    before.with_bool("bm25_coarse", d.bm25_coarse).with_bool(
        "vector_medium",
        d.vector_medium,
    ).with_bool("rerank_fine", d.rerank_fine).with_bool(
        "graph_expansion",
        d.graph_expansion,
    ).with_bool("decoder", d.decoder).with_bool("discord", d.discord).with_bool(
        "no_retrieval",
        d.no_retrieval,
    ).with_text("reasoning", &d.reasoning)
}

/// A decision with what made it.
pub open spec fn selected_json(decision: RouteView, trained: bool) -> JsonView {
    decision_fields(fields().put("source"@, JsonView::Text(source_text(trained))), decision).object()
}

/// A decision with what made it.
pub(crate) fn describe_selected(selected: &SelectedRoute) -> (document: Json)
    ensures
        document@ == selected_json(selected.decision@, selected.trained),
{
    with_decision(
        Fields::new().with_text("source", source_name(selected.trained)),
        &selected.decision,
    ).object()
}

/// The reply of the routing tool.
pub fn route_reply(selected: &SelectedRoute) -> (reply: Json)
    ensures
        reply@ == decision_fields(
            fields().put("ok"@, JsonView::Bool(true)).put(
                "routing_source"@,
                JsonView::Text(source_text(selected.trained)),
            ),
            selected.decision@,
        ).object(),
{
    with_decision(
        Fields::new().with_bool("ok", true).with_text(
            "routing_source",
            source_name(selected.trained),
        ),
        &selected.decision,
    ).object()
}

/// What belief propagation over the factor graph came to.
pub struct FactorGraphRun {
    pub top_beliefs: Vec<(String, Json)>,
    pub iterations: u64,
    pub converged: bool,
    pub elapsed_ms: Json,
    pub semantic: u64,
    pub temporal: u64,
    pub causal: u64,
    pub entity: u64,
    pub total: u64,
}

/// Whether belief propagation ran.
pub enum FactorGraphOutcome {
    NotRun,
    Failed(String),
    Ran(FactorGraphRun),
}

/// Beliefs as a reply lists them.
pub open spec fn beliefs_json(beliefs: Seq<(String, Json)>) -> JsonView {
    JsonView::Array(
        Seq::new(
            beliefs.len(),
            |i: int|
                fields().put("item_id"@, JsonView::Text(beliefs[i].0@)).put(
                    "belief"@,
                    beliefs[i].1@,
                ).object(),
        ),
    )
}

/// Beliefs as a reply lists them.
pub(crate) fn describe_beliefs(beliefs: &Vec<(String, Json)>) -> (document: Json)
    ensures
        document@ == beliefs_json(beliefs@),
{
    let mut list: Vec<Json> = Vec::new();
    let mut i: usize = 0;
    while i < beliefs.len()
        invariant
            i <= beliefs.len(),
            list.len() == i,
            forall|k: int|
                0 <= k < i ==> (#[trigger] list@[k])@ == fields().put(
                    "item_id"@,
                    JsonView::Text(beliefs@[k].0@),
                ).put("belief"@, beliefs@[k].1@).object(),
        decreases beliefs.len() - i,
    {
        list.push(
            Fields::new().with_text("item_id", &beliefs[i].0).with(
                "belief",
                beliefs[i].1.copy(),
            ).object(),
        );
        i = i + 1;
    }
    assert(json_views(list@) =~= beliefs_json(beliefs@)->Array_0);
    Json::from_list(list)
}

/// A factor graph run as a reply tells it.
pub open spec fn run_json(run: FactorGraphRun) -> JsonView {
    fields().put("enabled"@, JsonView::Bool(true)).put(
        "top_k_beliefs"@,
        beliefs_json(run.top_beliefs@),
    ).put("iterations"@, JsonView::Unsigned(run.iterations)).put(
        "converged"@,
        JsonView::Bool(run.converged),
    ).put("elapsed_ms"@, run.elapsed_ms@).put(
        "factor_counts"@,
        fields().put("semantic"@, JsonView::Unsigned(run.semantic)).put(
            "temporal"@,
            JsonView::Unsigned(run.temporal),
        ).put("causal"@, JsonView::Unsigned(run.causal)).put(
            "entity"@,
            JsonView::Unsigned(run.entity),
        ).put("total"@, JsonView::Unsigned(run.total)).object(),
    ).object()
}

/// A factor graph run as a reply tells it.
fn describe_run(run: &FactorGraphRun) -> (document: Json)
    ensures
        document@ == run_json(*run),
{
    Fields::new().with_bool("enabled", true).with(
        "top_k_beliefs",
        describe_beliefs(&run.top_beliefs),
    ).with("iterations", Json::Unsigned(run.iterations)).with_bool("converged", run.converged).with(
        "elapsed_ms",
        run.elapsed_ms.copy(),
    ).with(
        "factor_counts",
        Fields::new().with("semantic", Json::Unsigned(run.semantic)).with(
            "temporal",
            Json::Unsigned(run.temporal),
        ).with("causal", Json::Unsigned(run.causal)).with(
            "entity",
            Json::Unsigned(run.entity),
        ).with("total", Json::Unsigned(run.total)).object(),
    ).object()
}

/// The factor graph part of a reply: told only where the decoder stage is on.
/// Whether a failure is told with its reason depends on the transport.
pub open spec fn factor_graph_json(
    decoder: bool,
    outcome: FactorGraphOutcome,
    tell_failure: bool,
) -> JsonView {
    match outcome {
        FactorGraphOutcome::Ran(run) => if decoder {
            run_json(run)
        } else {
            fields().put("enabled"@, JsonView::Bool(false)).object()
        },
        FactorGraphOutcome::Failed(error) => if decoder && tell_failure {
            fields().put("enabled"@, JsonView::Bool(false)).put(
                "error"@,
                JsonView::Text("factor graph analysis failed: "@ + error@),
            ).object()
        } else {
            fields().put("enabled"@, JsonView::Bool(false)).object()
        },
        FactorGraphOutcome::NotRun => fields().put("enabled"@, JsonView::Bool(false)).object(),
    }
}

/// The factor graph part of a reply.
pub(crate) fn describe_factor_graph(decoder: bool, outcome: &FactorGraphOutcome, tell_failure: bool) -> (
document: Json)
    ensures
        document@ == factor_graph_json(decoder, *outcome, tell_failure),
{
    match outcome {
        FactorGraphOutcome::Ran(run) => {
            if decoder {
                return describe_run(run);
            }
        },
        FactorGraphOutcome::Failed(error) => {
            if decoder && tell_failure {
                return Fields::new().with_bool("enabled", false).with_text(
                    "error",
                    &cat2("factor graph analysis failed: ", error),
                ).object();
            }
        },
        FactorGraphOutcome::NotRun => {},
    }
    Fields::new().with_bool("enabled", false).object()
}

/// The decoder stage did something: it was activated, and either belief
/// propagation ran or there were contradictions to decode.
pub open spec fn decoder_ran(
    decision: RouteView,
    outcome: FactorGraphOutcome,
    contradictions: nat,
) -> bool {
    decision.decoder && (outcome is Ran || contradictions > 0)
}

/// Whether the decoder stage did something.
pub(crate) fn decoder_executed(
    decision: &RoutingDecision,
    outcome: &FactorGraphOutcome,
    contradictions: usize,
) -> (r: bool)
    ensures
        r == decoder_ran(decision@, *outcome, contradictions as nat),
{
    decision.decoder && (matches!(outcome, FactorGraphOutcome::Ran(_)) || contradictions > 0)
}

/// A second-order hit.
pub struct DiscordHit {
    pub item_id: String,
    pub discord_score: Json,
    pub anchor_ids: Vec<String>,
    pub relationship_types: Vec<String>,
    /// The fact that the item is, where it was looked up.
    pub fact: Option<FactText>,
}

/// A second-order hit as a reply tells it: with the content and the namespace
/// of its fact, where that is known.
pub open spec fn discord_hit_json(hit: DiscordHit) -> JsonView {
    let told = fields().put("result_id"@, JsonView::Text(hit.item_id@)).put(
        "discord_score"@,
        hit.discord_score@,
    ).put("anchor_ids"@, texts_json(texts(hit.anchor_ids@))).put(
        "relationship_types"@,
        texts_json(texts(hit.relationship_types@)),
    );
    match hit.fact {
        Some(fact) => told.put("content"@, JsonView::Text(fact.content@)).put(
            "namespace"@,
            JsonView::Text(fact.namespace@),
        ).object(),
        None => told.object(),
    }
}

/// A second-order hit as a reply tells it.
fn describe_hit(hit: &DiscordHit) -> (document: Json)
    ensures
        document@ == discord_hit_json(*hit),
{
    let told = Fields::new().with_text("result_id", &hit.item_id).with(
        "discord_score",
        hit.discord_score.copy(),
    ).with("anchor_ids", Json::from_texts(&hit.anchor_ids)).with(
        "relationship_types",
        Json::from_texts(&hit.relationship_types),
    );
    match &hit.fact {
        Some(fact) => told.with_text("content", &fact.content).with_text(
            "namespace",
            &fact.namespace,
        ).object(),
        None => told.object(),
    }
}

/// A hit whose fact is known is told with its content and its namespace.
pub proof fn law_known_facts_are_told(hit: DiscordHit)
    requires
        hit.fact is Some,
    ensures
        discord_hit_json(hit).member("content"@) == Some(JsonView::Text(hit.fact->0.content@)),
        discord_hit_json(hit).member("namespace"@) == Some(
            JsonView::Text(hit.fact->0.namespace@),
        ),
{
    reveal_strlit("result_id");
    reveal_strlit("discord_score");
    reveal_strlit("anchor_ids");
    reveal_strlit("relationship_types");
    reveal_strlit("content");
    reveal_strlit("namespace");
    let list = discord_hit_json(hit)->Object_0;
    assert(list.len() == 6);
    assert(list[4].0 == "content"@);
    assert(list[5].0 == "namespace"@);
    assert("result_id"@[1] == 'e' && "content"@[1] == 'o' && "namespace"@[1] == 'a');
    crate::json::lemma_field_index(list, "content"@, 4);
    crate::json::lemma_field_index(list, "namespace"@, 5);
}

/// The second-order hits that are no direct ones, in their order.
pub open spec fn new_hits(hits: Seq<DiscordHit>, direct: Seq<Seq<char>>) -> Seq<JsonView>
    decreases hits.len(),
{
    if hits.len() == 0 {
        Seq::empty()
    } else if direct.contains(hits.last().item_id@) {
        new_hits(hits.drop_last(), direct)
    } else {
        new_hits(hits.drop_last(), direct).push(discord_hit_json(hits.last()))
    }
}

/// The second-order hits that are no direct ones, in their order.
pub fn describe_new_hits(hits: &Vec<DiscordHit>, direct: &Vec<String>) -> (list: Vec<Json>)
    ensures
        json_views(list@) == new_hits(hits@, texts(direct@)),
{
    let mut list: Vec<Json> = Vec::new();
    let mut i: usize = 0;
    assert(hits@.subrange(0, 0) =~= Seq::empty());
    assert(json_views(list@) =~= Seq::empty());
    while i < hits.len()
        invariant
            i <= hits.len(),
            json_views(list@) == new_hits(hits@.subrange(0, i as int), texts(direct@)),
        decreases hits.len() - i,
    {
        let ghost before = list@;
        assert(hits@.subrange(0, i as int + 1).drop_last() =~= hits@.subrange(0, i as int));
        let hit = &hits[i];
        if !holds(direct, &hit.item_id) {
            list.push(describe_hit(hit));
            assert(json_views(list@) =~= json_views(before).push(discord_hit_json(*hit)));
        }
        i = i + 1;
    }
    assert(hits@.subrange(0, hits@.len() as int) =~= hits@);
    list
}

/// A second-order hit that is told is no direct one.
pub proof fn law_second_order_hits_are_new(
    hits: Seq<DiscordHit>,
    direct: Seq<Seq<char>>,
    i: int,
)
    requires
        0 <= i < new_hits(hits, direct).len(),
    ensures
        exists|k: int|
            0 <= k < hits.len() && new_hits(hits, direct)[i] == discord_hit_json(
                #[trigger] hits[k],
            ) && !direct.contains(hits[k].item_id@),
    decreases hits.len(),
{
    let fewer = hits.drop_last();
    let before = new_hits(fewer, direct);
    let last = hits.len() - 1;
    if i < before.len() {
        law_second_order_hits_are_new(fewer, direct, i);
        let k = choose|k: int|
            0 <= k < fewer.len() && before[i] == discord_hit_json(#[trigger] fewer[k])
                && !direct.contains(fewer[k].item_id@);
        assert(hits[k] == fewer[k]);
    } else {
        assert(!direct.contains(hits[last].item_id@));
    }
}

/// The resolution at which a routed search would look.
pub struct MatryoshkaRoute {
    pub candidate_dim: u64,
    pub estimated_recall: Json,
    pub embedding_dim: u64,
    pub reasoning: String,
}

/// What `semantic_memory::integration::multi_resolution_route` chooses for a
/// query with the default dimensions: the candidate dimension, the text of the
/// recall estimate, the embedding dimension and the reason.
pub uninterp spec fn resolution_of(query: Seq<char>) -> (u64, Seq<char>, u64, Seq<char>);

/// `semantic_memory::integration::multi_resolution_route` on the profile of a
/// query, with `MatryoshkaConfig::default()`: what it chooses depends on the
/// query alone.
#[verifier::external_body]
fn route_resolution(query: &str) -> (r: (u64, String, u64, String))
    ensures
        (r.0, r.1@, r.2, r.3@) == resolution_of(query@),
{
    let route = semantic_memory::integration::multi_resolution_route(
        &semantic_memory::routing::QueryProfile::from_query(query),
        &semantic_memory::matryoshka::MatryoshkaConfig::default(),
    );
    let recall = serde_json::to_string(&route.estimated_recall).unwrap_or_default();
    (route.candidate_dim as u64, recall, route.embedding_dim as u64, route.reasoning)
}

/// The resolution at which a query would be looked up.
pub fn choose_resolution(query: &str) -> (route: MatryoshkaRoute)
    ensures
        resolution_of(query@) == (
            route.candidate_dim,
            route.estimated_recall@->Decimal_0,
            route.embedding_dim,
            route.reasoning@,
        ),
        route.estimated_recall@ is Decimal,
{
    let (candidate_dim, recall, embedding_dim, reasoning) = route_resolution(query);
    MatryoshkaRoute { candidate_dim, estimated_recall: Json::Decimal(recall), embedding_dim, reasoning }
}

/// The resolution part of a reply: told where the vector stage is on.
pub open spec fn matryoshka_json(vector: bool, route: Option<MatryoshkaRoute>) -> JsonView {
    if vector && route is Some {
        fields().put("enabled"@, JsonView::Bool(true)).put(
            "candidate_dim"@,
            JsonView::Unsigned(route->0.candidate_dim),
        ).put("heuristic_recall_estimate"@, route->0.estimated_recall@).put(
            "recall_basis"@,
            JsonView::Text("heuristic_dimensional_model_not_corpus_measured"@),
        ).put("embedding_dim"@, JsonView::Unsigned(route->0.embedding_dim)).put(
            "reasoning"@,
            JsonView::Text(route->0.reasoning@),
        ).object()
    } else {
        fields().put("enabled"@, JsonView::Bool(false)).object()
    }
}

/// The resolution part of a reply.
fn describe_matryoshka(vector: bool, route: &Option<MatryoshkaRoute>) -> (document: Json)
    ensures
        document@ == matryoshka_json(vector, *route),
{
    if vector {
        if let Some(r) = route {
            return Fields::new().with_bool("enabled", true).with(
                "candidate_dim",
                Json::Unsigned(r.candidate_dim),
            ).with("heuristic_recall_estimate", r.estimated_recall.copy()).with_text(
                "recall_basis",
                "heuristic_dimensional_model_not_corpus_measured",
            ).with("embedding_dim", Json::Unsigned(r.embedding_dim)).with_text(
                "reasoning",
                &r.reasoning,
            ).object();
        }
    }
    Fields::new().with_bool("enabled", false).object()
}

/// Topology is looked at unasked: the query wants a synthesis, and there are
/// more than ten results.
pub open spec fn topology_triggered(class: QueryComplexityClass, results: nat) -> bool {
    class == QueryComplexityClass::Synthesis && results > 10
}

/// Whether topology is looked at unasked.
pub fn wants_topology(class: QueryComplexityClass, results: usize) -> (r: bool)
    ensures
        r == topology_triggered(class, results as nat),
{
    matches!(class, QueryComplexityClass::Synthesis) && results > 10
}

/// Pairs of texts as a reply lists them.
pub open spec fn pairs_json(pairs: Seq<(Seq<char>, Seq<char>)>) -> JsonView {
    JsonView::Array(Seq::new(pairs.len(), |i: int| texts_json(seq![pairs[i].0, pairs[i].1])))
}

/// Pairs of texts as a reply lists them.
fn describe_pairs(pairs: &Vec<(String, String)>) -> (document: Json)
    ensures
        document@ == pairs_json(pair_texts(pairs@)),
{
    let mut list: Vec<Json> = Vec::new();
    let mut i: usize = 0;
    while i < pairs.len()
        invariant
            i <= pairs.len(),
            list.len() == i,
            forall|k: int|
                0 <= k < i ==> (#[trigger] list@[k])@ == texts_json(
                    seq![pair_texts(pairs@)[k].0, pair_texts(pairs@)[k].1],
                ),
        decreases pairs.len() - i,
    {
        let pair = vec![pairs[i].0.clone(), pairs[i].1.clone()];
        assert(texts(pair@) =~= seq![pair_texts(pairs@)[i as int].0, pair_texts(pairs@)[i as int].1]);
        list.push(Json::from_texts(&pair));
        i = i + 1;
    }
    assert(json_views(list@) =~= pairs_json(pair_texts(pairs@))->Array_0);
    Json::from_list(list)
}

/// A structural gap as a reply tells it.
pub open spec fn void_json(v: StructuralVoid) -> JsonView {
    fields().put("description"@, JsonView::Text(v.description@)).put(
        "void_type"@,
        JsonView::Text(v.void_type@),
    ).put("nearby_items"@, texts_json(texts(v.nearby_items@))).put(
        "suggested_connections"@,
        pairs_json(pair_texts(v.suggested_connections@)),
    ).object()
}

/// Structural gaps as a reply lists them.
pub open spec fn voids_json(voids: Seq<StructuralVoid>) -> JsonView {
    JsonView::Array(Seq::new(voids.len(), |i: int| void_json(voids[i])))
}

/// Structural gaps as a reply lists them.
pub(crate) fn describe_voids(voids: &Vec<StructuralVoid>) -> (document: Json)
    ensures
        document@ == voids_json(voids@),
{
    let mut list: Vec<Json> = Vec::new();
    let mut i: usize = 0;
    while i < voids.len()
        invariant
            i <= voids.len(),
            list.len() == i,
            forall|k: int| 0 <= k < i ==> (#[trigger] list@[k])@ == void_json(voids@[k]),
        decreases voids.len() - i,
    {
        let v = &voids[i];
        list.push(
            Fields::new().with_text("description", &v.description).with_text(
                "void_type",
                &v.void_type,
            ).with("nearby_items", Json::from_texts(&v.nearby_items)).with(
                "suggested_connections",
                describe_pairs(&v.suggested_connections),
            ).object(),
        );
        i = i + 1;
    }
    assert(json_views(list@) =~= voids_json(voids@)->Array_0);
    Json::from_list(list)
}

/// The Betti numbers of the graph with the given edges, as a reply tells them.
pub open spec fn betti_json(edges: Seq<(Seq<char>, Seq<char>)>) -> JsonView {
    let betti = betti_counts(adjacency_of(edges));
    fields().put("betti_0"@, JsonView::Unsigned(betti.0 as u64)).put(
        "betti_1"@,
        JsonView::Unsigned(betti.1 as u64),
    ).object()
}

/// The Betti numbers of the graph with the given edges, as a reply tells them.
pub fn describe_betti(edges: &Vec<(String, String)>) -> (document: Json)
    ensures
        document@ == betti_json(pair_texts(edges@)),
{
    let betti = betti_numbers(&adjacency(edges));
    Fields::new().with_count("betti_0", betti.0).with_count("betti_1", betti.1).object()
}

/// The topology part of a reply, with the gaps that were found.
pub open spec fn topology_json(
    triggered: bool,
    edges: Seq<(Seq<char>, Seq<char>)>,
    voids: Seq<StructuralVoid>,
) -> JsonView {
    let called = fields().put("auto_called"@, JsonView::Bool(true)).put(
        "trigger"@,
        JsonView::Text("synthesis_class_with_10_plus_results"@),
    );
    if !triggered {
        fields().put("auto_called"@, JsonView::Bool(false)).object()
    } else if edges.len() == 0 {
        called.put("note"@, JsonView::Text("no graph edges in store"@)).object()
    } else {
        called.put("betti_numbers"@, betti_json(edges)).put(
            "void_count"@,
            JsonView::Unsigned(voids.len() as u64),
        ).put("voids"@, voids_json(voids)).object()
    }
}

/// The topology part of a reply.
pub fn describe_topology(triggered: bool, edges: &Vec<(String, String)>) -> (document: Json)
    ensures
        exists|voids: Seq<StructuralVoid>|
            document@ == #[trigger] topology_json(triggered, pair_texts(edges@), voids) && (
            triggered ==> are_voids_of(voids, pair_texts(edges@))),
{
    if !triggered {
        let document = Fields::new().with_bool("auto_called", false).object();
        assert(document@ == topology_json(triggered, pair_texts(edges@), Seq::empty()));
        return document;
    }
    let called = Fields::new().with_bool("auto_called", true).with_text(
        "trigger",
        "synthesis_class_with_10_plus_results",
    );
    let voids = find_voids(edges).voids;
    if edges.len() == 0 {
        let document = called.with_text("note", "no graph edges in store").object();
        assert(document@ == topology_json(triggered, pair_texts(edges@), voids@));
        return document;
    }
    let document = called.with("betti_numbers", describe_betti(edges)).with_count(
        "void_count",
        voids.len(),
    ).with("voids", describe_voids(&voids)).object();
    assert(document@ == topology_json(triggered, pair_texts(edges@), voids@));
    document
}

/// The grouping part of a reply: the results by community where grouping was
/// asked for and communities were found, else null.
pub open spec fn grouping_json(
    asked: bool,
    results: Seq<JsonView>,
    communities: Option<Vec<Community>>,
) -> JsonView {
    if asked && communities is Some {
        grouped_json(grouped(results, communities->0@))
    } else {
        JsonView::Null
    }
}

/// The grouping part of a reply.
pub fn describe_grouping(
    asked: bool,
    results: &Vec<Json>,
    communities: &Option<Vec<Community>>,
) -> (document: Json)
    ensures
        document@ == grouping_json(asked, json_views(results@), *communities),
{
    if asked {
        if let Some(list) = communities {
            return group_results(results, list);
        }
    }
    Json::Null
}

/// Communities are looked for where grouping was asked for and the
/// neighbourhood has edges.
pub fn wants_communities(asked: bool, edges: &Vec<(String, String)>) -> (r: bool)
    ensures
        r == (asked && edges@.len() > 0),
{
    asked && edges.len() > 0
}

/// Communities by their identifiers and members.
pub open spec fn group_views(communities: Seq<Community>) -> Seq<(Seq<char>, Seq<Seq<char>>)> {
    Seq::new(communities.len(), |i: int| (communities[i].id@, texts(communities[i].members@)))
}

/// The communities of a graph by their identifiers and members.
pub open spec fn default_groups(edges: Seq<(Seq<char>, Seq<char>)>) -> Seq<
    (Seq<char>, Seq<Seq<char>>),
> {
    let found = default_communities(edges);
    Seq::new(found.len(), |i: int| (found[i].0, found[i].1))
}

/// The communities that results are grouped by, given the edges around them:
/// none where grouping was not asked for or there are no edges.
pub fn result_communities(asked: bool, edges: &Vec<(String, String)>) -> (communities: Option<
    Vec<Community>,
>)
    ensures
        (match communities {
            Some(list) => asked && edges@.len() > 0 && group_views(list@) == default_groups(
                pair_texts(edges@),
            ),
            None => !asked || edges@.len() == 0,
        }),
{
    if !wants_communities(asked, edges) {
        return None;
    }
    let found = usual_communities(edges);
    let ghost all = default_groups(pair_texts(edges@));
    let mut list: Vec<Community> = Vec::new();
    let mut i: usize = 0;
    while i < found.len()
        invariant
            i <= found@.len(),
            community_views(found@) == default_communities(pair_texts(edges@)),
            all == default_groups(pair_texts(edges@)),
            list@.len() == i,
            forall|j: int| 0 <= j < i ==> #[trigger] group_views(list@)[j] == all[j],
        decreases found.len() - i,
    {
        let ghost before = list@;
        list.push(Community { id: found[i].id.clone(), members: copy_texts(&found[i].members) });
        assert(all[i as int] == (
            community_views(found@)[i as int].0,
            community_views(found@)[i as int].1,
        ));
        assert forall|j: int| 0 <= j < i + 1 implies #[trigger] group_views(list@)[j] == all[j] by {
            if j < i {
                assert(group_views(list@)[j] == group_views(before)[j]);
            }
        }
        i += 1;
    }
    assert(community_views(found@).len() == found@.len());
    assert(group_views(list@) =~= all);
    Some(list)
}

/// What a routed search found at its stages.
pub struct RoutedFindings {
    pub selected: SelectedRoute,
    pub factor_graph: FactorGraphOutcome,
    /// The second-order hits; missing where their edges could not be loaded.
    pub discord: Option<Vec<DiscordHit>>,
    pub matryoshka: Option<MatryoshkaRoute>,
    pub group_by_community: bool,
    pub communities: Option<Vec<Community>>,
}

/// The discord stage did something: it was activated and its edges were there.
pub open spec fn discord_ran(decision: RouteView, discord: Option<Vec<DiscordHit>>) -> bool {
    decision.discord && discord is Some
}

/// The second-order part of a reply.
pub open spec fn discord_json(
    decision: RouteView,
    discord: Option<Vec<DiscordHit>>,
    direct: Seq<Seq<char>>,
) -> JsonView {
    if discord_ran(decision, discord) {
        JsonView::Array(new_hits(discord->0@, direct))
    } else {
        JsonView::Array(Seq::empty())
    }
}

/// The second-order part of a reply.
pub(crate) fn describe_discord(
    decision: &RoutingDecision,
    discord: &Option<Vec<DiscordHit>>,
    direct: &Vec<String>,
) -> (document: Json)
    ensures
        document@ == discord_json(decision@, *discord, texts(direct@)),
{
    if decision.discord {
        if let Some(hits) = discord {
            return Json::from_list(describe_new_hits(hits, direct));
        }
    }
    let none: Vec<Json> = Vec::new();
    assert(json_views(none@) =~= Seq::empty());
    Json::from_list(none)
}

/// A hit as routed search replies with it.
pub open spec fn routed_hit_json(hit: SearchHit) -> JsonView {
    fields().put("result_id"@, JsonView::Text(hit.result_id@)).put(
        "content"@,
        JsonView::Text(hit.content@),
    ).put("score"@, hit.score@).object()
}

/// The hits that a routed search shows, in their order.
pub open spec fn routed_results(hits: Seq<SearchHit>, shown: Seq<int>, k: int) -> Seq<JsonView> {
    let kept = first_of(shown, k);
    Seq::new(kept.len(), |i: int| routed_hit_json(hits[kept[i]]))
}

/// A routed search shows the first `k` of the hits that it has to show, or all
/// of them where there are fewer, in their order and as they were found.
pub proof fn law_routed_searches_show_the_first(hits: Seq<SearchHit>, shown: Seq<int>, k: u64)
    ensures
        crate::search::shows_first(routed_results(hits, shown, k as int), hits, shown, k as int),
{
    broadcast use crate::json::lemma_put_member, crate::json::lemma_no_member;

    reveal_strlit("result_id");
    reveal_strlit("content");
    reveal_strlit("score");
    assert("result_id"@.len() == 9 && "content"@.len() == 7 && "score"@.len() == 5);
}

/// Every offset is one of a hit.
pub open spec fn in_range(shown: Seq<usize>, hits: nat) -> bool {
    shown.len() <= hits && forall|i: int| 0 <= i < shown.len() ==> (#[trigger] shown[i]) < hits
}

/// The hits that a routed search shows, in their order.
fn describe_routed(hits: &Vec<SearchHit>, shown: &Vec<usize>, k: u64) -> (results: Vec<Json>)
    requires
        in_range(shown@, hits@.len()),
    ensures
        json_views(results@) == routed_results(hits@, offsets(shown@), k as int),
{
    let mut results: Vec<Json> = Vec::new();
    let ghost kept = first_of(offsets(shown@), k as int);
    let mut i: usize = 0;
    while i < shown.len() && (i as u64) < k
        invariant
            i <= shown.len(),
            i <= k,
            in_range(shown@, hits@.len()),
            kept == first_of(offsets(shown@), k as int),
            results.len() == i,
            forall|j: int|
                0 <= j < i ==> (#[trigger] results@[j])@ == routed_hit_json(hits@[kept[j]]),
        decreases shown.len() - i,
    {
        let hit = &hits[shown[i]];
        results.push(
            Fields::new().with_text("result_id", &hit.result_id).with_text(
                "content",
                &hit.content,
            ).with("score", hit.score.copy()).object(),
        );
        i = i + 1;
    }
    assert(kept.len() == i);
    assert(json_views(results@) =~= routed_results(hits@, offsets(shown@), k as int));
    results
}

/// The identifiers of the hits at the given offsets.
pub open spec fn shown_ids(hits: Seq<SearchHit>, shown: Seq<int>) -> Seq<Seq<char>> {
    Seq::new(shown.len(), |i: int| hits[shown[i]].result_id@)
}

/// The identifiers of the hits at the given offsets.
pub fn ids_at(hits: &Vec<SearchHit>, shown: &Vec<usize>) -> (ids: Vec<String>)
    requires
        in_range(shown@, hits@.len()),
    ensures
        texts(ids@) == shown_ids(hits@, offsets(shown@)),
{
    let mut ids: Vec<String> = Vec::new();
    let mut i: usize = 0;
    while i < shown.len()
        invariant
            i <= shown.len(),
            in_range(shown@, hits@.len()),
            ids.len() == i,
            forall|j: int| 0 <= j < i ==> (#[trigger] ids@[j])@ == hits@[shown@[j] as int].result_id@,
        decreases shown.len() - i,
    {
        ids.push(hits[shown[i]].result_id.clone());
        i = i + 1;
    }
    assert(texts(ids@) =~= shown_ids(hits@, offsets(shown@)));
    ids
}

/// The reply of a routed search over MCP, but for its topology part. Syndrome
/// decoding is a tool of its own: this search never runs it.
pub open spec fn routed_fields(
    hits: Seq<SearchHit>,
    shown: Seq<int>,
    k: int,
    found: RoutedFindings,
) -> FieldsView {
    let decision = found.selected.decision@;
    let results = routed_results(hits, shown, k);
    fields().put("ok"@, JsonView::Bool(true)).put(
        "routing_decision"@,
        selected_json(decision, found.selected.trained),
    ).put("results"@, JsonView::Array(results)).put(
        "count"@,
        JsonView::Unsigned(results.len() as u64),
    ).put(
        "superseded_filtered_count"@,
        JsonView::Unsigned((hits.len() - shown.len()) as u64),
    ).put("decoder_planned"@, JsonView::Bool(decision.decoder)).put(
        "decoder_executed"@,
        JsonView::Bool(false),
    ).put("discord_planned"@, JsonView::Bool(decision.discord)).put(
        "discord_executed"@,
        JsonView::Bool(discord_ran(decision, found.discord)),
    ).put("discord_results"@, discord_json(decision, found.discord, shown_ids(hits, shown))).put(
        "factor_graph"@,
        factor_graph_json(decision.decoder, found.factor_graph, true),
    ).put("matryoshka"@, matryoshka_json(decision.vector_medium, found.matryoshka)).put(
        "grouped_results"@,
        grouping_json(found.group_by_community, results, found.communities),
    )
}

/// The reply of a routed search over MCP for `k` results: the hits at the
/// offsets that are shown, and what the stages found. `edges` are the stored
/// edges, which topology looks at.
pub fn finish_routed_search(
    query: &str,
    hits: &Vec<SearchHit>,
    shown: &Vec<usize>,
    k: u64,
    found: &RoutedFindings,
    edges: &Vec<(String, String)>,
) -> (reply: Json)
    requires
        in_range(shown@, hits@.len()),
    ensures
        exists|voids: Seq<StructuralVoid>|
            reply@ == routed_fields(hits@, offsets(shown@), k as int, *found).put(
                "topology"@,
                #[trigger] topology_json(
                    topology_triggered(complexity_of(query@), shown@.len()),
                    pair_texts(edges@),
                    voids,
                ),
            ).object() && (topology_triggered(complexity_of(query@), shown@.len())
                ==> are_voids_of(voids, pair_texts(edges@))),
{
    let decision = &found.selected.decision;
    let results = describe_routed(hits, shown, k);
    let direct = ids_at(hits, shown);
    let discord = decision.discord && found.discord.is_some();
    let triggered = wants_topology(query_complexity(query), shown.len());
    let topology = describe_topology(triggered, edges);
    let grouping = describe_grouping(found.group_by_community, &results, &found.communities);
    let count = results.len();
    Fields::new().with_bool("ok", true).with(
        "routing_decision",
        describe_selected(&found.selected),
    ).with("results", Json::from_list(results)).with_count("count", count).with_count(
        "superseded_filtered_count",
        hits.len() - shown.len(),
    ).with_bool("decoder_planned", decision.decoder).with_bool("decoder_executed", false).with_bool(
        "discord_planned",
        decision.discord,
    ).with_bool("discord_executed", discord).with(
        "discord_results",
        describe_discord(decision, &found.discord, &direct),
    ).with(
        "factor_graph",
        describe_factor_graph(decision.decoder, &found.factor_graph, true),
    ).with("matryoshka", describe_matryoshka(decision.vector_medium, &found.matryoshka)).with(
        "grouped_results",
        grouping,
    ).with("topology", topology).object()
}

/// A routed search over MCP never reports the decoder as executed, whatever was
/// planned.
pub proof fn law_routed_search_never_decodes(
    hits: Seq<SearchHit>,
    shown: Seq<int>,
    k: int,
    found: RoutedFindings,
    topology: JsonView,
)
    ensures
        routed_fields(hits, shown, k, found).put("topology"@, topology).object().member(
            "decoder_executed"@,
        ) == Some(JsonView::Bool(false)),
{
    reveal_strlit("ok");
    reveal_strlit("routing_decision");
    reveal_strlit("results");
    reveal_strlit("count");
    reveal_strlit("superseded_filtered_count");
    reveal_strlit("decoder_planned");
    reveal_strlit("decoder_executed");
    let document = routed_fields(hits, shown, k, found).put("topology"@, topology).object();
    let list = document->Object_0;
    assert(list.len() == 14);
    assert(list[6].0 == "decoder_executed"@);
    assert("routing_decision"@[0] == 'r' && "decoder_executed"@[0] == 'd');
    assert("decoder_executed"@.len() == 16);
    assert("ok"@.len() == 2 && "results"@.len() == 7 && "count"@.len() == 5);
    assert("superseded_filtered_count"@.len() == 25 && "decoder_planned"@.len() == 15);
    crate::json::lemma_field_index(list, "decoder_executed"@, 6);
}

/// A stage that the routing decision left off is never reported as executed.
pub proof fn law_only_planned_stages_execute(
    decision: RouteView,
    factor_graph: FactorGraphOutcome,
    contradictions: nat,
    discord: Option<Vec<DiscordHit>>,
)
    ensures
        decoder_ran(decision, factor_graph, contradictions) ==> decision.decoder,
        discord_ran(decision, discord) ==> decision.discord,
{
}

/// Every second-order hit that is no direct one is told, and no other, in the
/// order of the hits. `offsets` lists those hits.
pub proof fn law_new_hits_are_complete(hits: Seq<DiscordHit>, direct: Seq<Seq<char>>) -> (offsets: Seq<
    int,
>)
    ensures
        new_hits(hits, direct).len() == offsets.len(),
        forall|n: int|
            0 <= n < offsets.len() ==> 0 <= #[trigger] offsets[n] < hits.len() && new_hits(
                hits,
                direct,
            )[n] == discord_hit_json(hits[offsets[n]]),
        forall|n: int, m: int|
            0 <= n < m < offsets.len() ==> #[trigger] offsets[n] < #[trigger] offsets[m],
        forall|i: int|
            0 <= i < hits.len() ==> (offsets.contains(i) <==> !direct.contains(
                (#[trigger] hits[i]).item_id@,
            )),
    decreases hits.len(),
{
    if hits.len() == 0 {
        Seq::empty()
    } else {
        let fewer = hits.drop_last();
        let last = hits.len() - 1;
        let before = law_new_hits_are_complete(fewer, direct);
        let offsets = if direct.contains(hits.last().item_id@) {
            before
        } else {
            before.push(last)
        };
        assert forall|n: int| 0 <= n < offsets.len() implies 0 <= #[trigger] offsets[n] < hits.len()
            && new_hits(hits, direct)[n] == discord_hit_json(hits[offsets[n]]) by {
            if n < before.len() {
                assert(before[n] == offsets[n]);
                assert(fewer[before[n]] == hits[before[n]]);
            }
        }
        assert forall|n: int, m: int| 0 <= n < m < offsets.len() implies #[trigger] offsets[n]
            < #[trigger] offsets[m] by {
            assert(before[n] == offsets[n]);
            if m < before.len() {
                assert(before[m] == offsets[m]);
            }
        }
        assert forall|i: int| 0 <= i < hits.len() implies (offsets.contains(i)
            <==> !direct.contains((#[trigger] hits[i]).item_id@)) by {
            if i < last {
                assert(fewer[i] == hits[i]);
                if before.contains(i) {
                    let n = choose|n: int| 0 <= n < before.len() && before[n] == i;
                    assert(offsets[n] == i);
                }
                if offsets.contains(i) {
                    let n = choose|n: int| 0 <= n < offsets.len() && offsets[n] == i;
                    if n < before.len() {
                        assert(before[n] == i);
                    }
                }
            } else {
                if offsets.contains(i) {
                    let n = choose|n: int| 0 <= n < offsets.len() && offsets[n] == i;
                    if n < before.len() {
                        assert(before[n] < fewer.len());
                    }
                }
                if !direct.contains(hits[i].item_id@) {
                    assert(offsets[before.len() as int] == i);
                }
            }
        }
        offsets
    }
}

/// A second-order hit is told by its item, its score and its anchors.
pub proof fn law_second_order_hits_are_told(hit: DiscordHit)
    ensures
        discord_hit_json(hit).text_member("result_id"@) == Some(hit.item_id@),
        discord_hit_json(hit).member("discord_score"@) == Some(hit.discord_score@),
        discord_hit_json(hit).member("anchor_ids"@) == Some(texts_json(texts(hit.anchor_ids@))),
        discord_hit_json(hit).member("relationship_types"@) == Some(
            texts_json(texts(hit.relationship_types@)),
        ),
        discord_hit_json(hit).member("content"@) is Some <==> hit.fact is Some,
{
    reveal_strlit("result_id");
    reveal_strlit("discord_score");
    reveal_strlit("anchor_ids");
    reveal_strlit("relationship_types");
    reveal_strlit("content");
    assert("result_id"@.len() == 9 && "discord_score"@.len() == 13 && "anchor_ids"@.len() == 10);
    assert("relationship_types"@.len() == 18 && "content"@.len() == 7);
    broadcast use crate::json::lemma_put_member, crate::json::lemma_no_member;

}

/// A decision is told stage by stage, with what made it.
pub proof fn law_decisions_are_told(decision: RouteView, trained: bool)
    ensures
        ({
            let told = selected_json(decision, trained);
            &&& told.true_member("bm25_coarse"@) <==> decision.bm25_coarse
            &&& told.true_member("vector_medium"@) <==> decision.vector_medium
            &&& told.true_member("rerank_fine"@) <==> decision.rerank_fine
            &&& told.true_member("graph_expansion"@) <==> decision.graph_expansion
            &&& told.true_member("decoder"@) <==> decision.decoder
            &&& told.true_member("discord"@) <==> decision.discord
            &&& told.true_member("no_retrieval"@) <==> decision.no_retrieval
            &&& told.text_member("reasoning"@) == Some(decision.reasoning)
            &&& told.text_member("source"@) == Some("trained_policy"@) <==> trained
        }),
{
    reveal_strlit("source");
    reveal_strlit("bm25_coarse");
    reveal_strlit("vector_medium");
    reveal_strlit("rerank_fine");
    reveal_strlit("graph_expansion");
    reveal_strlit("decoder");
    reveal_strlit("discord");
    reveal_strlit("no_retrieval");
    reveal_strlit("reasoning");
    reveal_strlit("trained_policy");
    reveal_strlit("heuristic");
    assert("trained_policy"@.len() == 14 && "heuristic"@.len() == 9);
    assert("source"@.len() == 6 && "bm25_coarse"@.len() == 11 && "vector_medium"@.len() == 13);
    assert("rerank_fine"@.len() == 11 && "graph_expansion"@.len() == 15);
    assert("bm25_coarse"@[0] == 'b' && "rerank_fine"@[0] == 'r');
    assert("decoder"@.len() == 7 && "discord"@.len() == 7 && "no_retrieval"@.len() == 12);
    assert("decoder"@[1] == 'e' && "discord"@[1] == 'i' && "reasoning"@.len() == 9);
    broadcast use crate::json::lemma_put_member, crate::json::lemma_no_member;

}

/// What a stage found is told just where the decision switched the stage on and
/// there is something to tell.
pub proof fn law_stages_are_told_where_they_ran(
    decision: RouteView,
    outcome: FactorGraphOutcome,
    tell_failure: bool,
    route: Option<MatryoshkaRoute>,
    discord: Option<Vec<DiscordHit>>,
    direct: Seq<Seq<char>>,
    contradictions: nat,
)
    ensures
        factor_graph_json(decision.decoder, outcome, tell_failure).true_member("enabled"@)
            <==> decision.decoder && outcome is Ran,
        matryoshka_json(decision.vector_medium, route).true_member("enabled"@)
            <==> decision.vector_medium && route is Some,
        decision.discord && discord is Some ==> discord_json(decision, discord, direct)
            == JsonView::Array(new_hits(discord->0@, direct)),
        !(decision.discord && discord is Some) ==> discord_json(decision, discord, direct)
            == JsonView::Array(Seq::empty()),
        decoder_ran(decision, outcome, contradictions) <==> decision.decoder && (outcome is Ran
            || contradictions > 0),
        discord_ran(decision, discord) <==> decision.discord && discord is Some,
{
    broadcast use crate::json::lemma_put_member, crate::json::lemma_no_member;

}

/// Topology is looked at unasked just for a synthesis with more than ten
/// results, and the reply says whether it was.
pub proof fn law_topology_is_for_broad_syntheses(
    class: QueryComplexityClass,
    results: nat,
    edges: Seq<(Seq<char>, Seq<char>)>,
    voids: Seq<StructuralVoid>,
)
    ensures
        topology_triggered(class, results) <==> class == QueryComplexityClass::Synthesis && results
            >= 11,
        topology_json(topology_triggered(class, results), edges, voids).true_member(
            "auto_called"@,
        ) <==> topology_triggered(class, results),
        topology_triggered(class, results) && edges.len() > 0 ==> topology_json(
            true,
            edges,
            voids,
        ).member("void_count"@) == Some(JsonView::Unsigned(voids.len() as u64)),
{
    reveal_strlit("auto_called");
    reveal_strlit("trigger");
    reveal_strlit("note");
    reveal_strlit("betti_numbers");
    reveal_strlit("void_count");
    assert("auto_called"@.len() == 11 && "trigger"@.len() == 7 && "note"@.len() == 4);
    assert("betti_numbers"@.len() == 13 && "void_count"@.len() == 10);
    broadcast use crate::json::lemma_put_member, crate::json::lemma_no_member;

}

/// The reply of a routed search holds the results that it shows and counts them,
/// says how many hits were filtered out, and tells the second-order hits where
/// that stage ran.
pub proof fn law_routed_replies_hold_what_is_shown(
    hits: Seq<SearchHit>,
    shown: Seq<int>,
    k: u64,
    found: RoutedFindings,
    topology: JsonView,
)
    ensures
        ({
            let reply = routed_fields(hits, shown, k as int, found).put(
                "topology"@,
                topology,
            ).object();
            let decision = found.selected.decision@;
            &&& reply.true_member("ok"@)
            &&& reply.member("results"@) matches Some(JsonView::Array(results))
                && crate::search::shows_first(results, hits, shown, k as int) && reply.member(
                "count"@,
            ) == Some(JsonView::Unsigned(results.len() as u64))
            &&& reply.member("superseded_filtered_count"@) == Some(
                JsonView::Unsigned((hits.len() - shown.len()) as u64),
            )
            &&& reply.true_member("decoder_planned"@) <==> decision.decoder
            &&& reply.true_member("discord_planned"@) <==> decision.discord
            &&& reply.true_member("discord_executed"@) <==> decision.discord
                && found.discord is Some
        }),
{
    law_routed_searches_show_the_first(hits, shown, k);
    reveal_strlit("ok");
    reveal_strlit("routing_decision");
    reveal_strlit("results");
    reveal_strlit("count");
    reveal_strlit("superseded_filtered_count");
    reveal_strlit("decoder_planned");
    reveal_strlit("decoder_executed");
    reveal_strlit("discord_planned");
    reveal_strlit("discord_executed");
    assert("ok"@.len() == 2 && "results"@.len() == 7 && "count"@.len() == 5);
    assert("routing_decision"@.len() == 16 && "routing_decision"@[0] == 'r');
    assert("superseded_filtered_count"@.len() == 25);
    assert("decoder_planned"@.len() == 15 && "decoder_planned"@[1] == 'e');
    assert("discord_planned"@.len() == 15 && "discord_planned"@[1] == 'i');
    assert("decoder_executed"@.len() == 16 && "decoder_executed"@[1] == 'e');
    assert("discord_executed"@.len() == 16 && "discord_executed"@[1] == 'i');
    assert("decoder_executed"@[0] == 'd' && "discord_executed"@[0] == 'd');
    broadcast use crate::json::lemma_put_member, crate::json::lemma_no_member;

}

/// Every belief is told, in its order, with the item that it is about.
pub proof fn law_beliefs_are_told(beliefs: Seq<(String, Json)>, i: int)
    ensures
        beliefs_json(beliefs) matches JsonView::Array(list) && list.len() == beliefs.len() && (0
            <= i < list.len() ==> list[i].text_member("item_id"@) == Some(beliefs[i].0@)
            && list[i].member("belief"@) == Some(beliefs[i].1@)),
{
    reveal_strlit("item_id");
    reveal_strlit("belief");
    assert("item_id"@.len() == 7 && "belief"@.len() == 6);
    broadcast use crate::json::lemma_put_member, crate::json::lemma_no_member;

}

/// The topology is told only where it was triggered, and without gaps where there
/// are no edges.
pub proof fn law_topology_is_told_where_triggered(
    triggered: bool,
    edges: Seq<(Seq<char>, Seq<char>)>,
    voids: Seq<StructuralVoid>,
)
    ensures
        ({
            let told = topology_json(triggered, edges, voids);
            &&& told.true_member("auto_called"@) <==> triggered
            &&& told.member("void_count"@) is Some <==> triggered && edges.len() > 0
            &&& triggered && edges.len() > 0 ==> told.member("void_count"@) == Some(
                JsonView::Unsigned(voids.len() as u64),
            ) && told.member("voids"@) == Some(voids_json(voids))
        }),
{
    reveal_strlit("auto_called");
    reveal_strlit("trigger");
    reveal_strlit("note");
    reveal_strlit("betti_numbers");
    reveal_strlit("void_count");
    reveal_strlit("voids");
    assert("auto_called"@.len() == 11 && "trigger"@.len() == 7 && "note"@.len() == 4);
    assert("betti_numbers"@.len() == 13 && "void_count"@.len() == 10 && "voids"@.len() == 5);
    broadcast use crate::json::lemma_put_member, crate::json::lemma_no_member;

}

/// Results are grouped only where that was asked for and communities were found.
pub proof fn law_results_are_grouped_where_asked(
    asked: bool,
    results: Seq<JsonView>,
    communities: Option<Vec<Community>>,
)
    ensures
        !asked || communities is None ==> grouping_json(asked, results, communities)
            == JsonView::Null,
        asked && communities is Some ==> grouping_json(asked, results, communities) == grouped_json(
            grouped(results, communities->0@),
        ),
{
}

/// A routed hit is told by its identifier, with its content and its score.
pub proof fn law_routed_hits_are_told(hit: SearchHit)
    ensures
        routed_hit_json(hit).text_member("result_id"@) == Some(hit.result_id@),
        routed_hit_json(hit).text_member("content"@) == Some(hit.content@),
        routed_hit_json(hit).member("score"@) == Some(hit.score@),
{
    reveal_strlit("result_id");
    reveal_strlit("content");
    reveal_strlit("score");
    assert("result_id"@.len() == 9 && "content"@.len() == 7 && "score"@.len() == 5);
    broadcast use crate::json::lemma_put_member, crate::json::lemma_no_member;

}

}
