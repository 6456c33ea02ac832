//! The tools on the knowledge graph: its edges, its shape, its communities and
//! the beliefs that spread over it.
use crate::graph::{
    are_voids_of,
    find_voids,
    lemma_empty_graph,
    void_report,
    EdgeKind,
    EdgeRecord,
    StructuralVoid,
};
use crate::json::{
    fields,
    json_views,
    optional_text_json,
    pair_texts,
    parse_document,
    read_document,
    texts_json,
    Fields,
    Json,
    JsonView,
};
use crate::lifecycle::{
    at_most,
    community_views,
    conflicts_within,
    describe_conflicts,
    maintain_subgraphs,
    maintenance_summary,
    parts_pruned,
    scan_communities,
    subgraphs_identified,
    DetectedCommunity,
    PrunedSubgraph,
};
use crate::routing::{betti_json, describe_betti, describe_voids, voids_json, DiscordHit};
use crate::text::{
    cat2,
    cat3,
    copy_texts,
    join,
    joined,
    optional_text,
    same_text,
    texts,
    trim,
    trimmed,
};
use crate::tools::EdgeType;
use vstd::prelude::*;

verus! {

/// What a request says of an edge of its type.
pub struct EdgeDetails {
    pub cosine_similarity: Option<Json>,
    pub delta_secs: Option<u64>,
    pub confidence: Option<Json>,
    pub evidence_ids: Option<Vec<String>>,
    pub relation: Option<String>,
}

/// One half: what a missing similarity or confidence counts as.
pub open spec fn one_half() -> JsonView {
    JsonView::Decimal("0.5"@)
}

/// What a number says, or one half where it is missing.
pub open spec fn number_or_half(number: Option<Json>) -> JsonView {
    match number {
        Some(number) => number@,
        None => one_half(),
    }
}

/// Whether an edge is of the type and the details that a request names. A
/// missing similarity or confidence is one half, a missing distance zero, a
/// missing relation "related".
pub open spec fn edge_requested(kind: EdgeKind, edge_type: EdgeType, details: EdgeDetails) -> bool {
    match (edge_type, kind) {
        (EdgeType::Semantic, EdgeKind::Semantic { cosine_similarity }) => cosine_similarity@
            == number_or_half(details.cosine_similarity),
        (EdgeType::Temporal, EdgeKind::Temporal { delta_secs }) => delta_secs == (
        match details.delta_secs {
            Some(secs) => secs,
            None => 0,
        }),
        (EdgeType::Causal, EdgeKind::Causal { confidence, evidence_ids }) => confidence@
            == number_or_half(details.confidence) && texts(evidence_ids@) == (
        match details.evidence_ids {
            Some(ids) => texts(ids@),
            None => Seq::empty(),
        }),
        (EdgeType::Entity, EdgeKind::Entity { relation }) => relation@ == (
        match optional_text(details.relation) {
            Some(relation) => relation,
            None => "related"@,
        }),
        _ => false,
    }
}

/// A number, or one half where it is missing.
fn half_unless(number: &Option<Json>) -> (r: Json)
    ensures
        r@ == number_or_half(*number),
{
    match number {
        Some(number) => number.copy(),
        None => Json::Decimal("0.5".to_owned()),
    }
}

/// The edge that a request names.
pub fn requested_edge(edge_type: EdgeType, details: &EdgeDetails) -> (kind: EdgeKind)
    ensures
        edge_requested(kind, edge_type, *details),
{
    match edge_type {
        EdgeType::Semantic => EdgeKind::Semantic {
            cosine_similarity: half_unless(&details.cosine_similarity),
        },
        EdgeType::Temporal => EdgeKind::Temporal {
            delta_secs: match details.delta_secs {
                Some(secs) => secs,
                None => 0,
            },
        },
        EdgeType::Causal => {
            let evidence_ids = match &details.evidence_ids {
                Some(ids) => copy_texts(ids),
                None => Vec::new(),
            };
            assert(details.evidence_ids is None ==> texts(evidence_ids@) =~= Seq::empty());
            EdgeKind::Causal { confidence: half_unless(&details.confidence), evidence_ids }
        },
        EdgeType::Entity => EdgeKind::Entity {
            relation: match &details.relation {
                Some(relation) => relation.clone(),
                None => "related".to_owned(),
            },
        },
    }
}

/// What is kept beside an edge: nothing, or the document that the request
/// gives. A text that is no document is refused.
pub fn edge_metadata(metadata: &Option<String>) -> (r: Result<Option<Json>, String>)
    ensures
        (match optional_text(*metadata) {
            None => r matches Ok(None),
            Some(text) => match (read_document(text), r) {
                (Ok(document), Ok(Some(kept))) => kept@ == document,
                (Err(fault), Err(message)) => message@ == "metadata is not valid JSON: "@ + fault,
                _ => false,
            },
        }),
{
    match metadata {
        None => Ok(None),
        Some(text) => match parse_document(text) {
            Ok(document) => Ok(Some(document)),
            Err(message) => Err(cat2("metadata is not valid JSON: ", &message)),
        },
    }
}

/// An edge as the store keeps it.
pub struct StoredEdge {
    pub id: String,
    pub source: String,
    pub target: String,
    pub edge_type: String,
    pub weight: Json,
    pub metadata: Json,
    pub content_digest: Json,
    pub recorded_at: String,
}

/// What a reply tells of an edge that was added.
pub open spec fn added_edge_json(edge: StoredEdge, receipt: JsonView) -> JsonView {
    fields().put("ok"@, JsonView::Bool(true)).put("receipt"@, receipt).put(
        "id"@,
        JsonView::Text(edge.id@),
    ).put("source"@, JsonView::Text(edge.source@)).put(
        "target"@,
        JsonView::Text(edge.target@),
    ).put("edge_type"@, JsonView::Text(edge.edge_type@)).put("weight"@, edge.weight@).put(
        "content_digest"@,
        edge.content_digest@,
    ).put("recorded_at"@, JsonView::Text(edge.recorded_at@)).put(
        "message"@,
        JsonView::Text("Graph edge added successfully"@),
    ).object()
}

/// The reply to an edge that was added.
pub fn finish_add_edge(edge: &StoredEdge, receipt: Json) -> (reply: Json)
    ensures
        reply@ == added_edge_json(*edge, receipt@),
{
    Fields::new().with_bool("ok", true).with("receipt", receipt).with_text("id", &edge.id).with_text(
        "source",
        &edge.source,
    ).with_text("target", &edge.target).with_text("edge_type", &edge.edge_type).with(
        "weight",
        edge.weight.copy(),
    ).with("content_digest", edge.content_digest.copy()).with_text(
        "recorded_at",
        &edge.recorded_at,
    ).with_text("message", "Graph edge added successfully").object()
}

/// An edge as a listing tells it.
pub open spec fn listed_edge_json(edge: StoredEdge) -> JsonView {
    fields().put("id"@, JsonView::Text(edge.id@)).put("source"@, JsonView::Text(edge.source@)).put(
        "target"@,
        JsonView::Text(edge.target@),
    ).put("edge_type"@, JsonView::Text(edge.edge_type@)).put("weight"@, edge.weight@).put(
        "metadata"@,
        edge.metadata@,
    ).put("recorded_at"@, JsonView::Text(edge.recorded_at@)).object()
}

/// The reply to a listing of edges.
pub fn finish_list_edges(edges: &Vec<StoredEdge>) -> (reply: Json)
    ensures
        reply@ == fields().put("ok"@, JsonView::Bool(true)).put(
            "edges"@,
            JsonView::Array(Seq::new(edges@.len(), |i: int| listed_edge_json(edges@[i]))),
        ).put("count"@, JsonView::Unsigned(edges@.len() as u64)).object(),
{
    let mut list: Vec<Json> = Vec::new();
    let mut i: usize = 0;
    while i < edges.len()
        invariant
            i <= edges.len(),
            list@.len() == i,
            forall|j: int| 0 <= j < i ==> (#[trigger] list@[j])@ == listed_edge_json(edges@[j]),
        decreases edges.len() - i,
    {
        let edge = &edges[i];
        list.push(
            Fields::new().with_text("id", &edge.id).with_text("source", &edge.source).with_text(
                "target",
                &edge.target,
            ).with_text("edge_type", &edge.edge_type).with("weight", edge.weight.copy()).with(
                "metadata",
                edge.metadata.copy(),
            ).with_text("recorded_at", &edge.recorded_at).object(),
        );
        i += 1;
    }
    assert(json_views(list@) =~= Seq::new(edges@.len(), |j: int| listed_edge_json(edges@[j])));
    Fields::new().with_bool("ok", true).with("edges", Json::from_list(list)).with_count(
        "count",
        edges.len(),
    ).object()
}

/// The reply to an edge that was invalidated.
pub fn finish_invalidate_edge(edge_id: &str, receipt: Json) -> (reply: Json)
    ensures
        reply@ == fields().put("ok"@, JsonView::Bool(true)).put("receipt"@, receipt@).put(
            "edge_id"@,
            JsonView::Text(edge_id@),
        ).put("message"@, JsonView::Text("Edge invalidated successfully"@)).object(),
{
    Fields::new().with_bool("ok", true).with("receipt", receipt).with_text("edge_id", edge_id).with_text(
        "message",
        "Edge invalidated successfully",
    ).object()
}

/// The reply on the shape of the graph, with the gaps that were found.
pub open spec fn topology_reply(
    edges: Seq<(Seq<char>, Seq<char>)>,
    voids: Seq<StructuralVoid>,
) -> JsonView {
    fields().put("ok"@, JsonView::Bool(true)).put("betti_numbers"@, betti_json(edges)).put(
        "voids"@,
        voids_json(voids),
    ).put("void_count"@, JsonView::Unsigned(voids.len() as u64)).put(
        "edges_loaded_from_store"@,
        JsonView::Unsigned(edges.len() as u64),
    ).put("report"@, JsonView::Text(void_report(voids))).object()
}

/// The reply on the shape of the graph.
pub fn topology(edges: &Vec<(String, String)>) -> (reply: Json)
    ensures
        exists|voids: Seq<StructuralVoid>|
            reply@ == #[trigger] topology_reply(pair_texts(edges@), voids) && are_voids_of(
                voids,
                pair_texts(edges@),
            ),
{
    let scan = find_voids(edges);
    let reply = Fields::new().with_bool("ok", true).with("betti_numbers", describe_betti(edges)).with(
        "voids",
        describe_voids(&scan.voids),
    ).with_count("void_count", scan.voids.len()).with_count(
        "edges_loaded_from_store",
        edges.len(),
    ).with_text("report", &scan.report).object();
    assert(reply@ == topology_reply(pair_texts(edges@), scan.voids@));
    reply
}

/// A graph without edges has no components, no cycles and no gaps.
pub proof fn law_empty_graphs_have_no_topology(
    edges: Seq<(Seq<char>, Seq<char>)>,
    voids: Seq<StructuralVoid>,
)
    requires
        edges.len() == 0,
        are_voids_of(voids, edges),
    ensures
        topology_reply(edges, voids) == fields().put("ok"@, JsonView::Bool(true)).put(
            "betti_numbers"@,
            fields().put("betti_0"@, JsonView::Unsigned(0)).put(
                "betti_1"@,
                JsonView::Unsigned(0),
            ).object(),
        ).put("voids"@, JsonView::Array(Seq::empty())).put(
            "void_count"@,
            JsonView::Unsigned(0),
        ).put("edges_loaded_from_store"@, JsonView::Unsigned(0)).put(
            "report"@,
            JsonView::Text(void_report(Seq::empty())),
        ).object(),
{
    lemma_empty_graph(edges);
    assert(voids =~= Seq::empty());
    assert(voids_json(voids)->Array_0 =~= Seq::empty());
}

/// The request for a model to sum up the facts of a community.
pub open spec fn summary_prompt(facts: Seq<Seq<char>>) -> Seq<char> {
    "Summarize these related facts in 1-2 sentences:\n"@ + joined(facts, "\n---\n"@)
        + "\nSummary:"@
}

/// The request for a model to sum up the facts of a community; none where no
/// fact is known.
pub fn summary_request(facts: &Vec<String>) -> (body: Option<Json>)
    ensures
        (match body {
            Some(body) => facts@.len() > 0 && body@ == fields().put(
                "model"@,
                JsonView::Text("granite4.1:3b"@),
            ).put("prompt"@, JsonView::Text(summary_prompt(texts(facts@)))).put(
                "stream"@,
                JsonView::Bool(false),
            ).put(
                "options"@,
                fields().put("temperature"@, JsonView::Unsigned(0)).put(
                    "num_predict"@,
                    JsonView::Unsigned(100),
                ).object(),
            ).object(),
            None => facts@.len() == 0,
        }),
{
    if facts.len() == 0 {
        return None;
    }
    let prompt = cat3(
        "Summarize these related facts in 1-2 sentences:\n",
        &join(facts, "\n---\n"),
        "\nSummary:",
    );
    Some(
        Fields::new().with_text("model", "granite4.1:3b").with_text("prompt", &prompt).with_bool(
            "stream",
            false,
        ).with(
            "options",
            Fields::new().with_count("temperature", 0).with_count("num_predict", 100).object(),
        ).object(),
    )
}

/// The summary that a model's reply gives.
pub fn read_summary(reply: &Json) -> (summary: Option<String>)
    ensures
        optional_text(summary) == (match reply@.text_member("response"@) {
            Some(text) => Some(trimmed(text)),
            None => None,
        }),
{
    match reply.get_text("response") {
        Some(text) => Some(trim(text)),
        None => None,
    }
}

/// A recommendation on how to compress a community.
pub struct CompressionAdvice {
    pub community_id: String,
    pub quantization_level: String,
    pub reason: String,
}

/// A recommendation as a reply tells it.
pub open spec fn advice_json(advice: CompressionAdvice) -> JsonView {
    fields().put("community_id"@, JsonView::Text(advice.community_id@)).put(
        "quantization_level"@,
        JsonView::Text(advice.quantization_level@),
    ).put("reason"@, JsonView::Text(advice.reason@)).object()
}

/// Recommendations as plain values.
pub open spec fn advice_views(advice: Seq<CompressionAdvice>) -> Seq<
    (Seq<char>, Seq<char>, Seq<char>),
> {
    Seq::new(
        advice.len(),
        |i: int| (advice[i].community_id@, advice[i].quantization_level@, advice[i].reason@),
    )
}

/// The recommendations that
/// `semantic_memory::community::community_aware_compression` makes for
/// communities, given how important some items are, in decimal notation;
/// nothing where an importance is no number.
pub uninterp spec fn compression_of(
    communities: Seq<(Seq<char>, Seq<Seq<char>>, u64, Option<Seq<char>>)>,
    importance: Seq<(Seq<char>, Seq<char>)>,
) -> Option<Seq<(Seq<char>, Seq<char>, Seq<char>)>>;

/// The recommendation for a community of whose members nothing is known.
pub open spec fn plain_advice(c: DetectedCommunity) -> (Seq<char>, Seq<char>, Seq<char>) {
    if c.members@.len() == 1 {
        (c.id@, "SQ4"@, "isolated low-importance fact"@)
    } else {
        (c.id@, "SQ8"@, "default community encoding"@)
    }
}

/// `semantic_memory::community::community_aware_compression`: one
/// recommendation for each community, in their order. Where no importance is
/// given it is stated in full.
#[verifier::external_body]
fn recommend(communities: &Vec<DetectedCommunity>, importance: &Vec<(String, String)>) -> (advice:
    Option<Vec<CompressionAdvice>>)
    ensures
        (match advice {
            Some(advice) => compression_of(
                community_views(communities@),
                pair_texts(importance@),
            ) == Some(advice_views(advice@)) && advice@.len() == communities@.len(),
            None => compression_of(community_views(communities@), pair_texts(importance@)) is None,
        }),
        importance@.len() == 0 ==> (advice matches Some(advice) && advice_views(advice@)
            == Seq::new(communities@.len(), |i: int| plain_advice(communities@[i]))),
{
    let scores: Option<Vec<_>> = importance.iter().map(|(item, score)| Some((item.clone(), serde_json::from_str(score).ok()?))).collect();
    let communities: Vec<_> = communities.iter().map(|c| semantic_memory::community::Community {
        id: c.id.clone(),
        members: c.members.clone(),
        level: c.level as usize,
        parent: c.parent.clone(),
    }).collect();
    let found = semantic_memory::community::community_aware_compression(&communities, &scores?);
    Some(found.into_iter().map(|d| CompressionAdvice {
        community_id: d.community_id,
        quantization_level: d.quantization_level,
        reason: d.reason,
    }).collect())
}

/// The recommendations for communities, given how important some items are, in
/// decimal notation; nothing where an importance is no number.
pub fn compression_advice(
    communities: &Vec<DetectedCommunity>,
    importance: &Vec<(String, String)>,
) -> (advice: Option<Vec<CompressionAdvice>>)
    ensures
        (match advice {
            Some(advice) => compression_of(
                community_views(communities@),
                pair_texts(importance@),
            ) == Some(advice_views(advice@)) && advice@.len() == communities@.len(),
            None => compression_of(community_views(communities@), pair_texts(importance@)) is None,
        }),
        importance@.len() == 0 ==> (advice matches Some(advice) && advice_views(advice@)
            == Seq::new(communities@.len(), |i: int| plain_advice(communities@[i]))),
{
    recommend(communities, importance)
}

/// A community with its summary as a reply tells it.
pub open spec fn summed_community_json(
    c: DetectedCommunity,
    summary: Option<Seq<char>>,
) -> JsonView {
    fields().put("id"@, JsonView::Text(c.id@)).put("members"@, texts_json(texts(c.members@))).put(
        "level"@,
        JsonView::Unsigned(c.level),
    ).put("parent"@, optional_text_json(optional_text(c.parent))).put(
        "member_count"@,
        JsonView::Unsigned(c.members@.len() as u64),
    ).put("summary"@, optional_text_json(summary)).object()
}

/// The reply on the communities of the graph.
pub open spec fn community_reply(
    communities: Seq<DetectedCommunity>,
    summaries: Seq<Option<String>>,
    contradictions: Seq<(Seq<char>, Seq<char>)>,
    advice: Seq<CompressionAdvice>,
    edges: nat,
) -> JsonView {
    let conflicts = conflicts_within(communities, contradictions);
    fields().put("ok"@, JsonView::Bool(true)).put(
        "communities"@,
        JsonView::Array(
            Seq::new(
                communities.len(),
                |i: int| summed_community_json(communities[i], optional_text(summaries[i])),
            ),
        ),
    ).put("community_count"@, JsonView::Unsigned(communities.len() as u64)).put(
        "contradictions"@,
        JsonView::Array(conflicts),
    ).put("contradiction_count"@, JsonView::Unsigned(conflicts.len() as u64)).put(
        "compression_recommendations"@,
        JsonView::Array(Seq::new(advice.len(), |i: int| advice_json(advice[i]))),
    ).put("compression_count"@, JsonView::Unsigned(advice.len() as u64)).put(
        "edges_loaded_from_store"@,
        JsonView::Unsigned(edges as u64),
    ).object()
}

/// The communities with their summaries as a reply lists them.
fn describe_summed(communities: &Vec<DetectedCommunity>, summaries: &Vec<Option<String>>) -> (document:
    Json)
    requires
        summaries@.len() == communities@.len(),
    ensures
        document@ == JsonView::Array(
            Seq::new(
                communities@.len(),
                |i: int| summed_community_json(communities@[i], optional_text(summaries@[i])),
            ),
        ),
{
    let mut list: Vec<Json> = Vec::new();
    let mut i: usize = 0;
    while i < communities.len()
        invariant
            i <= communities.len(),
            summaries@.len() == communities@.len(),
            list@.len() == i,
            forall|j: int|
                0 <= j < i ==> (#[trigger] list@[j])@ == summed_community_json(
                    communities@[j],
                    optional_text(summaries@[j]),
                ),
        decreases communities.len() - i,
    {
        let c = &communities[i];
        list.push(
            Fields::new().with_text("id", &c.id).with("members", Json::from_texts(&c.members)).with(
                "level",
                Json::Unsigned(c.level),
            ).with("parent", Json::from_optional_text(&c.parent)).with_count(
                "member_count",
                c.members.len(),
            ).with("summary", Json::from_optional_text(&summaries[i])).object(),
        );
        i += 1;
    }
    assert(json_views(list@) =~= Seq::new(
        communities@.len(),
        |j: int| summed_community_json(communities@[j], optional_text(summaries@[j])),
    ));
    Json::from_list(list)
}

/// The recommendations as a reply lists them.
fn describe_advice(advice: &Vec<CompressionAdvice>) -> (document: Json)
    ensures
        document@ == JsonView::Array(Seq::new(advice@.len(), |i: int| advice_json(advice@[i]))),
{
    let mut list: Vec<Json> = Vec::new();
    let mut i: usize = 0;
    while i < advice.len()
        invariant
            i <= advice.len(),
            list@.len() == i,
            forall|j: int| 0 <= j < i ==> (#[trigger] list@[j])@ == advice_json(advice@[j]),
        decreases advice.len() - i,
    {
        let a = &advice[i];
        list.push(
            Fields::new().with_text("community_id", &a.community_id).with_text(
                "quantization_level",
                &a.quantization_level,
            ).with_text("reason", &a.reason).object(),
        );
        i += 1;
    }
    assert(json_views(list@) =~= Seq::new(advice@.len(), |j: int| advice_json(advice@[j])));
    Json::from_list(list)
}

/// The reply on the communities of the graph. `summaries` gives a summary for
/// each community, where there is one.
pub fn finish_community(
    communities: &Vec<DetectedCommunity>,
    summaries: &Vec<Option<String>>,
    contradictions: &Vec<(String, String)>,
    advice: &Vec<CompressionAdvice>,
    edges: usize,
) -> (reply: Json)
    requires
        summaries@.len() == communities@.len(),
    ensures
        reply@ == community_reply(
            communities@,
            summaries@,
            pair_texts(contradictions@),
            advice@,
            edges as nat,
        ),
{
    let conflicts = scan_communities(communities, contradictions);
    assert(crate::lifecycle::conflict_jsons(conflicts@).len() == conflicts@.len());
    Fields::new().with_bool("ok", true).with(
        "communities",
        describe_summed(communities, summaries),
    ).with_count("community_count", communities.len()).with(
        "contradictions",
        describe_conflicts(&conflicts),
    ).with_count("contradiction_count", conflicts.len()).with(
        "compression_recommendations",
        describe_advice(advice),
    ).with_count("compression_count", advice.len()).with_count(
        "edges_loaded_from_store",
        edges,
    ).object()
}

/// The pairs that stored edges say contradict each other, in their order.
pub open spec fn contradicting(edges: Seq<EdgeRecord>) -> Seq<(Seq<char>, Seq<char>)>
    decreases edges.len(),
{
    if edges.len() == 0 {
        Seq::empty()
    } else {
        let before = contradicting(edges.drop_last());
        match edges.last().kind {
            Some(EdgeKind::Entity { relation }) => if relation@ == "contradicts"@ {
                before.push((edges.last().source@, edges.last().target@))
            } else {
                before
            },
            _ => before,
        }
    }
}

/// The pairs that stored edges say contradict each other.
pub fn contradicting_pairs(edges: &Vec<EdgeRecord>) -> (pairs: Vec<(String, String)>)
    ensures
        pair_texts(pairs@) == contradicting(edges@),
{
    let mut pairs: Vec<(String, String)> = Vec::new();
    let mut i: usize = 0;
    assert(edges@.subrange(0, 0) =~= Seq::empty());
    assert(pair_texts(pairs@) =~= Seq::empty());
    while i < edges.len()
        invariant
            i <= edges.len(),
            pair_texts(pairs@) == contradicting(edges@.subrange(0, i as int)),
        decreases edges.len() - i,
    {
        assert(edges@.subrange(0, i as int + 1).drop_last() =~= edges@.subrange(0, i as int));
        let contradicts = match &edges[i].kind {
            Some(EdgeKind::Entity { relation }) => same_text(relation, "contradicts"),
            _ => false,
        };
        if contradicts {
            let ghost before = pairs@;
            pairs.push((edges[i].source.clone(), edges[i].target.clone()));
            assert(pair_texts(pairs@) =~= pair_texts(before).push(
                (edges@[i as int].source@, edges@[i as int].target@),
            ));
        }
        i += 1;
    }
    assert(edges@.subrange(0, edges@.len() as int) =~= edges@);
    pairs
}

/// A subgraph that was pruned, as a reply tells it.
pub open spec fn pruned_json(p: PrunedSubgraph) -> JsonView {
    fields().put("subgraph_root"@, JsonView::Text(p.root@)).put(
        "pruned_nodes"@,
        texts_json(texts(p.nodes@)),
    ).object()
}

/// The reply to a pruning of subgraphs, with those that were pruned.
pub open spec fn prune_reply(
    dry_run: bool,
    edges: Seq<(Seq<char>, Seq<char>)>,
    pruned: Seq<PrunedSubgraph>,
    receipt: JsonView,
) -> JsonView {
    fields().put("ok"@, JsonView::Bool(true)).put("dry_run"@, JsonView::Bool(dry_run)).put(
        "subgraphs_identified"@,
        JsonView::Unsigned(subgraphs_identified(edges) as u64),
    ).put("subgraphs_pruned"@, JsonView::Unsigned(pruned.len() as u64)).put(
        "receipts"@,
        JsonView::Array(Seq::new(pruned.len(), |i: int| pruned_json(pruned[i]))),
    ).put(
        "summary"@,
        JsonView::Text(maintenance_summary(subgraphs_identified(edges), pruned.len())),
    ).put("receipt_field"@, receipt).object()
}

/// Whether a pruning is a dry run: it is unless it is asked not to be.
pub open spec fn is_dry_run(dry_run: Option<bool>) -> bool {
    match dry_run {
        Some(dry) => dry,
        None => true,
    }
}

/// How many subgraphs may be pruned.
pub open spec fn prune_limit(dry_run: Option<bool>, max_prune: Option<u32>) -> nat {
    if is_dry_run(dry_run) {
        0
    } else {
        match max_prune {
            Some(max) => max as nat,
            None => 5,
        }
    }
}

/// Prunes subgraphs of the graph: none in a dry run, which is the default, else
/// as many as may be, five where no number is given.
pub fn prune_subgraphs(
    dry_run: Option<bool>,
    max_prune: Option<u32>,
    edges: &Vec<(String, String)>,
    stored: &Vec<EdgeRecord>,
    receipt: Json,
) -> (reply: Json)
    ensures
        exists|pruned: Seq<PrunedSubgraph>|
            reply@ == #[trigger] prune_reply(
                is_dry_run(dry_run),
                pair_texts(edges@),
                pruned,
                receipt@,
            ) && parts_pruned(pruned, pair_texts(edges@)) && pruned.len() == at_most(
                subgraphs_identified(pair_texts(edges@)),
                prune_limit(dry_run, max_prune),
            ),
{
    let dry = match dry_run {
        Some(dry) => dry,
        None => true,
    };
    let max: usize = match max_prune {
        Some(max) => max as usize,
        None => 5,
    };
    let count: usize = if dry {
        0
    } else {
        max
    };
    let report = maintain_subgraphs(edges, &Vec::new(), &contradicting_pairs(stored), count);
    let mut list: Vec<Json> = Vec::new();
    let mut i: usize = 0;
    while i < report.pruned.len()
        invariant
            i <= report.pruned.len(),
            list@.len() == i,
            forall|j: int| 0 <= j < i ==> (#[trigger] list@[j])@ == pruned_json(report.pruned@[j]),
        decreases report.pruned.len() - i,
    {
        let p = &report.pruned[i];
        list.push(
            Fields::new().with_text("subgraph_root", &p.root).with(
                "pruned_nodes",
                Json::from_texts(&p.nodes),
            ).object(),
        );
        i += 1;
    }
    assert(json_views(list@) =~= Seq::new(
        report.pruned@.len(),
        |j: int| pruned_json(report.pruned@[j]),
    ));
    let reply = Fields::new().with_bool("ok", true).with_bool("dry_run", dry).with_count(
        "subgraphs_identified",
        report.identified,
    ).with_count("subgraphs_pruned", report.pruned.len()).with("receipts", Json::from_list(list)).with_text(
        "summary",
        &report.summary,
    ).with("receipt_field", receipt).object();
    assert(reply@ == prune_reply(
        is_dry_run(dry_run),
        pair_texts(edges@),
        report.pruned@,
        receipt@,
    ));
    reply
}

/// How many factors of each type a factor graph has.
#[derive(Clone, Copy, Debug)]
pub struct FactorCounts {
    pub semantic: usize,
    pub temporal: usize,
    pub causal: usize,
    pub entity: usize,
    pub total: usize,
}

/// The weights that a factor graph was run with.
pub struct FactorWeights {
    pub semantic: Json,
    pub temporal: Json,
    pub causal: Json,
    pub entity: Json,
    pub self_influence: Json,
    pub max_iterations: usize,
    pub convergence_threshold: Json,
}

/// What belief propagation over a factor graph came to.
pub struct FactorGraphReport {
    pub node_beliefs: Json,
    pub iterations: usize,
    pub converged: bool,
    pub elapsed_ms: Json,
    pub edges_loaded: usize,
    pub counts: FactorCounts,
    pub weights: FactorWeights,
}

/// The reply to belief propagation over a factor graph.
pub open spec fn factor_graph_reply(r: FactorGraphReport) -> JsonView {
    fields().put("ok"@, JsonView::Bool(true)).put("node_beliefs"@, r.node_beliefs@).put(
        "iterations"@,
        JsonView::Unsigned(r.iterations as u64),
    ).put("converged"@, JsonView::Bool(r.converged)).put("elapsed_ms"@, r.elapsed_ms@).put(
        "edges_loaded"@,
        JsonView::Unsigned(r.edges_loaded as u64),
    ).put("edges_scope"@, JsonView::Text("neighborhood"@)).put(
        "factor_counts"@,
        fields().put("semantic"@, JsonView::Unsigned(r.counts.semantic as u64)).put(
            "temporal"@,
            JsonView::Unsigned(r.counts.temporal as u64),
        ).put("causal"@, JsonView::Unsigned(r.counts.causal as u64)).put(
            "entity"@,
            JsonView::Unsigned(r.counts.entity as u64),
        ).put("total"@, JsonView::Unsigned(r.counts.total as u64)).object(),
    ).put(
        "config"@,
        fields().put("semantic_weight"@, r.weights.semantic@).put(
            "temporal_weight"@,
            r.weights.temporal@,
        ).put("causal_weight"@, r.weights.causal@).put("entity_weight"@, r.weights.entity@).put(
            "self_influence"@,
            r.weights.self_influence@,
        ).put("max_iterations"@, JsonView::Unsigned(r.weights.max_iterations as u64)).put(
            "convergence_threshold"@,
            r.weights.convergence_threshold@,
        ).object(),
    ).object()
}

/// The reply to belief propagation over a factor graph.
pub fn finish_factor_graph(r: &FactorGraphReport) -> (reply: Json)
    ensures
        reply@ == factor_graph_reply(*r),
{
    let counts = Fields::new().with_count("semantic", r.counts.semantic).with_count(
        "temporal",
        r.counts.temporal,
    ).with_count("causal", r.counts.causal).with_count("entity", r.counts.entity).with_count(
        "total",
        r.counts.total,
    ).object();
    let weights = Fields::new().with("semantic_weight", r.weights.semantic.copy()).with(
        "temporal_weight",
        r.weights.temporal.copy(),
    ).with("causal_weight", r.weights.causal.copy()).with(
        "entity_weight",
        r.weights.entity.copy(),
    ).with("self_influence", r.weights.self_influence.copy()).with_count(
        "max_iterations",
        r.weights.max_iterations,
    ).with("convergence_threshold", r.weights.convergence_threshold.copy()).object();
    Fields::new().with_bool("ok", true).with("node_beliefs", r.node_beliefs.copy()).with_count(
        "iterations",
        r.iterations,
    ).with_bool("converged", r.converged).with("elapsed_ms", r.elapsed_ms.copy()).with_count(
        "edges_loaded",
        r.edges_loaded,
    ).with_text("edges_scope", "neighborhood").with("factor_counts", counts).with("config", weights).object()
}

/// A second-order hit as the discord tool tells it.
pub open spec fn discord_result_json(hit: DiscordHit) -> JsonView {
    fields().put("item_id"@, JsonView::Text(hit.item_id@)).put(
        "discord_score"@,
        hit.discord_score@,
    ).put("anchor_ids"@, texts_json(texts(hit.anchor_ids@))).put(
        "relationship_types"@,
        texts_json(texts(hit.relationship_types@)),
    ).object()
}

/// The reply to a second-order search.
pub fn finish_discord_search(hits: &Vec<DiscordHit>, edges_loaded: usize) -> (reply: Json)
    ensures
        reply@ == fields().put("ok"@, JsonView::Bool(true)).put(
            "discord_results"@,
            JsonView::Array(Seq::new(hits@.len(), |i: int| discord_result_json(hits@[i]))),
        ).put("count"@, JsonView::Unsigned(hits@.len() as u64)).put(
            "edges_loaded"@,
            JsonView::Unsigned(edges_loaded as u64),
        ).put("edges_scope"@, JsonView::Text("neighborhood"@)).object(),
{
    let mut list: Vec<Json> = Vec::new();
    let mut i: usize = 0;
    while i < hits.len()
        invariant
            i <= hits.len(),
            list@.len() == i,
            forall|j: int| 0 <= j < i ==> (#[trigger] list@[j])@ == discord_result_json(hits@[j]),
        decreases hits.len() - i,
    {
        let hit = &hits[i];
        list.push(
            Fields::new().with_text("item_id", &hit.item_id).with(
                "discord_score",
                hit.discord_score.copy(),
            ).with("anchor_ids", Json::from_texts(&hit.anchor_ids)).with(
                "relationship_types",
                Json::from_texts(&hit.relationship_types),
            ).object(),
        );
        i += 1;
    }
    assert(json_views(list@) =~= Seq::new(hits@.len(), |j: int| discord_result_json(hits@[j])));
    Fields::new().with_bool("ok", true).with("discord_results", Json::from_list(list)).with_count(
        "count",
        hits.len(),
    ).with_count("edges_loaded", edges_loaded).with_text("edges_scope", "neighborhood").object()
}

/// The reply to a provenance that was set.
pub fn finish_set_provenance(
    provenance_id: Json,
    item_id: &str,
    semiring_type: Json,
    recorded_at: Json,
) -> (reply: Json)
    ensures
        reply@ == fields().put("ok"@, JsonView::Bool(true)).put(
            "provenance_id"@,
            provenance_id@,
        ).put("item_id"@, JsonView::Text(item_id@)).put("semiring_type"@, semiring_type@).put(
            "recorded_at"@,
            recorded_at@,
        ).put("message"@, JsonView::Text("Provenance set successfully"@)).object(),
{
    Fields::new().with_bool("ok", true).with("provenance_id", provenance_id).with_text(
        "item_id",
        item_id,
    ).with("semiring_type", semiring_type).with("recorded_at", recorded_at).with_text(
        "message",
        "Provenance set successfully",
    ).object()
}

/// A dry run prunes nothing.
pub proof fn law_dry_runs_prune_nothing(identified: nat, max_prune: Option<u32>)
    ensures
        at_most(identified, prune_limit(None, max_prune)) == 0,
        at_most(identified, prune_limit(Some(true), max_prune)) == 0,
{
}

/// Two items contradict each other just where a stored entity edge of the
/// relation `contradicts` leads from the one to the other.
pub proof fn law_contradictions_are_stored_edges(
    edges: Seq<EdgeRecord>,
    pair: (Seq<char>, Seq<char>),
)
    ensures
        contradicting(edges).contains(pair) <==> exists|i: int|
            0 <= i < edges.len() && (#[trigger] edges[i]).source@ == pair.0 && edges[i].target@
                == pair.1 && edges[i].kind is Some && edges[i].kind->0 is Entity
                && edges[i].kind->0->relation@ == "contradicts"@,
    decreases edges.len(),
{
    if edges.len() > 0 {
        let fewer = edges.drop_last();
        let last = edges.len() - 1;
        let before = contradicting(fewer);
        let all = contradicting(edges);
        law_contradictions_are_stored_edges(fewer, pair);
        if before.contains(pair) {
            let k = choose|k: int| 0 <= k < before.len() && before[k] == pair;
            assert(all[k] == pair);
            let i = choose|i: int|
                0 <= i < fewer.len() && (#[trigger] fewer[i]).source@ == pair.0
                    && fewer[i].target@ == pair.1 && fewer[i].kind is Some
                    && fewer[i].kind->0 is Entity && fewer[i].kind->0->relation@
                    == "contradicts"@;
            assert(edges[i] == fewer[i]);
        }
        if all.contains(pair) && !before.contains(pair) {
            let k = choose|k: int| 0 <= k < all.len() && all[k] == pair;
            if k < before.len() {
                assert(before[k] == pair);
            }
            assert(edges[last].source@ == pair.0);
        }
        if exists|i: int|
            0 <= i < edges.len() && (#[trigger] edges[i]).source@ == pair.0 && edges[i].target@
                == pair.1 && edges[i].kind is Some && edges[i].kind->0 is Entity
                && edges[i].kind->0->relation@ == "contradicts"@ {
            let i = choose|i: int|
                0 <= i < edges.len() && (#[trigger] edges[i]).source@ == pair.0
                    && edges[i].target@ == pair.1 && edges[i].kind is Some
                    && edges[i].kind->0 is Entity && edges[i].kind->0->relation@
                    == "contradicts"@;
            if i < last {
                assert(fewer[i] == edges[i]);
            } else {
                assert(all[before.len() as int] == pair);
            }
        }
    }
}

/// A pruning takes away as many subgraphs as there are, up to the number that is
/// given, or up to five; it is a dry run unless it is asked not to be.
pub proof fn law_prunings_keep_their_limit(identified: nat, max: u32, dry_run: Option<bool>)
    ensures
        is_dry_run(dry_run) <==> dry_run != Some(false),
        ({
            let n = at_most(identified, prune_limit(Some(false), Some(max)));
            n <= identified && n <= max && (n == identified || n == max)
        }),
        ({
            let n = at_most(identified, prune_limit(Some(false), None));
            n <= identified && n <= 5 && (n == identified || n == 5)
        }),
{
}

/// A listed edge is told by its own identifier, ends, type and weight.
pub proof fn law_listed_edges_are_told(edge: StoredEdge)
    ensures
        listed_edge_json(edge).text_member("id"@) == Some(edge.id@),
        listed_edge_json(edge).text_member("source"@) == Some(edge.source@),
        listed_edge_json(edge).text_member("target"@) == Some(edge.target@),
        listed_edge_json(edge).text_member("edge_type"@) == Some(edge.edge_type@),
        listed_edge_json(edge).member("weight"@) == Some(edge.weight@),
{
    reveal_strlit("id");
    reveal_strlit("source");
    reveal_strlit("target");
    reveal_strlit("edge_type");
    reveal_strlit("weight");
    assert("id"@.len() == 2 && "edge_type"@.len() == 9 && "source"@.len() == 6);
    assert("source"@[0] == 's' && "target"@[0] == 't' && "weight"@[0] == 'w');
    assert("target"@.len() == 6 && "weight"@.len() == 6);
    broadcast use crate::json::lemma_put_member, crate::json::lemma_no_member;

}

/// A requested edge is of the type that the request names, and what the request
/// says of it is what it says.
pub proof fn law_requested_edges_have_their_type(
    kind: EdgeKind,
    edge_type: EdgeType,
    details: EdgeDetails,
)
    requires
        edge_requested(kind, edge_type, details),
    ensures
        kind is Semantic <==> edge_type == EdgeType::Semantic,
        kind is Temporal <==> edge_type == EdgeType::Temporal,
        kind is Causal <==> edge_type == EdgeType::Causal,
        kind is Entity <==> edge_type == EdgeType::Entity,
        kind is Entity && details.relation is Some ==> kind->relation@ == details.relation->0@,
        kind is Temporal && details.delta_secs is Some ==> kind->delta_secs
            == details.delta_secs->0,
        kind is Semantic && details.cosine_similarity is Some ==> kind->cosine_similarity@
            == details.cosine_similarity->0@,
        kind is Causal && details.confidence is Some ==> kind->confidence@
            == details.confidence->0@,
        kind is Causal && details.evidence_ids is Some ==> texts(kind->evidence_ids@) == texts(
            details.evidence_ids->0@,
        ),
{
}

/// The reply on communities tells every community and every recommendation that
/// it is given, in its place, and counts them.
pub proof fn law_communities_are_told_in_order(
    communities: Seq<DetectedCommunity>,
    summaries: Seq<Option<String>>,
    contradictions: Seq<(Seq<char>, Seq<char>)>,
    advice: Seq<CompressionAdvice>,
    edges: nat,
)
    ensures
        ({
            let reply = community_reply(communities, summaries, contradictions, advice, edges);
            &&& reply.member("communities"@) matches Some(JsonView::Array(list)) && list.len()
                == communities.len() && forall|i: int|
                0 <= i < communities.len() ==> (#[trigger] list[i]).text_member("id"@) == Some(
                    communities[i].id@,
                ) && list[i].member("members"@) == Some(texts_json(texts(communities[i].members@)))
            &&& reply.member("community_count"@) == Some(
                JsonView::Unsigned(communities.len() as u64),
            )
            &&& reply.member("contradictions"@) == Some(
                JsonView::Array(conflicts_within(communities, contradictions)),
            )
            &&& reply.member("compression_count"@) == Some(JsonView::Unsigned(advice.len() as u64))
        }),
{
    assert forall|c: DetectedCommunity, summary: Option<Seq<char>>| ({
        let told = #[trigger] summed_community_json(c, summary);
        &&& told.text_member("id"@) == Some(c.id@)
        &&& told.member("members"@) == Some(texts_json(texts(c.members@)))
    }) by {
        reveal_strlit("id");
        reveal_strlit("members");
        assert("id"@.len() == 2 && "members"@.len() == 7);
        broadcast use crate::json::lemma_put_member, crate::json::lemma_no_member;

    }
    reveal_strlit("ok");
    reveal_strlit("communities");
    reveal_strlit("community_count");
    reveal_strlit("contradictions");
    reveal_strlit("contradiction_count");
    reveal_strlit("compression_recommendations");
    reveal_strlit("compression_count");
    assert("ok"@.len() == 2 && "communities"@.len() == 11 && "community_count"@.len() == 15);
    assert("contradictions"@.len() == 14 && "contradiction_count"@.len() == 19);
    assert("compression_recommendations"@.len() == 27 && "compression_count"@.len() == 17);
    broadcast use crate::json::lemma_put_member, crate::json::lemma_no_member;

}

/// An edge that was added is told as it is stored.
pub proof fn law_added_edges_are_told(edge: StoredEdge, receipt: JsonView)
    ensures
        ({
            let told = added_edge_json(edge, receipt);
            &&& told.text_member("id"@) == Some(edge.id@)
            &&& told.text_member("source"@) == Some(edge.source@)
            &&& told.text_member("target"@) == Some(edge.target@)
            &&& told.text_member("edge_type"@) == Some(edge.edge_type@)
            &&& told.member("weight"@) == Some(edge.weight@)
            &&& told.text_member("recorded_at"@) == Some(edge.recorded_at@)
            &&& told.member("receipt"@) == Some(receipt)
        }),
{
    reveal_strlit("ok");
    reveal_strlit("receipt");
    reveal_strlit("id");
    reveal_strlit("source");
    reveal_strlit("target");
    reveal_strlit("edge_type");
    reveal_strlit("weight");
    reveal_strlit("content_digest");
    reveal_strlit("recorded_at");
    reveal_strlit("message");
    assert("ok"@.len() == 2 && "receipt"@.len() == 7 && "id"@.len() == 2 && "source"@.len() == 6);
    assert("target"@.len() == 6 && "edge_type"@.len() == 9 && "weight"@.len() == 6);
    assert("content_digest"@.len() == 14 && "recorded_at"@.len() == 11 && "message"@.len() == 7);
    assert("ok"@[0] == 'o' && "id"@[0] == 'i' && "receipt"@[0] == 'r' && "message"@[0] == 'm');
    assert("source"@[0] == 's' && "target"@[0] == 't' && "weight"@[0] == 'w');
    broadcast use crate::json::lemma_put_member, crate::json::lemma_no_member;

}

/// The request to sum up a community holds its facts, from the first to the last,
/// between what is asked and where the answer goes.
pub proof fn law_summaries_are_asked_for_all_facts(facts: Seq<Seq<char>>, last: Seq<char>)
    ensures
        summary_prompt(seq![last]) == "Summarize these related facts in 1-2 sentences:\n"@ + last
            + "\nSummary:"@,
        facts.len() > 0 ==> summary_prompt(facts.push(last))
            == "Summarize these related facts in 1-2 sentences:\n"@ + (joined(facts, "\n---\n"@)
            + "\n---\n"@ + last) + "\nSummary:"@,
{
    crate::text::law_joining_appends(Seq::empty(), last, "\n---\n"@);
    crate::text::law_joining_appends(facts, last, "\n---\n"@);
    assert(Seq::<Seq<char>>::empty().push(last) =~= seq![last]);
}

/// A community of one is compressed harder than a larger one, and each
/// recommendation names its community.
pub proof fn law_lone_facts_are_compressed_harder(c: DetectedCommunity)
    ensures
        plain_advice(c).0 == c.id@,
        plain_advice(c).1 == "SQ4"@ <==> c.members@.len() == 1,
        plain_advice(c).1 == "SQ8"@ <==> c.members@.len() != 1,
{
    reveal_strlit("SQ4");
    reveal_strlit("SQ8");
    assert("SQ4"@[2] == '4' && "SQ8"@[2] == '8');
}

/// The reply to a pruning tells how many parts were found and lists each one that
/// was pruned, by its root and with its nodes.
pub proof fn law_prunings_are_told(
    dry_run: bool,
    edges: Seq<(Seq<char>, Seq<char>)>,
    pruned: Seq<PrunedSubgraph>,
    receipt: JsonView,
    i: int,
)
    ensures
        ({
            let reply = prune_reply(dry_run, edges, pruned, receipt);
            &&& reply.true_member("dry_run"@) <==> dry_run
            &&& reply.member("subgraphs_identified"@) == Some(
                JsonView::Unsigned(subgraphs_identified(edges) as u64),
            )
            &&& reply.member("subgraphs_pruned"@) == Some(JsonView::Unsigned(pruned.len() as u64))
            &&& reply.member("receipts"@) matches Some(JsonView::Array(list)) && list.len()
                == pruned.len() && (0 <= i < list.len() ==> list[i].text_member("subgraph_root"@)
                == Some(pruned[i].root@) && list[i].member("pruned_nodes"@) == Some(
                texts_json(texts(pruned[i].nodes@)),
            ))
            &&& reply.member("receipt_field"@) == Some(receipt)
        }),
{
    reveal_strlit("ok");
    reveal_strlit("dry_run");
    reveal_strlit("subgraphs_identified");
    reveal_strlit("subgraphs_pruned");
    reveal_strlit("receipts");
    reveal_strlit("summary");
    reveal_strlit("receipt_field");
    reveal_strlit("subgraph_root");
    reveal_strlit("pruned_nodes");
    assert("ok"@.len() == 2 && "dry_run"@.len() == 7 && "subgraphs_identified"@.len() == 20);
    assert("subgraphs_pruned"@.len() == 16 && "receipts"@.len() == 8 && "summary"@.len() == 7);
    assert("receipt_field"@.len() == 13 && "subgraph_root"@.len() == 13);
    assert("pruned_nodes"@.len() == 12 && "dry_run"@[0] == 'd' && "summary"@[0] == 's');
    assert("receipt_field"@[0] == 'r' && "subgraph_root"@[0] == 's');
    broadcast use crate::json::lemma_put_member, crate::json::lemma_no_member;

}

/// A second-order hit is told with its anchors and the relations that lead to it.
pub proof fn law_discord_results_are_told(hit: DiscordHit)
    ensures
        discord_result_json(hit).text_member("item_id"@) == Some(hit.item_id@),
        discord_result_json(hit).member("discord_score"@) == Some(hit.discord_score@),
        discord_result_json(hit).member("anchor_ids"@) == Some(
            texts_json(texts(hit.anchor_ids@)),
        ),
        discord_result_json(hit).member("relationship_types"@) == Some(
            texts_json(texts(hit.relationship_types@)),
        ),
{
    reveal_strlit("item_id");
    reveal_strlit("discord_score");
    reveal_strlit("anchor_ids");
    reveal_strlit("relationship_types");
    assert("item_id"@.len() == 7 && "discord_score"@.len() == 13 && "anchor_ids"@.len() == 10);
    assert("relationship_types"@.len() == 18);
    broadcast use crate::json::lemma_put_member, crate::json::lemma_no_member;

}

/// Belief propagation is told with its beliefs, its run and how many factors of
/// each type there were.
pub proof fn law_propagations_are_told(r: FactorGraphReport)
    ensures
        ({
            let reply = factor_graph_reply(r);
            &&& reply.member("node_beliefs"@) == Some(r.node_beliefs@)
            &&& reply.true_member("converged"@) <==> r.converged
            &&& reply.member("iterations"@) == Some(JsonView::Unsigned(r.iterations as u64))
            &&& reply.member("edges_loaded"@) == Some(JsonView::Unsigned(r.edges_loaded as u64))
            &&& reply.member("factor_counts"@) matches Some(counts) && counts.member("semantic"@)
                == Some(JsonView::Unsigned(r.counts.semantic as u64)) && counts.member("temporal"@)
                == Some(JsonView::Unsigned(r.counts.temporal as u64)) && counts.member("causal"@)
                == Some(JsonView::Unsigned(r.counts.causal as u64)) && counts.member("entity"@)
                == Some(JsonView::Unsigned(r.counts.entity as u64)) && counts.member("total"@)
                == Some(JsonView::Unsigned(r.counts.total as u64))
        }),
{
    reveal_strlit("ok");
    reveal_strlit("node_beliefs");
    reveal_strlit("iterations");
    reveal_strlit("converged");
    reveal_strlit("elapsed_ms");
    reveal_strlit("edges_loaded");
    reveal_strlit("edges_scope");
    reveal_strlit("factor_counts");
    reveal_strlit("config");
    reveal_strlit("semantic");
    reveal_strlit("temporal");
    reveal_strlit("causal");
    reveal_strlit("entity");
    reveal_strlit("total");
    assert("ok"@.len() == 2 && "node_beliefs"@.len() == 12 && "iterations"@.len() == 10);
    assert("converged"@.len() == 9 && "elapsed_ms"@.len() == 10 && "edges_loaded"@.len() == 12);
    assert("edges_scope"@.len() == 11 && "factor_counts"@.len() == 13 && "config"@.len() == 6);
    assert("semantic"@.len() == 8 && "temporal"@.len() == 8 && "causal"@.len() == 6);
    assert("entity"@.len() == 6 && "total"@.len() == 5 && "node_beliefs"@[0] == 'n');
    assert("edges_loaded"@[0] == 'e' && "iterations"@[0] == 'i' && "elapsed_ms"@[0] == 'e');
    assert("config"@[1] == 'o' && "causal"@[1] == 'a' && "config"@[0] == 'c');
    assert("entity"@[0] == 'e' && "semantic"@[0] == 's' && "temporal"@[0] == 't');
    assert("causal"@[0] == 'c');
    broadcast use crate::json::lemma_put_member, crate::json::lemma_no_member;

}

}
