//! The lifecycle pass over stored items: what would be corrected, subtracted,
//! compressed or pruned, and how the graph around them is shaped.
use crate::graph::{
    adjacency,
    adjacency_of,
    adjacency_views,
    are_voids_of,
    components,
    find_voids,
    StructuralVoid,
};
use crate::json::{
    fields,
    json_views,
    optional_text_json,
    pair_texts,
    text_before,
    texts_json,
    Fields,
    Json,
    JsonView,
};
use crate::routing::{betti_json, describe_betti, describe_voids, voids_json};
use crate::text::{
    after,
    cat2,
    cat5,
    decimal,
    decimal_text,
    optional_text,
    starts_with,
    texts,
};
use vstd::prelude::*;

verus! {

/// An item that a correction would subtract.
pub struct SubtractionCandidate {
    pub item_id: String,
    pub structuring_score: Json,
    pub operation_type: Json,
    pub reason: String,
}

/// An item that a correction would subtract, as a reply tells it.
pub open spec fn candidate_json(c: SubtractionCandidate) -> JsonView {
    fields().put("item_id"@, JsonView::Text(c.item_id@)).put(
        "structuring_score"@,
        c.structuring_score@,
    ).put("operation_type"@, c.operation_type@).put("reason"@, JsonView::Text(c.reason@)).object()
}

/// A community that was detected.
pub struct DetectedCommunity {
    pub id: String,
    pub members: Vec<String>,
    pub level: u64,
    pub parent: Option<String>,
}

/// A community that was detected, as a reply tells it.
pub open spec fn detected_json(c: DetectedCommunity) -> JsonView {
    fields().put("id"@, JsonView::Text(c.id@)).put("members"@, texts_json(texts(c.members@))).put(
        "level"@,
        JsonView::Unsigned(c.level),
    ).put(
        "parent"@,
        optional_text_json(
            match c.parent {
                Some(parent) => Some(parent@),
                None => None,
            },
        ),
    ).put("member_count"@, JsonView::Unsigned(c.members@.len() as u64)).object()
}

/// Communities as plain values.
pub open spec fn community_views(communities: Seq<DetectedCommunity>) -> Seq<
    (Seq<char>, Seq<Seq<char>>, u64, Option<Seq<char>>),
> {
    Seq::new(
        communities.len(),
        |i: int|
            (
                communities[i].id@,
                texts(communities[i].members@),
                communities[i].level,
                optional_text(communities[i].parent),
            ),
    )
}

/// The communities that `semantic_memory::community::detect_communities` finds
/// in a graph at a resolution, given in decimal notation, and with a seed;
/// nothing where the resolution is no number.
pub uninterp spec fn communities_among(
    edges: Seq<(Seq<char>, Seq<char>)>,
    resolution: Seq<char>,
    seed: u64,
) -> Option<Seq<(Seq<char>, Seq<Seq<char>>, u64, Option<Seq<char>>)>>;

/// `semantic_memory::community::detect_communities`: the communities of a
/// graph, which depend on the edges, the resolution and the seed alone. The
/// resolution is read by `serde_json`, which takes "1.0" for a number. A graph
/// without edges has no community.
#[verifier::external_body]
fn find_communities(edges: &Vec<(String, String)>, resolution: &str, seed: u64) -> (communities:
    Option<Vec<DetectedCommunity>>)
    ensures
        (match communities {
            Some(list) => communities_among(pair_texts(edges@), resolution@, seed) == Some(
                community_views(list@),
            ) && (edges@.len() == 0 ==> list@.len() == 0),
            None => communities_among(pair_texts(edges@), resolution@, seed) is None,
        }),
        resolution@ == "1.0"@ ==> communities is Some,
{
    let resolution = serde_json::from_str(resolution).ok()?;
    let found = semantic_memory::community::detect_communities(edges, resolution, seed);
    Some(found.into_iter().map(|c| DetectedCommunity {
        id: c.id,
        members: c.members,
        level: c.level as u64,
        parent: c.parent,
    }).collect())
}

/// The communities of a graph at a resolution, given in decimal notation, and
/// with a seed; nothing where the resolution is no number.
pub fn detect_communities(edges: &Vec<(String, String)>, resolution: &str, seed: u64) -> (
communities: Option<Vec<DetectedCommunity>>)
    ensures
        (match communities {
            Some(list) => communities_among(pair_texts(edges@), resolution@, seed) == Some(
                community_views(list@),
            ),
            None => communities_among(pair_texts(edges@), resolution@, seed) is None,
        }),
{
    find_communities(edges, resolution, seed)
}

/// The communities of a graph at the default resolution and with the default
/// seed.
pub open spec fn default_communities(edges: Seq<(Seq<char>, Seq<char>)>) -> Seq<
    (Seq<char>, Seq<Seq<char>>, u64, Option<Seq<char>>),
> {
    communities_among(edges, "1.0"@, 42)->0
}

/// The communities of a graph at the default resolution and with the default
/// seed.
pub fn usual_communities(edges: &Vec<(String, String)>) -> (communities: Vec<DetectedCommunity>)
    ensures
        community_views(communities@) == default_communities(pair_texts(edges@)),
        edges@.len() == 0 ==> communities@.len() == 0,
{
    match find_communities(edges, "1.0", 42) {
        Some(communities) => communities,
        None => Vec::new(),
    }
}

/// A contradiction inside a community.
pub struct CommunityConflict {
    pub community_id: String,
    pub item_a: String,
    pub item_b: String,
    pub description: String,
}

/// A contradiction inside a community, as a reply tells it.
pub open spec fn conflict_json(c: CommunityConflict) -> JsonView {
    fields().put("community_id"@, JsonView::Text(c.community_id@)).put(
        "item_a"@,
        JsonView::Text(c.item_a@),
    ).put("item_b"@, JsonView::Text(c.item_b@)).put(
        "description"@,
        JsonView::Text(c.description@),
    ).object()
}

/// The community of a node: the last one that lists it.
pub open spec fn listing_community(
    communities: Seq<DetectedCommunity>,
    node: Seq<char>,
) -> Option<Seq<char>>
    decreases communities.len(),
{
    if communities.len() == 0 {
        None
    } else if texts(communities.last().members@).contains(node) {
        Some(communities.last().id@)
    } else {
        listing_community(communities.drop_last(), node)
    }
}

/// The contradictions both sides of which are in one community, in their order,
/// as a reply lists them.
pub open spec fn conflicts_within(
    communities: Seq<DetectedCommunity>,
    contradictions: Seq<(Seq<char>, Seq<char>)>,
) -> Seq<JsonView>
    decreases contradictions.len(),
{
    if contradictions.len() == 0 {
        Seq::empty()
    } else {
        let before = conflicts_within(communities, contradictions.drop_last());
        let (a, b) = contradictions.last();
        match (listing_community(communities, a), listing_community(communities, b)) {
            (Some(left), Some(right)) => if left == right {
                before.push(
                    fields().put("community_id"@, JsonView::Text(left)).put(
                        "item_a"@,
                        JsonView::Text(a),
                    ).put("item_b"@, JsonView::Text(b)).put(
                        "description"@,
                        JsonView::Text("contradiction observed inside "@ + left),
                    ).object(),
                )
            } else {
                before
            },
            _ => before,
        }
    }
}

/// What conflicts say, as a reply lists them.
pub open spec fn conflict_jsons(conflicts: Seq<CommunityConflict>) -> Seq<JsonView> {
    Seq::new(conflicts.len(), |i: int| conflict_json(conflicts[i]))
}

/// `semantic_memory::community::community_contradiction_scan`: the
/// contradictions both sides of which are in one community.
#[verifier::external_body]
pub(crate) fn scan_communities(
    communities: &Vec<DetectedCommunity>,
    contradictions: &Vec<(String, String)>,
) -> (conflicts: Vec<CommunityConflict>)
    ensures
        conflict_jsons(conflicts@) == conflicts_within(communities@, pair_texts(contradictions@)),
{
    let communities: Vec<_> = communities.iter().map(|c| semantic_memory::community::Community {
        id: c.id.clone(),
        members: c.members.clone(),
        level: c.level as usize,
        parent: c.parent.clone(),
    }).collect();
    semantic_memory::community::community_contradiction_scan(&communities, contradictions).into_iter().map(|c| CommunityConflict {
        community_id: c.community_id,
        item_a: c.item_a,
        item_b: c.item_b,
        description: c.description,
    }).collect()
}

/// The items that would be subtracted, as a reply lists them.
pub fn describe_candidates(candidates: &Vec<SubtractionCandidate>) -> (document: Json)
    ensures
        document@ == JsonView::Array(
            Seq::new(candidates@.len(), |i: int| candidate_json(candidates@[i])),
        ),
{
    let mut list: Vec<Json> = Vec::new();
    let mut i: usize = 0;
    while i < candidates.len()
        invariant
            i <= candidates.len(),
            list@.len() == i,
            forall|j: int| 0 <= j < i ==> (#[trigger] list@[j])@ == candidate_json(candidates@[j]),
        decreases candidates.len() - i,
    {
        let c = &candidates[i];
        list.push(
            Fields::new().with_text("item_id", &c.item_id).with(
                "structuring_score",
                c.structuring_score.copy(),
            ).with("operation_type", c.operation_type.copy()).with_text("reason", &c.reason).object(),
        );
        i += 1;
    }
    assert(json_views(list@) =~= Seq::new(
        candidates@.len(),
        |j: int| candidate_json(candidates@[j]),
    ));
    Json::from_list(list)
}

/// The communities that were detected, as a reply lists them.
pub fn describe_communities(communities: &Vec<DetectedCommunity>) -> (document: Json)
    ensures
        document@ == JsonView::Array(
            Seq::new(communities@.len(), |i: int| detected_json(communities@[i])),
        ),
{
    let mut list: Vec<Json> = Vec::new();
    let mut i: usize = 0;
    while i < communities.len()
        invariant
            i <= communities.len(),
            list@.len() == i,
            forall|j: int| 0 <= j < i ==> (#[trigger] list@[j])@ == detected_json(communities@[j]),
        decreases communities.len() - i,
    {
        let c = &communities[i];
        list.push(
            Fields::new().with_text("id", &c.id).with("members", Json::from_texts(&c.members)).with(
                "level",
                Json::Unsigned(c.level),
            ).with("parent", Json::from_optional_text(&c.parent)).with_count(
                "member_count",
                c.members.len(),
            ).object(),
        );
        i += 1;
    }
    assert(json_views(list@) =~= Seq::new(
        communities@.len(),
        |j: int| detected_json(communities@[j]),
    ));
    Json::from_list(list)
}

/// The contradictions inside communities, as a reply lists them.
pub fn describe_conflicts(conflicts: &Vec<CommunityConflict>) -> (document: Json)
    ensures
        document@ == JsonView::Array(conflict_jsons(conflicts@)),
{
    let mut list: Vec<Json> = Vec::new();
    let mut i: usize = 0;
    while i < conflicts.len()
        invariant
            i <= conflicts.len(),
            list@.len() == i,
            forall|j: int| 0 <= j < i ==> (#[trigger] list@[j])@ == conflict_json(conflicts@[j]),
        decreases conflicts.len() - i,
    {
        let c = &conflicts[i];
        list.push(
            Fields::new().with_text("community_id", &c.community_id).with_text(
                "item_a",
                &c.item_a,
            ).with_text("item_b", &c.item_b).with_text("description", &c.description).object(),
        );
        i += 1;
    }
    assert(json_views(list@) =~= conflict_jsons(conflicts@));
    Json::from_list(list)
}

/// What `semantic_memory::integration::should_trigger_recompression` says when
/// so many items were subtracted and so many remain, none of them important.
pub uninterp spec fn recompression_after(subtracted: nat, remaining: nat) -> (bool, Seq<char>);

/// Whether the store is to be compressed again, and why.
pub struct Recompression {
    pub triggered: bool,
    pub reason: String,
}

/// Up to this many items, the share of those that were subtracted is compared
/// exactly.
pub const EXACT_ITEMS: u64 = 0x1_0000_0000_0000;

/// More than a tenth of the items was subtracted.
pub open spec fn more_than_a_tenth(subtracted: nat, remaining: nat) -> bool {
    10 * subtracted > subtracted + remaining
}

/// `semantic_memory::integration::should_trigger_recompression` for items of
/// which none is important. It is triggered where more than a tenth of the
/// items was subtracted. It compares the share in floating point, so this is
/// stated of as many items as that counts exactly. The text of the reason is
/// stated where it is not triggered. It adds the two numbers, which have to fit
/// a machine word.
#[verifier::external_body]
fn recompression(subtracted: usize, remaining: usize) -> (r: Recompression)
    requires
        subtracted + remaining <= usize::MAX,
    ensures
        (r.triggered, r.reason@) == recompression_after(subtracted as nat, remaining as nat),
        subtracted + remaining <= EXACT_ITEMS ==> r.triggered == more_than_a_tenth(
            subtracted as nat,
            remaining as nat,
        ),
        !r.triggered ==> r.reason@
            == "subtraction below threshold — no recompression needed"@,
{
    let r = semantic_memory::integration::should_trigger_recompression(subtracted, remaining, false);
    Recompression { triggered: r.triggered, reason: r.reason }
}

/// What is known of a recompression: whether it is triggered, and the reason
/// where it is not.
pub open spec fn recompression_known(subtracted: nat, remaining: nat) -> bool {
    let (triggered, reason) = recompression_after(subtracted, remaining);
    &&& subtracted + remaining <= EXACT_ITEMS ==> triggered == more_than_a_tenth(
        subtracted,
        remaining,
    )
    &&& !triggered ==> reason == "subtraction below threshold — no recompression needed"@
}

/// How often an item was used.
pub struct ItemAccess {
    pub item_id: String,
    pub access_count: usize,
    pub last_accessed: String,
}

/// The connected parts of a graph that have more than one node.
pub open spec fn subgraphs_of(edges: Seq<(Seq<char>, Seq<char>)>) -> Set<Set<Seq<char>>> {
    components(adjacency_of(edges)).filter(|part: Set<Seq<char>>| part.len() > 1)
}

/// How many connected parts of more than one node a graph has.
pub open spec fn subgraphs_identified(edges: Seq<(Seq<char>, Seq<char>)>) -> nat {
    subgraphs_of(edges).len()
}

/// A subgraph that was pruned.
pub struct PrunedSubgraph {
    pub root: String,
    pub nodes: Vec<String>,
}

/// What the maintenance of subgraphs comes to.
pub struct SubgraphReport {
    pub identified: usize,
    pub pruned: Vec<PrunedSubgraph>,
    pub summary: String,
}

/// The smaller of two numbers.
pub open spec fn at_most(n: nat, max: nat) -> nat {
    if n < max {
        n
    } else {
        max
    }
}

/// The summary of the maintenance of subgraphs.
pub open spec fn maintenance_summary(identified: nat, pruned: nat) -> Seq<char> {
    "Subgraph maintenance: "@ + decimal(identified) + " identified, "@ + decimal(pruned)
        + " pruned"@
}

/// Each text comes before those behind it.
pub open spec fn in_text_order(list: Seq<Seq<char>>) -> bool {
    forall|i: int, j: int|
        0 <= i < j < list.len() ==> text_before(#[trigger] list[i], #[trigger] list[j])
}

/// What was pruned are connected parts of the graph, each with its nodes in
/// order and the first of them as its root. None occurs twice.
pub open spec fn parts_pruned(
    pruned: Seq<PrunedSubgraph>,
    edges: Seq<(Seq<char>, Seq<char>)>,
) -> bool {
    &&& forall|i: int|
        0 <= i < pruned.len() ==> {
            let nodes = texts((#[trigger] pruned[i]).nodes@);
            nodes.len() > 0 && in_text_order(nodes) && pruned[i].root@ == nodes[0] && subgraphs_of(
                edges,
            ).contains(nodes.to_set())
        }
    &&& forall|i: int, j: int|
        0 <= i < j < pruned.len() ==> (#[trigger] pruned[i]).root@ != (#[trigger] pruned[j]).root@
}

/// `semantic_memory::integration::autonomous_subgraph_maintenance` that prunes
/// at most `max_prune` subgraphs: how many connected parts of more than one
/// node there are, which of them it pruned (as many as it may), and a sentence
/// that says both. In which order it takes parts that were used equally often
/// is not stated, nor are the uses themselves, which it adds up.
#[verifier::external_body]
pub(crate) fn maintain_subgraphs(
    edges: &Vec<(String, String)>,
    accesses: &Vec<ItemAccess>,
    contradictions: &Vec<(String, String)>,
    max_prune: usize,
) -> (report: SubgraphReport)
    requires
        forall|i: int| 0 <= i < accesses@.len() ==> (#[trigger] accesses@[i]).access_count <= 1,
    ensures
        report.identified == subgraphs_identified(pair_texts(edges@)),
        report.pruned@.len() == at_most(report.identified as nat, max_prune as nat),
        parts_pruned(report.pruned@, pair_texts(edges@)),
        report.summary@ == maintenance_summary(report.identified as nat, report.pruned@.len()),
{
    let logs: Vec<_> = accesses.iter().map(|a| semantic_memory::subgraph_pruning::AccessLog {
        item_id: a.item_id.clone(),
        access_count: a.access_count,
        last_accessed: a.last_accessed.clone(),
    }).collect();
    let report = semantic_memory::integration::autonomous_subgraph_maintenance(edges, &logs, contradictions, max_prune);
    let pruned = report.receipts.into_iter().map(|r| PrunedSubgraph { root: r.subgraph_root, nodes: r.pruned_nodes }).collect();
    SubgraphReport { identified: report.subgraphs_identified, pruned, summary: report.summary }
}

/// One use of every node of the graph, at no known time.
fn single_accesses(edges: &Vec<(String, String)>) -> (accesses: Vec<ItemAccess>)
    ensures
        accesses@.len() == adjacency_of(pair_texts(edges@)).len(),
        forall|i: int|
            0 <= i < accesses@.len() ==> (#[trigger] accesses@[i]).item_id@ == adjacency_of(
                pair_texts(edges@),
            )[i].0 && accesses@[i].access_count == 1,
{
    let nodes = adjacency(edges);
    let ghost keys = adjacency_of(pair_texts(edges@));
    let mut accesses: Vec<ItemAccess> = Vec::new();
    let mut i: usize = 0;
    while i < nodes.len()
        invariant
            i <= nodes.len(),
            keys == adjacency_views(nodes@),
            accesses@.len() == i,
            forall|j: int|
                0 <= j < i ==> (#[trigger] accesses@[j]).item_id@ == keys[j].0
                    && accesses@[j].access_count == 1,
        decreases nodes.len() - i,
    {
        accesses.push(
            ItemAccess {
                item_id: nodes[i].0.clone(),
                access_count: 1,
                last_accessed: "1970-01-01T00:00:00Z".to_owned(),
            },
        );
        i += 1;
    }
    accesses
}

/// What the analysis of the items found.
pub struct ItemAnalysis {
    pub syndromes: usize,
    pub corrections: usize,
    pub candidates: Vec<SubtractionCandidate>,
    pub communities: Vec<DetectedCommunity>,
    /// Whether an item of middling importance keeps its full precision.
    pub keeps_f32: bool,
}

/// The neighbours in a list of items that are not the same item.
pub open spec fn unlinked_neighbors(ids: Seq<Seq<char>>) -> nat
    decreases ids.len(),
{
    if ids.len() < 2 {
        0
    } else {
        unlinked_neighbors(ids.drop_last()) + if ids[ids.len() - 2] != ids.last() {
            1nat
        } else {
            0
        }
    }
}

/// How many of the first `n` items refer to an item that is not in the list.
pub open spec fn orphans(ids: Seq<Seq<char>>, n: int) -> nat
    decreases n,
{
    if n <= 0 {
        0
    } else {
        let id = ids[n - 1];
        orphans(ids, n - 1) + if starts_with(id, "ref_"@) && !ids.contains(after(id, 4)) {
            1nat
        } else {
            0
        }
    }
}

/// The syndromes of items that score the same: neighbours that have no link,
/// and references to missing items.
pub open spec fn even_syndromes(ids: Seq<Seq<char>>) -> nat {
    unlinked_neighbors(ids) + orphans(ids, ids.len() as int)
}

/// The corrections of so many syndromes: one for every choice of fewer than 20,
/// else one for each, with one for all of them as long as they are at most 40.
pub open spec fn corrections_for(syndromes: nat) -> nat {
    if syndromes < 20 {
        (vstd::arithmetic::power2::pow2(syndromes) - 1) as nat
    } else if syndromes <= 40 {
        syndromes + 1
    } else {
        syndromes
    }
}

/// `semantic_memory::decoder::Syndrome`, which is carried from one outside call
/// to the next.
#[verifier::external_type_specification]
#[verifier::external_body]
pub struct ExSyndrome(semantic_memory::decoder::Syndrome);

/// `semantic_memory::decoder::Correction`, which is carried from one outside
/// call to the next.
#[verifier::external_type_specification]
#[verifier::external_body]
pub struct ExCorrection(semantic_memory::decoder::Correction);

/// How many syndromes `semantic_memory::decoder::detect_syndromes` finds in
/// items that all have one score, given in decimal notation, and no
/// contradictions; nothing where the score is no number.
pub uninterp spec fn syndrome_count(ids: Seq<Seq<char>>, score: Seq<char>) -> Option<nat>;

/// `semantic_memory::decoder::detect_syndromes` on items that all have one
/// score and no contradictions. Their number is stated for the score 0.5.
#[verifier::external_body]
fn detect_syndromes(item_ids: &Vec<String>, score: &str) -> (found: Option<
    Vec<semantic_memory::decoder::Syndrome>,
>)
    ensures
        (match found {
            Some(found) => syndrome_count(texts(item_ids@), score@) == Some(found@.len()),
            None => syndrome_count(texts(item_ids@), score@) is None,
        }),
        score@ == "0.5"@ ==> (found matches Some(found) && found@.len() == even_syndromes(
            texts(item_ids@),
        )),
{
    let score = serde_json::from_str(score).ok()?;
    let scored: Vec<_> = item_ids.iter().map(|id| (id.clone(), score)).collect();
    Some(semantic_memory::decoder::detect_syndromes(&scored, &[]))
}

/// How many corrections `semantic_memory::decoder::compute_correction` makes of
/// so many syndromes when one may cost so much, given in decimal notation;
/// nothing where the cost is no number.
pub uninterp spec fn correction_count(syndromes: nat, max_cost: Seq<char>) -> Option<nat>;

/// What `semantic_memory::integration::corrections_to_subtraction_candidates`
/// makes of a correction: the items that it takes away, each with its score in
/// decimal notation, the operation and the reason.
pub uninterp spec fn subtracted_by(correction: semantic_memory::decoder::Correction) -> Seq<
    (Seq<char>, Seq<char>, Seq<char>, Seq<char>),
>;

/// `semantic_memory::decoder::compute_correction` on syndromes. Every correction
/// asks for a review and takes nothing away. Their number is stated for
/// corrections that cost 10.0 at most.
#[verifier::external_body]
fn compute_corrections(syndromes: &Vec<semantic_memory::decoder::Syndrome>, max_cost: &str) -> (
made: Option<Vec<semantic_memory::decoder::Correction>>)
    ensures
        (match made {
            Some(made) => correction_count(syndromes@.len(), max_cost@) == Some(made@.len())
                && forall|i: int| 0 <= i < made@.len() ==> subtracted_by(#[trigger] made@[i])
                == Seq::<(Seq<char>, Seq<char>, Seq<char>, Seq<char>)>::empty(),
            None => correction_count(syndromes@.len(), max_cost@) is None,
        }),
        max_cost@ == "10.0"@ ==> (made matches Some(made) && made@.len() == corrections_for(
            syndromes@.len(),
        )),
{
    let max_cost = serde_json::from_str(max_cost).ok()?;
    Some(semantic_memory::decoder::compute_correction(syndromes, max_cost))
}

/// What corrections take away, in their order.
pub open spec fn subtracted(corrections: Seq<semantic_memory::decoder::Correction>) -> Seq<
    (Seq<char>, Seq<char>, Seq<char>, Seq<char>),
>
    decreases corrections.len(),
{
    if corrections.len() == 0 {
        Seq::empty()
    } else {
        subtracted(corrections.drop_last()) + subtracted_by(corrections.last())
    }
}

/// A candidate for subtraction as a plain value: the item, its score in decimal
/// notation, the operation and the reason.
pub open spec fn candidate_view(c: SubtractionCandidate) -> (
    Seq<char>,
    Seq<char>,
    Seq<char>,
    Seq<char>,
) {
    (c.item_id@, c.structuring_score@->Decimal_0, c.operation_type@->Text_0, c.reason@)
}

/// `semantic_memory::integration::corrections_to_subtraction_candidates`: what
/// corrections take away, correction by correction.
#[verifier::external_body]
fn subtraction_candidates(corrections: &Vec<semantic_memory::decoder::Correction>) -> (list: Vec<
    SubtractionCandidate,
>)
    ensures
        Seq::new(list@.len(), |i: int| candidate_view(list@[i])) == subtracted(corrections@),
        forall|i: int|
            0 <= i < list@.len() ==> (#[trigger] list@[i]).structuring_score@ is Decimal
                && list@[i].operation_type@ is Text,
{
    let found = semantic_memory::integration::corrections_to_subtraction_candidates(corrections);
    found.into_iter().map(|c| SubtractionCandidate {
        item_id: c.item_id,
        structuring_score: Json::Decimal(serde_json::to_string(&c.structuring_score).unwrap_or_default()),
        operation_type: Json::Text(c.operation_type),
        reason: c.reason,
    }).collect()
}

/// Corrections of which none takes anything away take nothing away together.
proof fn lemma_nothing_subtracted(corrections: Seq<semantic_memory::decoder::Correction>)
    requires
        forall|i: int|
            0 <= i < corrections.len() ==> subtracted_by(#[trigger] corrections[i]) == Seq::<
                (Seq<char>, Seq<char>, Seq<char>, Seq<char>),
            >::empty(),
    ensures
        subtracted(corrections).len() == 0,
    decreases corrections.len(),
{
    if corrections.len() > 0 {
        let fewer = corrections.drop_last();
        assert forall|i: int| 0 <= i < fewer.len() implies subtracted_by(#[trigger] fewer[i])
            == Seq::<(Seq<char>, Seq<char>, Seq<char>, Seq<char>)>::empty() by {
            assert(fewer[i] == corrections[i]);
        }
        lemma_nothing_subtracted(fewer);
        assert(subtracted_by(corrections[corrections.len() - 1]).len() == 0);
    }
}

/// Whether `semantic_memory::compression_governor::decide_quantization` leaves
/// an item of some importance, given in decimal notation, its full precision;
/// nothing where the importance is no number.
pub uninterp spec fn full_precision_at(importance: Seq<char>) -> Option<bool>;

/// `semantic_memory::compression_governor::decide_quantization`: whether an
/// item of some importance keeps its full precision. One of importance 0.5 does
/// not.
#[verifier::external_body]
fn keeps_full_precision(importance: &str) -> (r: Option<bool>)
    ensures
        r == full_precision_at(importance@),
        importance@ == "0.5"@ ==> r == Some(false),
{
    let importance = serde_json::from_str(importance).ok()?;
    let level = semantic_memory::compression_governor::decide_quantization(importance);
    Some(matches!(level, semantic_memory::compression_governor::QuantizationLevel::F32))
}

/// Whether an analysis is that of the given items in the given graph.
pub open spec fn is_analysis(
    analysis: ItemAnalysis,
    ids: Seq<Seq<char>>,
    edges: Seq<(Seq<char>, Seq<char>)>,
) -> bool {
    &&& analysis.syndromes == even_syndromes(ids)
    &&& analysis.corrections == corrections_for(even_syndromes(ids))
    &&& analysis.candidates@.len() == 0
    &&& community_views(analysis.communities@) == default_communities(edges)
    &&& edges.len() == 0 ==> analysis.communities@.len() == 0
    &&& !analysis.keeps_f32
}

/// Analyzes items, all of which score the same and are of middling importance,
/// and the graph around them.
pub fn analyze_items(item_ids: &Vec<String>, edges: &Vec<(String, String)>) -> (analysis:
    ItemAnalysis)
    ensures
        is_analysis(analysis, texts(item_ids@), pair_texts(edges@)),
{
    let syndromes = match detect_syndromes(item_ids, "0.5") {
        Some(found) => found,
        None => Vec::new(),
    };
    let corrections = match compute_corrections(&syndromes, "10.0") {
        Some(made) => made,
        None => Vec::new(),
    };
    proof {
        lemma_nothing_subtracted(corrections@);
    }
    let candidates = subtraction_candidates(&corrections);
    assert(candidates@.len() == subtracted(corrections@).len());
    let keeps_f32 = match keeps_full_precision("0.5") {
        Some(keeps) => keeps,
        None => false,
    };
    ItemAnalysis {
        syndromes: syndromes.len(),
        corrections: corrections.len(),
        candidates,
        communities: usual_communities(edges),
        keeps_f32,
    }
}

/// The number of items that remain after the candidates are subtracted.
pub open spec fn remaining_items(items: nat, candidates: nat) -> nat {
    if items > candidates {
        (items - candidates) as nat
    } else {
        0
    }
}

/// The summary of a lifecycle pass.
pub open spec fn lifecycle_summary(
    items: nat,
    syndromes: nat,
    corrections: nat,
    candidates: nat,
    triggered: bool,
) -> Seq<char> {
    "Analyzed "@ + decimal(items) + " items: "@ + decimal(syndromes) + " syndromes, "@ + (decimal(
        corrections,
    ) + " corrections, "@ + decimal(candidates) + " subtraction candidates, recompression: "@ + (
    if triggered {
        "needed"@
    } else {
        "not needed"@
    }))
}

/// The topology part of a lifecycle reply.
pub open spec fn lifecycle_topology(
    edges: Seq<(Seq<char>, Seq<char>)>,
    voids: Seq<StructuralVoid>,
) -> JsonView {
    fields().put("enabled"@, JsonView::Bool(edges.len() > 0)).put("voids"@, voids_json(voids)).put(
        "void_count"@,
        JsonView::Unsigned(voids.len() as u64),
    ).put(
        "betti_numbers"@,
        if edges.len() > 0 {
            betti_json(edges)
        } else {
            fields().put("betti_0"@, JsonView::Unsigned(0)).put(
                "betti_1"@,
                JsonView::Unsigned(0),
            ).object()
        },
    ).put("error"@, JsonView::Null).object()
}

/// The community part of a lifecycle reply.
pub open spec fn lifecycle_communities(
    enabled: bool,
    communities: Seq<DetectedCommunity>,
) -> JsonView {
    fields().put("enabled"@, JsonView::Bool(enabled)).put(
        "communities"@,
        JsonView::Array(Seq::new(communities.len(), |i: int| detected_json(communities[i]))),
    ).put("community_count"@, JsonView::Unsigned(communities.len() as u64)).put(
        "contradictions"@,
        JsonView::Array(Seq::empty()),
    ).put("contradiction_count"@, JsonView::Unsigned(0)).put(
        "error"@,
        JsonView::Null,
    ).object()
}

/// The pruning part of a lifecycle reply: nothing is pruned.
pub open spec fn lifecycle_subgraphs(edges: Seq<(Seq<char>, Seq<char>)>) -> JsonView {
    let identified = subgraphs_identified(edges);
    fields().put("enabled"@, JsonView::Bool(edges.len() > 0)).put(
        "subgraph_count"@,
        JsonView::Unsigned(
            if edges.len() > 0 {
                identified as u64
            } else {
                0
            },
        ),
    ).put("pruned_count"@, JsonView::Unsigned(0)).put(
        "summary"@,
        JsonView::Text(
            if edges.len() > 0 {
                maintenance_summary(identified, 0)
            } else {
                ""@
            },
        ),
    ).put("error"@, JsonView::Null).object()
}

/// The reply to a lifecycle pass, with the gaps that were found in the graph.
pub open spec fn lifecycle_reply(
    items: nat,
    edges: Seq<(Seq<char>, Seq<char>)>,
    analysis: ItemAnalysis,
    voids: Seq<StructuralVoid>,
) -> JsonView {
    let candidates = analysis.candidates@;
    let (triggered, reason) = recompression_after(
        candidates.len(),
        remaining_items(items, candidates.len()),
    );
    fields().put("ok"@, JsonView::Bool(true)).put(
        "items_analyzed"@,
        JsonView::Unsigned(items as u64),
    ).put("syndromes_detected"@, JsonView::Unsigned(analysis.syndromes as u64)).put(
        "corrections_computed"@,
        JsonView::Unsigned(analysis.corrections as u64),
    ).put(
        "subtraction_candidates"@,
        JsonView::Array(Seq::new(candidates.len(), |i: int| candidate_json(candidates[i]))),
    ).put("recompression_triggered"@, JsonView::Bool(triggered)).put(
        "recompression_reason"@,
        JsonView::Text(reason),
    ).put("topology"@, lifecycle_topology(edges, voids)).put(
        "community_detection"@,
        lifecycle_communities(edges.len() > 0, analysis.communities@),
    ).put("subgraph_pruning_assessment"@, lifecycle_subgraphs(edges)).put(
        "turbo_quantization_assessment"@,
        fields().put("items_assessed"@, JsonView::Unsigned(items as u64)).put(
            "would_retain_f32"@,
            JsonView::Unsigned(
                if analysis.keeps_f32 {
                    items as u64
                } else {
                    0
                },
            ),
        ).put(
            "would_compress"@,
            JsonView::Unsigned(
                if analysis.keeps_f32 {
                    0
                } else {
                    items as u64
                },
            ),
        ).object(),
    ).put(
        "summary"@,
        JsonView::Text(
            lifecycle_summary(
                items,
                analysis.syndromes as nat,
                analysis.corrections as nat,
                candidates.len(),
                triggered,
            ),
        ),
    ).object()
}

/// The topology part of a lifecycle reply.
fn describe_topology(edges: &Vec<(String, String)>, voids: &Vec<StructuralVoid>) -> (document: Json)
    ensures
        document@ == lifecycle_topology(pair_texts(edges@), voids@),
{
    let betti = if edges.len() > 0 {
        describe_betti(edges)
    } else {
        Fields::new().with_count("betti_0", 0).with_count("betti_1", 0).object()
    };
    Fields::new().with_bool("enabled", edges.len() > 0).with("voids", describe_voids(voids)).with_count(
        "void_count",
        voids.len(),
    ).with("betti_numbers", betti).with_null("error").object()
}

/// The pruning part of a lifecycle reply.
fn describe_subgraphs(edges: &Vec<(String, String)>) -> (document: Json)
    ensures
        document@ == lifecycle_subgraphs(pair_texts(edges@)),
{
    if edges.len() > 0 {
        let report = maintain_subgraphs(edges, &single_accesses(edges), &Vec::new(), 0);
        Fields::new().with_bool("enabled", true).with_count("subgraph_count", report.identified).with_count(
            "pruned_count",
            report.pruned.len(),
        ).with_text("summary", &report.summary).with_null("error").object()
    } else {
        Fields::new().with_bool("enabled", false).with_count("subgraph_count", 0).with_count(
            "pruned_count",
            0,
        ).with_text("summary", "").with_null("error").object()
    }
}

/// The reply to a lifecycle pass over items, given the stored edges, what the
/// analysis found and the gaps in the graph.
pub fn describe_lifecycle(
    item_ids: &Vec<String>,
    edges: &Vec<(String, String)>,
    analysis: &ItemAnalysis,
    voids: &Vec<StructuralVoid>,
) -> (reply: Json)
    ensures
        reply@ == lifecycle_reply(item_ids@.len(), pair_texts(edges@), *analysis, voids@),
        recompression_known(
            analysis.candidates@.len(),
            remaining_items(item_ids@.len(), analysis.candidates@.len()),
        ),
{
    let items: usize = item_ids.len();
    let candidates: usize = analysis.candidates.len();
    let remaining: usize = if items > candidates {
        items - candidates
    } else {
        0
    };
    let again = recompression(candidates, remaining);
    let conflicts = scan_communities(&analysis.communities, &Vec::new());
    assert(conflict_jsons(conflicts@).len() == conflicts@.len());
    assert(conflict_jsons(conflicts@) =~= Seq::empty());
    let communities = Fields::new().with_bool("enabled", edges.len() > 0).with(
        "communities",
        describe_communities(&analysis.communities),
    ).with_count("community_count", analysis.communities.len()).with(
        "contradictions",
        describe_conflicts(&conflicts),
    ).with_count("contradiction_count", conflicts.len()).with_null("error").object();
    let kept: usize = if analysis.keeps_f32 {
        items
    } else {
        0
    };
    let quantization = Fields::new().with_count("items_assessed", items).with_count(
        "would_retain_f32",
        kept,
    ).with_count("would_compress", items - kept).object();
    let needed = if again.triggered {
        "needed"
    } else {
        "not needed"
    };
    let tail = cat5(
        &decimal_text(analysis.corrections as u64),
        " corrections, ",
        &decimal_text(candidates as u64),
        " subtraction candidates, recompression: ",
        needed,
    );
    let head = cat5(
        "Analyzed ",
        &decimal_text(items as u64),
        " items: ",
        &decimal_text(analysis.syndromes as u64),
        " syndromes, ",
    );
    let summary = cat2(&head, &tail);
    Fields::new().with_bool("ok", true).with_count("items_analyzed", items).with_count(
        "syndromes_detected",
        analysis.syndromes,
    ).with_count("corrections_computed", analysis.corrections).with(
        "subtraction_candidates",
        describe_candidates(&analysis.candidates),
    ).with_bool("recompression_triggered", again.triggered).with_text(
        "recompression_reason",
        &again.reason,
    ).with("topology", describe_topology(edges, voids)).with("community_detection", communities).with(
        "subgraph_pruning_assessment",
        describe_subgraphs(edges),
    ).with("turbo_quantization_assessment", quantization).with_text("summary", &summary).object()
}

/// The reply to a lifecycle pass over items, given the stored edges and what
/// the analysis found.
pub fn finish_lifecycle(
    item_ids: &Vec<String>,
    edges: &Vec<(String, String)>,
    analysis: &ItemAnalysis,
) -> (reply: Json)
    ensures
        exists|voids: Seq<StructuralVoid>|
            reply@ == #[trigger] lifecycle_reply(
                item_ids@.len(),
                pair_texts(edges@),
                *analysis,
                voids,
            ) && are_voids_of(voids, pair_texts(edges@)),
        recompression_known(
            analysis.candidates@.len(),
            remaining_items(item_ids@.len(), analysis.candidates@.len()),
        ),
{
    let voids = find_voids(edges).voids;
    describe_lifecycle(item_ids, edges, analysis, &voids)
}

/// The reply to a lifecycle pass over items, given the stored edges.
pub fn run_lifecycle(item_ids: &Vec<String>, edges: &Vec<(String, String)>) -> (reply: Json)
    ensures
        exists|analysis: ItemAnalysis, voids: Seq<StructuralVoid>|
            reply@ == #[trigger] lifecycle_reply(
                item_ids@.len(),
                pair_texts(edges@),
                analysis,
                voids,
            ) && is_analysis(analysis, texts(item_ids@), pair_texts(edges@)) && are_voids_of(
                voids,
                pair_texts(edges@),
            ),
        recompression_known(0, item_ids@.len()),
{
    let analysis = analyze_items(item_ids, edges);
    finish_lifecycle(item_ids, edges, &analysis)
}

/// A lifecycle pass subtracts nothing: as many items remain as there were, and
/// the store need not be compressed again.
pub proof fn law_lifecycles_subtract_nothing(
    analysis: ItemAnalysis,
    ids: Seq<Seq<char>>,
    edges: Seq<(Seq<char>, Seq<char>)>,
)
    requires
        is_analysis(analysis, ids, edges),
        recompression_known(0, ids.len()),
    ensures
        remaining_items(ids.len(), analysis.candidates@.len()) == ids.len(),
        ids.len() <= EXACT_ITEMS ==> recompression_after(0, ids.len()) == (
            false,
            "subtraction below threshold — no recompression needed"@,
        ),
{
}

/// A lifecycle pass counts every item once: it says how many it looked at, and
/// those that would keep their precision and those that would be compressed are
/// together just as many.
pub proof fn law_lifecycles_assess_every_item(
    items: u64,
    edges: Seq<(Seq<char>, Seq<char>)>,
    analysis: ItemAnalysis,
    voids: Seq<StructuralVoid>,
)
    ensures
        ({
            let reply = lifecycle_reply(items as nat, edges, analysis, voids);
            &&& reply.member("items_analyzed"@) == Some(JsonView::Unsigned(items))
            &&& reply.member("syndromes_detected"@) == Some(
                JsonView::Unsigned(analysis.syndromes as u64),
            )
            &&& reply.member("corrections_computed"@) == Some(
                JsonView::Unsigned(analysis.corrections as u64),
            )
            &&& reply.member("turbo_quantization_assessment"@) matches Some(assessment)
                && assessment.member("would_retain_f32"@) matches Some(JsonView::Unsigned(kept))
                && assessment.member("would_compress"@) matches Some(JsonView::Unsigned(packed))
                && kept + packed == items && (kept == items || packed == items)
        }),
{
    reveal_strlit("ok");
    reveal_strlit("items_analyzed");
    reveal_strlit("syndromes_detected");
    reveal_strlit("corrections_computed");
    reveal_strlit("subtraction_candidates");
    reveal_strlit("recompression_triggered");
    reveal_strlit("recompression_reason");
    reveal_strlit("topology");
    reveal_strlit("community_detection");
    reveal_strlit("subgraph_pruning_assessment");
    reveal_strlit("turbo_quantization_assessment");
    reveal_strlit("items_assessed");
    reveal_strlit("would_retain_f32");
    reveal_strlit("would_compress");
    assert("ok"@.len() == 2 && "items_analyzed"@.len() == 14 && "syndromes_detected"@.len() == 18);
    assert("corrections_computed"@.len() == 20 && "subtraction_candidates"@.len() == 22);
    assert("recompression_triggered"@.len() == 23 && "recompression_reason"@.len() == 20);
    assert("corrections_computed"@[0] == 'c' && "recompression_reason"@[0] == 'r');
    assert("topology"@.len() == 8 && "community_detection"@.len() == 19);
    assert("subgraph_pruning_assessment"@.len() == 27);
    assert("turbo_quantization_assessment"@.len() == 29);
    assert("items_assessed"@.len() == 14 && "would_retain_f32"@.len() == 16);
    assert("would_compress"@.len() == 14 && "would_compress"@[0] == 'w');
    assert("items_assessed"@[0] == 'i');
    broadcast use crate::json::lemma_put_member, crate::json::lemma_no_member;

}

/// The community of a node is the last one that lists it; a node that none lists
/// has none.
pub proof fn law_items_are_in_the_last_listing_community(
    communities: Seq<DetectedCommunity>,
    node: Seq<char>,
)
    ensures
        listing_community(communities, node) is None <==> forall|i: int|
            0 <= i < communities.len() ==> !texts((#[trigger] communities[i]).members@).contains(
                node,
            ),
        listing_community(communities, node) matches Some(id) ==> exists|i: int|
            0 <= i < communities.len() && (#[trigger] communities[i]).id@ == id && texts(
                communities[i].members@,
            ).contains(node) && forall|j: int|
                i < j < communities.len() ==> !texts(
                    (#[trigger] communities[j]).members@,
                ).contains(node),
    decreases communities.len(),
{
    if communities.len() > 0 {
        let fewer = communities.drop_last();
        let last = communities.len() - 1;
        if texts(communities.last().members@).contains(node) {
            assert(texts(communities[last].members@).contains(node));
        } else {
            law_items_are_in_the_last_listing_community(fewer, node);
            if listing_community(fewer, node) is None {
                assert forall|i: int| 0 <= i < communities.len() implies !texts(
                    (#[trigger] communities[i]).members@,
                ).contains(node) by {
                    if i < last {
                        assert(fewer[i] == communities[i]);
                    }
                }
            } else {
                let id = listing_community(fewer, node)->0;
                let i = choose|i: int|
                    0 <= i < fewer.len() && (#[trigger] fewer[i]).id@ == id && texts(
                        fewer[i].members@,
                    ).contains(node) && forall|j: int|
                        i < j < fewer.len() ==> !texts((#[trigger] fewer[j]).members@).contains(
                            node,
                        );
                assert(communities[i] == fewer[i]);
                assert forall|j: int| i < j < communities.len() implies !texts(
                    (#[trigger] communities[j]).members@,
                ).contains(node) by {
                    if j < last {
                        assert(fewer[j] == communities[j]);
                    }
                }
            }
        }
    }
}

/// The contradictions that are told are just those both sides of which are in
/// one community, in their order, each with its community and its sides.
pub proof fn law_conflicts_are_within_a_community(
    communities: Seq<DetectedCommunity>,
    contradictions: Seq<(Seq<char>, Seq<char>)>,
) -> (offsets: Seq<int>)
    ensures
        conflicts_within(communities, contradictions).len() == offsets.len(),
        forall|n: int, m: int|
            0 <= n < m < offsets.len() ==> #[trigger] offsets[n] < #[trigger] offsets[m],
        forall|n: int|
            0 <= n < offsets.len() ==> 0 <= #[trigger] offsets[n] < contradictions.len() && {
                let told = conflicts_within(communities, contradictions)[n];
                let (a, b) = contradictions[offsets[n]];
                &&& told.text_member("item_a"@) == Some(a)
                &&& told.text_member("item_b"@) == Some(b)
                &&& told.text_member("community_id"@) == listing_community(communities, a)
            },
        forall|i: int|
            0 <= i < contradictions.len() ==> (offsets.contains(i) <==> listing_community(
                communities,
                (#[trigger] contradictions[i]).0,
            ) is Some && listing_community(communities, contradictions[i].0) == listing_community(
                communities,
                contradictions[i].1,
            )),
    decreases contradictions.len(),
{
    if contradictions.len() == 0 {
        Seq::empty()
    } else {
        let fewer = contradictions.drop_last();
        let last = contradictions.len() - 1;
        let before = law_conflicts_are_within_a_community(communities, fewer);
        let (a, b) = contradictions.last();
        let left = listing_community(communities, a);
        let offsets = if left is Some && left == listing_community(communities, b) {
            before.push(last)
        } else {
            before
        };
        let told = conflicts_within(communities, contradictions);
        reveal_strlit("community_id");
        reveal_strlit("item_a");
        reveal_strlit("item_b");
        reveal_strlit("description");
        assert("community_id"@.len() == 12 && "item_a"@.len() == 6 && "item_b"@.len() == 6);
        assert("item_a"@[5] == 'a' && "item_b"@[5] == 'b' && "description"@.len() == 11);
        assert forall|n: int| 0 <= n < offsets.len() implies 0 <= #[trigger] offsets[n]
            < contradictions.len() && {
            let (a, b) = contradictions[offsets[n]];
            &&& told[n].text_member("item_a"@) == Some(a)
            &&& told[n].text_member("item_b"@) == Some(b)
            &&& told[n].text_member("community_id"@) == listing_community(communities, a)
        } by {
            broadcast use crate::json::lemma_put_member, crate::json::lemma_no_member;

            if n < before.len() {
                assert(before[n] == offsets[n]);
                assert(fewer[before[n]] == contradictions[before[n]]);
            }
        }
        assert forall|n: int, m: int| 0 <= n < m < offsets.len() implies #[trigger] offsets[n]
            < #[trigger] offsets[m] by {
            assert(before[n] == offsets[n]);
            if m < before.len() {
                assert(before[m] == offsets[m]);
            }
        }
        assert forall|i: int| 0 <= i < contradictions.len() implies (offsets.contains(i)
            <==> listing_community(communities, (#[trigger] contradictions[i]).0) is Some
            && listing_community(communities, contradictions[i].0) == listing_community(
            communities,
            contradictions[i].1,
        )) by {
            if i < last {
                assert(fewer[i] == contradictions[i]);
                if before.contains(i) {
                    let n = choose|n: int| 0 <= n < before.len() && before[n] == i;
                    assert(offsets[n] == i);
                }
            } else if offsets.len() > before.len() {
                assert(offsets[before.len() as int] == i);
            }
            if offsets.contains(i) {
                let n = choose|n: int| 0 <= n < offsets.len() && offsets[n] == i;
                if n < before.len() {
                    assert(before[n] == i);
                    assert(before[n] < fewer.len());
                }
            }
        }
        offsets
    }
}

/// The references to missing items are counted one by one: those that begin with
/// `ref_` and name an item that is not in the list.
pub proof fn law_missing_references_are_counted(ids: Seq<Seq<char>>, n: int) -> (offsets: Seq<int>)
    requires
        0 <= n <= ids.len(),
    ensures
        orphans(ids, n) == offsets.len(),
        forall|k: int, m: int|
            0 <= k < m < offsets.len() ==> #[trigger] offsets[k] < #[trigger] offsets[m],
        forall|k: int| 0 <= k < offsets.len() ==> 0 <= #[trigger] offsets[k] < n,
        forall|i: int|
            0 <= i < n ==> (offsets.contains(i) <==> starts_with(#[trigger] ids[i], "ref_"@)
                && !ids.contains(after(ids[i], 4))),
    decreases n,
{
    if n <= 0 {
        Seq::empty()
    } else {
        let before = law_missing_references_are_counted(ids, n - 1);
        let id = ids[n - 1];
        let offsets = if starts_with(id, "ref_"@) && !ids.contains(after(id, 4)) {
            before.push(n - 1)
        } else {
            before
        };
        assert forall|k: int, m: int| 0 <= k < m < offsets.len() implies #[trigger] offsets[k]
            < #[trigger] offsets[m] by {
            assert(before[k] == offsets[k]);
            if m < before.len() {
                assert(before[m] == offsets[m]);
            }
        }
        assert forall|k: int| 0 <= k < offsets.len() implies 0 <= #[trigger] offsets[k] < n by {
            if k < before.len() {
                assert(before[k] == offsets[k]);
            }
        }
        assert forall|i: int| 0 <= i < n implies (offsets.contains(i) <==> starts_with(
            #[trigger] ids[i],
            "ref_"@,
        ) && !ids.contains(after(ids[i], 4))) by {
            if before.contains(i) {
                let k = choose|k: int| 0 <= k < before.len() && before[k] == i;
                assert(offsets[k] == i);
            }
            if offsets.contains(i) {
                let k = choose|k: int| 0 <= k < offsets.len() && offsets[k] == i;
                if k < before.len() {
                    assert(before[k] == i);
                }
            }
            if i == n - 1 && offsets.len() > before.len() {
                assert(offsets[before.len() as int] == i);
            }
        }
        offsets
    }
}

/// Different neighbours are unlinked: every item of a list without repetitions
/// but the first is one more syndrome.
pub proof fn law_different_neighbors_are_unlinked(ids: Seq<Seq<char>>)
    requires
        ids.len() > 0,
        forall|i: int, j: int|
            0 <= i && j == i + 1 && j < ids.len() ==> #[trigger] ids[i] != #[trigger] ids[j],
    ensures
        unlinked_neighbors(ids) == ids.len() - 1,
    decreases ids.len(),
{
    if ids.len() >= 2 {
        let fewer = ids.drop_last();
        assert forall|i: int, j: int| 0 <= i && j == i + 1 && j < fewer.len() implies (
        #[trigger] fewer[i]) != (#[trigger] fewer[j]) by {
            assert(ids[i] != ids[j]);
        }
        law_different_neighbors_are_unlinked(fewer);
        let n = ids.len() as int;
        assert(ids[n - 2] != ids[n - 1]);
    }
}

/// A tenth of the items is not more than a tenth; one item fewer that is left
/// makes it more.
pub proof fn law_a_tenth_is_not_more(subtracted: nat)
    requires
        subtracted > 0,
    ensures
        !more_than_a_tenth(subtracted, (9 * subtracted) as nat),
        more_than_a_tenth(subtracted, (9 * subtracted - 1) as nat),
        !more_than_a_tenth(0, subtracted),
{
}

/// More syndromes have no fewer corrections than syndromes, and none has none.
pub proof fn law_every_syndrome_has_a_correction(syndromes: nat)
    ensures
        corrections_for(0) == 0,
        corrections_for(syndromes) >= syndromes,
        syndromes < 19 ==> corrections_for(syndromes + 1) == 2 * corrections_for(syndromes) + 1,
{
    vstd::arithmetic::power2::lemma2_to64();
    lemma_power_exceeds(syndromes);
    vstd::arithmetic::power2::lemma_pow2_unfold(syndromes + 1);
}

/// A power of two exceeds its exponent.
proof fn lemma_power_exceeds(n: nat)
    ensures
        vstd::arithmetic::power2::pow2(n) >= n + 1,
    decreases n,
{
    if n == 0 {
        vstd::arithmetic::power2::lemma2_to64();
    } else {
        lemma_power_exceeds((n - 1) as nat);
        vstd::arithmetic::power2::lemma_pow2_unfold(n);
    }
}

/// From twenty syndromes on each has a correction, and all together have one more
/// as long as they are at most forty.
pub proof fn law_many_syndromes_are_corrected_one_by_one(syndromes: nat)
    requires
        syndromes >= 20,
    ensures
        syndromes <= 40 ==> corrections_for(syndromes) == syndromes + 1,
        syndromes > 40 ==> corrections_for(syndromes) == syndromes,
{
}

/// The smaller of two numbers is one of them, and no larger than either.
pub proof fn law_the_smaller_number_is_taken(n: nat, max: nat)
    ensures
        at_most(n, max) <= n,
        at_most(n, max) <= max,
        at_most(n, max) == n || at_most(n, max) == max,
{
}

}
