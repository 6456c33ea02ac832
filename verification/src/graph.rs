//! The knowledge graph as the tools see it: typed edges, supersession,
//! adjacency, communities and topology.
use crate::json::{copy_documents, fields, json_views, texts_json, Fields, Json, JsonView};
use crate::path::GraphPathOutcome;
use crate::text::{cat2, cat5, decimal, decimal_text, copy_texts, holds, optional_text, same_text, texts};
use vstd::multiset::Multiset;
use vstd::prelude::*;

verus! {

/// How many edges away from the seeds a neighbourhood reaches.
pub const NEIGHBORHOOD_HOPS: usize = 2;

/// How many nodes a neighbourhood holds at most.
pub const NEIGHBORHOOD_NODES: usize = 200;

/// The type of an edge.
pub enum EdgeKind {
    Semantic { cosine_similarity: Json },
    Temporal { delta_secs: u64 },
    Causal { confidence: Json, evidence_ids: Vec<String> },
    Entity { relation: String },
}

/// A stored edge. The type is missing where the stored one cannot be read.
pub struct EdgeRecord {
    pub source: String,
    pub target: String,
    pub kind: Option<EdgeKind>,
    pub weight: Json,
    pub metadata: Option<String>,
}

impl EdgeKind {
    /// The name of the type.
    pub open spec fn label_text(self) -> Seq<char> {
        match self {
            EdgeKind::Semantic { .. } => "semantic"@,
            EdgeKind::Temporal { .. } => "temporal"@,
            EdgeKind::Causal { .. } => "causal"@,
            EdgeKind::Entity { .. } => "entity"@,
        }
    }

    /// The description of the type in replies.
    pub open spec fn description(self) -> JsonView {
        match self {
            EdgeKind::Semantic { cosine_similarity } => fields().put(
                "type"@,
                JsonView::Text("semantic"@),
            ).put("cosine_similarity"@, cosine_similarity@).object(),
            EdgeKind::Temporal { delta_secs } => fields().put(
                "type"@,
                JsonView::Text("temporal"@),
            ).put("delta_secs"@, JsonView::Unsigned(delta_secs)).object(),
            EdgeKind::Causal { confidence, evidence_ids } => fields().put(
                "type"@,
                JsonView::Text("causal"@),
            ).put("confidence"@, confidence@).put(
                "evidence_ids"@,
                texts_json(texts(evidence_ids@)),
            ).object(),
            EdgeKind::Entity { relation } => fields().put("type"@, JsonView::Text("entity"@)).put(
                "relation"@,
                JsonView::Text(relation@),
            ).object(),
        }
    }

    /// The name of the type.
    pub fn label(&self) -> (s: &'static str)
        ensures
            s@ == self.label_text(),
    {
        match self {
            EdgeKind::Semantic { .. } => "semantic",
            EdgeKind::Temporal { .. } => "temporal",
            EdgeKind::Causal { .. } => "causal",
            EdgeKind::Entity { .. } => "entity",
        }
    }

    /// The description of the type in replies.
    pub fn describe(&self) -> (document: Json)
        ensures
            document@ == self.description(),
    {
        match self {
            EdgeKind::Semantic { cosine_similarity } => Fields::new().with_text(
                "type",
                "semantic",
            ).with("cosine_similarity", cosine_similarity.copy()).object(),
            EdgeKind::Temporal { delta_secs } => Fields::new().with_text("type", "temporal").with(
                "delta_secs",
                Json::Unsigned(*delta_secs),
            ).object(),
            EdgeKind::Causal { confidence, evidence_ids } => Fields::new().with_text(
                "type",
                "causal",
            ).with("confidence", confidence.copy()).with(
                "evidence_ids",
                Json::from_texts(evidence_ids),
            ).object(),
            EdgeKind::Entity { relation } => Fields::new().with_text("type", "entity").with_text(
                "relation",
                relation,
            ).object(),
        }
    }
}

/// How replies describe the edge type that `serde_json::from_str` reads in a
/// text as a `semantic_memory::GraphEdgeType`; nothing where it reads none.
pub uninterp spec fn kind_of_text(text: Seq<char>) -> Option<JsonView>;

/// How replies describe an edge type, where it is known.
pub open spec fn kind_described(kind: Option<EdgeKind>) -> Option<JsonView> {
    match kind {
        Some(kind) => Some(kind.description()),
        None => None,
    }
}

/// `serde_json::from_str` into a `semantic_memory::GraphEdgeType`, variant by
/// variant: which edge type a text holds, if any, depends on the text alone.
#[verifier::external_body]
fn parse_kind(text: &str) -> (kind: Option<EdgeKind>)
    ensures
        kind_described(kind) == kind_of_text(text@),
{
    let number = |n| {
        serde_json::Number::from_f64(n).map_or(Json::Null, |n| Json::Decimal(n.to_string()))
    };
    Some(match serde_json::from_str(text).ok()? {
        semantic_memory::GraphEdgeType::Semantic { cosine_similarity: n } => {
            EdgeKind::Semantic { cosine_similarity: number(n.into()) }
        },
        semantic_memory::GraphEdgeType::Temporal { delta_secs } => EdgeKind::Temporal { delta_secs },
        semantic_memory::GraphEdgeType::Causal { confidence: n, evidence_ids } => {
            EdgeKind::Causal { confidence: number(n.into()), evidence_ids }
        },
        semantic_memory::GraphEdgeType::Entity { relation } => EdgeKind::Entity { relation },
    })
}

/// An edge as the store lists it, with its type in the notation of the store.
pub fn listed_edge(
    source: &str,
    target: &str,
    edge_type: &str,
    weight: Json,
    metadata: &Option<String>,
) -> (edge: EdgeRecord)
    ensures
        edge.source@ == source@,
        edge.target@ == target@,
        kind_described(edge.kind) == kind_of_text(edge_type@),
        edge.weight@ == weight@,
        optional_text(edge.metadata) == optional_text(*metadata),
{
    EdgeRecord {
        source: source.to_owned(),
        target: target.to_owned(),
        kind: parse_kind(edge_type),
        weight,
        metadata: match metadata {
            Some(text) => Some(text.clone()),
            None => None,
        },
    }
}

impl EdgeRecord {
    /// The edge says that its target was superseded.
    pub open spec fn supersedes(self) -> bool {
        match self.kind {
            Some(EdgeKind::Entity { relation }) => relation@ == "supersedes"@,
            _ => false,
        }
    }

    /// Whether the edge says that its target was superseded.
    pub fn is_supersession(&self) -> (r: bool)
        ensures
            r == self.supersedes(),
    {
        match &self.kind {
            Some(EdgeKind::Entity { relation }) => same_text(relation, "supersedes"),
            _ => false,
        }
    }

    /// The name of the edge's type. An edge whose type cannot be read counts
    /// as an entity edge.
    pub fn label_or_entity(&self) -> (s: &'static str)
        ensures
            s@ == (match self.kind {
                Some(kind) => kind.label_text(),
                None => "entity"@,
            }),
    {
        match &self.kind {
            Some(kind) => kind.label(),
            None => "entity",
        }
    }
}

/// The edges that a stage looks at.
pub enum EdgeSelection {
    /// Every stored edge.
    All,
    /// The edges around some nodes.
    Around { seeds: Vec<String>, hops: usize, nodes: usize },
}

/// The edges around the seeds, or every edge where there are no seeds.
pub fn edges_around(seeds: &Vec<String>) -> (selection: EdgeSelection)
    ensures
        (match selection {
            EdgeSelection::All => seeds@.len() == 0,
            EdgeSelection::Around { seeds: chosen, hops, nodes } => seeds@.len() > 0 && chosen@
                == seeds@ && hops == NEIGHBORHOOD_HOPS && nodes == NEIGHBORHOOD_NODES,
        }),
{
    if seeds.len() == 0 {
        EdgeSelection::All
    } else {
        EdgeSelection::Around {
            seeds: copy_texts(seeds),
            hops: NEIGHBORHOOD_HOPS,
            nodes: NEIGHBORHOOD_NODES,
        }
    }
}

/// The targets of the supersession edges, in their order.
pub open spec fn superseded_in(edges: Seq<EdgeRecord>) -> Seq<Seq<char>>
    decreases edges.len(),
{
    if edges.len() == 0 {
        Seq::empty()
    } else if edges.last().supersedes() {
        superseded_in(edges.drop_last()).push(edges.last().target@)
    } else {
        superseded_in(edges.drop_last())
    }
}

/// The targets of the supersession edges, in their order.
pub fn superseded_targets(edges: &Vec<EdgeRecord>) -> (targets: Vec<String>)
    ensures
        texts(targets@) == superseded_in(edges@),
{
    let mut targets: Vec<String> = Vec::new();
    let mut i: usize = 0;
    assert(texts(targets@) =~= Seq::<Seq<char>>::empty());
    assert(edges@.subrange(0, 0) =~= Seq::<EdgeRecord>::empty());
    while i < edges.len()
        invariant
            i <= edges.len(),
            texts(targets@) == superseded_in(edges@.subrange(0, i as int)),
        decreases edges.len() - i,
    {
        let ghost before = targets@;
        assert(edges@.subrange(0, i as int + 1).drop_last() =~= edges@.subrange(0, i as int));
        if edges[i].is_supersession() {
            targets.push(edges[i].target.clone());
            assert(texts(targets@) =~= texts(before).push(edges@[i as int].target@));
        }
        i = i + 1;
    }
    assert(edges@.subrange(0, edges@.len() as int) =~= edges@);
    targets
}

/// A node is superseded exactly if some supersession edge leads to it.
pub proof fn law_superseded_nodes(edges: Seq<EdgeRecord>, node: Seq<char>)
    ensures
        superseded_in(edges).contains(node) <==> exists|i: int|
            0 <= i < edges.len() && (#[trigger] edges[i]).supersedes() && edges[i].target@ == node,
    decreases edges.len(),
{
    if edges.len() > 0 {
        let fewer = edges.drop_last();
        law_superseded_nodes(fewer, node);
        let last = edges.len() - 1;
        let before = superseded_in(fewer);
        if edges.last().supersedes() {
            assert(superseded_in(edges) == before.push(edges.last().target@));
            if edges.last().target@ == node {
                assert(superseded_in(edges)[before.len() as int] == node);
                assert(edges[last].supersedes());
            }
            if before.contains(node) {
                let k = choose|k: int| 0 <= k < before.len() && before[k] == node;
                assert(superseded_in(edges)[k] == node);
            }
            if superseded_in(edges).contains(node) && edges.last().target@ != node {
                let k = choose|k: int|
                    0 <= k < superseded_in(edges).len() && superseded_in(edges)[k] == node;
                assert(before[k] == node);
            }
        }
        if exists|i: int|
            0 <= i < fewer.len() && (#[trigger] fewer[i]).supersedes() && fewer[i].target@
                == node {
            let i = choose|i: int|
                0 <= i < fewer.len() && (#[trigger] fewer[i]).supersedes() && fewer[i].target@
                    == node;
            assert(edges[i] == fewer[i]);
        }
        if exists|i: int|
            0 <= i < edges.len() && (#[trigger] edges[i]).supersedes() && edges[i].target@
                == node {
            let i = choose|i: int|
                0 <= i < edges.len() && (#[trigger] edges[i]).supersedes() && edges[i].target@
                    == node;
            if i < last {
                assert(fewer[i] == edges[i]);
            }
        }
    }
}

/// The offsets of the edges whose type can be read, in their order.
pub open spec fn readable_in(edges: Seq<EdgeRecord>) -> Seq<int>
    decreases edges.len(),
{
    if edges.len() == 0 {
        Seq::empty()
    } else if edges.last().kind is Some {
        readable_in(edges.drop_last()).push(edges.len() - 1)
    } else {
        readable_in(edges.drop_last())
    }
}

/// The offsets of the edges whose type can be read, in their order.
pub fn readable_edges(edges: &Vec<EdgeRecord>) -> (indices: Vec<usize>)
    ensures
        indices@.map_values(|i: usize| i as int) == readable_in(edges@),
{
    let mut indices: Vec<usize> = Vec::new();
    let mut i: usize = 0;
    assert(indices@.map_values(|i: usize| i as int) =~= Seq::<int>::empty());
    assert(edges@.subrange(0, 0) =~= Seq::<EdgeRecord>::empty());
    while i < edges.len()
        invariant
            i <= edges.len(),
            indices@.map_values(|i: usize| i as int) == readable_in(edges@.subrange(0, i as int)),
        decreases edges.len() - i,
    {
        let ghost before = indices@;
        assert(edges@.subrange(0, i as int + 1).drop_last() =~= edges@.subrange(0, i as int));
        if edges[i].kind.is_some() {
            indices.push(i);
            assert(indices@.map_values(|i: usize| i as int) =~= before.map_values(
                |i: usize| i as int,
            ).push(i as int));
        }
        i = i + 1;
    }
    assert(edges@.subrange(0, edges@.len() as int) =~= edges@);
    indices
}

/// Lists kept by key.
pub type Groups<V> = Seq<(Seq<char>, Seq<V>)>;

/// The offset of the list of `key`, or the number of lists.
pub open spec fn group_index<V>(groups: Groups<V>, key: Seq<char>) -> int
    decreases groups.len(),
{
    if groups.len() == 0 || groups[0].0 == key {
        0
    } else {
        1 + group_index(groups.subrange(1, groups.len() as int), key)
    }
}

/// The lists with `value` appended to the one of `key`; a new list comes last.
pub open spec fn grouped_push<V>(groups: Groups<V>, key: Seq<char>, value: V) -> Groups<V> {
    let i = group_index(groups, key);
    if i < groups.len() {
        groups.update(i, (key, groups[i].1.push(value)))
    } else {
        groups.push((key, seq![value]))
    }
}

proof fn lemma_group_index<V>(groups: Groups<V>, key: Seq<char>, k: int)
    requires
        0 <= k <= groups.len(),
        forall|i: int| 0 <= i < k ==> (#[trigger] groups[i]).0 != key,
        k == groups.len() || groups[k].0 == key,
    ensures
        group_index(groups, key) == k,
    decreases groups.len(),
{
    if k > 0 {
        let rest = groups.subrange(1, groups.len() as int);
        assert forall|i: int| 0 <= i < k - 1 implies (#[trigger] rest[i]).0 != key by {
            assert(groups[i + 1].0 != key);
        }
        lemma_group_index(rest, key, k - 1);
    }
}

/// What an adjacency list says.
pub open spec fn adjacency_views(adjacency: Seq<(String, Vec<String>)>) -> Groups<Seq<char>> {
    Seq::new(adjacency.len(), |i: int| (adjacency[i].0@, texts(adjacency[i].1@)))
}

/// The neighbours of every node over undirected edges, in the order of the
/// edges.
pub open spec fn adjacency_of(edges: Seq<(Seq<char>, Seq<char>)>) -> Groups<Seq<char>>
    decreases edges.len(),
{
    if edges.len() == 0 {
        Seq::empty()
    } else {
        let (a, b) = edges.last();
        grouped_push(grouped_push(adjacency_of(edges.drop_last()), a, b), b, a)
    }
}

/// Appends a neighbour to the list of `node`.
fn add_neighbor(adjacency: &mut Vec<(String, Vec<String>)>, node: &str, neighbor: &str)
    ensures
        adjacency_views(final(adjacency)@) == grouped_push(
            adjacency_views(old(adjacency)@),
            node@,
            neighbor@,
        ),
{
    let ghost before = adjacency_views(adjacency@);
    let mut i: usize = 0;
    while i < adjacency.len() && !same_text(&adjacency[i].0, node)
        invariant
            i <= adjacency.len(),
            before == adjacency_views(adjacency@),
            forall|k: int| 0 <= k < i ==> (#[trigger] before[k]).0 != node@,
        decreases adjacency.len() - i,
    {
        i = i + 1;
    }
    proof {
        lemma_group_index(before, node@, i as int);
    }
    if i < adjacency.len() {
        let mut list = copy_texts(&adjacency[i].1);
        let ghost shorter = list@;
        list.push(neighbor.to_owned());
        assert(texts(list@) =~= texts(shorter).push(neighbor@));
        adjacency.set(i, (node.to_owned(), list));
    } else {
        let list = vec![neighbor.to_owned()];
        assert(texts(list@) =~= seq![neighbor@]);
        adjacency.push((node.to_owned(), list));
    }
    assert(adjacency_views(adjacency@) =~= grouped_push(before, node@, neighbor@));
}

/// The neighbours of every node over undirected edges, in the order of the
/// edges.
pub fn adjacency(edges: &Vec<(String, String)>) -> (r: Vec<(String, Vec<String>)>)
    ensures
        adjacency_views(r@) == adjacency_of(crate::json::pair_texts(edges@)),
        distinct_keys(adjacency_views(r@)),
{
    let mut r: Vec<(String, Vec<String>)> = Vec::new();
    let mut i: usize = 0;
    let ghost all = crate::json::pair_texts(edges@);
    assert(adjacency_views(r@) =~= Seq::empty());
    assert(all.subrange(0, 0) =~= Seq::empty());
    while i < edges.len()
        invariant
            i <= edges.len(),
            all == crate::json::pair_texts(edges@),
            adjacency_views(r@) == adjacency_of(all.subrange(0, i as int)),
        decreases edges.len() - i,
    {
        assert(all.subrange(0, i as int + 1).drop_last() =~= all.subrange(0, i as int));
        assert(all.subrange(0, i as int + 1).last() == (edges@[i as int].0@, edges@[i as int].1@));
        add_neighbor(&mut r, &edges[i].0, &edges[i].1);
        add_neighbor(&mut r, &edges[i].1, &edges[i].0);
        i = i + 1;
    }
    assert(all.subrange(0, all.len() as int) =~= all);
    proof {
        lemma_adjacency_keys(all);
    }
    r
}

/// The source and the target of every edge.
pub fn edge_pairs(edges: &Vec<EdgeRecord>) -> (r: Vec<(String, String)>)
    ensures
        crate::json::pair_texts(r@) == Seq::new(
            edges@.len(),
            |i: int| (edges@[i].source@, edges@[i].target@),
        ),
{
    let mut r: Vec<(String, String)> = Vec::new();
    let mut i: usize = 0;
    while i < edges.len()
        invariant
            i <= edges.len(),
            r.len() == i,
            forall|k: int|
                0 <= k < i ==> (#[trigger] r@[k]).0@ == edges@[k].source@ && r@[k].1@
                    == edges@[k].target@,
        decreases edges.len() - i,
    {
        r.push((edges[i].source.clone(), edges[i].target.clone()));
        i = i + 1;
    }
    assert(crate::json::pair_texts(r@) =~= Seq::new(
        edges@.len(),
        |i: int| (edges@[i].source@, edges@[i].target@),
    ));
    r
}

/// A community of nodes.
pub struct Community {
    pub id: String,
    pub members: Vec<String>,
}

/// The community of a node: the last one that lists it.
pub open spec fn community_of(communities: Seq<Community>, node: Seq<char>) -> Option<Seq<char>>
    decreases communities.len(),
{
    if communities.len() == 0 {
        None
    } else if texts(communities.last().members@).contains(node) {
        Some(communities.last().id@)
    } else {
        community_of(communities.drop_last(), node)
    }
}

/// The community of a node: the last one that lists it.
pub fn find_community(communities: &Vec<Community>, node: &str) -> (r: Option<String>)
    ensures
        optional_text(r) == community_of(communities@, node@),
{
    let mut i: usize = communities.len();
    assert(communities@.subrange(0, communities@.len() as int) =~= communities@);
    while i > 0
        invariant
            i <= communities.len(),
            community_of(communities@.subrange(0, i as int), node@) == community_of(
                communities@,
                node@,
            ),
        decreases i,
    {
        let ghost part = communities@.subrange(0, i as int);
        i = i - 1;
        assert(part.last() == communities@[i as int]);
        assert(part.drop_last() =~= communities@.subrange(0, i as int));
        if holds(&communities[i].members, node) {
            return Some(communities[i].id.clone());
        }
    }
    None
}

/// Results by community, and those without one.
pub struct GroupedView {
    pub groups: Groups<JsonView>,
    pub ungrouped: Seq<JsonView>,
}

/// Results by community, in their order; a result without an id is left out.
pub open spec fn grouped(results: Seq<JsonView>, communities: Seq<Community>) -> GroupedView
    decreases results.len(),
{
    if results.len() == 0 {
        GroupedView { groups: Seq::empty(), ungrouped: Seq::empty() }
    } else {
        let before = grouped(results.drop_last(), communities);
        match results.last().text_member("result_id"@) {
            None => before,
            Some(id) => match community_of(communities, id) {
                Some(c) => GroupedView {
                    groups: grouped_push(before.groups, "community_"@ + c, results.last()),
                    ..before
                },
                None => GroupedView { ungrouped: before.ungrouped.push(results.last()), ..before },
            },
        }
    }
}

/// The object of grouped results: a field for each community, and one for the
/// results without a community where there are any.
pub open spec fn grouped_json(view: GroupedView) -> JsonView {
    let named = Seq::new(
        view.groups.len(),
        |i: int| (view.groups[i].0, JsonView::Array(view.groups[i].1)),
    );
    if view.ungrouped.len() > 0 {
        JsonView::Object(named.push(("ungrouped"@, JsonView::Array(view.ungrouped))))
    } else {
        JsonView::Object(named)
    }
}

/// What a list of grouped documents says.
pub open spec fn group_views(groups: Seq<(String, Vec<Json>)>) -> Groups<JsonView> {
    Seq::new(groups.len(), |i: int| (groups[i].0@, json_views(groups[i].1@)))
}

/// Appends a document to the list of `key`.
fn add_to_group(groups: &mut Vec<(String, Vec<Json>)>, key: &str, value: Json)
    ensures
        group_views(final(groups)@) == grouped_push(group_views(old(groups)@), key@, value@),
{
    let ghost before = group_views(groups@);
    let mut i: usize = 0;
    while i < groups.len() && !same_text(&groups[i].0, key)
        invariant
            i <= groups.len(),
            before == group_views(groups@),
            forall|k: int| 0 <= k < i ==> (#[trigger] before[k]).0 != key@,
        decreases groups.len() - i,
    {
        i = i + 1;
    }
    proof {
        lemma_group_index(before, key@, i as int);
    }
    if i < groups.len() {
        let mut list = copy_documents(&groups[i].1);
        let ghost shorter = list@;
        list.push(value);
        assert(json_views(list@) =~= json_views(shorter).push(value@));
        groups.set(i, (key.to_owned(), list));
    } else {
        let mut list: Vec<Json> = Vec::new();
        list.push(value);
        assert(json_views(list@) =~= seq![value@]);
        groups.push((key.to_owned(), list));
    }
    assert(group_views(groups@) =~= grouped_push(before, key@, value@));
}

/// The results grouped by community.
pub fn group_results(results: &Vec<Json>, communities: &Vec<Community>) -> (document: Json)
    ensures
        document@ == grouped_json(grouped(json_views(results@), communities@)),
{
    let mut groups: Vec<(String, Vec<Json>)> = Vec::new();
    let mut ungrouped: Vec<Json> = Vec::new();
    let ghost all = json_views(results@);
    let mut i: usize = 0;
    assert(group_views(groups@) =~= Seq::empty());
    assert(json_views(ungrouped@) =~= Seq::empty());
    assert(all.subrange(0, 0) =~= Seq::empty());
    while i < results.len()
        invariant
            i <= results.len(),
            all == json_views(results@),
            group_views(groups@) == grouped(all.subrange(0, i as int), communities@).groups,
            json_views(ungrouped@) == grouped(all.subrange(0, i as int), communities@).ungrouped,
        decreases results.len() - i,
    {
        assert(all.subrange(0, i as int + 1).drop_last() =~= all.subrange(0, i as int));
        assert(all.subrange(0, i as int + 1).last() == results@[i as int]@);
        if let Some(id) = results[i].get_text("result_id") {
            match find_community(communities, id) {
                Some(c) => {
                    let key = cat2("community_", &c);
                    add_to_group(&mut groups, &key, results[i].copy());
                },
                None => {
                    let ghost before = ungrouped@;
                    ungrouped.push(results[i].copy());
                    assert(json_views(ungrouped@) =~= json_views(before).push(all[i as int]));
                },
            }
        }
        i = i + 1;
    }
    assert(all.subrange(0, all.len() as int) =~= all);
    let ghost view = grouped(all, communities@);
    let mut object = Fields::new();
    let ghost named = Seq::new(
        view.groups.len(),
        |k: int| (view.groups[k].0, JsonView::Array(view.groups[k].1)),
    );
    let mut k: usize = 0;
    assert(named.subrange(0, 0) =~= Seq::empty());
    while k < groups.len()
        invariant
            k <= groups.len(),
            view.groups == group_views(groups@),
            named == Seq::new(
                view.groups.len(),
                |k: int| (view.groups[k].0, JsonView::Array(view.groups[k].1)),
            ),
            object@.list == named.subrange(0, k as int),
        decreases groups.len() - k,
    {
        let list = Json::from_list(copy_documents(&groups[k].1));
        object = object.with(&groups[k].0, list);
        assert(named.subrange(0, k as int).push(named[k as int]) =~= named.subrange(
            0,
            k as int + 1,
        ));
        k = k + 1;
    }
    assert(named.subrange(0, named.len() as int) =~= named);
    if ungrouped.len() > 0 {
        object = object.with("ungrouped", Json::from_list(ungrouped));
    }
    object.object()
}

/// No two groups have the same key.
pub open spec fn distinct_keys<V>(groups: Groups<V>) -> bool {
    forall|i: int, j: int|
        0 <= i < j < groups.len() ==> (#[trigger] groups[i]).0 != (#[trigger] groups[j]).0
}

/// The first group called `key` is at its index.
proof fn lemma_group_found<V>(groups: Groups<V>, key: Seq<char>)
    ensures
        0 <= group_index(groups, key) <= groups.len(),
        forall|i: int|
            0 <= i < group_index(groups, key) ==> (#[trigger] groups[i]).0 != key,
        group_index(groups, key) < groups.len() ==> groups[group_index(groups, key)].0 == key,
    decreases groups.len(),
{
    if groups.len() > 0 && groups[0].0 != key {
        let rest = groups.subrange(1, groups.len() as int);
        lemma_group_found(rest, key);
        assert forall|i: int| 0 <= i < group_index(groups, key) implies (
        #[trigger] groups[i]).0 != key by {
            if i > 0 {
                assert(rest[i - 1].0 != key);
            }
        }
    }
}

/// Adding to a group keeps the keys distinct.
proof fn lemma_push_keeps_keys<V>(groups: Groups<V>, key: Seq<char>, value: V)
    requires
        distinct_keys(groups),
    ensures
        distinct_keys(grouped_push(groups, key, value)),
{
    lemma_group_found(groups, key);
}

/// An adjacency list has one entry for each node.
proof fn lemma_adjacency_keys(edges: Seq<(Seq<char>, Seq<char>)>)
    ensures
        distinct_keys(adjacency_of(edges)),
    decreases edges.len(),
{
    if edges.len() > 0 {
        let (a, b) = edges.last();
        let before = adjacency_of(edges.drop_last());
        lemma_adjacency_keys(edges.drop_last());
        lemma_push_keeps_keys(before, a, b);
        lemma_push_keeps_keys(grouped_push(before, a, b), b, a);
    }
}

/// The nodes that an adjacency list names.
pub open spec fn named_nodes(adjacency: Groups<Seq<char>>) -> Set<Seq<char>> {
    Set::new(
        |n: Seq<char>|
            exists|i: int|
                0 <= i < adjacency.len() && ((#[trigger] adjacency[i]).0 == n
                    || adjacency[i].1.contains(n)),
    )
}

/// One of the two nodes lists the other.
pub open spec fn adjacent(adjacency: Groups<Seq<char>>, a: Seq<char>, b: Seq<char>) -> bool {
    exists|i: int|
        0 <= i < adjacency.len() && ((#[trigger] adjacency[i]).0 == a && adjacency[i].1.contains(b)
            || adjacency[i].0 == b && adjacency[i].1.contains(a))
}

/// Each node of a walk is adjacent to the next.
pub open spec fn is_walk(adjacency: Groups<Seq<char>>, walk: Seq<Seq<char>>) -> bool {
    walk.len() > 0 && forall|i: int, j: int|
        0 <= i && j == i + 1 && j < walk.len() ==> adjacent(
            adjacency,
            #[trigger] walk[i],
            #[trigger] walk[j],
        )
}

/// The nodes that can be reached from a node: its connected component.
pub open spec fn component_of(adjacency: Groups<Seq<char>>, node: Seq<char>) -> Set<Seq<char>> {
    Set::new(
        |n: Seq<char>|
            exists|walk: Seq<Seq<char>>|
                #[trigger] is_walk(adjacency, walk) && walk[0] == node && walk.last() == n,
    )
}

/// The connected components of a graph.
pub open spec fn components(adjacency: Groups<Seq<char>>) -> Set<Set<Seq<char>>> {
    Set::new(
        |c: Set<Seq<char>>|
            exists|n: Seq<char>|
                named_nodes(adjacency).contains(n) && c == #[trigger] component_of(adjacency, n),
    )
}

/// The pairs of different nodes that are adjacent.
pub open spec fn adjacent_pairs(adjacency: Groups<Seq<char>>) -> Set<Set<Seq<char>>> {
    Set::new(
        |pair: Set<Seq<char>>|
            exists|a: Seq<char>, b: Seq<char>|
                a != b && #[trigger] adjacent(adjacency, a, b) && pair == set![a, b],
    )
}

/// The Betti numbers of an undirected graph: its connected components, and its
/// independent cycles.
pub open spec fn betti_counts(adjacency: Groups<Seq<char>>) -> (nat, nat) {
    let nodes = named_nodes(adjacency).len();
    let parts = components(adjacency).len();
    let pairs = adjacent_pairs(adjacency).len();
    (
        parts,
        if pairs + parts > nodes {
            (pairs + parts - nodes) as nat
        } else {
            0
        },
    )
}

/// `semantic_memory::topology::compute_betti_numbers` of an adjacency list: the
/// number of connected components and the number of independent cycles, which
/// is that of the adjacent pairs less the nodes plus the components. The list
/// becomes a map, so a node has one entry.
#[verifier::external_body]
pub(crate) fn betti_numbers(adjacency: &Vec<(String, Vec<String>)>) -> (r: (usize, usize))
    requires
        distinct_keys(adjacency_views(adjacency@)),
    ensures
        (r.0 as nat, r.1 as nat) == betti_counts(adjacency_views(adjacency@)),
{
    let betti = semantic_memory::topology::compute_betti_numbers(&adjacency.iter().cloned().collect());
    (betti.betti_0, betti.betti_1)
}

/// A graph without edges has no components and no cycles.
pub(crate) proof fn lemma_empty_graph(edges: Seq<(Seq<char>, Seq<char>)>)
    requires
        edges.len() == 0,
    ensures
        betti_counts(adjacency_of(edges)) == (0nat, 0nat),
{
    let none = adjacency_of(edges);
    assert(components(none) =~= Set::empty());
    assert(adjacent_pairs(none) =~= Set::empty());
    assert(named_nodes(none) =~= Set::empty());
}

/// A gap in the structure of the graph.
pub struct StructuralVoid {
    pub description: String,
    pub void_type: String,
    pub nearby_items: Vec<String>,
    pub suggested_connections: Vec<(String, String)>,
}

/// The gaps in the structure of a graph, with a report on them.
pub struct VoidScan {
    pub voids: Vec<StructuralVoid>,
    pub report: String,
}

/// How many gaps are of a type.
pub open spec fn voids_of_type(voids: Seq<StructuralVoid>, name: Seq<char>) -> nat
    decreases voids.len(),
{
    if voids.len() == 0 {
        0
    } else {
        voids_of_type(voids.drop_last(), name) + (if voids.last().void_type@ == name {
            1nat
        } else {
            0nat
        })
    }
}

/// The report on gaps: how many there are, how many of each type, and a line
/// for each.
pub open spec fn void_report(voids: Seq<StructuralVoid>) -> Seq<char> {
    "Topological void report: "@ + decimal(voids.len()) + " void(s)\nMissingLink: "@ + decimal(
        voids_of_type(voids, "MissingLink"@),
    ) + "\nMissingContext: "@ + decimal(voids_of_type(voids, "MissingContext"@))
        + "\nContradictionGap: "@ + decimal(voids_of_type(voids, "ContradictionGap"@))
        + "\nDetails:"@ + void_lines(voids)
}

/// A line for each gap.
pub open spec fn void_lines(voids: Seq<StructuralVoid>) -> Seq<char>
    decreases voids.len(),
{
    if voids.len() == 0 {
        Seq::empty()
    } else {
        void_lines(voids.drop_last()) + "\n- "@ + voids.last().void_type@ + ": "@
            + voids.last().description@
    }
}

/// A gap as plain values: its description, its type, the items near it and the
/// connections that would close it.
pub open spec fn void_view(void: StructuralVoid) -> (
    Seq<char>,
    Seq<char>,
    Seq<Seq<char>>,
    Seq<(Seq<char>, Seq<char>)>,
) {
    (
        void.description@,
        void.void_type@,
        texts(void.nearby_items@),
        crate::json::pair_texts(void.suggested_connections@),
    )
}

/// Gaps as plain values.
pub open spec fn void_views(voids: Seq<StructuralVoid>) -> Seq<
    (Seq<char>, Seq<char>, Seq<Seq<char>>, Seq<(Seq<char>, Seq<char>)>),
> {
    Seq::new(voids.len(), |i: int| void_view(voids[i]))
}

/// The gaps that `semantic_memory::topology::find_voids` finds between edges, in
/// no order.
pub uninterp spec fn voids_among(edges: Seq<(Seq<char>, Seq<char>)>) -> Multiset<
    (Seq<char>, Seq<char>, Seq<Seq<char>>, Seq<(Seq<char>, Seq<char>)>),
>;

/// The gaps are those between the edges, in some order.
pub open spec fn are_voids_of(
    voids: Seq<StructuralVoid>,
    edges: Seq<(Seq<char>, Seq<char>)>,
) -> bool {
    &&& void_views(voids).to_multiset() == voids_among(edges)
    &&& edges.len() == 0 ==> voids.len() == 0
}

/// `semantic_memory::topology::find_voids` of an edge list, and
/// `semantic_memory::topology::gap_report` on what it found. Which gaps there are
/// depends on the edges alone, and without edges there are none. Some are found
/// by walking a hash map, so their order is not stated.
#[verifier::external_body]
pub(crate) fn find_voids(edges: &Vec<(String, String)>) -> (scan: VoidScan)
    ensures
        void_views(scan.voids@).to_multiset() == voids_among(crate::json::pair_texts(edges@)),
        edges@.len() == 0 ==> scan.voids@.len() == 0,
        scan.report@ == void_report(scan.voids@),
{
    let found = semantic_memory::topology::find_voids(edges);
    let report = semantic_memory::topology::gap_report(&found);
    let voids = found.into_iter().map(|v| StructuralVoid {
        description: v.description,
        void_type: format!("{:?}", v.void_type),
        nearby_items: v.nearby_items,
        suggested_connections: v.suggested_connections,
    }).collect();
    VoidScan { voids, report }
}

/// An edge on a path, with what the graph says of it.
pub struct PathEdge {
    pub source: String,
    pub target: String,
    pub kind: EdgeKind,
    pub weight: Json,
    pub metadata: Json,
}

impl PathEdge {
    /// The edge joins the two nodes, in either direction.
    pub open spec fn joins(self, a: Seq<char>, b: Seq<char>) -> bool {
        (self.source@ == a && self.target@ == b) || (self.source@ == b && self.target@ == a)
    }

    /// Whether the edge joins the two nodes, in either direction.
    pub fn connects(&self, a: &str, b: &str) -> (r: bool)
        ensures
            r == self.joins(a@, b@),
    {
        (same_text(&self.source, a) && same_text(&self.target, b)) || (same_text(&self.source, b)
            && same_text(&self.target, a))
    }
}

/// The offset of the first edge that joins the two nodes, or their number.
pub open spec fn joining_index(edges: Seq<PathEdge>, a: Seq<char>, b: Seq<char>) -> int
    decreases edges.len(),
{
    if edges.len() == 0 || edges[0].joins(a, b) {
        0
    } else {
        1 + joining_index(edges.subrange(1, edges.len() as int), a, b)
    }
}

proof fn lemma_joining_index(edges: Seq<PathEdge>, a: Seq<char>, b: Seq<char>, k: int)
    requires
        0 <= k <= edges.len(),
        forall|i: int| 0 <= i < k ==> !(#[trigger] edges[i]).joins(a, b),
        k == edges.len() || edges[k].joins(a, b),
    ensures
        joining_index(edges, a, b) == k,
    decreases edges.len(),
{
    if k > 0 {
        let rest = edges.subrange(1, edges.len() as int);
        assert forall|i: int| 0 <= i < k - 1 implies !(#[trigger] rest[i]).joins(a, b) by {
            assert(!edges[i + 1].joins(a, b));
        }
        lemma_joining_index(rest, a, b, k - 1);
    }
}

/// One hop of a path with its evidence: the first edge at the node that joins
/// it to the next, or nothing if the edges cannot be had or none does.
pub open spec fn segment_json(
    edges: Option<Vec<PathEdge>>,
    a: Seq<char>,
    b: Seq<char>,
) -> JsonView {
    let ends = fields().put("source"@, JsonView::Text(a)).put("target"@, JsonView::Text(b));
    let found = edges is Some && joining_index(edges->0@, a, b) < edges->0@.len();
    if found {
        let edge = edges->0@[joining_index(edges->0@, a, b)];
        ends.put("edge_type"@, edge.kind.description()).put("weight"@, edge.weight@).put(
            "metadata"@,
            edge.metadata@,
        ).object()
    } else {
        ends.put("edge_type"@, JsonView::Null).put("weight"@, JsonView::Null).put(
            "metadata"@,
            JsonView::Null,
        ).object()
    }
}

/// One hop of a path with its evidence.
fn path_segment(edges: &Option<Vec<PathEdge>>, a: &str, b: &str) -> (document: Json)
    ensures
        document@ == segment_json(*edges, a@, b@),
{
    let ends = Fields::new().with_text("source", a).with_text("target", b);
    if let Some(list) = edges {
        let mut i: usize = 0;
        while i < list.len()
            invariant
                i <= list.len(),
                *edges == Some(*list),
                ends@ == fields().put("source"@, JsonView::Text(a@)).put(
                    "target"@,
                    JsonView::Text(b@),
                ),
                forall|k: int| 0 <= k < i ==> !(#[trigger] list@[k]).joins(a@, b@),
            decreases list.len() - i,
        {
            if list[i].connects(a, b) {
                proof {
                    lemma_joining_index(list@, a@, b@, i as int);
                }
                let edge = &list[i];
                return ends.with("edge_type", edge.kind.describe()).with(
                    "weight",
                    edge.weight.copy(),
                ).with("metadata", edge.metadata.copy()).object();
            }
            i = i + 1;
        }
        proof {
            lemma_joining_index(list@, a@, b@, list@.len() as int);
        }
    }
    ends.with_null("edge_type").with_null("weight").with_null("metadata").object()
}

/// The hops of a path, given the edges at each of its nodes but the last.
pub open spec fn segments_json(
    path: Seq<Seq<char>>,
    edges_at: Seq<Option<Vec<PathEdge>>>,
) -> Seq<JsonView> {
    Seq::new(
        (if path.len() > 0 {
            path.len() - 1
        } else {
            0
        }) as nat,
        |i: int| segment_json(edges_at[i], path[i], path[i + 1]),
    )
}

/// The hops of a path, given the edges at each of its nodes but the last.
pub fn build_path_segments(path: &Vec<String>, edges_at: &Vec<Option<Vec<PathEdge>>>) -> (segments:
    Vec<Json>)
    requires
        path@.len() <= edges_at@.len() + 1,
    ensures
        json_views(segments@) == segments_json(texts(path@), edges_at@),
{
    let mut segments: Vec<Json> = Vec::new();
    let mut i: usize = 0;
    while i < edges_at.len() && i + 1 < path.len()
        invariant
            path@.len() <= edges_at@.len() + 1,
            i <= edges_at@.len(),
            i == 0 || i < path@.len(),
            segments.len() == i,
            forall|k: int|
                0 <= k < i ==> (#[trigger] segments@[k])@ == segment_json(
                    edges_at@[k],
                    path@[k]@,
                    path@[k + 1]@,
                ),
        decreases edges_at.len() - i,
    {
        segments.push(path_segment(&edges_at[i], &path[i], &path[i + 1]));
        i = i + 1;
    }
    assert(json_views(segments@) =~= segments_json(texts(path@), edges_at@));
    segments
}

/// The reply to a search for a path.
pub open spec fn path_reply(
    outcome: GraphPathOutcome,
    from: Seq<char>,
    to: Seq<char>,
    depth: nat,
    segments: Seq<JsonView>,
) -> JsonView {
    match outcome {
        GraphPathOutcome::Found(path) => fields().put("ok"@, JsonView::Bool(true)).put(
            "outcome"@,
            JsonView::Text("Found"@),
        ).put("from"@, JsonView::Text(from)).put("to"@, JsonView::Text(to)).put(
            "path"@,
            texts_json(texts(path@)),
        ).put("path_length"@, JsonView::Unsigned(path@.len() as u64)).put(
            "segments"@,
            JsonView::Array(segments),
        ).object(),
        GraphPathOutcome::NoPathWithinCompleteSearch => fields().put(
            "ok"@,
            JsonView::Bool(true),
        ).put("outcome"@, JsonView::Text("NoPathWithinCompleteSearch"@)).put(
            "from"@,
            JsonView::Text(from),
        ).put("to"@, JsonView::Text(to)).put("path"@, JsonView::Null).put(
            "message"@,
            JsonView::Text(
                "No path found from "@ + from + " to "@ + to + (" within depth "@ + decimal(depth)),
            ),
        ).object(),
        GraphPathOutcome::BudgetExceeded => fields().put("ok"@, JsonView::Bool(false)).put(
            "outcome"@,
            JsonView::Text("BudgetExceeded"@),
        ).put("from"@, JsonView::Text(from)).put("to"@, JsonView::Text(to)).put(
            "path"@,
            JsonView::Null,
        ).put(
            "budget"@,
            fields().put("max_depth"@, JsonView::Unsigned(depth as u64)).object(),
        ).object(),
        GraphPathOutcome::InvalidEndpoint(endpoint) => fields().put(
            "ok"@,
            JsonView::Bool(false),
        ).put("outcome"@, JsonView::Text("InvalidEndpoint"@)).put(
            "invalid_endpoint"@,
            JsonView::Text(endpoint@),
        ).put("from"@, JsonView::Text(from)).put("to"@, JsonView::Text(to)).put(
            "path"@,
            JsonView::Null,
        ).object(),
    }
}

/// The reply to a search for a path; `segments` are the hops of a found one.
pub fn graph_path_reply(
    outcome: &GraphPathOutcome,
    from: &str,
    to: &str,
    depth: usize,
    segments: Vec<Json>,
) -> (reply: Json)
    ensures
        reply@ == path_reply(*outcome, from@, to@, depth as nat, json_views(segments@)),
{
    match outcome {
        GraphPathOutcome::Found(path) => Fields::new().with_bool("ok", true).with_text(
            "outcome",
            "Found",
        ).with_text("from", from).with_text("to", to).with("path", Json::from_texts(path)).with_count(
            "path_length",
            path.len(),
        ).with("segments", Json::from_list(segments)).object(),
        GraphPathOutcome::NoPathWithinCompleteSearch => {
            let depth_text = cat2(" within depth ", &decimal_text(depth as u64));
            let message = cat5("No path found from ", from, " to ", to, &depth_text);
            Fields::new().with_bool("ok", true).with_text(
                "outcome",
                "NoPathWithinCompleteSearch",
            ).with_text("from", from).with_text("to", to).with_null("path").with_text(
                "message",
                &message,
            ).object()
        },
        GraphPathOutcome::BudgetExceeded => Fields::new().with_bool("ok", false).with_text(
            "outcome",
            "BudgetExceeded",
        ).with_text("from", from).with_text("to", to).with_null("path").with(
            "budget",
            Fields::new().with_count("max_depth", depth).object(),
        ).object(),
        GraphPathOutcome::InvalidEndpoint(endpoint) => Fields::new().with_bool(
            "ok",
            false,
        ).with_text("outcome", "InvalidEndpoint").with_text(
            "invalid_endpoint",
            endpoint,
        ).with_text("from", from).with_text("to", to).with_null("path").object(),
    }
}

/// A node is superseded exactly if some entity edge of the relation
/// `supersedes` leads to it.
pub proof fn law_supersession_is_an_entity_relation(edges: Seq<EdgeRecord>, node: Seq<char>)
    ensures
        superseded_in(edges).contains(node) <==> exists|i: int|
            0 <= i < edges.len() && (#[trigger] edges[i]).target@ == node && edges[i].kind is Some
                && edges[i].kind->0 is Entity && edges[i].kind->0->relation@ == "supersedes"@,
{
    law_superseded_nodes(edges, node);
}

/// The edges whose type can be read are all of them, in the order of the edges.
pub proof fn law_readable_edges_are_complete(edges: Seq<EdgeRecord>)
    ensures
        ({
            let found = readable_in(edges);
            &&& forall|n: int|
                0 <= n < found.len() ==> 0 <= #[trigger] found[n] < edges.len()
                    && edges[found[n]].kind is Some
            &&& forall|n: int, m: int|
                0 <= n < m < found.len() ==> #[trigger] found[n] < #[trigger] found[m]
            &&& forall|i: int|
                0 <= i < edges.len() && (#[trigger] edges[i]).kind is Some ==> found.contains(i)
        }),
    decreases edges.len(),
{
    if edges.len() > 0 {
        let fewer = edges.drop_last();
        let found = readable_in(edges);
        let before = readable_in(fewer);
        law_readable_edges_are_complete(fewer);
        assert forall|n: int| 0 <= n < found.len() implies 0 <= #[trigger] found[n] < edges.len()
            && edges[found[n]].kind is Some by {
            if n < before.len() {
                assert(before[n] == found[n]);
                assert(fewer[before[n]] == edges[before[n]]);
            }
        }
        assert forall|n: int, m: int| 0 <= n < m < found.len() implies #[trigger] found[n]
            < #[trigger] found[m] by {
            assert(before[n] == found[n]);
            if m < before.len() {
                assert(before[m] == found[m]);
            }
        }
        assert forall|i: int|
            0 <= i < edges.len() && (#[trigger] edges[i]).kind is Some implies found.contains(i) by {
            if i < fewer.len() {
                assert(fewer[i] == edges[i]);
                let n = choose|n: int| 0 <= n < before.len() && before[n] == i;
                assert(found[n] == i);
            } else {
                assert(found[before.len() as int] == i);
            }
        }
    }
}

/// Some list of `key` holds `value`.
pub open spec fn lists<V>(groups: Groups<V>, key: Seq<char>, value: V) -> bool {
    exists|i: int|
        0 <= i < groups.len() && (#[trigger] groups[i]).0 == key && groups[i].1.contains(value)
}

/// Appending to a list adds the value there and changes no other list.
proof fn lemma_lists_after_push<V>(
    groups: Groups<V>,
    key: Seq<char>,
    value: V,
    other: Seq<char>,
    sought: V,
)
    ensures
        lists(grouped_push(groups, key, value), other, sought) <==> lists(groups, other, sought) || (
        other == key && sought == value),
{
    let more = grouped_push(groups, key, value);
    let k = group_index(groups, key);
    lemma_group_found(groups, key);
    if lists(groups, other, sought) {
        let i = choose|i: int|
            0 <= i < groups.len() && (#[trigger] groups[i]).0 == other && groups[i].1.contains(
                sought,
            );
        if i == k {
            let n = choose|n: int| 0 <= n < groups[i].1.len() && groups[i].1[n] == sought;
            assert(more[i].1[n] == sought);
        }
        assert(more[i].0 == other && more[i].1.contains(sought));
    }
    if other == key && sought == value {
        assert(more[k].1.last() == value);
        assert(more[k].1[more[k].1.len() - 1] == value);
        assert(more[k].0 == other && more[k].1.contains(sought));
    }
    if lists(more, other, sought) {
        let i = choose|i: int|
            0 <= i < more.len() && (#[trigger] more[i]).0 == other && more[i].1.contains(sought);
        let n = choose|n: int| 0 <= n < more[i].1.len() && more[i].1[n] == sought;
        if i < groups.len() && i != k {
            assert(more[i] == groups[i]);
        } else if i < groups.len() {
            if n < groups[i].1.len() {
                assert(groups[i].1[n] == sought);
                assert(groups[i].0 == other && groups[i].1.contains(sought));
            }
        }
    }
}

/// The neighbours of a node are the nodes that an edge joins it to, in either
/// direction, and no others.
pub proof fn law_neighbors_are_joined_by_edges(
    edges: Seq<(Seq<char>, Seq<char>)>,
    node: Seq<char>,
    neighbor: Seq<char>,
)
    ensures
        lists(adjacency_of(edges), node, neighbor) <==> edges.contains((node, neighbor))
            || edges.contains((neighbor, node)),
        lists(adjacency_of(edges), node, neighbor) <==> lists(adjacency_of(edges), neighbor, node),
    decreases edges.len(),
{
    if edges.len() > 0 {
        let fewer = edges.drop_last();
        let (a, b) = edges.last();
        let before = adjacency_of(fewer);
        law_neighbors_are_joined_by_edges(fewer, node, neighbor);
        lemma_lists_after_push(before, a, b, node, neighbor);
        lemma_lists_after_push(grouped_push(before, a, b), b, a, node, neighbor);
        lemma_lists_after_push(before, a, b, neighbor, node);
        lemma_lists_after_push(grouped_push(before, a, b), b, a, neighbor, node);
        lemma_contains_last(edges, (node, neighbor));
        lemma_contains_last(edges, (neighbor, node));
    }
}

/// A list contains what it contains without its last item, and that item.
proof fn lemma_contains_last<A>(s: Seq<A>, x: A)
    requires
        s.len() > 0,
    ensures
        s.contains(x) <==> s.drop_last().contains(x) || s.last() == x,
{
    if s.drop_last().contains(x) {
        let i = choose|i: int| 0 <= i < s.drop_last().len() && s.drop_last()[i] == x;
        assert(s[i] == x);
    }
    if s.last() == x {
        assert(s[s.len() - 1] == x);
    }
    if s.contains(x) && s.last() != x {
        let i = choose|i: int| 0 <= i < s.len() && s[i] == x;
        assert(s.drop_last()[i] == x);
    }
}

/// A node is in the last community that lists it, and in none where none does.
pub proof fn law_nodes_are_in_the_last_community(communities: Seq<Community>, node: Seq<char>)
    ensures
        (match community_of(communities, node) {
            Some(id) => exists|i: int|
                0 <= i < communities.len() && (#[trigger] communities[i]).id@ == id && texts(
                    communities[i].members@,
                ).contains(node) && (forall|j: int|
                    i < j < communities.len() ==> !texts(
                        (#[trigger] communities[j]).members@,
                    ).contains(node)),
            None => forall|i: int|
                0 <= i < communities.len() ==> !texts((#[trigger] communities[i]).members@).contains(
                    node,
                ),
        }),
    decreases communities.len(),
{
    if communities.len() > 0 {
        let fewer = communities.drop_last();
        let last = communities.len() - 1;
        law_nodes_are_in_the_last_community(fewer, node);
        if texts(communities.last().members@).contains(node) {
            assert(communities[last].id@ == communities.last().id@);
        } else {
            match community_of(fewer, node) {
                Some(id) => {
                    let i = choose|i: int|
                        0 <= i < fewer.len() && (#[trigger] fewer[i]).id@ == id && texts(
                            fewer[i].members@,
                        ).contains(node) && (forall|j: int|
                            i < j < fewer.len() ==> !texts((#[trigger] fewer[j]).members@).contains(
                                node,
                            ));
                    assert(communities[i] == fewer[i]);
                    assert forall|j: int| i < j < communities.len() implies !texts(
                        (#[trigger] communities[j]).members@,
                    ).contains(node) by {
                        if j < last {
                            assert(fewer[j] == communities[j]);
                        }
                    }
                },
                None => {
                    assert forall|i: int| 0 <= i < communities.len() implies !texts(
                        (#[trigger] communities[i]).members@,
                    ).contains(node) by {
                        if i < last {
                            assert(fewer[i] == communities[i]);
                        }
                    }
                },
            }
        }
    }
}

/// Grouping shows every identified result under the community of its node, or
/// among those without one, and shows it nowhere else; what it shows, it was
/// given.
pub proof fn law_results_are_grouped_by_community(
    results: Seq<JsonView>,
    communities: Seq<Community>,
    key: Seq<char>,
    result: JsonView,
)
    ensures
        lists(grouped(results, communities).groups, key, result) <==> results.contains(result)
            && result.text_member("result_id"@) is Some && (community_of(
            communities,
            result.text_member("result_id"@)->0,
        ) matches Some(id) && key == "community_"@ + id),
        grouped(results, communities).ungrouped.contains(result) <==> results.contains(result)
            && result.text_member("result_id"@) is Some && community_of(
            communities,
            result.text_member("result_id"@)->0,
        ) is None,
    decreases results.len(),
{
    if results.len() > 0 {
        let fewer = results.drop_last();
        let last = results.last();
        let before = grouped(fewer, communities);
        law_results_are_grouped_by_community(fewer, communities, key, result);
        lemma_contains_last(results, result);
        if let Some(id) = last.text_member("result_id"@) {
            match community_of(communities, id) {
                Some(c) => {
                    lemma_lists_after_push(before.groups, "community_"@ + c, last, key, result);
                },
                None => {
                    let more = before.ungrouped.push(last);
                    assert(more.drop_last() =~= before.ungrouped);
                    lemma_contains_last(more, result);
                },
            }
        }
    }
}

/// How many items lists hold together.
pub open spec fn held_in<V>(groups: Groups<V>) -> nat
    decreases groups.len(),
{
    if groups.len() == 0 {
        0
    } else {
        held_in(groups.drop_last()) + groups.last().1.len()
    }
}

/// One list that is longer by one holds one more.
proof fn lemma_held_after_update<V>(groups: Groups<V>, i: int, group: (Seq<char>, Seq<V>))
    requires
        0 <= i < groups.len(),
        group.1.len() == groups[i].1.len() + 1,
    ensures
        held_in(groups.update(i, group)) == held_in(groups) + 1,
    decreases groups.len(),
{
    let more = groups.update(i, group);
    if i < groups.len() - 1 {
        assert(more.drop_last() =~= groups.drop_last().update(i, group));
        lemma_held_after_update(groups.drop_last(), i, group);
    } else {
        assert(more.drop_last() =~= groups.drop_last());
    }
}

/// Appending to a list adds one item.
proof fn lemma_held_after_push<V>(groups: Groups<V>, key: Seq<char>, value: V)
    ensures
        held_in(grouped_push(groups, key, value)) == held_in(groups) + 1,
{
    let i = group_index(groups, key);
    lemma_group_found(groups, key);
    if i < groups.len() {
        lemma_held_after_update(groups, i, (key, groups[i].1.push(value)));
    } else {
        assert(grouped_push(groups, key, value).drop_last() =~= groups);
    }
}

/// Grouping results that all are identified loses and repeats none: together
/// the groups and the rest hold as many as were given.
pub proof fn law_grouping_keeps_the_number(results: Seq<JsonView>, communities: Seq<Community>)
    requires
        forall|i: int|
            0 <= i < results.len() ==> (#[trigger] results[i]).text_member("result_id"@) is Some,
    ensures
        held_in(grouped(results, communities).groups) + grouped(
            results,
            communities,
        ).ungrouped.len() == results.len(),
    decreases results.len(),
{
    if results.len() > 0 {
        let fewer = results.drop_last();
        let last = results.last();
        assert forall|i: int| 0 <= i < fewer.len() implies (#[trigger] fewer[i]).text_member(
            "result_id"@,
        ) is Some by {
            assert(results[i] == fewer[i]);
        }
        assert(results[results.len() - 1].text_member("result_id"@) is Some);
        law_grouping_keeps_the_number(fewer, communities);
        if let Some(c) = community_of(communities, last.text_member("result_id"@)->0) {
            lemma_held_after_push(grouped(fewer, communities).groups, "community_"@ + c, last);
        }
    }
}

/// The offset of a joining edge is that of the first.
proof fn lemma_joining_found(edges: Seq<PathEdge>, a: Seq<char>, b: Seq<char>)
    ensures
        0 <= joining_index(edges, a, b) <= edges.len(),
        joining_index(edges, a, b) < edges.len() ==> edges[joining_index(edges, a, b)].joins(a, b),
        forall|i: int| 0 <= i < joining_index(edges, a, b) ==> !(#[trigger] edges[i]).joins(a, b),
    decreases edges.len(),
{
    if edges.len() > 0 && !edges[0].joins(a, b) {
        let rest = edges.subrange(1, edges.len() as int);
        lemma_joining_found(rest, a, b);
        assert forall|i: int| 0 <= i < joining_index(edges, a, b) implies !(
        #[trigger] edges[i]).joins(a, b) by {
            if i > 0 {
                assert(rest[i - 1] == edges[i]);
            }
        }
    }
}

/// The keys of a hop differ.
proof fn lemma_segment_keys()
    ensures
        "source"@ != "target"@,
        "edge_type"@ != "source"@,
        "edge_type"@ != "target"@,
        "weight"@ != "source"@,
        "weight"@ != "target"@,
        "weight"@ != "edge_type"@,
{
    reveal_strlit("source");
    reveal_strlit("target");
    reveal_strlit("edge_type");
    reveal_strlit("weight");
    assert("source"@[0] == 's' && "target"@[0] == 't' && "weight"@[0] == 'w');
    assert("edge_type"@[0] == 'e');
}

/// The hops of a path lead along it: there is one fewer than nodes, each leads
/// from its node to the next, and tells of an edge that joins the two, in either
/// direction, where the edges at its node hold one.
pub proof fn law_segments_follow_the_path(
    path: Seq<Seq<char>>,
    edges_at: Seq<Option<Vec<PathEdge>>>,
    i: int,
)
    requires
        0 <= i < path.len() - 1,
    ensures
        segments_json(path, edges_at).len() == path.len() - 1,
        ({
            let hop = segments_json(path, edges_at)[i];
            let (a, b) = (path[i], path[i + 1]);
            &&& hop.text_member("source"@) == Some(a)
            &&& hop.text_member("target"@) == Some(b)
            &&& (hop.member("edge_type"@) == Some(JsonView::Null) && hop.member("weight"@) == Some(
                JsonView::Null,
            ) && (edges_at[i] matches Some(edges) ==> forall|k: int|
                0 <= k < edges@.len() ==> !(((#[trigger] edges@[k]).source@ == a
                    && edges@[k].target@ == b) || (edges@[k].source@ == b && edges@[k].target@
                    == a)))) || (edges_at[i] matches Some(edges) && exists|k: int|
                0 <= k < edges@.len() && (((#[trigger] edges@[k]).source@ == a
                    && edges@[k].target@ == b) || (edges@[k].source@ == b && edges@[k].target@
                    == a)) && hop.member("edge_type"@) == Some(edges@[k].kind.description())
                    && hop.member("weight"@) == Some(edges@[k].weight@))
        }),
{
    let (a, b) = (path[i], path[i + 1]);
    lemma_segment_keys();
    broadcast use crate::json::lemma_put_member, crate::json::lemma_no_member;

    if let Some(edges) = edges_at[i] {
        lemma_joining_found(edges@, a, b);
        let k = joining_index(edges@, a, b);
        if k < edges@.len() {
            assert(edges@[k].joins(a, b));
        } else {
            assert forall|k: int| 0 <= k < edges@.len() implies !(((#[trigger] edges@[k]).source@
                == a && edges@[k].target@ == b) || (edges@[k].source@ == b && edges@[k].target@
                == a)) by {
                assert(!edges@[k].joins(a, b));
            }
        }
    }
}

/// The types of edges are told apart: the description of a type gives its name,
/// and no two types share one.
pub proof fn law_edge_types_are_told_apart(kind: EdgeKind, other: EdgeKind)
    ensures
        kind.description().text_member("type"@) == Some(kind.label_text()),
        kind.label_text() == other.label_text() <==> (kind is Semantic && other is Semantic) || (
        kind is Temporal && other is Temporal) || (kind is Causal && other is Causal) || (
        kind is Entity && other is Entity),
{
    reveal_strlit("semantic");
    reveal_strlit("temporal");
    reveal_strlit("causal");
    reveal_strlit("entity");
    assert("semantic"@[0] == 's' && "temporal"@[0] == 't' && "causal"@[0] == 'c');
    assert("entity"@[0] == 'e');
    broadcast use crate::json::lemma_put_member, crate::json::lemma_no_member;

}

/// The gaps of a type are counted one by one, and gaps that come to others add to
/// their number.
pub proof fn law_gaps_are_counted_by_type(
    voids: Seq<StructuralVoid>,
    more: Seq<StructuralVoid>,
    name: Seq<char>,
)
    ensures
        voids_of_type(voids + more, name) == voids_of_type(voids, name) + voids_of_type(more, name),
        (forall|i: int| 0 <= i < voids.len() ==> (#[trigger] voids[i]).void_type@ == name)
            ==> voids_of_type(voids, name) == voids.len(),
        (forall|i: int| 0 <= i < voids.len() ==> (#[trigger] voids[i]).void_type@ != name)
            ==> voids_of_type(voids, name) == 0,
    decreases voids.len() + more.len(),
{
    if more.len() > 0 {
        law_gaps_are_counted_by_type(voids, more.drop_last(), name);
        assert((voids + more).drop_last() =~= voids + more.drop_last());
    } else {
        assert(voids + more =~= voids);
        if voids.len() > 0 {
            let fewer = voids.drop_last();
            law_gaps_are_counted_by_type(fewer, more, name);
            assert(forall|i: int| 0 <= i < fewer.len() ==> #[trigger] fewer[i] == voids[i]);
            assert(voids.last() == voids[voids.len() - 1]);
        }
    }
}

/// A hop is told with the first edge that joins its two nodes, in either
/// direction; where none does, nothing is told of an edge.
pub proof fn law_hops_are_told_with_the_first_edge(
    edges: Seq<PathEdge>,
    a: Seq<char>,
    b: Seq<char>,
)
    ensures
        ({
            let at = joining_index(edges, a, b);
            &&& 0 <= at <= edges.len()
            &&& at < edges.len() ==> edges[at].joins(a, b)
            &&& forall|i: int| 0 <= i < at ==> !(#[trigger] edges[i]).joins(a, b)
            &&& joining_index(edges, b, a) == at
        }),
    decreases edges.len(),
{
    if edges.len() > 0 && !edges[0].joins(a, b) {
        let rest = edges.subrange(1, edges.len() as int);
        law_hops_are_told_with_the_first_edge(rest, a, b);
        assert(!edges[0].joins(b, a));
        let at = joining_index(rest, a, b);
        assert forall|i: int| 0 <= i < at + 1 implies !(#[trigger] edges[i]).joins(a, b) by {
            if i > 0 {
                assert(rest[i - 1] == edges[i]);
            }
        }
    } else if edges.len() > 0 {
        assert(edges[0].joins(b, a));
    }
}

/// A node is in its own component, adjacent nodes are in one, and whichever side
/// lists the other two nodes are adjacent.
pub proof fn law_components_hold_their_nodes(
    adjacency: Groups<Seq<char>>,
    node: Seq<char>,
    a: Seq<char>,
    b: Seq<char>,
)
    ensures
        component_of(adjacency, node).contains(node),
        adjacent(adjacency, a, b) ==> adjacent(adjacency, b, a),
        component_of(adjacency, node).contains(a) && adjacent(adjacency, a, b) ==> component_of(
            adjacency,
            node,
        ).contains(b),
{
    let alone = seq![node];
    assert(is_walk(adjacency, alone) && alone[0] == node && alone.last() == node);
    if component_of(adjacency, node).contains(a) && adjacent(adjacency, a, b) {
        let walk = choose|walk: Seq<Seq<char>>|
            #[trigger] is_walk(adjacency, walk) && walk[0] == node && walk.last() == a;
        let longer = walk.push(b);
        assert forall|i: int, j: int| 0 <= i && j == i + 1 && j < longer.len() implies adjacent(
            adjacency,
            #[trigger] longer[i],
            #[trigger] longer[j],
        ) by {
            if j < walk.len() {
                assert(adjacent(adjacency, walk[i], walk[j]));
            }
        }
        assert(is_walk(adjacency, longer) && longer[0] == node && longer.last() == b);
    }
}

/// A path that was found is told in full; where there is none, where the search
/// ran out or where an end is not known, no path is told, and only a complete
/// search succeeds.
pub proof fn law_path_replies_tell_the_outcome(
    outcome: GraphPathOutcome,
    from: Seq<char>,
    to: Seq<char>,
    depth: nat,
    segments: Seq<JsonView>,
)
    ensures
        ({
            let reply = path_reply(outcome, from, to, depth, segments);
            &&& reply.text_member("from"@) == Some(from)
            &&& reply.text_member("to"@) == Some(to)
            &&& reply.true_member("ok"@) <==> outcome is Found
                || outcome is NoPathWithinCompleteSearch
            &&& outcome matches GraphPathOutcome::Found(path) ==> reply.member("path"@) == Some(
                texts_json(texts(path@)),
            ) && reply.member("path_length"@) == Some(JsonView::Unsigned(path@.len() as u64))
                && reply.member("segments"@) == Some(JsonView::Array(segments))
            &&& !(outcome is Found) ==> reply.member("path"@) == Some(JsonView::Null)
            &&& outcome matches GraphPathOutcome::InvalidEndpoint(endpoint) ==> reply.text_member(
                "invalid_endpoint"@,
            ) == Some(endpoint@)
        }),
{
    reveal_strlit("ok");
    reveal_strlit("outcome");
    reveal_strlit("from");
    reveal_strlit("to");
    reveal_strlit("path");
    reveal_strlit("path_length");
    reveal_strlit("segments");
    reveal_strlit("message");
    reveal_strlit("budget");
    reveal_strlit("invalid_endpoint");
    assert("ok"@.len() == 2 && "outcome"@.len() == 7 && "from"@.len() == 4 && "to"@.len() == 2);
    assert("path"@.len() == 4 && "path_length"@.len() == 11 && "segments"@.len() == 8);
    assert("message"@.len() == 7 && "budget"@.len() == 6 && "invalid_endpoint"@.len() == 16);
    assert("ok"@[0] == 'o' && "to"@[0] == 't' && "outcome"@[0] == 'o' && "message"@[0] == 'm');
    assert("from"@[0] == 'f' && "path"@[0] == 'p');
    broadcast use crate::json::lemma_put_member, crate::json::lemma_no_member;

}

/// The parts of a graph are the components of its nodes, of every one and of no
/// other.
pub proof fn law_every_node_has_its_component(adjacency: Groups<Seq<char>>, part: Set<Seq<char>>)
    ensures
        forall|n: Seq<char>| #[trigger]
            named_nodes(adjacency).contains(n) ==> components(adjacency).contains(
                component_of(adjacency, n),
            ),
        components(adjacency).contains(part) ==> exists|n: Seq<char>|
            named_nodes(adjacency).contains(n) && part == #[trigger] component_of(adjacency, n)
                && part.contains(n),
{
    if components(adjacency).contains(part) {
        let n = choose|n: Seq<char>|
            named_nodes(adjacency).contains(n) && part == #[trigger] component_of(adjacency, n);
        law_components_hold_their_nodes(adjacency, n, n, n);
    }
}

/// The nodes of a graph are those that it lists and their neighbours.
pub proof fn law_nodes_are_listed_or_neighbors(adjacency: Groups<Seq<char>>, i: int, node: Seq<char>)
    requires
        0 <= i < adjacency.len(),
    ensures
        named_nodes(adjacency).contains(adjacency[i].0),
        adjacency[i].1.contains(node) ==> named_nodes(adjacency).contains(node),
{
}

/// The independent cycles of a graph are what its edges exceed a forest by: with
/// the nodes they are as many as the edges and the parts together.
pub proof fn law_cycles_follow_from_the_counts(adjacency: Groups<Seq<char>>)
    ensures
        betti_counts(adjacency).0 == components(adjacency).len(),
        adjacent_pairs(adjacency).len() + components(adjacency).len() >= named_nodes(
            adjacency,
        ).len() ==> betti_counts(adjacency).1 + named_nodes(adjacency).len() == adjacent_pairs(
            adjacency,
        ).len() + components(adjacency).len(),
{
}

/// The pairs of a graph are its adjacent nodes, each pair once whichever way it
/// is read; no node makes a pair with itself.
pub proof fn law_pairs_are_adjacent_nodes(
    adjacency: Groups<Seq<char>>,
    a: Seq<char>,
    b: Seq<char>,
)
    ensures
        a != b && adjacent(adjacency, a, b) ==> adjacent_pairs(adjacency).contains(set![a, b]),
        adjacent_pairs(adjacency).contains(set![a, b]) ==> a != b && adjacent(adjacency, a, b),
{
    if adjacent_pairs(adjacency).contains(set![a, b]) {
        let (x, y) = choose|x: Seq<char>, y: Seq<char>|
            x != y && #[trigger] adjacent(adjacency, x, y) && set![a, b] == set![x, y];
        assert(set![x, y].contains(x) && set![x, y].contains(y));
        assert(set![a, b].contains(x) && set![a, b].contains(y));
        law_components_hold_their_nodes(adjacency, x, x, y);
        assert(set![a, b].contains(a) && set![a, b].contains(b));
        assert(set![x, y].contains(a) && set![x, y].contains(b));
    }
}

/// Grouped results list every community under its identifier, in order, and the
/// results without one last, under a name of their own, where there are any.
pub proof fn law_groups_are_told_by_community(view: GroupedView, i: int)
    ensures
        grouped_json(view) matches JsonView::Object(told) && {
            &&& 0 <= i < view.groups.len() ==> told[i] == (
                view.groups[i].0,
                JsonView::Array(view.groups[i].1),
            )
            &&& view.ungrouped.len() == 0 ==> told.len() == view.groups.len()
            &&& view.ungrouped.len() > 0 ==> told.len() == view.groups.len() + 1 && told.last() == (
                "ungrouped"@,
                JsonView::Array(view.ungrouped),
            )
        },
{
}

/// The report on gaps counts each type under its own name: it begins with all of
/// them, and then those of each type.
pub proof fn law_gaps_are_reported_by_type(voids: Seq<StructuralVoid>)
    ensures
        ({
            let links = decimal(voids_of_type(voids, "MissingLink"@));
            let contexts = decimal(voids_of_type(voids, "MissingContext"@));
            let gaps = decimal(voids_of_type(voids, "ContradictionGap"@));
            let start = "Topological void report: "@ + decimal(voids.len());
            (start + " void(s)\nMissingLink: "@ + links + "\nMissingContext: "@ + contexts
                + "\nContradictionGap: "@ + gaps).is_prefix_of(void_report(voids))
        }),
{
    let links = decimal(voids_of_type(voids, "MissingLink"@));
    let contexts = decimal(voids_of_type(voids, "MissingContext"@));
    let gaps = decimal(voids_of_type(voids, "ContradictionGap"@));
    let start = "Topological void report: "@ + decimal(voids.len());
    let head = start + " void(s)\nMissingLink: "@ + links + "\nMissingContext: "@ + contexts
        + "\nContradictionGap: "@ + gaps;
    assert(void_report(voids).subrange(0, head.len() as int) =~= head);
}

}
