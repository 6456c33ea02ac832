//! Second-order retrieval: items that the graph connects to direct results.
use crate::facts::FactText;
use crate::graph::{readable_edges, readable_in, EdgeRecord};
use crate::json::{Json, JsonView};
use crate::routing::DiscordHit;
use crate::text::{copy_texts, optional_text, starts_with, strip_prefix, texts};
use crate::trust::bare_id;
use vstd::prelude::*;

verus! {

/// An edge as second-order retrieval sees it: its source, its target, the name
/// of its type, and its weight in decimal notation.
pub type Link = (String, String, String, String);

/// An edge as second-order retrieval sees it.
pub type LinkView = (Seq<char>, Seq<char>, Seq<char>, Seq<char>);

/// Links as plain values.
pub open spec fn link_views(links: Seq<Link>) -> Seq<LinkView> {
    Seq::new(links.len(), |i: int| (links[i].0@, links[i].1@, links[i].2@, links[i].3@))
}

/// Hits as plain values.
pub open spec fn hit_views(hits: Seq<DiscordHit>) -> Seq<
    (Seq<char>, JsonView, Seq<Seq<char>>, Seq<Seq<char>>),
> {
    Seq::new(
        hits.len(),
        |i: int|
            (
                hits[i].item_id@,
                hits[i].discord_score@,
                texts(hits[i].anchor_ids@),
                texts(hits[i].relationship_types@),
            ),
    )
}

/// The hits that `semantic_memory::discord::DiscordScorer::score` finds over
/// links around direct results; nothing where a weight is no number.
pub uninterp spec fn hits_around(
    direct: Seq<Seq<char>>,
    links: Seq<(Seq<char>, Seq<char>, Seq<char>, Seq<char>)>,
) -> Option<Seq<(Seq<char>, JsonView, Seq<Seq<char>>, Seq<Seq<char>>)>>;

/// `semantic_memory::discord::DiscordScorer::score` with the default
/// configuration. What it finds depends on the direct results and the links
/// alone. It finds at most ten items, and none of the direct results.
#[verifier::external_body]
fn score_links(direct: &Vec<String>, links: &Vec<Link>) -> (hits: Option<Vec<DiscordHit>>)
    ensures
        (match hits {
            Some(hits) => {
                &&& hits_around(texts(direct@), link_views(links@)) == Some(hit_views(hits@))
                &&& hits@.len() <= 10
                &&& forall|i: int|
                    0 <= i < hits@.len() ==> !texts(direct@).contains(
                        (#[trigger] hits@[i]).item_id@,
                    ) && hits@[i].fact is None
            },
            None => hits_around(texts(direct@), link_views(links@)) is None,
        }),
{
    let edges: Option<Vec<_>> = links.iter().map(|l| Some(semantic_memory::discord::GraphEdgeRef {
        source: l.0.clone(),
        target: l.1.clone(),
        edge_type: l.2.clone(),
        weight: serde_json::from_str(&l.3).ok()?,
    })).collect();
    let found = semantic_memory::discord::DiscordScorer::with_defaults().score(direct, &edges?);
    Some(found.into_iter().map(|h| DiscordHit {
        item_id: h.item_id,
        discord_score: Json::Decimal(serde_json::to_string(&h.discord_score).unwrap_or_default()),
        anchor_ids: h.anchor_ids,
        relationship_types: h.relationship_types,
        fact: None,
    }).collect())
}

/// The link that an edge makes; none where its weight is no number.
pub open spec fn link_of(edge: EdgeRecord) -> Option<LinkView> {
    match edge.weight@ {
        JsonView::Decimal(weight) => Some(
            (
                edge.source@,
                edge.target@,
                match edge.kind {
                    Some(kind) => kind.label_text(),
                    None => "entity"@,
                },
                weight,
            ),
        ),
        _ => None,
    }
}

/// The links that the edges at some offsets make; none where a weight is no
/// number.
pub open spec fn links_at(edges: Seq<EdgeRecord>, at: Seq<int>) -> Option<Seq<LinkView>> {
    if forall|i: int| 0 <= i < at.len() ==> link_of(edges[#[trigger] at[i]]) is Some {
        Some(Seq::new(at.len(), |i: int| link_of(edges[at[i]])->0))
    } else {
        None
    }
}

/// The hits around direct results over the edges at some offsets.
pub open spec fn hits_over(
    direct: Seq<Seq<char>>,
    edges: Seq<EdgeRecord>,
    at: Seq<int>,
) -> Option<Seq<(Seq<char>, JsonView, Seq<Seq<char>>, Seq<Seq<char>>)>> {
    match links_at(edges, at) {
        Some(links) => hits_around(direct, links),
        None => None,
    }
}

/// None of the hits is a direct result, and there are at most ten. The facts
/// that they are have not been looked up.
pub open spec fn new_and_few(hits: Seq<DiscordHit>, direct: Seq<Seq<char>>) -> bool {
    &&& hits.len() <= 10
    &&& forall|i: int|
        0 <= i < hits.len() ==> !direct.contains((#[trigger] hits[i]).item_id@)
            && hits[i].fact is None
}

/// `hits` are those around direct results over the edges at some offsets.
pub open spec fn are_hits(
    hits: Option<Vec<DiscordHit>>,
    direct: Seq<Seq<char>>,
    edges: Seq<EdgeRecord>,
    at: Seq<int>,
) -> bool {
    match hits {
        Some(hits) => hits_over(direct, edges, at) == Some(hit_views(hits@)) && new_and_few(
            hits@,
            direct,
        ),
        None => hits_over(direct, edges, at) is None,
    }
}

/// Offsets as integers.
pub open spec fn places(at: Seq<usize>) -> Seq<int> {
    at.map_values(|i: usize| i as int)
}

/// The hits around direct results over the edges at some offsets.
fn score_at(direct: &Vec<String>, edges: &Vec<EdgeRecord>, at: &Vec<usize>) -> (hits: Option<
    Vec<DiscordHit>,
>)
    requires
        forall|i: int| 0 <= i < at@.len() ==> #[trigger] at@[i] < edges@.len(),
    ensures
        are_hits(hits, texts(direct@), edges@, places(at@)),
{
    let ghost chosen = places(at@);
    let mut links: Vec<Link> = Vec::new();
    let mut i: usize = 0;
    while i < at.len()
        invariant
            i <= at@.len(),
            chosen == places(at@),
            forall|j: int| 0 <= j < at@.len() ==> #[trigger] at@[j] < edges@.len(),
            links@.len() == i,
            forall|j: int|
                0 <= j < i ==> link_of(edges@[#[trigger] chosen[j]]) == Some(
                    link_views(links@)[j],
                ),
        decreases at.len() - i,
    {
        let edge = &edges[at[i]];
        assert(chosen[i as int] == at@[i as int]);
        let ghost before = links@;
        match &edge.weight {
            Json::Decimal(weight) => {
                links.push(
                    (
                        edge.source.clone(),
                        edge.target.clone(),
                        edge.label_or_entity().to_owned(),
                        weight.clone(),
                    ),
                );
            },
            _ => {
                assert(link_of(edges@[chosen[i as int]]) is None);
                return None;
            },
        }
        assert forall|j: int| 0 <= j < i + 1 implies link_of(edges@[#[trigger] chosen[j]]) == Some(
            link_views(links@)[j],
        ) by {
            if j < i {
                assert(link_views(links@)[j] == link_views(before)[j]);
            }
        }
        i += 1;
    }
    assert(links_at(edges@, chosen)->0 =~= link_views(links@));
    score_links(direct, &links)
}

/// The offsets of all edges.
pub open spec fn all_places(n: nat) -> Seq<int> {
    Seq::new(n, |i: int| i)
}

/// The second-order hits around direct results over all edges; none where a
/// weight is no number. An edge whose type cannot be read counts as an entity
/// edge.
pub fn hits_over_all(direct: &Vec<String>, edges: &Vec<EdgeRecord>) -> (hits: Option<
    Vec<DiscordHit>,
>)
    ensures
        are_hits(hits, texts(direct@), edges@, all_places(edges@.len())),
{
    let mut at: Vec<usize> = Vec::new();
    let mut i: usize = 0;
    while i < edges.len()
        invariant
            i <= edges@.len(),
            at@.len() == i,
            forall|j: int| 0 <= j < i ==> #[trigger] at@[j] == j,
        decreases edges.len() - i,
    {
        at.push(i);
        i += 1;
    }
    assert(places(at@) =~= all_places(edges@.len()));
    score_at(direct, edges, &at)
}

/// Every readable edge is one of the edges.
proof fn lemma_readable_in_range(edges: Seq<EdgeRecord>)
    ensures
        forall|i: int|
            0 <= i < readable_in(edges).len() ==> 0 <= #[trigger] readable_in(edges)[i]
                < edges.len(),
    decreases edges.len(),
{
    if edges.len() > 0 {
        let before = readable_in(edges.drop_last());
        lemma_readable_in_range(edges.drop_last());
        assert forall|i: int| 0 <= i < readable_in(edges).len() implies 0 <= #[trigger] readable_in(
            edges,
        )[i] < edges.len() by {
            if i < before.len() {
                assert(readable_in(edges)[i] == before[i]);
            }
        }
    }
}

/// The second-order hits around direct results over the edges whose type can
/// be read, and how many edges these are; none where a weight is no number.
pub fn hits_over_readable(direct: &Vec<String>, edges: &Vec<EdgeRecord>) -> (hits: Option<
    (Vec<DiscordHit>, usize),
>)
    ensures
        (match hits {
            Some((hits, count)) => {
                &&& hits_over(texts(direct@), edges@, readable_in(edges@)) == Some(
                    hit_views(hits@),
                )
                &&& count == readable_in(edges@).len()
                &&& new_and_few(hits@, texts(direct@))
            },
            None => hits_over(texts(direct@), edges@, readable_in(edges@)) is None,
        }),
{
    let at = readable_edges(edges);
    proof {
        lemma_readable_in_range(edges@);
        assert forall|i: int| 0 <= i < at@.len() implies #[trigger] at@[i] < edges@.len() by {
            assert(places(at@)[i] == readable_in(edges@)[i]);
        }
    }
    let count: usize = at.len();
    match score_at(direct, edges, &at) {
        Some(hits) => Some((hits, count)),
        None => None,
    }
}

/// Every second-order hit is told, for none of them is a direct result.
pub proof fn law_all_hits_are_told(hits: Seq<DiscordHit>, direct: Seq<Seq<char>>)
    requires
        forall|i: int| 0 <= i < hits.len() ==> !direct.contains((#[trigger] hits[i]).item_id@),
    ensures
        crate::routing::new_hits(hits, direct) == Seq::new(
            hits.len(),
            |i: int| crate::routing::discord_hit_json(hits[i]),
        ),
    decreases hits.len(),
{
    let told = Seq::new(hits.len(), |i: int| crate::routing::discord_hit_json(hits[i]));
    if hits.len() > 0 {
        assert forall|i: int| 0 <= i < hits.drop_last().len() implies !direct.contains(
            (#[trigger] hits.drop_last()[i]).item_id@,
        ) by {
            assert(hits.drop_last()[i] == hits[i]);
        }
        law_all_hits_are_told(hits.drop_last(), direct);
        assert(!direct.contains(hits[hits.len() - 1].item_id@));
    }
    assert(crate::routing::new_hits(hits, direct) =~= told);
}

/// The identifier of the fact that an item is; none where it is no fact.
pub open spec fn fact_named(item: Seq<char>) -> Option<Seq<char>> {
    if starts_with(item, "fact:"@) {
        Some(bare_id(item))
    } else {
        None
    }
}

/// The facts that hits are, by their identifiers: what is to be looked up.
pub fn facts_named(hits: &Vec<DiscordHit>) -> (ids: Vec<Option<String>>)
    ensures
        ids@.len() == hits@.len(),
        forall|i: int|
            0 <= i < ids@.len() ==> optional_text(#[trigger] ids@[i]) == fact_named(
                hits@[i].item_id@,
            ),
{
    let mut ids: Vec<Option<String>> = Vec::new();
    let mut i: usize = 0;
    while i < hits.len()
        invariant
            i <= hits@.len(),
            ids@.len() == i,
            forall|j: int|
                0 <= j < i ==> optional_text(#[trigger] ids@[j]) == fact_named(hits@[j].item_id@),
        decreases hits.len() - i,
    {
        let id = strip_prefix(&hits[i].item_id, "fact:");
        assert(optional_text(id) == fact_named(hits@[i as int].item_id@));
        ids.push(id);
        i += 1;
    }
    ids
}

/// What a lookup gave for the fact at an offset; nothing where none was made.
pub open spec fn looked_up(facts: Seq<Option<FactText>>, i: int) -> Option<
    (Seq<char>, Seq<char>),
> {
    if 0 <= i < facts.len() {
        fact_view(facts[i])
    } else {
        None
    }
}

/// A fact by its namespace and its content.
pub open spec fn fact_view(fact: Option<FactText>) -> Option<(Seq<char>, Seq<char>)> {
    match fact {
        Some(fact) => Some((fact.namespace@, fact.content@)),
        None => None,
    }
}

/// Hits with the facts that were looked up for them, offset by offset.
pub fn with_facts(hits: &Vec<DiscordHit>, facts: &Vec<Option<FactText>>) -> (known: Vec<DiscordHit>)
    ensures
        hit_views(known@) == hit_views(hits@),
        forall|i: int|
            0 <= i < known@.len() ==> fact_view((#[trigger] known@[i]).fact) == looked_up(
                facts@,
                i,
            ),
{
    let mut known: Vec<DiscordHit> = Vec::new();
    let mut i: usize = 0;
    while i < hits.len()
        invariant
            i <= hits@.len(),
            known@.len() == i,
            forall|j: int| 0 <= j < i ==> #[trigger] hit_views(known@)[j] == hit_views(hits@)[j],
            forall|j: int|
                0 <= j < i ==> fact_view((#[trigger] known@[j]).fact) == looked_up(facts@, j),
        decreases hits.len() - i,
    {
        let ghost before = known@;
        let hit = &hits[i];
        let fact = if i < facts.len() {
            match &facts[i] {
                Some(fact) => Some(
                    FactText { namespace: fact.namespace.clone(), content: fact.content.clone() },
                ),
                None => None,
            }
        } else {
            None
        };
        assert(fact_view(fact) == looked_up(facts@, i as int));
        known.push(
            DiscordHit {
                item_id: hit.item_id.clone(),
                discord_score: hit.discord_score.copy(),
                anchor_ids: copy_texts(&hit.anchor_ids),
                relationship_types: copy_texts(&hit.relationship_types),
                fact,
            },
        );
        assert forall|j: int| 0 <= j < i + 1 implies #[trigger] hit_views(known@)[j] == hit_views(
            hits@,
        )[j] by {
            if j < i {
                assert(hit_views(known@)[j] == hit_views(before)[j]);
            }
        }
        i += 1;
    }
    assert(hit_views(known@) =~= hit_views(hits@));
    known
}

/// Second-order retrieval sees every edge that it is given, in its place: by its
/// own source and target, the name of its type, and its weight. An edge whose
/// type cannot be read counts as an entity edge.
pub proof fn law_links_are_those_of_the_edges(edges: Seq<EdgeRecord>, i: int)
    requires
        0 <= i < edges.len(),
        links_at(edges, all_places(edges.len())) is Some,
    ensures
        links_at(edges, all_places(edges.len()))->0.len() == edges.len(),
        ({
            let link = links_at(edges, all_places(edges.len()))->0[i];
            &&& link.0 == edges[i].source@
            &&& link.1 == edges[i].target@
            &&& edges[i].kind matches Some(kind) ==> link.2 == kind.label_text()
            &&& edges[i].kind is None ==> link.2 == "entity"@
            &&& edges[i].weight@ == JsonView::Decimal(link.3)
        }),
{
    assert(link_of(edges[all_places(edges.len())[i]]) is Some);
}

/// There are second-order hits to look for just where the weight of every edge
/// is a number.
pub proof fn law_links_need_weights(edges: Seq<EdgeRecord>)
    ensures
        links_at(edges, all_places(edges.len())) is Some <==> forall|i: int|
            0 <= i < edges.len() ==> (#[trigger] edges[i]).weight@ is Decimal,
{
    let at = all_places(edges.len());
    if links_at(edges, at) is Some {
        assert forall|i: int| 0 <= i < edges.len() implies (
        #[trigger] edges[i]).weight@ is Decimal by {
            assert(link_of(edges[at[i]]) is Some);
        }
    } else {
        let i = choose|i: int| 0 <= i < at.len() && !(link_of(edges[#[trigger] at[i]]) is Some);
        assert(at[i] == i);
        assert(!(edges[i].weight@ is Decimal));
    }
}

/// Only items that are facts are looked up, each under its own identifier.
pub proof fn law_only_facts_are_looked_up(item: Seq<char>, bare: Seq<char>)
    ensures
        fact_named("fact:"@ + bare) == Some(bare),
        fact_named(item) is Some <==> starts_with(item, "fact:"@),
{
    let prefix = "fact:"@;
    assert((prefix + bare).subrange(0, prefix.len() as int) =~= prefix);
    crate::facts::law_node_and_bare_id_agree(bare);
}

}
