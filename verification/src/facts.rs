//! Stored facts: reading them, their neighbours in the graph, correcting them
//! and forgetting them.
use crate::http::{byte_length, utf8_length};
use crate::json::{
    fields,
    json_views,
    optional_text_json,
    texts_json,
    Fields,
    Json,
    JsonView,
};
use crate::receipts::new_uuid;
use crate::text::{
    cat2,
    cat3,
    contains,
    contains_text,
    occurs_at,
    optional_text,
    same_text,
    texts,
};
use crate::trust::{bare_fact_id, bare_id};
use vstd::prelude::*;

verus! {

/// A fact as the store keeps it, with its times and what is kept beside it.
pub struct StoredFact {
    pub id: String,
    pub namespace: String,
    pub content: String,
    pub source: Option<String>,
    pub created_at: String,
    pub updated_at: String,
    pub metadata: Json,
}

/// The node of a fact in the graph.
pub open spec fn fact_node(bare: Seq<char>) -> Seq<char> {
    "fact:"@ + bare
}

/// The node of a fact in the graph.
pub fn node_of_fact(bare: &str) -> (s: String)
    ensures
        s@ == fact_node(bare@),
{
    cat2("fact:", bare)
}

/// A fact is found under its bare identifier and under that of its node alike.
pub proof fn law_node_and_bare_id_agree(bare: Seq<char>)
    ensures
        bare_id(fact_node(bare)) == bare,
{
    let prefix = "fact:"@;
    assert(fact_node(bare).subrange(0, prefix.len() as int) =~= prefix);
    assert(fact_node(bare).subrange(prefix.len() as int, fact_node(bare).len() as int) =~= bare);
}

/// A fact in full, as a reply tells it.
pub open spec fn full_fact_json(fact: StoredFact) -> JsonView {
    fields().put("result_id"@, JsonView::Text(fact_node(fact.id@))).put(
        "id"@,
        JsonView::Text(fact.id@),
    ).put("namespace"@, JsonView::Text(fact.namespace@)).put(
        "content"@,
        JsonView::Text(fact.content@),
    ).put("source"@, optional_text_json(optional_text(fact.source))).put(
        "created_at"@,
        JsonView::Text(fact.created_at@),
    ).put("updated_at"@, JsonView::Text(fact.updated_at@)).put("metadata"@, fact.metadata@).object()
}

/// The reply to a request for one fact.
pub open spec fn fact_reply(fact_id: Seq<char>, fact: Option<StoredFact>) -> JsonView {
    match fact {
        Some(fact) => fields().put("ok"@, JsonView::Bool(true)).put(
            "found"@,
            JsonView::Bool(true),
        ).put("fact"@, full_fact_json(fact)).object(),
        None => fields().put("ok"@, JsonView::Bool(true)).put("found"@, JsonView::Bool(false)).put(
            "message"@,
            JsonView::Text("No fact with id '"@ + fact_id + "'"@),
        ).object(),
    }
}

/// The reply to a request for one fact.
pub fn finish_get_fact(fact_id: &str, fact: &Option<StoredFact>) -> (reply: Json)
    ensures
        reply@ == fact_reply(fact_id@, *fact),
{
    match fact {
        Some(fact) => Fields::new().with_bool("ok", true).with_bool("found", true).with(
            "fact",
            Fields::new().with_text("result_id", &node_of_fact(&fact.id)).with_text(
                "id",
                &fact.id,
            ).with_text("namespace", &fact.namespace).with_text("content", &fact.content).with(
                "source",
                Json::from_optional_text(&fact.source),
            ).with_text("created_at", &fact.created_at).with_text(
                "updated_at",
                &fact.updated_at,
            ).with("metadata", fact.metadata.copy()).object(),
        ).object(),
        None => Fields::new().with_bool("ok", true).with_bool("found", false).with_text(
            "message",
            &cat3("No fact with id '", fact_id, "'"),
        ).object(),
    }
}

/// A fact as a listing tells it.
pub open spec fn listed_fact_json(fact: StoredFact) -> JsonView {
    fields().put("result_id"@, JsonView::Text(fact_node(fact.id@))).put(
        "id"@,
        JsonView::Text(fact.id@),
    ).put("namespace"@, JsonView::Text(fact.namespace@)).put(
        "content"@,
        JsonView::Text(fact.content@),
    ).put("source"@, optional_text_json(optional_text(fact.source))).put(
        "updated_at"@,
        JsonView::Text(fact.updated_at@),
    ).object()
}

/// The reply to a listing of facts.
pub open spec fn list_reply(
    namespace: Seq<char>,
    limit: u64,
    offset: u64,
    facts: Seq<StoredFact>,
) -> JsonView {
    fields().put("ok"@, JsonView::Bool(true)).put("namespace"@, JsonView::Text(namespace)).put(
        "count"@,
        JsonView::Unsigned(facts.len() as u64),
    ).put("limit"@, JsonView::Unsigned(limit)).put("offset"@, JsonView::Unsigned(offset)).put(
        "facts"@,
        JsonView::Array(Seq::new(facts.len(), |i: int| listed_fact_json(facts[i]))),
    ).object()
}

/// The reply to a listing of facts.
pub fn finish_list_facts(namespace: &str, limit: u64, offset: u64, facts: &Vec<StoredFact>) -> (reply:
    Json)
    ensures
        reply@ == list_reply(namespace@, limit, offset, facts@),
{
    let mut list: Vec<Json> = Vec::new();
    let mut i: usize = 0;
    while i < facts.len()
        invariant
            i <= facts.len(),
            list@.len() == i,
            forall|j: int| 0 <= j < i ==> (#[trigger] list@[j])@ == listed_fact_json(facts@[j]),
        decreases facts.len() - i,
    {
        let fact = &facts[i];
        list.push(
            Fields::new().with_text("result_id", &node_of_fact(&fact.id)).with_text(
                "id",
                &fact.id,
            ).with_text("namespace", &fact.namespace).with_text("content", &fact.content).with(
                "source",
                Json::from_optional_text(&fact.source),
            ).with_text("updated_at", &fact.updated_at).object(),
        );
        i += 1;
    }
    assert(json_views(list@) =~= Seq::new(facts@.len(), |j: int| listed_fact_json(facts@[j])));
    Fields::new().with_bool("ok", true).with_text("namespace", namespace).with_count(
        "count",
        facts.len(),
    ).with("limit", Json::Unsigned(limit)).with("offset", Json::Unsigned(offset)).with(
        "facts",
        Json::from_list(list),
    ).object()
}

/// The reply to a listing of namespaces.
pub fn finish_list_namespaces(namespaces: &Vec<String>) -> (reply: Json)
    ensures
        reply@ == fields().put("ok"@, JsonView::Bool(true)).put(
            "count"@,
            JsonView::Unsigned(namespaces@.len() as u64),
        ).put("namespaces"@, texts_json(texts(namespaces@))).object(),
{
    Fields::new().with_bool("ok", true).with_count("count", namespaces.len()).with(
        "namespaces",
        Json::from_texts(namespaces),
    ).object()
}

/// The node that an item names: a bare identifier is that of a fact.
pub open spec fn item_node(item: Seq<char>) -> Seq<char> {
    if item.contains(':') {
        item
    } else {
        fact_node(item)
    }
}

/// The node that an item names.
pub fn node_of_item(item: &str) -> (node: String)
    ensures
        node@ == item_node(item@),
{
    let chars = crate::text::chars_of(item);
    let mut i: usize = 0;
    while i < chars.len()
        invariant
            i <= chars.len(),
            chars@ == item@,
            forall|j: int| 0 <= j < i ==> #[trigger] item@[j] != ':',
        decreases chars.len() - i,
    {
        if chars[i] == ':' {
            assert(item@[i as int] == ':');
            return item.to_owned();
        }
        i += 1;
    }
    node_of_fact(item)
}

/// An edge at a node.
pub struct NeighborEdge {
    pub source: String,
    pub target: String,
    pub edge_type: String,
    pub weight: Json,
}

/// The node at the other end of an edge.
pub open spec fn other_end(node: Seq<char>, edge: NeighborEdge) -> Seq<char> {
    if edge.source@ == node {
        edge.target@
    } else {
        edge.source@
    }
}

/// The node at the other end of an edge.
pub fn neighbor_of(node: &str, edge: &NeighborEdge) -> (other: String)
    ensures
        other@ == other_end(node@, *edge),
{
    if same_text(&edge.source, node) {
        edge.target.clone()
    } else {
        edge.source.clone()
    }
}

/// A neighbour as a reply tells it.
pub open spec fn neighbor_json(
    node: Seq<char>,
    edge: NeighborEdge,
    content: Option<Seq<char>>,
) -> JsonView {
    fields().put("neighbor_id"@, JsonView::Text(other_end(node, edge))).put(
        "direction"@,
        JsonView::Text(
            if edge.source@ == node {
                "out"@
            } else {
                "in"@
            },
        ),
    ).put("edge_type"@, JsonView::Text(edge.edge_type@)).put("weight"@, edge.weight@).put(
        "content"@,
        optional_text_json(content),
    ).object()
}

/// The reply to a request for a fact's neighbours.
pub open spec fn neighbors_reply(
    node: Seq<char>,
    center: Option<Seq<char>>,
    edges: Seq<NeighborEdge>,
    contents: Seq<Option<String>>,
) -> JsonView {
    fields().put("ok"@, JsonView::Bool(true)).put("item_id"@, JsonView::Text(node)).put(
        "center_content"@,
        optional_text_json(center),
    ).put("neighbor_count"@, JsonView::Unsigned(edges.len() as u64)).put(
        "neighbors"@,
        JsonView::Array(
            Seq::new(
                edges.len(),
                |i: int| neighbor_json(node, edges[i], optional_text(contents[i])),
            ),
        ),
    ).object()
}

/// The reply to a request for a fact's neighbours. `contents` gives for each
/// edge the content of the fact at its other end, where there is one.
pub fn finish_neighbors(
    node: &str,
    center: &Option<String>,
    edges: &Vec<NeighborEdge>,
    contents: &Vec<Option<String>>,
) -> (reply: Json)
    requires
        contents@.len() == edges@.len(),
    ensures
        reply@ == neighbors_reply(node@, optional_text(*center), edges@, contents@),
{
    let mut list: Vec<Json> = Vec::new();
    let mut i: usize = 0;
    while i < edges.len()
        invariant
            i <= edges.len(),
            contents@.len() == edges@.len(),
            list@.len() == i,
            forall|j: int|
                0 <= j < i ==> (#[trigger] list@[j])@ == neighbor_json(
                    node@,
                    edges@[j],
                    optional_text(contents@[j]),
                ),
        decreases edges.len() - i,
    {
        let edge = &edges[i];
        let direction = if same_text(&edge.source, node) {
            "out"
        } else {
            "in"
        };
        list.push(
            Fields::new().with_text("neighbor_id", &neighbor_of(node, edge)).with_text(
                "direction",
                direction,
            ).with_text("edge_type", &edge.edge_type).with("weight", edge.weight.copy()).with(
                "content",
                Json::from_optional_text(&contents[i]),
            ).object(),
        );
        i += 1;
    }
    assert(json_views(list@) =~= Seq::new(
        edges@.len(),
        |j: int| neighbor_json(node@, edges@[j], optional_text(contents@[j])),
    ));
    Fields::new().with_bool("ok", true).with_text("item_id", node).with(
        "center_content",
        Json::from_optional_text(center),
    ).with_count("neighbor_count", edges.len()).with("neighbors", Json::from_list(list)).object()
}

/// A replacement of a fact that is to be stored.
pub struct Supersession {
    pub old_bare: String,
    pub old_node: String,
    pub namespace: String,
    /// What is kept beside the edge from the new fact to the old one.
    pub metadata: Json,
}

/// The namespace of a replacement: that of the old fact unless another is
/// given.
pub open spec fn replacement_namespace(given: Option<Seq<char>>, old: Seq<char>) -> Seq<char> {
    match given {
        Some(namespace) => namespace,
        None => old,
    }
}

/// What is kept beside the edge from a replacement to what it replaces.
pub open spec fn supersession_metadata(reason: Option<Seq<char>>, old_bare: Seq<char>) -> JsonView {
    fields().put(
        "reason"@,
        JsonView::Text(
            match reason {
                Some(reason) => reason,
                None => "replacement fact supersedes stale fact"@,
            },
        ),
    ).put("old_fact_id"@, JsonView::Text(old_bare)).object()
}

/// Plans the replacement of a fact. `old_namespace` is the namespace of the
/// fact that is replaced, if the fact is there.
pub fn plan_supersession(
    old_fact_id: &str,
    old_namespace: &Option<String>,
    namespace: &Option<String>,
    reason: &Option<String>,
) -> (r: Result<Supersession, String>)
    ensures
        (match (optional_text(*old_namespace), r) {
            (Some(old), Ok(plan)) => {
                &&& plan.old_bare@ == bare_id(old_fact_id@)
                &&& plan.old_node@ == fact_node(bare_id(old_fact_id@))
                &&& plan.namespace@ == replacement_namespace(optional_text(*namespace), old)
                &&& plan.metadata@ == supersession_metadata(
                    optional_text(*reason),
                    bare_id(old_fact_id@),
                )
            },
            (None, Err(message)) => message@ == "No fact with id '"@ + old_fact_id@ + "'"@,
            _ => false,
        }),
{
    let old_bare = bare_fact_id(old_fact_id);
    let old_node = node_of_fact(&old_bare);
    let old = match old_namespace {
        Some(old) => old,
        None => {
            return Err(cat3("No fact with id '", old_fact_id, "'"));
        },
    };
    let namespace = match namespace {
        Some(namespace) => namespace.clone(),
        None => old.clone(),
    };
    let reason = match reason {
        Some(reason) => reason.clone(),
        None => "replacement fact supersedes stale fact".to_owned(),
    };
    let metadata = Fields::new().with_text("reason", &reason).with_text(
        "old_fact_id",
        &old_bare,
    ).object();
    Ok(Supersession { old_bare, old_node, namespace, metadata })
}

/// The reply to a replacement of a fact.
pub open spec fn supersession_reply(
    plan: Supersession,
    new_id: Seq<char>,
    edge_id: Seq<char>,
    receipt: JsonView,
) -> JsonView {
    fields().put("ok"@, JsonView::Bool(true)).put("receipt"@, receipt).put(
        "new_fact_id"@,
        JsonView::Text(new_id),
    ).put("new_result_id"@, JsonView::Text(fact_node(new_id))).put(
        "old_fact_id"@,
        JsonView::Text(plan.old_bare@),
    ).put("old_result_id"@, JsonView::Text(plan.old_node@)).put(
        "namespace"@,
        JsonView::Text(plan.namespace@),
    ).put("edge_id"@, JsonView::Text(edge_id)).put(
        "relation"@,
        JsonView::Text("supersedes"@),
    ).object()
}

/// The reply to a replacement of a fact that was stored.
pub fn finish_supersession(plan: &Supersession, new_id: &str, edge_id: &str, receipt: Json) -> (reply:
    Json)
    ensures
        reply@ == supersession_reply(*plan, new_id@, edge_id@, receipt@),
{
    Fields::new().with_bool("ok", true).with("receipt", receipt).with_text(
        "new_fact_id",
        new_id,
    ).with_text("new_result_id", &node_of_fact(new_id)).with_text("old_fact_id", &plan.old_bare).with_text(
        "old_result_id",
        &plan.old_node,
    ).with_text("namespace", &plan.namespace).with_text("edge_id", edge_id).with_text(
        "relation",
        "supersedes",
    ).object()
}

/// The content of two facts that are merged into one: the longer content, in
/// bytes, and the other one behind it unless the longer one holds it already.
pub open spec fn merged(keep: Seq<char>, other: Seq<char>) -> Seq<char> {
    if byte_length(keep) >= byte_length(other) {
        if contains_text(keep, other) {
            keep
        } else {
            keep + "\n\nAdditional: "@ + other
        }
    } else if contains_text(other, keep) {
        other
    } else {
        other + "\n\nAdditional: "@ + keep
    }
}

/// Merging loses no content.
pub proof fn law_merging_keeps_both_contents(keep: Seq<char>, other: Seq<char>)
    ensures
        contains_text(merged(keep, other), keep),
        contains_text(merged(keep, other), other),
{
    let all = merged(keep, other);
    let glue = "\n\nAdditional: "@;
    assert(occurs_at(keep, keep, 0)) by {
        assert(keep.subrange(0, keep.len() as int) =~= keep);
    }
    assert(occurs_at(other, other, 0)) by {
        assert(other.subrange(0, other.len() as int) =~= other);
    }
    if all == keep + glue + other {
        assert(all.subrange(0, keep.len() as int) =~= keep);
        assert(occurs_at(all, keep, 0));
        let at = (keep.len() + glue.len()) as int;
        assert(all.subrange(at, at + other.len()) =~= other);
        assert(occurs_at(all, other, at));
    } else if all == other + glue + keep {
        assert(all.subrange(0, other.len() as int) =~= other);
        assert(occurs_at(all, other, 0));
        let at = (other.len() + glue.len()) as int;
        assert(all.subrange(at, at + keep.len()) =~= keep);
        assert(occurs_at(all, keep, at));
    }
}

/// The content of two facts that are merged into one.
pub fn merge_contents(keep: &str, other: &str) -> (s: String)
    ensures
        s@ == merged(keep@, other@),
{
    if utf8_length(keep) >= utf8_length(other) {
        if contains(keep, other) {
            keep.to_owned()
        } else {
            cat3(keep, "\n\nAdditional: ", other)
        }
    } else if contains(other, keep) {
        other.to_owned()
    } else {
        cat3(other, "\n\nAdditional: ", keep)
    }
}

/// What a consolidation stores.
pub struct Consolidation {
    pub keep_bare: String,
    pub superseded_bare: String,
    /// What the kept fact is updated to.
    pub content: String,
    /// The kept fact, where the supersession edge begins.
    pub source: String,
    /// The superseded fact, where the edge ends.
    pub target: String,
    pub relation: String,
    /// What is kept beside the edge.
    pub metadata: Json,
}

/// What a lookup of a fact gave, as far as merging goes.
pub struct FactText {
    pub namespace: String,
    pub content: String,
}

/// The content after a consolidation: what is given, else both contents merged,
/// else the content that is kept.
pub open spec fn consolidated(
    keep: Seq<char>,
    other: Option<Seq<char>>,
    given: Option<Seq<char>>,
) -> Seq<char> {
    match (given, other) {
        (Some(content), _) => content,
        (None, Some(other)) => merged(keep, other),
        (None, None) => keep,
    }
}

/// What is kept beside the edge from a kept fact to the superseded one.
pub open spec fn consolidation_metadata(keep_bare: Seq<char>) -> JsonView {
    fields().put("reason"@, JsonView::Text("consolidated duplicate"@)).put(
        "consolidated_with"@,
        JsonView::Text(fact_node(keep_bare)),
    ).object()
}

/// Plans the consolidation of two facts. A fact that could not be looked up is
/// missing; the one that is kept has to be there.
pub fn plan_consolidation(
    keep_id: &str,
    supersede_id: &str,
    keep: &Option<FactText>,
    other: &Option<FactText>,
    given: &Option<String>,
) -> (r: Result<Consolidation, String>)
    ensures
        (match (*keep, r) {
            (Some(kept), Ok(plan)) => {
                &&& plan.keep_bare@ == bare_id(keep_id@)
                &&& plan.superseded_bare@ == bare_id(supersede_id@)
                &&& plan.source@ == fact_node(plan.keep_bare@)
                &&& plan.target@ == fact_node(plan.superseded_bare@)
                &&& plan.relation@ == "supersedes"@
                &&& plan.content@ == consolidated(
                    kept.content@,
                    match *other {
                        Some(other) => Some(other.content@),
                        None => None,
                    },
                    optional_text(*given),
                )
                &&& plan.metadata@ == consolidation_metadata(plan.keep_bare@)
            },
            (None, Err(message)) => message@ == "keep fact not found"@,
            _ => false,
        }),
{
    let keep = match keep {
        Some(keep) => keep,
        None => {
            return Err("keep fact not found".to_owned());
        },
    };
    let keep_bare = bare_fact_id(keep_id);
    let content = match given {
        Some(content) => content.clone(),
        None => match other {
            Some(other) => merge_contents(&keep.content, &other.content),
            None => keep.content.clone(),
        },
    };
    let metadata = Fields::new().with_text("reason", "consolidated duplicate").with_text(
        "consolidated_with",
        &node_of_fact(&keep_bare),
    ).object();
    let superseded_bare = bare_fact_id(supersede_id);
    let source = node_of_fact(&keep_bare);
    let target = node_of_fact(&superseded_bare);
    Ok(
        Consolidation {
            keep_bare,
            superseded_bare,
            content,
            source,
            target,
            relation: "supersedes".to_owned(),
            metadata,
        },
    )
}

/// The reply to a consolidation.
pub fn finish_consolidation(plan: &Consolidation, receipt: Json) -> (reply: Json)
    ensures
        reply@ == fields().put("ok"@, JsonView::Bool(true)).put("receipt"@, receipt@).put(
            "kept_fact_id"@,
            JsonView::Text(fact_node(plan.keep_bare@)),
        ).put("superseded_fact_id"@, JsonView::Text(fact_node(plan.superseded_bare@))).put(
            "message"@,
            JsonView::Text("Facts consolidated: kept fact updated, duplicate superseded"@),
        ).object(),
{
    Fields::new().with_bool("ok", true).with("receipt", receipt).with_text(
        "kept_fact_id",
        &node_of_fact(&plan.keep_bare),
    ).with_text("superseded_fact_id", &node_of_fact(&plan.superseded_bare)).with_text(
        "message",
        "Facts consolidated: kept fact updated, duplicate superseded",
    ).object()
}

/// A request to forget a fact and everything derived from it.
pub struct Forgetting {
    pub fact_id: String,
    pub namespace: String,
    pub principal: String,
    pub caller: String,
    pub reason: String,
    /// The most derived items that may be affected.
    pub max_affected: usize,
    pub idempotency_key: String,
}

/// Why a fact cannot be forgotten, if it cannot: it is not there, or nobody is
/// known to govern it.
pub open spec fn forgetting_fault(
    bare: Seq<char>,
    namespace: Option<Seq<char>>,
    principal: Option<Seq<char>>,
) -> Option<Seq<char>> {
    if namespace is None {
        Some("fact not found: "@ + fact_node(bare))
    } else if principal is None {
        Some("fact has no governed origin authority: "@ + fact_node(bare))
    } else {
        None
    }
}

/// The key of a request to forget a fact.
pub open spec fn forgetting_key(id: Seq<char>) -> Seq<char> {
    "mcp-sm-delete-fact:"@ + id
}

/// `r` is what planning to forget a fact under the given identifier comes to.
pub open spec fn forgotten_as(
    bare: Seq<char>,
    namespace: Option<Seq<char>>,
    principal: Option<Seq<char>>,
    id: Seq<char>,
    r: Result<Forgetting, String>,
) -> bool {
    let fault = forgetting_fault(bare, namespace, principal);
    match r {
        Ok(plan) => {
            &&& fault is None
            &&& plan.fact_id@ == bare
            &&& Some(plan.namespace@) == namespace
            &&& Some(plan.principal@) == principal
            &&& plan.caller@ == "caller:sm_delete_fact"@
            &&& plan.reason@ == "explicit MCP fact-forgetting request"@
            &&& plan.max_affected == 4096
            &&& plan.idempotency_key@ == forgetting_key(id)
        },
        Err(message) => fault == Some(message@),
    }
}

/// Plans to forget a fact under the given identifier of the request.
/// `namespace` is that of the fact, if it is there; `principal` is who governs
/// it, if anybody does.
pub fn plan_forgetting_as(
    fact_id: &str,
    namespace: &Option<String>,
    principal: &Option<String>,
    id: &str,
) -> (r: Result<Forgetting, String>)
    ensures
        forgotten_as(
            bare_id(fact_id@),
            optional_text(*namespace),
            optional_text(*principal),
            id@,
            r,
        ),
{
    let bare = bare_fact_id(fact_id);
    let namespace = match namespace {
        Some(namespace) => namespace.clone(),
        None => {
            return Err(cat2("fact not found: ", &node_of_fact(&bare)));
        },
    };
    let principal = match principal {
        Some(principal) => principal.clone(),
        None => {
            return Err(cat2("fact has no governed origin authority: ", &node_of_fact(&bare)));
        },
    };
    Ok(
        Forgetting {
            fact_id: bare,
            namespace,
            principal,
            caller: "caller:sm_delete_fact".to_owned(),
            reason: "explicit MCP fact-forgetting request".to_owned(),
            max_affected: 4096,
            idempotency_key: cat2("mcp-sm-delete-fact:", id),
        },
    )
}

/// Plans to forget a fact under a fresh identifier of the request.
pub fn plan_forgetting(
    fact_id: &str,
    namespace: &Option<String>,
    principal: &Option<String>,
) -> (r: Result<Forgetting, String>)
    ensures
        exists|id: Seq<char>| #[trigger]
            forgotten_as(
                bare_id(fact_id@),
                optional_text(*namespace),
                optional_text(*principal),
                id,
                r,
            ),
{
    let id = new_uuid();
    let r = plan_forgetting_as(fact_id, namespace, principal, &id);
    assert(forgotten_as(
        bare_id(fact_id@),
        optional_text(*namespace),
        optional_text(*principal),
        id@,
        r,
    ));
    r
}

/// What a reply tells of a fact that was forgotten.
pub open spec fn forgotten_json(bare: Seq<char>, receipt: JsonView) -> JsonView {
    fields().put("ok"@, JsonView::Bool(true)).put("deleted"@, JsonView::Bool(false)).put(
        "forgotten"@,
        JsonView::Bool(true),
    ).put("fact_id"@, JsonView::Text(fact_node(bare))).put("forgetting_receipt"@, receipt).put(
        "message"@,
        JsonView::Text("Fact forgotten through governed dependency closure"@),
    ).object()
}

/// The reply to a fact that was forgotten. The receipt is the store's own.
pub fn finish_forgetting(bare: &str, receipt: Json) -> (reply: Json)
    ensures
        reply@ == forgotten_json(bare@, receipt@),
{
    Fields::new().with_bool("ok", true).with_bool("deleted", false).with_bool("forgotten", true).with_text(
        "fact_id",
        &node_of_fact(bare),
    ).with("forgetting_receipt", receipt).with_text(
        "message",
        "Fact forgotten through governed dependency closure",
    ).object()
}

/// The reply to an update of a fact.
pub fn finish_update_fact(fact_id: &str, receipt: Json) -> (reply: Json)
    ensures
        reply@ == fields().put("ok"@, JsonView::Bool(true)).put("receipt"@, receipt@).put(
            "fact_id"@,
            JsonView::Text(fact_node(bare_id(fact_id@))),
        ).put("message"@, JsonView::Text("Fact content updated and re-embedded"@)).object(),
{
    Fields::new().with_bool("ok", true).with("receipt", receipt).with_text(
        "fact_id",
        &node_of_fact(&bare_fact_id(fact_id)),
    ).with_text("message", "Fact content updated and re-embedded").object()
}

/// How much of a namespace was deleted.
#[derive(Clone, Copy, Debug)]
pub struct NamespaceDeletion {
    pub facts: usize,
    pub documents: usize,
    pub chunks: usize,
    pub messages: usize,
    pub sessions: usize,
    pub episodes: usize,
    pub projection_rows: usize,
}

/// The reply to the deletion of a namespace.
pub fn finish_delete_namespace(namespace: &str, deleted: &NamespaceDeletion, receipt: Json) -> (reply:
    Json)
    ensures
        reply@ == fields().put("ok"@, JsonView::Bool(true)).put("receipt"@, receipt@).put(
            "namespace"@,
            JsonView::Text(namespace@),
        ).put(
            "deleted"@,
            fields().put("facts"@, JsonView::Unsigned(deleted.facts as u64)).put(
                "documents"@,
                JsonView::Unsigned(deleted.documents as u64),
            ).put("chunks"@, JsonView::Unsigned(deleted.chunks as u64)).put(
                "messages"@,
                JsonView::Unsigned(deleted.messages as u64),
            ).put("sessions"@, JsonView::Unsigned(deleted.sessions as u64)).put(
                "episodes"@,
                JsonView::Unsigned(deleted.episodes as u64),
            ).put("projection_rows"@, JsonView::Unsigned(deleted.projection_rows as u64)).object(),
        ).put("message"@, JsonView::Text("Namespace permanently deleted"@)).object(),
{
    let counts = Fields::new().with_count("facts", deleted.facts).with_count(
        "documents",
        deleted.documents,
    ).with_count("chunks", deleted.chunks).with_count("messages", deleted.messages).with_count(
        "sessions",
        deleted.sessions,
    ).with_count("episodes", deleted.episodes).with_count(
        "projection_rows",
        deleted.projection_rows,
    ).object();
    Fields::new().with_bool("ok", true).with("receipt", receipt).with_text(
        "namespace",
        namespace,
    ).with("deleted", counts).with_text("message", "Namespace permanently deleted").object()
}

/// The reply to a document that was ingested.
pub fn finish_ingest_document(document_id: &str, title: &str, chunks: usize, receipt: Json) -> (reply:
    Json)
    ensures
        reply@ == fields().put("ok"@, JsonView::Bool(true)).put("receipt"@, receipt@).put(
            "document_id"@,
            JsonView::Text(document_id@),
        ).put("title"@, JsonView::Text(title@)).put(
            "chunk_count"@,
            JsonView::Unsigned(chunks as u64),
        ).put("message"@, JsonView::Text("Document ingested successfully"@)).object(),
{
    Fields::new().with_bool("ok", true).with("receipt", receipt).with_text(
        "document_id",
        document_id,
    ).with_text("title", title).with_count("chunk_count", chunks).with_text(
        "message",
        "Document ingested successfully",
    ).object()
}

/// The keys of a fact in a reply differ.
proof fn lemma_fact_keys()
    ensures
        "result_id"@ != "id"@,
        "result_id"@ != "namespace"@,
        "result_id"@ != "content"@,
        "result_id"@ != "source"@,
        "id"@ != "namespace"@,
        "id"@ != "content"@,
        "id"@ != "source"@,
        "namespace"@ != "content"@,
        "namespace"@ != "source"@,
        "content"@ != "source"@,
{
    reveal_strlit("result_id");
    reveal_strlit("id");
    reveal_strlit("namespace");
    reveal_strlit("content");
    reveal_strlit("source");
    assert("result_id"@.len() == 9 && "result_id"@[0] == 'r' && "namespace"@[0] == 'n');
    assert("id"@.len() == 2 && "content"@.len() == 7 && "source"@.len() == 6);
    assert("namespace"@.len() == 9);
}

/// What a reply has to tell of a fact.
pub open spec fn tells(document: JsonView, fact: StoredFact) -> bool {
    &&& document.text_member("result_id"@) == Some("fact:"@ + fact.id@)
    &&& document.text_member("id"@) == Some(fact.id@)
    &&& document.text_member("namespace"@) == Some(fact.namespace@)
    &&& document.text_member("content"@) == Some(fact.content@)
    &&& document.member("source"@) == Some(
        match fact.source {
            Some(source) => JsonView::Text(source@),
            None => JsonView::Null,
        },
    )
}

/// A fact that is there is found and told in full, and one that is not there is
/// not found.
pub proof fn law_known_facts_are_found(fact_id: Seq<char>, fact: Option<StoredFact>)
    ensures
        fact_reply(fact_id, fact).true_member("ok"@),
        fact_reply(fact_id, fact).true_member("found"@) <==> fact is Some,
        fact matches Some(stored) ==> (fact_reply(fact_id, fact).member("fact"@) matches Some(
            document,
        ) && tells(document, stored)),
        fact is None ==> fact_reply(fact_id, fact).member("fact"@) is None,
{
    lemma_fact_keys();
    reveal_strlit("ok");
    reveal_strlit("found");
    reveal_strlit("fact");
    reveal_strlit("message");
    assert("ok"@.len() == 2 && "found"@.len() == 5 && "fact"@.len() == 4);
    assert("message"@.len() == 7);
    broadcast use crate::json::lemma_put_member, crate::json::lemma_no_member;

}

/// A listing tells every fact that it is given, in its place, and counts them.
pub proof fn law_listings_tell_every_fact(
    namespace: Seq<char>,
    limit: u64,
    offset: u64,
    facts: Seq<StoredFact>,
)
    ensures
        ({
            let reply = list_reply(namespace, limit, offset, facts);
            &&& reply.member("count"@) == Some(JsonView::Unsigned(facts.len() as u64))
            &&& reply.text_member("namespace"@) == Some(namespace)
            &&& reply.member("facts"@) matches Some(JsonView::Array(list)) && list.len()
                == facts.len() && forall|i: int|
                0 <= i < facts.len() ==> tells(#[trigger] list[i], facts[i])
        }),
{
    assert forall|fact: StoredFact| tells(#[trigger] listed_fact_json(fact), fact) by {
        lemma_fact_keys();
        broadcast use crate::json::lemma_put_member, crate::json::lemma_no_member;

    }
    reveal_strlit("ok");
    reveal_strlit("namespace");
    reveal_strlit("count");
    reveal_strlit("limit");
    reveal_strlit("offset");
    reveal_strlit("facts");
    assert("ok"@.len() == 2 && "namespace"@.len() == 9 && "count"@.len() == 5);
    assert("limit"@.len() == 5 && "offset"@.len() == 6 && "facts"@.len() == 5);
    assert("count"@[0] == 'c' && "limit"@[0] == 'l' && "facts"@[0] == 'f');
    broadcast use crate::json::lemma_put_member, crate::json::lemma_no_member;

}

/// The neighbour over an edge is its other end, whichever end the node is at;
/// going on over the same edge leads back.
pub proof fn law_neighbors_are_at_the_other_end(node: Seq<char>, edge: NeighborEdge)
    requires
        edge.source@ == node || edge.target@ == node,
    ensures
        edge.source@ == node ==> other_end(node, edge) == edge.target@,
        edge.target@ == node && edge.source@ != node ==> other_end(node, edge) == edge.source@,
        other_end(other_end(node, edge), edge) == node,
{
}

/// The neighbours of a fact are told one by one, in the order of its edges, each
/// with the direction of its edge: outwards just where the edge begins at the
/// fact.
pub proof fn law_neighbors_are_told_in_order(
    node: Seq<char>,
    center: Option<Seq<char>>,
    edges: Seq<NeighborEdge>,
    contents: Seq<Option<String>>,
)
    ensures
        ({
            let reply = neighbors_reply(node, center, edges, contents);
            &&& reply.member("neighbor_count"@) == Some(JsonView::Unsigned(edges.len() as u64))
            &&& reply.member("neighbors"@) matches Some(JsonView::Array(list)) && list.len()
                == edges.len() && forall|i: int|
                0 <= i < edges.len() ==> (#[trigger] list[i]).text_member("neighbor_id"@) == Some(
                    other_end(node, edges[i]),
                ) && (list[i].text_member("direction"@) == Some("out"@) <==> edges[i].source@
                    == node) && list[i].text_member("edge_type"@) == Some(edges[i].edge_type@)
        }),
{
    assert forall|edge: NeighborEdge, content: Option<Seq<char>>| ({
        let told = #[trigger] neighbor_json(node, edge, content);
        &&& told.text_member("neighbor_id"@) == Some(other_end(node, edge))
        &&& told.text_member("direction"@) == Some("out"@) <==> edge.source@ == node
        &&& told.text_member("edge_type"@) == Some(edge.edge_type@)
    }) by {
        reveal_strlit("neighbor_id");
        reveal_strlit("direction");
        reveal_strlit("edge_type");
        reveal_strlit("out");
        reveal_strlit("in");
        assert("out"@.len() == 3 && "in"@.len() == 2);
        assert("neighbor_id"@.len() == 11 && "direction"@.len() == 9 && "edge_type"@.len() == 9);
        assert("direction"@[0] == 'd' && "edge_type"@[0] == 'e');
        broadcast use crate::json::lemma_put_member, crate::json::lemma_no_member;

    }
    reveal_strlit("ok");
    reveal_strlit("item_id");
    reveal_strlit("center_content");
    reveal_strlit("neighbor_count");
    reveal_strlit("neighbors");
    assert("ok"@.len() == 2 && "item_id"@.len() == 7 && "neighbors"@.len() == 9);
    assert("center_content"@.len() == 14 && "neighbor_count"@.len() == 14);
    assert("center_content"@[0] == 'c' && "neighbor_count"@[0] == 'n');
    broadcast use crate::json::lemma_put_member, crate::json::lemma_no_member;

}

/// Merging repeats nothing: where the longer content holds the other, it stays
/// as it is, so that a content merged with itself is itself. Otherwise the
/// longer one comes first.
pub proof fn law_merging_repeats_nothing(keep: Seq<char>, other: Seq<char>)
    ensures
        byte_length(keep) >= byte_length(other) && contains_text(keep, other) ==> merged(
            keep,
            other,
        ) == keep,
        byte_length(keep) < byte_length(other) && contains_text(other, keep) ==> merged(keep, other)
            == other,
        merged(keep, keep) == keep,
        byte_length(keep) >= byte_length(other) ==> occurs_at(merged(keep, other), keep, 0),
        byte_length(keep) < byte_length(other) ==> occurs_at(merged(keep, other), other, 0),
{
    let all = merged(keep, other);
    assert(keep.subrange(0, keep.len() as int) =~= keep);
    assert(occurs_at(keep, keep, 0));
    assert(other.subrange(0, other.len() as int) =~= other);
    if byte_length(keep) >= byte_length(other) {
        assert(all.subrange(0, keep.len() as int) =~= keep);
    } else {
        assert(all.subrange(0, other.len() as int) =~= other);
    }
}

/// A consolidation keeps the content that was given; without one it loses
/// nothing of either fact.
pub proof fn law_consolidation_loses_nothing(
    keep: Seq<char>,
    other: Option<Seq<char>>,
    given: Option<Seq<char>>,
)
    ensures
        given matches Some(content) ==> consolidated(keep, other, given) == content,
        given is None ==> contains_text(consolidated(keep, other, given), keep),
        given is None && other is Some ==> contains_text(
            consolidated(keep, other, given),
            other->0,
        ),
{
    if other is Some {
        law_merging_keeps_both_contents(keep, other->0);
    }
    assert(occurs_at(keep, keep, 0)) by {
        assert(keep.subrange(0, keep.len() as int) =~= keep);
    }
}

/// A consolidated fact is superseded: once the edge of the plan is stored, no
/// search shows the fact that was merged away where the kept one or any other
/// current result was found.
pub proof fn law_consolidated_facts_are_superseded(
    plan: Consolidation,
    edges: Seq<crate::graph::EdgeRecord>,
    i: int,
)
    requires
        plan.relation@ == "supersedes"@,
        0 <= i < edges.len(),
        edges[i].target@ == plan.target@,
        edges[i].kind matches Some(crate::graph::EdgeKind::Entity { relation }) && relation@
            == plan.relation@,
    ensures
        crate::graph::superseded_in(edges).contains(plan.target@),
{
    crate::graph::law_superseded_nodes(edges, plan.target@);
    assert(edges[i].supersedes());
}

/// A bare identifier names the node of its fact, and the node names itself.
pub proof fn law_items_name_their_nodes(item: Seq<char>)
    ensures
        item_node(item_node(item)) == item_node(item),
        !item.contains(':') ==> item_node(item) == "fact:"@ + item && bare_id(item_node(item))
            == item,
        item.contains(':') ==> item_node(item) == item,
{
    law_node_and_bare_id_agree(item);
    reveal_strlit("fact:");
    assert(fact_node(item)[4] == ':');
}

/// A fact is forgotten where it is there and somebody governs it, and on the
/// authority of that one alone.
pub proof fn law_facts_are_forgotten_by_their_principal(
    bare: Seq<char>,
    namespace: Option<Seq<char>>,
    principal: Option<Seq<char>>,
    id: Seq<char>,
    r: Result<Forgetting, String>,
)
    requires
        forgotten_as(bare, namespace, principal, id, r),
    ensures
        r is Ok <==> namespace is Some && principal is Some,
        r matches Ok(plan) ==> plan.fact_id@ == bare && principal == Some(plan.principal@)
            && namespace == Some(plan.namespace@),
{
}

/// Requests to forget under different identifiers have different keys.
pub proof fn law_forgetting_keys_differ(a: Seq<char>, b: Seq<char>)
    ensures
        forgetting_key(a) == forgetting_key(b) ==> a == b,
{
    if forgetting_key(a) == forgetting_key(b) {
        let n = "mcp-sm-delete-fact:"@.len() as int;
        assert(forgetting_key(a).subrange(n, forgetting_key(a).len() as int) =~= a);
        assert(forgetting_key(b).subrange(n, forgetting_key(b).len() as int) =~= b);
    }
}

/// A replacement goes into the namespace of the old fact unless it is given
/// another, and what is kept beside the edge names the old fact and the reason.
pub proof fn law_replacements_are_explained(
    given: Option<Seq<char>>,
    old: Seq<char>,
    reason: Seq<char>,
    old_bare: Seq<char>,
)
    ensures
        replacement_namespace(None, old) == old,
        given is Some ==> replacement_namespace(given, old) == given->0,
        supersession_metadata(Some(reason), old_bare).text_member("reason"@) == Some(reason),
        supersession_metadata(Some(reason), old_bare).text_member("old_fact_id"@) == Some(old_bare),
        supersession_metadata(None, old_bare).text_member("old_fact_id"@) == Some(old_bare),
{
    reveal_strlit("reason");
    reveal_strlit("old_fact_id");
    assert("reason"@.len() == 6 && "old_fact_id"@.len() == 11);
    broadcast use crate::json::lemma_put_member, crate::json::lemma_no_member;

}

/// The reply to a replacement names both facts, each under its own name.
pub proof fn law_replacements_are_told(
    plan: Supersession,
    new_id: Seq<char>,
    edge_id: Seq<char>,
    receipt: JsonView,
)
    ensures
        ({
            let reply = supersession_reply(plan, new_id, edge_id, receipt);
            &&& reply.text_member("new_fact_id"@) == Some(new_id)
            &&& reply.text_member("new_result_id"@) == Some(fact_node(new_id))
            &&& reply.text_member("old_fact_id"@) == Some(plan.old_bare@)
            &&& reply.text_member("old_result_id"@) == Some(plan.old_node@)
            &&& reply.text_member("namespace"@) == Some(plan.namespace@)
            &&& reply.text_member("edge_id"@) == Some(edge_id)
            &&& reply.text_member("relation"@) == Some("supersedes"@)
            &&& reply.member("receipt"@) == Some(receipt)
        }),
{
    reveal_strlit("ok");
    reveal_strlit("receipt");
    reveal_strlit("new_fact_id");
    reveal_strlit("new_result_id");
    reveal_strlit("old_fact_id");
    reveal_strlit("old_result_id");
    reveal_strlit("namespace");
    reveal_strlit("edge_id");
    reveal_strlit("relation");
    assert("ok"@.len() == 2 && "receipt"@.len() == 7 && "edge_id"@.len() == 7);
    assert("receipt"@[0] == 'r' && "edge_id"@[0] == 'e');
    assert("new_fact_id"@.len() == 11 && "old_fact_id"@.len() == 11);
    assert("new_fact_id"@[0] == 'n' && "old_fact_id"@[0] == 'o');
    assert("new_result_id"@.len() == 13 && "old_result_id"@.len() == 13);
    assert("new_result_id"@[0] == 'n' && "old_result_id"@[0] == 'o');
    assert("namespace"@.len() == 9 && "relation"@.len() == 8);
    broadcast use crate::json::lemma_put_member, crate::json::lemma_no_member;

}

/// A fact that was forgotten is told by its node; it is not said to be deleted.
pub proof fn law_forgotten_facts_are_told(bare: Seq<char>, receipt: JsonView)
    ensures
        forgotten_json(bare, receipt).text_member("fact_id"@) == Some(fact_node(bare)),
        forgotten_json(bare, receipt).member("forgotten"@) == Some(JsonView::Bool(true)),
        forgotten_json(bare, receipt).member("deleted"@) == Some(JsonView::Bool(false)),
        forgotten_json(bare, receipt).member("forgetting_receipt"@) == Some(receipt),
{
    reveal_strlit("ok");
    reveal_strlit("deleted");
    reveal_strlit("forgotten");
    reveal_strlit("fact_id");
    reveal_strlit("forgetting_receipt");
    reveal_strlit("message");
    assert("ok"@.len() == 2 && "deleted"@.len() == 7 && "forgotten"@.len() == 9);
    assert("fact_id"@.len() == 7 && "forgetting_receipt"@.len() == 18 && "message"@.len() == 7);
    assert("deleted"@[0] == 'd' && "fact_id"@[0] == 'f' && "message"@[0] == 'm');
    broadcast use crate::json::lemma_put_member, crate::json::lemma_no_member;

}

}
