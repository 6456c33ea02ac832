//! The catalogue of tools, and the server that shows a profile's part of it.
use crate::feedback::OutcomeBatch;
use crate::json::{fields, Fields, Json, JsonView};
use crate::ledger_store::ClaimLedgerStore;
use crate::profile::{shown_tools, visible_tools, ToolProfile};
use crate::text::{holds, same_text, texts};
use crate::trust::ClaimTrustIndex;
use vstd::prelude::*;

verus! {

/// What a tool declares of itself; what it leaves open is missing.
#[derive(Clone, Copy, Debug, PartialEq, Eq, Structural)]
pub struct Hints {
    pub read_only: Option<bool>,
    pub destructive: Option<bool>,
    pub idempotent: Option<bool>,
}

/// A tool that declares nothing.
pub open spec fn plain() -> Hints {
    Hints { read_only: None, destructive: None, idempotent: None }
}

/// A tool that only reads.
pub open spec fn reading() -> Hints {
    Hints { read_only: Some(true), destructive: None, idempotent: None }
}

/// A tool that may be called again with the same effect.
pub open spec fn repeatable() -> Hints {
    Hints { read_only: None, destructive: None, idempotent: Some(true) }
}

/// A tool that destroys.
pub open spec fn destructive() -> Hints {
    Hints { read_only: None, destructive: Some(true), idempotent: None }
}

/// A tool that changes something.
pub open spec fn changing() -> Hints {
    Hints { read_only: Some(false), destructive: None, idempotent: None }
}

/// A tool that changes something, with the same effect when called again.
pub open spec fn changing_repeatable() -> Hints {
    Hints { read_only: Some(false), destructive: None, idempotent: Some(true) }
}

/// A tool that changes something and destroys.
pub open spec fn changing_destructive() -> Hints {
    Hints { read_only: Some(false), destructive: Some(true), idempotent: None }
}

/// A tool that changes something with every call and destroys nothing.
pub open spec fn changing_once() -> Hints {
    Hints { read_only: Some(false), destructive: Some(false), idempotent: Some(false) }
}

impl Hints {
    /// A tool that declares nothing.
    fn plain() -> (h: Hints)
        ensures
            h == plain(),
    {
        Hints { read_only: None, destructive: None, idempotent: None }
    }

    /// A tool that only reads.
    fn reading() -> (h: Hints)
        ensures
            h == reading(),
    {
        Hints { read_only: Some(true), destructive: None, idempotent: None }
    }

    /// A tool that may be called again with the same effect.
    fn repeatable() -> (h: Hints)
        ensures
            h == repeatable(),
    {
        Hints { read_only: None, destructive: None, idempotent: Some(true) }
    }

    /// A tool that destroys.
    fn destructive() -> (h: Hints)
        ensures
            h == destructive(),
    {
        Hints { read_only: None, destructive: Some(true), idempotent: None }
    }

    /// A tool that changes something.
    fn changing() -> (h: Hints)
        ensures
            h == changing(),
    {
        Hints { read_only: Some(false), destructive: None, idempotent: None }
    }

    /// A tool that changes something, with the same effect when called again.
    fn changing_repeatable() -> (h: Hints)
        ensures
            h == changing_repeatable(),
    {
        Hints { read_only: Some(false), destructive: None, idempotent: Some(true) }
    }

    /// A tool that changes something and destroys.
    fn changing_destructive() -> (h: Hints)
        ensures
            h == changing_destructive(),
    {
        Hints { read_only: Some(false), destructive: Some(true), idempotent: None }
    }

    /// A tool that changes something with every call and destroys nothing.
    fn changing_once() -> (h: Hints)
        ensures
            h == changing_once(),
    {
        Hints { read_only: Some(false), destructive: Some(false), idempotent: Some(false) }
    }
}

/// The tools of the server with what they declare.
pub struct Catalog {
    names: Vec<String>,
    hints: Vec<Hints>,
}

/// The tools of the server with what they declare, in their order.
#[verifier::ext_equal]
pub struct CatalogView {
    pub names: Seq<Seq<char>>,
    pub hints: Seq<Hints>,
}

/// No tools.
pub open spec fn no_tools() -> CatalogView {
    CatalogView { names: Seq::empty(), hints: Seq::empty() }
}

impl CatalogView {
    /// The catalogue with one more tool.
    pub open spec fn put(self, name: Seq<char>, hints: Hints) -> CatalogView {
        CatalogView { names: self.names.push(name), hints: self.hints.push(hints) }
    }

    /// The offset of a tool, or the number of tools.
    pub open spec fn index_of(self, name: Seq<char>) -> int {
        first_named(self.names, name)
    }
}

/// The offset of a name, or the number of names.
pub open spec fn first_named(names: Seq<Seq<char>>, name: Seq<char>) -> int
    decreases names.len(),
{
    if names.len() == 0 || names[0] == name {
        0
    } else {
        1 + first_named(names.subrange(1, names.len() as int), name)
    }
}

impl View for Catalog {
    type V = CatalogView;

    closed spec fn view(&self) -> CatalogView {
        CatalogView { names: texts(self.names@), hints: self.hints@ }
    }
}

impl Catalog {
    /// No tools.
    fn new() -> (catalog: Catalog)
        ensures
            catalog@ == no_tools(),
    {
        let catalog = Catalog { names: Vec::new(), hints: Vec::new() };
        assert(catalog@ =~= no_tools());
        catalog
    }

    /// The catalogue with one more tool.
    fn with(self, name: &str, hints: Hints) -> (catalog: Catalog)
        ensures
            catalog@ == self@.put(name@, hints),
    {
        let mut names = self.names;
        let mut list = self.hints;
        names.push(name.to_owned());
        list.push(hints);
        let catalog = Catalog { names, hints: list };
        assert(catalog@ =~= self@.put(name@, hints));
        catalog
    }
}

/// The first part of the catalogue.
pub open spec fn first_tools(before: CatalogView) -> CatalogView {
    before
        .put("sm_add_evidence"@, changing())
        .put("sm_add_fact"@, plain())
        .put("sm_add_graph_edge"@, repeatable())
        .put("sm_benchmark_trust"@, reading())
        .put("sm_community"@, reading())
        .put("sm_compact_claim_ledger"@, changing_destructive())
        .put("sm_consolidate_facts"@, plain())
        .put("sm_create_claim"@, changing_repeatable())
        .put("sm_decide_action_authority"@, reading())
        .put("sm_decide_assertion_authority"@, reading())
        .put("sm_decoder_analyze"@, reading())
        .put("sm_delete_fact"@, destructive())
        .put("sm_delete_namespace"@, destructive())
        .put("sm_detect_contradictions"@, reading())
        .put("sm_discord_search"@, reading())
        .put("sm_embeddings_are_dirty"@, reading())
        .put("sm_factor_graph"@, reading())
}

/// The first part of the catalogue.
fn with_first_tools(before: Catalog) -> (r: Catalog)
    ensures
        r@ == first_tools(before@),
{
    before
        .with("sm_add_evidence", Hints::changing())
        .with("sm_add_fact", Hints::plain())
        .with("sm_add_graph_edge", Hints::repeatable())
        .with("sm_benchmark_trust", Hints::reading())
        .with("sm_community", Hints::reading())
        .with("sm_compact_claim_ledger", Hints::changing_destructive())
        .with("sm_consolidate_facts", Hints::plain())
        .with("sm_create_claim", Hints::changing_repeatable())
        .with("sm_decide_action_authority", Hints::reading())
        .with("sm_decide_assertion_authority", Hints::reading())
        .with("sm_decoder_analyze", Hints::reading())
        .with("sm_delete_fact", Hints::destructive())
        .with("sm_delete_namespace", Hints::destructive())
        .with("sm_detect_contradictions", Hints::reading())
        .with("sm_discord_search", Hints::reading())
        .with("sm_embeddings_are_dirty", Hints::reading())
        .with("sm_factor_graph", Hints::reading())
}

/// The second part of the catalogue.
pub open spec fn second_tools(before: CatalogView) -> CatalogView {
    before
        .put("sm_get_fact"@, reading())
        .put("sm_get_fact_neighbors"@, reading())
        .put("sm_get_messages"@, reading())
        .put("sm_get_routing_policy"@, reading())
        .put("sm_get_search_receipt"@, reading())
        .put("sm_graph_path"@, reading())
        .put("sm_import_envelope"@, repeatable())
        .put("sm_import_status"@, reading())
        .put("sm_ingest_document"@, repeatable())
        .put("sm_invalidate_graph_edge"@, repeatable())
        .put("sm_judge_support"@, changing())
        .put("sm_list_facts"@, reading())
        .put("sm_list_graph_edges"@, reading())
        .put("sm_list_imports"@, reading())
        .put("sm_list_namespaces"@, reading())
        .put("sm_list_sessions"@, reading())
        .put("sm_parse_choice"@, reading())
}

/// The second part of the catalogue.
fn with_second_tools(before: Catalog) -> (r: Catalog)
    ensures
        r@ == second_tools(before@),
{
    before
        .with("sm_get_fact", Hints::reading())
        .with("sm_get_fact_neighbors", Hints::reading())
        .with("sm_get_messages", Hints::reading())
        .with("sm_get_routing_policy", Hints::reading())
        .with("sm_get_search_receipt", Hints::reading())
        .with("sm_graph_path", Hints::reading())
        .with("sm_import_envelope", Hints::repeatable())
        .with("sm_import_status", Hints::reading())
        .with("sm_ingest_document", Hints::repeatable())
        .with("sm_invalidate_graph_edge", Hints::repeatable())
        .with("sm_judge_support", Hints::changing())
        .with("sm_list_facts", Hints::reading())
        .with("sm_list_graph_edges", Hints::reading())
        .with("sm_list_imports", Hints::reading())
        .with("sm_list_namespaces", Hints::reading())
        .with("sm_list_sessions", Hints::reading())
        .with("sm_parse_choice", Hints::reading())
}

/// The third part of the catalogue.
pub open spec fn third_tools(before: CatalogView) -> CatalogView {
    before
        .put("sm_parse_json"@, reading())
        .put("sm_parse_json_value"@, reading())
        .put("sm_parse_number"@, reading())
        .put("sm_parse_string_list"@, reading())
        .put("sm_query_claim_versions"@, reading())
        .put("sm_query_entity_aliases"@, reading())
        .put("sm_query_episodes"@, reading())
        .put("sm_query_evidence_refs"@, reading())
        .put("sm_query_relation_versions"@, reading())
        .put("sm_reconcile"@, repeatable())
        .put("sm_record_outcome"@, changing_once())
        .put("sm_reembed_all"@, repeatable())
        .put("sm_repair_json"@, reading())
        .put("sm_replay_search"@, reading())
        .put("sm_replay_search_receipt"@, reading())
        .put("sm_route_query"@, reading())
        .put("sm_run_lifecycle"@, reading())
}

/// The third part of the catalogue.
fn with_third_tools(before: Catalog) -> (r: Catalog)
    ensures
        r@ == third_tools(before@),
{
    before
        .with("sm_parse_json", Hints::reading())
        .with("sm_parse_json_value", Hints::reading())
        .with("sm_parse_number", Hints::reading())
        .with("sm_parse_string_list", Hints::reading())
        .with("sm_query_claim_versions", Hints::reading())
        .with("sm_query_entity_aliases", Hints::reading())
        .with("sm_query_episodes", Hints::reading())
        .with("sm_query_evidence_refs", Hints::reading())
        .with("sm_query_relation_versions", Hints::reading())
        .with("sm_reconcile", Hints::repeatable())
        .with("sm_record_outcome", Hints::changing_once())
        .with("sm_reembed_all", Hints::repeatable())
        .with("sm_repair_json", Hints::reading())
        .with("sm_replay_search", Hints::reading())
        .with("sm_replay_search_receipt", Hints::reading())
        .with("sm_route_query", Hints::reading())
        .with("sm_run_lifecycle", Hints::reading())
}

/// The fourth part of the catalogue.
pub open spec fn fourth_tools(before: CatalogView) -> CatalogView {
    before
        .put("sm_search"@, reading())
        .put("sm_search_as_of_preview"@, reading())
        .put("sm_search_conversations"@, reading())
        .put("sm_search_explained"@, reading())
        .put("sm_search_proof_debt"@, reading())
        .put("sm_search_with_routing"@, reading())
        .put("sm_search_witnessed"@, reading())
        .put("sm_set_provenance"@, repeatable())
        .put("sm_stats"@, reading())
        .put("sm_strip_think_tags"@, reading())
        .put("sm_subgraph_prune"@, reading())
        .put("sm_supersede_fact"@, repeatable())
        .put("sm_topology"@, reading())
        .put("sm_update_fact"@, repeatable())
        .put("sm_vacuum"@, repeatable())
        .put("sm_verify_claim"@, reading())
}

/// The fourth part of the catalogue.
fn with_fourth_tools(before: Catalog) -> (r: Catalog)
    ensures
        r@ == fourth_tools(before@),
{
    before
        .with("sm_search", Hints::reading())
        .with("sm_search_as_of_preview", Hints::reading())
        .with("sm_search_conversations", Hints::reading())
        .with("sm_search_explained", Hints::reading())
        .with("sm_search_proof_debt", Hints::reading())
        .with("sm_search_with_routing", Hints::reading())
        .with("sm_search_witnessed", Hints::reading())
        .with("sm_set_provenance", Hints::repeatable())
        .with("sm_stats", Hints::reading())
        .with("sm_strip_think_tags", Hints::reading())
        .with("sm_subgraph_prune", Hints::reading())
        .with("sm_supersede_fact", Hints::repeatable())
        .with("sm_topology", Hints::reading())
        .with("sm_update_fact", Hints::repeatable())
        .with("sm_vacuum", Hints::repeatable())
        .with("sm_verify_claim", Hints::reading())
}

/// Every tool of the server, by name.
pub open spec fn all_tools() -> CatalogView {
    fourth_tools(third_tools(second_tools(first_tools(no_tools()))))
}

impl Catalog {
    /// Every tool of the server, by name.
    pub fn all() -> (catalog: Catalog)
        ensures
            catalog@ == all_tools(),
    {
        with_fourth_tools(with_third_tools(with_second_tools(with_first_tools(Catalog::new()))))
    }
}

/// A reply with an object at its root: one that is no object becomes the
/// member `value` of one.
pub open spec fn structured(value: JsonView) -> JsonView {
    match value {
        JsonView::Object(_) => value,
        _ => fields().put("value"@, value).object(),
    }
}

/// A reply with an object at its root.
pub fn structured_output(value: Json) -> (reply: Json)
    ensures
        reply@ == structured(value@),
        reply@ is Object,
{
    match value {
        Json::Object(_) => value,
        other => Fields::new().with("value", other).object(),
    }
}

/// The server as far as its decisions go: which tools it shows, what the claim
/// ledger holds and gives, and which outcomes wait to be stored.
pub struct SemanticMemoryServer {
    pub profile: ToolProfile,
    pub tools: Catalog,
    pub ledger: ClaimLedgerStore,
    pub trust: ClaimTrustIndex,
    pub outcomes: OutcomeBatch,
}

impl SemanticMemoryServer {
    /// Whether the server has every tool of the catalogue.
    pub open spec fn wf(&self) -> bool {
        self.tools@ == all_tools()
    }

    /// A server that shows the profile with a name, with the trust that the
    /// ledger gives. There is none for a name that is no profile's.
    pub fn new(ledger: ClaimLedgerStore, tool_profile: &str) -> (r: Option<SemanticMemoryServer>)
        ensures
            (match r {
                Some(server) => {
                    &&& server.wf()
                    &&& server.profile.name_text() == tool_profile@
                    &&& server.ledger == ledger
                    &&& server.trust@ == ledger@.trust()
                    &&& server.outcomes.pending == 0
                },
                None => forall|p: ToolProfile| (#[trigger] p.name_text()) != tool_profile@,
            }),
    {
        match ToolProfile::from_name(tool_profile) {
            Some(profile) => {
                let trust = ledger.trust_index();
                Some(
                    SemanticMemoryServer {
                        profile,
                        tools: Catalog::all(),
                        ledger,
                        trust,
                        outcomes: OutcomeBatch::new(),
                    },
                )
            },
            None => None,
        }
    }

    /// A server of the stable build, which takes no other profile than its own.
    pub fn stable(ledger: ClaimLedgerStore, tool_profile: &str) -> (r: Option<SemanticMemoryServer>)
        ensures
            (match r {
                Some(server) => {
                    &&& server.wf()
                    &&& tool_profile@ == "stable"@
                    &&& server.profile == ToolProfile::Stable
                    &&& server.ledger == ledger
                    &&& server.trust@ == ledger@.trust()
                    &&& server.outcomes.pending == 0
                },
                None => tool_profile@ != "stable"@,
            }),
    {
        if !same_text(tool_profile, "stable") {
            return None;
        }
        let trust = ledger.trust_index();
        Some(
            SemanticMemoryServer {
                profile: ToolProfile::Stable,
                tools: Catalog::all(),
                ledger,
                trust,
                outcomes: OutcomeBatch::new(),
            },
        )
    }

    /// The names of the tools that the server shows, in alphabetical order.
    pub fn exposed_tool_names(&self) -> (names: Vec<String>)
        requires
            self.wf(),
        ensures
            texts(names@) == shown_tools(self.profile, all_tools().names),
    {
        visible_tools(self.profile, &self.tools.names)
    }

    /// Whether the server shows a tool: it has it, and the profile shows it.
    pub fn exposes_tool(&self, name: &str) -> (r: bool)
        requires
            self.wf(),
        ensures
            r == (all_tools().names.contains(name@) && self.profile.shows(name@)),
    {
        holds(&self.tools.names, name) && self.profile.exposes(name)
    }

    /// What a tool that the server shows declares.
    pub fn tool_annotations(&self, name: &str) -> (hints: Option<Hints>)
        requires
            self.wf(),
        ensures
            hints == (if all_tools().names.contains(name@) && self.profile.shows(name@) {
                Some(all_tools().hints[all_tools().index_of(name@)])
            } else {
                None
            }),
    {
        if !self.profile.exposes(name) {
            return None;
        }
        let ghost all = self.tools@.names;
        let mut i: usize = 0;
        assert(all.subrange(0, all.len() as int) =~= all);
        while i < self.tools.names.len() && !same_text(&self.tools.names[i], name)
            invariant
                i <= self.tools.names@.len(),
                all == texts(self.tools.names@),
                first_named(all, name@) == i + first_named(
                    all.subrange(i as int, all.len() as int),
                    name@,
                ),
                forall|j: int| 0 <= j < i ==> #[trigger] all[j] != name@,
            decreases self.tools.names.len() - i,
        {
            let ghost rest = all.subrange(i as int, all.len() as int);
            assert(rest.subrange(1, rest.len() as int) =~= all.subrange(
                i as int + 1,
                all.len() as int,
            ));
            i += 1;
        }
        if i < self.tools.names.len() {
            proof {
                assert(all[i as int] == name@);
                lemma_catalog_is_complete();
            }
            Some(self.tools.hints[i])
        } else {
            assert(!all.contains(name@));
            None
        }
    }

    /// Replaces the trust by what the ledger gives.
    pub fn rebuild_trust(&mut self)
        ensures
            final(self).trust@ == old(self).ledger@.trust(),
            final(self).ledger == old(self).ledger,
            final(self).profile == old(self).profile,
            final(self).tools == old(self).tools,
            final(self).outcomes == old(self).outcomes,
    {
        self.trust = self.ledger.trust_index();
    }
}

/// Every tool of the catalogue comes with a declaration.
proof fn lemma_catalog_is_complete()
    ensures
        all_tools().hints.len() == all_tools().names.len(),
{
}

/// The full profile shows every tool.
pub proof fn law_full_profile_shows_every_tool(names: Seq<Seq<char>>)
    ensures
        shown_tools(ToolProfile::Full, names) == names,
    decreases names.len(),
{
    reveal(Seq::filter);
    if names.len() > 0 {
        law_full_profile_shows_every_tool(names.drop_last());
        assert(names =~= names.drop_last().push(names.last()));
    } else {
        assert(shown_tools(ToolProfile::Full, names) =~= names);
    }
}

/// A name is found where it first stands, and at the end where it does not.
pub proof fn law_names_are_found_where_they_first_stand(names: Seq<Seq<char>>, name: Seq<char>)
    ensures
        ({
            let at = first_named(names, name);
            &&& 0 <= at <= names.len()
            &&& at < names.len() <==> names.contains(name)
            &&& at < names.len() ==> names[at] == name
            &&& forall|i: int| 0 <= i < at ==> #[trigger] names[i] != name
        }),
    decreases names.len(),
{
    if names.len() > 0 && names[0] != name {
        let rest = names.subrange(1, names.len() as int);
        law_names_are_found_where_they_first_stand(rest, name);
        let at = first_named(rest, name);
        assert forall|i: int| 0 <= i < at + 1 implies #[trigger] names[i] != name by {
            if i > 0 {
                assert(rest[i - 1] == names[i]);
            }
        }
        if names.contains(name) {
            let i = choose|i: int| 0 <= i < names.len() && names[i] == name;
            assert(rest[i - 1] == name);
        }
    }
}

/// A tool that was put into a catalogue, and was not there yet, is found with
/// what it declares; those that were there are found as before.
pub proof fn law_tools_are_found_with_their_hints(
    catalog: CatalogView,
    name: Seq<char>,
    hints: Hints,
    other: Seq<char>,
)
    requires
        catalog.names.len() == catalog.hints.len(),
        !catalog.names.contains(name),
        catalog.names.contains(other),
    ensures
        catalog.put(name, hints).hints[catalog.put(name, hints).index_of(name)] == hints,
        catalog.put(name, hints).hints[catalog.put(name, hints).index_of(other)]
            == catalog.hints[catalog.index_of(other)],
{
    let more = catalog.put(name, hints);
    let n = catalog.names.len() as int;
    law_names_are_found_where_they_first_stand(catalog.names, other);
    law_names_are_found_where_they_first_stand(more.names, other);
    law_names_are_found_where_they_first_stand(more.names, name);
    assert(more.names[n] == name);
    let at = more.index_of(name);
    if at < n {
        assert(catalog.names[at] == name);
    }
    assert(at == n);
    let (a, b) = (catalog.index_of(other), more.index_of(other));
    assert(more.names[a] == other);
    if b < a {
        assert(catalog.names[b] == other);
    }
}

/// A tool that only reads never destroys, and none that destroys is said to have
/// the same effect when called again.
pub proof fn law_readers_do_not_destroy(hints: Hints)
    requires
        hints == plain() || hints == reading() || hints == repeatable() || hints == destructive()
            || hints == changing() || hints == changing_repeatable() || hints
            == changing_destructive() || hints == changing_once(),
    ensures
        hints.read_only == Some(true) ==> hints.destructive != Some(true),
        hints.destructive == Some(true) ==> hints.idempotent != Some(true),
{
}

/// A reply is an object: an object stays as it is, and anything else is the
/// value of one.
pub proof fn law_replies_are_objects(value: JsonView)
    ensures
        structured(value) is Object,
        value is Object ==> structured(value) == value,
        !(value is Object) ==> structured(value).member("value"@) == Some(value),
{
    broadcast use crate::json::lemma_put_member;

}

}
