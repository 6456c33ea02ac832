//! Tool profiles: which tools a server shows, and which effects its HTTP
//! transport may have.
use crate::text::{same_text, texts};
use vstd::prelude::*;

verus! {

/// A named bound on what a server exposes.
#[derive(Clone, Copy, Debug, PartialEq, Eq, Structural)]
pub enum ToolProfile {
    Stable,
    Lean,
    Standard,
    Agent,
    Full,
}

/// Whether a tool only reads or may also write.
#[derive(Clone, Copy, Debug, PartialEq, Eq, Structural)]
pub enum EffectClass {
    Read,
    Write,
}

/// A tool that a profile grants, with its effect.
#[derive(Clone, Copy, Debug)]
pub struct ToolGrant {
    pub name: &'static str,
    pub effect: EffectClass,
}

/// The governed read-only surface.
pub open spec fn lean_grants() -> Seq<(Seq<char>, EffectClass)> {
    seq![
        ("sm_search_witnessed"@, EffectClass::Read),
        ("sm_replay_search"@, EffectClass::Read),
        ("sm_decide_assertion_authority"@, EffectClass::Read),
        ("sm_decide_action_authority"@, EffectClass::Read),
    ]
}

/// The bounded surface of daily agent work.
pub open spec fn agent_grants() -> Seq<(Seq<char>, EffectClass)> {
    seq![
        ("sm_add_fact"@, EffectClass::Write),
        ("sm_add_graph_edge"@, EffectClass::Write),
        ("sm_decide_action_authority"@, EffectClass::Read),
        ("sm_decide_assertion_authority"@, EffectClass::Read),
        ("sm_get_fact"@, EffectClass::Read),
        ("sm_get_fact_neighbors"@, EffectClass::Read),
        ("sm_get_search_receipt"@, EffectClass::Read),
        ("sm_graph_path"@, EffectClass::Read),
        ("sm_list_namespaces"@, EffectClass::Read),
        ("sm_replay_search"@, EffectClass::Read),
        ("sm_search_conversations"@, EffectClass::Read),
        ("sm_search_witnessed"@, EffectClass::Read),
        ("sm_set_provenance"@, EffectClass::Write),
        ("sm_stats"@, EffectClass::Read),
        ("sm_supersede_fact"@, EffectClass::Write),
        ("sm_update_fact"@, EffectClass::Write),
    ]
}

/// The stable surface.
pub open spec fn stable_grants() -> Seq<(Seq<char>, EffectClass)> {
    seq![
        ("sm_search"@, EffectClass::Read),
        ("sm_search_witnessed"@, EffectClass::Read),
        ("sm_stats"@, EffectClass::Read),
        ("sm_list_namespaces"@, EffectClass::Read),
        ("sm_get_fact"@, EffectClass::Read),
        ("sm_get_fact_neighbors"@, EffectClass::Read),
        ("sm_graph_path"@, EffectClass::Read),
        ("sm_search_conversations"@, EffectClass::Read),
        ("sm_add_fact"@, EffectClass::Write),
        ("sm_supersede_fact"@, EffectClass::Write),
        ("sm_add_graph_edge"@, EffectClass::Write),
        ("sm_decide_assertion_authority"@, EffectClass::Read),
        ("sm_decide_action_authority"@, EffectClass::Read),
    ]
}

/// Names and effects of a list of grants.
pub open spec fn grant_views(grants: Seq<ToolGrant>) -> Seq<(Seq<char>, EffectClass)> {
    Seq::new(grants.len(), |i: int| (grants[i].name@, grants[i].effect))
}

/// A grant for a tool that only reads.
fn reads(name: &'static str) -> (grant: ToolGrant)
    ensures
        grant.name@ == name@,
        grant.effect == EffectClass::Read,
{
    ToolGrant { name, effect: EffectClass::Read }
}

/// A grant for a tool that may write.
fn writes(name: &'static str) -> (grant: ToolGrant)
    ensures
        grant.name@ == name@,
        grant.effect == EffectClass::Write,
{
    ToolGrant { name, effect: EffectClass::Write }
}

impl ToolProfile {
    /// The grants of the profile; a profile without a list bounds nothing.
    pub open spec fn grants(self) -> Option<Seq<(Seq<char>, EffectClass)>> {
        match self {
            ToolProfile::Stable => Some(stable_grants()),
            ToolProfile::Lean | ToolProfile::Standard => Some(lean_grants()),
            ToolProfile::Agent => Some(agent_grants()),
            ToolProfile::Full => None,
        }
    }

    /// The name of the profile on the command line.
    pub open spec fn name_text(self) -> Seq<char> {
        match self {
            ToolProfile::Stable => "stable"@,
            ToolProfile::Lean => "lean"@,
            ToolProfile::Standard => "standard"@,
            ToolProfile::Agent => "agent"@,
            ToolProfile::Full => "full"@,
        }
    }

    /// The profile shows the tool called `name`. The stable profile shows all
    /// of its grants. The other bounded profiles show only grants that read:
    /// no trusted issuer of write authority is configured for them.
    pub open spec fn shows(self, name: Seq<char>) -> bool {
        match self.grants() {
            None => true,
            Some(grants) => if self == ToolProfile::Stable {
                exists|i: int| 0 <= i < grants.len() && (#[trigger] grants[i]).0 == name
            } else {
                exists|i: int|
                    0 <= i < grants.len() && (#[trigger] grants[i]).0 == name && grants[i].1
                        == EffectClass::Read
            },
        }
    }

    /// The grants of the profile; `None` if it bounds nothing.
    pub fn manifest(self) -> (grants: Option<Vec<ToolGrant>>)
        ensures
            (match grants {
                Some(list) => self.grants() == Some(grant_views(list@)),
                None => self.grants() is None,
            }),
    {
        match self {
            ToolProfile::Stable => {
                let list = vec![
                    reads("sm_search"),
                    reads("sm_search_witnessed"),
                    reads("sm_stats"),
                    reads("sm_list_namespaces"),
                    reads("sm_get_fact"),
                    reads("sm_get_fact_neighbors"),
                    reads("sm_graph_path"),
                    reads("sm_search_conversations"),
                    writes("sm_add_fact"),
                    writes("sm_supersede_fact"),
                    writes("sm_add_graph_edge"),
                    reads("sm_decide_assertion_authority"),
                    reads("sm_decide_action_authority"),
                ];
                assert(grant_views(list@) =~= stable_grants());
                Some(list)
            },
            ToolProfile::Lean | ToolProfile::Standard => {
                let list = vec![
                    reads("sm_search_witnessed"),
                    reads("sm_replay_search"),
                    reads("sm_decide_assertion_authority"),
                    reads("sm_decide_action_authority"),
                ];
                assert(grant_views(list@) =~= lean_grants());
                Some(list)
            },
            ToolProfile::Agent => {
                let list = vec![
                    writes("sm_add_fact"),
                    writes("sm_add_graph_edge"),
                    reads("sm_decide_action_authority"),
                    reads("sm_decide_assertion_authority"),
                    reads("sm_get_fact"),
                    reads("sm_get_fact_neighbors"),
                    reads("sm_get_search_receipt"),
                    reads("sm_graph_path"),
                    reads("sm_list_namespaces"),
                    reads("sm_replay_search"),
                    reads("sm_search_conversations"),
                    reads("sm_search_witnessed"),
                    writes("sm_set_provenance"),
                    reads("sm_stats"),
                    writes("sm_supersede_fact"),
                    writes("sm_update_fact"),
                ];
                assert(grant_views(list@) =~= agent_grants());
                Some(list)
            },
            ToolProfile::Full => None,
        }
    }

    /// Whether the HTTP transport may take writes.
    pub fn allows_http_write(self) -> (r: bool)
        ensures
            r == (self == ToolProfile::Agent || self == ToolProfile::Full),
    {
        matches!(self, ToolProfile::Agent | ToolProfile::Full)
    }

    /// Whether the HTTP transport may run maintenance.
    pub fn allows_http_maintenance(self) -> (r: bool)
        ensures
            r == (self == ToolProfile::Full),
    {
        matches!(self, ToolProfile::Full)
    }

    /// Whether the HTTP transport serves anything but the health check. The
    /// profiles of the governed read-only surface have no HTTP route for it.
    pub fn allows_http_route(self) -> (r: bool)
        ensures
            r == !(self == ToolProfile::Lean || self == ToolProfile::Standard),
    {
        !matches!(self, ToolProfile::Lean | ToolProfile::Standard)
    }

    /// The name of the profile on the command line.
    pub fn name(self) -> (s: String)
        ensures
            s@ == self.name_text(),
    {
        match self {
            ToolProfile::Stable => "stable".to_owned(),
            ToolProfile::Lean => "lean".to_owned(),
            ToolProfile::Standard => "standard".to_owned(),
            ToolProfile::Agent => "agent".to_owned(),
            ToolProfile::Full => "full".to_owned(),
        }
    }

    /// The profile called `name`.
    pub fn from_name(name: &str) -> (profile: Option<ToolProfile>)
        ensures
            (match profile {
                Some(p) => p.name_text() == name@,
                None => forall|p: ToolProfile| (#[trigger] p.name_text()) != name@,
            }),
    {
        if same_text(name, "stable") {
            Some(ToolProfile::Stable)
        } else if same_text(name, "lean") {
            Some(ToolProfile::Lean)
        } else if same_text(name, "standard") {
            Some(ToolProfile::Standard)
        } else if same_text(name, "agent") {
            Some(ToolProfile::Agent)
        } else if same_text(name, "full") {
            Some(ToolProfile::Full)
        } else {
            None
        }
    }

    /// Whether the profile shows the tool called `name`.
    pub fn exposes(self, name: &str) -> (r: bool)
        ensures
            r == self.shows(name@),
    {
        match self.manifest() {
            None => true,
            Some(list) => {
                let ghost grants = self.grants()->0;
                let mut i: usize = 0;
                while i < list.len()
                    invariant
                        i <= list.len(),
                        self.grants() == Some(grants),
                        grants == grant_views(list@),
                        forall|k: int|
                            0 <= k < i ==> (#[trigger] grants[k]).0 != name@ || !(self
                                == ToolProfile::Stable || grants[k].1 == EffectClass::Read),
                    decreases list.len() - i,
                {
                    let grant = list[i];
                    if same_text(grant.name, name) {
                        assert(grants[i as int].0 == name@);
                        if matches!(self, ToolProfile::Stable) || matches!(
                            grant.effect,
                            EffectClass::Read
                        ) {
                            return true;
                        }
                    }
                    i = i + 1;
                }
                false
            },
        }
    }
}

/// The registered tools that a profile shows, in the order of registration.
pub open spec fn shown_tools(profile: ToolProfile, registered: Seq<Seq<char>>) -> Seq<Seq<char>> {
    registered.filter(|name: Seq<char>| profile.shows(name))
}

/// The registered tools that a profile shows, in the order of registration.
pub fn visible_tools(profile: ToolProfile, registered: &Vec<String>) -> (visible: Vec<String>)
    ensures
        texts(visible@) == shown_tools(profile, texts(registered@)),
{
    let mut visible: Vec<String> = Vec::new();
    let mut i: usize = 0;
    let ghost all = texts(registered@);
    let ghost keep = |name: Seq<char>| profile.shows(name);
    proof {
        reveal(Seq::filter);
        assert(all.subrange(0, 0) =~= Seq::<Seq<char>>::empty());
        assert(texts(visible@) =~= Seq::<Seq<char>>::empty());
    }
    while i < registered.len()
        invariant
            i <= registered.len(),
            all == texts(registered@),
            keep == (|name: Seq<char>| profile.shows(name)),
            texts(visible@) == all.subrange(0, i as int).filter(keep),
        decreases registered.len() - i,
    {
        let ghost before = visible@;
        proof {
            reveal(Seq::filter);
            assert(all.subrange(0, i as int + 1).drop_last() =~= all.subrange(0, i as int));
            assert(all.subrange(0, i as int + 1).last() == registered@[i as int]@);
        }
        if profile.exposes(&registered[i]) {
            visible.push(registered[i].clone());
            assert(texts(visible@) =~= texts(before).push(registered@[i as int]@));
        }
        i = i + 1;
    }
    assert(all.subrange(0, all.len() as int) =~= all);
    visible
}

/// The standard profile is an alias of the lean one: both show the same tools.
pub proof fn law_standard_is_lean(registered: Seq<Seq<char>>)
    ensures
        ToolProfile::Standard.grants() == ToolProfile::Lean.grants(),
        shown_tools(ToolProfile::Standard, registered) == shown_tools(
            ToolProfile::Lean,
            registered,
        ),
{
    assert forall|name: Seq<char>| #[trigger]
        ToolProfile::Standard.shows(name) == ToolProfile::Lean.shows(name) by {}
    lemma_same_filter(
        registered,
        |name: Seq<char>| ToolProfile::Standard.shows(name),
        |name: Seq<char>| ToolProfile::Lean.shows(name),
    );
}

proof fn lemma_same_filter(s: Seq<Seq<char>>, p: spec_fn(Seq<char>) -> bool, q: spec_fn(
    Seq<char>,
) -> bool)
    requires
        forall|x: Seq<char>| #[trigger] p(x) == q(x),
    ensures
        s.filter(p) == s.filter(q),
    decreases s.len(),
{
    reveal(Seq::filter);
    if s.len() > 0 {
        lemma_same_filter(s.drop_last(), p, q);
        assert(p(s.last()) == q(s.last()));
    }
}

/// A profile other than the stable and the full one shows no tool that its
/// manifest grants only for writing: what such a profile shows, it grants for
/// reading.
pub proof fn law_bounded_profiles_show_reads(profile: ToolProfile, name: Seq<char>)
    requires
        profile != ToolProfile::Full,
        profile != ToolProfile::Stable,
        profile.shows(name),
    ensures
        profile.grants()->0.contains((name, EffectClass::Read)),
{
    let grants = profile.grants()->0;
    let i = choose|i: int|
        0 <= i < grants.len() && (#[trigger] grants[i]).0 == name && grants[i].1
            == EffectClass::Read;
    assert(grants[i] == (name, EffectClass::Read));
}

/// Every profile but the full one shows only tools that its manifest grants.
pub proof fn law_shown_tools_are_granted(profile: ToolProfile, name: Seq<char>)
    requires
        profile != ToolProfile::Full,
        profile.shows(name),
    ensures
        exists|i: int|
            0 <= i < profile.grants()->0.len() && (#[trigger] profile.grants()->0[i]).0 == name,
{
}

/// What a profile shows: the full one everything, the stable one all of its
/// grants, and the others just the grants that read.
pub proof fn law_profiles_show_their_grants(profile: ToolProfile, name: Seq<char>)
    ensures
        profile.shows(name) <==> (match profile.grants() {
            None => profile == ToolProfile::Full,
            Some(grants) => grants.contains((name, EffectClass::Read)) || (profile
                == ToolProfile::Stable && grants.contains((name, EffectClass::Write))),
        }),
{
    if let Some(grants) = profile.grants() {
        if grants.contains((name, EffectClass::Read)) {
            let i = choose|i: int| 0 <= i < grants.len() && grants[i] == (name, EffectClass::Read);
            assert(grants[i].0 == name);
        }
        if grants.contains((name, EffectClass::Write)) {
            let i = choose|i: int| 0 <= i < grants.len() && grants[i] == (name, EffectClass::Write);
            assert(grants[i].0 == name);
        }
        if profile.shows(name) {
            let i = choose|i: int|
                0 <= i < grants.len() && (#[trigger] grants[i]).0 == name && (profile
                    == ToolProfile::Stable || grants[i].1 == EffectClass::Read);
            assert(grants[i] == (name, grants[i].1));
        }
    }
}

/// The lean profile grants nothing that writes, and the agent profile shows
/// whatever the lean one shows.
pub proof fn law_agents_see_what_lean_sees(name: Seq<char>)
    ensures
        forall|i: int|
            0 <= i < lean_grants().len() ==> (#[trigger] lean_grants()[i]).1 == EffectClass::Read,
        ToolProfile::Lean.shows(name) ==> ToolProfile::Agent.shows(name),
        ToolProfile::Full.shows(name),
{
    if ToolProfile::Lean.shows(name) {
        let lean = lean_grants();
        let agent = agent_grants();
        let i = choose|i: int|
            0 <= i < lean.len() && (#[trigger] lean[i]).0 == name && lean[i].1
                == EffectClass::Read;
        assert(agent[11] == lean[0]);
        assert(agent[9] == lean[1]);
        assert(agent[3] == lean[2]);
        assert(agent[2] == lean[3]);
    }
}

/// The tools that are shown are the registered ones that the profile shows, and
/// none is missing.
pub proof fn law_registered_tools_are_shown(
    profile: ToolProfile,
    registered: Seq<Seq<char>>,
    name: Seq<char>,
)
    ensures
        shown_tools(profile, registered).contains(name) <==> registered.contains(name)
            && profile.shows(name),
    decreases registered.len(),
{
    reveal(Seq::filter);
    let keep = |n: Seq<char>| profile.shows(n);
    if registered.len() > 0 {
        let fewer = registered.drop_last();
        let last = registered.last();
        let before = shown_tools(profile, fewer);
        let shown = shown_tools(profile, registered);
        law_registered_tools_are_shown(profile, fewer, name);
        if registered.contains(name) && name != last {
            let i = choose|i: int| 0 <= i < registered.len() && registered[i] == name;
            assert(fewer[i] == name);
        }
        if fewer.contains(name) {
            let i = choose|i: int| 0 <= i < fewer.len() && fewer[i] == name;
            assert(registered[i] == name);
        }
        assert(registered[registered.len() - 1] == last);
        if keep(last) {
            assert(shown == before.push(last));
            assert(shown[before.len() as int] == last);
            if before.contains(name) {
                let i = choose|i: int| 0 <= i < before.len() && before[i] == name;
                assert(shown[i] == name);
            }
            if shown.contains(name) && name != last {
                let i = choose|i: int| 0 <= i < shown.len() && shown[i] == name;
                assert(before[i] == name);
            }
        }
    }
}

/// Different profiles have different names.
pub proof fn law_profile_names_differ(a: ToolProfile, b: ToolProfile)
    requires
        a != b,
    ensures
        a.name_text() != b.name_text(),
{
    reveal_strlit("stable");
    reveal_strlit("lean");
    reveal_strlit("standard");
    reveal_strlit("agent");
    reveal_strlit("full");
    assert("stable"@.len() == 6 && "standard"@.len() == 8 && "agent"@.len() == 5);
    assert("lean"@.len() == 4 && "full"@.len() == 4 && "lean"@[0] == 'l' && "full"@[0] == 'f');
}

}
