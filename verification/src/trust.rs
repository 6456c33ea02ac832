//! Trust in facts: an index from facts to the support that the claim ledger
//! has judged for them, projected from the ledger's entries.
use crate::text::{
    after,
    optional_text,
    same_text,
    starts_with,
    strip_prefix,
    texts,
    trimmed,
    unicode_lowered,
    white_space,
};
use crate::trigrams::{
    larger_fraction,
    law_similarity_is_at_most_one,
    law_trigrams_are_finite,
    seven_tenths,
    similarity,
    trigram_set,
    Similarity,
    Trigrams,
};
use crate::json::{json_views, pair_texts, Json, JsonView};
use vstd::hash_map::StringHashMap;
use vstd::prelude::*;

verus! {

/// What has been judged of a claim.
#[derive(Clone, Copy, Debug, PartialEq, Eq, Structural)]
pub enum SupportState {
    Supported,
    PartiallySupported,
    Unsupported,
    Contradicted,
    HeuristicOnly,
    Unknown,
}

impl SupportState {
    /// The trust label of a fact whose claim is in this state.
    pub open spec fn label_text(self) -> Seq<char> {
        match self {
            SupportState::Supported => "supported"@,
            SupportState::PartiallySupported => "partially_supported"@,
            SupportState::Unsupported => "unsupported"@,
            SupportState::Contradicted => "contradicted"@,
            SupportState::HeuristicOnly => "heuristic_only"@,
            SupportState::Unknown => "persisted_unjudged"@,
        }
    }
}

/// The trust label of a fact whose claim is in the given state.
pub fn support_state_label(state: SupportState) -> (s: &'static str)
    ensures
        s@ == state.label_text(),
{
    match state {
        SupportState::Supported => "supported",
        SupportState::PartiallySupported => "partially_supported",
        SupportState::Unsupported => "unsupported",
        SupportState::Contradicted => "contradicted",
        SupportState::HeuristicOnly => "heuristic_only",
        SupportState::Unknown => "persisted_unjudged",
    }
}

/// What a ledger entry says, as far as trust goes.
pub enum LedgerEvent {
    ClaimAdded { claim_id: String, source_id: String, normalized_claim: String },
    SupportJudgment { claim_id: String, support_state: SupportState },
    ContradictionCandidate { claim_refs: Vec<String> },
    ContradictionResolved,
    Other,
}

/// An entry of the claim ledger.
pub struct LedgerEntry {
    pub sequence: u64,
    pub previous_entry_digest: Option<String>,
    pub event: LedgerEvent,
    pub entry_digest: String,
    /// The entry as the ledger file holds it.
    pub line: String,
}

/// What a ledger entry says, as far as trust goes.
pub enum EventView {
    ClaimAdded { claim: Seq<char>, source: Seq<char>, content: Seq<char> },
    Judgment { claim: Seq<char>, state: SupportState },
    Contradiction { claims: Seq<Seq<char>> },
    Resolution,
    Other,
}

/// An entry of the claim ledger.
pub struct EntryView {
    pub sequence: u64,
    pub previous: Option<Seq<char>>,
    pub event: EventView,
    pub digest: Seq<char>,
    pub line: Seq<char>,
}

impl View for LedgerEvent {
    type V = EventView;

    open spec fn view(&self) -> EventView {
        match *self {
            LedgerEvent::ClaimAdded { claim_id, source_id, normalized_claim } => {
                EventView::ClaimAdded {
                    claim: claim_id@,
                    source: source_id@,
                    content: normalized_claim@,
                }
            },
            LedgerEvent::SupportJudgment { claim_id, support_state } => EventView::Judgment {
                claim: claim_id@,
                state: support_state,
            },
            LedgerEvent::ContradictionCandidate { claim_refs } => EventView::Contradiction {
                claims: texts(claim_refs@),
            },
            LedgerEvent::ContradictionResolved => EventView::Resolution,
            LedgerEvent::Other => EventView::Other,
        }
    }
}

impl View for LedgerEntry {
    type V = EntryView;

    open spec fn view(&self) -> EntryView {
        EntryView {
            sequence: self.sequence,
            previous: optional_text(self.previous_entry_digest),
            event: self.event@,
            digest: self.entry_digest@,
            line: self.line@,
        }
    }
}

/// What a list of entries says.
pub open spec fn entry_views(entries: Seq<LedgerEntry>) -> Seq<EntryView> {
    Seq::new(entries.len(), |i: int| entries[i]@)
}

/// What the index knows.
#[verifier::ext_equal]
pub struct TrustView {
    pub enabled: bool,
    pub fact_to_claim: Map<Seq<char>, Seq<char>>,
    pub support: Map<Seq<char>, SupportState>,
    /// Normalized contents with their claims; a content is listed once.
    pub contents: Seq<(Seq<char>, Seq<char>)>,
    pub last_sequence: u64,
}

/// The offset of a content, or the number of contents.
pub open spec fn content_index(contents: Seq<(Seq<char>, Seq<char>)>, content: Seq<char>) -> int
    decreases contents.len(),
{
    if contents.len() == 0 || contents[0].0 == content {
        0
    } else {
        1 + content_index(contents.subrange(1, contents.len() as int), content)
    }
}

/// The claim of a content.
pub open spec fn claim_of_content(
    contents: Seq<(Seq<char>, Seq<char>)>,
    content: Seq<char>,
) -> Option<Seq<char>> {
    let i = content_index(contents, content);
    if i < contents.len() {
        Some(contents[i].1)
    } else {
        None
    }
}

/// An index that knows nothing and is off.
pub open spec fn no_trust() -> TrustView {
    TrustView {
        enabled: false,
        fact_to_claim: Map::empty(),
        support: Map::empty(),
        contents: Seq::empty(),
        last_sequence: 0,
    }
}

impl TrustView {
    /// The index after a claim's content was registered. An empty content is
    /// not registered; a known one goes to the new claim.
    pub open spec fn registered(self, claim: Seq<char>, content: Seq<char>) -> TrustView {
        if content.len() == 0 {
            self
        } else {
            let i = content_index(self.contents, content);
            TrustView {
                contents: if i < self.contents.len() {
                    self.contents.update(i, (content, claim))
                } else {
                    self.contents.push((content, claim))
                },
                ..self
            }
        }
    }

    /// The index after a fact was linked to a claim.
    pub open spec fn linked(self, fact: Seq<char>, claim: Seq<char>) -> TrustView {
        TrustView { fact_to_claim: self.fact_to_claim.insert(fact, claim), ..self }
    }

    /// The index after a claim was judged.
    pub open spec fn judged(self, claim: Seq<char>, state: SupportState) -> TrustView {
        TrustView { support: self.support.insert(claim, state), ..self }
    }

    /// The index after claims were found to contradict each other.
    pub open spec fn contradicted(self, claims: Seq<Seq<char>>) -> TrustView
        decreases claims.len(),
    {
        if claims.len() == 0 {
            self
        } else {
            self.contradicted(claims.drop_last()).judged(
                claims.last(),
                SupportState::Contradicted,
            )
        }
    }

    /// The index after an event, but for the sequence number.
    pub open spec fn after_event(self, event: EventView) -> TrustView {
        match event {
            EventView::ClaimAdded { claim, source, content } => {
                let prefix = "semantic-memory:fact:"@;
                let linked = if starts_with(source, prefix) {
                    self.linked(after(source, prefix.len() as int), claim)
                } else {
                    self
                };
                linked.registered(claim, content)
            },
            EventView::Judgment { claim, state } => self.judged(claim, state),
            EventView::Contradiction { claims } => self.contradicted(claims),
            EventView::Resolution => self,
            EventView::Other => self,
        }
    }

    /// The index after an entry.
    pub open spec fn applied(self, entry: EntryView) -> TrustView {
        TrustView { last_sequence: entry.sequence, ..self.after_event(entry.event) }
    }

    /// The index after the entries that it had not seen yet.
    pub open spec fn caught_up(self, entries: Seq<EntryView>) -> TrustView
        decreases entries.len(),
    {
        if entries.len() == 0 {
            self
        } else {
            let before = self.caught_up(entries.drop_last());
            if entries.last().sequence > before.last_sequence {
                before.applied(entries.last())
            } else {
                before
            }
        }
    }

    /// The trust label of a fact.
    pub open spec fn trust(self, fact: Seq<char>) -> Seq<char> {
        if !self.enabled {
            "trust_enrichment_disabled"@
        } else if self.fact_to_claim.contains_key(fact) && self.support.contains_key(
            self.fact_to_claim[fact],
        ) {
            self.support[self.fact_to_claim[fact]].label_text()
        } else {
            "persisted_unjudged"@
        }
    }
}

/// A process-local index from facts to judged claims. It is a projection of the
/// claim ledger and never a source of truth itself.
pub struct ClaimTrustIndex {
    enabled: bool,
    fact_to_claim: StringHashMap<String>,
    claim_support: StringHashMap<SupportState>,
    contents: Vec<(String, String)>,
    last_processed_sequence: u64,
}

/// The texts of a map of strings.
pub open spec fn map_texts(m: Map<Seq<char>, String>) -> Map<Seq<char>, Seq<char>> {
    m.map_values(|s: String| s@)
}

impl View for ClaimTrustIndex {
    type V = TrustView;

    closed spec fn view(&self) -> TrustView {
        TrustView {
            enabled: self.enabled,
            fact_to_claim: map_texts(self.fact_to_claim@),
            support: self.claim_support@,
            contents: pair_texts(self.contents@),
            last_sequence: self.last_processed_sequence,
        }
    }
}

proof fn lemma_content_index(contents: Seq<(Seq<char>, Seq<char>)>, content: Seq<char>, k: int)
    requires
        0 <= k <= contents.len(),
        forall|i: int| 0 <= i < k ==> (#[trigger] contents[i]).0 != content,
        k == contents.len() || contents[k].0 == content,
    ensures
        content_index(contents, content) == k,
    decreases contents.len(),
{
    if k > 0 {
        let rest = contents.subrange(1, contents.len() as int);
        assert forall|i: int| 0 <= i < k - 1 implies (#[trigger] rest[i]).0 != content by {
            assert(contents[i + 1].0 != content);
        }
        lemma_content_index(rest, content, k - 1);
    }
}

impl TrustView {
    /// Whether two indices know the same, though they may list the contents in
    /// another order.
    pub open spec fn agrees(self, other: TrustView) -> bool {
        &&& self.enabled == other.enabled
        &&& self.fact_to_claim == other.fact_to_claim
        &&& self.support == other.support
        &&& self.last_sequence == other.last_sequence
        &&& forall|content: Seq<char>|
            #[trigger] claim_of_content(self.contents, content) == claim_of_content(
                other.contents,
                content,
            )
    }
}

/// The offset of a content is that of its first occurrence.
proof fn lemma_content_found(contents: Seq<(Seq<char>, Seq<char>)>, content: Seq<char>)
    ensures
        0 <= content_index(contents, content) <= contents.len(),
        content_index(contents, content) < contents.len() ==> contents[content_index(
            contents,
            content,
        )].0 == content,
        forall|i: int|
            0 <= i < content_index(contents, content) ==> (#[trigger] contents[i]).0 != content,
    decreases contents.len(),
{
    if contents.len() > 0 && contents[0].0 != content {
        let rest = contents.subrange(1, contents.len() as int);
        lemma_content_found(rest, content);
        let k = content_index(rest, content);
        if k < rest.len() {
            assert(contents[k + 1] == rest[k]);
        }
        assert forall|i: int| 0 <= i < k + 1 implies (#[trigger] contents[i]).0 != content by {
            if i > 0 {
                assert(contents[i] == rest[i - 1]);
            }
        }
    }
}

/// Registering a content changes the claim of that content alone.
proof fn lemma_registered(
    index: TrustView,
    claim: Seq<char>,
    content: Seq<char>,
    other: Seq<char>,
)
    ensures
        claim_of_content(index.registered(claim, content).contents, other) == (if content.len() > 0
            && other == content {
            Some(claim)
        } else {
            claim_of_content(index.contents, other)
        }),
{
    if content.len() > 0 {
        let before = index.contents;
        let after = index.registered(claim, content).contents;
        lemma_content_found(before, content);
        lemma_content_found(before, other);
        let k = content_index(before, other);
        if k < before.len() || other == content {
            lemma_content_index(after, other, k);
        } else {
            lemma_content_index(after, other, after.len() as int);
        }
    }
}

/// Contradictions leave all but the support alone.
proof fn lemma_contradicted(index: TrustView, claims: Seq<Seq<char>>)
    ensures
        index.contradicted(claims) == (TrustView {
            support: index.contradicted(claims).support,
            ..index
        }),
    decreases claims.len(),
{
    if claims.len() > 0 {
        lemma_contradicted(index, claims.drop_last());
    }
}

/// Contradictions change the support whatever else the index knows.
proof fn lemma_contradicted_support(a: TrustView, b: TrustView, claims: Seq<Seq<char>>)
    requires
        a.support == b.support,
    ensures
        a.contradicted(claims).support == b.contradicted(claims).support,
    decreases claims.len(),
{
    if claims.len() > 0 {
        lemma_contradicted_support(a, b, claims.drop_last());
    }
}

/// Indices that know the same know the same after an event.
proof fn lemma_event_keeps_agreement(a: TrustView, b: TrustView, event: EventView)
    requires
        a.agrees(b),
    ensures
        a.after_event(event).agrees(b.after_event(event)),
{
    match event {
        EventView::ClaimAdded { claim, source, content } => {
            assert forall|other: Seq<char>|
                #[trigger] claim_of_content(a.after_event(event).contents, other)
                    == claim_of_content(b.after_event(event).contents, other) by {
                lemma_registered(a, claim, content, other);
                lemma_registered(b, claim, content, other);
            }
        },
        EventView::Contradiction { claims } => {
            lemma_contradicted(a, claims);
            lemma_contradicted(b, claims);
            lemma_contradicted_support(a, b, claims);
        },
        _ => {},
    }
}

/// Indices that know the same and see the same entries know the same.
pub proof fn law_agreement_is_kept(a: TrustView, b: TrustView, entries: Seq<EntryView>)
    requires
        a.agrees(b),
    ensures
        a.caught_up(entries).agrees(b.caught_up(entries)),
    decreases entries.len(),
{
    if entries.len() > 0 {
        let first = entries.drop_last();
        law_agreement_is_kept(a, b, first);
        lemma_event_keeps_agreement(a.caught_up(first), b.caught_up(first), entries.last().event);
    }
}

impl ClaimTrustIndex {
    /// An index that knows nothing and is off.
    pub fn new() -> (index: ClaimTrustIndex)
        ensures
            index@ == no_trust(),
    {
        let index = ClaimTrustIndex {
            enabled: false,
            fact_to_claim: StringHashMap::new(),
            claim_support: StringHashMap::new(),
            contents: Vec::new(),
            last_processed_sequence: 0,
        };
        assert(index@ =~= no_trust());
        index
    }

    /// Switches the index on.
    pub fn enable(&mut self)
        ensures
            final(self)@ == (TrustView { enabled: true, ..old(self)@ }),
    {
        self.enabled = true;
    }

    /// Switches the index off; it forgets everything.
    pub fn disable(&mut self)
        ensures
            final(self)@ == no_trust(),
    {
        *self = ClaimTrustIndex::new();
    }

    /// Whether the index is on.
    pub fn is_enabled(&self) -> (r: bool)
        ensures
            r == self@.enabled,
    {
        self.enabled
    }

    /// Links a fact to a claim.
    pub fn link_fact(&mut self, fact: &str, claim: &str)
        ensures
            final(self)@ == old(self)@.linked(fact@, claim@),
    {
        let ghost before = self.fact_to_claim@;
        let value = claim.to_owned();
        self.fact_to_claim.insert(fact.to_owned(), value);
        assert(map_texts(before.insert(fact@, value)) =~= map_texts(before).insert(fact@, claim@));
    }

    /// Records the judgment of a claim.
    pub fn record_judgment(&mut self, claim: &str, state: SupportState)
        ensures
            final(self)@ == old(self)@.judged(claim@, state),
    {
        self.claim_support.insert(claim.to_owned(), state);
    }

    /// Registers the normalized content of a claim, so that facts with the same
    /// or a similar content can be linked to it.
    pub fn register_claim(&mut self, claim: &str, content: &str)
        ensures
            final(self)@ == old(self)@.registered(claim@, content@),
    {
        if content.is_empty() {
            return;
        }
        let ghost before = pair_texts(self.contents@);
        let mut i: usize = 0;
        while i < self.contents.len() && !same_text(&self.contents[i].0, content)
            invariant
                i <= self.contents.len(),
                *self == *old(self),
                before == pair_texts(self.contents@),
                forall|k: int| 0 <= k < i ==> (#[trigger] before[k]).0 != content@,
            decreases self.contents.len() - i,
        {
            i = i + 1;
        }
        proof {
            lemma_content_index(before, content@, i as int);
        }
        let found = i < self.contents.len();
        let pair = (content.to_owned(), claim.to_owned());
        if found {
            self.contents.set(i, pair);
        } else {
            self.contents.push(pair);
        }
        assert(pair_texts(self.contents@) =~= old(self)@.registered(
            claim@,
            content@,
        ).contents);
    }

    /// Folds one ledger entry into the index.
    pub fn apply_entry(&mut self, entry: &LedgerEntry)
        ensures
            final(self)@ == old(self)@.applied(entry@),
    {
        match &entry.event {
            LedgerEvent::ClaimAdded { claim_id, source_id, normalized_claim } => {
                if let Some(fact) = strip_prefix(source_id, "semantic-memory:fact:") {
                    self.link_fact(&fact, claim_id);
                }
                self.register_claim(claim_id, normalized_claim);
            },
            LedgerEvent::SupportJudgment { claim_id, support_state } => {
                self.record_judgment(claim_id, *support_state);
            },
            LedgerEvent::ContradictionCandidate { claim_refs } => {
                let ghost start = self@;
                let ghost all = texts(claim_refs@);
                let mut i: usize = 0;
                assert(all.subrange(0, 0) =~= Seq::empty());
                while i < claim_refs.len()
                    invariant
                        i <= claim_refs.len(),
                        all == texts(claim_refs@),
                        self@ == start.contradicted(all.subrange(0, i as int)),
                    decreases claim_refs.len() - i,
                {
                    assert(all.subrange(0, i as int + 1).drop_last() =~= all.subrange(0, i as int));
                    self.record_judgment(&claim_refs[i], SupportState::Contradicted);
                    i = i + 1;
                }
                assert(all.subrange(0, all.len() as int) =~= all);
            },
            LedgerEvent::ContradictionResolved => {},
            LedgerEvent::Other => {},
        }
        self.last_processed_sequence = entry.sequence;
    }

    /// Catches up with the ledger: folds in the entries not seen yet.
    pub fn rebuild_from_ledger_incremental(&mut self, entries: &Vec<LedgerEntry>)
        ensures
            final(self)@ == old(self)@.caught_up(entry_views(entries@)),
    {
        let ghost start = self@;
        let ghost all = entry_views(entries@);
        let mut i: usize = 0;
        assert(all.subrange(0, 0) =~= Seq::empty());
        while i < entries.len()
            invariant
                i <= entries.len(),
                all == entry_views(entries@),
                self@ == start.caught_up(all.subrange(0, i as int)),
            decreases entries.len() - i,
        {
            assert(all.subrange(0, i as int + 1).drop_last() =~= all.subrange(0, i as int));
            assert(all.subrange(0, i as int + 1).last() == entries@[i as int]@);
            if entries[i].sequence > self.last_processed_sequence {
                self.apply_entry(&entries[i]);
            }
            i = i + 1;
        }
        assert(all.subrange(0, all.len() as int) =~= all);
    }

    /// The trust label of a fact.
    pub fn trust_for_fact(&self, fact: &str) -> (s: String)
        ensures
            s@ == self@.trust(fact@),
    {
        if !self.enabled {
            return "trust_enrichment_disabled".to_owned();
        }
        match self.fact_to_claim.get(fact) {
            Some(claim) => match self.claim_support.get(claim) {
                Some(state) => support_state_label(*state).to_owned(),
                None => "persisted_unjudged".to_owned(),
            },
            None => "persisted_unjudged".to_owned(),
        }
    }

    /// The claim of a fact and what was judged of it, where the index is on and
    /// the fact is linked.
    pub fn claim_and_state_for_fact(&self, fact: &str) -> (r: Option<
        (String, Option<SupportState>),
    >)
        ensures
            (match r {
                Some((claim, state)) => {
                    &&& self@.enabled
                    &&& self@.fact_to_claim.contains_key(fact@)
                    &&& claim@ == self@.fact_to_claim[fact@]
                    &&& state == (if self@.support.contains_key(claim@) {
                        Some(self@.support[claim@])
                    } else {
                        None
                    })
                },
                None => !self@.enabled || !self@.fact_to_claim.contains_key(fact@),
            }),
    {
        if !self.enabled {
            return None;
        }
        match self.fact_to_claim.get(fact) {
            Some(claim) => {
                let state = match self.claim_support.get(claim) {
                    Some(state) => Some(*state),
                    None => None,
                };
                Some((claim.clone(), state))
            },
            None => None,
        }
    }
}

/// A checkpoint of the ledger, as far as trust goes.
pub struct SnapshotFacts {
    /// Normalized contents with their claims.
    pub content_links: Vec<(String, String)>,
    /// Facts with their claims.
    pub fact_links: Vec<(String, String)>,
    pub support: Vec<(String, SupportState)>,
    pub last_sequence: u64,
    pub last_digest: Option<String>,
}

/// What a checkpoint says.
#[verifier::ext_equal]
pub struct CheckpointView {
    pub contents: Seq<(Seq<char>, Seq<char>)>,
    pub facts: Seq<(Seq<char>, Seq<char>)>,
    pub support: Seq<(Seq<char>, SupportState)>,
    pub last_sequence: u64,
    pub last_digest: Option<Seq<char>>,
}

/// The judged claims of a checkpoint.
pub open spec fn judged_claims(support: Seq<(String, SupportState)>) -> Seq<
    (Seq<char>, SupportState),
> {
    Seq::new(support.len(), |i: int| (support[i].0@, support[i].1))
}

impl View for SnapshotFacts {
    type V = CheckpointView;

    open spec fn view(&self) -> CheckpointView {
        CheckpointView {
            contents: pair_texts(self.content_links@),
            facts: pair_texts(self.fact_links@),
            support: judged_claims(self.support@),
            last_sequence: self.last_sequence,
            last_digest: optional_text(self.last_digest),
        }
    }
}

/// The index with the given contents registered in turn.
pub open spec fn all_registered(index: TrustView, links: Seq<(Seq<char>, Seq<char>)>) -> TrustView
    decreases links.len(),
{
    if links.len() == 0 {
        index
    } else {
        all_registered(index, links.drop_last()).registered(links.last().1, links.last().0)
    }
}

/// The index with the given facts linked in turn.
pub open spec fn all_linked(index: TrustView, links: Seq<(Seq<char>, Seq<char>)>) -> TrustView
    decreases links.len(),
{
    if links.len() == 0 {
        index
    } else {
        all_linked(index, links.drop_last()).linked(links.last().0, links.last().1)
    }
}

/// The index with the given judgments recorded in turn.
pub open spec fn all_judged(
    index: TrustView,
    support: Seq<(Seq<char>, SupportState)>,
) -> TrustView
    decreases support.len(),
{
    if support.len() == 0 {
        index
    } else {
        all_judged(index, support.drop_last()).judged(support.last().0, support.last().1)
    }
}

/// The index that a checkpoint gives.
pub open spec fn from_checkpoint(checkpoint: CheckpointView) -> TrustView {
    let links = all_linked(
        all_registered(no_trust(), checkpoint.contents),
        checkpoint.facts,
    );
    TrustView {
        enabled: true,
        last_sequence: checkpoint.last_sequence,
        ..all_judged(links, checkpoint.support)
    }
}

impl ClaimTrustIndex {
    /// Replaces what the index knows by what a checkpoint says, and switches
    /// the index on.
    pub fn load_snapshot(&mut self, snapshot: &SnapshotFacts)
        ensures
            final(self)@ == from_checkpoint(snapshot@),
    {
        *self = ClaimTrustIndex::new();
        let ghost contents = pair_texts(snapshot.content_links@);
        let mut i: usize = 0;
        assert(contents.subrange(0, 0) =~= Seq::empty());
        while i < snapshot.content_links.len()
            invariant
                i <= snapshot.content_links.len(),
                contents == pair_texts(snapshot.content_links@),
                self@ == all_registered(no_trust(), contents.subrange(0, i as int)),
            decreases snapshot.content_links.len() - i,
        {
            assert(contents.subrange(0, i as int + 1).drop_last() =~= contents.subrange(0, i as int));
            let link = &snapshot.content_links[i];
            self.register_claim(&link.1, &link.0);
            i = i + 1;
        }
        assert(contents.subrange(0, contents.len() as int) =~= contents);
        let ghost base = self@;
        let ghost facts = pair_texts(snapshot.fact_links@);
        let mut j: usize = 0;
        assert(facts.subrange(0, 0) =~= Seq::empty());
        while j < snapshot.fact_links.len()
            invariant
                j <= snapshot.fact_links.len(),
                facts == pair_texts(snapshot.fact_links@),
                self@ == all_linked(base, facts.subrange(0, j as int)),
            decreases snapshot.fact_links.len() - j,
        {
            assert(facts.subrange(0, j as int + 1).drop_last() =~= facts.subrange(0, j as int));
            let link = &snapshot.fact_links[j];
            self.link_fact(&link.0, &link.1);
            j = j + 1;
        }
        assert(facts.subrange(0, facts.len() as int) =~= facts);
        let ghost linked = self@;
        let ghost support = judged_claims(snapshot.support@);
        let mut k: usize = 0;
        assert(support.subrange(0, 0) =~= Seq::empty());
        while k < snapshot.support.len()
            invariant
                k <= snapshot.support.len(),
                support == judged_claims(snapshot.support@),
                self@ == all_judged(linked, support.subrange(0, k as int)),
            decreases snapshot.support.len() - k,
        {
            assert(support.subrange(0, k as int + 1).drop_last() =~= support.subrange(0, k as int));
            self.record_judgment(&snapshot.support[k].0, snapshot.support[k].1);
            k = k + 1;
        }
        assert(support.subrange(0, support.len() as int) =~= support);
        self.last_processed_sequence = snapshot.last_sequence;
        self.enabled = true;
    }
}

/// `s` with every run of white space cut to its first character.
pub open spec fn collapsed(s: Seq<char>) -> Seq<char>
    decreases s.len(),
{
    if s.len() == 0 {
        s
    } else if s.len() > 1 && white_space(s.last()) && white_space(s[s.len() - 2]) {
        collapsed(s.drop_last())
    } else {
        collapsed(s.drop_last()).push(s.last())
    }
}

/// The normalized form of a content: trimmed, with runs of white space cut to
/// one character.
pub open spec fn normalized(content: Seq<char>) -> Seq<char> {
    collapsed(trimmed(content))
}

/// `claim_ledger::ids::normalize_text`: the text without leading and trailing
/// white space, each inner run of white space cut to its first character.
#[verifier::external_body]
pub(crate) fn normalize_text(text: &str) -> (r: String)
    ensures
        r@ == normalized(text@),
{
    claim_ledger::ids::normalize_text(text)
}

/// The claim whose content is most similar to the given trigrams, among the
/// contents that share any; of equally similar ones the first.
pub open spec fn best_match(
    contents: Seq<(Seq<char>, Seq<char>)>,
    query: Set<Seq<char>>,
) -> Option<(Seq<char>, Similarity)>
    decreases contents.len(),
{
    if contents.len() == 0 {
        None
    } else {
        let before = best_match(contents.drop_last(), query);
        let found = similarity(query, trigram_set(contents.last().0));
        if found.shared > 0 && (before is None || found.exceeds((before->0).1)) {
            Some((contents.last().1, found))
        } else {
            before
        }
    }
}

impl TrustView {
    /// The claim that a normalized content is linked to: the most similar one
    /// if it is similar enough, else the one with exactly this content.
    pub open spec fn matching_claim(self, content: Seq<char>) -> Option<Seq<char>> {
        match best_match(self.contents, trigram_set(content)) {
            Some((claim, found)) => if found.suffices() {
                Some(claim)
            } else {
                claim_of_content(self.contents, content)
            },
            None => claim_of_content(self.contents, content),
        }
    }

    /// The claim that a fact is linked to because of its content: none where
    /// the index is off, the fact has a claim, or the content is blank.
    pub open spec fn auto_link(self, fact: Seq<char>, content: Seq<char>) -> Option<Seq<char>> {
        if !self.enabled || self.fact_to_claim.contains_key(fact) || normalized(content).len()
            == 0 {
            None
        } else {
            self.matching_claim(normalized(content))
        }
    }

    /// The index after a fact was linked because of its content, where there
    /// is a claim to link it to.
    pub open spec fn auto_linked(self, fact: Seq<char>, content: Seq<char>) -> TrustView {
        match self.auto_link(fact, content) {
            Some(claim) => self.linked(fact, claim),
            None => self,
        }
    }
}

impl ClaimTrustIndex {
    /// The offset of the content that is most similar to the given trigrams,
    /// with the trigrams that it shares and that there are together.
    fn find_similar(&self, query: &Trigrams) -> (best: Option<(usize, usize, u128)>)
        requires
            query.well_formed(),
        ensures
            (match best {
                Some((k, shared, total)) => k < self@.contents.len() && best_match(
                    self@.contents,
                    query@,
                ) == Some(
                    (
                        self@.contents[k as int].1,
                        Similarity { shared: shared as nat, total: total as nat },
                    ),
                ),
                None => best_match(self@.contents, query@) is None,
            }),
    {
        let ghost all = self@.contents;
        let mut best: Option<(usize, usize, u128)> = None;
        let mut i: usize = 0;
        assert(all.subrange(0, 0) =~= Seq::empty());
        while i < self.contents.len()
            invariant
                i <= self.contents.len(),
                all == self@.contents,
                all == pair_texts(self.contents@),
                query.well_formed(),
                (match best {
                    Some((k, shared, total)) => k < i && best_match(
                        all.subrange(0, i as int),
                        query@,
                    ) == Some(
                        (
                            all[k as int].1,
                            Similarity { shared: shared as nat, total: total as nat },
                        ),
                    ),
                    None => best_match(all.subrange(0, i as int), query@) is None,
                }),
            decreases self.contents.len() - i,
        {
            let ghost next = all.subrange(0, i as int + 1);
            proof {
                assert(next.drop_last() =~= all.subrange(0, i as int));
                assert(next.last() == all[i as int]);
            }
            let other = Trigrams::of(&self.contents[i].0);
            let (shared, total) = query.overlap(&other);
            assert(similarity(query@, trigram_set(all[i as int].0)) == Similarity {
                shared: shared as nat,
                total: total as nat,
            });
            if shared > 0 {
                match best {
                    Some((_, best_shared, best_total)) => {
                        if larger_fraction(shared, total, best_shared, best_total) {
                            best = Some((i, shared, total));
                        }
                    },
                    None => {
                        best = Some((i, shared, total));
                    },
                }
            }
            i = i + 1;
        }
        assert(all.subrange(0, all.len() as int) =~= all);
        best
    }

    /// The offset of exactly this content.
    fn find_content(&self, content: &str) -> (r: Option<usize>)
        ensures
            (match r {
                Some(k) => k < self@.contents.len() && content_index(self@.contents, content@) == k,
                None => content_index(self@.contents, content@) >= self@.contents.len(),
            }),
    {
        let ghost all = self@.contents;
        let mut i: usize = 0;
        while i < self.contents.len()
            invariant
                i <= self.contents.len(),
                all == self@.contents,
                all == pair_texts(self.contents@),
                forall|k: int| 0 <= k < i ==> (#[trigger] all[k]).0 != content@,
            decreases self.contents.len() - i,
        {
            if same_text(&self.contents[i].0, content) {
                proof {
                    lemma_content_index(all, content@, i as int);
                }
                return Some(i);
            }
            i = i + 1;
        }
        proof {
            lemma_content_index(all, content@, all.len() as int);
        }
        None
    }

    /// The claim that a normalized content is linked to.
    fn find_claim(&self, content: &str) -> (r: Option<String>)
        ensures
            optional_text(r) == self@.matching_claim(content@),
    {
        let query = Trigrams::of(content);
        if let Some((k, shared, total)) = self.find_similar(&query) {
            if seven_tenths(shared, total) {
                return Some(self.contents[k].1.clone());
            }
        }
        match self.find_content(content) {
            Some(k) => Some(self.contents[k].1.clone()),
            None => None,
        }
    }

    /// Links a fact to the claim whose content it repeats, or nearly repeats,
    /// where it has no claim yet.
    pub fn auto_link_content(&mut self, fact: &str, content: &str) -> (r: Option<String>)
        ensures
            optional_text(r) == old(self)@.auto_link(fact@, content@),
            final(self)@ == old(self)@.auto_linked(fact@, content@),
    {
        if !self.enabled {
            return None;
        }
        if self.fact_to_claim.contains_key(fact) {
            return None;
        }
        let text = normalize_text(content);
        if text.as_str().is_empty() {
            return None;
        }
        match self.find_claim(&text) {
            Some(claim) => {
                self.link_fact(fact, &claim);
                Some(claim)
            },
            None => None,
        }
    }
}

/// A memory identifier without the prefix that marks facts.
pub open spec fn bare_id(id: Seq<char>) -> Seq<char> {
    if starts_with(id, "fact:"@) {
        after(id, "fact:"@.len() as int)
    } else {
        id
    }
}

/// A memory identifier without the prefix that marks facts.
pub fn bare_fact_id(id: &str) -> (s: String)
    ensures
        s@ == bare_id(id@),
{
    match strip_prefix(id, "fact:") {
        Some(rest) => rest,
        None => id.to_owned(),
    }
}

/// The index after it has seen a result: a fact with a content is linked to a
/// matching claim.
pub open spec fn seen(index: TrustView, result: JsonView) -> TrustView {
    match (result.text_member("memory_id"@), result.text_member("content"@)) {
        (Some(id), Some(content)) => index.auto_linked(bare_id(id), content),
        _ => index,
    }
}

/// A result with its trust label, where it is an identified memory.
pub open spec fn labelled(index: TrustView, result: JsonView) -> JsonView {
    match result.text_member("memory_id"@) {
        Some(id) => result.with_member(
            "trust"@,
            JsonView::Text(seen(index, result).trust(bare_id(id))),
        ),
        None => result,
    }
}

/// The index after it has seen results in turn.
pub open spec fn all_seen(index: TrustView, results: Seq<JsonView>) -> TrustView
    decreases results.len(),
{
    if results.len() == 0 {
        index
    } else {
        seen(all_seen(index, results.drop_last()), results.last())
    }
}

/// The results with their trust labels.
pub open spec fn all_labelled(index: TrustView, results: Seq<JsonView>) -> Seq<JsonView> {
    Seq::new(
        results.len(),
        |i: int| labelled(all_seen(index, results.subrange(0, i)), results[i]),
    )
}

impl ClaimTrustIndex {
    /// Gives every result that is an identified memory its trust label, linking
    /// facts to matching claims on the way.
    pub fn enrich_results_with_trust(&mut self, results: Vec<Json>) -> (r: Vec<Json>)
        ensures
            json_views(r@) == all_labelled(old(self)@, json_views(results@)),
            final(self)@ == all_seen(old(self)@, json_views(results@)),
    {
        let ghost start = self@;
        let ghost all = json_views(results@);
        let mut r: Vec<Json> = Vec::new();
        let mut i: usize = 0;
        assert(all.subrange(0, 0) =~= Seq::empty());
        while i < results.len()
            invariant
                i <= results.len(),
                all == json_views(results@),
                r.len() == i,
                self@ == all_seen(start, all.subrange(0, i as int)),
                forall|k: int| 0 <= k < i ==> (#[trigger] r@[k])@ == all_labelled(start, all)[k],
            decreases results.len() - i,
        {
            let result = &results[i];
            assert(all.subrange(0, i as int + 1).drop_last() =~= all.subrange(0, i as int));
            assert(all.subrange(0, i as int + 1).last() == result@);
            match result.get_text("memory_id") {
                Some(id) => {
                    let fact = bare_fact_id(id);
                    if let Some(content) = result.get_text("content") {
                        let _ = self.auto_link_content(&fact, content);
                    }
                    let label = self.trust_for_fact(&fact);
                    r.push(result.copy().set("trust", Json::Text(label)));
                },
                None => {
                    r.push(result.copy());
                },
            }
            i = i + 1;
        }
        assert(all.subrange(0, all.len() as int) =~= all);
        assert(json_views(r@) =~= all_labelled(start, all));
        r
    }
}

/// Once caught up, the index is past every entry.
proof fn lemma_caught_up_is_past(index: TrustView, entries: Seq<EntryView>, i: int)
    requires
        0 <= i < entries.len(),
    ensures
        index.caught_up(entries).last_sequence >= entries[i].sequence,
    decreases entries.len(),
{
    let fewer = entries.drop_last();
    if i < fewer.len() {
        lemma_caught_up_is_past(index, fewer, i);
    }
}

/// Entries that the index is past change nothing.
proof fn lemma_past_entries_change_nothing(index: TrustView, entries: Seq<EntryView>)
    requires
        forall|i: int|
            0 <= i < entries.len() ==> index.last_sequence >= (#[trigger] entries[i]).sequence,
    ensures
        index.caught_up(entries) == index,
    decreases entries.len(),
{
    if entries.len() > 0 {
        let fewer = entries.drop_last();
        assert forall|i: int| 0 <= i < fewer.len() implies index.last_sequence >= (
        #[trigger] fewer[i]).sequence by {
            assert(entries[i] == fewer[i]);
        }
        lemma_past_entries_change_nothing(index, fewer);
        assert(index.last_sequence >= entries[entries.len() - 1].sequence);
    }
}

/// Catching up with the same entries a second time changes nothing.
pub proof fn law_catching_up_is_idempotent(index: TrustView, entries: Seq<EntryView>)
    ensures
        index.caught_up(entries).caught_up(entries) == index.caught_up(entries),
{
    let done = index.caught_up(entries);
    assert forall|i: int| 0 <= i < entries.len() implies done.last_sequence >= (
    #[trigger] entries[i]).sequence by {
        lemma_caught_up_is_past(index, entries, i);
    }
    lemma_past_entries_change_nothing(done, entries);
}

/// Catching up in two parts comes to the same as catching up at once.
pub proof fn law_catching_up_in_parts(
    index: TrustView,
    first: Seq<EntryView>,
    second: Seq<EntryView>,
)
    ensures
        index.caught_up(first).caught_up(second) == index.caught_up(first + second),
    decreases second.len(),
{
    if second.len() == 0 {
        assert(first + second =~= first);
    } else {
        law_catching_up_in_parts(index, first, second.drop_last());
        assert((first + second).drop_last() =~= first + second.drop_last());
        assert((first + second).last() == second.last());
    }
}

/// A checkpoint that says what the first entries say, followed by the rest of
/// them, says what they all say.
pub proof fn law_snapshot_and_tail_replay_the_ledger(
    checkpoint: CheckpointView,
    prefix: Seq<EntryView>,
    tail: Seq<EntryView>,
)
    requires
        from_checkpoint(checkpoint).agrees(
            (TrustView { enabled: true, ..no_trust() }).caught_up(prefix),
        ),
    ensures
        from_checkpoint(checkpoint).caught_up(tail).agrees(
            (TrustView { enabled: true, ..no_trust() }).caught_up(prefix + tail),
        ),
{
    let start = TrustView { enabled: true, ..no_trust() };
    law_catching_up_in_parts(start, prefix, tail);
    law_agreement_is_kept(from_checkpoint(checkpoint), start.caught_up(prefix), tail);
}

/// An index that is off labels no fact and links none.
pub proof fn law_disabled_index_says_so(
    index: TrustView,
    fact: Seq<char>,
    content: Seq<char>,
)
    requires
        !index.enabled,
    ensures
        index.trust(fact) == "trust_enrichment_disabled"@,
        index.auto_linked(fact, content) == index,
{
}

/// Linking by content never moves a fact that has a claim, nor any other fact.
pub proof fn law_auto_linking_keeps_links(
    index: TrustView,
    fact: Seq<char>,
    content: Seq<char>,
    other: Seq<char>,
)
    requires
        index.fact_to_claim.contains_key(other),
    ensures
        index.auto_linked(fact, content).fact_to_claim.contains_key(other),
        index.auto_linked(fact, content).fact_to_claim[other] == index.fact_to_claim[other],
{
}

/// A fact that repeats the content of a claim is always linked to some claim.
pub proof fn law_repeated_content_is_linked(
    index: TrustView,
    fact: Seq<char>,
    content: Seq<char>,
)
    requires
        index.enabled,
        !index.fact_to_claim.contains_key(fact),
        normalized(content).len() > 0,
        claim_of_content(index.contents, normalized(content)) is Some,
    ensures
        index.auto_link(fact, content) is Some,
        index.auto_linked(fact, content).fact_to_claim.contains_key(fact),
{
}

/// What reaches the share of a best match is at most what a better one reaches.
proof fn lemma_smaller_share(s: nat, t: nat, bs: nat, bt: nat, fs: nat, ft: nat)
    requires
        s * bt <= bs * t,
        bs * ft <= fs * bt,
        bt > 0,
    ensures
        s * ft <= fs * t,
{
    assert(bt * (s * ft) <= bt * (fs * t)) by (nonlinear_arith)
        requires
            s * bt <= bs * t,
            bs * ft <= fs * bt,
    {
        assert((s * bt) * ft <= (bs * t) * ft);
        assert((bs * ft) * t <= (fs * bt) * t);
        assert((bs * t) * ft == (bs * ft) * t);
    }
    assert(s * ft <= fs * t) by (nonlinear_arith)
        requires
            bt * (s * ft) <= bt * (fs * t),
            bt > 0,
    ;
}

/// The best match is one of the contents, it shares a trigram, and no content
/// is more similar; there is none only where no content shares a trigram.
proof fn lemma_best_match(contents: Seq<(Seq<char>, Seq<char>)>, query: Set<Seq<char>>)
    requires
        query.finite(),
    ensures
        (match best_match(contents, query) {
            Some((claim, found)) => found.shared > 0 && (exists|m: int|
                0 <= m < contents.len() && claim == (#[trigger] contents[m]).1 && found
                    == similarity(query, trigram_set(contents[m].0))) && (forall|j: int|
                0 <= j < contents.len() ==> ({
                    let other = similarity(query, trigram_set((#[trigger] contents[j]).0));
                    other.shared * found.total <= found.shared * other.total
                })),
            None => forall|j: int|
                0 <= j < contents.len() ==> similarity(
                    query,
                    trigram_set((#[trigger] contents[j]).0),
                ).shared == 0,
        }),
    decreases contents.len(),
{
    if contents.len() > 0 {
        let fewer = contents.drop_last();
        let last = contents.len() - 1;
        lemma_best_match(fewer, query);
        let found = similarity(query, trigram_set(contents.last().0));
        law_trigrams_are_finite(unicode_lowered(contents.last().0));
        law_similarity_is_at_most_one(query, trigram_set(contents.last().0));
        match best_match(fewer, query) {
            Some((claim, before)) => {
                let m = choose|m: int|
                    0 <= m < fewer.len() && claim == (#[trigger] fewer[m]).1 && before
                        == similarity(query, trigram_set(fewer[m].0));
                assert(contents[m] == fewer[m]);
                law_trigrams_are_finite(unicode_lowered(fewer[m].0));
                law_similarity_is_at_most_one(query, trigram_set(fewer[m].0));
                assert forall|j: int| 0 <= j < contents.len() implies ({
                    let other = similarity(query, trigram_set((#[trigger] contents[j]).0));
                    let best = (best_match(contents, query)->0).1;
                    other.shared * best.total <= best.shared * other.total
                }) by {
                    let other = similarity(query, trigram_set(contents[j].0));
                    if j < last {
                        assert(contents[j] == fewer[j]);
                        if found.shared > 0 && found.exceeds(before) {
                            lemma_smaller_share(
                                other.shared,
                                other.total,
                                before.shared,
                                before.total,
                                found.shared,
                                found.total,
                            );
                        }
                    } else {
                        assert(0 * before.total == 0);
                    }
                }
                assert(contents[last] == contents.last());
            },
            None => {
                assert forall|j: int| 0 <= j < contents.len() && found.shared > 0 implies ({
                    let other = similarity(query, trigram_set((#[trigger] contents[j]).0));
                    other.shared * found.total <= found.shared * other.total
                }) by {
                    if j < last {
                        assert(contents[j] == fewer[j]);
                        assert(0 * found.total == 0);
                    }
                }
                assert forall|j: int| 0 <= j < last implies similarity(
                    query,
                    trigram_set((#[trigger] contents[j]).0),
                ).shared == 0 by {
                    assert(contents[j] == fewer[j]);
                }
                assert(contents[last] == contents.last());
            },
        }
    }
}

/// A fact whose content is similar enough to a registered one is linked to the
/// claim of the most similar content. Here content `i` shares a trigram with the
/// fact's content, and seven tenths of those of both. The fact is then linked to
/// the claim of a content that shares as large a part, and no registered content
/// shares a larger one; the fact's trust is what was judged of that claim.
pub proof fn law_facts_are_linked_to_the_most_similar_claim(
    index: TrustView,
    fact: Seq<char>,
    content: Seq<char>,
    i: int,
)
    requires
        index.enabled,
        !index.fact_to_claim.contains_key(fact),
        normalized(content).len() > 0,
        0 <= i < index.contents.len(),
        ({
            let mine = trigram_set(normalized(content));
            let theirs = trigram_set(index.contents[i].0);
            mine.intersect(theirs).len() > 0 && 10 * mine.intersect(theirs).len() >= 7
                * mine.union(theirs).len()
        }),
    ensures
        exists|m: int|
            0 <= m < index.contents.len() && ({
                let mine = trigram_set(normalized(content));
                let (matched, claim) = #[trigger] index.contents[m];
                let best = trigram_set(matched);
                let after = index.auto_linked(fact, content);
                &&& index.auto_link(fact, content) == Some(claim)
                &&& after.fact_to_claim == index.fact_to_claim.insert(fact, claim)
                &&& after.trust(fact) == (if index.support.contains_key(claim) {
                    index.support[claim].label_text()
                } else {
                    "persisted_unjudged"@
                })
                &&& 10 * mine.intersect(best).len() >= 7 * mine.union(best).len()
                &&& forall|j: int|
                    0 <= j < index.contents.len() ==> ({
                        let other = trigram_set((#[trigger] index.contents[j]).0);
                        mine.intersect(other).len() * mine.union(best).len() <= mine.intersect(
                            best,
                        ).len() * mine.union(other).len()
                    })
            }),
{
    let mine = trigram_set(normalized(content));
    let theirs = trigram_set(index.contents[i].0);
    law_trigrams_are_finite(unicode_lowered(normalized(content)));
    law_trigrams_are_finite(unicode_lowered(index.contents[i].0));
    lemma_best_match(index.contents, mine);
    law_similarity_is_at_most_one(mine, theirs);
    let (claim, found) = best_match(index.contents, mine)->0;
    assert(similarity(mine, theirs).shared > 0);
    let m = choose|m: int|
        0 <= m < index.contents.len() && claim == (#[trigger] index.contents[m]).1 && found
            == similarity(mine, trigram_set(index.contents[m].0));
    let (s, t) = (mine.intersect(theirs).len(), mine.union(theirs).len());
    assert(s * found.total <= found.shared * t);
    assert(10 * found.shared >= 7 * found.total) by (nonlinear_arith)
        requires
            s * found.total <= found.shared * t,
            10 * s >= 7 * t,
            t > 0,
    {
        assert((10 * s) * found.total <= (10 * found.shared) * t);
        assert((7 * t) * found.total <= (10 * s) * found.total);
        assert((7 * found.total) * t <= (10 * found.shared) * t);
    }
    assert(index.matching_claim(normalized(content)) == Some(claim));
    assert(index.contents[m].1 == claim);
}

/// A fact is linked only to a claim whose content is similar enough or is the
/// very content of the fact. Where no registered content is either, nothing is
/// linked.
pub proof fn law_dissimilar_facts_are_not_linked(
    index: TrustView,
    fact: Seq<char>,
    content: Seq<char>,
)
    ensures
        (match index.auto_link(fact, content) {
            Some(claim) => {
                let mine = trigram_set(normalized(content));
                &&& index.enabled
                &&& !index.fact_to_claim.contains_key(fact)
                &&& exists|m: int|
                    0 <= m < index.contents.len() && (#[trigger] index.contents[m]).1 == claim && ({
                        let best = trigram_set(index.contents[m].0);
                        ||| index.contents[m].0 == normalized(content)
                        ||| 10 * mine.intersect(best).len() >= 7 * mine.union(best).len()
                            && mine.intersect(best).len() > 0
                    })
            },
            None => index.auto_linked(fact, content) == index,
        }),
{
    if let Some(claim) = index.auto_link(fact, content) {
        let text = normalized(content);
        let mine = trigram_set(text);
        law_trigrams_are_finite(unicode_lowered(text));
        lemma_best_match(index.contents, mine);
        let similar = best_match(index.contents, mine);
        if similar is Some && (similar->0).1.suffices() {
            let m = choose|m: int|
                0 <= m < index.contents.len() && claim == (#[trigger] index.contents[m]).1
                    && (similar->0).1 == similarity(mine, trigram_set(index.contents[m].0));
            assert(index.contents[m].1 == claim);
        } else {
            lemma_content_index_first(index.contents, text);
            let m = content_index(index.contents, text);
            assert(index.contents[m].1 == claim);
        }
    }
}

/// Every claim named in a contradiction is judged contradicted.
pub proof fn law_contradictions_are_recorded(
    index: TrustView,
    claims: Seq<Seq<char>>,
    i: int,
)
    requires
        0 <= i < claims.len(),
    ensures
        index.contradicted(claims).support.contains_key(claims[i]),
        index.contradicted(claims).support[claims[i]] == SupportState::Contradicted,
    decreases claims.len(),
{
    if i < claims.len() - 1 {
        law_contradictions_are_recorded(index, claims.drop_last(), i);
    }
}

/// A fact is trusted with what was judged of its claim: once a claim made from a
/// fact was added and judged, the fact has the label of the judgment, whatever
/// was known before. A later judgment replaces an earlier one.
pub proof fn law_judged_claims_label_their_facts(
    index: TrustView,
    fact: Seq<char>,
    claim: Seq<char>,
    content: Seq<char>,
    earlier: SupportState,
    state: SupportState,
)
    requires
        index.enabled,
    ensures
        ({
            let source = "semantic-memory:fact:"@ + fact;
            let added = index.after_event(EventView::ClaimAdded { claim, source, content });
            let first = added.after_event(EventView::Judgment { claim, state: earlier });
            let judged = first.after_event(EventView::Judgment { claim, state });
            &&& added.fact_to_claim.contains_key(fact) && added.fact_to_claim[fact] == claim
            &&& first.trust(fact) == earlier.label_text()
            &&& judged.trust(fact) == state.label_text()
            &&& judged.after_event(
                EventView::Contradiction { claims: seq![claim] },
            ).trust(fact) == SupportState::Contradicted.label_text()
            &&& judged.after_event(EventView::Resolution).trust(fact) == state.label_text()
        }),
{
    let prefix = "semantic-memory:fact:"@;
    let source = prefix + fact;
    assert(source.subrange(0, prefix.len() as int) =~= prefix);
    assert(after(source, prefix.len() as int) =~= fact);
    let one = seq![claim];
    assert(one.drop_last() =~= Seq::empty());
    assert(one.last() == claim);
    reveal_with_fuel(TrustView::contradicted, 2);
}

/// Judging a claim changes the label of no fact that is linked to another.
pub proof fn law_judgments_touch_no_other_claim(
    index: TrustView,
    claim: Seq<char>,
    state: SupportState,
    fact: Seq<char>,
)
    requires
        !(index.fact_to_claim.contains_key(fact) && index.fact_to_claim[fact] == claim),
    ensures
        index.judged(claim, state).trust(fact) == index.trust(fact),
{
}

/// A claim whose content was registered is found by that content, and every
/// other content keeps its claim. Registering a content again moves it to the
/// new claim.
pub proof fn law_registered_contents_are_found(
    index: TrustView,
    claim: Seq<char>,
    content: Seq<char>,
    other: Seq<char>,
)
    requires
        content.len() > 0,
    ensures
        claim_of_content(index.registered(claim, content).contents, content) == Some(claim),
        other != content ==> claim_of_content(index.registered(claim, content).contents, other)
            == claim_of_content(index.contents, other),
{
    let before = index.contents;
    let after = index.registered(claim, content).contents;
    let i = content_index(before, content);
    lemma_content_index_first(before, content);
    lemma_content_index_first(before, other);
    assert forall|k: int| 0 <= k < i implies (#[trigger] after[k]).0 != content by {
        assert(after[k] == before[k]);
    }
    lemma_content_index(after, content, i);
    if other != content {
        let o = content_index(before, other);
        assert forall|k: int| 0 <= k < o implies (#[trigger] after[k]).0 != other by {
            if k != i {
                assert(after[k] == before[k]);
            }
        }
        if o < before.len() {
            lemma_content_index(after, other, o);
        } else {
            assert forall|k: int| 0 <= k < after.len() implies (#[trigger] after[k]).0 != other by {
                if k != i {
                    assert(after[k] == before[k]);
                }
            }
            lemma_content_index(after, other, after.len() as int);
        }
    }
}

/// The offset of a content is the first at which it stands, or the number of
/// contents.
proof fn lemma_content_index_first(contents: Seq<(Seq<char>, Seq<char>)>, content: Seq<char>)
    ensures
        0 <= content_index(contents, content) <= contents.len(),
        content_index(contents, content) < contents.len() ==> contents[content_index(
            contents,
            content,
        )].0 == content,
        forall|k: int|
            0 <= k < content_index(contents, content) ==> (#[trigger] contents[k]).0 != content,
    decreases contents.len(),
{
    if contents.len() > 0 && contents[0].0 != content {
        let rest = contents.subrange(1, contents.len() as int);
        lemma_content_index_first(rest, content);
        assert forall|k: int| 0 <= k < content_index(contents, content) implies (
        #[trigger] contents[k]).0 != content by {
            if k > 0 {
                assert(rest[k - 1] == contents[k]);
            }
        }
    }
}

/// Enriching keeps every result in its place. One that is an identified memory
/// is given the trust of its fact as the index knows it by then, and keeps all
/// else; any other result stays as it was.
pub proof fn law_enriched_results_tell_their_trust(
    index: TrustView,
    results: Seq<JsonView>,
    i: int,
    key: Seq<char>,
)
    requires
        0 <= i < results.len(),
        results[i] is Object,
    ensures
        all_labelled(index, results).len() == results.len(),
        ({
            let enriched = all_labelled(index, results)[i];
            let known = all_seen(index, results.subrange(0, i + 1));
            match results[i].text_member("memory_id"@) {
                Some(id) => {
                    &&& enriched.text_member("trust"@) == Some(known.trust(bare_id(id)))
                    &&& key != "trust"@ ==> enriched.member(key) == results[i].member(key)
                },
                None => enriched == results[i],
            }
        }),
{
    let before = results.subrange(0, i);
    let upto = results.subrange(0, i + 1);
    assert(upto.drop_last() =~= before);
    assert(upto.last() == results[i]);
    let known = seen(all_seen(index, before), results[i]);
    if let Some(id) = results[i].text_member("memory_id"@) {
        crate::json::law_set_members_are_read_back(
            results[i],
            "trust"@,
            JsonView::Text(known.trust(bare_id(id))),
            key,
        );
    }
}

/// An index that is loaded from a checkpoint is on, stands where the checkpoint
/// ends, and holds its links and its judgments: of a fact or a claim that is
/// listed once, just what is listed.
pub proof fn law_snapshots_are_loaded_in_full(checkpoint: CheckpointView, i: int)
    ensures
        from_checkpoint(checkpoint).enabled,
        from_checkpoint(checkpoint).last_sequence == checkpoint.last_sequence,
        0 <= i < checkpoint.facts.len() && (forall|j: int|
            i < j < checkpoint.facts.len() ==> (#[trigger] checkpoint.facts[j]).0
                != checkpoint.facts[i].0) ==> from_checkpoint(
            checkpoint,
        ).fact_to_claim.contains_key(checkpoint.facts[i].0) && from_checkpoint(
            checkpoint,
        ).fact_to_claim[checkpoint.facts[i].0] == checkpoint.facts[i].1,
        0 <= i < checkpoint.support.len() && (forall|j: int|
            i < j < checkpoint.support.len() ==> (#[trigger] checkpoint.support[j]).0
                != checkpoint.support[i].0) ==> from_checkpoint(checkpoint).support.contains_key(
            checkpoint.support[i].0,
        ) && from_checkpoint(checkpoint).support[checkpoint.support[i].0]
            == checkpoint.support[i].1,
{
    let contents = all_registered(no_trust(), checkpoint.contents);
    let links = all_linked(contents, checkpoint.facts);
    lemma_judging_keeps_links(links, checkpoint.support);
    if 0 <= i < checkpoint.facts.len() {
        lemma_all_linked(contents, checkpoint.facts, i);
    }
    if 0 <= i < checkpoint.support.len() {
        lemma_all_judged(links, checkpoint.support, i);
    }
}

/// Judgments change no link.
proof fn lemma_judging_keeps_links(index: TrustView, support: Seq<(Seq<char>, SupportState)>)
    ensures
        all_judged(index, support).fact_to_claim == index.fact_to_claim,
    decreases support.len(),
{
    if support.len() > 0 {
        lemma_judging_keeps_links(index, support.drop_last());
    }
}

/// A fact is linked as its last link says.
proof fn lemma_all_linked(index: TrustView, links: Seq<(Seq<char>, Seq<char>)>, i: int)
    requires
        0 <= i < links.len(),
    ensures
        (forall|j: int| i < j < links.len() ==> (#[trigger] links[j]).0 != links[i].0)
            ==> all_linked(index, links).fact_to_claim.contains_key(links[i].0) && all_linked(
            index,
            links,
        ).fact_to_claim[links[i].0] == links[i].1,
    decreases links.len(),
{
    if i < links.len() - 1 {
        let fewer = links.drop_last();
        lemma_all_linked(index, fewer, i);
        if forall|j: int| i < j < links.len() ==> (#[trigger] links[j]).0 != links[i].0 {
            assert forall|j: int| i < j < fewer.len() implies (#[trigger] fewer[j]).0
                != fewer[i].0 by {
                assert(links[j] == fewer[j]);
            }
            assert(links[links.len() - 1].0 != links[i].0);
        }
    }
}

/// A claim is judged as its last judgment says.
proof fn lemma_all_judged(index: TrustView, support: Seq<(Seq<char>, SupportState)>, i: int)
    requires
        0 <= i < support.len(),
    ensures
        (forall|j: int| i < j < support.len() ==> (#[trigger] support[j]).0 != support[i].0)
            ==> all_judged(index, support).support.contains_key(support[i].0) && all_judged(
            index,
            support,
        ).support[support[i].0] == support[i].1,
    decreases support.len(),
{
    if i < support.len() - 1 {
        let fewer = support.drop_last();
        lemma_all_judged(index, fewer, i);
        if forall|j: int| i < j < support.len() ==> (#[trigger] support[j]).0 != support[i].0 {
            assert forall|j: int| i < j < fewer.len() implies (#[trigger] fewer[j]).0
                != fewer[i].0 by {
                assert(support[j] == fewer[j]);
            }
            assert(support[support.len() - 1].0 != support[i].0);
        }
    }
}

/// A result that names a fact and has a content links the fact, and no other
/// one, to the claim that matches; one that lacks either changes nothing.
pub proof fn law_seen_results_are_linked(index: TrustView, result: JsonView, id: Seq<char>)
    ensures
        result.text_member("memory_id"@) is None || result.text_member("content"@) is None
            ==> seen(index, result) == index,
        result.text_member("memory_id"@) == Some(id) && result.text_member("content"@) is Some
            ==> seen(index, result) == index.auto_linked(
            bare_id(id),
            result.text_member("content"@)->0,
        ),
{
}

}
