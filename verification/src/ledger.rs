//! The claim ledger: a hash chain of entries, and the checkpoints that replace
//! its older part.
use crate::json::{pair_texts, parse_document, read_document, Json, JsonView};
use crate::text::{optional_text, same_text, texts};
use crate::trust::{
    entry_views,
    judged_claims,
    CheckpointView,
    EntryView,
    EventView,
    LedgerEntry,
    LedgerEvent,
    SnapshotFacts,
    SupportState,
};
use vstd::prelude::*;

verus! {

/// The support state that a ledger entry names.
pub open spec fn state_named(name: Seq<char>) -> Option<SupportState> {
    if name == "supported"@ {
        Some(SupportState::Supported)
    } else if name == "partially_supported"@ {
        Some(SupportState::PartiallySupported)
    } else if name == "unsupported"@ {
        Some(SupportState::Unsupported)
    } else if name == "contradicted"@ {
        Some(SupportState::Contradicted)
    } else if name == "heuristic_only"@ {
        Some(SupportState::HeuristicOnly)
    } else if name == "unknown"@ {
        Some(SupportState::Unknown)
    } else {
        None
    }
}

/// The support state that a ledger entry names.
pub fn support_state_named(name: &str) -> (state: Option<SupportState>)
    ensures
        state == state_named(name@),
{
    if same_text(name, "supported") {
        Some(SupportState::Supported)
    } else if same_text(name, "partially_supported") {
        Some(SupportState::PartiallySupported)
    } else if same_text(name, "unsupported") {
        Some(SupportState::Unsupported)
    } else if same_text(name, "contradicted") {
        Some(SupportState::Contradicted)
    } else if same_text(name, "heuristic_only") {
        Some(SupportState::HeuristicOnly)
    } else if same_text(name, "unknown") {
        Some(SupportState::Unknown)
    } else {
        None
    }
}

/// The event that the `event` member of an entry describes.
pub open spec fn event_of(document: JsonView) -> Option<EventView> {
    match document.text_member("type"@) {
        None => None,
        Some(name) => if name == "claim_added"@ {
            match (
                document.text_member("claim_id"@),
                document.text_member("source_id"@),
                document.text_member("normalized_claim"@),
            ) {
                (Some(claim), Some(source), Some(content)) => Some(
                    EventView::ClaimAdded { claim, source, content },
                ),
                _ => None,
            }
        } else if name == "support_judgment"@ {
            match (document.text_member("claim_id"@), document.text_member("support_state"@)) {
                (Some(claim), Some(state)) => match state_named(state) {
                    Some(state) => Some(EventView::Judgment { claim, state }),
                    None => None,
                },
                _ => None,
            }
        } else if name == "contradiction_candidate"@ {
            match document.member("claim_refs"@) {
                Some(refs) => match refs.text_list() {
                    Some(claims) => Some(EventView::Contradiction { claims }),
                    None => None,
                },
                None => None,
            }
        } else if name == "contradiction_resolved"@ {
            Some(EventView::Resolution)
        } else {
            Some(EventView::Other)
        },
    }
}

/// The digest that an entry or a checkpoint names in a member, if it names
/// one: a text, or null for none.
pub open spec fn digest_of(document: JsonView, key: Seq<char>) -> Option<Option<Seq<char>>> {
    match document.member(key) {
        Some(JsonView::Text(digest)) => Some(Some(digest)),
        Some(JsonView::Null) => Some(None),
        _ => None,
    }
}

/// The entry that a document describes.
pub open spec fn entry_of(document: JsonView, line: Seq<char>) -> Option<EntryView> {
    match (
        document.member("sequence"@),
        digest_of(document, "previous_entry_digest"@),
        document.member("event"@),
        document.text_member("entry_digest"@),
    ) {
        (Some(JsonView::Unsigned(sequence)), Some(previous), Some(event), Some(digest)) => {
            match event_of(event) {
                Some(event) => Some(EntryView { sequence, previous, event, digest, line }),
                None => None,
            }
        },
        _ => None,
    }
}

/// The entry that a line of the ledger file describes.
pub open spec fn entry_of_line(line: Seq<char>) -> Option<EntryView> {
    match read_document(line) {
        Ok(document) => entry_of(document, line),
        Err(_) => None,
    }
}

/// Whether every line describes an entry.
pub open spec fn all_entries(lines: Seq<Seq<char>>) -> bool {
    forall|i: int| 0 <= i < lines.len() ==> entry_of_line(#[trigger] lines[i]) is Some
}

/// The entries that the lines describe.
pub open spec fn entries_of(lines: Seq<Seq<char>>) -> Seq<EntryView> {
    Seq::new(lines.len(), |i: int| entry_of_line(lines[i])->0)
}

/// The event that the `event` member of an entry describes.
fn read_event(document: &Json) -> (event: Option<LedgerEvent>)
    ensures
        (match event {
            Some(event) => event_of(document@) == Some(event@),
            None => event_of(document@) is None,
        }),
{
    let name = match document.get_text("type") {
        Some(name) => name,
        None => {
            return None;
        },
    };
    if same_text(name, "claim_added") {
        match (
            document.get_text("claim_id"),
            document.get_text("source_id"),
            document.get_text("normalized_claim"),
        ) {
            (Some(claim), Some(source), Some(content)) => Some(
                LedgerEvent::ClaimAdded {
                    claim_id: claim.clone(),
                    source_id: source.clone(),
                    normalized_claim: content.clone(),
                },
            ),
            _ => None,
        }
    } else if same_text(name, "support_judgment") {
        match (document.get_text("claim_id"), document.get_text("support_state")) {
            (Some(claim), Some(state)) => match support_state_named(state) {
                Some(state) => Some(
                    LedgerEvent::SupportJudgment {
                        claim_id: claim.clone(),
                        support_state: state,
                    },
                ),
                None => None,
            },
            _ => None,
        }
    } else if same_text(name, "contradiction_candidate") {
        match document.get("claim_refs") {
            Some(refs) => match refs.as_text_list() {
                Some(claims) => Some(LedgerEvent::ContradictionCandidate { claim_refs: claims }),
                None => None,
            },
            None => None,
        }
    } else if same_text(name, "contradiction_resolved") {
        Some(LedgerEvent::ContradictionResolved)
    } else {
        Some(LedgerEvent::Other)
    }
}

/// The digest that a member names, if it names one.
fn read_digest(document: &Json, key: &str) -> (digest: Option<Option<String>>)
    ensures
        (match digest {
            Some(digest) => digest_of(document@, key@) == Some(optional_text(digest)),
            None => digest_of(document@, key@) is None,
        }),
{
    match document.get(key) {
        Some(Json::Text(digest)) => Some(Some(digest.clone())),
        Some(Json::Null) => Some(None),
        _ => None,
    }
}

/// The entry that a line of the ledger file describes.
pub fn read_entry(line: &str) -> (entry: Option<LedgerEntry>)
    ensures
        (match entry {
            Some(entry) => entry_of_line(line@) == Some(entry@),
            None => entry_of_line(line@) is None,
        }),
{
    let document = match parse_document(line) {
        Ok(document) => document,
        Err(_) => {
            return None;
        },
    };
    let sequence: u64 = match document.get("sequence") {
        Some(Json::Unsigned(sequence)) => *sequence,
        _ => {
            return None;
        },
    };
    let event = match document.get("event") {
        Some(event) => event,
        None => {
            return None;
        },
    };
    match (
        read_digest(&document, "previous_entry_digest"),
        read_event(event),
        document.get_text("entry_digest"),
    ) {
        (Some(previous), Some(event), Some(digest)) => Some(
            LedgerEntry {
                sequence,
                previous_entry_digest: previous,
                event,
                entry_digest: digest.clone(),
                line: line.to_owned(),
            },
        ),
        _ => None,
    }
}

/// The entries that the lines describe, if every line describes one.
pub fn read_entries(lines: &Vec<String>) -> (entries: Option<Vec<LedgerEntry>>)
    ensures
        (match entries {
            Some(entries) => all_entries(texts(lines@)) && entry_views(entries@) == entries_of(
                texts(lines@),
            ),
            None => !all_entries(texts(lines@)),
        }),
{
    let mut entries: Vec<LedgerEntry> = Vec::new();
    let ghost all = texts(lines@);
    let mut i: usize = 0;
    while i < lines.len()
        invariant
            i <= lines.len(),
            all == texts(lines@),
            entries@.len() == i,
            forall|j: int|
                0 <= j < i ==> entry_of_line(#[trigger] all[j]) == Some(entries@[j]@),
        decreases lines.len() - i,
    {
        match read_entry(&lines[i]) {
            Some(entry) => entries.push(entry),
            None => {
                assert(entry_of_line(all[i as int]) is None);
                return None;
            },
        }
        i += 1;
    }
    assert(entry_views(entries@) =~= entries_of(all)) by {
        assert forall|j: int| 0 <= j < all.len() implies entry_views(entries@)[j] == #[trigger] entries_of(
            all,
        )[j] by {
            assert(entry_of_line(all[j]) == Some(entries@[j]@));
        }
    }
    Some(entries)
}

/// The two texts that a link names.
pub open spec fn link_of(document: JsonView, left: Seq<char>, right: Seq<char>) -> Option<
    (Seq<char>, Seq<char>),
> {
    match (document.text_member(left), document.text_member(right)) {
        (Some(a), Some(b)) => Some((a, b)),
        _ => None,
    }
}

/// The links that a list holds.
pub open spec fn links_of(list: Option<JsonView>, left: Seq<char>, right: Seq<char>) -> Option<
    Seq<(Seq<char>, Seq<char>)>,
> {
    match list {
        Some(JsonView::Array(items)) => if forall|i: int|
            0 <= i < items.len() ==> link_of(#[trigger] items[i], left, right) is Some {
            Some(Seq::new(items.len(), |i: int| link_of(items[i], left, right)->0))
        } else {
            None
        },
        _ => None,
    }
}

/// The judged claim that an item names.
pub open spec fn judged_of(document: JsonView) -> Option<(Seq<char>, SupportState)> {
    match link_of(document, "claim_id"@, "support_state"@) {
        Some((claim, name)) => match state_named(name) {
            Some(state) => Some((claim, state)),
            None => None,
        },
        None => None,
    }
}

/// The judged claims that a list holds.
pub open spec fn judgments_of(list: Option<JsonView>) -> Option<Seq<(Seq<char>, SupportState)>> {
    match list {
        Some(JsonView::Array(items)) => if forall|i: int|
            0 <= i < items.len() ==> judged_of(#[trigger] items[i]) is Some {
            Some(Seq::new(items.len(), |i: int| judged_of(items[i])->0))
        } else {
            None
        },
        _ => None,
    }
}

/// The checkpoint that a document describes.
pub open spec fn checkpoint_of(document: JsonView) -> Option<CheckpointView> {
    match (
        links_of(
            document.member("content_to_claim_links"@),
            "normalized_claim"@,
            "claim_id"@,
        ),
        links_of(document.member("fact_to_claim_links"@), "fact_id"@, "claim_id"@),
        judgments_of(document.member("claim_support"@)),
        document.member("last_compacted_sequence"@),
        digest_of(document, "last_compacted_entry_digest"@),
    ) {
        (
            Some(contents),
            Some(facts),
            Some(support),
            Some(JsonView::Unsigned(last_sequence)),
            Some(last_digest),
        ) => Some(CheckpointView { contents, facts, support, last_sequence, last_digest }),
        _ => None,
    }
}

/// The checkpoint that a text describes.
pub open spec fn checkpoint_of_text(text: Seq<char>) -> Option<CheckpointView> {
    match read_document(text) {
        Ok(document) => checkpoint_of(document),
        Err(_) => None,
    }
}

/// What a member says, if it is there.
pub open spec fn said(value: Option<&Json>) -> Option<JsonView> {
    match value {
        Some(value) => Some(value@),
        None => None,
    }
}

/// The links that a list holds.
fn read_links(list: Option<&Json>, left: &str, right: &str) -> (r: Option<Vec<(String, String)>>)
    ensures
        (match r {
            Some(r) => links_of(said(list), left@, right@) == Some(pair_texts(r@)),
            None => links_of(said(list), left@, right@) is None,
        }),
{
    let items = match list {
        Some(Json::Array(items)) => items,
        _ => {
            return None;
        },
    };
    let ghost all = said(list)->0->Array_0;
    let mut links: Vec<(String, String)> = Vec::new();
    let mut i: usize = 0;
    while i < items.len()
        invariant
            i <= items.len(),
            said(list) == Some(JsonView::Array(all)),
            all.len() == items@.len(),
            forall|j: int| 0 <= j < items@.len() ==> #[trigger] all[j] == items@[j]@,
            links@.len() == i,
            forall|j: int|
                0 <= j < i ==> link_of(#[trigger] all[j], left@, right@) == Some(
                    pair_texts(links@)[j],
                ),
        decreases items.len() - i,
    {
        let ghost before = links@;
        assert(all[i as int] == items@[i as int]@);
        match (items[i].get_text(left), items[i].get_text(right)) {
            (Some(a), Some(b)) => links.push((a.clone(), b.clone())),
            _ => {
                assert(link_of(all[i as int], left@, right@) is None);
                return None;
            },
        }
        assert forall|j: int| 0 <= j < i + 1 implies link_of(#[trigger] all[j], left@, right@)
            == Some(pair_texts(links@)[j]) by {
            if j < i {
                assert(pair_texts(links@)[j] == pair_texts(before)[j]);
            }
        }
        i += 1;
    }
    proof {
        assert(forall|j: int|
            0 <= j < all.len() ==> link_of(#[trigger] all[j], left@, right@) is Some);
        let read = Seq::new(all.len(), |j: int| link_of(all[j], left@, right@)->0);
        assert(pair_texts(links@) =~= read) by {
            assert forall|j: int| 0 <= j < all.len() implies pair_texts(links@)[j]
                == #[trigger] read[j] by {
                assert(link_of(all[j], left@, right@) == Some(pair_texts(links@)[j]));
            }
        }
    }
    Some(links)
}

/// The judged claims that a list holds.
fn read_judgments(list: Option<&Json>) -> (r: Option<Vec<(String, SupportState)>>)
    ensures
        (match r {
            Some(r) => judgments_of(said(list)) == Some(judged_claims(r@)),
            None => judgments_of(said(list)) is None,
        }),
{
    let items = match list {
        Some(Json::Array(items)) => items,
        _ => {
            return None;
        },
    };
    let ghost all = said(list)->0->Array_0;
    let mut judged: Vec<(String, SupportState)> = Vec::new();
    let mut i: usize = 0;
    while i < items.len()
        invariant
            i <= items.len(),
            said(list) == Some(JsonView::Array(all)),
            all.len() == items@.len(),
            forall|j: int| 0 <= j < items@.len() ==> #[trigger] all[j] == items@[j]@,
            judged@.len() == i,
            forall|j: int|
                0 <= j < i ==> judged_of(#[trigger] all[j]) == Some(judged_claims(judged@)[j]),
        decreases items.len() - i,
    {
        let ghost before = judged@;
        assert(all[i as int] == items@[i as int]@);
        let state = match (items[i].get_text("claim_id"), items[i].get_text("support_state")) {
            (Some(claim), Some(name)) => match support_state_named(name) {
                Some(state) => Some((claim.clone(), state)),
                None => None,
            },
            _ => None,
        };
        match state {
            Some(pair) => judged.push(pair),
            None => {
                assert(judged_of(all[i as int]) is None);
                return None;
            },
        }
        assert forall|j: int| 0 <= j < i + 1 implies judged_of(#[trigger] all[j]) == Some(
            judged_claims(judged@)[j],
        ) by {
            if j < i {
                assert(judged_claims(judged@)[j] == judged_claims(before)[j]);
            }
        }
        i += 1;
    }
    proof {
        assert(forall|j: int| 0 <= j < all.len() ==> judged_of(#[trigger] all[j]) is Some);
        let read = Seq::new(all.len(), |j: int| judged_of(all[j])->0);
        assert(judged_claims(judged@) =~= read) by {
            assert forall|j: int| 0 <= j < all.len() implies judged_claims(judged@)[j]
                == #[trigger] read[j] by {
                assert(judged_of(all[j]) == Some(judged_claims(judged@)[j]));
            }
        }
    }
    Some(judged)
}

/// The checkpoint that a text describes.
pub fn read_checkpoint(text: &str) -> (facts: Option<SnapshotFacts>)
    ensures
        (match facts {
            Some(facts) => checkpoint_of_text(text@) == Some(facts@),
            None => checkpoint_of_text(text@) is None,
        }),
{
    let document = match parse_document(text) {
        Ok(document) => document,
        Err(_) => {
            return None;
        },
    };
    let last_sequence: u64 = match document.get("last_compacted_sequence") {
        Some(Json::Unsigned(sequence)) => *sequence,
        _ => {
            return None;
        },
    };
    match (
        read_links(document.get("content_to_claim_links"), "normalized_claim", "claim_id"),
        read_links(document.get("fact_to_claim_links"), "fact_id", "claim_id"),
        read_judgments(document.get("claim_support")),
        read_digest(&document, "last_compacted_entry_digest"),
    ) {
        (Some(content_links), Some(fact_links), Some(support), Some(last_digest)) => Some(
            SnapshotFacts { content_links, fact_links, support, last_sequence, last_digest },
        ),
        _ => None,
    }
}

/// The sequence number that follows another; the last one follows itself.
pub open spec fn following(sequence: u64) -> u64 {
    if sequence < u64::MAX {
        (sequence + 1) as u64
    } else {
        u64::MAX
    }
}

/// Whether the entry at `i` continues the one before it, or the given head
/// where it is the first.
pub open spec fn continues_at(
    entries: Seq<EntryView>,
    i: int,
    sequence: u64,
    digest: Option<Seq<char>>,
) -> bool {
    if i == 0 {
        entries[0].sequence == following(sequence) && entries[0].previous == digest
    } else {
        entries[i].sequence == following(entries[i - 1].sequence) && entries[i].previous == Some(
            entries[i - 1].digest,
        )
    }
}

/// Whether the entries form a chain that continues the given head.
pub open spec fn chained(
    entries: Seq<EntryView>,
    sequence: u64,
    digest: Option<Seq<char>>,
) -> bool {
    forall|i: int|
        0 <= i < entries.len() ==> #[trigger] continues_at(entries, i, sequence, digest)
}

/// The sequence number of the last entry, or the given one where there is none.
pub open spec fn head_sequence(entries: Seq<EntryView>, sequence: u64) -> u64 {
    if entries.len() > 0 {
        entries.last().sequence
    } else {
        sequence
    }
}

/// The digest of the last entry, or the given one where there is none.
pub open spec fn head_digest(entries: Seq<EntryView>, digest: Option<Seq<char>>) -> Option<
    Seq<char>,
> {
    if entries.len() > 0 {
        Some(entries.last().digest)
    } else {
        digest
    }
}

/// The entries of a chain are numbered without gaps.
pub proof fn law_chain_has_no_gaps(
    entries: Seq<EntryView>,
    sequence: u64,
    digest: Option<Seq<char>>,
    i: int,
)
    requires
        chained(entries, sequence, digest),
        0 <= i < entries.len(),
        sequence + entries.len() <= u64::MAX,
    ensures
        entries[i].sequence == sequence + i + 1,
    decreases i,
{
    assert(continues_at(entries, i, sequence, digest));
    if i > 0 {
        law_chain_has_no_gaps(entries, sequence, digest, i - 1);
    }
}

/// A chain cut in two is two chains, the second of which continues the first.
pub proof fn law_chain_can_be_cut(
    entries: Seq<EntryView>,
    sequence: u64,
    digest: Option<Seq<char>>,
    at: int,
)
    requires
        chained(entries, sequence, digest),
        0 <= at <= entries.len(),
    ensures
        chained(entries.subrange(0, at), sequence, digest),
        chained(
            entries.subrange(at, entries.len() as int),
            head_sequence(entries.subrange(0, at), sequence),
            head_digest(entries.subrange(0, at), digest),
        ),
{
    let first = entries.subrange(0, at);
    let second = entries.subrange(at, entries.len() as int);
    assert forall|i: int| 0 <= i < first.len() implies #[trigger] continues_at(
        first,
        i,
        sequence,
        digest,
    ) by {
        assert(continues_at(entries, i, sequence, digest));
    }
    assert forall|i: int| 0 <= i < second.len() implies #[trigger] continues_at(
        second,
        i,
        head_sequence(first, sequence),
        head_digest(first, digest),
    ) by {
        assert(continues_at(entries, at + i, sequence, digest));
    }
}

/// The names of events differ.
proof fn lemma_event_names()
    ensures
        "claim_added"@ != "support_judgment"@,
        "claim_added"@ != "contradiction_candidate"@,
        "claim_added"@ != "contradiction_resolved"@,
        "support_judgment"@ != "contradiction_candidate"@,
        "support_judgment"@ != "contradiction_resolved"@,
        "contradiction_candidate"@ != "contradiction_resolved"@,
{
    reveal_strlit("claim_added");
    reveal_strlit("support_judgment");
    reveal_strlit("contradiction_candidate");
    reveal_strlit("contradiction_resolved");
    assert("claim_added"@.len() == 11 && "support_judgment"@.len() == 16);
    assert("contradiction_candidate"@.len() == 23 && "contradiction_resolved"@.len() == 22);
}

/// An event is read by its type: a claim with its identifier, its source and its
/// content, a judgment with its claim and its state, a contradiction with its
/// claims; a type that is not known is an event that trust passes over.
pub proof fn law_events_are_read_by_type(
    document: JsonView,
    claim: Seq<char>,
    source: Seq<char>,
    content: Seq<char>,
    state: SupportState,
    claims: Seq<Seq<char>>,
)
    ensures
        document.text_member("type"@) == Some("claim_added"@) && document.text_member("claim_id"@)
            == Some(claim) && document.text_member("source_id"@) == Some(source)
            && document.text_member("normalized_claim"@) == Some(content) ==> event_of(document)
            == Some(EventView::ClaimAdded { claim, source, content }),
        document.text_member("type"@) == Some("support_judgment"@) && document.text_member(
            "claim_id"@,
        ) == Some(claim) && document.text_member("support_state"@) == Some(state.label_text())
            && state != SupportState::Unknown ==> event_of(document) == Some(
            EventView::Judgment { claim, state },
        ),
        document.text_member("type"@) == Some("contradiction_candidate"@) && (document.member(
            "claim_refs"@,
        ) matches Some(refs) && refs.text_list() == Some(claims)) ==> event_of(document) == Some(
            EventView::Contradiction { claims },
        ),
        document.text_member("type"@) == Some("contradiction_resolved"@) ==> event_of(document)
            == Some(EventView::Resolution),
        event_of(document) is None ==> document.text_member("type"@) is None
            || document.text_member("type"@) == Some("claim_added"@) || document.text_member(
            "type"@,
        ) == Some("support_judgment"@) || document.text_member("type"@) == Some(
            "contradiction_candidate"@,
        ),
{
    lemma_event_names();
    reveal_strlit("supported");
    reveal_strlit("partially_supported");
    reveal_strlit("unsupported");
    reveal_strlit("contradicted");
    reveal_strlit("heuristic_only");
    assert("supported"@.len() == 9 && "partially_supported"@.len() == 19);
    assert("unsupported"@.len() == 11 && "contradicted"@.len() == 12);
    assert("heuristic_only"@.len() == 14);
}

/// An entry is read with its own number, the digest that it names as the
/// previous one, its event and its digest, and keeps its line.
pub proof fn law_entries_are_read_in_full(document: JsonView, line: Seq<char>)
    ensures
        entry_of(document, line) matches Some(entry) ==> {
            &&& document.member("sequence"@) == Some(JsonView::Unsigned(entry.sequence))
            &&& document.member("previous_entry_digest"@) == Some(
                match entry.previous {
                    Some(digest) => JsonView::Text(digest),
                    None => JsonView::Null,
                },
            )
            &&& document.text_member("entry_digest"@) == Some(entry.digest)
            &&& document.member("event"@) matches Some(event) && event_of(event) == Some(
                entry.event,
            )
            &&& entry.line == line
        },
        entry_of(document, line) is None ==> {
            ||| !(document.member("sequence"@) matches Some(JsonView::Unsigned(_)))
            ||| !(document.member("previous_entry_digest"@) matches Some(JsonView::Text(_))
                || document.member("previous_entry_digest"@) matches Some(JsonView::Null))
            ||| document.text_member("entry_digest"@) is None
            ||| document.member("event"@) is None
            ||| event_of(document.member("event"@)->0) is None
        },
{
}

/// Every entry of a chain names the digest of the one before it, and the first
/// one the digest that the chain continues.
pub proof fn law_chain_links_the_digests(
    entries: Seq<EntryView>,
    sequence: u64,
    digest: Option<Seq<char>>,
    i: int,
)
    requires
        chained(entries, sequence, digest),
        0 <= i < entries.len(),
    ensures
        i == 0 ==> entries[i].previous == digest,
        i > 0 ==> entries[i].previous == Some(entries[i - 1].digest),
{
    assert(continues_at(entries, i, sequence, digest));
}

/// Entries that are numbered without gaps, each of which names the digest of the
/// one before it, form a chain.
pub proof fn law_linked_entries_form_a_chain(
    entries: Seq<EntryView>,
    sequence: u64,
    digest: Option<Seq<char>>,
)
    requires
        sequence + entries.len() <= u64::MAX,
        forall|i: int|
            0 <= i < entries.len() ==> (#[trigger] entries[i]).sequence == sequence + i + 1,
        entries.len() > 0 ==> entries[0].previous == digest,
        forall|i: int, j: int|
            0 <= i && j == i + 1 && j < entries.len() ==> (#[trigger] entries[j]).previous == Some(
                (#[trigger] entries[i]).digest,
            ),
    ensures
        chained(entries, sequence, digest),
{
    assert forall|i: int| 0 <= i < entries.len() implies #[trigger] continues_at(
        entries,
        i,
        sequence,
        digest,
    ) by {
        if i > 0 {
            assert(entries[i].previous == Some(entries[i - 1].digest));
            assert(entries[i - 1].sequence == sequence + i);
        }
    }
}

/// Altering the digest of an entry breaks the chain behind it.
pub proof fn law_altered_digests_break_the_chain(
    entries: Seq<EntryView>,
    sequence: u64,
    digest: Option<Seq<char>>,
    i: int,
    altered: EntryView,
)
    requires
        chained(entries, sequence, digest),
        0 <= i < entries.len() - 1,
        altered.digest != entries[i].digest,
    ensures
        !chained(entries.update(i, altered), sequence, digest),
{
    assert(continues_at(entries, i + 1, sequence, digest));
    let other = entries.update(i, altered);
    assert(other[i + 1] == entries[i + 1]);
    assert(!continues_at(other, i + 1, sequence, digest));
}

/// A checkpoint is read with all of its links and judgments, in their order, and
/// the head that it ends at.
pub proof fn law_checkpoints_are_read_in_full(document: JsonView)
    ensures
        checkpoint_of(document) matches Some(checkpoint) ==> {
            &&& document.member("last_compacted_sequence"@) == Some(
                JsonView::Unsigned(checkpoint.last_sequence),
            )
            &&& document.member("fact_to_claim_links"@) matches Some(JsonView::Array(links))
                && links.len() == checkpoint.facts.len() && forall|i: int|
                0 <= i < links.len() ==> (#[trigger] links[i]).text_member("fact_id"@) == Some(
                    checkpoint.facts[i].0,
                ) && links[i].text_member("claim_id"@) == Some(checkpoint.facts[i].1)
            &&& document.member("content_to_claim_links"@) matches Some(JsonView::Array(links))
                && links.len() == checkpoint.contents.len() && forall|i: int|
                0 <= i < links.len() ==> (#[trigger] links[i]).text_member("normalized_claim"@)
                    == Some(checkpoint.contents[i].0) && links[i].text_member("claim_id"@) == Some(
                    checkpoint.contents[i].1,
                )
            &&& document.member("claim_support"@) matches Some(JsonView::Array(judged))
                && judged.len() == checkpoint.support.len() && forall|i: int|
                0 <= i < judged.len() ==> (#[trigger] judged[i]).text_member("claim_id"@) == Some(
                    checkpoint.support[i].0,
                )
        },
{
    if let Some(checkpoint) = checkpoint_of(document) {
        let facts = document.member("fact_to_claim_links"@)->0->Array_0;
        assert forall|i: int| 0 <= i < facts.len() implies (#[trigger] facts[i]).text_member(
            "fact_id"@,
        ) == Some(checkpoint.facts[i].0) && facts[i].text_member("claim_id"@) == Some(
            checkpoint.facts[i].1,
        ) by {
            assert(link_of(facts[i], "fact_id"@, "claim_id"@) is Some);
        }
        let contents = document.member("content_to_claim_links"@)->0->Array_0;
        assert forall|i: int| 0 <= i < contents.len() implies (#[trigger] contents[i]).text_member(
            "normalized_claim"@,
        ) == Some(checkpoint.contents[i].0) && contents[i].text_member("claim_id"@) == Some(
            checkpoint.contents[i].1,
        ) by {
            assert(link_of(contents[i], "normalized_claim"@, "claim_id"@) is Some);
        }
        let judged = document.member("claim_support"@)->0->Array_0;
        assert forall|i: int| 0 <= i < judged.len() implies (#[trigger] judged[i]).text_member(
            "claim_id"@,
        ) == Some(checkpoint.support[i].0) by {
            assert(judged_of(judged[i]) is Some);
        }
    }
}

}
