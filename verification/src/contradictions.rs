//! Contradictions: between search results, and how they are recorded in the
//! claim ledger.
use crate::claims::describes;
use crate::json::{fields, json_views, pair_texts, texts_json, Fields, Json, JsonView};
use crate::ledger::read_entry;
use crate::ledger_store::{sealed, well_kept, ClaimLedgerStore, StoreView};
use crate::search::SearchHit;
use crate::text::{cat2, join, joined, optional_text, texts, to_lowercase, unicode_lowered};
use crate::trust::{
    bare_fact_id,
    bare_id,
    ClaimTrustIndex,
    EntryView,
    EventView,
    LedgerEntry,
    SupportState,
    TrustView,
};
use vstd::prelude::*;

verus! {

/// Two results that seem to contradict each other.
pub struct DetectedPair {
    pub a: String,
    pub b: String,
    pub score: Json,
    /// The names of the signals that fired.
    pub signals: Vec<String>,
    pub reason: String,
}

/// Two results that seem to contradict each other, as a reply tells it.
pub open spec fn pair_json(pair: DetectedPair) -> JsonView {
    fields().put("a"@, JsonView::Text(pair.a@)).put("b"@, JsonView::Text(pair.b@)).put(
        "score"@,
        pair.score@,
    ).put("signals"@, texts_json(texts(pair.signals@))).put(
        "reason"@,
        JsonView::Text(pair.reason@),
    ).object()
}

/// Where bytes occur for the first time, from an offset on.
pub open spec fn found_from(bytes: Seq<u8>, part: Seq<u8>, from: int) -> Option<int>
    decreases bytes.len() - from + 1,
{
    if from + part.len() > bytes.len() {
        None
    } else if bytes.subrange(from, from + part.len()) == part {
        Some(from)
    } else {
        found_from(bytes, part, from + 1)
    }
}

/// Where bytes begin and end that occur for the first time.
fn find_bytes(bytes: &[u8], part: &[u8]) -> (found: Option<(usize, usize)>)
    requires
        part@.len() > 0,
    ensures
        (match found {
            Some((start, end)) => found_from(bytes@, part@, 0) == Some(start as int) && end == start
                + part@.len(),
            None => found_from(bytes@, part@, 0) is None,
        }),
{
    let mut start: usize = 0;
    while start < bytes.len() && part.len() <= bytes.len() - start
        invariant
            start <= bytes@.len(),
            part@.len() > 0,
            found_from(bytes@, part@, 0) == found_from(bytes@, part@, start as int),
        decreases bytes.len() - start,
    {
        let end: usize = start + part.len();
        let mut i: usize = 0;
        while i < part.len() && bytes[start + i] == part[i]
            invariant
                i <= part@.len(),
                end == start + part@.len(),
                end <= bytes@.len(),
                forall|j: int| 0 <= j < i ==> bytes@[start + j] == #[trigger] part@[j],
            decreases part.len() - i,
        {
            i += 1;
        }
        let ghost there = bytes@.subrange(start as int, end as int);
        if i == part.len() {
            assert(there =~= part@);
            return Some((start, end));
        }
        assert(there[i as int] != part@[i as int]);
        start += 1;
    }
    None
}

/// Where the verb of a sentence begins and ends: the first " is ", else the
/// first " are ", " was " or " were ".
pub open spec fn verb_in(bytes: Seq<u8>) -> Option<(int, int)> {
    let is = vstd::utf8::encode_utf8(" is "@);
    let are = vstd::utf8::encode_utf8(" are "@);
    let was = vstd::utf8::encode_utf8(" was "@);
    let were = vstd::utf8::encode_utf8(" were "@);
    if let Some(at) = found_from(bytes, is, 0) {
        Some((at, at + is.len()))
    } else if let Some(at) = found_from(bytes, are, 0) {
        Some((at, at + are.len()))
    } else if let Some(at) = found_from(bytes, was, 0) {
        Some((at, at + was.len()))
    } else if let Some(at) = found_from(bytes, were, 0) {
        Some((at, at + were.len()))
    } else {
        None
    }
}

/// Whether a text can be cut where its lower case has the verb. Lowering a
/// character may change how many bytes it takes, so the place may fall inside
/// of one.
pub open spec fn cuts_at_verb(text: Seq<char>) -> bool {
    match verb_in(vstd::utf8::encode_utf8(unicode_lowered(text))) {
        Some((start, end)) => {
            let bytes = vstd::utf8::encode_utf8(text);
            vstd::utf8::is_char_boundary(bytes, start) && vstd::utf8::is_char_boundary(bytes, end)
        },
        None => true,
    }
}

/// Whether a text can be cut where its lower case has the verb.
fn can_be_cut(text: &str) -> (r: bool)
    ensures
        r == cuts_at_verb(text@),
{
    let lowered = to_lowercase(text);
    let bytes = lowered.as_str().as_bytes();
    proof {
        reveal_strlit(" is ");
        reveal_strlit(" are ");
        reveal_strlit(" was ");
        reveal_strlit(" were ");
    }
    let is = " is ".as_bytes();
    let are = " are ".as_bytes();
    let was = " was ".as_bytes();
    let were = " were ".as_bytes();
    if let Some((start, end)) = find_bytes(bytes, is) {
        return text.is_char_boundary(start) && text.is_char_boundary(end);
    }
    if let Some((start, end)) = find_bytes(bytes, are) {
        return text.is_char_boundary(start) && text.is_char_boundary(end);
    }
    if let Some((start, end)) = find_bytes(bytes, was) {
        return text.is_char_boundary(start) && text.is_char_boundary(end);
    }
    if let Some((start, end)) = find_bytes(bytes, were) {
        return text.is_char_boundary(start) && text.is_char_boundary(end);
    }
    true
}

/// Contradictions as plain values, without their reasons.
pub open spec fn found_views(pairs: Seq<DetectedPair>) -> Seq<
    (Seq<char>, Seq<char>, JsonView, Seq<Seq<char>>),
> {
    Seq::new(
        pairs.len(),
        |i: int| (pairs[i].a@, pairs[i].b@, pairs[i].score@, texts(pairs[i].signals@)),
    )
}

/// The contradictions that
/// `semantic_memory::contradiction_detect::detect_contradictions` finds among
/// items, each given by its identifier and its content.
pub uninterp spec fn contradictions_among(items: Seq<(Seq<char>, Seq<char>)>) -> Seq<
    (Seq<char>, Seq<char>, JsonView, Seq<Seq<char>>),
>;

/// Two items, one listed before the other, have the given identifiers.
pub open spec fn names_items(items: Seq<(Seq<char>, Seq<char>)>, a: Seq<char>, b: Seq<char>) -> bool {
    exists|i: int, j: int|
        0 <= i < j < items.len() && (#[trigger] items[i]).0 == a && (#[trigger] items[j]).0 == b
}

/// `semantic_memory::contradiction_detect::detect_contradictions` with the
/// default thresholds: each contradiction is between two of the items. Which
/// ones, with which score and by which signals, depends on the items alone. Of
/// the reason nothing is stated: it may list numbers in the order of a hash
/// set. It cuts every text at the verb that it finds in the lower case.
#[verifier::external_body]
fn find_contradictions(items: &Vec<(String, String)>) -> (pairs: Vec<DetectedPair>)
    requires
        items@.len() > 1 ==> forall|i: int|
            0 <= i < items@.len() ==> cuts_at_verb((#[trigger] pair_texts(items@)[i]).1),
    ensures
        found_views(pairs@) == contradictions_among(pair_texts(items@)),
        forall|k: int|
            0 <= k < pairs@.len() ==> names_items(
                pair_texts(items@),
                (#[trigger] pairs@[k]).a@,
                pairs@[k].b@,
            ),
{
    let thresholds = semantic_memory::contradiction_detect::DetectorConfig::default();
    let found = semantic_memory::contradiction_detect::detect_contradictions(items, &thresholds);
    found.into_iter().map(|p| DetectedPair {
        a: p.a,
        b: p.b,
        score: Json::Decimal(serde_json::to_string(&p.score).unwrap_or_default()),
        signals: p.signals.iter().map(|signal| format!("{signal:?}")).collect(),
        reason: p.reason,
    }).collect()
}

/// Hits with their contents.
pub open spec fn contents_of(hits: Seq<SearchHit>) -> Seq<(Seq<char>, Seq<char>)> {
    Seq::new(hits.len(), |i: int| (hits[i].result_id@, hits[i].content@))
}

/// Whether contradictions can be looked for among items: there are fewer than
/// two, or all can be cut at their verbs.
pub open spec fn comparable(items: Seq<(Seq<char>, Seq<char>)>) -> bool {
    items.len() > 1 ==> forall|i: int|
        0 <= i < items.len() ==> cuts_at_verb((#[trigger] items[i]).1)
}

/// The contradictions among hits, by their contents; none where the contents
/// cannot be compared.
pub fn detect_contradictions(hits: &Vec<SearchHit>) -> (r: Option<Vec<DetectedPair>>)
    ensures
        (match r {
            Some(pairs) => {
                &&& comparable(contents_of(hits@))
                &&& found_views(pairs@) == contradictions_among(contents_of(hits@))
                &&& forall|k: int|
                    0 <= k < pairs@.len() ==> names_items(
                        contents_of(hits@),
                        (#[trigger] pairs@[k]).a@,
                        pairs@[k].b@,
                    )
            },
            None => !comparable(contents_of(hits@)),
        }),
{
    let ghost all = contents_of(hits@);
    let mut items: Vec<(String, String)> = Vec::new();
    let mut i: usize = 0;
    while i < hits.len()
        invariant
            i <= hits@.len(),
            all == contents_of(hits@),
            items@.len() == i,
            forall|j: int| 0 <= j < i ==> #[trigger] pair_texts(items@)[j] == all[j],
            hits@.len() > 1 ==> forall|j: int| 0 <= j < i ==> cuts_at_verb((#[trigger] all[j]).1),
        decreases hits.len() - i,
    {
        if hits.len() > 1 && !can_be_cut(&hits[i].content) {
            assert(!cuts_at_verb(all[i as int].1));
            return None;
        }
        let ghost before = items@;
        items.push((hits[i].result_id.clone(), hits[i].content.clone()));
        assert forall|j: int| 0 <= j < i + 1 implies #[trigger] pair_texts(items@)[j] == all[j] by {
            if j < i {
                assert(pair_texts(items@)[j] == pair_texts(before)[j]);
            }
        }
        i += 1;
    }
    assert(pair_texts(items@) =~= all);
    Some(find_contradictions(&items))
}

/// The pattern of a contradiction: the names of its signals.
pub open spec fn pattern_of(pair: DetectedPair) -> Seq<char> {
    joined(texts(pair.signals@), ","@)
}

/// The identifier that `claim_ledger::ids::contradiction_id` gives to a
/// contradiction.
pub uninterp spec fn contradiction_identity(
    left: Seq<char>,
    right: Seq<char>,
    pattern: Seq<char>,
) -> Seq<char>;

/// `claim_ledger::ids::contradiction_id`: the identifier of a contradiction,
/// which is the same whichever side comes first.
#[verifier::external_body]
fn contradiction_id(left: &str, right: &str, pattern: &str) -> (id: String)
    ensures
        id@ == contradiction_identity(left@, right@, pattern@),
        id@ == contradiction_identity(right@, left@, pattern@),
{
    claim_ledger::ids::contradiction_id(left, right, pattern)
}

/// The line that `claim_ledger::LedgerEntryBuilder` and
/// `claim_ledger::serialize_entry` give for a contradiction, or the message of
/// the error.
pub uninterp spec fn contradiction_line(
    sequence: u64,
    previous: Option<Seq<char>>,
    id: Seq<char>,
    claims: Seq<Seq<char>>,
    pattern: Seq<char>,
    reason: Seq<char>,
) -> Result<Seq<char>, Seq<char>>;

/// `claim_ledger::LedgerEntryBuilder::add_contradiction_candidate` and
/// `claim_ledger::serialize_entry`: the line describes what was handed in and is
/// read back as it is. It holds the digest that a verification recomputes, so
/// that it can be compacted with all that it continues; the digest itself is not
/// stated.
#[verifier::external_body]
fn build_contradiction_line(
    sequence: u64,
    previous: Option<String>,
    id: &str,
    claims: Vec<String>,
    pattern: &str,
    reason: &str,
) -> (r: Result<String, String>)
    ensures
        ({
            let named = contradiction_line(
                sequence,
                optional_text(previous),
                id@,
                texts(claims@),
                pattern@,
                reason@,
            );
            match r {
                Ok(line) => named == Ok::<Seq<char>, Seq<char>>(line@) && describes(
                    line@,
                    sequence,
                    optional_text(previous),
                    EventView::Contradiction { claims: texts(claims@) },
                ),
                Err(message) => named == Err::<Seq<char>, Seq<char>>(message@),
            }
        }),
{
    let builder = claim_ledger::LedgerEntryBuilder::new(sequence, previous);
    let entry = builder.add_contradiction_candidate(id, claims, pattern, reason);
    claim_ledger::serialize_entry(&entry.map_err(|e| e.to_string())?).map_err(|e| e.to_string())
}

/// A contradiction that is to be recorded.
pub struct PreparedContradiction {
    pub id: String,
    pub fact_a: String,
    pub fact_b: String,
    pub entry: LedgerEntry,
    /// What is appended to the ledger file.
    pub written: String,
}

/// The two claims of a contradiction.
pub open spec fn refs_of(pair: DetectedPair) -> Seq<Seq<char>> {
    Seq::empty().push(bare_id(pair.a@)).push(bare_id(pair.b@))
}

/// The line of the ledger entry for a contradiction.
pub open spec fn contradiction_line_for(store: StoreView, pair: DetectedPair) -> Result<
    Seq<char>,
    Seq<char>,
> {
    contradiction_line(
        store.next_sequence(),
        store.last_digest(),
        contradiction_identity(bare_id(pair.a@), bare_id(pair.b@), pattern_of(pair)),
        refs_of(pair),
        pattern_of(pair),
        pair.reason@,
    )
}

/// Prepares a contradiction for the ledger. The index holds both sides
/// contradicted from then on, whatever the ledger says.
pub fn prepare_contradiction(
    index: &mut ClaimTrustIndex,
    store: &ClaimLedgerStore,
    pair: &DetectedPair,
) -> (r: Result<PreparedContradiction, String>)
    ensures
        final(index)@ == old(index)@.judged(
            bare_id(pair.a@),
            SupportState::Contradicted,
        ).judged(bare_id(pair.b@), SupportState::Contradicted),
        (match r {
            Ok(prepared) => {
                &&& store@.enabled
                &&& contradiction_line_for(store@, *pair) == Ok::<Seq<char>, Seq<char>>(
                    prepared.entry@.line,
                )
                &&& prepared.id@ == contradiction_identity(
                    bare_id(pair.a@),
                    bare_id(pair.b@),
                    pattern_of(*pair),
                )
                &&& prepared.id@ == contradiction_identity(
                    bare_id(pair.b@),
                    bare_id(pair.a@),
                    pattern_of(*pair),
                )
                &&& prepared.fact_a@ == bare_id(pair.a@)
                &&& prepared.fact_b@ == bare_id(pair.b@)
                &&& well_kept(prepared.entry@)
                &&& sealed(prepared.entry@.line)
                &&& prepared.entry@.event == (EventView::Contradiction { claims: refs_of(*pair) })
                &&& store@.continued_by(prepared.entry@)
                &&& prepared.written@ == prepared.entry@.line + "\n"@
            },
            Err(message) => match contradiction_line_for(store@, *pair) {
                Err(fault) => message@ == "failed to record contradiction to ledger: "@ + fault,
                Ok(_) => !store@.enabled && message@
                    == "failed to record contradiction to ledger: "@
                    + "claim ledger is disabled after verification failure"@,
            },
        }),
{
    let fact_a = bare_fact_id(&pair.a);
    let fact_b = bare_fact_id(&pair.b);
    index.record_judgment(&fact_a, SupportState::Contradicted);
    index.record_judgment(&fact_b, SupportState::Contradicted);
    let pattern = join(&pair.signals, ",");
    let id = contradiction_id(&fact_a, &fact_b, &pattern);
    let mut refs: Vec<String> = Vec::new();
    refs.push(fact_a.clone());
    refs.push(fact_b.clone());
    assert(texts(refs@) =~= refs_of(*pair));
    let line = match build_contradiction_line(
        store.next_sequence(),
        store.last_digest(),
        &id,
        refs,
        &pattern,
        &pair.reason,
    ) {
        Ok(line) => line,
        Err(message) => {
            return Err(cat2("failed to record contradiction to ledger: ", &message));
        },
    };
    match read_entry(&line) {
        Some(entry) => match store.check_append(&entry) {
            Ok(written) => Ok(PreparedContradiction { id, fact_a, fact_b, entry, written }),
            Err(message) => Err(cat2("failed to record contradiction to ledger: ", &message)),
        },
        None => Err(String::new()),
    }
}

/// What a reply says of a contradiction that was recorded.
pub open spec fn recorded_json(
    id: Seq<char>,
    a: Seq<char>,
    b: Seq<char>,
    sequence: u64,
    digest: Seq<char>,
) -> JsonView {
    fields().put("contradiction_id"@, JsonView::Text(id)).put(
        "claim_refs"@,
        texts_json(Seq::empty().push(a).push(b)),
    ).put("sequence"@, JsonView::Unsigned(sequence)).put(
        "entry_hash"@,
        JsonView::Text(digest),
    ).object()
}

/// Records a contradiction whose entry was written. Gives what the reply says
/// of it.
pub fn record_contradiction(store: &mut ClaimLedgerStore, prepared: PreparedContradiction) -> (r:
    Json)
    requires
        old(store)@.continued_by(prepared.entry@),
    ensures
        final(store)@ == old(store)@.appended(prepared.entry@),
        old(store).valid() && well_kept(prepared.entry@) ==> final(store).valid(),
        old(store).valid() && old(store).compactable() && old(store)@.has_room() && well_kept(
            prepared.entry@,
        ) && sealed(prepared.entry@.line) ==> final(store).compactable(),
        r@ == recorded_json(
            prepared.id@,
            prepared.fact_a@,
            prepared.fact_b@,
            prepared.entry@.sequence,
            prepared.entry@.digest,
        ),
{
    let sequence: u64 = prepared.entry.sequence;
    let digest = store.append(prepared.entry);
    let mut refs: Vec<String> = Vec::new();
    refs.push(prepared.fact_a.clone());
    refs.push(prepared.fact_b.clone());
    assert(texts(refs@) =~= Seq::empty().push(prepared.fact_a@).push(prepared.fact_b@));
    Fields::new().with_text("contradiction_id", &prepared.id).with(
        "claim_refs",
        Json::from_texts(&refs),
    ).with("sequence", Json::Unsigned(sequence)).with_text("entry_hash", &digest).object()
}

/// The reply to a scan for contradictions.
pub open spec fn contradictions_reply(
    query: Seq<char>,
    scanned: nat,
    pairs: Seq<DetectedPair>,
    recorded: Seq<JsonView>,
    receipt: JsonView,
) -> JsonView {
    fields().put("ok"@, JsonView::Bool(true)).put("query"@, JsonView::Text(query)).put(
        "items_scanned"@,
        JsonView::Unsigned(scanned as u64),
    ).put(
        "contradictions"@,
        JsonView::Array(Seq::new(pairs.len(), |i: int| pair_json(pairs[i]))),
    ).put("count"@, JsonView::Unsigned(pairs.len() as u64)).put(
        "ledger_recorded"@,
        JsonView::Unsigned(recorded.len() as u64),
    ).put("ledger_entries"@, JsonView::Array(recorded)).put("receipt"@, receipt).object()
}

/// The reply to a scan for contradictions among so many results. `recorded` is
/// what was recorded in the ledger; nothing where that was not asked for.
pub fn finish_contradictions(
    query: &str,
    scanned: usize,
    pairs: &Vec<DetectedPair>,
    recorded: Vec<Json>,
    receipt: Json,
) -> (reply: Json)
    ensures
        reply@ == contradictions_reply(
            query@,
            scanned as nat,
            pairs@,
            json_views(recorded@),
            receipt@,
        ),
{
    let mut list: Vec<Json> = Vec::new();
    let mut i: usize = 0;
    while i < pairs.len()
        invariant
            i <= pairs.len(),
            list@.len() == i,
            forall|j: int| 0 <= j < i ==> (#[trigger] list@[j])@ == pair_json(pairs@[j]),
        decreases pairs.len() - i,
    {
        let pair = &pairs[i];
        list.push(
            Fields::new().with_text("a", &pair.a).with_text("b", &pair.b).with(
                "score",
                pair.score.copy(),
            ).with("signals", Json::from_texts(&pair.signals)).with_text("reason", &pair.reason).object(),
        );
        i += 1;
    }
    assert(json_views(list@) =~= Seq::new(pairs@.len(), |j: int| pair_json(pairs@[j])));
    let count: usize = recorded.len();
    Fields::new().with_bool("ok", true).with_text("query", query).with_count(
        "items_scanned",
        scanned,
    ).with("contradictions", Json::from_list(list)).with_count("count", pairs.len()).with_count(
        "ledger_recorded",
        count,
    ).with("ledger_entries", Json::from_list(recorded)).with("receipt", receipt).object()
}

/// What the ledger says of a recorded contradiction, the index knows already:
/// catching up with its entry judges both sides contradicted.
pub proof fn law_recorded_contradictions_replay(
    index: TrustView,
    pair: DetectedPair,
    entry: EntryView,
)
    requires
        entry.event == (EventView::Contradiction { claims: refs_of(pair) }),
    ensures
        index.applied(entry).support == index.judged(
            bare_id(pair.a@),
            SupportState::Contradicted,
        ).judged(bare_id(pair.b@), SupportState::Contradicted).support,
{
    let refs = refs_of(pair);
    reveal_with_fuel(TrustView::contradicted, 3);
    assert(refs.drop_last() =~= Seq::empty().push(bare_id(pair.a@)));
    assert(refs.drop_last().drop_last() =~= Seq::<Seq<char>>::empty());
}

/// A syndrome that the decoder detected.
pub struct FoundSyndrome {
    pub id: Json,
    pub severity: String,
    pub items: Vec<String>,
    pub description: String,
    pub syndrome_type: String,
}

/// A correction that the decoder computed.
pub struct FoundCorrection {
    pub id: Json,
    pub confidence: Json,
    pub cost: Json,
    pub operations: usize,
}

/// How the passing of messages ended.
pub struct MessagePassing {
    pub iterations: Json,
    pub converged: bool,
    pub elapsed_ms: Json,
}

/// A syndrome as a reply tells it.
pub open spec fn syndrome_json(s: FoundSyndrome) -> JsonView {
    fields().put("id"@, s.id@).put("severity"@, JsonView::Text(s.severity@)).put(
        "items"@,
        texts_json(texts(s.items@)),
    ).put("description"@, JsonView::Text(s.description@)).put(
        "type"@,
        JsonView::Text(s.syndrome_type@),
    ).object()
}

/// A correction as a reply tells it.
pub open spec fn correction_json(c: FoundCorrection) -> JsonView {
    fields().put("id"@, c.id@).put("confidence"@, c.confidence@).put("cost"@, c.cost@).put(
        "operations"@,
        JsonView::Unsigned(c.operations as u64),
    ).object()
}

/// The reply to an analysis by the decoder.
pub open spec fn decoder_reply(
    syndromes: Seq<FoundSyndrome>,
    corrections: Seq<FoundCorrection>,
    passing: MessagePassing,
) -> JsonView {
    fields().put("ok"@, JsonView::Bool(true)).put(
        "syndromes"@,
        JsonView::Array(Seq::new(syndromes.len(), |i: int| syndrome_json(syndromes[i]))),
    ).put("syndrome_count"@, JsonView::Unsigned(syndromes.len() as u64)).put(
        "corrections"@,
        JsonView::Array(Seq::new(corrections.len(), |i: int| correction_json(corrections[i]))),
    ).put("correction_count"@, JsonView::Unsigned(corrections.len() as u64)).put(
        "message_passing"@,
        fields().put("iterations"@, passing.iterations@).put(
            "converged"@,
            JsonView::Bool(passing.converged),
        ).put("elapsed_ms"@, passing.elapsed_ms@).object(),
    ).object()
}

/// The reply to an analysis by the decoder.
pub fn finish_decoder(
    syndromes: &Vec<FoundSyndrome>,
    corrections: &Vec<FoundCorrection>,
    passing: &MessagePassing,
) -> (reply: Json)
    ensures
        reply@ == decoder_reply(syndromes@, corrections@, *passing),
{
    let mut told: Vec<Json> = Vec::new();
    let mut i: usize = 0;
    while i < syndromes.len()
        invariant
            i <= syndromes.len(),
            told@.len() == i,
            forall|j: int| 0 <= j < i ==> (#[trigger] told@[j])@ == syndrome_json(syndromes@[j]),
        decreases syndromes.len() - i,
    {
        let s = &syndromes[i];
        told.push(
            Fields::new().with("id", s.id.copy()).with_text("severity", &s.severity).with(
                "items",
                Json::from_texts(&s.items),
            ).with_text("description", &s.description).with_text("type", &s.syndrome_type).object(),
        );
        i += 1;
    }
    assert(json_views(told@) =~= Seq::new(syndromes@.len(), |j: int| syndrome_json(syndromes@[j])));
    let mut done: Vec<Json> = Vec::new();
    let mut i: usize = 0;
    while i < corrections.len()
        invariant
            i <= corrections.len(),
            done@.len() == i,
            forall|j: int| 0 <= j < i ==> (#[trigger] done@[j])@ == correction_json(corrections@[j]),
        decreases corrections.len() - i,
    {
        let c = &corrections[i];
        done.push(
            Fields::new().with("id", c.id.copy()).with("confidence", c.confidence.copy()).with(
                "cost",
                c.cost.copy(),
            ).with_count("operations", c.operations).object(),
        );
        i += 1;
    }
    assert(json_views(done@) =~= Seq::new(
        corrections@.len(),
        |j: int| correction_json(corrections@[j]),
    ));
    Fields::new().with_bool("ok", true).with("syndromes", Json::from_list(told)).with_count(
        "syndrome_count",
        syndromes.len(),
    ).with("corrections", Json::from_list(done)).with_count(
        "correction_count",
        corrections.len(),
    ).with(
        "message_passing",
        Fields::new().with("iterations", passing.iterations.copy()).with_bool(
            "converged",
            passing.converged,
        ).with("elapsed_ms", passing.elapsed_ms.copy()).object(),
    ).object()
}

/// Bytes are found where they occur for the first time, and nowhere only if they
/// do not occur.
pub proof fn law_bytes_are_found_where_they_first_occur(bytes: Seq<u8>, part: Seq<u8>, from: int)
    requires
        0 <= from,
    ensures
        (match found_from(bytes, part, from) {
            Some(at) => {
                &&& from <= at && at + part.len() <= bytes.len()
                &&& bytes.subrange(at, at + part.len()) == part
                &&& forall|k: int|
                    from <= k < at ==> #[trigger] bytes.subrange(k, k + part.len()) != part
            },
            None => forall|k: int|
                from <= k && k + part.len() <= bytes.len() ==> #[trigger] bytes.subrange(
                    k,
                    k + part.len(),
                ) != part,
        }),
    decreases bytes.len() - from + 1,
{
    if from + part.len() <= bytes.len() && bytes.subrange(from, from + part.len()) != part {
        law_bytes_are_found_where_they_first_occur(bytes, part, from + 1);
    }
}

/// A scan tells every contradiction that was found, in its place, with the two
/// results that it is between, and counts what it found and what it recorded.
pub proof fn law_found_contradictions_are_told(
    query: Seq<char>,
    scanned: nat,
    pairs: Seq<DetectedPair>,
    recorded: Seq<JsonView>,
    receipt: JsonView,
)
    ensures
        ({
            let reply = contradictions_reply(query, scanned, pairs, recorded, receipt);
            &&& reply.member("items_scanned"@) == Some(JsonView::Unsigned(scanned as u64))
            &&& reply.member("count"@) == Some(JsonView::Unsigned(pairs.len() as u64))
            &&& reply.member("ledger_recorded"@) == Some(JsonView::Unsigned(recorded.len() as u64))
            &&& reply.member("ledger_entries"@) == Some(JsonView::Array(recorded))
            &&& reply.member("contradictions"@) matches Some(JsonView::Array(list)) && list.len()
                == pairs.len() && forall|i: int|
                0 <= i < pairs.len() ==> (#[trigger] list[i]).text_member("a"@) == Some(
                    pairs[i].a@,
                ) && list[i].text_member("b"@) == Some(pairs[i].b@) && list[i].member("score"@)
                    == Some(pairs[i].score@)
        }),
{
    assert forall|pair: DetectedPair| ({
        let told = #[trigger] pair_json(pair);
        &&& told.text_member("a"@) == Some(pair.a@)
        &&& told.text_member("b"@) == Some(pair.b@)
        &&& told.member("score"@) == Some(pair.score@)
    }) by {
        reveal_strlit("a");
        reveal_strlit("b");
        reveal_strlit("score");
        assert("a"@[0] == 'a' && "b"@[0] == 'b' && "score"@.len() == 5);
        assert("a"@.len() == 1 && "b"@.len() == 1);
        broadcast use crate::json::lemma_put_member, crate::json::lemma_no_member;

    }
    reveal_strlit("ok");
    reveal_strlit("query");
    reveal_strlit("items_scanned");
    reveal_strlit("contradictions");
    reveal_strlit("count");
    reveal_strlit("ledger_recorded");
    reveal_strlit("ledger_entries");
    assert("ok"@.len() == 2 && "query"@.len() == 5 && "query"@[0] == 'q' && "count"@[0] == 'c');
    assert("items_scanned"@.len() == 13 && "count"@.len() == 5 && "ledger_recorded"@.len() == 15);
    assert("contradictions"@.len() == 14 && "contradictions"@[0] == 'c');
    assert("ledger_entries"@.len() == 14 && "ledger_entries"@[0] == 'l');
    broadcast use crate::json::lemma_put_member, crate::json::lemma_no_member;

}

/// Both sides of a contradiction are held contradicted, and no third claim is
/// touched: a fact that is linked to either side is trusted no more, and every
/// other keeps its label.
pub proof fn law_both_sides_are_contradicted(
    index: TrustView,
    pair: DetectedPair,
    fact: Seq<char>,
)
    requires
        index.enabled,
        index.fact_to_claim.contains_key(fact),
    ensures
        ({
            let after = index.judged(bare_id(pair.a@), SupportState::Contradicted).judged(
                bare_id(pair.b@),
                SupportState::Contradicted,
            );
            let claim = index.fact_to_claim[fact];
            if claim == bare_id(pair.a@) || claim == bare_id(pair.b@) {
                after.trust(fact) == SupportState::Contradicted.label_text()
            } else {
                after.trust(fact) == index.trust(fact)
            }
        }),
{
}

/// The decoder's reply tells every syndrome and every correction, in its place,
/// and counts them.
pub proof fn law_decoder_replies_are_complete(
    syndromes: Seq<FoundSyndrome>,
    corrections: Seq<FoundCorrection>,
    passing: MessagePassing,
)
    ensures
        ({
            let reply = decoder_reply(syndromes, corrections, passing);
            &&& reply.member("syndrome_count"@) == Some(
                JsonView::Unsigned(syndromes.len() as u64),
            )
            &&& reply.member("correction_count"@) == Some(
                JsonView::Unsigned(corrections.len() as u64),
            )
            &&& reply.member("syndromes"@) matches Some(JsonView::Array(list)) && list.len()
                == syndromes.len() && forall|i: int|
                0 <= i < list.len() ==> (#[trigger] list[i]).member("id"@) == Some(syndromes[i].id@)
            &&& reply.member("corrections"@) matches Some(JsonView::Array(list)) && list.len()
                == corrections.len() && forall|i: int|
                0 <= i < list.len() ==> (#[trigger] list[i]).member("id"@) == Some(
                    corrections[i].id@,
                )
        }),
{
    assert forall|s: FoundSyndrome| (#[trigger] syndrome_json(s)).member("id"@) == Some(s.id@) by {
        broadcast use crate::json::lemma_put_member, crate::json::lemma_no_member;

    }
    assert forall|c: FoundCorrection| (#[trigger] correction_json(c)).member("id"@) == Some(
        c.id@,
    ) by {
        broadcast use crate::json::lemma_put_member, crate::json::lemma_no_member;

    }
    reveal_strlit("ok");
    reveal_strlit("syndromes");
    reveal_strlit("syndrome_count");
    reveal_strlit("corrections");
    reveal_strlit("correction_count");
    assert("ok"@.len() == 2 && "syndromes"@.len() == 9 && "syndrome_count"@.len() == 14);
    assert("corrections"@.len() == 11 && "correction_count"@.len() == 16);
    broadcast use crate::json::lemma_put_member, crate::json::lemma_no_member;

}

/// The verb of a sentence is the first of its forms that occurs, in the order
/// `is`, `are`, `was`, `were`; a sentence without any has none.
pub proof fn law_verbs_are_found_in_their_order(bytes: Seq<u8>)
    ensures
        ({
            let is = vstd::utf8::encode_utf8(" is "@);
            let are = vstd::utf8::encode_utf8(" are "@);
            let was = vstd::utf8::encode_utf8(" was "@);
            let were = vstd::utf8::encode_utf8(" were "@);
            &&& verb_in(bytes) is None <==> found_from(bytes, is, 0) is None && found_from(
                bytes,
                are,
                0,
            ) is None && found_from(bytes, was, 0) is None && found_from(bytes, were, 0) is None
            &&& found_from(bytes, is, 0) matches Some(at) ==> verb_in(bytes) == Some(
                (at, at + is.len()),
            )
            &&& verb_in(bytes) matches Some((start, end)) ==> 0 <= start <= end <= bytes.len() && (
            bytes.subrange(start, end) == is || bytes.subrange(start, end) == are || bytes.subrange(
                start,
                end,
            ) == was || bytes.subrange(start, end) == were)
        }),
{
    law_bytes_are_found_where_they_first_occur(bytes, vstd::utf8::encode_utf8(" is "@), 0);
    law_bytes_are_found_where_they_first_occur(bytes, vstd::utf8::encode_utf8(" are "@), 0);
    law_bytes_are_found_where_they_first_occur(bytes, vstd::utf8::encode_utf8(" was "@), 0);
    law_bytes_are_found_where_they_first_occur(bytes, vstd::utf8::encode_utf8(" were "@), 0);
}

/// Contradictions can always be looked for among fewer than two items.
pub proof fn law_few_items_are_comparable(items: Seq<(Seq<char>, Seq<char>)>)
    requires
        items.len() < 2,
    ensures
        comparable(items),
{
}

}
