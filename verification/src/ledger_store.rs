//! The store of the claim ledger: opening it, appending to it, and replacing
//! its older part by a checkpoint.
use claim_ledger::{CompactionPolicy, UnprojectableEventPolicy};
use crate::json::{parse_document, read_document, Fields, fields, Json, JsonView};
use crate::ledger::{
    all_entries,
    chained,
    checkpoint_of_text,
    continues_at,
    entries_of,
    entry_of_line,
    following,
    head_digest,
    head_sequence,
    law_chain_can_be_cut,
    law_chain_has_no_gaps,
    read_checkpoint,
    read_entries,
};
use crate::text::{cat2, cat3, chars_of, optional_text, same_text, text_between, texts};
use crate::trust::{
    entry_views,
    from_checkpoint,
    law_agreement_is_kept,
    law_catching_up_in_parts,
    no_trust,
    CheckpointView,
    ClaimTrustIndex,
    EntryView,
    LedgerEntry,
    SnapshotFacts,
    TrustView,
};
use vstd::prelude::*;

verus! {

/// The lines that `claim_ledger::parse_ledger_entries` finds in a ledger file,
/// each as `claim_ledger::serialize_entry` writes it, or the message of the
/// error.
pub uninterp spec fn ledger_lines(contents: Seq<char>) -> Result<Seq<Seq<char>>, Seq<char>>;

/// A line that is read back as it was written.
pub open spec fn written_line(line: Seq<char>) -> bool {
    ledger_lines(line + "\n"@) == Ok::<Seq<Seq<char>>, Seq<char>>(seq![line])
}

/// Every line is read back as it was written.
pub open spec fn all_written(lines: Seq<Seq<char>>) -> bool {
    forall|i: int| 0 <= i < lines.len() ==> written_line(#[trigger] lines[i])
}

/// An entry is kept with the line that was written for it.
pub open spec fn well_kept(entry: EntryView) -> bool {
    entry_of_line(entry.line) == Some(entry) && written_line(entry.line)
}

/// The lines of entries.
pub open spec fn lines_of(entries: Seq<EntryView>) -> Seq<Seq<char>> {
    Seq::new(entries.len(), |i: int| entries[i].line)
}

/// A ledger file: its lines, each with its end.
pub open spec fn file_of(lines: Seq<Seq<char>>) -> Seq<char>
    decreases lines.len(),
{
    if lines.len() == 0 {
        Seq::empty()
    } else {
        file_of(lines.drop_last()) + lines.last() + "\n"@
    }
}

/// `claim_ledger::parse_ledger_entries`, each entry written back by
/// `claim_ledger::serialize_entry`. What is written back describes an entry and
/// is read back as it is. Which lines are refused, and with which message, is
/// not stated.
#[verifier::external_body]
fn parse_lines(contents: &str) -> (r: Result<Vec<String>, String>)
    ensures
        (match r {
            Ok(lines) => ledger_lines(contents@) == Ok::<Seq<Seq<char>>, Seq<char>>(texts(lines@))
                && all_entries(texts(lines@)) && all_written(texts(lines@)),
            Err(message) => ledger_lines(contents@) == Err::<Seq<Seq<char>>, Seq<char>>(message@),
        }),
{
    let entries = claim_ledger::parse_ledger_entries(contents).map_err(|e| e.to_string())?;
    entries.iter().map(|e| claim_ledger::serialize_entry(e).map_err(|e| e.to_string())).collect()
}

/// What `claim_ledger::compact_ledger_from_snapshot` finds wrong with a prior
/// snapshot and the lines behind it when so many entries are to stay; nothing
/// where it compacts them.
pub uninterp spec fn compaction_fault(
    prior: Option<Seq<char>>,
    lines: Seq<Seq<char>>,
    retain: usize,
) -> Option<Seq<char>>;

/// Lines behind a prior snapshot can be compacted, however many are to stay.
pub open spec fn can_compact(prior: Option<Seq<char>>, lines: Seq<Seq<char>>) -> bool {
    forall|retain: usize| #[trigger] compaction_fault(prior, lines, retain) is None
}

/// A line continues the head of the lines behind a prior snapshot, whose number
/// is not the last one.
pub open spec fn follows(prior: Option<Seq<char>>, lines: Seq<Seq<char>>, line: Seq<char>) -> bool {
    let (sequence, digest) = match prior {
        Some(text) => match checkpoint_of_text(text) {
            Some(checkpoint) => (checkpoint.last_sequence, checkpoint.last_digest),
            None => (u64::MAX, None),
        },
        None => (0u64, None),
    };
    &&& all_entries(lines)
    &&& head_sequence(entries_of(lines), sequence) < u64::MAX
    &&& entry_of_line(line) matches Some(entry) && entry.sequence == head_sequence(
        entries_of(lines),
        sequence,
    ) + 1 && entry.previous == head_digest(entries_of(lines), digest)
}

/// A line that can be compacted with all that it continues.
pub open spec fn sealed(line: Seq<char>) -> bool {
    forall|prior: Option<Seq<char>>, lines: Seq<Seq<char>>|
        #![trigger can_compact(prior, lines.push(line))]
        can_compact(prior, lines) && follows(prior, lines, line) ==> can_compact(
            prior,
            lines.push(line),
        )
}

/// What `claim_ledger::verify_ledger` says of a ledger file and the head that
/// is expected of it: the last sequence number, or the message of the error.
pub uninterp spec fn ledger_verdict(
    contents: Seq<char>,
    head: Option<(u64, Seq<char>)>,
) -> Result<u64, Seq<char>>;

/// `claim_ledger::verify_ledger` on the entries of a ledger file. A ledger
/// that it accepts is a chain from the first sequence number on, and passes the
/// same test when it is compacted. That it also recomputes every digest is not
/// stated.
#[verifier::external_body]
fn verify_entries(contents: &str, head: &Option<(u64, String)>) -> (r: Result<u64, String>)
    ensures
        (match r {
            Ok(last) => ledger_verdict(contents@, expected_head(*head)) == Ok::<u64, Seq<char>>(last)
                && (ledger_lines(contents@) matches Ok(lines) ==> chained(
                entries_of(lines),
                0,
                None,
            ) && can_compact(None, lines)),
            Err(message) => ledger_verdict(contents@, expected_head(*head)) == Err::<
                u64,
                Seq<char>,
            >(message@),
        }),
{
    let entries = claim_ledger::parse_ledger_entries(contents).map_err(|e| e.to_string())?;
    let head = match head {
        None => claim_ledger::ExpectedLedgerHead::Empty,
        Some((sequence, digest)) => claim_ledger::ExpectedLedgerHead::new(*sequence, digest.clone()),
    };
    let verified = claim_ledger::verify_ledger(&entries, &head).map_err(|e| e.to_string())?;
    Ok(verified.last_sequence)
}

/// A head as a pair of plain values.
pub open spec fn expected_head(head: Option<(u64, String)>) -> Option<(u64, Seq<char>)> {
    match head {
        Some((sequence, digest)) => Some((sequence, digest@)),
        None => None,
    }
}

/// What `serde_json` reads in a text as a `claim_ledger::LedgerSnapshot`,
/// written back, or the message of the error.
pub uninterp spec fn snapshot_text(text: Seq<char>) -> Result<Seq<char>, Seq<char>>;

/// `serde_json` reads a `claim_ledger::LedgerSnapshot` and writes it back.
/// What is written back describes a checkpoint. Which texts are refused is not
/// stated.
#[verifier::external_body]
fn parse_snapshot(text: &str) -> (r: Result<String, String>)
    ensures
        (match r {
            Ok(written) => snapshot_text(text@) == Ok::<Seq<char>, Seq<char>>(written@)
                && checkpoint_of_text(written@) is Some,
            Err(message) => snapshot_text(text@) == Err::<Seq<char>, Seq<char>>(message@),
        }),
{
    let snapshot: claim_ledger::LedgerSnapshot = serde_json::from_str(text).map_err(
        |e| e.to_string(),
    )?;
    serde_json::to_string_pretty(&snapshot).map_err(|e| e.to_string())
}

/// What `serde_json` reads in a text as a `claim_ledger::CompactionReceipt`,
/// written back, or the message of the error.
pub uninterp spec fn receipt_text(text: Seq<char>) -> Result<Seq<char>, Seq<char>>;

/// `serde_json` reads a `claim_ledger::CompactionReceipt` and writes it back.
#[verifier::external_body]
fn parse_receipt(text: &str) -> (r: Result<String, String>)
    ensures
        (match r {
            Ok(written) => receipt_text(text@) == Ok::<Seq<char>, Seq<char>>(written@),
            Err(message) => receipt_text(text@) == Err::<Seq<char>, Seq<char>>(message@),
        }),
{
    let receipt: claim_ledger::CompactionReceipt = serde_json::from_str(text).map_err(
        |e| e.to_string(),
    )?;
    serde_json::to_string_pretty(&receipt).map_err(|e| e.to_string())
}

/// What `claim_ledger::verify_compaction` says of a snapshot, a retained tail
/// and a receipt: the last sequence number, or the message of the error.
pub uninterp spec fn compaction_verdict(
    snapshot: Seq<char>,
    tail: Seq<char>,
    receipt: Seq<char>,
) -> Result<u64, Seq<char>>;

/// `claim_ledger::verify_compaction` on a snapshot and a receipt as
/// `serde_json` writes them and on the entries of a ledger file. A tail that it
/// accepts is a chain that continues the checkpoint, and passes the same test
/// when it is compacted. That it also recomputes the digests is not stated.
#[verifier::external_body]
fn verify_tail(snapshot: &str, tail: &str, receipt: &str) -> (r: Result<u64, String>)
    ensures
        (match r {
            Ok(last) => compaction_verdict(snapshot@, tail@, receipt@) == Ok::<u64, Seq<char>>(last)
                && (ledger_lines(tail@) matches Ok(lines) ==> can_compact(Some(snapshot@), lines)
                && (checkpoint_of_text(snapshot@) matches Some(checkpoint) ==> chained(
                entries_of(lines),
                checkpoint.last_sequence,
                checkpoint.last_digest,
            ))),
            Err(message) => compaction_verdict(snapshot@, tail@, receipt@) == Err::<
                u64,
                Seq<char>,
            >(message@),
        }),
{
    let snapshot = serde_json::from_str(snapshot).map_err(|e| e.to_string())?;
    let receipt = serde_json::from_str(receipt).map_err(|e| e.to_string())?;
    let tail = claim_ledger::parse_ledger_entries(tail).map_err(|e| e.to_string())?;
    let verified = claim_ledger::verify_compaction(&snapshot, &tail, &receipt);
    verified.map(|v| v.last_sequence).map_err(|e| e.to_string())
}

/// What a compaction hands back.
pub struct Compacted {
    /// The new snapshot, as its file holds it.
    pub snapshot: String,
    pub snapshot_digest: String,
    /// The receipt, as its file holds it.
    pub receipt: String,
    pub receipt_digest: String,
    /// How many of the last entries stay in the ledger.
    pub retained: usize,
}

/// A character of a digest.
pub open spec fn hex_digit(c: char) -> bool {
    ('0' <= c && c <= '9') || ('a' <= c && c <= 'f')
}

/// A text that has the form of a SHA-256 digest.
pub open spec fn is_digest(s: Seq<char>) -> bool {
    s.len() == 64 && forall|i: int| 0 <= i < s.len() ==> hex_digit(#[trigger] s[i])
}

/// The index that entries after a checkpoint continue; without one, an index
/// that knows nothing.
pub open spec fn trust_before(checkpoint: Option<CheckpointView>) -> TrustView {
    match checkpoint {
        Some(checkpoint) => from_checkpoint(checkpoint),
        None => TrustView { enabled: true, ..no_trust() },
    }
}

/// Whether a compaction ends its checkpoint at the entry before those that it
/// retains, and the checkpoint says what the entries up to there say.
pub open spec fn sums_up(
    compacted: Compacted,
    prior: Option<CheckpointView>,
    lines: Seq<Seq<char>>,
) -> bool {
    let entries = entries_of(lines);
    let cut = lines.len() - compacted.retained;
    let (sequence, digest) = match prior {
        Some(checkpoint) => (checkpoint.last_sequence, checkpoint.last_digest),
        None => (0u64, None),
    };
    checkpoint_of_text(compacted.snapshot@) matches Some(checkpoint)
        && checkpoint.last_sequence == head_sequence(entries.subrange(0, cut), sequence)
        && checkpoint.last_digest == head_digest(entries.subrange(0, cut), digest)
        && from_checkpoint(checkpoint).agrees(trust_before(prior).caught_up(entries.subrange(0, cut)))
}

/// Whether what a compaction hands back is read back as it was written, and is
/// accepted with the lines that it retains.
pub open spec fn reads_back(compacted: Compacted, lines: Seq<Seq<char>>) -> bool {
    let kept = lines.subrange(lines.len() - compacted.retained, lines.len() as int);
    &&& snapshot_text(compacted.snapshot@) == Ok::<Seq<char>, Seq<char>>(compacted.snapshot@)
    &&& receipt_text(compacted.receipt@) == Ok::<Seq<char>, Seq<char>>(compacted.receipt@)
    &&& ledger_lines(file_of(kept)) == Ok::<Seq<Seq<char>>, Seq<char>>(kept)
    &&& compaction_verdict(compacted.snapshot@, file_of(kept), compacted.receipt@) is Ok
    &&& can_compact(Some(compacted.snapshot@), kept)
}

/// How many of the first entries a snapshot can hold: all before the first one
/// that is no claim, no judgment and no contradiction, found or resolved.
pub open spec fn holdable(entries: Seq<EntryView>) -> nat
    decreases entries.len(),
{
    if entries.len() == 0 || entries[0].event is Other {
        0
    } else {
        1 + holdable(entries.subrange(1, entries.len() as int))
    }
}

/// How many of the last entries a compaction retains: as many as are to stay,
/// and all behind what a snapshot can hold.
pub open spec fn retained_of(entries: Seq<EntryView>, retain: nat) -> nat {
    if entries.len() <= retain {
        entries.len()
    } else if holdable(entries) < entries.len() - retain {
        (entries.len() - holdable(entries)) as nat
    } else {
        retain
    }
}

/// A text that may be missing.
pub open spec fn prior_text(prior: Option<&str>) -> Option<Seq<char>> {
    match prior {
        Some(text) => Some(text@),
        None => None,
    }
}

/// `claim_ledger::compact_ledger_from_snapshot`, where an event that a snapshot
/// cannot hold stays in the ledger with all that follows. The entries are
/// handed over one by one, the prior snapshot as `serde_json` writes it. The
/// new snapshot links facts and contents to claims, and judges the claims, as
/// the prior one and the compacted entries do; it lists them in the order of
/// their keys. The snapshot and the receipt hold neither a map nor a
/// floating-point number and are read back as they were written, and
/// `claim_ledger::verify_compaction`, with which the compaction ends, accepts
/// them with the lines that stay, which are read back as they were written too
/// and can be compacted again. Whether and why the call fails depends on its
/// arguments alone. The snapshot and the receipt carry the time, so their texts
/// and digests may differ between two runs, and are not stated.
#[verifier::external_body]
fn compact_lines(prior: Option<&str>, lines: &Vec<String>, retain: usize) -> (r: Result<
    Compacted,
    String,
>)
    ensures
        (match r {
            Ok(compacted) => {
                &&& compaction_fault(prior_text(prior), texts(lines@), retain) is None
                &&& compacted.retained <= lines@.len()
                &&& is_digest(compacted.receipt_digest@)
                &&& read_document(compacted.receipt@) is Ok
                &&& all_written(texts(lines@)) ==> reads_back(compacted, texts(lines@))
                &&& all_entries(texts(lines@)) ==> compacted.retained == retained_of(
                    entries_of(texts(lines@)),
                    retain as nat,
                )
                &&& all_entries(texts(lines@)) ==> match prior {
                    Some(text) => checkpoint_of_text(text@) matches Some(checkpoint) ==> sums_up(
                        compacted,
                        Some(checkpoint),
                        texts(lines@),
                    ),
                    None => sums_up(compacted, None, texts(lines@)),
                }
            },
            Err(message) => compaction_fault(prior_text(prior), texts(lines@), retain) == Some(
                message@,
            ),
        }),
{
    let failed = |e: serde_json::Error| e.to_string();
    let prior = prior.map(serde_json::from_str).transpose().map_err(failed)?;
    let entries: Result<Vec<_>, _> = lines.iter().map(|line| serde_json::from_str(line)).collect();
    let policy = CompactionPolicy {
        retain_tail_entries: retain,
        unprojectable_events: UnprojectableEventPolicy::Retain,
    };
    let done = claim_ledger::compact_ledger_from_snapshot(prior.as_ref(), &entries.map_err(failed)?, &policy).map_err(|e| e.to_string())?;
    Ok(Compacted {
        snapshot: serde_json::to_string_pretty(&done.snapshot).map_err(failed)?,
        receipt: serde_json::to_string_pretty(&done.receipt).map_err(failed)?,
        snapshot_digest: done.snapshot.snapshot_digest,
        receipt_digest: done.receipt.receipt_digest,
        retained: done.retained_tail.len(),
    })
}

/// A checkpoint with its text.
pub struct Checkpoint {
    pub facts: SnapshotFacts,
    pub text: String,
}

/// The claim ledger as it stands. Before the first compaction `path` is the
/// legacy file; afterwards it is the retained tail of a generation. A store
/// whose ledger could not be verified is disabled.
pub struct ClaimLedgerStore {
    pub entries: Vec<LedgerEntry>,
    pub checkpoint: Option<Checkpoint>,
    pub path: String,
    pub legacy_path: String,
    pub trust_enabled: bool,
}

/// What a store holds.
#[verifier::ext_equal]
pub struct StoreView {
    pub entries: Seq<EntryView>,
    pub checkpoint: Option<CheckpointView>,
    pub path: Seq<char>,
    pub legacy_path: Seq<char>,
    pub enabled: bool,
}

impl View for ClaimLedgerStore {
    type V = StoreView;

    open spec fn view(&self) -> StoreView {
        StoreView {
            entries: entry_views(self.entries@),
            checkpoint: match self.checkpoint {
                Some(checkpoint) => Some(checkpoint.facts@),
                None => None,
            },
            path: self.path@,
            legacy_path: self.legacy_path@,
            enabled: self.trust_enabled,
        }
    }
}

impl StoreView {
    /// The sequence number that the entries continue.
    pub open spec fn anchor_sequence(self) -> u64 {
        match self.checkpoint {
            Some(checkpoint) => checkpoint.last_sequence,
            None => 0,
        }
    }

    /// The digest that the entries continue.
    pub open spec fn anchor_digest(self) -> Option<Seq<char>> {
        match self.checkpoint {
            Some(checkpoint) => checkpoint.last_digest,
            None => None,
        }
    }

    /// The sequence number of the next entry.
    pub open spec fn next_sequence(self) -> u64 {
        following(head_sequence(self.entries, self.anchor_sequence()))
    }

    /// The digest that the next entry names as the previous one.
    pub open spec fn last_digest(self) -> Option<Seq<char>> {
        head_digest(self.entries, self.anchor_digest())
    }

    /// Whether the entries form a chain that continues the checkpoint.
    pub open spec fn sound(self) -> bool {
        chained(self.entries, self.anchor_sequence(), self.anchor_digest())
    }

    /// Whether the head is not the last sequence number that there is.
    pub open spec fn has_room(self) -> bool {
        head_sequence(self.entries, self.anchor_sequence()) < u64::MAX
    }

    /// Whether an entry continues the head.
    pub open spec fn continued_by(self, entry: EntryView) -> bool {
        entry.sequence == self.next_sequence() && entry.previous == self.last_digest()
    }

    /// The store with an entry appended.
    pub open spec fn appended(self, entry: EntryView) -> StoreView {
        StoreView { entries: self.entries.push(entry), ..self }
    }

    /// The trust that the ledger gives: that of the checkpoint, caught up with
    /// the entries; none where the store is disabled.
    pub open spec fn trust(self) -> TrustView {
        if !self.enabled {
            no_trust()
        } else {
            trust_before(self.checkpoint).caught_up(self.entries)
        }
    }
}

impl ClaimLedgerStore {
    /// Whether the store is one that the ledger's operations give: its entries
    /// form a chain, each is kept with the line that describes it, and the
    /// checkpoint with its text.
    pub open spec fn valid(&self) -> bool {
        &&& self@.sound()
        &&& forall|i: int| 0 <= i < self.entries@.len() ==> well_kept((#[trigger] self.entries@[i])@)
        &&& self.checkpoint matches Some(checkpoint) ==> checkpoint_of_text(checkpoint.text@)
            == Some(checkpoint.facts@)
    }

    /// The text of the checkpoint.
    pub open spec fn checkpoint_text(&self) -> Option<Seq<char>> {
        match self.checkpoint {
            Some(checkpoint) => Some(checkpoint.text@),
            None => None,
        }
    }

    /// Whether the ledger can be compacted.
    pub open spec fn compactable(&self) -> bool {
        can_compact(self.checkpoint_text(), lines_of(self@.entries))
    }
}

/// What a file that was read holds, or why it could not be read.
pub open spec fn file_read(file: Result<String, String>) -> Result<Seq<char>, Seq<char>> {
    match file {
        Ok(contents) => Ok(contents@),
        Err(message) => Err(message@),
    }
}

/// The head of a list of entries.
pub open spec fn head_of(entries: Seq<EntryView>) -> Option<(u64, Seq<char>)> {
    if entries.len() > 0 {
        Some((entries.last().sequence, entries.last().digest))
    } else {
        None
    }
}

/// What opening a ledger file comes to.
pub open spec fn opened_file(contents: Seq<char>, path: Seq<char>) -> Result<
    StoreView,
    Seq<char>,
> {
    match ledger_lines(contents) {
        Err(message) => Err("invalid claim ledger: "@ + message),
        Ok(lines) => match ledger_verdict(contents, head_of(entries_of(lines))) {
            Err(message) => Err(message),
            Ok(_) => Ok(
                StoreView {
                    entries: entries_of(lines),
                    checkpoint: None,
                    path,
                    legacy_path: path,
                    enabled: true,
                },
            ),
        },
    }
}

/// What opening a generation comes to: its snapshot, its receipt and its
/// retained tail are read and verified in this order.
pub open spec fn opened_generation(
    snapshot: Result<Seq<char>, Seq<char>>,
    receipt: Result<Seq<char>, Seq<char>>,
    tail: Result<Seq<char>, Seq<char>>,
    tail_path: Seq<char>,
    legacy_path: Seq<char>,
) -> Result<StoreView, Seq<char>> {
    match snapshot {
        Err(message) => Err("failed to read ledger snapshot: "@ + message),
        Ok(snapshot) => match snapshot_text(snapshot) {
            Err(message) => Err("invalid ledger snapshot: "@ + message),
            Ok(snapshot) => match receipt {
                Err(message) => Err("failed to read compaction receipt: "@ + message),
                Ok(receipt) => match receipt_text(receipt) {
                    Err(message) => Err("invalid compaction receipt: "@ + message),
                    Ok(receipt) => match tail {
                        Err(message) => Err("failed to read retained ledger tail: "@ + message),
                        Ok(tail) => opened_tail(snapshot, receipt, tail, tail_path, legacy_path),
                    },
                },
            },
        },
    }
}

/// What opening a retained tail behind a snapshot comes to.
pub open spec fn opened_tail(
    snapshot: Seq<char>,
    receipt: Seq<char>,
    tail: Seq<char>,
    tail_path: Seq<char>,
    legacy_path: Seq<char>,
) -> Result<StoreView, Seq<char>> {
    match ledger_lines(tail) {
        Err(message) => Err("invalid retained ledger tail: "@ + message),
        Ok(lines) => match compaction_verdict(snapshot, tail, receipt) {
            Err(message) => Err(message),
            Ok(_) => Ok(
                StoreView {
                    entries: entries_of(lines),
                    checkpoint: checkpoint_of_text(snapshot),
                    path: tail_path,
                    legacy_path,
                    enabled: true,
                },
            ),
        },
    }
}

/// A store that is switched off.
pub open spec fn disabled_store(path: Seq<char>) -> StoreView {
    StoreView {
        entries: Seq::empty(),
        checkpoint: None,
        path,
        legacy_path: path,
        enabled: false,
    }
}

/// The entries that freshly parsed lines describe, each with its line.
fn parsed_entries(lines: &Vec<String>) -> (entries: Vec<LedgerEntry>)
    requires
        all_entries(texts(lines@)),
        all_written(texts(lines@)),
    ensures
        entry_views(entries@) == entries_of(texts(lines@)),
        lines_of(entry_views(entries@)) == texts(lines@),
        forall|i: int| 0 <= i < entries@.len() ==> well_kept((#[trigger] entries@[i])@),
{
    match read_entries(lines) {
        Some(entries) => {
            assert forall|i: int| 0 <= i < entries@.len() implies well_kept(
                (#[trigger] entries@[i])@,
            ) by {
                assert(entry_views(entries@).len() == entries_of(texts(lines@)).len());
                let line = texts(lines@)[i];
                assert(entry_views(entries@)[i] == entries_of(texts(lines@))[i]);
                assert(entry_of_line(line) is Some);
                assert(written_line(line));
            }
            assert(lines_of(entry_views(entries@)) =~= texts(lines@)) by {
                assert(entry_views(entries@).len() == entries_of(texts(lines@)).len());
                assert forall|i: int| 0 <= i < entries@.len() implies #[trigger] lines_of(
                    entry_views(entries@),
                )[i] == texts(lines@)[i] by {
                    assert(entry_of_line(texts(lines@)[i]) is Some);
                    assert(entry_views(entries@)[i] == entries_of(texts(lines@))[i]);
                }
            }
            entries
        },
        None => Vec::new(),
    }
}

impl ClaimLedgerStore {
    /// Opens the store from a ledger file that no compaction has replaced; a
    /// missing file is an empty ledger.
    pub fn open_file(file: Result<Option<String>, String>, path: &str) -> (r: Result<
        ClaimLedgerStore,
        String,
    >)
        ensures
            ({
                let expected = match file {
                    Err(message) => Err("failed to read claim ledger: "@ + message@),
                    Ok(None) => opened_file(""@, path@),
                    Ok(Some(contents)) => opened_file(contents@, path@),
                };
                match r {
                    Ok(store) => expected == Ok::<StoreView, Seq<char>>(store@) && store.valid()
                        && store.compactable(),
                    Err(message) => expected == Err::<StoreView, Seq<char>>(message@),
                }
            }),
    {
        let contents = match file {
            Err(message) => {
                return Err(cat2("failed to read claim ledger: ", &message));
            },
            Ok(None) => "".to_owned(),
            Ok(Some(contents)) => contents,
        };
        let lines = match parse_lines(&contents) {
            Ok(lines) => lines,
            Err(message) => {
                return Err(cat2("invalid claim ledger: ", &message));
            },
        };
        let entries = parsed_entries(&lines);
        let head = if entries.len() > 0 {
            let last = &entries[entries.len() - 1];
            Some((last.sequence, last.entry_digest.clone()))
        } else {
            None
        };
        assert(expected_head(head) == head_of(entry_views(entries@)));
        match verify_entries(&contents, &head) {
            Err(message) => Err(message),
            Ok(_) => Ok(
                ClaimLedgerStore {
                    entries,
                    checkpoint: None,
                    path: path.to_owned(),
                    legacy_path: path.to_owned(),
                    trust_enabled: true,
                },
            ),
        }
    }

    /// Opens the store from the files of a generation.
    pub fn open_generation(
        snapshot: Result<String, String>,
        receipt: Result<String, String>,
        tail: Result<String, String>,
        tail_path: &str,
        legacy_path: &str,
    ) -> (r: Result<ClaimLedgerStore, String>)
        ensures
            ({
                let expected = opened_generation(
                    file_read(snapshot),
                    file_read(receipt),
                    file_read(tail),
                    tail_path@,
                    legacy_path@,
                );
                match r {
                    Ok(store) => expected == Ok::<StoreView, Seq<char>>(store@) && store.valid()
                        && store.compactable(),
                    Err(message) => expected == Err::<StoreView, Seq<char>>(message@),
                }
            }),
    {
        let snapshot = match snapshot {
            Ok(text) => text,
            Err(message) => {
                return Err(cat2("failed to read ledger snapshot: ", &message));
            },
        };
        let snapshot = match parse_snapshot(&snapshot) {
            Ok(text) => text,
            Err(message) => {
                return Err(cat2("invalid ledger snapshot: ", &message));
            },
        };
        let receipt = match receipt {
            Ok(text) => text,
            Err(message) => {
                return Err(cat2("failed to read compaction receipt: ", &message));
            },
        };
        let receipt = match parse_receipt(&receipt) {
            Ok(text) => text,
            Err(message) => {
                return Err(cat2("invalid compaction receipt: ", &message));
            },
        };
        let tail = match tail {
            Ok(text) => text,
            Err(message) => {
                return Err(cat2("failed to read retained ledger tail: ", &message));
            },
        };
        let lines = match parse_lines(&tail) {
            Ok(lines) => lines,
            Err(message) => {
                return Err(cat2("invalid retained ledger tail: ", &message));
            },
        };
        let entries = parsed_entries(&lines);
        match verify_tail(&snapshot, &tail, &receipt) {
            Err(message) => Err(message),
            Ok(_) => match read_checkpoint(&snapshot) {
                Some(facts) => Ok(
                    ClaimLedgerStore {
                        entries,
                        checkpoint: Some(Checkpoint { facts, text: snapshot }),
                        path: tail_path.to_owned(),
                        legacy_path: legacy_path.to_owned(),
                        trust_enabled: true,
                    },
                ),
                None => Err(String::new()),
            },
        }
    }

    /// The store that opening gave; a disabled one where it failed.
    pub fn open(opened: Result<ClaimLedgerStore, String>, path: &str) -> (store: ClaimLedgerStore)
        ensures
            (match opened {
                Ok(store_opened) => store == store_opened,
                Err(_) => store@ == disabled_store(path@) && store.valid(),
            }),
    {
        match opened {
            Ok(store) => store,
            Err(_) => {
                let store = ClaimLedgerStore {
                    entries: Vec::new(),
                    checkpoint: None,
                    path: path.to_owned(),
                    legacy_path: path.to_owned(),
                    trust_enabled: false,
                };
                assert(store@ =~= disabled_store(path@));
                store
            },
        }
    }

    /// The sequence number of the next entry.
    pub fn next_sequence(&self) -> (sequence: u64)
        ensures
            sequence == self@.next_sequence(),
    {
        let last: u64 = if self.entries.len() > 0 {
            self.entries[self.entries.len() - 1].sequence
        } else {
            match &self.checkpoint {
                Some(checkpoint) => checkpoint.facts.last_sequence,
                None => 0,
            }
        };
        last.saturating_add(1)
    }

    /// The digest that the next entry names as the previous one.
    pub fn last_digest(&self) -> (digest: Option<String>)
        ensures
            optional_text(digest) == self@.last_digest(),
    {
        if self.entries.len() > 0 {
            Some(self.entries[self.entries.len() - 1].entry_digest.clone())
        } else {
            match &self.checkpoint {
                Some(checkpoint) => match &checkpoint.facts.last_digest {
                    Some(digest) => Some(digest.clone()),
                    None => None,
                },
                None => None,
            }
        }
    }

    /// Whether an entry may be appended: the text to write, or why not.
    pub fn check_append(&self, entry: &LedgerEntry) -> (r: Result<String, String>)
        ensures
            (match r {
                Ok(line) => self@.enabled && self@.continued_by(entry@) && line@ == entry@.line
                    + "\n"@,
                Err(message) => if !self@.enabled {
                    message@ == "claim ledger is disabled after verification failure"@
                } else {
                    !self@.continued_by(entry@) && message@
                        == "claim ledger append does not continue the verified head"@
                },
            }),
    {
        if !self.trust_enabled {
            return Err("claim ledger is disabled after verification failure".to_owned());
        }
        if entry.sequence != self.next_sequence() || !same_digest(
            &entry.previous_entry_digest,
            &self.last_digest(),
        ) {
            return Err("claim ledger append does not continue the verified head".to_owned());
        }
        Ok(cat2(&entry.line, "\n"))
    }

    /// Appends an entry that was written to the file. Gives its digest.
    pub fn append(&mut self, entry: LedgerEntry) -> (digest: String)
        requires
            old(self)@.continued_by(entry@),
        ensures
            final(self)@ == old(self)@.appended(entry@),
            digest@ == entry@.digest,
            final(self)@.sound() == old(self)@.sound(),
            old(self).valid() && well_kept(entry@) ==> final(self).valid(),
            old(self).valid() && old(self).compactable() && old(self)@.has_room() && well_kept(entry@)
                && sealed(entry@.line) ==> final(self).compactable(),
    {
        let ghost before = self@;
        let ghost prior = self.checkpoint_text();
        proof {
            if self.valid() {
                self.lemma_lines_describe_entries(lines_of(self@.entries));
            }
        }
        let digest = entry.entry_digest.clone();
        self.entries.push(entry);
        assert(self@.entries =~= before.entries.push(entry@));
        proof {
            lemma_appended_is_chained(before, entry@);
            assert(lines_of(self@.entries) =~= lines_of(before.entries).push(entry@.line));
            if old(self).valid() && before.has_room() && well_kept(entry@) {
                assert(follows(prior, lines_of(before.entries), entry@.line));
            }
        }
        digest
    }

    /// The trust that the ledger gives.
    pub fn trust_index(&self) -> (index: ClaimTrustIndex)
        ensures
            index@ == self@.trust(),
    {
        let mut index = ClaimTrustIndex::new();
        if self.trust_enabled {
            index.enable();
            if let Some(checkpoint) = &self.checkpoint {
                index.load_snapshot(&checkpoint.facts);
            }
            index.rebuild_from_ledger_incremental(&self.entries);
        }
        index
    }
}

/// Whether two digests are the same.
fn same_digest(a: &Option<String>, b: &Option<String>) -> (same: bool)
    ensures
        same == (optional_text(*a) == optional_text(*b)),
{
    match (a, b) {
        (Some(a), Some(b)) => same_text(a, b),
        (None, None) => true,
        _ => false,
    }
}

/// An entry that continues the head keeps the chain, and only then.
proof fn lemma_appended_is_chained(store: StoreView, entry: EntryView)
    requires
        store.continued_by(entry),
    ensures
        store.appended(entry).sound() == store.sound(),
{
    let longer = store.entries.push(entry);
    let n = store.entries.len() as int;
    let (sequence, digest) = (store.anchor_sequence(), store.anchor_digest());
    if store.sound() {
        assert forall|i: int| 0 <= i < longer.len() implies #[trigger] continues_at(
            longer,
            i,
            sequence,
            digest,
        ) by {
            if i < n {
                assert(continues_at(store.entries, i, sequence, digest));
            }
        }
    }
    if store.appended(entry).sound() {
        assert forall|i: int| 0 <= i < n implies #[trigger] continues_at(
            store.entries,
            i,
            sequence,
            digest,
        ) by {
            assert(continues_at(longer, i, sequence, digest));
        }
    }
}

/// Whether a path has a `..` segment that begins at `i`.
pub open spec fn parent_segment_at(path: Seq<char>, i: int) -> bool {
    &&& 0 <= i
    &&& i + 2 <= path.len()
    &&& path[i] == '.'
    &&& path[i + 1] == '.'
    &&& i == 0 || path[i - 1] == '/'
    &&& i + 2 == path.len() || path[i + 2] == '/'
}

/// Whether a path stays below the directory that it is taken from. Paths are
/// those of a Unix system, whose segments `/` alone separates.
pub open spec fn safe_path(path: Seq<char>) -> bool {
    &&& path.len() > 0 ==> path[0] != '/'
    &&& forall|i: int| !#[trigger] parent_segment_at(path, i)
}

/// Whether a path stays below the directory that it is taken from.
fn is_safe_path(path: &str) -> (safe: bool)
    ensures
        safe == safe_path(path@),
{
    let chars = chars_of(path);
    if chars.len() > 0 && chars[0] == '/' {
        return false;
    }
    let mut i: usize = 0;
    while i < chars.len()
        invariant
            i <= chars.len(),
            chars@ == path@,
            forall|j: int| 0 <= j < i ==> !#[trigger] parent_segment_at(path@, j),
        decreases chars.len() - i,
    {
        if chars.len() - i >= 2 && chars[i] == '.' && chars[i + 1] == '.' && (i == 0 || chars[i - 1]
            == '/') && (chars.len() - i == 2 || chars[i + 2] == '/') {
            assert(parent_segment_at(path@, i as int));
            return false;
        }
        i += 1;
    }
    true
}

/// The manifest that selects the active generation.
pub struct LedgerManifest {
    pub format_version: String,
    pub generation: String,
    pub snapshot_path: String,
    pub tail_path: String,
    pub receipt_path: String,
}

/// Why a manifest is refused, if it is.
pub open spec fn manifest_fault(manifest: LedgerManifest) -> Option<Seq<char>> {
    if manifest.format_version@ != "claim-ledger.active-compaction.v1"@ {
        Some("unsupported compaction manifest format "@ + manifest.format_version@)
    } else if !safe_path(manifest.snapshot_path@) {
        Some("unsafe path in compaction manifest: "@ + manifest.snapshot_path@)
    } else if !safe_path(manifest.tail_path@) {
        Some("unsafe path in compaction manifest: "@ + manifest.tail_path@)
    } else if !safe_path(manifest.receipt_path@) {
        Some("unsafe path in compaction manifest: "@ + manifest.receipt_path@)
    } else {
        None
    }
}

impl LedgerManifest {
    /// Refuses a manifest of another format, and one whose paths leave the
    /// memory directory.
    pub fn check(&self) -> (r: Result<(), String>)
        ensures
            (match r {
                Ok(_) => manifest_fault(*self) is None,
                Err(message) => manifest_fault(*self) == Some(message@),
            }),
    {
        if !same_text(&self.format_version, "claim-ledger.active-compaction.v1") {
            Err(cat2("unsupported compaction manifest format ", &self.format_version))
        } else if !is_safe_path(&self.snapshot_path) {
            Err(cat2("unsafe path in compaction manifest: ", &self.snapshot_path))
        } else if !is_safe_path(&self.tail_path) {
            Err(cat2("unsafe path in compaction manifest: ", &self.tail_path))
        } else if !is_safe_path(&self.receipt_path) {
            Err(cat2("unsafe path in compaction manifest: ", &self.receipt_path))
        } else {
            Ok(())
        }
    }

    /// The manifest of a generation.
    pub fn of_generation(generation: &str) -> (manifest: LedgerManifest)
        ensures
            manifest.format_version@ == "claim-ledger.active-compaction.v1"@,
            manifest.generation@ == generation@,
            manifest.snapshot_path@ == generation_path(generation@, "/snapshot.json"@),
            manifest.tail_path@ == generation_path(generation@, "/tail.jsonl"@),
            manifest.receipt_path@ == generation_path(generation@, "/receipt.json"@),
    {
        LedgerManifest {
            format_version: "claim-ledger.active-compaction.v1".to_owned(),
            generation: generation.to_owned(),
            snapshot_path: cat3("claim_ledger_generations/", generation, "/snapshot.json"),
            tail_path: cat3("claim_ledger_generations/", generation, "/tail.jsonl"),
            receipt_path: cat3("claim_ledger_generations/", generation, "/receipt.json"),
        }
    }
}

/// The path of a generation's file below the memory directory.
pub open spec fn generation_path(generation: Seq<char>, file: Seq<char>) -> Seq<char> {
    "claim_ledger_generations/"@ + generation + file
}

/// The manifest of a generation that is named by a digest is accepted.
pub proof fn law_own_manifest_is_accepted(manifest: LedgerManifest, generation: Seq<char>)
    requires
        forall|i: int| 0 <= i < generation.len() ==> hex_digit(#[trigger] generation[i]),
        manifest.format_version@ == "claim-ledger.active-compaction.v1"@,
        manifest.snapshot_path@ == generation_path(generation, "/snapshot.json"@),
        manifest.tail_path@ == generation_path(generation, "/tail.jsonl"@),
        manifest.receipt_path@ == generation_path(generation, "/receipt.json"@),
    ensures
        manifest_fault(manifest) is None,
{
    reveal_strlit("/snapshot.json");
    reveal_strlit("/tail.jsonl");
    reveal_strlit("/receipt.json");
    lemma_generation_path_is_safe(generation, "/snapshot.json"@);
    lemma_generation_path_is_safe(generation, "/tail.jsonl"@);
    lemma_generation_path_is_safe(generation, "/receipt.json"@);
}

/// The path of a generation's file is safe if two dots never stand side by
/// side in the file's name.
proof fn lemma_generation_path_is_safe(generation: Seq<char>, file: Seq<char>)
    requires
        forall|i: int| 0 <= i < generation.len() ==> hex_digit(#[trigger] generation[i]),
        forall|i: int|
            0 <= i < file.len() - 1 ==> !(#[trigger] file[i] == '.' && file[i + 1] == '.'),
        file.len() > 0 ==> file[0] != '.',
    ensures
        safe_path(generation_path(generation, file)),
{
    reveal_strlit("claim_ledger_generations/");
    let path = generation_path(generation, file);
    let head = "claim_ledger_generations/"@;
    let n = head.len() as int;
    let m = n + generation.len();
    assert forall|i: int| !#[trigger] parent_segment_at(path, i) by {
        if 0 <= i && i + 2 <= path.len() {
            if i < n {
                assert(path[i] == head[i]);
            } else if i < m {
                assert(path[i] == generation[i - n]);
            } else {
                assert(path[i] == file[i - m]);
                assert(path[i + 1] == file[i + 1 - m]);
            }
        }
    }
}

/// When to compact and what to keep.
#[derive(Clone, Copy, Debug)]
pub struct CompactionConfig {
    pub dry_run: bool,
    pub max_entries: usize,
    pub max_bytes: u64,
    pub retain_tail_entries: usize,
    pub max_backups: usize,
}

impl CompactionConfig {
    /// The given settings, with the defaults where one is missing: a dry run,
    /// 10 000 entries, 16 MiB, 256 retained entries, 3 backups.
    pub fn from_options(
        dry_run: Option<bool>,
        max_entries: Option<usize>,
        max_bytes: Option<u64>,
        retain_tail_entries: Option<usize>,
        max_backups: Option<usize>,
    ) -> (config: CompactionConfig)
        ensures
            config.dry_run == (match dry_run {
                Some(b) => b,
                None => true,
            }),
            config.max_entries == (match max_entries {
                Some(n) => n,
                None => 10_000,
            }),
            config.max_bytes == (match max_bytes {
                Some(n) => n,
                None => 16_777_216,
            }),
            config.retain_tail_entries == (match retain_tail_entries {
                Some(n) => n,
                None => 256,
            }),
            config.max_backups == (match max_backups {
                Some(n) => n,
                None => 3,
            }),
    {
        CompactionConfig {
            dry_run: dry_run.unwrap_or(true),
            max_entries: max_entries.unwrap_or(10_000),
            max_bytes: max_bytes.unwrap_or(16_777_216),
            retain_tail_entries: retain_tail_entries.unwrap_or(256),
            max_backups: max_backups.unwrap_or(3),
        }
    }

    /// Whether a ledger with this many entries and bytes is compacted.
    pub open spec fn exceeded(self, entries: nat, bytes: u64) -> bool {
        entries > self.max_entries || bytes > self.max_bytes
    }
}

/// The report on a ledger that is not compacted because it is small enough.
pub open spec fn unchanged_report(config: CompactionConfig, entries: nat, bytes: u64) -> JsonView {
    fields().put("ok"@, JsonView::Bool(true)).put("dry_run"@, JsonView::Bool(config.dry_run)).put(
        "compacted"@,
        JsonView::Bool(false),
    ).put("reason"@, JsonView::Text("threshold_not_exceeded"@)).put(
        "entries"@,
        JsonView::Unsigned(entries as u64),
    ).put("bytes"@, JsonView::Unsigned(bytes)).put(
        "max_entries"@,
        JsonView::Unsigned(config.max_entries as u64),
    ).put("max_bytes"@, JsonView::Unsigned(config.max_bytes)).object()
}

/// The report on a compaction, or on what one would come to.
pub open spec fn compaction_report(
    config: CompactionConfig,
    entries: nat,
    bytes: u64,
    compacted: Compacted,
    snapshot_sequence: u64,
    receipt: JsonView,
) -> JsonView {
    let checkpointed = (entries - compacted.retained) as u64;
    fields().put("ok"@, JsonView::Bool(true)).put("dry_run"@, JsonView::Bool(config.dry_run)).put(
        "compacted"@,
        JsonView::Bool(!config.dry_run && checkpointed > 0),
    ).put("entries_before"@, JsonView::Unsigned(entries as u64)).put(
        "bytes_before"@,
        JsonView::Unsigned(bytes),
    ).put("entries_checkpointed"@, JsonView::Unsigned(checkpointed)).put(
        "retained_tail_entries"@,
        JsonView::Unsigned(compacted.retained as u64),
    ).put("snapshot_sequence"@, JsonView::Unsigned(snapshot_sequence)).put(
        "snapshot_digest"@,
        JsonView::Text(compacted.snapshot_digest@),
    ).put("receipt"@, receipt).object()
}

/// A new generation that is to be written and activated.
pub struct Publication {
    pub report: Json,
    /// The name of the generation: the first 16 characters of the receipt's
    /// digest.
    pub generation: String,
    pub manifest: LedgerManifest,
    /// What the snapshot says.
    pub facts: SnapshotFacts,
    /// The files of the generation.
    pub snapshot: String,
    pub receipt: String,
    pub tail: String,
    /// How many of the last entries the tail holds.
    pub retained: usize,
}

/// What a compaction comes to.
pub enum CompactionStep {
    /// Nothing changes.
    Report(Json),
    /// The generation is written, then activated.
    Publish(Publication),
}

impl Publication {
    /// Whether the publication is what a compaction result comes to.
    pub open spec fn publishes(
        self,
        config: CompactionConfig,
        store: StoreView,
        bytes: u64,
        compacted: Compacted,
    ) -> bool {
        let n = store.entries.len() as int;
        &&& self.generation@ == compacted.receipt_digest@.subrange(0, 16)
        &&& self.manifest.format_version@ == "claim-ledger.active-compaction.v1"@
        &&& self.manifest.generation@ == self.generation@
        &&& self.manifest.snapshot_path@ == generation_path(self.generation@, "/snapshot.json"@)
        &&& self.manifest.tail_path@ == generation_path(self.generation@, "/tail.jsonl"@)
        &&& self.manifest.receipt_path@ == generation_path(self.generation@, "/receipt.json"@)
        &&& checkpoint_of_text(compacted.snapshot@) == Some(self.facts@)
        &&& self.snapshot@ == compacted.snapshot@
        &&& self.receipt@ == compacted.receipt@
        &&& self.retained == compacted.retained
        &&& self.tail@ == file_of(lines_of(store.entries.subrange(n - compacted.retained, n)))
        &&& read_document(compacted.receipt@) matches Ok(receipt) && self.report@
            == compaction_report(
            config,
            store.entries.len(),
            bytes,
            compacted,
            self.facts@.last_sequence,
            receipt,
        )
    }
}

impl StoreView {
    /// Whether a compaction result is one of this store with so many entries to
    /// stay: the checkpoint ends before those that are retained, and says what
    /// the others say.
    pub open spec fn compacts_to(self, compacted: Compacted, retain: nat) -> bool {
        let retained = retained_of(self.entries, retain) as int;
        &&& compacted.retained == retained
        &&& checkpoint_of_text(compacted.snapshot@) matches Some(checkpoint) && self.ends_before(
            checkpoint,
            retained,
        ) && self.summed_up(checkpoint, retained)
    }
}

impl Publication {
    /// Whether the ledger can be compacted again from what is published.
    pub open spec fn goes_on(self, store: StoreView) -> bool {
        let n = store.entries.len() as int;
        can_compact(Some(self.snapshot@), lines_of(store.entries.subrange(n - self.retained, n)))
    }

    /// What opening the files of the publication comes to.
    pub open spec fn reopened(self, tail_path: Seq<char>, legacy_path: Seq<char>) -> Result<
        StoreView,
        Seq<char>,
    > {
        opened_generation(
            Ok(self.snapshot@),
            Ok(self.receipt@),
            Ok(self.tail@),
            tail_path,
            legacy_path,
        )
    }

    /// Whether opening the files of the publication gives the store that its
    /// activation gives.
    pub open spec fn stands_for(self, store: StoreView) -> bool {
        forall|tail_path: Seq<char>, legacy_path: Seq<char>| #[trigger]
            self.reopened(tail_path, legacy_path) == Ok::<StoreView, Seq<char>>(
                StoreView {
                    legacy_path,
                    enabled: true,
                    ..store.compacted(self.facts@, self.retained as int, tail_path)
                },
            )
    }
}

/// `r` is what a compaction with the given result comes to: a report in a dry
/// run and where nothing leaves the ledger, else a generation to publish.
pub open spec fn comes_to(
    config: CompactionConfig,
    store: StoreView,
    bytes: u64,
    compacted: Compacted,
    r: Result<CompactionStep, String>,
) -> bool {
    match (checkpoint_of_text(compacted.snapshot@), read_document(compacted.receipt@)) {
        (Some(checkpoint), Ok(receipt)) => if config.dry_run || compacted.retained
            == store.entries.len() {
            r matches Ok(CompactionStep::Report(report)) && report@ == compaction_report(
                config,
                store.entries.len(),
                bytes,
                compacted,
                checkpoint.last_sequence,
                receipt,
            )
        } else {
            r matches Ok(CompactionStep::Publish(publication)) && publication.publishes(
                config,
                store,
                bytes,
                compacted,
            )
        },
        (None, _) => r matches Err(message) && message@ == "unreadable ledger snapshot"@,
        (Some(_), Err(fault)) => r matches Err(message) && message@ == fault,
    }
}

impl StoreView {
    /// The store after a generation was activated.
    pub open spec fn compacted(
        self,
        checkpoint: CheckpointView,
        retained: int,
        path: Seq<char>,
    ) -> StoreView {
        let n = self.entries.len() as int;
        StoreView {
            entries: self.entries.subrange(n - retained, n),
            checkpoint: Some(checkpoint),
            path,
            ..self
        }
    }

    /// Whether a checkpoint ends at the entry before the last `retained` ones.
    pub open spec fn ends_before(self, checkpoint: CheckpointView, retained: int) -> bool {
        let first = self.entries.subrange(0, self.entries.len() - retained);
        &&& checkpoint.last_sequence == head_sequence(first, self.anchor_sequence())
        &&& checkpoint.last_digest == head_digest(first, self.anchor_digest())
    }

    /// Whether a checkpoint says what the store says before the last
    /// `retained` entries.
    pub open spec fn summed_up(self, checkpoint: CheckpointView, retained: int) -> bool {
        let first = self.entries.subrange(0, self.entries.len() - retained);
        from_checkpoint(checkpoint).agrees(trust_before(self.checkpoint).caught_up(first))
    }
}

/// A compaction moves no head: what comes next has the same sequence number
/// and names the same digest, and the retained entries still form a chain.
pub proof fn law_compaction_keeps_the_head(
    store: StoreView,
    checkpoint: CheckpointView,
    retained: int,
    path: Seq<char>,
)
    requires
        0 <= retained <= store.entries.len(),
        store.ends_before(checkpoint, retained),
    ensures
        store.compacted(checkpoint, retained, path).next_sequence() == store.next_sequence(),
        store.compacted(checkpoint, retained, path).last_digest() == store.last_digest(),
        store.sound() ==> store.compacted(checkpoint, retained, path).sound(),
{
    let n = store.entries.len() as int;
    if retained == 0 {
        assert(store.entries.subrange(0, n) =~= store.entries);
    }
    if store.sound() {
        law_chain_can_be_cut(
            store.entries,
            store.anchor_sequence(),
            store.anchor_digest(),
            n - retained,
        );
    }
}

/// A compaction moves no trust: the checkpoint and the retained entries give
/// every fact the claim and the label that the whole ledger gave it.
pub proof fn law_compaction_keeps_the_trust(
    store: StoreView,
    checkpoint: CheckpointView,
    retained: int,
    path: Seq<char>,
    fact: Seq<char>,
)
    requires
        0 <= retained <= store.entries.len(),
        store.summed_up(checkpoint, retained),
    ensures
        store.compacted(checkpoint, retained, path).trust().agrees(store.trust()),
        store.compacted(checkpoint, retained, path).trust().trust(fact) == store.trust().trust(fact),
{
    let n = store.entries.len() as int;
    let first = store.entries.subrange(0, n - retained);
    let rest = store.entries.subrange(n - retained, n);
    let start = trust_before(store.checkpoint);
    assert(first + rest =~= store.entries);
    law_catching_up_in_parts(start, first, rest);
    law_agreement_is_kept(from_checkpoint(checkpoint), start.caught_up(first), rest);
}

/// A ledger that was compacted and opened again from what was published has the
/// head that it had, and gives every fact the label that it gave.
pub proof fn law_reopening_keeps_the_trust(
    store: StoreView,
    publication: Publication,
    tail_path: Seq<char>,
    legacy_path: Seq<char>,
    fact: Seq<char>,
)
    requires
        store.enabled,
        publication.retained <= store.entries.len(),
        store.ends_before(publication.facts@, publication.retained as int),
        store.summed_up(publication.facts@, publication.retained as int),
        publication.stands_for(store),
    ensures
        publication.reopened(tail_path, legacy_path) matches Ok(reopened) && {
            &&& reopened.trust().agrees(store.trust())
            &&& reopened.trust().trust(fact) == store.trust().trust(fact)
            &&& reopened.next_sequence() == store.next_sequence()
            &&& reopened.last_digest() == store.last_digest()
            &&& reopened.entries.len() == publication.retained
            &&& reopened.checkpoint is Some
        },
{
    let retained = publication.retained as int;
    law_compaction_keeps_the_head(store, publication.facts@, retained, tail_path);
    law_compaction_keeps_the_trust(store, publication.facts@, retained, tail_path, fact);
    let reopened = publication.reopened(tail_path, legacy_path)->Ok_0;
    let compacted = store.compacted(publication.facts@, retained, tail_path);
    assert(reopened.entries == compacted.entries);
    assert(reopened.checkpoint == compacted.checkpoint);
    assert(reopened.trust() == compacted.trust());
}

/// A generation whose snapshot cannot be read, or is not the one that its
/// receipt and its tail belong to, is not opened. The store is then off, and
/// says so of every fact.
pub proof fn law_altered_snapshots_switch_the_trust_off(
    snapshot: Seq<char>,
    receipt: Seq<char>,
    tail: Seq<char>,
    tail_path: Seq<char>,
    legacy_path: Seq<char>,
    fact: Seq<char>,
)
    requires
        (match (snapshot_text(snapshot), receipt_text(receipt)) {
            (Ok(snapshot), Ok(receipt)) => compaction_verdict(snapshot, tail, receipt) is Err,
            (Err(_), _) => true,
            _ => false,
        }),
    ensures
        opened_generation(Ok(snapshot), Ok(receipt), Ok(tail), tail_path, legacy_path) is Err,
        disabled_store(legacy_path).trust().trust(fact) == "trust_enrichment_disabled"@,
{
}

/// A compaction leaves exactly as many entries as are to stay, where every
/// older one is a claim, a judgment or a contradiction; and all of them where
/// there are no more.
pub proof fn law_compaction_leaves_the_configured_tail(entries: Seq<EntryView>, retain: nat)
    requires
        forall|i: int| 0 <= i < entries.len() - retain ==> !((#[trigger] entries[i]).event is Other),
    ensures
        retained_of(entries, retain) == if entries.len() <= retain {
            entries.len()
        } else {
            retain
        },
{
    if entries.len() > retain {
        lemma_holdable(entries, entries.len() - retain);
    }
}

/// A compaction never leaves fewer entries than are to stay. Where it leaves
/// more, the first one that it leaves is an event that no snapshot can hold, and
/// all before it can be held.
pub proof fn law_compaction_loses_no_event(entries: Seq<EntryView>, retain: nat)
    ensures
        retained_of(entries, retain) <= entries.len(),
        retained_of(entries, retain) >= retain || retained_of(entries, retain) == entries.len(),
        retain < retained_of(entries, retain) ==> entries[entries.len() - retained_of(
            entries,
            retain,
        )].event is Other,
        forall|i: int|
            0 <= i < entries.len() - retained_of(entries, retain) ==> !((
            #[trigger] entries[i]).event is Other),
{
    lemma_holdable_bounds(entries);
}

/// Entries that a snapshot can hold are counted.
proof fn lemma_holdable(entries: Seq<EntryView>, n: int)
    requires
        0 <= n <= entries.len(),
        forall|i: int| 0 <= i < n ==> !((#[trigger] entries[i]).event is Other),
    ensures
        holdable(entries) >= n,
    decreases n,
{
    if n > 0 {
        let rest = entries.subrange(1, entries.len() as int);
        assert(!(entries[0].event is Other));
        assert forall|i: int| 0 <= i < n - 1 implies !((#[trigger] rest[i]).event is Other) by {
            assert(rest[i] == entries[i + 1]);
        }
        lemma_holdable(rest, n - 1);
    }
}

/// The entries that are counted can be held, and the next one cannot.
proof fn lemma_holdable_bounds(entries: Seq<EntryView>)
    ensures
        holdable(entries) <= entries.len(),
        holdable(entries) < entries.len() ==> entries[holdable(entries) as int].event is Other,
        forall|i: int| 0 <= i < holdable(entries) ==> !((#[trigger] entries[i]).event is Other),
    decreases entries.len(),
{
    if entries.len() > 0 && !(entries[0].event is Other) {
        let rest = entries.subrange(1, entries.len() as int);
        lemma_holdable_bounds(rest);
        assert forall|i: int| 0 <= i < holdable(entries) implies !((
        #[trigger] entries[i]).event is Other) by {
            if i > 0 {
                assert(rest[i - 1] == entries[i]);
            }
        }
    }
}

/// The lines of the entries from `from` on, each with its end.
fn tail_file(entries: &Vec<LedgerEntry>, from: usize) -> (s: String)
    requires
        from <= entries@.len(),
    ensures
        s@ == file_of(lines_of(entry_views(entries@).subrange(from as int, entries@.len() as int))),
{
    let mut s = String::new();
    let ghost views = entry_views(entries@);
    let ghost all = lines_of(views);
    let mut i: usize = from;
    assert(all.subrange(from as int, from as int) =~= Seq::empty());
    while i < entries.len()
        invariant
            from <= i <= entries@.len(),
            views == entry_views(entries@),
            all == lines_of(views),
            s@ == file_of(all.subrange(from as int, i as int)),
        decreases entries.len() - i,
    {
        assert(all.subrange(from as int, i as int + 1).drop_last() =~= all.subrange(
            from as int,
            i as int,
        ));
        s = cat3(&s, &entries[i].line, "\n");
        i += 1;
    }
    assert(all.subrange(from as int, views.len() as int) =~= lines_of(
        views.subrange(from as int, views.len() as int),
    ));
    s
}

impl ClaimLedgerStore {
    /// The lines of the entries.
    fn lines(&self) -> (lines: Vec<String>)
        ensures
            lines@.len() == self.entries@.len(),
            forall|i: int| 0 <= i < lines@.len() ==> texts(lines@)[i] == #[trigger] self@.entries[i].line,
    {
        let mut lines: Vec<String> = Vec::new();
        let mut i: usize = 0;
        while i < self.entries.len()
            invariant
                i <= self.entries@.len(),
                lines@.len() == i,
                forall|j: int| 0 <= j < i ==> texts(lines@)[j] == #[trigger] self@.entries[j].line,
            decreases self.entries.len() - i,
        {
            let ghost before = lines@;
            lines.push(self.entries[i].line.clone());
            assert forall|j: int| 0 <= j < i + 1 implies texts(lines@)[j] == #[trigger] self@.entries[j].line by {
                if j < i {
                    assert(texts(lines@)[j] == texts(before)[j]);
                }
            }
            i += 1;
        }
        lines
    }

    /// What a compaction of this store with the given result comes to: a
    /// report in a dry run and where nothing leaves the ledger, else a
    /// generation to publish.
    pub fn plan_publication(&self, config: &CompactionConfig, bytes: u64, compacted: Compacted) -> (r:
        Result<CompactionStep, String>)
        requires
            compacted.retained <= self.entries@.len(),
            is_digest(compacted.receipt_digest@),
        ensures
            comes_to(*config, self@, bytes, compacted, r),
    {
        let facts = match read_checkpoint(&compacted.snapshot) {
            Some(facts) => facts,
            None => {
                return Err("unreadable ledger snapshot".to_owned());
            },
        };
        let receipt = match parse_document(&compacted.receipt) {
            Ok(receipt) => receipt,
            Err(message) => {
                return Err(message);
            },
        };
        let moved: usize = self.entries.len() - compacted.retained;
        let report = Fields::new().with_bool("ok", true).with_bool("dry_run", config.dry_run).with_bool(
            "compacted",
            !config.dry_run && moved > 0,
        ).with_count("entries_before", self.entries.len()).with(
            "bytes_before",
            Json::Unsigned(bytes),
        ).with_count("entries_checkpointed", moved).with_count(
            "retained_tail_entries",
            compacted.retained,
        ).with("snapshot_sequence", Json::Unsigned(facts.last_sequence)).with_text(
            "snapshot_digest",
            &compacted.snapshot_digest,
        ).with("receipt", receipt).object();
        if config.dry_run || moved == 0 {
            return Ok(CompactionStep::Report(report));
        }
        let digest = chars_of(&compacted.receipt_digest);
        let generation = text_between(&digest, 0, 16);
        let manifest = LedgerManifest::of_generation(&generation);
        let tail = tail_file(&self.entries, moved);
        Ok(
            CompactionStep::Publish(
                Publication {
                    report,
                    generation,
                    manifest,
                    facts,
                    snapshot: compacted.snapshot,
                    receipt: compacted.receipt,
                    tail,
                    retained: compacted.retained,
                },
            ),
        )
    }

    /// Compacts the ledger where it exceeds a threshold, without changing
    /// anything yet. `bytes` is the size of the ledger file.
    pub fn compact(&self, config: &CompactionConfig, bytes: u64) -> (r: Result<
        CompactionStep,
        String,
    >)
        requires
            self.valid(),
        ensures
            !self@.enabled ==> (r matches Err(message) && message@
                == "claim ledger trust is disabled; refusing compaction"@),
            self@.enabled && !config.exceeded(self.entries@.len(), bytes) ==> (r matches Ok(
                CompactionStep::Report(report),
            ) && report@ == unchanged_report(*config, self.entries@.len(), bytes)),
            self@.enabled && config.exceeded(self.entries@.len(), bytes) ==> match compaction_fault(
                self.checkpoint_text(),
                lines_of(self@.entries),
                config.retain_tail_entries,
            ) {
                Some(fault) => r matches Err(message) && message@ == fault,
                None => exists|compacted: Compacted| #[trigger]
                    comes_to(*config, self@, bytes, compacted, r) && self@.compacts_to(
                        compacted,
                        config.retain_tail_entries as nat,
                    ) && read_document(compacted.receipt@) is Ok,
            },
            self@.enabled && self.compactable() ==> r is Ok,
            self@.enabled && config.exceeded(self.entries@.len(), bytes) && r is Ok ==> (r->Ok_0
                is Publish <==> !config.dry_run && retained_of(
                self@.entries,
                config.retain_tail_entries as nat,
            ) < self.entries@.len()),
            r matches Ok(CompactionStep::Publish(publication)) ==> {
                &&& self@.enabled && config.exceeded(self.entries@.len(), bytes)
                &&& !config.dry_run
                &&& publication.retained < self.entries@.len()
                &&& publication.retained == retained_of(
                    self@.entries,
                    config.retain_tail_entries as nat,
                )
                &&& self@.ends_before(publication.facts@, publication.retained as int)
                &&& self@.summed_up(publication.facts@, publication.retained as int)
                &&& publication.stands_for(self@)
                &&& publication.goes_on(self@)
                &&& checkpoint_of_text(publication.snapshot@) == Some(publication.facts@)
                &&& manifest_fault(publication.manifest) is None
                &&& exists|compacted: Compacted|
                    #[trigger] publication.publishes(*config, self@, bytes, compacted)
            },
    {
        if !self.trust_enabled {
            return Err("claim ledger trust is disabled; refusing compaction".to_owned());
        }
        if self.entries.len() <= config.max_entries && bytes <= config.max_bytes {
            return Ok(
                CompactionStep::Report(
                    Fields::new().with_bool("ok", true).with_bool("dry_run", config.dry_run).with_bool(
                        "compacted",
                        false,
                    ).with_text("reason", "threshold_not_exceeded").with_count(
                        "entries",
                        self.entries.len(),
                    ).with("bytes", Json::Unsigned(bytes)).with_count(
                        "max_entries",
                        config.max_entries,
                    ).with("max_bytes", Json::Unsigned(config.max_bytes)).object(),
                ),
            );
        }
        let lines = self.lines();
        proof {
            self.lemma_lines_describe_entries(texts(lines@));
        }
        let prior = match &self.checkpoint {
            Some(checkpoint) => Some(checkpoint.text.as_str()),
            None => None,
        };
        let compacted = match compact_lines(prior, &lines, config.retain_tail_entries) {
            Ok(compacted) => compacted,
            Err(message) => {
                return Err(message);
            },
        };
        let ghost result = compacted;
        let r = self.plan_publication(config, bytes, compacted);
        assert(comes_to(*config, self@, bytes, result, r));
        assert(self@.compacts_to(result, config.retain_tail_entries as nat));
        proof {
            if let Ok(CompactionStep::Publish(publication)) = &r {
                assert(publication.publishes(*config, self@, bytes, result));
                let generation = publication.generation@;
                assert forall|i: int| 0 <= i < generation.len() implies hex_digit(
                    #[trigger] generation[i],
                ) by {
                    assert(hex_digit(result.receipt_digest@[i]));
                }
                law_own_manifest_is_accepted(publication.manifest, generation);
                let n = self@.entries.len() as int;
                let kept = self@.entries.subrange(n - publication.retained, n);
                let kept_lines = texts(lines@).subrange(n - publication.retained, n);
                assert(kept_lines =~= lines_of(kept));
                assert(entries_of(kept_lines) =~= kept) by {
                    assert forall|i: int| 0 <= i < kept.len() implies #[trigger] entries_of(
                        kept_lines,
                    )[i] == kept[i] by {
                        assert(entries_of(texts(lines@))[n - publication.retained + i]
                            == self@.entries[n - publication.retained + i]);
                    }
                }
            }
        }
        r
    }

    /// The lines of a valid store describe its entries.
    proof fn lemma_lines_describe_entries(&self, lines: Seq<Seq<char>>)
        requires
            self.valid(),
            lines.len() == self.entries@.len(),
            forall|i: int| 0 <= i < lines.len() ==> lines[i] == #[trigger] self@.entries[i].line,
        ensures
            all_entries(lines),
            all_written(lines),
            entries_of(lines) == self@.entries,
            lines == lines_of(self@.entries),
    {
        assert forall|i: int| 0 <= i < lines.len() implies entry_of_line(#[trigger] lines[i]) == Some(
            self@.entries[i],
        ) by {
            assert(lines[i] == self@.entries[i].line);
            assert(well_kept(self.entries@[i]@));
        }
        assert forall|i: int| 0 <= i < lines.len() implies written_line(#[trigger] lines[i]) by {
            assert(lines[i] == self@.entries[i].line);
            assert(well_kept(self.entries@[i]@));
        }
        assert(lines =~= lines_of(self@.entries));
        assert(entries_of(lines) =~= self@.entries) by {
            assert forall|i: int| 0 <= i < lines.len() implies #[trigger] entries_of(lines)[i]
                == self@.entries[i] by {
                assert(entry_of_line(lines[i]) == Some(self@.entries[i]));
            }
        }
    }

    /// Activates a generation that was written: the retained entries stay, the
    /// checkpoint stands for the others.
    pub fn activate(&mut self, publication: Publication, path: &str)
        requires
            publication.retained <= old(self).entries@.len(),
        ensures
            final(self)@ == old(self)@.compacted(
                publication.facts@,
                publication.retained as int,
                path@,
            ),
            old(self).valid() && old(self)@.ends_before(
                publication.facts@,
                publication.retained as int,
            ) && checkpoint_of_text(publication.snapshot@) == Some(publication.facts@)
                ==> final(self).valid(),
            publication.goes_on(old(self)@) ==> final(self).compactable(),
            old(self)@.summed_up(publication.facts@, publication.retained as int) ==>
                final(self)@.trust().agrees(old(self)@.trust()),
    {
        let ghost before = self@;
        let moved: usize = self.entries.len() - publication.retained;
        let retained = self.entries.split_off(moved);
        self.entries = retained;
        self.path = path.to_owned();
        proof {
            let n = before.entries.len() as int;
            assert(entry_views(self.entries@) =~= before.entries.subrange(moved as int, n));
            if before.ends_before(publication.facts@, publication.retained as int) {
                law_compaction_keeps_the_head(
                    before,
                    publication.facts@,
                    publication.retained as int,
                    path@,
                );
            }
            if before.summed_up(publication.facts@, publication.retained as int) {
                law_compaction_keeps_the_trust(
                    before,
                    publication.facts@,
                    publication.retained as int,
                    path@,
                    Seq::empty(),
                );
            }
        }
        self.checkpoint = Some(Checkpoint { facts: publication.facts, text: publication.snapshot });
        assert(self@ =~= before.compacted(publication.facts@, publication.retained as int, path@));
    }
}

/// The names other than the active one, in their order.
pub open spec fn without(names: Seq<Seq<char>>, active: Option<Seq<char>>) -> Seq<Seq<char>>
    decreases names.len(),
{
    if names.len() == 0 {
        Seq::empty()
    } else if active == Some(names.last()) {
        without(names.drop_last(), active)
    } else {
        without(names.drop_last(), active).push(names.last())
    }
}

/// The names that are removed to leave the `max` newest: of the names other
/// than the active one, given from the oldest to the newest, all but the last
/// `max`.
pub open spec fn expired(names: Seq<Seq<char>>, active: Option<Seq<char>>, max: int) -> Seq<
    Seq<char>,
> {
    let others = without(names, active);
    if others.len() > max {
        others.subrange(0, others.len() - max)
    } else {
        Seq::empty()
    }
}

/// The names that are removed to leave the `max` newest.
pub fn expired_names(names: &Vec<String>, active: Option<&str>, max: usize) -> (r: Vec<String>)
    ensures
        texts(r@) == expired(
            texts(names@),
            match active {
                Some(active) => Some(active@),
                None => None,
            },
            max as int,
        ),
{
    let ghost kept = match active {
        Some(active) => Some(active@),
        None => None,
    };
    let ghost all = texts(names@);
    let mut others: Vec<String> = Vec::new();
    let mut i: usize = 0;
    assert(all.subrange(0, 0) =~= Seq::empty());
    assert(texts(others@) =~= Seq::empty());
    while i < names.len()
        invariant
            i <= names.len(),
            all == texts(names@),
            kept == (match active {
                Some(active) => Some(active@),
                None => None,
            }),
            others@.len() <= i,
            texts(others@) == without(all.subrange(0, i as int), kept),
        decreases names.len() - i,
    {
        assert(all.subrange(0, i as int + 1).drop_last() =~= all.subrange(0, i as int));
        let skip = match active {
            Some(active) => same_text(&names[i], active),
            None => false,
        };
        let ghost before = others@;
        if !skip {
            others.push(names[i].clone());
            assert(texts(others@) =~= texts(before).push(all[i as int]));
        }
        i += 1;
    }
    assert(all.subrange(0, all.len() as int) =~= all);
    let n: usize = if others.len() > max {
        others.len() - max
    } else {
        0
    };
    let ghost before = others@;
    others.truncate(n);
    assert(texts(others@) =~= expired(all, kept, max as int));
    others
}

/// No more than `max` backups are left beside the active one, and the active
/// one is never removed.
pub proof fn law_rotation_leaves_the_newest(
    names: Seq<Seq<char>>,
    active: Option<Seq<char>>,
    max: int,
)
    requires
        0 <= max,
    ensures
        without(names, active).len() - expired(names, active, max).len() <= max,
        active is Some ==> !expired(names, active, max).contains(active->0),
    decreases names.len(),
{
    lemma_without_leaves_active(names, active);
}

/// The active name is not among the others.
proof fn lemma_without_leaves_active(names: Seq<Seq<char>>, active: Option<Seq<char>>)
    ensures
        active is Some ==> !without(names, active).contains(active->0),
    decreases names.len(),
{
    if names.len() > 0 {
        lemma_without_leaves_active(names.drop_last(), active);
    }
}

/// The index that has caught up with a chain has seen its head.
proof fn lemma_caught_up_to_head(
    start: TrustView,
    entries: Seq<EntryView>,
    digest: Option<Seq<char>>,
)
    requires
        chained(entries, start.last_sequence, digest),
        start.last_sequence + entries.len() <= u64::MAX,
    ensures
        start.caught_up(entries).last_sequence == head_sequence(entries, start.last_sequence),
    decreases entries.len(),
{
    if entries.len() > 0 {
        let n = entries.len() - 1;
        law_chain_can_be_cut(entries, start.last_sequence, digest, n);
        assert(entries.subrange(0, n) =~= entries.drop_last());
        lemma_caught_up_to_head(start, entries.drop_last(), digest);
        law_chain_has_no_gaps(entries, start.last_sequence, digest, n);
        if n > 0 {
            law_chain_has_no_gaps(entries, start.last_sequence, digest, n - 1);
        }
    }
}

/// An index that is applied every entry as it is appended is the one that a
/// restart rebuilds from the ledger.
pub proof fn law_restart_rebuilds_the_index(store: StoreView, entry: EntryView)
    requires
        store.enabled,
        store.sound(),
        store.continued_by(entry),
        store.anchor_sequence() + store.entries.len() < u64::MAX,
    ensures
        store.appended(entry).trust() == store.trust().applied(entry),
{
    let start = trust_before(store.checkpoint);
    lemma_caught_up_to_head(start, store.entries, store.anchor_digest());
    assert(store.appended(entry).entries.drop_last() =~= store.entries);
    if store.entries.len() > 0 {
        law_chain_has_no_gaps(
            store.entries,
            store.anchor_sequence(),
            store.anchor_digest(),
            store.entries.len() - 1,
        );
    }
}

/// The others are all names but the active one, in their order.
pub proof fn law_others_are_all_but_the_active(
    names: Seq<Seq<char>>,
    active: Option<Seq<char>>,
) -> (offsets: Seq<int>)
    ensures
        without(names, active).len() == offsets.len(),
        forall|n: int|
            0 <= n < offsets.len() ==> 0 <= #[trigger] offsets[n] < names.len() && without(
                names,
                active,
            )[n] == names[offsets[n]],
        forall|n: int, m: int|
            0 <= n < m < offsets.len() ==> #[trigger] offsets[n] < #[trigger] offsets[m],
        forall|i: int|
            0 <= i < names.len() ==> (offsets.contains(i) <==> Some(#[trigger] names[i]) != active),
    decreases names.len(),
{
    if names.len() == 0 {
        Seq::empty()
    } else {
        let fewer = names.drop_last();
        let last = names.len() - 1;
        let before = law_others_are_all_but_the_active(fewer, active);
        let offsets = if active == Some(names.last()) {
            before
        } else {
            before.push(last)
        };
        assert forall|n: int| 0 <= n < offsets.len() implies 0 <= #[trigger] offsets[n]
            < names.len() && without(names, active)[n] == names[offsets[n]] by {
            if n < before.len() {
                assert(before[n] == offsets[n]);
                assert(fewer[before[n]] == names[before[n]]);
            }
        }
        assert forall|n: int, m: int| 0 <= n < m < offsets.len() implies #[trigger] offsets[n]
            < #[trigger] offsets[m] by {
            assert(before[n] == offsets[n]);
            if m < before.len() {
                assert(before[m] == offsets[m]);
            }
        }
        assert forall|i: int| 0 <= i < names.len() implies (offsets.contains(i) <==> Some(
            #[trigger] names[i],
        ) != active) by {
            if i < last {
                assert(fewer[i] == names[i]);
                if before.contains(i) {
                    let n = choose|n: int| 0 <= n < before.len() && before[n] == i;
                    assert(offsets[n] == i);
                }
            }
            if offsets.contains(i) {
                let n = choose|n: int| 0 <= n < offsets.len() && offsets[n] == i;
                if n < before.len() {
                    assert(before[n] == i);
                    assert(before[n] < fewer.len());
                }
            }
            if i == last && Some(names[i]) != active {
                assert(offsets[before.len() as int] == i);
            }
        }
        offsets
    }
}

/// A rotation removes the oldest only, and no more than it has to: beside the
/// active one the newest `max` are left, or all of them where there are no more.
pub proof fn law_rotation_removes_only_the_oldest(
    names: Seq<Seq<char>>,
    active: Option<Seq<char>>,
    max: int,
)
    requires
        0 <= max,
    ensures
        ({
            let others = without(names, active);
            let removed = expired(names, active, max);
            &&& others.len() <= max ==> removed.len() == 0
            &&& others.len() > max ==> removed.len() == others.len() - max
            &&& forall|i: int| 0 <= i < removed.len() ==> #[trigger] removed[i] == others[i]
        }),
{
}

/// A path that goes up a directory anywhere, or begins at the root, is refused;
/// one without a dot, that does not begin at the root, is not.
pub proof fn law_paths_stay_below_their_directory(before: Seq<char>, behind: Seq<char>)
    ensures
        !safe_path("../"@ + behind),
        !safe_path(before + "/../"@ + behind),
        !safe_path(before + "/.."@),
        !safe_path("/"@ + behind),
        (forall|i: int| 0 <= i < before.len() ==> (#[trigger] before[i]) != '.') && (before.len() > 0
            ==> before[0] != '/') ==> safe_path(before),
{
    reveal_strlit("../");
    reveal_strlit("/../");
    reveal_strlit("/..");
    reveal_strlit("/");
    assert(parent_segment_at("../"@ + behind, 0));
    assert(parent_segment_at(before + "/../"@ + behind, before.len() as int + 1));
    assert(parent_segment_at(before + "/.."@, before.len() as int + 1));
    assert(("/"@ + behind)[0] == '/');
}

/// A manifest is accepted just where it is of the known format and all of its
/// paths stay below the memory directory.
pub proof fn law_manifests_are_checked(manifest: LedgerManifest)
    ensures
        manifest_fault(manifest) is None <==> manifest.format_version@
            == "claim-ledger.active-compaction.v1"@ && safe_path(manifest.snapshot_path@)
            && safe_path(manifest.tail_path@) && safe_path(manifest.receipt_path@),
{
}

/// A ledger is compacted where it has more entries or more bytes than allowed,
/// and a larger ledger never less readily than a smaller one.
pub proof fn law_large_ledgers_are_compacted(
    config: CompactionConfig,
    entries: nat,
    bytes: u64,
    more_entries: nat,
    more_bytes: u64,
)
    requires
        entries <= more_entries,
        bytes <= more_bytes,
    ensures
        entries > config.max_entries ==> config.exceeded(entries, bytes),
        bytes > config.max_bytes ==> config.exceeded(entries, bytes),
        entries <= config.max_entries && bytes <= config.max_bytes ==> !config.exceeded(
            entries,
            bytes,
        ),
        config.exceeded(entries, bytes) ==> config.exceeded(more_entries, more_bytes),
{
}

/// The report on a compaction accounts for every entry: those that went into the
/// checkpoint and those that stay are together as many as there were.
pub proof fn law_compaction_reports_account_for_every_entry(
    config: CompactionConfig,
    entries: u64,
    bytes: u64,
    compacted: Compacted,
    snapshot_sequence: u64,
    receipt: JsonView,
)
    requires
        compacted.retained <= entries,
    ensures
        ({
            let report = compaction_report(
                config,
                entries as nat,
                bytes,
                compacted,
                snapshot_sequence,
                receipt,
            );
            &&& report.member("entries_before"@) == Some(JsonView::Unsigned(entries))
            &&& report.member("retained_tail_entries"@) == Some(
                JsonView::Unsigned(compacted.retained as u64),
            )
            &&& report.member("entries_checkpointed"@) matches Some(JsonView::Unsigned(moved))
                && moved + compacted.retained == entries && (report.true_member("compacted"@)
                <==> !config.dry_run && moved > 0)
            &&& report.true_member("dry_run"@) <==> config.dry_run
        }),
{
    reveal_strlit("ok");
    reveal_strlit("dry_run");
    reveal_strlit("compacted");
    reveal_strlit("entries_before");
    reveal_strlit("bytes_before");
    reveal_strlit("entries_checkpointed");
    reveal_strlit("retained_tail_entries");
    assert("ok"@.len() == 2 && "dry_run"@.len() == 7 && "compacted"@.len() == 9);
    assert("entries_before"@.len() == 14 && "bytes_before"@.len() == 12);
    assert("entries_checkpointed"@.len() == 20 && "retained_tail_entries"@.len() == 21);
    broadcast use crate::json::lemma_put_member, crate::json::lemma_no_member;

}

/// Appending an entry keeps every earlier one and makes the new one the head:
/// the next entry has to name its digest and the number behind its own.
pub proof fn law_appended_entries_become_the_head(store: StoreView, entry: EntryView, i: int)
    requires
        store.continued_by(entry),
        entry.sequence < u64::MAX,
    ensures
        store.appended(entry).last_digest() == Some(entry.digest),
        store.appended(entry).next_sequence() == entry.sequence + 1,
        store.appended(entry).entries.len() == store.entries.len() + 1,
        0 <= i < store.entries.len() ==> store.appended(entry).entries[i] == store.entries[i],
        store.sound() ==> store.appended(entry).sound(),
{
    lemma_appended_is_chained(store, entry);
}

/// A store that is off trusts nothing, whatever it holds.
pub proof fn law_disabled_stores_trust_nothing(store: StoreView, fact: Seq<char>)
    requires
        !store.enabled,
    ensures
        store.trust().trust(fact) == "trust_enrichment_disabled"@,
        store.trust().fact_to_claim.dom() == Set::<Seq<char>>::empty(),
{
}

/// The file of two lists of lines is the file of the first and then that of the
/// second: appending a line leaves what is in the file.
pub proof fn law_ledger_files_grow_at_the_end(lines: Seq<Seq<char>>, more: Seq<Seq<char>>)
    ensures
        file_of(lines + more) == file_of(lines) + file_of(more),
        more.len() == 1 ==> file_of(lines + more) == file_of(lines) + more[0] + "\n"@,
    decreases more.len(),
{
    if more.len() == 0 {
        assert(lines + more =~= lines);
        assert(file_of(lines) + file_of(more) =~= file_of(lines));
    } else {
        let fewer = more.drop_last();
        law_ledger_files_grow_at_the_end(lines, fewer);
        assert((lines + more).drop_last() =~= lines + fewer);
        assert(file_of(lines + more) =~= file_of(lines) + file_of(more));
        if more.len() == 1 {
            assert(lines + fewer =~= lines);
        }
    }
}

/// A snapshot can hold just the entries before the first one that is unknown to
/// it.
pub proof fn law_snapshots_hold_known_events(entries: Seq<EntryView>)
    ensures
        holdable(entries) <= entries.len(),
        forall|i: int| 0 <= i < holdable(entries) ==> !((#[trigger] entries[i]).event is Other),
        holdable(entries) < entries.len() ==> entries[holdable(entries) as int].event is Other,
    decreases entries.len(),
{
    if entries.len() > 0 && !(entries[0].event is Other) {
        let rest = entries.subrange(1, entries.len() as int);
        law_snapshots_hold_known_events(rest);
        assert forall|i: int| 0 <= i < holdable(entries) implies !((
        #[trigger] entries[i]).event is Other) by {
            if i > 0 {
                assert(rest[i - 1] == entries[i]);
            }
        }
    }
}

/// A generation opens only where its three files are read and the snapshot, the
/// tail and the receipt agree; what opens has just the entries of the tail behind
/// the checkpoint of the snapshot, and is on.
pub proof fn law_generations_open_where_verified(
    snapshot: Result<Seq<char>, Seq<char>>,
    receipt: Result<Seq<char>, Seq<char>>,
    tail: Result<Seq<char>, Seq<char>>,
    tail_path: Seq<char>,
    legacy_path: Seq<char>,
)
    ensures
        ({
            let opened = opened_generation(snapshot, receipt, tail, tail_path, legacy_path);
            &&& opened is Ok <==> {
                &&& snapshot is Ok && snapshot_text(snapshot->Ok_0) is Ok
                &&& receipt is Ok && receipt_text(receipt->Ok_0) is Ok
                &&& tail is Ok && ledger_lines(tail->Ok_0) is Ok
                &&& compaction_verdict(
                    snapshot_text(snapshot->Ok_0)->Ok_0,
                    tail->Ok_0,
                    receipt_text(receipt->Ok_0)->Ok_0,
                ) is Ok
            }
            &&& opened matches Ok(store) ==> store.enabled && store.path == tail_path
                && store.legacy_path == legacy_path && store.entries == entries_of(
                ledger_lines(tail->Ok_0)->Ok_0,
            ) && store.checkpoint == checkpoint_of_text(snapshot_text(snapshot->Ok_0)->Ok_0)
        }),
{
}

/// A ledger file opens only where it is verified up to the head that its last
/// entry names; what opens has all of its entries, and is on.
pub proof fn law_ledger_files_open_where_verified(contents: Seq<char>, path: Seq<char>)
    ensures
        ({
            let opened = opened_file(contents, path);
            &&& opened matches Ok(store) ==> {
                let entries = entries_of(ledger_lines(contents)->Ok_0);
                &&& ledger_lines(contents) is Ok
                &&& store.entries == entries
                &&& store.enabled && store.checkpoint is None && store.path == path
                &&& entries.len() > 0 ==> ledger_verdict(
                    contents,
                    Some((entries.last().sequence, entries.last().digest)),
                ) is Ok
                &&& entries.len() == 0 ==> ledger_verdict(contents, None) is Ok
            }
            &&& ledger_lines(contents) is Err ==> opened is Err
        }),
{
}

/// What is published holds the retained entries and no others, and its files all
/// lie in the directory of the generation.
pub proof fn law_publications_hold_the_retained_tail(
    publication: Publication,
    config: CompactionConfig,
    store: StoreView,
    bytes: u64,
    compacted: Compacted,
    i: int,
)
    requires
        publication.publishes(config, store, bytes, compacted),
        compacted.retained <= store.entries.len(),
    ensures
        ({
            let n = store.entries.len() as int;
            let kept = lines_of(store.entries.subrange(n - compacted.retained, n));
            &&& publication.tail@ == file_of(kept)
            &&& kept.len() == compacted.retained
            &&& 0 <= i < kept.len() ==> kept[i] == store.entries[n - compacted.retained + i].line
        }),
        publication.manifest.tail_path@ == "claim_ledger_generations/"@ + publication.generation@
            + "/tail.jsonl"@,
        publication.manifest.snapshot_path@ == "claim_ledger_generations/"@
            + publication.generation@ + "/snapshot.json"@,
        publication.manifest.receipt_path@ == "claim_ledger_generations/"@
            + publication.generation@ + "/receipt.json"@,
{
}

/// A dry run publishes nothing, and neither does a compaction that leaves every
/// entry where it is.
pub proof fn law_dry_runs_publish_nothing(
    config: CompactionConfig,
    store: StoreView,
    bytes: u64,
    compacted: Compacted,
    r: Result<CompactionStep, String>,
)
    requires
        comes_to(config, store, bytes, compacted, r),
    ensures
        config.dry_run ==> !(r is Ok && r->Ok_0 is Publish),
        compacted.retained == store.entries.len() ==> !(r is Ok && r->Ok_0 is Publish),
        !config.dry_run && compacted.retained != store.entries.len() && checkpoint_of_text(
            compacted.snapshot@,
        ) is Some && read_document(compacted.receipt@) is Ok ==> (r matches Ok(
            CompactionStep::Publish(publication),
        ) && publication.publishes(config, store, bytes, compacted)),
{
}

/// A compaction of known events leaves as many entries as are to stay, and its
/// checkpoint ends where they begin.
pub proof fn law_compactions_keep_the_configured_tail(
    store: StoreView,
    compacted: Compacted,
    retain: nat,
)
    requires
        store.compacts_to(compacted, retain),
        forall|i: int|
            0 <= i < store.entries.len() - retain ==> !((
            #[trigger] store.entries[i]).event is Other),
    ensures
        compacted.retained == if store.entries.len() <= retain {
            store.entries.len()
        } else {
            retain
        },
        checkpoint_of_text(compacted.snapshot@) matches Some(checkpoint) && store.ends_before(
            checkpoint,
            compacted.retained as int,
        ),
{
    law_compaction_leaves_the_configured_tail(store.entries, retain);
}

/// The report on a ledger that is small enough says that nothing was compacted,
/// and tells its size and the limits.
pub proof fn law_small_ledgers_are_reported(config: CompactionConfig, entries: u64, bytes: u64)
    ensures
        ({
            let report = unchanged_report(config, entries as nat, bytes);
            &&& !report.true_member("compacted"@)
            &&& report.member("entries"@) == Some(JsonView::Unsigned(entries))
            &&& report.member("bytes"@) == Some(JsonView::Unsigned(bytes))
            &&& report.member("max_entries"@) == Some(
                JsonView::Unsigned(config.max_entries as u64),
            )
            &&& report.member("max_bytes"@) == Some(JsonView::Unsigned(config.max_bytes))
        }),
{
    reveal_strlit("ok");
    reveal_strlit("dry_run");
    reveal_strlit("compacted");
    reveal_strlit("reason");
    reveal_strlit("entries");
    reveal_strlit("bytes");
    reveal_strlit("max_entries");
    reveal_strlit("max_bytes");
    assert("ok"@.len() == 2 && "dry_run"@.len() == 7 && "compacted"@.len() == 9);
    assert("reason"@.len() == 6 && "entries"@.len() == 7 && "bytes"@.len() == 5);
    assert("max_entries"@.len() == 11 && "max_bytes"@.len() == 9 && "dry_run"@[0] == 'd');
    assert("entries"@[0] == 'e' && "compacted"@[0] == 'c' && "max_bytes"@[0] == 'm');
    broadcast use crate::json::lemma_put_member, crate::json::lemma_no_member;

}

}
