//! Claims: typed statements made from facts, the judgments of their support,
//! and the proof that they still owe.
use crate::json::{
    fields,
    optional_text_json,
    Fields,
    FieldsView,
    Json,
    JsonView,
};
use crate::ledger::{entry_of_line, read_entry};
use crate::ledger_store::{sealed, well_kept, written_line, ClaimLedgerStore, StoreView};
use crate::text::{
    cat2,
    cat3,
    decimal,
    optional_text,
    same_text,
    texts,
    to_lowercase,
    unicode_lowered,
};
use crate::trust::{
    bare_fact_id,
    bare_id,
    normalized,
    ClaimTrustIndex,
    EntryView,
    EventView,
    LedgerEntry,
    SupportState,
    TrustView,
};
use vstd::prelude::*;

verus! {

/// What a claim still owes.
#[derive(Clone, Copy, Debug, PartialEq, Eq, Structural)]
pub enum ProofDebt {
    MissingSourceBasis,
    MissingRepro,
}

/// What a claim in the given state still owes. A supported claim owes nothing,
/// an unjudged, heuristic or unsupported one a source, a contradicted one a
/// reproduction as well.
pub open spec fn debts_of(state: SupportState) -> Seq<ProofDebt> {
    match state {
        SupportState::Supported | SupportState::PartiallySupported => Seq::empty(),
        SupportState::Unknown | SupportState::HeuristicOnly | SupportState::Unsupported => seq![
            ProofDebt::MissingSourceBasis,
        ],
        SupportState::Contradicted => seq![ProofDebt::MissingSourceBasis].push(
            ProofDebt::MissingRepro,
        ),
    }
}

/// What a claim in the given state still owes.
pub fn proof_debts_for_support_state(state: SupportState) -> (debts: Vec<ProofDebt>)
    ensures
        debts@ == debts_of(state),
{
    let mut debts: Vec<ProofDebt> = Vec::new();
    match state {
        SupportState::Supported | SupportState::PartiallySupported => {},
        SupportState::Unknown | SupportState::HeuristicOnly | SupportState::Unsupported => {
            debts.push(ProofDebt::MissingSourceBasis);
        },
        SupportState::Contradicted => {
            debts.push(ProofDebt::MissingSourceBasis);
            debts.push(ProofDebt::MissingRepro);
        },
    }
    assert(debts@ =~= debts_of(state));
    debts
}

/// The weight of a debt, in millionths of a proof.
pub open spec fn debt_micros(debt: ProofDebt) -> nat {
    match debt {
        ProofDebt::MissingSourceBasis => 250_000,
        ProofDebt::MissingRepro => 150_000,
    }
}

/// The weight of debts together.
pub open spec fn total_micros(debts: Seq<ProofDebt>) -> nat
    decreases debts.len(),
{
    if debts.len() == 0 {
        0
    } else {
        total_micros(debts.drop_last()) + debt_micros(debts.last())
    }
}

/// `claim_ledger::total_proof_debt_weight`: the sum of the weights, 250 000 for
/// a missing source and 150 000 for a missing reproduction. It has to fit 64
/// bits.
#[verifier::external_body]
fn total_weight(debts: &Vec<ProofDebt>) -> (micros: u64)
    requires
        total_micros(debts@) <= u64::MAX,
    ensures
        micros == total_micros(debts@),
{
    let debts: Vec<claim_ledger::ProofDebt> = debts.iter().map(|debt| match debt {
        ProofDebt::MissingSourceBasis => claim_ledger::ProofDebt::MissingSourceBasis,
        ProofDebt::MissingRepro => claim_ledger::ProofDebt::MissingRepro,
    }).collect();
    claim_ledger::total_proof_debt_weight(&debts)
}

/// What the debt policy decides.
#[derive(Clone, Copy, Debug, PartialEq, Eq, Structural)]
pub enum GateDecision {
    Proceed,
    Warn,
    Degrade,
    Retract,
    Waived,
}

impl GateDecision {
    /// The name of the decision in replies.
    pub open spec fn text(self) -> Seq<char> {
        match self {
            GateDecision::Proceed => "proceed"@,
            GateDecision::Warn => "warn"@,
            GateDecision::Degrade => "degrade"@,
            GateDecision::Retract => "retract"@,
            GateDecision::Waived => "waived"@,
        }
    }

    /// The name of the decision in replies.
    pub fn name(self) -> (s: &'static str)
        ensures
            s@ == self.text(),
    {
        match self {
            GateDecision::Proceed => "proceed",
            GateDecision::Warn => "warn",
            GateDecision::Degrade => "degrade",
            GateDecision::Retract => "retract",
            GateDecision::Waived => "waived",
        }
    }
}

/// What the debt policy says of debts against a budget.
pub struct Gate {
    pub consumed_pct: u64,
    pub exhausted: bool,
    pub decision: GateDecision,
    pub summary: String,
    pub debit_count: usize,
}

/// The share of a budget that is consumed, in percent; all of an empty budget.
pub open spec fn consumed_percent(consumed: nat, budget: u64) -> u64 {
    if budget == 0 {
        100
    } else {
        let percent = consumed * 100 / (budget as nat);
        if percent > u64::MAX {
            u64::MAX
        } else {
            percent as u64
        }
    }
}

/// The decision at a share of the budget.
pub open spec fn decision_at(percent: u64) -> GateDecision {
    if percent >= 120 {
        GateDecision::Retract
    } else if percent >= 100 {
        GateDecision::Degrade
    } else if percent >= 80 {
        GateDecision::Warn
    } else {
        GateDecision::Proceed
    }
}

/// The summary of what the debt policy decides.
pub open spec fn gate_summary(percent: u64, consumed: nat, budget: u64) -> Seq<char> {
    (match decision_at(percent) {
        GateDecision::Retract => "proof debt severely overdrawn: "@,
        GateDecision::Degrade => "proof debt exhausted: "@,
        GateDecision::Warn => "proof debt warning: "@,
        _ => "proof debt ok: "@,
    }) + decimal(percent as nat) + "% consumed ("@ + decimal(consumed) + " / "@ + decimal(
        budget as nat,
    ) + " micros)"@
}

/// `claim_ledger::budget_for_claim` followed by
/// `claim_ledger::evaluate_proof_debt_gate_with_config` with the default
/// configuration: every debt is charged against the budget, and the share that
/// is consumed decides, at 80, 100 and 120 percent.
#[verifier::external_body]
fn evaluate_gate(scope: &str, debts: &Vec<ProofDebt>, budget: u64) -> (gate: Gate)
    requires
        total_micros(debts@) <= u64::MAX,
    ensures
        gate.consumed_pct == consumed_percent(total_micros(debts@), budget),
        gate.exhausted == (total_micros(debts@) >= budget),
        gate.decision == decision_at(gate.consumed_pct),
        gate.debit_count == debts@.len(),
        gate.summary@ == gate_summary(gate.consumed_pct, total_micros(debts@), budget),
{
    let debts: Vec<claim_ledger::ProofDebt> = debts.iter().map(|debt| match debt {
        ProofDebt::MissingSourceBasis => claim_ledger::ProofDebt::MissingSourceBasis,
        ProofDebt::MissingRepro => claim_ledger::ProofDebt::MissingRepro,
    }).collect();
    let (budget, debits) = claim_ledger::budget_for_claim(scope, &debts, budget);
    let gate = claim_ledger::evaluate_proof_debt_gate_with_config(&budget, &Default::default());
    let decision = match gate.decision {
        claim_ledger::ProofDebtGateDecision::Proceed => GateDecision::Proceed,
        claim_ledger::ProofDebtGateDecision::Warn => GateDecision::Warn,
        claim_ledger::ProofDebtGateDecision::Degrade => GateDecision::Degrade,
        claim_ledger::ProofDebtGateDecision::Retract => GateDecision::Retract,
        claim_ledger::ProofDebtGateDecision::Waived => GateDecision::Waived,
    };
    Gate { consumed_pct: gate.consumed_pct, exhausted: gate.exhausted, decision, summary: gate.summary, debit_count: debits.len() }
}

/// A contradicted claim owes strictly more than a claim in any other state.
pub proof fn law_contradicted_claims_owe_most(state: SupportState)
    requires
        state != SupportState::Contradicted,
    ensures
        total_micros(debts_of(state)) < total_micros(debts_of(SupportState::Contradicted)),
{
    reveal_with_fuel(total_micros, 3);
    let worst = debts_of(SupportState::Contradicted);
    assert(worst.drop_last() =~= seq![ProofDebt::MissingSourceBasis]);
    assert(worst.drop_last().drop_last() =~= Seq::empty());
    let least = seq![ProofDebt::MissingSourceBasis];
    assert(least.drop_last() =~= Seq::empty());
}

/// The claim of a search result, where it has one.
pub open spec fn claim_of_result(index: TrustView, id: Seq<char>) -> Option<Seq<char>> {
    if index.enabled && index.fact_to_claim.contains_key(bare_id(id)) {
        Some(index.fact_to_claim[bare_id(id)])
    } else {
        None
    }
}

/// What a search result still owes: nothing where it has no claim; its claim
/// counts as unknown where nothing was judged.
pub open spec fn debts_of_result(index: TrustView, id: Seq<char>) -> Seq<ProofDebt> {
    match claim_of_result(index, id) {
        None => Seq::empty(),
        Some(claim) => debts_of(
            if index.support.contains_key(claim) {
                index.support[claim]
            } else {
                SupportState::Unknown
            },
        ),
    }
}

/// What search results owe together, in their order.
pub open spec fn debts_of_results(index: TrustView, ids: Seq<Seq<char>>) -> Seq<ProofDebt>
    decreases ids.len(),
{
    if ids.len() == 0 {
        Seq::empty()
    } else {
        debts_of_results(index, ids.drop_last()) + debts_of_result(index, ids.last())
    }
}

/// How many search results owe anything.
pub open spec fn indebted(index: TrustView, ids: Seq<Seq<char>>) -> nat
    decreases ids.len(),
{
    if ids.len() == 0 {
        0
    } else {
        indebted(index, ids.drop_last()) + (if debts_of_result(index, ids.last()).len() > 0 {
            1nat
        } else {
            0nat
        })
    }
}

/// What a reply says of a search result's debt.
pub open spec fn debt_json(index: TrustView, id: Seq<char>) -> JsonView {
    fields().put("fact_id"@, JsonView::Text(id)).put(
        "claim_id"@,
        optional_text_json(claim_of_result(index, id)),
    ).put("trust"@, JsonView::Text(index.trust(bare_id(id)))).put(
        "debt_micros"@,
        JsonView::Unsigned(total_micros(debts_of_result(index, id)) as u64),
    ).object()
}

/// The reply to a search with its proof debt.
pub open spec fn proof_debt_reply(
    query: Seq<char>,
    index: TrustView,
    ids: Seq<Seq<char>>,
    budget: u64,
    receipt: JsonView,
) -> JsonView {
    let total = total_micros(debts_of_results(index, ids));
    let percent = consumed_percent(total, budget);
    fields().put("ok"@, JsonView::Bool(true)).put("query"@, JsonView::Text(query)).put(
        "results"@,
        JsonView::Array(Seq::new(ids.len(), |i: int| debt_json(index, ids[i]))),
    ).put("count"@, JsonView::Unsigned(ids.len() as u64)).put(
        "proof_debt"@,
        fields().put("total_debt_micros"@, JsonView::Unsigned(total as u64)).put(
            "unsupported_count"@,
            JsonView::Unsigned(indebted(index, ids) as u64),
        ).put("budget_micros"@, JsonView::Unsigned(budget)).put(
            "consumed_pct"@,
            JsonView::Unsigned(percent),
        ).put("exhausted"@, JsonView::Bool(total >= budget)).put(
            "gate_decision"@,
            JsonView::Text(decision_at(percent).text()),
        ).put("gate_summary"@, JsonView::Text(gate_summary(percent, total, budget))).put(
            "debit_count"@,
            JsonView::Unsigned(debts_of_results(index, ids).len() as u64),
        ).object(),
    ).put("receipt"@, receipt).object()
}

/// The weight of what a single result owes.
proof fn lemma_result_debt_bound(index: TrustView, id: Seq<char>)
    ensures
        debts_of_result(index, id).len() <= 2,
        total_micros(debts_of_result(index, id)) <= 400_000,
{
    let debts = debts_of_result(index, id);
    reveal_with_fuel(total_micros, 3);
    if debts.len() == 2 {
        assert(debts.drop_last().drop_last() =~= Seq::empty());
    } else if debts.len() == 1 {
        assert(debts.drop_last() =~= Seq::empty());
    }
}

/// The weight of two lists of debts is the sum of their weights.
proof fn lemma_total_of_sum(a: Seq<ProofDebt>, b: Seq<ProofDebt>)
    ensures
        total_micros(a + b) == total_micros(a) + total_micros(b),
    decreases b.len(),
{
    if b.len() == 0 {
        assert(a + b =~= a);
    } else {
        lemma_total_of_sum(a, b.drop_last());
        assert((a + b).drop_last() =~= a + b.drop_last());
    }
}

/// The weight of what results owe together, and how many owe.
proof fn lemma_results_debt_bound(index: TrustView, ids: Seq<Seq<char>>)
    ensures
        total_micros(debts_of_results(index, ids)) <= 400_000 * ids.len(),
        debts_of_results(index, ids).len() <= 2 * ids.len(),
        indebted(index, ids) <= ids.len(),
    decreases ids.len(),
{
    if ids.len() > 0 {
        lemma_results_debt_bound(index, ids.drop_last());
        lemma_result_debt_bound(index, ids.last());
        lemma_total_of_sum(
            debts_of_results(index, ids.drop_last()),
            debts_of_result(index, ids.last()),
        );
    }
}

/// What a search result owes, with its claim.
fn result_debts(index: &ClaimTrustIndex, id: &str) -> (r: (Option<String>, Vec<ProofDebt>))
    ensures
        optional_text(r.0) == claim_of_result(index@, id@),
        r.1@ == debts_of_result(index@, id@),
{
    match index.claim_and_state_for_fact(&bare_fact_id(id)) {
        Some((claim, state)) => {
            let state = match state {
                Some(state) => state,
                None => SupportState::Unknown,
            };
            (Some(claim), proof_debts_for_support_state(state))
        },
        None => {
            let debts: Vec<ProofDebt> = Vec::new();
            assert(debts@ =~= Seq::empty());
            (None, debts)
        },
    }
}

/// The budget that a search is held against where none is given.
pub const DEFAULT_BUDGET_MICROS: u64 = 500_000;

/// The reply to a search with its proof debt: what each result owes, what they
/// owe together, and what the debt policy decides. Four tenths of a proof for every
/// result have to fit 64 bits.
pub fn finish_search_proof_debt(
    query: &str,
    index: &ClaimTrustIndex,
    ids: &Vec<String>,
    budget_micros: Option<u64>,
    receipt: Json,
) -> (reply: Json)
    requires
        400_000 * ids@.len() <= u64::MAX,
    ensures
        reply@ == proof_debt_reply(
            query@,
            index@,
            texts(ids@),
            match budget_micros {
                Some(n) => n,
                None => DEFAULT_BUDGET_MICROS,
            },
            receipt@,
        ),
{
    let budget: u64 = match budget_micros {
        Some(n) => n,
        None => DEFAULT_BUDGET_MICROS,
    };
    let ghost all = texts(ids@);
    let mut all_debts: Vec<ProofDebt> = Vec::new();
    let mut unsupported: usize = 0;
    let mut results: Vec<Json> = Vec::new();
    let mut i: usize = 0;
    assert(all.subrange(0, 0) =~= Seq::empty());
    assert(all_debts@ =~= Seq::empty());
    while i < ids.len()
        invariant
            i <= ids.len(),
            all == texts(ids@),
            400_000 * ids@.len() <= u64::MAX,
            all_debts@ == debts_of_results(index@, all.subrange(0, i as int)),
            unsupported == indebted(index@, all.subrange(0, i as int)),
            unsupported <= i,
            results@.len() == i,
            forall|j: int| 0 <= j < i ==> (#[trigger] results@[j])@ == debt_json(index@, all[j]),
        decreases ids.len() - i,
    {
        assert(all.subrange(0, i as int + 1).drop_last() =~= all.subrange(0, i as int));
        let (claim, mut debts) = result_debts(index, &ids[i]);
        proof {
            lemma_result_debt_bound(index@, all[i as int]);
        }
        if debts.len() > 0 {
            unsupported += 1;
        }
        let micros: u64 = total_weight(&debts);
        all_debts.append(&mut debts);
        results.push(
            Fields::new().with_text("fact_id", &ids[i]).with(
                "claim_id",
                Json::from_optional_text(&claim),
            ).with_text("trust", &index.trust_for_fact(&bare_fact_id(&ids[i]))).with(
                "debt_micros",
                Json::Unsigned(micros),
            ).object(),
        );
        i += 1;
    }
    assert(all.subrange(0, all.len() as int) =~= all);
    proof {
        lemma_results_debt_bound(index@, all);
    }
    let total: u64 = total_weight(&all_debts);
    let gate = evaluate_gate("sm_search_proof_debt", &all_debts, budget);
    let debt = Fields::new().with("total_debt_micros", Json::Unsigned(total)).with_count(
        "unsupported_count",
        unsupported,
    ).with("budget_micros", Json::Unsigned(budget)).with(
        "consumed_pct",
        Json::Unsigned(gate.consumed_pct),
    ).with_bool("exhausted", gate.exhausted).with_text("gate_decision", gate.decision.name()).with_text(
        "gate_summary",
        &gate.summary,
    ).with_count("debit_count", gate.debit_count).object();
    let list = Json::from_list(results);
    assert(list@->Array_0 =~= Seq::new(all.len(), |j: int| debt_json(index@, all[j])));
    Fields::new().with_bool("ok", true).with_text("query", query).with("results", list).with_count(
        "count",
        ids.len(),
    ).with("proof_debt", debt).with("receipt", receipt).object()
}

/// Results without a claim carry no debt: where none has one, nothing is owed,
/// and the debt policy lets a search with a budget proceed.
pub proof fn law_unclaimed_results_owe_nothing(index: TrustView, ids: Seq<Seq<char>>, budget: u64)
    requires
        forall|i: int| 0 <= i < ids.len() ==> claim_of_result(index, #[trigger] ids[i]) is None,
        budget > 0,
    ensures
        total_micros(debts_of_results(index, ids)) == 0,
        indebted(index, ids) == 0,
        decision_at(consumed_percent(0, budget)) == GateDecision::Proceed,
    decreases ids.len(),
{
    assert(0nat * 100 / (budget as nat) == 0) by (nonlinear_arith)
        requires
            budget > 0,
    ;
    if ids.len() > 0 {
        let before = ids.drop_last();
        assert forall|i: int| 0 <= i < before.len() implies claim_of_result(
            index,
            #[trigger] before[i],
        ) is None by {
            assert(before[i] == ids[i]);
        }
        law_unclaimed_results_owe_nothing(index, before, budget);
        assert(claim_of_result(index, ids[ids.len() - 1]) is None);
        assert(debts_of_results(index, ids) =~= debts_of_results(index, before));
    }
}

/// How often a label occurs.
pub open spec fn tally(labels: Seq<Seq<char>>, label: Seq<char>) -> nat
    decreases labels.len(),
{
    if labels.len() == 0 {
        0
    } else {
        tally(labels.drop_last(), label) + (if labels.last() == label {
            1nat
        } else {
            0nat
        })
    }
}

/// The trust labels of search results.
pub open spec fn labels_of(index: TrustView, ids: Seq<Seq<char>>) -> Seq<Seq<char>> {
    Seq::new(ids.len(), |i: int| index.trust(bare_id(ids[i])))
}

/// The fields with one more that counts a label; a label that does not occur
/// is left out unless it is wanted in any case.
pub open spec fn counted(
    list: FieldsView,
    labels: Seq<Seq<char>>,
    label: Seq<char>,
    always: bool,
) -> FieldsView {
    if always || tally(labels, label) > 0 {
        list.put(label, JsonView::Unsigned(tally(labels, label) as u64))
    } else {
        list
    }
}

/// How often each label occurs. The labels of an index that is on are listed in
/// any case where `always` is given, all others only where they occur.
pub open spec fn distribution(labels: Seq<Seq<char>>, always: bool) -> JsonView {
    let list = counted(fields(), labels, "contradicted"@, always);
    let list = counted(list, labels, "heuristic_only"@, always);
    let list = counted(list, labels, "partially_supported"@, always);
    let list = counted(list, labels, "persisted_unjudged"@, always);
    let list = counted(list, labels, "supported"@, always);
    let list = counted(list, labels, "trust_enrichment_disabled"@, false);
    counted(list, labels, "unsupported"@, always).object()
}

/// How many labels tell a judgment: all but the heuristic and the unjudged.
pub open spec fn judged_count(labels: Seq<Seq<char>>) -> nat {
    tally(labels, "supported"@) + tally(labels, "partially_supported"@) + tally(
        labels,
        "contradicted"@,
    ) + tally(labels, "unsupported"@)
}

/// How often a label occurs.
fn count_label(labels: &Vec<String>, label: &str) -> (n: usize)
    ensures
        n == tally(texts(labels@), label@),
        n <= labels@.len(),
{
    let ghost all = texts(labels@);
    let mut n: usize = 0;
    let mut i: usize = 0;
    assert(all.subrange(0, 0) =~= Seq::empty());
    while i < labels.len()
        invariant
            i <= labels.len(),
            n <= i,
            all == texts(labels@),
            n == tally(all.subrange(0, i as int), label@),
        decreases labels.len() - i,
    {
        assert(all.subrange(0, i as int + 1).drop_last() =~= all.subrange(0, i as int));
        if same_text(&labels[i], label) {
            n += 1;
        }
        i += 1;
    }
    assert(all.subrange(0, all.len() as int) =~= all);
    n
}

/// The fields with one more that counts a label.
fn with_tally(list: Fields, labels: &Vec<String>, label: &str, always: bool) -> (r: Fields)
    ensures
        r@ == counted(list@, texts(labels@), label@, always),
{
    let n: usize = count_label(labels, label);
    if always || n > 0 {
        list.with_count(label, n)
    } else {
        list
    }
}

/// How often each label occurs.
fn trust_distribution(labels: &Vec<String>, always: bool) -> (document: Json)
    ensures
        document@ == distribution(texts(labels@), always),
{
    let list = with_tally(Fields::new(), labels, "contradicted", always);
    let list = with_tally(list, labels, "heuristic_only", always);
    let list = with_tally(list, labels, "partially_supported", always);
    let list = with_tally(list, labels, "persisted_unjudged", always);
    let list = with_tally(list, labels, "supported", always);
    let list = with_tally(list, labels, "trust_enrichment_disabled", false);
    with_tally(list, labels, "unsupported", always).object()
}

/// The trust labels of search results.
fn trust_labels(index: &ClaimTrustIndex, ids: &Vec<String>) -> (labels: Vec<String>)
    ensures
        texts(labels@) == labels_of(index@, texts(ids@)),
{
    let mut labels: Vec<String> = Vec::new();
    let mut i: usize = 0;
    while i < ids.len()
        invariant
            i <= ids.len(),
            labels@.len() == i,
            forall|j: int|
                0 <= j < i ==> (#[trigger] labels@[j])@ == index@.trust(bare_id(ids@[j]@)),
        decreases ids.len() - i,
    {
        labels.push(index.trust_for_fact(&bare_fact_id(&ids[i])));
        i += 1;
    }
    assert(texts(labels@) =~= labels_of(index@, texts(ids@)));
    labels
}

/// A query of a trust benchmark with the results that it found.
pub struct BenchmarkQuery {
    pub query: String,
    pub result_ids: Vec<String>,
}

/// The labels of all results of a benchmark, query by query.
pub open spec fn benchmark_labels(index: TrustView, queries: Seq<BenchmarkQuery>) -> Seq<Seq<char>>
    decreases queries.len(),
{
    if queries.len() == 0 {
        Seq::empty()
    } else {
        benchmark_labels(index, queries.drop_last()) + labels_of(
            index,
            texts(queries.last().result_ids@),
        )
    }
}

/// What a reply says of one query of a benchmark.
pub open spec fn benchmark_query_json(index: TrustView, query: BenchmarkQuery) -> JsonView {
    fields().put("query"@, JsonView::Text(query.query@)).put(
        "result_count"@,
        JsonView::Unsigned(query.result_ids@.len() as u64),
    ).put(
        "trust_distribution"@,
        distribution(labels_of(index, texts(query.result_ids@)), false),
    ).object()
}

/// The reply to a trust benchmark. The share of judged results is a decimal
/// that is computed from their number and handed in.
pub open spec fn benchmark_reply(
    index: TrustView,
    queries: Seq<BenchmarkQuery>,
    top_k: u64,
    judged_pct: JsonView,
    receipt: JsonView,
) -> JsonView {
    let labels = benchmark_labels(index, queries);
    fields().put("ok"@, JsonView::Bool(true)).put(
        "queries_run"@,
        JsonView::Unsigned(queries.len() as u64),
    ).put("top_k"@, JsonView::Unsigned(top_k)).put(
        "total_results"@,
        JsonView::Unsigned(labels.len() as u64),
    ).put("trust_distribution"@, distribution(labels, true)).put("judged_pct"@, judged_pct).put(
        "per_query"@,
        JsonView::Array(
            Seq::new(queries.len(), |i: int| benchmark_query_json(index, queries[i])),
        ),
    ).put("receipt"@, receipt).object()
}

/// The labels of all results of a benchmark, query by query.
pub fn all_trust_labels(index: &ClaimTrustIndex, queries: &Vec<BenchmarkQuery>) -> (labels: Vec<
    String,
>)
    ensures
        texts(labels@) == benchmark_labels(index@, queries@),
{
    let mut labels: Vec<String> = Vec::new();
    let mut i: usize = 0;
    assert(queries@.subrange(0, 0) =~= Seq::empty());
    assert(texts(labels@) =~= Seq::empty());
    while i < queries.len()
        invariant
            i <= queries.len(),
            texts(labels@) == benchmark_labels(index@, queries@.subrange(0, i as int)),
        decreases queries.len() - i,
    {
        assert(queries@.subrange(0, i as int + 1).drop_last() =~= queries@.subrange(0, i as int));
        let mut more = trust_labels(index, &queries[i].result_ids);
        let ghost before = labels@;
        let ghost added = more@;
        labels.append(&mut more);
        assert(texts(labels@) =~= texts(before) + texts(added));
        i += 1;
    }
    assert(queries@.subrange(0, queries@.len() as int) =~= queries@);
    labels
}

/// How many results of a benchmark are judged, and how many there are.
pub fn judged_results(index: &ClaimTrustIndex, queries: &Vec<BenchmarkQuery>) -> (r: (u64, u64))
    ensures
        r.0 == judged_count(benchmark_labels(index@, queries@)),
        r.1 == benchmark_labels(index@, queries@).len(),
{
    let labels = all_trust_labels(index, queries);
    let total: usize = labels.len();
    proof {
        lemma_judged_count_bound(texts(labels@));
        assert(texts(labels@).len() == total);
    }
    let supported: usize = count_label(&labels, "supported");
    let partially: usize = count_label(&labels, "partially_supported");
    let contradicted: usize = count_label(&labels, "contradicted");
    let unsupported: usize = count_label(&labels, "unsupported");
    ((supported + partially + contradicted + unsupported) as u64, total as u64)
}

/// No more results are judged than there are.
proof fn lemma_judged_count_bound(labels: Seq<Seq<char>>)
    ensures
        judged_count(labels) <= labels.len(),
    decreases labels.len(),
{
    reveal_strlit("supported");
    reveal_strlit("partially_supported");
    reveal_strlit("contradicted");
    reveal_strlit("unsupported");
    if labels.len() > 0 {
        lemma_judged_count_bound(labels.drop_last());
        assert("supported"@.len() == 9);
        assert("partially_supported"@.len() == 19);
        assert("contradicted"@.len() == 12);
        assert("unsupported"@.len() == 11);
    }
}

/// The reply to a trust benchmark.
pub fn finish_benchmark_trust(
    index: &ClaimTrustIndex,
    queries: &Vec<BenchmarkQuery>,
    top_k: u64,
    judged_pct: Json,
    receipt: Json,
) -> (reply: Json)
    ensures
        reply@ == benchmark_reply(index@, queries@, top_k, judged_pct@, receipt@),
{
    let labels = all_trust_labels(index, queries);
    let mut per_query: Vec<Json> = Vec::new();
    let mut i: usize = 0;
    while i < queries.len()
        invariant
            i <= queries.len(),
            per_query@.len() == i,
            forall|j: int|
                0 <= j < i ==> (#[trigger] per_query@[j])@ == benchmark_query_json(
                    index@,
                    queries@[j],
                ),
        decreases queries.len() - i,
    {
        let labels = trust_labels(index, &queries[i].result_ids);
        per_query.push(
            Fields::new().with_text("query", &queries[i].query).with_count(
                "result_count",
                queries[i].result_ids.len(),
            ).with("trust_distribution", trust_distribution(&labels, false)).object(),
        );
        i += 1;
    }
    let list = Json::from_list(per_query);
    assert(list@->Array_0 =~= Seq::new(
        queries@.len(),
        |j: int| benchmark_query_json(index@, queries@[j]),
    ));
    Fields::new().with_bool("ok", true).with_count("queries_run", queries.len()).with(
        "top_k",
        Json::Unsigned(top_k),
    ).with_count("total_results", labels.len()).with(
        "trust_distribution",
        trust_distribution(&labels, true),
    ).with("judged_pct", judged_pct).with("per_query", list).with("receipt", receipt).object()
}

/// The identifier that `claim_ledger` gives to a claim with this source, this
/// span and this normalized content.
pub uninterp spec fn claim_identity(
    source: Seq<char>,
    span: Seq<char>,
    content: Seq<char>,
) -> Seq<char>;

/// `claim_ledger::Claim::new`: the identifier of the claim, which depends on
/// the source, the span and the normalized content, and that content.
#[verifier::external_body]
fn new_claim(source: &str, span: &str, content: &str) -> (r: (String, String))
    ensures
        r.0@ == claim_identity(source@, span@, normalized(content@)),
        r.1@ == normalized(content@),
{
    let claim = claim_ledger::Claim::new(source, span, content, "fact");
    (claim.claim_id, claim.normalized_claim)
}

/// The line that `claim_ledger::LedgerEntryBuilder` and
/// `claim_ledger::serialize_entry` give for a new claim, or the message of the
/// error.
pub uninterp spec fn claim_line(
    sequence: u64,
    previous: Option<Seq<char>>,
    claim: Seq<char>,
    source: Seq<char>,
    span: Seq<char>,
    content: Seq<char>,
) -> Result<Seq<char>, Seq<char>>;

/// Whether a line describes an entry that continues the given head with the
/// given event, is read back as it was written, and can be compacted with all
/// that it continues.
pub open spec fn describes(
    line: Seq<char>,
    sequence: u64,
    previous: Option<Seq<char>>,
    event: EventView,
) -> bool {
    entry_of_line(line) matches Some(entry) && entry.sequence == sequence && entry.previous
        == previous && entry.event == event && entry.line == line && written_line(line) && sealed(
        line,
    )
}

/// `claim_ledger::LedgerEntryBuilder::add_claim` and
/// `claim_ledger::serialize_entry`: the line describes what was handed in and is
/// read back as it is. It holds the digest that a verification recomputes, so
/// that it can be compacted with all that it continues; the digest itself is not
/// stated.
#[verifier::external_body]
fn build_claim_line(
    sequence: u64,
    previous: Option<String>,
    claim: &str,
    source: &str,
    span: &str,
    content: &str,
) -> (r: Result<String, String>)
    ensures
        ({
            let named = claim_line(
                sequence,
                optional_text(previous),
                claim@,
                source@,
                span@,
                content@,
            );
            match r {
                Ok(line) => named == Ok::<Seq<char>, Seq<char>>(line@) && describes(
                    line@,
                    sequence,
                    optional_text(previous),
                    EventView::ClaimAdded { claim: claim@, source: source@, content: content@ },
                ),
                Err(message) => named == Err::<Seq<char>, Seq<char>>(message@),
            }
        }),
{
    let builder = claim_ledger::LedgerEntryBuilder::new(sequence, previous);
    let entry = builder.add_claim(claim, source, span, content).map_err(|e| e.to_string())?;
    claim_ledger::serialize_entry(&entry).map_err(|e| e.to_string())
}

/// A claim that is to be recorded.
pub struct PreparedClaim {
    pub claim_id: String,
    pub source_id: String,
    pub span_id: String,
    pub normalized_claim: String,
    pub entry: LedgerEntry,
    /// What is appended to the ledger file.
    pub written: String,
}

/// The source that a claim made from a fact names.
pub open spec fn source_of(fact_id: Seq<char>) -> Seq<char> {
    "semantic-memory:fact:"@ + bare_id(fact_id)
}

/// The span that a claim names: all of the source where none is given.
pub open spec fn span_of(span: Option<Seq<char>>) -> Seq<char> {
    match span {
        Some(span) => span,
        None => "full"@,
    }
}

/// The line of the ledger entry for a claim that is made from a fact.
pub open spec fn claim_line_for(
    store: StoreView,
    fact_id: Seq<char>,
    span: Option<Seq<char>>,
    content: Seq<char>,
) -> Result<Seq<char>, Seq<char>> {
    claim_line(
        store.next_sequence(),
        store.last_digest(),
        claim_identity(source_of(fact_id), span_of(span), normalized(content)),
        source_of(fact_id),
        span_of(span),
        normalized(content),
    )
}

/// The message for a fact that a claim cannot be made from because it is not
/// there.
pub fn claim_without_fact(fact_id: &str) -> (s: String)
    ensures
        s@ == "fact not found: "@ + fact_id@,
{
    cat2("fact not found: ", fact_id)
}

/// Prepares a claim from a fact with the given content: its identifier, and
/// the entry that continues the ledger's head.
pub fn prepare_claim(
    store: &ClaimLedgerStore,
    fact_id: &str,
    source_span: &Option<String>,
    content: &str,
) -> (r: Result<PreparedClaim, String>)
    ensures
        ({
            let line = claim_line_for(store@, fact_id@, optional_text(*source_span), content@);
            match r {
                Ok(claim) => {
                    &&& store@.enabled
                    &&& line == Ok::<Seq<char>, Seq<char>>(claim.entry@.line)
                    &&& claim.source_id@ == source_of(fact_id@)
                    &&& claim.span_id@ == span_of(optional_text(*source_span))
                    &&& claim.normalized_claim@ == normalized(content@)
                    &&& claim.claim_id@ == claim_identity(
                        claim.source_id@,
                        claim.span_id@,
                        claim.normalized_claim@,
                    )
                    &&& well_kept(claim.entry@)
                    &&& sealed(claim.entry@.line)
                    &&& claim.entry@.event == (EventView::ClaimAdded {
                        claim: claim.claim_id@,
                        source: claim.source_id@,
                        content: claim.normalized_claim@,
                    })
                    &&& store@.continued_by(claim.entry@)
                    &&& claim.written@ == claim.entry@.line + "\n"@
                },
                Err(message) => match line {
                    Err(fault) => message@ == "failed to build claim ledger entry: "@ + fault,
                    Ok(_) => !store@.enabled && message@ == "failed to record claim to ledger: "@
                        + "claim ledger is disabled after verification failure"@,
                },
            }
        }),
{
    let source_id = cat2("semantic-memory:fact:", &bare_fact_id(fact_id));
    let span_id = match source_span {
        Some(span) => span.clone(),
        None => "full".to_owned(),
    };
    let (claim_id, normalized_claim) = new_claim(&source_id, &span_id, content);
    let line = match build_claim_line(
        store.next_sequence(),
        store.last_digest(),
        &claim_id,
        &source_id,
        &span_id,
        &normalized_claim,
    ) {
        Ok(line) => line,
        Err(message) => {
            return Err(cat2("failed to build claim ledger entry: ", &message));
        },
    };
    match read_entry(&line) {
        Some(entry) => match store.check_append(&entry) {
            Ok(written) => Ok(
                PreparedClaim { claim_id, source_id, span_id, normalized_claim, entry, written },
            ),
            Err(message) => Err(cat2("failed to record claim to ledger: ", &message)),
        },
        None => Err(String::new()),
    }
}

/// Records a claim whose entry was written: the ledger holds the entry, and the
/// index links the fact and knows the content. Gives the reply.
pub fn record_claim(
    store: &mut ClaimLedgerStore,
    index: &mut ClaimTrustIndex,
    fact_id: &str,
    content: &str,
    claim: PreparedClaim,
    receipt: Json,
) -> (reply: Json)
    requires
        old(store)@.continued_by(claim.entry@),
    ensures
        final(store)@ == old(store)@.appended(claim.entry@),
        old(store).valid() && well_kept(claim.entry@) ==> final(store).valid(),
        old(store).valid() && old(store).compactable() && old(store)@.has_room() && well_kept(
            claim.entry@,
        ) && sealed(claim.entry@.line) ==> final(store).compactable(),
        final(index)@ == old(index)@.linked(bare_id(fact_id@), claim.claim_id@).registered(
            claim.claim_id@,
            claim.normalized_claim@,
        ),
        reply@ == claim_reply(
            claim.claim_id@,
            claim.source_id@,
            claim.span_id@,
            content@,
            claim.normalized_claim@,
            receipt@,
        ),
{
    store.append(claim.entry);
    index.link_fact(&bare_fact_id(fact_id), &claim.claim_id);
    index.register_claim(&claim.claim_id, &claim.normalized_claim);
    Fields::new().with_bool("ok", true).with("receipt", receipt).with_text(
        "claim_id",
        &claim.claim_id,
    ).with_text("source_id", &claim.source_id).with_text("span_id", &claim.span_id).with_text(
        "claim_text",
        content,
    ).with_text("normalized_claim", &claim.normalized_claim).with_text("claim_type", "fact").with_text(
        "message",
        "Claim created from semantic-memory fact with source-spanned provenance",
    ).object()
}

/// The reply to a claim that was made.
pub open spec fn claim_reply(
    claim: Seq<char>,
    source: Seq<char>,
    span: Seq<char>,
    content: Seq<char>,
    normalized_claim: Seq<char>,
    receipt: JsonView,
) -> JsonView {
    fields().put("ok"@, JsonView::Bool(true)).put("receipt"@, receipt).put(
        "claim_id"@,
        JsonView::Text(claim),
    ).put("source_id"@, JsonView::Text(source)).put("span_id"@, JsonView::Text(span)).put(
        "claim_text"@,
        JsonView::Text(content),
    ).put("normalized_claim"@, JsonView::Text(normalized_claim)).put(
        "claim_type"@,
        JsonView::Text("fact"@),
    ).put(
        "message"@,
        JsonView::Text("Claim created from semantic-memory fact with source-spanned provenance"@),
    ).object()
}

/// What the ledger says of a new claim, the index knows already: catching up
/// with its entry changes nothing but the last sequence number.
pub proof fn law_recorded_claims_replay(
    index: TrustView,
    fact: Seq<char>,
    claim: Seq<char>,
    content: Seq<char>,
    entry: EntryView,
)
    requires
        entry.event == (EventView::ClaimAdded {
            claim,
            source: "semantic-memory:fact:"@ + fact,
            content,
        }),
    ensures
        index.applied(entry) == (TrustView {
            last_sequence: entry.sequence,
            ..index.linked(fact, claim).registered(claim, content)
        }),
{
    let source = "semantic-memory:fact:"@ + fact;
    let prefix = "semantic-memory:fact:"@;
    assert(source.subrange(0, prefix.len() as int) =~= prefix);
    assert(source.subrange(prefix.len() as int, source.len() as int) =~= fact);
    assert(index.applied(entry) =~= (TrustView {
        last_sequence: entry.sequence,
        ..index.linked(fact, claim).registered(claim, content)
    }));
}

/// `claim_ledger::ids::ulid`: a fresh identifier. Nothing is said of it.
#[verifier::external_body]
fn new_ulid() -> String {
    claim_ledger::ids::ulid()
}

/// The identifier that `claim_ledger::ids::evidence_bundle_id` gives to the
/// evidence bundle of a claim.
pub uninterp spec fn bundle_identity(claim: Seq<char>) -> Seq<char>;

/// `claim_ledger::ids::evidence_bundle_id`: the identifier of a claim's
/// evidence bundle.
#[verifier::external_body]
fn evidence_bundle_id(claim: &str) -> (id: String)
    ensures
        id@ == bundle_identity(claim@),
{
    claim_ledger::ids::evidence_bundle_id(claim)
}

/// The reply to evidence that was added to a claim: the bundle of the claim
/// with the one new link.
pub open spec fn evidence_reply(claim: Seq<char>, receipt: JsonView) -> JsonView {
    fields().put("ok"@, JsonView::Bool(true)).put("receipt"@, receipt).put(
        "evidence_bundle_id"@,
        JsonView::Text(bundle_identity(claim)),
    ).put("claim_id"@, JsonView::Text(claim)).put("evidence_count"@, JsonView::Unsigned(1)).put(
        "message"@,
        JsonView::Text("Evidence added to claim"@),
    ).object()
}

/// Adds evidence to a claim. The bundle is not kept.
pub fn add_evidence(claim_id: &str, receipt: Json) -> (reply: Json)
    ensures
        reply@ == evidence_reply(claim_id@, receipt@),
{
    Fields::new().with_bool("ok", true).with("receipt", receipt).with_text(
        "evidence_bundle_id",
        &evidence_bundle_id(claim_id),
    ).with_text("claim_id", claim_id).with_count("evidence_count", 1).with_text(
        "message",
        "Evidence added to claim",
    ).object()
}

/// The support state that a judgment, in lower case, stands for.
pub open spec fn judgment_state(judgment: Seq<char>) -> Option<SupportState> {
    if judgment == "supported"@ {
        Some(SupportState::Supported)
    } else if judgment == "partially_supported"@ || judgment == "partial"@ {
        Some(SupportState::PartiallySupported)
    } else if judgment == "unsupported"@ {
        Some(SupportState::Unsupported)
    } else if judgment == "contradicted"@ || judgment == "contested"@ {
        Some(SupportState::Contradicted)
    } else if judgment == "heuristic_only"@ || judgment == "heuristic"@ {
        Some(SupportState::HeuristicOnly)
    } else {
        None
    }
}

/// The support state that a judgment, in lower case, stands for.
pub fn state_of_judgment(judgment: &str) -> (state: Option<SupportState>)
    ensures
        state == judgment_state(judgment@),
{
    if same_text(judgment, "supported") {
        Some(SupportState::Supported)
    } else if same_text(judgment, "partially_supported") || same_text(judgment, "partial") {
        Some(SupportState::PartiallySupported)
    } else if same_text(judgment, "unsupported") {
        Some(SupportState::Unsupported)
    } else if same_text(judgment, "contradicted") || same_text(judgment, "contested") {
        Some(SupportState::Contradicted)
    } else if same_text(judgment, "heuristic_only") || same_text(judgment, "heuristic") {
        Some(SupportState::HeuristicOnly)
    } else {
        None
    }
}

/// The line that `claim_ledger::LedgerEntryBuilder` and
/// `claim_ledger::serialize_entry` give for a judgment, or the message of the
/// error.
pub uninterp spec fn judgment_line(
    sequence: u64,
    previous: Option<Seq<char>>,
    judgment: Seq<char>,
    claim: Seq<char>,
    bundle: Seq<char>,
    state: SupportState,
    method: Seq<char>,
) -> Result<Seq<char>, Seq<char>>;

/// `claim_ledger::LedgerEntryBuilder::add_support_judgment` and
/// `claim_ledger::serialize_entry`: the line describes what was handed in and is
/// read back as it is. It holds the digest that a verification recomputes, so
/// that it can be compacted with all that it continues; the digest itself is not
/// stated.
#[verifier::external_body]
fn build_judgment_line(
    sequence: u64,
    previous: Option<String>,
    judgment: &str,
    claim: &str,
    bundle: &str,
    state: SupportState,
    method: &str,
) -> (r: Result<String, String>)
    ensures
        ({
            let named = judgment_line(
                sequence,
                optional_text(previous),
                judgment@,
                claim@,
                bundle@,
                state,
                method@,
            );
            match r {
                Ok(line) => named == Ok::<Seq<char>, Seq<char>>(line@) && describes(
                    line@,
                    sequence,
                    optional_text(previous),
                    EventView::Judgment { claim: claim@, state },
                ),
                Err(message) => named == Err::<Seq<char>, Seq<char>>(message@),
            }
        }),
{
    let state = match state {
        SupportState::Supported => claim_ledger::SupportState::Supported,
        SupportState::PartiallySupported => claim_ledger::SupportState::PartiallySupported,
        SupportState::Unsupported => claim_ledger::SupportState::Unsupported,
        SupportState::Contradicted => claim_ledger::SupportState::Contradicted,
        SupportState::HeuristicOnly => claim_ledger::SupportState::HeuristicOnly,
        SupportState::Unknown => claim_ledger::SupportState::Unknown,
    };
    let builder = claim_ledger::LedgerEntryBuilder::new(sequence, previous);
    let entry = builder.add_support_judgment(judgment, claim, bundle, state, method);
    claim_ledger::serialize_entry(&entry.map_err(|e| e.to_string())?).map_err(|e| e.to_string())
}

/// A judgment that is to be recorded.
pub struct PreparedJudgment {
    pub judgment_id: String,
    pub claim_id: String,
    pub state: SupportState,
    /// The judgment as it was given, in lower case.
    pub name: String,
    pub entry: LedgerEntry,
    /// What is appended to the ledger file.
    pub written: String,
}

/// Why a judgment is not recorded.
pub enum JudgmentError {
    /// The judgment is none that is known.
    Invalid(String),
    /// The ledger does not take it.
    Ledger(String),
}

/// The line of the ledger entry for a judgment.
pub open spec fn judgment_line_for(
    store: StoreView,
    id: Seq<char>,
    claim: Seq<char>,
    state: SupportState,
) -> Result<Seq<char>, Seq<char>> {
    judgment_line(
        store.next_sequence(),
        store.last_digest(),
        id,
        claim,
        bundle_identity(claim),
        state,
        "agent_judgment"@,
    )
}

/// `r` is what preparing a judgment of a claim under a given identifier comes
/// to: an unknown judgment is refused, one that the ledger cannot hold or does
/// not take is an error of the ledger, and every other is prepared.
pub open spec fn judged_as(
    store: StoreView,
    id: Seq<char>,
    claim: Seq<char>,
    judgment: Seq<char>,
    r: Result<PreparedJudgment, JudgmentError>,
) -> bool {
    let name = unicode_lowered(judgment);
    match judgment_state(name) {
        None => r matches Err(JudgmentError::Invalid(message)) && message@
            == "Invalid judgment '"@ + judgment
            + "'. Must be: supported, partially_supported, unsupported, contradicted, or heuristic_only"@,
        Some(state) => match (judgment_line_for(store, id, claim, state), r) {
            (Err(fault), Err(JudgmentError::Ledger(message))) => message@
                == "failed to build support judgment ledger entry: "@ + fault,
            (Ok(line), Ok(prepared)) => {
                &&& store.enabled
                &&& prepared.judgment_id@ == id
                &&& prepared.claim_id@ == claim
                &&& prepared.state == state
                &&& prepared.name@ == name
                &&& prepared.entry@.line == line
                &&& well_kept(prepared.entry@)
                &&& sealed(prepared.entry@.line)
                &&& prepared.entry@.event == (EventView::Judgment { claim, state })
                &&& store.continued_by(prepared.entry@)
                &&& prepared.written@ == line + "\n"@
            },
            (Ok(_), Err(JudgmentError::Ledger(message))) => !store.enabled && message@
                == "failed to record support judgment to ledger: "@
                + "claim ledger is disabled after verification failure"@,
            _ => false,
        },
    }
}

/// Prepares a judgment of a claim under a given identifier.
pub fn prepare_judgment_as(
    store: &ClaimLedgerStore,
    id: String,
    claim_id: &str,
    judgment: &str,
) -> (r: Result<PreparedJudgment, JudgmentError>)
    ensures
        judged_as(store@, id@, claim_id@, judgment@, r),
{
    let name = to_lowercase(judgment);
    let state = match state_of_judgment(&name) {
        Some(state) => state,
        None => {
            return Err(
                JudgmentError::Invalid(
                    cat3(
                        "Invalid judgment '",
                        judgment,
                        "'. Must be: supported, partially_supported, unsupported, contradicted, or heuristic_only",
                    ),
                ),
            );
        },
    };
    let line = match build_judgment_line(
        store.next_sequence(),
        store.last_digest(),
        &id,
        claim_id,
        &evidence_bundle_id(claim_id),
        state,
        "agent_judgment",
    ) {
        Ok(line) => line,
        Err(message) => {
            return Err(
                JudgmentError::Ledger(
                    cat2("failed to build support judgment ledger entry: ", &message),
                ),
            );
        },
    };
    match read_entry(&line) {
        Some(entry) => match store.check_append(&entry) {
            Ok(written) => Ok(
                PreparedJudgment {
                    judgment_id: id,
                    claim_id: claim_id.to_owned(),
                    state,
                    name,
                    entry,
                    written,
                },
            ),
            Err(message) => Err(
                JudgmentError::Ledger(
                    cat2("failed to record support judgment to ledger: ", &message),
                ),
            ),
        },
        None => Err(JudgmentError::Ledger(String::new())),
    }
}

/// Prepares a judgment of a claim under a fresh identifier.
pub fn prepare_judgment(store: &ClaimLedgerStore, claim_id: &str, judgment: &str) -> (r: Result<
    PreparedJudgment,
    JudgmentError,
>)
    ensures
        exists|id: Seq<char>| #[trigger] judged_as(store@, id, claim_id@, judgment@, r),
{
    let id = new_ulid();
    let ghost fresh = id@;
    let r = prepare_judgment_as(store, id, claim_id, judgment);
    assert(judged_as(store@, fresh, claim_id@, judgment@, r));
    r
}

/// The reply to a judgment that was recorded.
pub open spec fn judgment_reply(
    id: Seq<char>,
    claim: Seq<char>,
    name: Seq<char>,
    receipt: JsonView,
) -> JsonView {
    fields().put("ok"@, JsonView::Bool(true)).put("receipt"@, receipt).put(
        "support_judgment_id"@,
        JsonView::Text(id),
    ).put("claim_id"@, JsonView::Text(claim)).put("state"@, JsonView::Text(name)).put(
        "message"@,
        JsonView::Text("Support judgment recorded"@),
    ).object()
}

/// Records a judgment whose entry was written. Gives the reply.
pub fn record_judgment(
    store: &mut ClaimLedgerStore,
    index: &mut ClaimTrustIndex,
    prepared: PreparedJudgment,
    receipt: Json,
) -> (reply: Json)
    requires
        old(store)@.continued_by(prepared.entry@),
    ensures
        final(store)@ == old(store)@.appended(prepared.entry@),
        old(store).valid() && well_kept(prepared.entry@) ==> final(store).valid(),
        old(store).valid() && old(store).compactable() && old(store)@.has_room() && well_kept(
            prepared.entry@,
        ) && sealed(prepared.entry@.line) ==> final(store).compactable(),
        final(index)@ == old(index)@.judged(prepared.claim_id@, prepared.state),
        reply@ == judgment_reply(
            prepared.judgment_id@,
            prepared.claim_id@,
            prepared.name@,
            receipt@,
        ),
{
    store.append(prepared.entry);
    index.record_judgment(&prepared.claim_id, prepared.state);
    Fields::new().with_bool("ok", true).with("receipt", receipt).with_text(
        "support_judgment_id",
        &prepared.judgment_id,
    ).with_text("claim_id", &prepared.claim_id).with_text("state", &prepared.name).with_text(
        "message",
        "Support judgment recorded",
    ).object()
}

/// How much depends on a claim.
#[derive(Clone, Copy, Debug, PartialEq, Eq, Structural)]
pub enum RiskClass {
    Low,
    Medium,
    High,
    Critical,
}

/// The risk class with a name, in lower case.
pub open spec fn risk_named(name: Seq<char>) -> Option<RiskClass> {
    if name == "low"@ {
        Some(RiskClass::Low)
    } else if name == "medium"@ {
        Some(RiskClass::Medium)
    } else if name == "high"@ {
        Some(RiskClass::High)
    } else if name == "critical"@ {
        Some(RiskClass::Critical)
    } else {
        None
    }
}

impl RiskClass {
    /// Whether a claim of this class has to be replayed.
    pub open spec fn replays(self) -> bool {
        self != RiskClass::Low
    }

    /// Whether a claim of this class has to withstand a refutation.
    pub open spec fn falsifies(self) -> bool {
        self == RiskClass::High || self == RiskClass::Critical
    }

    /// What becomes of a claim of this class.
    pub open spec fn disposition(self, refuted: bool, has_evidence: bool) -> Seq<char> {
        if !self.falsifies() {
            "promote"@
        } else if refuted {
            "quarantine"@
        } else if has_evidence && self == RiskClass::Critical {
            "promote_pending_replay"@
        } else {
            "defer"@
        }
    }

    /// Why this becomes of a claim of this class.
    pub open spec fn rationale(self, refuted: bool, has_evidence: bool) -> Seq<char> {
        match self {
            RiskClass::Low => "Low risk: cheap checks only, claim can be promoted"@,
            RiskClass::Medium => "Medium risk: replay check required, claim can be promoted"@,
            RiskClass::High => if refuted {
                "High risk: refutation attempted, claim quarantined"@
            } else if has_evidence {
                "High risk: no refutation attempted, claim deferred"@
            } else {
                "High risk: no evidence provided, claim deferred"@
            },
            RiskClass::Critical => if refuted {
                "Critical risk: refutation found, claim quarantined"@
            } else if has_evidence {
                "Critical risk: evidence provided, replay verification required before promotion"@
            } else {
                "Critical risk: requires evidence AND refutation, claim deferred"@
            },
        }
    }

    /// What becomes of a claim of this class, and why.
    fn verdict(self, refuted: bool, has_evidence: bool) -> (r: (&'static str, &'static str))
        ensures
            r.0@ == self.disposition(refuted, has_evidence),
            r.1@ == self.rationale(refuted, has_evidence),
    {
        match self {
            RiskClass::Low => ("promote", "Low risk: cheap checks only, claim can be promoted"),
            RiskClass::Medium => (
                "promote",
                "Medium risk: replay check required, claim can be promoted",
            ),
            RiskClass::High => if refuted {
                ("quarantine", "High risk: refutation attempted, claim quarantined")
            } else if has_evidence {
                ("defer", "High risk: no refutation attempted, claim deferred")
            } else {
                ("defer", "High risk: no evidence provided, claim deferred")
            },
            RiskClass::Critical => if refuted {
                ("quarantine", "Critical risk: refutation found, claim quarantined")
            } else if has_evidence {
                (
                    "promote_pending_replay",
                    "Critical risk: evidence provided, replay verification required before promotion",
                )
            } else {
                ("defer", "Critical risk: requires evidence AND refutation, claim deferred")
            },
        }
    }
}

/// The risk class with a name, in lower case.
pub fn risk_class_named(name: &str) -> (risk: Option<RiskClass>)
    ensures
        risk == risk_named(name@),
{
    if same_text(name, "low") {
        Some(RiskClass::Low)
    } else if same_text(name, "medium") {
        Some(RiskClass::Medium)
    } else if same_text(name, "high") {
        Some(RiskClass::High)
    } else if same_text(name, "critical") {
        Some(RiskClass::Critical)
    } else {
        None
    }
}

/// Whether a claim comes with evidence.
pub open spec fn evidenced(refs: Option<Vec<String>>) -> bool {
    match refs {
        Some(refs) => refs@.len() > 0,
        None => false,
    }
}

/// The reply to the verification of a claim.
pub open spec fn verification_reply(
    claim: Seq<char>,
    name: Seq<char>,
    risk: RiskClass,
    has_evidence: bool,
    refuted: bool,
) -> JsonView {
    fields().put("ok"@, JsonView::Bool(true)).put("claim"@, JsonView::Text(claim)).put(
        "risk_class"@,
        JsonView::Text(name),
    ).put(
        "required_checks"@,
        fields().put("cheap_checks"@, JsonView::Bool(true)).put(
            "replay_checks"@,
            JsonView::Bool(risk.replays()),
        ).put("falsification_checks"@, JsonView::Bool(risk.falsifies())).object(),
    ).put("has_evidence"@, JsonView::Bool(has_evidence)).put(
        "refutation_attempted"@,
        JsonView::Bool(refuted),
    ).put("disposition"@, JsonView::Text(risk.disposition(refuted, has_evidence))).put(
        "rationale"@,
        JsonView::Text(risk.rationale(refuted, has_evidence)),
    ).put(
        "can_promote"@,
        JsonView::Bool(risk.disposition(refuted, has_evidence) == "promote"@),
    ).object()
}

/// Verifies a claim against what its risk class requires. The error is that of
/// an unknown risk class.
pub fn verify_claim(
    claim: &str,
    risk_class: &str,
    evidence_refs: &Option<Vec<String>>,
    refutation_attempted: Option<bool>,
) -> (r: Result<Json, String>)
    ensures
        ({
            let name = unicode_lowered(risk_class@);
            match (risk_named(name), r) {
                (Some(risk), Ok(reply)) => reply@ == verification_reply(
                    claim@,
                    name,
                    risk,
                    evidenced(*evidence_refs),
                    refutation_attempted == Some(true),
                ),
                (None, Err(message)) => message@ == "Invalid risk_class '"@ + name
                    + "'. Must be: low, medium, high, or critical"@,
                _ => false,
            }
        }),
{
    let name = to_lowercase(risk_class);
    let has_evidence = match evidence_refs {
        Some(refs) => refs.len() > 0,
        None => false,
    };
    let refuted = match refutation_attempted {
        Some(refuted) => refuted,
        None => false,
    };
    let risk = match risk_class_named(&name) {
        Some(risk) => risk,
        None => {
            return Err(
                cat3(
                    "Invalid risk_class '",
                    &name,
                    "'. Must be: low, medium, high, or critical",
                ),
            );
        },
    };
    let (disposition, rationale) = risk.verdict(refuted, has_evidence);
    let falsifies = risk == RiskClass::High || risk == RiskClass::Critical;
    let checks = Fields::new().with_bool("cheap_checks", true).with_bool(
        "replay_checks",
        risk != RiskClass::Low,
    ).with_bool("falsification_checks", falsifies).object();
    Ok(
        Fields::new().with_bool("ok", true).with_text("claim", claim).with_text(
            "risk_class",
            &name,
        ).with("required_checks", checks).with_bool("has_evidence", has_evidence).with_bool(
            "refutation_attempted",
            refuted,
        ).with_text("disposition", disposition).with_text("rationale", rationale).with_bool(
            "can_promote",
            same_text(disposition, "promote"),
        ).object(),
    )
}

/// A claim of high or critical risk is not promoted: without an attempted
/// refutation it is deferred or waits for its replay, and with one it is
/// quarantined.
pub proof fn law_risky_claims_are_not_promoted(risk: RiskClass, refuted: bool, has_evidence: bool)
    requires
        risk.falsifies(),
    ensures
        risk.disposition(refuted, has_evidence) != "promote"@,
        refuted ==> risk.disposition(refuted, has_evidence) == "quarantine"@,
{
    reveal_strlit("promote");
    reveal_strlit("quarantine");
    reveal_strlit("defer");
    reveal_strlit("promote_pending_replay");
    assert("promote"@.len() == 7);
    assert("quarantine"@.len() == 10);
    assert("defer"@.len() == 5);
    assert("promote_pending_replay"@.len() == 22);
}

/// The names of the states of support differ.
proof fn lemma_state_names()
    ensures
        "supported"@ != "partially_supported"@,
        "supported"@ != "partial"@,
        "supported"@ != "unsupported"@,
        "supported"@ != "contradicted"@,
        "supported"@ != "contested"@,
        "supported"@ != "heuristic_only"@,
        "supported"@ != "heuristic"@,
        "supported"@ != "persisted_unjudged"@,
        "partially_supported"@ != "unsupported"@,
        "partially_supported"@ != "contradicted"@,
        "partially_supported"@ != "heuristic_only"@,
        "partially_supported"@ != "persisted_unjudged"@,
        "partial"@ != "unsupported"@,
        "unsupported"@ != "contradicted"@,
        "unsupported"@ != "contested"@,
        "unsupported"@ != "heuristic_only"@,
        "unsupported"@ != "heuristic"@,
        "unsupported"@ != "persisted_unjudged"@,
        "contradicted"@ != "partially_supported"@,
        "contradicted"@ != "partial"@,
        "contradicted"@ != "heuristic_only"@,
        "contradicted"@ != "persisted_unjudged"@,
        "contested"@ != "partially_supported"@,
        "contested"@ != "partial"@,
        "contested"@ != "heuristic"@,
        "contested"@ != "heuristic_only"@,
        "heuristic_only"@ != "partially_supported"@,
        "heuristic_only"@ != "partial"@,
        "heuristic_only"@ != "contested"@,
        "heuristic_only"@ != "persisted_unjudged"@,
        "heuristic"@ != "partially_supported"@,
        "heuristic"@ != "partial"@,
        "heuristic"@ != "contradicted"@,
        "persisted_unjudged"@ != "partial"@,
        "persisted_unjudged"@ != "contested"@,
        "persisted_unjudged"@ != "heuristic"@,
        "unknown"@ != "persisted_unjudged"@,
        "unknown"@ != "partial"@,
        "unknown"@ != "contested"@,
        "unknown"@ != "heuristic"@,
{
    reveal_strlit("supported");
    reveal_strlit("partially_supported");
    reveal_strlit("partial");
    reveal_strlit("unsupported");
    reveal_strlit("contradicted");
    reveal_strlit("contested");
    reveal_strlit("heuristic_only");
    reveal_strlit("heuristic");
    reveal_strlit("persisted_unjudged");
    reveal_strlit("unknown");
    assert("supported"@.len() == 9 && "supported"@[0] == 's');
    assert("partially_supported"@.len() == 19);
    assert("partial"@.len() == 7);
    assert("unsupported"@.len() == 11);
    assert("contradicted"@.len() == 12);
    assert("contested"@.len() == 9 && "contested"@[0] == 'c');
    assert("heuristic_only"@.len() == 14);
    assert("heuristic"@.len() == 9 && "heuristic"@[0] == 'h');
    assert("persisted_unjudged"@.len() == 18);
    assert("unknown"@.len() == 7 && "unknown"@[0] == 'u' && "partial"@[0] == 'p');
}

/// Judgments, trust labels and the ledger agree: the trust label of a state,
/// read as a judgment or as a name in the ledger, gives that state back, so that
/// different states have different labels. An unknown support is no judgment.
pub proof fn law_labels_are_read_as_their_states(state: SupportState, other: SupportState)
    ensures
        state != SupportState::Unknown ==> judgment_state(state.label_text()) == Some(state),
        state != SupportState::Unknown ==> crate::ledger::state_named(state.label_text()) == Some(
            state,
        ),
        judgment_state(SupportState::Unknown.label_text()) is None,
        state != other ==> state.label_text() != other.label_text(),
{
    lemma_state_names();
}

/// A short name stands for what its long name stands for, and every judgment
/// that is read is the label of its state or one of the short names.
pub proof fn law_short_judgments_stand_for_long_ones(name: Seq<char>)
    ensures
        judgment_state("partial"@) == judgment_state(
            SupportState::PartiallySupported.label_text(),
        ),
        judgment_state("contested"@) == judgment_state(SupportState::Contradicted.label_text()),
        judgment_state("heuristic"@) == judgment_state(SupportState::HeuristicOnly.label_text()),
        judgment_state(name) matches Some(state) ==> name == state.label_text() || name
            == "partial"@ || name == "contested"@ || name == "heuristic"@,
{
    lemma_state_names();
}

/// Whatever judgment is read stands for a state that can be judged, and names
/// that a judgment and the ledger both know stand for one state.
pub proof fn law_judgments_agree_with_the_ledger(name: Seq<char>)
    ensures
        judgment_state(name) != Some(SupportState::Unknown),
        judgment_state(name) is Some && crate::ledger::state_named(name) is Some
            ==> judgment_state(name) == crate::ledger::state_named(name),
{
    lemma_state_names();
}

/// What a claim is judged is what its facts are trusted with: once a judgment
/// was recorded, a fact that is linked to the claim has the label of the state
/// that the judgment named.
pub proof fn law_judgments_label_facts(
    store: StoreView,
    id: Seq<char>,
    claim: Seq<char>,
    judgment: Seq<char>,
    r: Result<PreparedJudgment, JudgmentError>,
    state: SupportState,
    index: TrustView,
    fact: Seq<char>,
)
    requires
        judged_as(store, id, claim, judgment, r),
        r is Ok,
        unicode_lowered(judgment) == state.label_text(),
        index.enabled,
        index.fact_to_claim.contains_key(fact),
        index.fact_to_claim[fact] == claim,
    ensures
        index.applied(r->Ok_0.entry@).trust(fact) == unicode_lowered(judgment),
        index.applied(r->Ok_0.entry@).support[claim] == state,
{
    law_labels_are_read_as_their_states(state, state);
}

/// Only a claim that is supported, in full or in part, owes nothing. Every other
/// owes at least as much as an unsupported one, and a contradicted one more.
pub proof fn law_only_support_settles_the_debt(state: SupportState)
    ensures
        total_micros(debts_of(state)) == 0 <==> state == SupportState::Supported || state
            == SupportState::PartiallySupported,
        debts_of(state).len() == 0 <==> state == SupportState::Supported || state
            == SupportState::PartiallySupported,
        total_micros(debts_of(state)) > 0 ==> total_micros(debts_of(state)) >= total_micros(
            debts_of(SupportState::Unsupported),
        ),
        state != SupportState::Contradicted && total_micros(debts_of(state)) > 0 ==> total_micros(
            debts_of(state),
        ) < total_micros(debts_of(SupportState::Contradicted)),
{
    reveal_with_fuel(total_micros, 3);
    let worst = debts_of(SupportState::Contradicted);
    assert(worst.drop_last() =~= seq![ProofDebt::MissingSourceBasis]);
    assert(worst.drop_last().drop_last() =~= Seq::empty());
    let least = seq![ProofDebt::MissingSourceBasis];
    assert(least.drop_last() =~= Seq::empty());
}

/// What results owe adds up: two lists of results owe together the sum of what
/// each owes, and so do the results that owe anything.
pub proof fn law_debts_add_up(index: TrustView, first: Seq<Seq<char>>, second: Seq<Seq<char>>)
    ensures
        total_micros(debts_of_results(index, first + second)) == total_micros(
            debts_of_results(index, first),
        ) + total_micros(debts_of_results(index, second)),
        debts_of_results(index, first + second) == debts_of_results(index, first)
            + debts_of_results(index, second),
        indebted(index, first + second) == indebted(index, first) + indebted(index, second),
    decreases second.len(),
{
    if second.len() == 0 {
        assert(first + second =~= first);
        assert(debts_of_results(index, first) + Seq::empty() =~= debts_of_results(index, first));
    } else {
        let fewer = second.drop_last();
        law_debts_add_up(index, first, fewer);
        assert((first + second).drop_last() =~= first + fewer);
        assert((first + second).last() == second.last());
        let last = debts_of_result(index, second.last());
        assert(debts_of_results(index, first) + debts_of_results(index, fewer) + last
            =~= debts_of_results(index, first) + (debts_of_results(index, fewer) + last));
    }
    lemma_total_of_sum(debts_of_results(index, first), debts_of_results(index, second));
}

/// A single result owes what the state of its claim leaves open: nothing without
/// a claim, what an unknown support owes without a judgment, and else what its
/// judgment owes.
pub proof fn law_results_owe_what_their_claim_owes(index: TrustView, fact: Seq<char>)
    requires
        index.enabled,
    ensures
        ({
            let owed = total_micros(debts_of_results(index, seq![fact]));
            let bare = bare_id(fact);
            &&& !index.fact_to_claim.contains_key(bare) ==> owed == 0
            &&& index.fact_to_claim.contains_key(bare) && index.support.contains_key(
                index.fact_to_claim[bare],
            ) ==> owed == total_micros(debts_of(index.support[index.fact_to_claim[bare]]))
            &&& index.fact_to_claim.contains_key(bare) && !index.support.contains_key(
                index.fact_to_claim[bare],
            ) ==> owed == total_micros(debts_of(SupportState::Unknown))
            &&& indebted(index, seq![fact]) == (if owed > 0 {
                1nat
            } else {
                0nat
            })
        }),
{
    let one = seq![fact];
    assert(one.drop_last() =~= Seq::empty());
    assert(one.last() == fact);
    reveal_with_fuel(debts_of_results, 2);
    reveal_with_fuel(indebted, 2);
    assert(debts_of_results(index, one) =~= debts_of_result(index, fact));
    let bare = bare_id(fact);
    if index.fact_to_claim.contains_key(bare) {
        let claim = index.fact_to_claim[bare];
        if index.support.contains_key(claim) {
            law_only_support_settles_the_debt(index.support[claim]);
        } else {
            law_only_support_settles_the_debt(SupportState::Unknown);
        }
    }
}

/// The more of a budget is consumed, the harder the debt policy decides: below
/// 80 percent it proceeds, and it retracts only from 120 percent on.
pub proof fn law_larger_debts_are_judged_harder(less: nat, more: nat, budget: u64)
    requires
        less <= more,
        budget > 0,
    ensures
        consumed_percent(less, budget) <= consumed_percent(more, budget),
        100 * more < 80 * budget ==> decision_at(consumed_percent(more, budget))
            == GateDecision::Proceed,
        100 * more >= 120 * budget ==> decision_at(consumed_percent(more, budget))
            == GateDecision::Retract,
{
    let (a, b, n) = (less * 100, more * 100, budget as nat);
    assert(a / n <= b / n) by (nonlinear_arith)
        requires
            a <= b,
            n > 0,
    ;
    if b < 80 * n {
        assert(b / n < 80) by (nonlinear_arith)
            requires
                b < 80 * n,
                n > 0,
        ;
    }
    if b >= 120 * n {
        assert(b / n >= 120) by (nonlinear_arith)
            requires
                b >= 120 * n,
                n > 0,
        ;
    }
}

/// A label is counted as often as it occurs.
pub proof fn law_labels_are_counted(labels: Seq<Seq<char>>, label: Seq<char>)
    ensures
        tally(labels, label) == labels.to_multiset().count(label),
    decreases labels.len(),
{
    broadcast use vstd::seq_lib::group_to_multiset_ensures;
    broadcast use vstd::multiset::group_multiset_axioms;

    if labels.len() > 0 {
        let fewer = labels.drop_last();
        law_labels_are_counted(fewer, label);
        assert(labels =~= fewer.push(labels.last()));
        assert(labels.to_multiset() =~= fewer.to_multiset().insert(labels.last()));
    } else {
        assert(labels =~= Seq::empty());
    }
}

/// The label that an index gives is one of those that are counted.
pub open spec fn known_label(label: Seq<char>) -> bool {
    ||| label == "contradicted"@
    ||| label == "heuristic_only"@
    ||| label == "partially_supported"@
    ||| label == "persisted_unjudged"@
    ||| label == "supported"@
    ||| label == "trust_enrichment_disabled"@
    ||| label == "unsupported"@
}

/// The name of an index that is off differs from the labels.
proof fn lemma_disabled_name()
    ensures
        "trust_enrichment_disabled"@ != "contradicted"@,
        "trust_enrichment_disabled"@ != "heuristic_only"@,
        "trust_enrichment_disabled"@ != "partially_supported"@,
        "trust_enrichment_disabled"@ != "persisted_unjudged"@,
        "trust_enrichment_disabled"@ != "supported"@,
        "trust_enrichment_disabled"@ != "unsupported"@,
{
    reveal_strlit("trust_enrichment_disabled");
    reveal_strlit("contradicted");
    reveal_strlit("heuristic_only");
    reveal_strlit("partially_supported");
    reveal_strlit("persisted_unjudged");
    reveal_strlit("supported");
    reveal_strlit("unsupported");
    assert("trust_enrichment_disabled"@.len() == 25 && "contradicted"@.len() == 12);
    assert("heuristic_only"@.len() == 14 && "partially_supported"@.len() == 19);
    assert("persisted_unjudged"@.len() == 18 && "supported"@.len() == 9);
    assert("unsupported"@.len() == 11);
}

/// The counts of a distribution add up to the number of results: every result
/// that an index labels is counted once.
pub proof fn law_distributions_add_up(labels: Seq<Seq<char>>)
    requires
        forall|i: int| 0 <= i < labels.len() ==> known_label(#[trigger] labels[i]),
    ensures
        tally(labels, "contradicted"@) + tally(labels, "heuristic_only"@) + tally(
            labels,
            "partially_supported"@,
        ) + tally(labels, "persisted_unjudged"@) + tally(labels, "supported"@) + tally(
            labels,
            "trust_enrichment_disabled"@,
        ) + tally(labels, "unsupported"@) == labels.len(),
    decreases labels.len(),
{
    lemma_state_names();
    lemma_disabled_name();
    if labels.len() > 0 {
        let fewer = labels.drop_last();
        assert forall|i: int| 0 <= i < fewer.len() implies known_label(#[trigger] fewer[i]) by {
            assert(labels[i] == fewer[i]);
        }
        law_distributions_add_up(fewer);
        assert(known_label(labels[labels.len() - 1]));
    }
}

/// Every label that an index gives is counted in a distribution.
pub proof fn law_given_labels_are_known(index: TrustView, fact: Seq<char>)
    ensures
        known_label(index.trust(fact)),
        index.trust(fact) == "trust_enrichment_disabled"@ <==> !index.enabled,
{
    lemma_disabled_name();
}

/// A distribution that lists every label gives each its count.
pub proof fn law_distributions_hold_the_counts(labels: Seq<Seq<char>>, state: SupportState)
    ensures
        distribution(labels, true).member(state.label_text()) == Some(
            JsonView::Unsigned(tally(labels, state.label_text()) as u64),
        ),
        tally(labels, state.label_text()) > 0 ==> distribution(labels, false).member(
            state.label_text(),
        ) == Some(JsonView::Unsigned(tally(labels, state.label_text()) as u64)),
        tally(labels, state.label_text()) == 0 ==> distribution(labels, false).member(
            state.label_text(),
        ) is None,
{
    lemma_state_names();
    lemma_disabled_name();
    broadcast use crate::json::lemma_put_member, crate::json::lemma_no_member;

}

/// Judged results are those whose claim was judged anything but heuristic: each
/// counts just where its label tells such a judgment.
pub proof fn law_judged_results_are_counted(labels: Seq<Seq<char>>, label: Seq<char>)
    ensures
        judged_count(labels.push(label)) == judged_count(labels) + (if label == "supported"@
            || label == "partially_supported"@ || label == "contradicted"@ || label
            == "unsupported"@ {
            1nat
        } else {
            0nat
        }),
{
    lemma_state_names();
    assert(labels.push(label).drop_last() =~= labels);
}

/// The labels of a benchmark are those of its queries, one after the other.
pub proof fn law_benchmarks_label_every_result(
    index: TrustView,
    first: Seq<BenchmarkQuery>,
    second: Seq<BenchmarkQuery>,
)
    ensures
        benchmark_labels(index, first + second) == benchmark_labels(index, first)
            + benchmark_labels(index, second),
        second.len() == 1 ==> benchmark_labels(index, second) == labels_of(
            index,
            texts(second[0].result_ids@),
        ) && benchmark_labels(index, second).len() == second[0].result_ids@.len(),
    decreases second.len(),
{
    if second.len() == 0 {
        assert(first + second =~= first);
        assert(benchmark_labels(index, first) + Seq::empty() =~= benchmark_labels(index, first));
    } else {
        let fewer = second.drop_last();
        law_benchmarks_label_every_result(index, first, fewer);
        assert((first + second).drop_last() =~= first + fewer);
        assert((first + second).last() == second.last());
        let last = labels_of(index, texts(second.last().result_ids@));
        assert(benchmark_labels(index, first) + benchmark_labels(index, fewer) + last
            =~= benchmark_labels(index, first) + (benchmark_labels(index, fewer) + last));
        if second.len() == 1 {
            assert(fewer =~= Seq::empty());
            assert(benchmark_labels(index, second) =~= last);
        }
    }
}

impl RiskClass {
    /// The name of the class in requests.
    pub open spec fn text(self) -> Seq<char> {
        match self {
            RiskClass::Low => "low"@,
            RiskClass::Medium => "medium"@,
            RiskClass::High => "high"@,
            RiskClass::Critical => "critical"@,
        }
    }
}

/// Every risk class is read by its name, and nothing else is read as one.
pub proof fn law_risk_classes_are_read_by_name(risk: RiskClass, name: Seq<char>)
    ensures
        risk_named(risk.text()) == Some(risk),
        risk_named(name) matches Some(read) ==> read.text() == name,
{
    reveal_strlit("low");
    reveal_strlit("medium");
    reveal_strlit("high");
    reveal_strlit("critical");
    assert("low"@.len() == 3 && "medium"@.len() == 6 && "high"@.len() == 4);
    assert("critical"@.len() == 8);
}

/// A claim can be promoted just where its risk is low or medium. One of high or
/// critical risk has to withstand a refutation, and one of medium risk or more
/// has to be replayed.
pub proof fn law_risk_decides_what_a_claim_needs(
    claim: Seq<char>,
    name: Seq<char>,
    risk: RiskClass,
    has_evidence: bool,
    refuted: bool,
)
    ensures
        ({
            let reply = verification_reply(claim, name, risk, has_evidence, refuted);
            let disposition = reply.text_member("disposition"@);
            &&& reply.true_member("can_promote"@) <==> risk == RiskClass::Low || risk
                == RiskClass::Medium
            &&& disposition == Some("promote"@) <==> risk == RiskClass::Low || risk
                == RiskClass::Medium
            &&& disposition == Some("quarantine"@) <==> refuted && (risk == RiskClass::High || risk
                == RiskClass::Critical)
            &&& disposition == Some("promote_pending_replay"@) <==> !refuted && has_evidence
                && risk == RiskClass::Critical
            &&& risk.replays() <==> risk != RiskClass::Low
            &&& risk.falsifies() <==> risk == RiskClass::High || risk == RiskClass::Critical
        }),
{
    reveal_strlit("promote");
    reveal_strlit("quarantine");
    reveal_strlit("defer");
    reveal_strlit("promote_pending_replay");
    assert("promote"@.len() == 7 && "quarantine"@.len() == 10 && "defer"@.len() == 5);
    assert("promote_pending_replay"@.len() == 22);
    reveal_strlit("ok");
    reveal_strlit("claim");
    reveal_strlit("risk_class");
    reveal_strlit("required_checks");
    reveal_strlit("has_evidence");
    reveal_strlit("refutation_attempted");
    reveal_strlit("disposition");
    reveal_strlit("rationale");
    reveal_strlit("can_promote");
    assert("ok"@.len() == 2 && "claim"@.len() == 5 && "risk_class"@.len() == 10);
    assert("required_checks"@.len() == 15 && "has_evidence"@.len() == 12);
    assert("refutation_attempted"@.len() == 20 && "rationale"@.len() == 9);
    assert("disposition"@.len() == 11 && "disposition"@[0] == 'd' && "can_promote"@[0] == 'c');
    assert("can_promote"@.len() == 11);
    broadcast use crate::json::lemma_put_member, crate::json::lemma_no_member;

}

/// A claim that is made from a fact names the fact as its source, in either form
/// of its identifier, and all of it where no span is given.
pub proof fn law_claims_name_their_source(bare: Seq<char>, span: Seq<char>)
    requires
        bare_id(bare) == bare,
    ensures
        source_of(bare) == "semantic-memory:fact:"@ + bare,
        source_of(crate::facts::fact_node(bare)) == source_of(bare),
        span_of(Some(span)) == span,
        span_of(None) == "full"@,
{
    crate::facts::law_node_and_bare_id_agree(bare);
}

/// The reply to a claim tells it under its identifier, with its source, its span
/// and its content, given and normalized.
pub proof fn law_claims_are_told(
    claim: Seq<char>,
    source: Seq<char>,
    span: Seq<char>,
    content: Seq<char>,
    normalized_claim: Seq<char>,
    receipt: JsonView,
)
    ensures
        ({
            let reply = claim_reply(claim, source, span, content, normalized_claim, receipt);
            &&& reply.text_member("claim_id"@) == Some(claim)
            &&& reply.text_member("source_id"@) == Some(source)
            &&& reply.text_member("span_id"@) == Some(span)
            &&& reply.text_member("claim_text"@) == Some(content)
            &&& reply.text_member("normalized_claim"@) == Some(normalized_claim)
            &&& reply.member("receipt"@) == Some(receipt)
        }),
{
    reveal_strlit("ok");
    reveal_strlit("receipt");
    reveal_strlit("claim_id");
    reveal_strlit("source_id");
    reveal_strlit("span_id");
    reveal_strlit("claim_text");
    reveal_strlit("normalized_claim");
    reveal_strlit("claim_type");
    reveal_strlit("message");
    assert("ok"@.len() == 2 && "receipt"@.len() == 7 && "claim_id"@.len() == 8);
    assert("source_id"@.len() == 9 && "span_id"@.len() == 7 && "claim_text"@.len() == 10);
    assert("normalized_claim"@.len() == 16 && "claim_type"@.len() == 10 && "message"@.len() == 7);
    assert("receipt"@[0] == 'r' && "span_id"@[0] == 's' && "message"@[0] == 'm');
    assert("claim_text"@[7] == 'e' && "claim_type"@[7] == 'y');
    broadcast use crate::json::lemma_put_member, crate::json::lemma_no_member;

}

/// The reply to a judgment tells the claim and the state that it was given.
pub proof fn law_judgments_are_told(
    id: Seq<char>,
    claim: Seq<char>,
    name: Seq<char>,
    receipt: JsonView,
)
    ensures
        ({
            let reply = judgment_reply(id, claim, name, receipt);
            &&& reply.text_member("support_judgment_id"@) == Some(id)
            &&& reply.text_member("claim_id"@) == Some(claim)
            &&& reply.text_member("state"@) == Some(name)
            &&& reply.member("receipt"@) == Some(receipt)
        }),
        evidence_reply(claim, receipt).text_member("claim_id"@) == Some(claim),
        evidence_reply(claim, receipt).text_member("evidence_bundle_id"@) == Some(
            bundle_identity(claim),
        ),
{
    reveal_strlit("ok");
    reveal_strlit("receipt");
    reveal_strlit("support_judgment_id");
    reveal_strlit("claim_id");
    reveal_strlit("state");
    reveal_strlit("message");
    reveal_strlit("evidence_bundle_id");
    reveal_strlit("evidence_count");
    assert("ok"@.len() == 2 && "receipt"@.len() == 7 && "support_judgment_id"@.len() == 19);
    assert("claim_id"@.len() == 8 && "state"@.len() == 5 && "message"@.len() == 7);
    assert("evidence_bundle_id"@.len() == 18 && "evidence_count"@.len() == 14);
    assert("receipt"@[0] == 'r' && "message"@[0] == 'm');
    broadcast use crate::json::lemma_put_member, crate::json::lemma_no_member;

}

/// The reply to a search with its proof debt lists every result with what it
/// owes; what they owe together is compared with the budget, which is exhausted
/// where it is reached.
pub proof fn law_debts_are_told(
    query: Seq<char>,
    index: TrustView,
    ids: Seq<Seq<char>>,
    budget: u64,
    receipt: JsonView,
    i: int,
)
    ensures
        ({
            let reply = proof_debt_reply(query, index, ids, budget, receipt);
            let total = total_micros(debts_of_results(index, ids));
            &&& reply.text_member("query"@) == Some(query)
            &&& reply.member("count"@) == Some(JsonView::Unsigned(ids.len() as u64))
            &&& reply.member("receipt"@) == Some(receipt)
            &&& reply.member("results"@) matches Some(JsonView::Array(results)) && results.len()
                == ids.len() && (0 <= i < ids.len() ==> results[i].text_member("fact_id"@) == Some(
                ids[i],
            ) && results[i].text_member("trust"@) == Some(index.trust(bare_id(ids[i])))
                && results[i].member("debt_micros"@) == Some(
                JsonView::Unsigned(total_micros(debts_of_result(index, ids[i])) as u64),
            ))
            &&& reply.member("proof_debt"@) matches Some(debt) && {
                &&& debt.member("total_debt_micros"@) == Some(JsonView::Unsigned(total as u64))
                &&& debt.member("budget_micros"@) == Some(JsonView::Unsigned(budget))
                &&& debt.true_member("exhausted"@) <==> total >= budget
                &&& debt.text_member("gate_decision"@) == Some(
                    decision_at(consumed_percent(total, budget)).text(),
                )
            }
        }),
{
    reveal_strlit("ok");
    reveal_strlit("query");
    reveal_strlit("results");
    reveal_strlit("count");
    reveal_strlit("proof_debt");
    reveal_strlit("receipt");
    reveal_strlit("total_debt_micros");
    reveal_strlit("unsupported_count");
    reveal_strlit("budget_micros");
    reveal_strlit("consumed_pct");
    reveal_strlit("exhausted");
    reveal_strlit("gate_decision");
    reveal_strlit("gate_summary");
    reveal_strlit("debit_count");
    reveal_strlit("fact_id");
    reveal_strlit("claim_id");
    reveal_strlit("trust");
    reveal_strlit("debt_micros");
    assert("ok"@.len() == 2 && "query"@.len() == 5 && "results"@.len() == 7);
    assert("count"@.len() == 5 && "proof_debt"@.len() == 10 && "receipt"@.len() == 7);
    assert("total_debt_micros"@.len() == 17 && "unsupported_count"@.len() == 17);
    assert("budget_micros"@.len() == 13 && "consumed_pct"@.len() == 12);
    assert("exhausted"@.len() == 9 && "gate_decision"@.len() == 13);
    assert("gate_summary"@.len() == 12 && "debit_count"@.len() == 11 && "fact_id"@.len() == 7);
    assert("claim_id"@.len() == 8 && "trust"@.len() == 5 && "debt_micros"@.len() == 11);
    assert("query"@[0] == 'q' && "count"@[0] == 'c' && "trust"@[0] == 't');
    assert("results"@[2] == 's' && "receipt"@[2] == 'c' && "results"@[0] == 'r');
    assert("fact_id"@[0] == 'f' && "receipt"@[0] == 'r' && "total_debt_micros"@[0] == 't');
    assert("unsupported_count"@[0] == 'u' && "budget_micros"@[0] == 'b');
    assert("gate_decision"@[0] == 'g' && "consumed_pct"@[0] == 'c' && "gate_summary"@[0] == 'g');
    assert("debit_count"@[3] == 'i' && "debt_micros"@[3] == 't');
    broadcast use crate::json::lemma_put_member, crate::json::lemma_no_member;

}

/// A judgment is prepared only for a ledger that is on and under a known name;
/// what is prepared judges the given claim with the state of that name, and
/// continues the ledger.
pub proof fn law_judgments_are_prepared_for_open_ledgers(
    store: StoreView,
    id: Seq<char>,
    claim: Seq<char>,
    judgment: Seq<char>,
    r: Result<PreparedJudgment, JudgmentError>,
)
    requires
        judged_as(store, id, claim, judgment, r),
    ensures
        r matches Ok(prepared) ==> {
            &&& store.enabled
            &&& prepared.claim_id@ == claim
            &&& judgment_state(unicode_lowered(judgment)) == Some(prepared.state)
            &&& prepared.entry@.event == (EventView::Judgment { claim, state: prepared.state })
            &&& store.continued_by(prepared.entry@)
        },
        r is Err && r->Err_0 is Invalid <==> judgment_state(unicode_lowered(judgment)) is None,
        r is Ok <==> {
            &&& store.enabled
            &&& judgment_state(unicode_lowered(judgment)) matches Some(state) && judgment_line_for(
                store,
                id,
                claim,
                state,
            ) is Ok
        },
{
}

}
