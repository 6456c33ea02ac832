//! Feedback on routing: labels that callers give, gathered into batches before
//! the policy is stored.
use crate::http_api::{outcome_by_name, outcome_named, RoutingOutcome};
use crate::json::{fields, Fields, Json, JsonView};
use crate::routing::{decision_fields, with_decision, RoutingDecision};
use crate::text::{cat3, to_lowercase, unicode_lowered};
use vstd::prelude::*;

verus! {

/// How many outcomes are recorded before the policy is stored.
pub const PERSIST_BATCH: usize = 10;

/// The outcomes that were recorded since the policy was last stored.
#[derive(Clone, Copy, Debug)]
pub struct OutcomeBatch {
    pub pending: usize,
}

impl OutcomeBatch {
    /// An empty batch.
    pub fn new() -> (batch: OutcomeBatch)
        ensures
            batch.pending == 0,
    {
        OutcomeBatch { pending: 0 }
    }

    /// Notes an outcome. Says whether the policy is to be stored now.
    pub fn record(&mut self) -> (persist: bool)
        requires
            old(self).pending < usize::MAX,
        ensures
            final(self).pending == old(self).pending + 1,
            persist == (final(self).pending >= PERSIST_BATCH),
    {
        self.pending = self.pending + 1;
        self.pending >= PERSIST_BATCH
    }

    /// Notes that the policy was stored.
    pub fn stored(&mut self)
        ensures
            final(self).pending == 0,
    {
        self.pending = 0;
    }
}

/// A label names an outcome.
pub open spec fn names_outcome(label: Seq<char>) -> bool {
    outcome_named(unicode_lowered(label)) is Some
}

/// How many of some labels name an outcome.
pub open spec fn named_count(labels: Seq<Seq<char>>) -> nat
    decreases labels.len(),
{
    if labels.len() == 0 {
        0
    } else if names_outcome(labels.last()) {
        named_count(labels.drop_last()) + 1
    } else {
        named_count(labels.drop_last())
    }
}

/// The outcomes that are pending after requests with these labels, each store
/// of the policy having succeeded. A label that names no outcome is refused
/// before anything is noted.
pub open spec fn pending_after(labels: Seq<Seq<char>>) -> nat
    decreases labels.len(),
{
    if labels.len() == 0 {
        0
    } else {
        let before = pending_after(labels.drop_last());
        if !names_outcome(labels.last()) {
            before
        } else if before + 1 >= PERSIST_BATCH {
            0
        } else {
            before + 1
        }
    }
}

/// The last of these requests stores the policy.
pub open spec fn stores_policy(labels: Seq<Seq<char>>) -> bool {
    labels.len() > 0 && names_outcome(labels.last()) && pending_after(labels.drop_last()) + 1
        >= PERSIST_BATCH
}

/// The policy is stored with every tenth outcome and with no other. A request
/// whose label names no outcome is not counted and changes nothing.
pub proof fn law_every_tenth_outcome_is_stored(labels: Seq<Seq<char>>)
    ensures
        pending_after(labels) == named_count(labels) % 10,
        stores_policy(labels) <==> labels.len() > 0 && names_outcome(labels.last()) && named_count(
            labels,
        ) % 10 == 0,
        labels.len() > 0 && !names_outcome(labels.last()) ==> pending_after(labels)
            == pending_after(labels.drop_last()),
    decreases labels.len(),
{
    if labels.len() > 0 {
        law_every_tenth_outcome_is_stored(labels.drop_last());
    }
}

/// The outcome that a label names, in any letter case.
pub fn read_outcome_label(label: &str) -> (r: Result<RoutingOutcome, String>)
    ensures
        (match (outcome_named(unicode_lowered(label@)), r) {
            (Some(outcome), Ok(read)) => read == outcome,
            (None, Err(message)) => message@ == "outcome must be 'good', 'bad', or 'neutral', got '"@
                + label@ + "'"@,
            _ => false,
        }),
{
    match outcome_by_name(&to_lowercase(label)) {
        Some(outcome) => Ok(outcome),
        None => Err(cat3("outcome must be 'good', 'bad', or 'neutral', got '", label, "'")),
    }
}

/// The policy after an outcome was recorded, as the reply tells it. What the
/// policy has learned is handed on as it is.
pub struct PolicyState {
    pub trained_examples: u64,
    pub baseline: Json,
    pub weights: Json,
    pub last_updated: Json,
    pub persisted: bool,
    pub pending_outcomes: usize,
}

/// The reply to an outcome that was recorded.
pub open spec fn outcome_reply(
    query: Seq<char>,
    label: Seq<char>,
    decision: RoutingDecision,
    state: PolicyState,
    receipt: JsonView,
) -> JsonView {
    fields().put("ok"@, JsonView::Bool(true)).put("receipt"@, receipt).put(
        "mutating"@,
        JsonView::Bool(true),
    ).put("query"@, JsonView::Text(query)).put(
        "feedback"@,
        fields().put("kind"@, JsonView::Text("ProxyLabel"@)).put(
            "label"@,
            JsonView::Text(label),
        ).object(),
    ).put("routing_decision"@, decision_fields(fields(), decision@).object()).put(
        "policy_state"@,
        fields().put("trained_examples"@, JsonView::Unsigned(state.trained_examples)).put(
            "baseline"@,
            state.baseline@,
        ).put("weights"@, state.weights@).put("last_updated"@, state.last_updated@).put(
            "persisted"@,
            JsonView::Bool(state.persisted),
        ).put("pending_outcomes"@, JsonView::Unsigned(state.pending_outcomes as u64)).object(),
    ).put(
        "message"@,
        JsonView::Text(
            "Routing outcome recorded (best-effort). NOTE: outcome is associated with a recomputed decision, not the original served decision."@,
        ),
    ).object()
}

/// The reply to an outcome that was recorded. It is marked as a change, and the
/// label as one that nobody verified.
pub fn finish_record_outcome(
    query: &str,
    label: &str,
    decision: &RoutingDecision,
    state: &PolicyState,
    receipt: Json,
) -> (reply: Json)
    ensures
        reply@ == outcome_reply(query@, label@, *decision, *state, receipt@),
{
    let policy = Fields::new().with("trained_examples", Json::Unsigned(state.trained_examples)).with(
        "baseline",
        state.baseline.copy(),
    ).with("weights", state.weights.copy()).with("last_updated", state.last_updated.copy()).with_bool(
        "persisted",
        state.persisted,
    ).with_count("pending_outcomes", state.pending_outcomes).object();
    Fields::new().with_bool("ok", true).with("receipt", receipt).with_bool("mutating", true).with_text(
        "query",
        query,
    ).with(
        "feedback",
        Fields::new().with_text("kind", "ProxyLabel").with_text("label", label).object(),
    ).with("routing_decision", with_decision(Fields::new(), decision).object()).with(
        "policy_state",
        policy,
    ).with_text(
        "message",
        "Routing outcome recorded (best-effort). NOTE: outcome is associated with a recomputed decision, not the original served decision.",
    ).object()
}

/// A stored routing policy, as far as the reply goes.
pub struct StoredPolicy {
    pub weights: Json,
    pub trained_examples: u64,
    pub trained: bool,
    pub last_updated: Json,
}

/// The reply to a request for the stored policy.
pub fn finish_get_policy(policy: &Option<StoredPolicy>) -> (reply: Json)
    ensures
        reply@ == fields().put("ok"@, JsonView::Bool(true)).put(
            "policy"@,
            match *policy {
                Some(policy) => fields().put("weights"@, policy.weights@).put(
                    "training_examples_count"@,
                    JsonView::Unsigned(policy.trained_examples),
                ).put("trained"@, JsonView::Bool(policy.trained)).put(
                    "last_updated"@,
                    policy.last_updated@,
                ).object(),
                None => JsonView::Null,
            },
        ).object(),
{
    let document = match policy {
        Some(policy) => Fields::new().with("weights", policy.weights.copy()).with(
            "training_examples_count",
            Json::Unsigned(policy.trained_examples),
        ).with_bool("trained", policy.trained).with(
            "last_updated",
            policy.last_updated.copy(),
        ).object(),
        None => Json::Null,
    };
    Fields::new().with_bool("ok", true).with("policy", document).object()
}

/// The reply to an outcome tells its label and the query, and how many outcomes
/// the policy has learned from and still has to.
pub proof fn law_outcomes_are_told(
    query: Seq<char>,
    label: Seq<char>,
    decision: RoutingDecision,
    state: PolicyState,
    receipt: JsonView,
)
    ensures
        ({
            let reply = outcome_reply(query, label, decision, state, receipt);
            &&& reply.text_member("query"@) == Some(query)
            &&& reply.member("receipt"@) == Some(receipt)
            &&& reply.member("feedback"@) matches Some(feedback) && feedback.text_member("label"@)
                == Some(label)
            &&& reply.member("policy_state"@) matches Some(policy) && policy.member(
                "trained_examples"@,
            ) == Some(JsonView::Unsigned(state.trained_examples)) && policy.member(
                "pending_outcomes"@,
            ) == Some(JsonView::Unsigned(state.pending_outcomes as u64)) && (policy.true_member(
                "persisted"@,
            ) <==> state.persisted)
        }),
{
    reveal_strlit("ok");
    reveal_strlit("receipt");
    reveal_strlit("mutating");
    reveal_strlit("query");
    reveal_strlit("feedback");
    reveal_strlit("kind");
    reveal_strlit("label");
    reveal_strlit("routing_decision");
    reveal_strlit("policy_state");
    reveal_strlit("trained_examples");
    reveal_strlit("baseline");
    reveal_strlit("weights");
    reveal_strlit("last_updated");
    reveal_strlit("persisted");
    reveal_strlit("pending_outcomes");
    reveal_strlit("message");
    assert("ok"@.len() == 2 && "receipt"@.len() == 7 && "mutating"@.len() == 8);
    assert("query"@.len() == 5 && "feedback"@.len() == 8 && "kind"@.len() == 4);
    assert("label"@.len() == 5 && "routing_decision"@.len() == 16 && "policy_state"@.len() == 12);
    assert("trained_examples"@.len() == 16 && "baseline"@.len() == 8 && "weights"@.len() == 7);
    assert("last_updated"@.len() == 12 && "persisted"@.len() == 9);
    assert("pending_outcomes"@.len() == 16 && "message"@.len() == 7 && "receipt"@[0] == 'r');
    assert("weights"@[0] == 'w' && "message"@[0] == 'm' && "mutating"@[0] == 'm');
    assert("feedback"@[0] == 'f' && "baseline"@[0] == 'b' && "query"@[0] == 'q');
    assert("label"@[0] == 'l' && "routing_decision"@[0] == 'r' && "trained_examples"@[0] == 't');
    assert("pending_outcomes"@[0] == 'p' && "policy_state"@[0] == 'p');
    assert("last_updated"@[0] == 'l');
    broadcast use crate::json::lemma_put_member, crate::json::lemma_no_member;

}

}
