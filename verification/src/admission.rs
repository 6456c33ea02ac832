//! The rules that new facts pass, and what is recorded of where they come from.
use crate::json::{
    document_of,
    fields,
    texts_json,
    value_contents,
    Fields,
    Json,
    JsonView,
};
use crate::receipts::new_uuid;
use crate::text::{
    blank,
    cat2,
    cat3,
    holds,
    is_blank,
    join,
    joined,
    optional_text,
    optional_texts,
    same_text,
    texts,
    trim,
    trimmed,
};
use crate::tools::AddFactParams;
use crate::trust::ClaimTrustIndex;
use crate::witness::{digest_of_text, text_digest};
use vstd::prelude::*;

verus! {

/// The references that are not blank, in their order.
pub open spec fn nonblank(refs: Seq<Seq<char>>) -> Seq<Seq<char>>
    decreases refs.len(),
{
    if refs.len() == 0 {
        Seq::empty()
    } else if blank(refs.last()) {
        nonblank(refs.drop_last())
    } else {
        nonblank(refs.drop_last()).push(refs.last())
    }
}

/// The evidence that a request names explicitly.
pub open spec fn explicit_evidence(refs: Option<Seq<Seq<char>>>) -> Seq<Seq<char>> {
    match refs {
        Some(refs) => nonblank(refs),
        None => Seq::empty(),
    }
}

/// The evidence for a fact: what the request names, and its source unless that
/// is blank or named already.
pub open spec fn all_evidence(
    refs: Option<Seq<Seq<char>>>,
    source: Option<Seq<char>>,
) -> Seq<Seq<char>> {
    let named = explicit_evidence(refs);
    match source {
        Some(source) => if blank(source) || named.contains(source) {
            named
        } else {
            named.push(source)
        },
        None => named,
    }
}

/// The sensitivity of a fact.
pub open spec fn sensitivity_of(sensitivity: Option<Seq<char>>) -> Seq<char> {
    match sensitivity {
        Some(sensitivity) => sensitivity,
        None => "internal"@,
    }
}

/// What a fact is to be remembered as.
pub open spec fn memory_kind_of(kind: Option<Seq<char>>) -> Seq<char> {
    match kind {
        Some(kind) => kind,
        None => "durable_fact"@,
    }
}

/// Why a fact is refused, if it is: confidential and restricted content is
/// blocked, an inference needs evidence, and a key must not be blank.
pub open spec fn admission_fault(
    sensitivity: Option<Seq<char>>,
    kind: Option<Seq<char>>,
    refs: Option<Seq<Seq<char>>>,
    key: Option<Seq<char>>,
) -> Option<Seq<char>> {
    let class = sensitivity_of(sensitivity);
    if class == "confidential"@ || class == "restricted"@ {
        Some(
            "Admission gate BLOCKED: sensitivity='"@ + class
                + "' content cannot be stored without explicit user request"@,
        )
    } else if memory_kind_of(kind) == "ephemeral_inference"@ && explicit_evidence(refs).len() == 0 {
        Some(
            "Admission gate BLOCKED: ephemeral_inference requires evidence_refs to promote to durable"@,
        )
    } else if key is Some && blank(key->0) {
        Some("idempotency_key must not be blank"@)
    } else {
        None
    }
}

/// Where an admitted fact comes from.
pub enum FactOrigin {
    /// The operator's system: nothing supports the fact.
    Operator,
    /// External evidence, with its digest.
    Evidence { digest: String },
}

/// A fact that was admitted.
pub struct AdmittedFact {
    /// What supports the fact.
    pub evidence: Vec<String>,
    pub idempotency_key: String,
    pub origin: FactOrigin,
    /// What the fact is remembered as, how sensitive it is, and the references
    /// that came with it. The stable build keeps this beside the fact.
    pub metadata: Json,
}

/// The digest of evidence, if there is any.
pub open spec fn evidence_digest(evidence: Seq<Seq<char>>) -> Option<Seq<char>> {
    if evidence.len() == 0 {
        None
    } else {
        Some(digest_of_text(joined(evidence, "\n"@)))
    }
}

impl FactOrigin {
    /// The digest of the evidence, if there is any.
    pub open spec fn digest_view(self) -> Option<Seq<char>> {
        match self {
            FactOrigin::Operator => None,
            FactOrigin::Evidence { digest } => Some(digest@),
        }
    }
}

/// What is kept beside a fact.
pub open spec fn fact_metadata(
    kind: Seq<char>,
    sensitivity: Seq<char>,
    refs: Option<Seq<Seq<char>>>,
) -> JsonView {
    let list = fields().put("memory_kind"@, JsonView::Text(kind)).put(
        "sensitivity"@,
        JsonView::Text(sensitivity),
    );
    match refs {
        Some(refs) => list.put("evidence_refs"@, texts_json(refs)).object(),
        None => list.object(),
    }
}

/// The key of a request that came without one.
pub open spec fn fresh_key(id: Seq<char>) -> Seq<char> {
    "mcp-sm-add-fact:"@ + id
}

/// The key of a request: the one that it gives, else one from an identifier.
pub open spec fn admission_key(given: Option<Seq<char>>, id: Seq<char>) -> Seq<char> {
    match given {
        Some(key) => key,
        None => fresh_key(id),
    }
}

/// The references that are not blank, in their order.
fn nonblank_refs(refs: &Vec<String>) -> (r: Vec<String>)
    ensures
        texts(r@) == nonblank(texts(refs@)),
{
    let mut r: Vec<String> = Vec::new();
    let ghost all = texts(refs@);
    let mut i: usize = 0;
    assert(all.subrange(0, 0) =~= Seq::empty());
    assert(texts(r@) =~= Seq::empty());
    while i < refs.len()
        invariant
            i <= refs.len(),
            all == texts(refs@),
            texts(r@) == nonblank(all.subrange(0, i as int)),
        decreases refs.len() - i,
    {
        assert(all.subrange(0, i as int + 1).drop_last() =~= all.subrange(0, i as int));
        let ghost before = r@;
        if !is_blank(&refs[i]) {
            r.push(refs[i].clone());
            assert(texts(r@) =~= texts(before).push(all[i as int]));
        }
        i += 1;
    }
    assert(all.subrange(0, all.len() as int) =~= all);
    r
}

/// Whether a request for a fact is admitted, and with what. A request
/// without a key gets one from the given identifier.
pub fn check_admission_as(params: &AddFactParams, id: &str) -> (r: Result<AdmittedFact, String>)
    ensures
        ({
            let fault = admission_fault(
                optional_text(params.sensitivity),
                optional_text(params.memory_kind),
                optional_texts(params.evidence_refs),
                optional_text(params.idempotency_key),
            );
            match r {
                Err(message) => fault == Some(message@),
                Ok(fact) => {
                    &&& fault is None
                    &&& texts(fact.evidence@) == all_evidence(
                        optional_texts(params.evidence_refs),
                        optional_text(params.source),
                    )
                    &&& fact.idempotency_key@ == admission_key(
                        optional_text(params.idempotency_key),
                        id@,
                    )
                    &&& fact.origin.digest_view() == evidence_digest(texts(fact.evidence@))
                    &&& fact.metadata@ == fact_metadata(
                        memory_kind_of(optional_text(params.memory_kind)),
                        sensitivity_of(optional_text(params.sensitivity)),
                        optional_texts(params.evidence_refs),
                    )
                },
            }
        }),
{
    let sensitivity = match &params.sensitivity {
        Some(sensitivity) => sensitivity.clone(),
        None => "internal".to_owned(),
    };
    let kind = match &params.memory_kind {
        Some(kind) => kind.clone(),
        None => "durable_fact".to_owned(),
    };
    if same_text(&sensitivity, "confidential") || same_text(&sensitivity, "restricted") {
        return Err(
            cat3(
                "Admission gate BLOCKED: sensitivity='",
                &sensitivity,
                "' content cannot be stored without explicit user request",
            ),
        );
    }
    let mut evidence = match &params.evidence_refs {
        Some(refs) => nonblank_refs(refs),
        None => Vec::new(),
    };
    assert(texts(evidence@) =~= explicit_evidence(optional_texts(params.evidence_refs)));
    if same_text(&kind, "ephemeral_inference") && evidence.len() == 0 {
        return Err(
            "Admission gate BLOCKED: ephemeral_inference requires evidence_refs to promote to durable".to_owned(),
        );
    }
    if let Some(source) = &params.source {
        if !is_blank(source) && !holds(&evidence, source) {
            let ghost before = evidence@;
            evidence.push(source.clone());
            assert(texts(evidence@) =~= texts(before).push(source@));
        }
    }
    let idempotency_key = match &params.idempotency_key {
        Some(key) => {
            if is_blank(key) {
                return Err("idempotency_key must not be blank".to_owned());
            }
            key.clone()
        },
        None => cat2("mcp-sm-add-fact:", id),
    };
    let origin = if evidence.len() == 0 {
        FactOrigin::Operator
    } else {
        FactOrigin::Evidence { digest: text_digest(&join(&evidence, "\n")) }
    };
    let list = Fields::new().with_text("memory_kind", &kind).with_text("sensitivity", &sensitivity);
    let metadata = match &params.evidence_refs {
        Some(refs) => list.with("evidence_refs", Json::from_texts(refs)).object(),
        None => list.object(),
    };
    Ok(AdmittedFact { evidence, idempotency_key, origin, metadata })
}

/// Whether a request for a fact is admitted, and with what. A request
/// without a key gets a fresh one.
pub fn check_admission(params: &AddFactParams) -> (r: Result<AdmittedFact, String>)
    ensures
        ({
            let fault = admission_fault(
                optional_text(params.sensitivity),
                optional_text(params.memory_kind),
                optional_texts(params.evidence_refs),
                optional_text(params.idempotency_key),
            );
            match r {
                Err(message) => fault == Some(message@),
                Ok(fact) => {
                    &&& fault is None
                    &&& texts(fact.evidence@) == all_evidence(
                        optional_texts(params.evidence_refs),
                        optional_text(params.source),
                    )
                    &&& exists|id: Seq<char>|
                        fact.idempotency_key@ == #[trigger] admission_key(
                            optional_text(params.idempotency_key),
                            id,
                        )
                    &&& fact.origin.digest_view() == evidence_digest(texts(fact.evidence@))
                    &&& fact.metadata@ == fact_metadata(
                        memory_kind_of(optional_text(params.memory_kind)),
                        sensitivity_of(optional_text(params.sensitivity)),
                        optional_texts(params.evidence_refs),
                    )
                },
            }
        }),
{
    check_admission_as(params, &new_uuid())
}

/// References by their digests: the form in which a permit names evidence.
pub fn evidence_digests(evidence: &Vec<String>) -> (digests: Vec<String>)
    ensures
        texts(digests@) == texts(evidence@).map_values(|text: Seq<char>| digest_of_text(text)),
{
    let mut digests: Vec<String> = Vec::new();
    let mut i: usize = 0;
    while i < evidence.len()
        invariant
            i <= evidence@.len(),
            digests@.len() == i,
            forall|j: int| 0 <= j < i ==> (#[trigger] digests@[j])@ == digest_of_text(evidence@[j]@),
        decreases evidence.len() - i,
    {
        digests.push(text_digest(&evidence[i]));
        i += 1;
    }
    assert(texts(digests@) =~= texts(evidence@).map_values(
        |text: Seq<char>| digest_of_text(text),
    ));
    digests
}

/// A key that a request gives is handed on as it is, so that equal keys stay
/// equal. Requests without a key get different ones from different identifiers.
pub proof fn law_admission_keys(given: Option<Seq<char>>, id: Seq<char>, other: Seq<char>)
    ensures
        given is Some ==> admission_key(given, id) == given->0 && admission_key(given, other)
            == given->0,
        given is None && id != other ==> admission_key(given, id) != admission_key(given, other),
{
    if given is None && fresh_key(id) == fresh_key(other) {
        let prefix = fresh_key(Seq::empty());
        assert(fresh_key(id).subrange(prefix.len() as int, fresh_key(id).len() as int) =~= id);
        assert(fresh_key(other).subrange(prefix.len() as int, fresh_key(other).len() as int)
            =~= other);
    }
}

/// Confidential and restricted content is never admitted.
pub proof fn law_sensitive_facts_are_blocked(
    sensitivity: Seq<char>,
    kind: Option<Seq<char>>,
    refs: Option<Seq<Seq<char>>>,
    key: Option<Seq<char>>,
)
    requires
        sensitivity == "confidential"@ || sensitivity == "restricted"@,
    ensures
        admission_fault(Some(sensitivity), kind, refs, key) is Some,
{
}

/// An inference is admitted only with a reference that is not blank; its
/// source alone does not do.
pub proof fn law_inferences_need_evidence(
    sensitivity: Option<Seq<char>>,
    refs: Option<Seq<Seq<char>>>,
    key: Option<Seq<char>>,
)
    requires
        admission_fault(sensitivity, Some("ephemeral_inference"@), refs, key) is None,
    ensures
        refs is Some,
        exists|i: int| 0 <= i < refs->0.len() && !blank(#[trigger] refs->0[i]),
{
    lemma_nonblank_source(refs->0);
}

/// What is not blank among references is one of them.
proof fn lemma_nonblank_source(refs: Seq<Seq<char>>)
    ensures
        nonblank(refs).len() > 0 ==> exists|i: int|
            0 <= i < refs.len() && !blank(#[trigger] refs[i]),
    decreases refs.len(),
{
    if refs.len() > 0 {
        if blank(refs.last()) {
            lemma_nonblank_source(refs.drop_last());
            if nonblank(refs).len() > 0 {
                let i = choose|i: int|
                    0 <= i < refs.drop_last().len() && !blank(#[trigger] refs.drop_last()[i]);
                assert(!blank(refs[i]));
            }
        } else {
            assert(!blank(refs[refs.len() - 1]));
        }
    }
}

/// The reply to a fact that was added.
pub open spec fn fact_added(id: Seq<char>, namespace: Seq<char>, receipt: JsonView) -> JsonView {
    fields().put("ok"@, JsonView::Bool(true)).put("fact_id"@, JsonView::Text(id)).put(
        "namespace"@,
        JsonView::Text(namespace),
    ).put("receipt"@, receipt).put("message"@, JsonView::Text("Fact added successfully"@)).object()
}

/// The identifier of the fact that an append affected.
pub fn appended_fact(affected: &Vec<String>) -> (r: Result<String, String>)
    ensures
        (match r {
            Ok(id) => affected@.len() > 0 && id@ == affected@[0]@,
            Err(message) => affected@.len() == 0 && message@
                == "authority append returned no affected fact id"@,
        }),
{
    if affected.len() > 0 {
        Ok(affected[0].clone())
    } else {
        Err("authority append returned no affected fact id".to_owned())
    }
}

/// The reply to a fact that was added. The index links the fact to a claim with
/// a matching content, if there is one.
pub fn finish_add_fact(
    index: &mut ClaimTrustIndex,
    id: &str,
    namespace: &str,
    content: &str,
    receipt: Json,
) -> (reply: Json)
    ensures
        final(index)@ == old(index)@.auto_linked(id@, content@),
        reply@ == fact_added(id@, namespace@, receipt@),
{
    index.auto_link_content(id, content);
    Fields::new().with_bool("ok", true).with_text("fact_id", id).with_text(
        "namespace",
        namespace,
    ).with("receipt", receipt).with_text("message", "Fact added successfully").object()
}

/// The instruction for a model to extract the entities of a content.
pub open spec fn entity_prompt(content: Seq<char>) -> Seq<char> {
    "Extract entities from this text as JSON. Format: {\"entities\": [{\"name\": \"...\", \"type\": \"person|project|concept|tool|version|path\"}]}\nText: "@
        + content + "\nJSON:"@
}

/// The request for a model to extract the entities of a content.
pub fn entity_request(content: &str) -> (body: Json)
    ensures
        body@ == fields().put("model"@, JsonView::Text("granite4.1:3b"@)).put(
            "prompt"@,
            JsonView::Text(entity_prompt(content@)),
        ).put("stream"@, JsonView::Bool(false)).put(
            "options"@,
            fields().put("temperature"@, JsonView::Unsigned(0)).put(
                "num_predict"@,
                JsonView::Unsigned(200),
            ).object(),
        ).object(),
{
    let prompt = cat3(
        "Extract entities from this text as JSON. Format: {\"entities\": [{\"name\": \"...\", \"type\": \"person|project|concept|tool|version|path\"}]}\nText: ",
        content,
        "\nJSON:",
    );
    Fields::new().with_text("model", "granite4.1:3b").with_text("prompt", &prompt).with_bool(
        "stream",
        false,
    ).with(
        "options",
        Fields::new().with_count("temperature", 0).with_count("num_predict", 200).object(),
    ).object()
}

/// What `boundary_compiler::parse_with_dup_check` reads in a text, if it
/// accepts it.
pub uninterp spec fn strict_document(text: Seq<char>) -> Option<JsonView>;

/// `boundary_compiler::parse_with_dup_check`: a JSON document no object of
/// which has two fields with one key. Which texts it accepts is not stated.
#[verifier::external_body]
fn strict_value(text: &str) -> (r: Option<serde_json::Value>)
    ensures
        (match r {
            Some(value) => strict_document(text@) == Some(value_contents(value)),
            None => strict_document(text@) is None,
        }),
{
    boundary_compiler::parse_with_dup_check(text).ok()
}

/// The nodes of the entities that a list names; an item without a name is
/// passed over.
pub open spec fn entity_nodes(items: Seq<JsonView>) -> Seq<Seq<char>>
    decreases items.len(),
{
    if items.len() == 0 {
        Seq::empty()
    } else {
        let before = entity_nodes(items.drop_last());
        match items.last().text_member("name"@) {
            Some(name) => before.push("entity:"@ + name),
            None => before,
        }
    }
}

/// The nodes of the entities that a document names.
pub open spec fn entities_in(document: Option<JsonView>) -> Seq<Seq<char>> {
    match document {
        Some(document) => match document.member("entities"@) {
            Some(JsonView::Array(items)) => entity_nodes(items),
            _ => Seq::empty(),
        },
        None => Seq::empty(),
    }
}

/// The nodes of the entities that a document names.
pub fn named_entities(document: &Json) -> (nodes: Vec<String>)
    ensures
        texts(nodes@) == entities_in(Some(document@)),
{
    let mut nodes: Vec<String> = Vec::new();
    assert(texts(nodes@) =~= Seq::empty());
    let items = match document.get("entities") {
        Some(Json::Array(items)) => items,
        _ => {
            return nodes;
        },
    };
    let ghost all = document@.member("entities"@)->0->Array_0;
    let mut i: usize = 0;
    assert(all.subrange(0, 0) =~= Seq::empty());
    while i < items.len()
        invariant
            i <= items.len(),
            all.len() == items@.len(),
            forall|j: int| 0 <= j < items@.len() ==> #[trigger] all[j] == items@[j]@,
            texts(nodes@) == entity_nodes(all.subrange(0, i as int)),
        decreases items.len() - i,
    {
        assert(all.subrange(0, i as int + 1).drop_last() =~= all.subrange(0, i as int));
        assert(all[i as int] == items@[i as int]@);
        if let Some(name) = items[i].get_text("name") {
            let ghost before = nodes@;
            nodes.push(cat2("entity:", name));
            assert(texts(nodes@) =~= texts(before).push("entity:"@ + name@));
        }
        i += 1;
    }
    assert(all.subrange(0, all.len() as int) =~= all);
    nodes
}

/// The nodes of the entities that a model's reply names; none where the reply
/// is no such document.
pub fn read_entities(reply: &Json) -> (nodes: Vec<String>)
    ensures
        texts(nodes@) == (match reply@.text_member("response"@) {
            Some(text) => entities_in(strict_document(trimmed(text))),
            None => Seq::empty(),
        }),
{
    let nothing: Vec<String> = Vec::new();
    assert(texts(nothing@) =~= Seq::empty());
    match reply.get_text("response") {
        Some(text) => match strict_value(&trim(text)) {
            Some(value) => named_entities(&document_of(value)),
            None => nothing,
        },
        None => nothing,
    }
}

/// A fact is admitted just where its content is neither confidential nor
/// restricted, it is no inference without a reference that is not blank, and its
/// key, if it has one, is not blank. A fact of which nothing is said is admitted.
pub proof fn law_facts_are_admitted_unless_blocked(
    sensitivity: Option<Seq<char>>,
    kind: Option<Seq<char>>,
    refs: Option<Seq<Seq<char>>>,
    key: Option<Seq<char>>,
)
    ensures
        admission_fault(sensitivity, kind, refs, key) is None <==> {
            &&& sensitivity != Some("confidential"@) && sensitivity != Some("restricted"@)
            &&& kind == Some("ephemeral_inference"@) ==> refs is Some && exists|i: int|
                0 <= i < refs->0.len() && !blank(#[trigger] refs->0[i])
            &&& key matches Some(given) ==> !blank(given)
        },
        admission_fault(None, None, refs, None) is None,
{
    reveal_strlit("internal");
    reveal_strlit("confidential");
    reveal_strlit("restricted");
    reveal_strlit("durable_fact");
    reveal_strlit("ephemeral_inference");
    assert("internal"@.len() == 8 && "confidential"@.len() == 12 && "restricted"@.len() == 10);
    assert("durable_fact"@.len() == 12 && "ephemeral_inference"@.len() == 19);
    if let Some(list) = refs {
        lemma_nonblank_source(list);
        if exists|i: int| 0 <= i < list.len() && !blank(#[trigger] list[i]) {
            let i = choose|i: int| 0 <= i < list.len() && !blank(#[trigger] list[i]);
            law_nonblank_references_are_kept(list, list[i]);
            assert(nonblank(list).contains(list[i]));
            assert(nonblank(list).len() > 0);
        }
    }
}

/// Every reference that is not blank is kept, and no other.
pub proof fn law_nonblank_references_are_kept(refs: Seq<Seq<char>>, sought: Seq<char>)
    ensures
        nonblank(refs).contains(sought) <==> refs.contains(sought) && !blank(sought),
        nonblank(refs).len() <= refs.len(),
    decreases refs.len(),
{
    if refs.len() > 0 {
        let fewer = refs.drop_last();
        let before = nonblank(fewer);
        let all = nonblank(refs);
        law_nonblank_references_are_kept(fewer, sought);
        if fewer.contains(sought) {
            let i = choose|i: int| 0 <= i < fewer.len() && fewer[i] == sought;
            assert(refs[i] == sought);
        }
        if refs.contains(sought) && refs.last() != sought {
            let i = choose|i: int| 0 <= i < refs.len() && refs[i] == sought;
            assert(fewer[i] == sought);
        }
        assert(refs[refs.len() - 1] == refs.last());
        if before.contains(sought) {
            let i = choose|i: int| 0 <= i < before.len() && before[i] == sought;
            assert(all[i] == sought);
        }
        if !blank(refs.last()) {
            assert(all[before.len() as int] == refs.last());
            if all.contains(sought) && refs.last() != sought {
                let i = choose|i: int| 0 <= i < all.len() && all[i] == sought;
                assert(before[i] == sought);
            }
        }
    }
}

/// The references of two lists one after the other are kept one after the other:
/// the order of the request stays.
pub proof fn law_references_keep_their_order(first: Seq<Seq<char>>, second: Seq<Seq<char>>)
    ensures
        nonblank(first + second) == nonblank(first) + nonblank(second),
    decreases second.len(),
{
    if second.len() == 0 {
        assert(first + second =~= first);
        assert(nonblank(first) + nonblank(second) =~= nonblank(first));
    } else {
        let fewer = second.drop_last();
        law_references_keep_their_order(first, fewer);
        assert((first + second).drop_last() =~= first + fewer);
        assert((first + second).last() == second.last());
        if !blank(second.last()) {
            assert((nonblank(first) + nonblank(fewer)).push(second.last()) =~= nonblank(first)
                + nonblank(fewer).push(second.last()));
        }
    }
}

/// What supports a fact is every reference and the source, unless blank, and
/// nothing else; a source that is named among the references counts once. A fact
/// has a digest of its evidence just where anything supports it.
pub proof fn law_evidence_is_complete(
    refs: Option<Seq<Seq<char>>>,
    source: Option<Seq<char>>,
    sought: Seq<char>,
)
    ensures
        all_evidence(refs, source).contains(sought) <==> !blank(sought) && ((refs is Some
            && refs->0.contains(sought)) || source == Some(sought)),
        refs is Some && source is Some && refs->0.contains(source->0) ==> all_evidence(refs, source)
            == nonblank(refs->0),
        evidence_digest(all_evidence(refs, source)) is Some <==> exists|e: Seq<char>|
            #[trigger] all_evidence(refs, source).contains(e),
{
    let named = explicit_evidence(refs);
    let all = all_evidence(refs, source);
    if let Some(list) = refs {
        law_nonblank_references_are_kept(list, sought);
        if let Some(given) = source {
            law_nonblank_references_are_kept(list, given);
        }
    }
    if let Some(given) = source {
        if !blank(given) && !named.contains(given) {
            assert(all[named.len() as int] == given);
            if named.contains(sought) {
                let i = choose|i: int| 0 <= i < named.len() && named[i] == sought;
                assert(all[i] == sought);
            }
            if all.contains(sought) && sought != given {
                let i = choose|i: int| 0 <= i < all.len() && all[i] == sought;
                assert(named[i] == sought);
            }
        }
    }
    if all.len() > 0 {
        assert(all.contains(all[0]));
    }
}

/// What is kept beside a fact is what the request says it is remembered as and
/// how sensitive it is.
pub proof fn law_admitted_facts_keep_their_class(
    kind: Seq<char>,
    sensitivity: Seq<char>,
    refs: Option<Seq<Seq<char>>>,
)
    ensures
        fact_metadata(kind, sensitivity, refs).text_member("memory_kind"@) == Some(kind),
        fact_metadata(kind, sensitivity, refs).text_member("sensitivity"@) == Some(sensitivity),
        fact_metadata(kind, sensitivity, refs).member("evidence_refs"@) == (match refs {
            Some(refs) => Some(texts_json(refs)),
            None => None,
        }),
{
    reveal_strlit("memory_kind");
    reveal_strlit("sensitivity");
    reveal_strlit("evidence_refs");
    assert("memory_kind"@.len() == 11 && "memory_kind"@[0] == 'm' && "sensitivity"@[0] == 's');
    assert("sensitivity"@.len() == 11 && "evidence_refs"@.len() == 13);
    broadcast use crate::json::lemma_put_member, crate::json::lemma_no_member;

}

/// Every named entity has its node, and there is no other node.
pub proof fn law_named_entities_have_nodes(items: Seq<JsonView>, node: Seq<char>)
    ensures
        entity_nodes(items).contains(node) <==> exists|i: int|
            0 <= i < items.len() && (#[trigger] items[i]).text_member("name"@) is Some && node
                == "entity:"@ + items[i].text_member("name"@)->0,
    decreases items.len(),
{
    if items.len() > 0 {
        let fewer = items.drop_last();
        let last = items.len() - 1;
        let before = entity_nodes(fewer);
        let all = entity_nodes(items);
        law_named_entities_have_nodes(fewer, node);
        if before.contains(node) {
            let k = choose|k: int| 0 <= k < before.len() && before[k] == node;
            assert(all[k] == node);
            let i = choose|i: int|
                0 <= i < fewer.len() && (#[trigger] fewer[i]).text_member("name"@) is Some && node
                    == "entity:"@ + fewer[i].text_member("name"@)->0;
            assert(items[i] == fewer[i]);
        }
        if all.contains(node) && !before.contains(node) {
            let k = choose|k: int| 0 <= k < all.len() && all[k] == node;
            if k < before.len() {
                assert(before[k] == node);
            }
            assert(items[last].text_member("name"@) is Some);
        }
        if exists|i: int|
            0 <= i < items.len() && (#[trigger] items[i]).text_member("name"@) is Some && node
                == "entity:"@ + items[i].text_member("name"@)->0 {
            let i = choose|i: int|
                0 <= i < items.len() && (#[trigger] items[i]).text_member("name"@) is Some && node
                    == "entity:"@ + items[i].text_member("name"@)->0;
            if i < last {
                assert(fewer[i] == items[i]);
            } else {
                assert(all[before.len() as int] == node);
            }
        }
    }
}

/// What a request does not say is taken for internal, durable and without
/// evidence; what it says is taken as it is.
pub proof fn law_requests_are_completed(given: Seq<char>, refs: Seq<Seq<char>>)
    ensures
        sensitivity_of(None) == "internal"@,
        sensitivity_of(Some(given)) == given,
        memory_kind_of(None) == "durable_fact"@,
        memory_kind_of(Some(given)) == given,
        explicit_evidence(None).len() == 0,
        explicit_evidence(Some(refs)) == nonblank(refs),
{
}

/// A request that gives its key keeps it; of those that give none, different
/// identifiers make different keys.
pub proof fn law_keys_are_kept_or_differ(given: Seq<char>, a: Seq<char>, b: Seq<char>)
    ensures
        admission_key(Some(given), a) == given,
        admission_key(None, a) == admission_key(None, b) ==> a == b,
{
    if fresh_key(a) == fresh_key(b) {
        let n = "mcp-sm-add-fact:"@.len() as int;
        assert(fresh_key(a).subrange(n, fresh_key(a).len() as int) =~= a);
        assert(fresh_key(b).subrange(n, fresh_key(b).len() as int) =~= b);
    }
}

/// A fact that was added is told with its identifier and its namespace.
pub proof fn law_added_facts_are_told(id: Seq<char>, namespace: Seq<char>, receipt: JsonView)
    ensures
        fact_added(id, namespace, receipt).text_member("fact_id"@) == Some(id),
        fact_added(id, namespace, receipt).text_member("namespace"@) == Some(namespace),
        fact_added(id, namespace, receipt).member("receipt"@) == Some(receipt),
        fact_added(id, namespace, receipt).true_member("ok"@),
{
    reveal_strlit("ok");
    reveal_strlit("fact_id");
    reveal_strlit("namespace");
    reveal_strlit("receipt");
    reveal_strlit("message");
    assert("ok"@.len() == 2 && "fact_id"@.len() == 7 && "namespace"@.len() == 9);
    assert("receipt"@.len() == 7 && "message"@.len() == 7 && "fact_id"@[0] == 'f');
    assert("receipt"@[0] == 'r' && "message"@[0] == 'm');
    broadcast use crate::json::lemma_put_member, crate::json::lemma_no_member;

}

}
