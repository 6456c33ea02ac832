//! Writes that clients ask for over HTTP: edges and deletions.
use crate::facts::{finish_forgetting, forgotten_json};
use crate::graph_tools::{
    added_edge_json,
    edge_metadata,
    finish_add_edge,
    EdgeDetails,
    StoredEdge,
};
use crate::http_api::{
    failure,
    failure_view,
    invalid_json,
    read_body,
    HttpStatus,
    Reply,
    ReplyView,
};
use crate::json::{read_document, Json, JsonView};
use crate::text::{
    ascii_lowered,
    cat2,
    cat3,
    optional_text,
    optional_texts,
    same_text,
    to_ascii_lowercase,
};
use crate::tools::EdgeType;
use vstd::prelude::*;

verus! {

/// The edge type of a name, whatever the case of its letters.
pub open spec fn edge_type_named(name: Seq<char>) -> Option<EdgeType> {
    let lowered = ascii_lowered(name);
    if lowered == "semantic"@ {
        Some(EdgeType::Semantic)
    } else if lowered == "temporal"@ {
        Some(EdgeType::Temporal)
    } else if lowered == "causal"@ {
        Some(EdgeType::Causal)
    } else if lowered == "entity"@ {
        Some(EdgeType::Entity)
    } else {
        None
    }
}

/// The edge type of a name.
pub fn edge_type_by_name(name: &str) -> (r: Option<EdgeType>)
    ensures
        r == edge_type_named(name@),
{
    let lowered = to_ascii_lowercase(name);
    if same_text(&lowered, "semantic") {
        Some(EdgeType::Semantic)
    } else if same_text(&lowered, "temporal") {
        Some(EdgeType::Temporal)
    } else if same_text(&lowered, "causal") {
        Some(EdgeType::Causal)
    } else if same_text(&lowered, "entity") {
        Some(EdgeType::Entity)
    } else {
        None
    }
}

/// What a request gives under a name. A null gives nothing.
pub open spec fn given(params: JsonView, key: Seq<char>) -> Option<JsonView> {
    match params.member(key) {
        Some(JsonView::Null) => None,
        value => value,
    }
}

/// A document that is a number.
pub open spec fn is_number(value: JsonView) -> bool {
    value is Unsigned || value is Negative || value is Decimal
}

/// What is wrong with a number that a request gives.
pub open spec fn number_fault(params: JsonView, key: Seq<char>) -> Option<Seq<char>> {
    match given(params, key) {
        Some(value) => if is_number(value) {
            None
        } else {
            Some(key + " must be a number"@)
        },
        None => None,
    }
}

/// What is wrong with a text that a request gives.
pub open spec fn text_fault(params: JsonView, key: Seq<char>) -> Option<Seq<char>> {
    match given(params, key) {
        Some(value) => if value is Text {
            None
        } else {
            Some(key + " must be a string"@)
        },
        None => None,
    }
}

/// A text that a request gives.
pub open spec fn given_text(params: JsonView, key: Seq<char>) -> Option<Seq<char>> {
    match given(params, key) {
        Some(value) => value.text(),
        None => None,
    }
}

/// Why a text that a request must give is refused.
pub open spec fn missing_text(params: JsonView, key: Seq<char>) -> Option<Seq<char>> {
    if params.text_member_or(key, ""@).len() == 0 {
        Some("missing '"@ + key + "' field"@)
    } else {
        None
    }
}

/// The edge type that a request names.
pub open spec fn edge_type_of(params: JsonView) -> Option<EdgeType> {
    edge_type_named(params.text_member_or("edge_type"@, ""@))
}

/// What is wrong with the metadata that a request gives.
pub open spec fn metadata_fault(params: JsonView) -> Option<Seq<char>> {
    match given_text(params, "metadata"@) {
        Some(text) => match read_document(text) {
            Ok(_) => None,
            Err(fault) => Some("metadata is not valid JSON: "@ + fault),
        },
        None => None,
    }
}

/// The first of two faults.
pub open spec fn first_fault(a: Option<Seq<char>>, b: Option<Seq<char>>) -> Option<Seq<char>> {
    if a is Some {
        a
    } else {
        b
    }
}

/// Why an edge that a request names by its ends and its type is refused.
pub open spec fn ends_fault(params: JsonView) -> Option<Seq<char>> {
    first_fault(
        missing_text(params, "source"@),
        first_fault(
            missing_text(params, "target"@),
            if edge_type_of(params) is None {
                Some("edge_type must be semantic, temporal, causal, or entity"@)
            } else {
                None
            },
        ),
    )
}

/// Why the numbers of an edge are refused.
pub open spec fn numbers_fault(params: JsonView) -> Option<Seq<char>> {
    first_fault(
        number_fault(params, "weight"@),
        first_fault(
            number_fault(params, "cosine_similarity"@),
            number_fault(params, "confidence"@),
        ),
    )
}

/// Why the details of an edge are refused.
pub open spec fn details_fault(params: JsonView) -> Option<Seq<char>> {
    first_fault(
        match given(params, "delta_secs"@) {
            Some(value) => if value is Unsigned {
                None
            } else {
                Some("delta_secs must be an unsigned integer"@)
            },
            None => None,
        },
        first_fault(
            match given(params, "evidence_ids"@) {
                Some(value) => if value.text_list() is Some {
                    None
                } else {
                    Some("evidence_ids must be a list of strings"@)
                },
                None => None,
            },
            text_fault(params, "relation"@),
        ),
    )
}

/// Why a request for an edge is refused: the first fault in the order of the
/// ends and the type, the numbers, the other details, and the metadata.
pub open spec fn edge_refusal(params: JsonView) -> Option<Seq<char>> {
    first_fault(
        ends_fault(params),
        first_fault(
            numbers_fault(params),
            first_fault(
                details_fault(params),
                first_fault(text_fault(params, "metadata"@), metadata_fault(params)),
            ),
        ),
    )
}

/// An edge that a client asked for.
pub struct EdgeRequest {
    pub source: String,
    pub target: String,
    pub edge_type: EdgeType,
    pub weight: Json,
    pub details: EdgeDetails,
    pub metadata: Option<Json>,
}

/// What an optional document says.
pub open spec fn optional_view(document: Option<Json>) -> Option<JsonView> {
    match document {
        Some(document) => Some(document@),
        None => None,
    }
}

/// Whether details are those that a request gives.
pub open spec fn details_read(params: JsonView, details: EdgeDetails) -> bool {
    &&& optional_view(details.cosine_similarity) == given(params, "cosine_similarity"@)
    &&& optional_view(details.confidence) == given(params, "confidence"@)
    &&& (match details.delta_secs {
        Some(secs) => given(params, "delta_secs"@) == Some(JsonView::Unsigned(secs)),
        None => given(params, "delta_secs"@) is None,
    })
    &&& optional_texts(details.evidence_ids) == (match given(params, "evidence_ids"@) {
        Some(value) => value.text_list(),
        None => None,
    })
    &&& optional_text(details.relation) == given_text(params, "relation"@)
}

/// `r` is what reading the parameters of an edge gives. A weight that is not
/// given is one.
pub open spec fn edge_read(params: JsonView, r: Result<EdgeRequest, Reply>) -> bool {
    match r {
        Ok(request) => {
            &&& edge_refusal(params) is None
            &&& Some(request.source@) == params.text_member("source"@)
            &&& Some(request.target@) == params.text_member("target"@)
            &&& Some(request.edge_type) == edge_type_of(params)
            &&& request.weight@ == (match given(params, "weight"@) {
                Some(weight) => weight,
                None => JsonView::Decimal("1.0"@),
            })
            &&& details_read(params, request.details)
            &&& optional_view(request.metadata) == (match given_text(params, "metadata"@) {
                Some(text) => Some(read_document(text)->Ok_0),
                None => None,
            })
        },
        Err(reply) => edge_refusal(params) is Some && reply@ == failure_view(
            HttpStatus::BadRequest,
            edge_refusal(params)->0,
        ),
    }
}

/// What a request gives under a name.
fn get_given<'a>(params: &'a Json, key: &str) -> (value: Option<&'a Json>)
    ensures
        (match value {
            Some(value) => given(params@, key@) == Some(value@),
            None => given(params@, key@) is None,
        }),
{
    match params.get(key) {
        Some(value) => match value {
            Json::Null => None,
            _ => Some(value),
        },
        None => None,
    }
}

/// A number that a request gives.
fn read_number(params: &Json, key: &str) -> (r: Result<Option<Json>, String>)
    ensures
        (match r {
            Ok(number) => number_fault(params@, key@) is None && optional_view(number) == given(
                params@,
                key@,
            ),
            Err(fault) => number_fault(params@, key@) == Some(fault@),
        }),
{
    match get_given(params, key) {
        Some(value) => match value {
            Json::Unsigned(_) | Json::Negative(_) | Json::Decimal(_) => Ok(Some(value.copy())),
            _ => Err(cat2(key, " must be a number")),
        },
        None => Ok(None),
    }
}

/// A text that a request gives.
fn read_text(params: &Json, key: &str) -> (r: Result<Option<String>, String>)
    ensures
        (match r {
            Ok(text) => text_fault(params@, key@) is None && optional_text(text) == given_text(
                params@,
                key@,
            ),
            Err(fault) => text_fault(params@, key@) == Some(fault@),
        }),
{
    match get_given(params, key) {
        Some(value) => match value {
            Json::Text(text) => Ok(Some(text.clone())),
            _ => Err(cat2(key, " must be a string")),
        },
        None => Ok(None),
    }
}

/// A text that a request must give.
fn read_required(params: &Json, key: &str) -> (r: Result<String, String>)
    ensures
        (match r {
            Ok(text) => missing_text(params@, key@) is None && params@.text_member(key@) == Some(
                text@,
            ),
            Err(fault) => missing_text(params@, key@) == Some(fault@),
        }),
{
    proof {
        reveal_strlit("");
    }
    if let Some(text) = params.get_text(key) {
        if !text.as_str().is_empty() {
            return Ok(text.clone());
        }
    }
    Err(cat3("missing '", key, "' field"))
}

/// The details of an edge, given its similarity and its confidence.
fn read_details(params: &Json, cosine_similarity: Option<Json>, confidence: Option<Json>) -> (r:
    Result<EdgeDetails, String>)
    requires
        optional_view(cosine_similarity) == given(params@, "cosine_similarity"@),
        optional_view(confidence) == given(params@, "confidence"@),
    ensures
        (match r {
            Ok(details) => details_fault(params@) is None && details_read(params@, details),
            Err(fault) => details_fault(params@) == Some(fault@),
        }),
{
    let delta_secs = match get_given(params, "delta_secs") {
        Some(Json::Unsigned(secs)) => Some(*secs),
        Some(_) => {
            return Err("delta_secs must be an unsigned integer".to_owned());
        },
        None => None,
    };
    let evidence_ids = match get_given(params, "evidence_ids") {
        Some(value) => match value.as_text_list() {
            Some(ids) => Some(ids),
            None => {
                return Err("evidence_ids must be a list of strings".to_owned());
            },
        },
        None => None,
    };
    match read_text(params, "relation") {
        Ok(relation) => Ok(
            EdgeDetails { cosine_similarity, delta_secs, confidence, evidence_ids, relation },
        ),
        Err(fault) => Err(fault),
    }
}

/// The source, the target and the type of an edge.
fn read_ends(params: &Json) -> (r: Result<(String, String, EdgeType), String>)
    ensures
        (match r {
            Ok((source, target, edge_type)) => {
                &&& ends_fault(params@) is None
                &&& Some(source@) == params@.text_member("source"@)
                &&& Some(target@) == params@.text_member("target"@)
                &&& Some(edge_type) == edge_type_of(params@)
            },
            Err(fault) => ends_fault(params@) == Some(fault@),
        }),
{
    let source = match read_required(params, "source") {
        Ok(source) => source,
        Err(fault) => {
            return Err(fault);
        },
    };
    let target = match read_required(params, "target") {
        Ok(target) => target,
        Err(fault) => {
            return Err(fault);
        },
    };
    match edge_type_by_name(&params.get_text_or("edge_type", "")) {
        Some(edge_type) => Ok((source, target, edge_type)),
        None => Err("edge_type must be semantic, temporal, causal, or entity".to_owned()),
    }
}

/// The weight, the similarity and the confidence of an edge.
fn read_numbers(params: &Json) -> (r: Result<(Option<Json>, Option<Json>, Option<Json>), String>)
    ensures
        (match r {
            Ok((weight, cosine_similarity, confidence)) => {
                &&& numbers_fault(params@) is None
                &&& optional_view(weight) == given(params@, "weight"@)
                &&& optional_view(cosine_similarity) == given(params@, "cosine_similarity"@)
                &&& optional_view(confidence) == given(params@, "confidence"@)
            },
            Err(fault) => numbers_fault(params@) == Some(fault@),
        }),
{
    let weight = match read_number(params, "weight") {
        Ok(weight) => weight,
        Err(fault) => {
            return Err(fault);
        },
    };
    let cosine_similarity = match read_number(params, "cosine_similarity") {
        Ok(cosine_similarity) => cosine_similarity,
        Err(fault) => {
            return Err(fault);
        },
    };
    match read_number(params, "confidence") {
        Ok(confidence) => Ok((weight, cosine_similarity, confidence)),
        Err(fault) => Err(fault),
    }
}

/// The metadata of an edge.
fn read_metadata(params: &Json) -> (r: Result<Option<Json>, String>)
    ensures
        (match r {
            Ok(metadata) => {
                &&& text_fault(params@, "metadata"@) is None
                &&& metadata_fault(params@) is None
                &&& optional_view(metadata) == (match given_text(params@, "metadata"@) {
                    Some(text) => Some(read_document(text)->Ok_0),
                    None => None,
                })
            },
            Err(fault) => first_fault(
                text_fault(params@, "metadata"@),
                metadata_fault(params@),
            ) == Some(fault@),
        }),
{
    match read_text(params, "metadata") {
        Ok(text) => edge_metadata(&text),
        Err(fault) => Err(fault),
    }
}

/// Reads the parameters of an edge.
pub fn read_edge(params: &Json) -> (r: Result<EdgeRequest, Reply>)
    ensures
        edge_read(params@, r),
{
    let (source, target, edge_type) = match read_ends(params) {
        Ok(ends) => ends,
        Err(fault) => {
            return Err(failure(HttpStatus::BadRequest, &fault));
        },
    };
    let (weight, cosine_similarity, confidence) = match read_numbers(params) {
        Ok(numbers) => numbers,
        Err(fault) => {
            return Err(failure(HttpStatus::BadRequest, &fault));
        },
    };
    let details = match read_details(params, cosine_similarity, confidence) {
        Ok(details) => details,
        Err(fault) => {
            return Err(failure(HttpStatus::BadRequest, &fault));
        },
    };
    let metadata = match read_metadata(params) {
        Ok(metadata) => metadata,
        Err(fault) => {
            return Err(failure(HttpStatus::BadRequest, &fault));
        },
    };
    let weight = match weight {
        Some(weight) => weight,
        None => Json::Decimal("1.0".to_owned()),
    };
    Ok(EdgeRequest { source, target, edge_type, weight, details, metadata })
}

/// The edge that a body asks for.
pub fn edge_request(body: &str) -> (r: Result<EdgeRequest, Reply>)
    ensures
        (match read_document(body@) {
            Ok(params) => edge_read(params, r),
            Err(message) => r is Err && r->Err_0@ == invalid_json(message),
        }),
{
    match read_body(body) {
        Ok(params) => read_edge(&params),
        Err(reply) => Err(reply),
    }
}

/// The reply to an edge that was added.
pub fn edge_reply(edge: &StoredEdge, receipt: Json) -> (reply: Reply)
    ensures
        reply@ == (ReplyView {
            status: HttpStatus::Success,
            body: added_edge_json(*edge, receipt@),
        }),
{
    Reply { status: HttpStatus::Success, body: finish_add_edge(edge, receipt) }
}

/// `r` is what reading the parameters of a deletion gives: the fact that it
/// names.
pub open spec fn deletion_read(params: JsonView, r: Result<String, Reply>) -> bool {
    match r {
        Ok(fact_id) => missing_text(params, "fact_id"@) is None && params.text_member("fact_id"@)
            == Some(fact_id@),
        Err(reply) => missing_text(params, "fact_id"@) is Some && reply@ == failure_view(
            HttpStatus::BadRequest,
            missing_text(params, "fact_id"@)->0,
        ),
    }
}

/// The fact that a body asks to delete.
pub fn deletion_request(body: &str) -> (r: Result<String, Reply>)
    ensures
        (match read_document(body@) {
            Ok(params) => deletion_read(params, r),
            Err(message) => r is Err && r->Err_0@ == invalid_json(message),
        }),
{
    match read_body(body) {
        Ok(params) => match read_required(&params, "fact_id") {
            Ok(fact_id) => Ok(fact_id),
            Err(fault) => Err(failure(HttpStatus::BadRequest, &fault)),
        },
        Err(reply) => Err(reply),
    }
}

/// The reply to a fact that was deleted. The receipt is the store's own.
pub fn deletion_reply(bare: &str, receipt: Json) -> (reply: Reply)
    ensures
        reply@ == (ReplyView {
            status: HttpStatus::Success,
            body: forgotten_json(bare@, receipt@),
        }),
{
    Reply { status: HttpStatus::Success, body: finish_forgetting(bare, receipt) }
}

/// The name of an edge type in requests.
pub open spec fn edge_type_text(edge_type: EdgeType) -> Seq<char> {
    match edge_type {
        EdgeType::Semantic => "semantic"@,
        EdgeType::Temporal => "temporal"@,
        EdgeType::Causal => "causal"@,
        EdgeType::Entity => "entity"@,
    }
}

/// Every edge type is read by its name in any letter case, and nothing else is
/// read as one.
pub proof fn law_edge_types_are_read_by_name(edge_type: EdgeType, name: Seq<char>)
    ensures
        ascii_lowered(name) == edge_type_text(edge_type) ==> edge_type_named(name) == Some(
            edge_type,
        ),
        edge_type_named(name) matches Some(read) ==> ascii_lowered(name) == edge_type_text(read),
{
    reveal_strlit("semantic");
    reveal_strlit("temporal");
    reveal_strlit("causal");
    reveal_strlit("entity");
    assert("semantic"@[0] == 's' && "temporal"@[0] == 't' && "causal"@[0] == 'c');
    assert("entity"@[0] == 'e' && "semantic"@.len() == 8 && "temporal"@.len() == 8);
    assert("causal"@.len() == 6 && "entity"@.len() == 6);
}

/// An edge is taken where its two ends and its type are named and nothing else
/// that the request gives is of the wrong shape; it is refused where any of this
/// fails.
pub proof fn law_edges_are_taken_where_nothing_is_wrong(params: JsonView)
    ensures
        edge_refusal(params) is None <==> {
            &&& params.text_member("source"@) matches Some(source) && source.len() > 0
            &&& params.text_member("target"@) matches Some(target) && target.len() > 0
            &&& params.text_member("edge_type"@) matches Some(name) && edge_type_named(
                name,
            ) is Some
            &&& given(params, "weight"@) matches Some(value) ==> is_number(value)
            &&& given(params, "cosine_similarity"@) matches Some(value) ==> is_number(value)
            &&& given(params, "confidence"@) matches Some(value) ==> is_number(value)
            &&& given(params, "delta_secs"@) matches Some(value) ==> value is Unsigned
            &&& given(params, "evidence_ids"@) matches Some(value) ==> value.text_list() is Some
            &&& given(params, "relation"@) matches Some(value) ==> value is Text
            &&& given(params, "metadata"@) matches Some(value) ==> value is Text && read_document(
                value->Text_0,
            ) is Ok
        },
{
    reveal_strlit("");
    reveal_strlit("semantic");
    reveal_strlit("temporal");
    reveal_strlit("causal");
    reveal_strlit("entity");
    assert("semantic"@.len() == 8 && "temporal"@.len() == 8);
    assert("causal"@.len() == 6 && "entity"@.len() == 6);
    assert(ascii_lowered(""@).len() == 0);
}

/// A deletion names its fact, and is refused where it names none.
pub proof fn law_deletions_name_their_fact(params: JsonView, r: Result<String, Reply>)
    requires
        deletion_read(params, r),
    ensures
        r is Ok <==> (params.text_member("fact_id"@) is Some && params.text_member(
            "fact_id"@,
        )->0.len() > 0),
        r matches Ok(id) ==> params.text_member("fact_id"@) == Some(id@),
{
    reveal_strlit("");
}

/// An edge is read as it was given: its ends, its type, its weight, which is one
/// where none is given, and the relation.
pub proof fn law_edges_are_read_as_given(
    params: JsonView,
    r: Result<EdgeRequest, Reply>,
    edge_type: EdgeType,
)
    requires
        edge_read(params, r),
        r is Ok,
    ensures
        ({
            let request = r->Ok_0;
            &&& params.member("source"@) == Some(JsonView::Text(request.source@))
            &&& params.member("target"@) == Some(JsonView::Text(request.target@))
            &&& params.member("edge_type"@) == Some(JsonView::Text(edge_type_text(edge_type)))
                ==> request.edge_type == edge_type
            &&& params.member("weight"@) is None || params.member("weight"@) == Some(JsonView::Null)
                ==> request.weight@ == JsonView::Decimal("1.0"@)
            &&& params.member("weight"@) is Some && params.member("weight"@) != Some(JsonView::Null)
                ==> Some(request.weight@) == params.member("weight"@)
            &&& params.member("relation"@) matches Some(JsonView::Text(relation))
                ==> optional_text(request.details.relation) == Some(relation)
            &&& params.member("delta_secs"@) matches Some(JsonView::Unsigned(secs))
                ==> request.details.delta_secs == Some(secs)
            &&& params.member("metadata"@) is None ==> request.metadata is None
        }),
{
    law_edge_types_are_read_by_name(edge_type, edge_type_text(edge_type));
    lemma_lowered_type(edge_type);
}

/// The name of an edge type is in lower case.
proof fn lemma_lowered_type(edge_type: EdgeType)
    ensures
        ascii_lowered(edge_type_text(edge_type)) == edge_type_text(edge_type),
{
    reveal_strlit("semantic");
    reveal_strlit("temporal");
    reveal_strlit("causal");
    reveal_strlit("entity");
    assert(ascii_lowered(edge_type_text(edge_type)) =~= edge_type_text(edge_type));
}

/// Whole numbers and decimals are numbers, and nothing else is.
pub proof fn law_numbers_are_told_from_other_values(value: JsonView)
    ensures
        is_number(value) <==> !(value is Null || value is Bool || value is Text || value is Array
            || value is Object),
{
}

/// A refused edge is a bad request, and says why.
pub proof fn law_refused_edges_say_why(params: JsonView, r: Result<EdgeRequest, Reply>)
    requires
        edge_read(params, r),
    ensures
        r is Ok <==> edge_refusal(params) is None,
        r matches Err(reply) ==> reply@.status == HttpStatus::BadRequest
            && reply@.body.text_member("error"@) == edge_refusal(params),
{
    if edge_refusal(params) is Some {
        crate::http_api::law_refusals_say_why(HttpStatus::BadRequest, edge_refusal(params)->0);
    }
}

}
