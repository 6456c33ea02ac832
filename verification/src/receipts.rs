//! Receipts: what every tool that changes something hands back beside its
//! result.
use crate::json::{fields, Fields, Json, JsonView};
use crate::text::cat4;
use vstd::prelude::*;

verus! {

/// `uuid::Uuid::new_v4`, written with hyphens: a random identifier of 36
/// characters.
#[verifier::external_body]
pub(crate) fn new_uuid() -> (id: String)
    ensures
        id@.len() == 36,
{
    uuid::Uuid::new_v4().to_string()
}

/// `chrono::Utc::now`, in the notation of RFC 3339. Nothing is said of the time.
#[verifier::external_body]
fn now() -> String {
    chrono::Utc::now().to_rfc3339()
}

/// A receipt for one call of a tool.
pub open spec fn receipt_json(tool: Seq<char>, id: Seq<char>, at: Seq<char>) -> JsonView {
    fields().put("receipt_id"@, JsonView::Text("mcp-receipt:"@ + tool + ":"@ + id)).put(
        "recorded_at"@,
        JsonView::Text(at),
    ).put("tool"@, JsonView::Text(tool)).object()
}

/// Whether a document is a receipt for a call of a tool.
pub open spec fn is_receipt(document: JsonView, tool: Seq<char>) -> bool {
    exists|id: Seq<char>, at: Seq<char>| document == #[trigger] receipt_json(tool, id, at)
}

/// The receipt for a call that has the given identifier and time.
pub fn receipt_of(tool: &str, id: &str, at: &str) -> (document: Json)
    ensures
        document@ == receipt_json(tool@, id@, at@),
{
    Fields::new().with_text("receipt_id", &cat4("mcp-receipt:", tool, ":", id)).with_text(
        "recorded_at",
        at,
    ).with_text("tool", tool).object()
}

/// A fresh receipt for a call of a tool that ends now.
pub fn mcp_receipt(tool: &str) -> (document: Json)
    ensures
        is_receipt(document@, tool@),
{
    let id = new_uuid();
    let at = now();
    receipt_of(tool, &id, &at)
}

/// A receipt names its tool and the time of the call, and receipts of different
/// calls have different identifiers.
pub proof fn law_receipts_name_their_call(
    tool: Seq<char>,
    id: Seq<char>,
    other: Seq<char>,
    at: Seq<char>,
)
    ensures
        receipt_json(tool, id, at).text_member("tool"@) == Some(tool),
        receipt_json(tool, id, at).text_member("recorded_at"@) == Some(at),
        receipt_json(tool, id, at).text_member("receipt_id"@) is Some,
        id != other ==> receipt_json(tool, id, at).text_member("receipt_id"@) != receipt_json(
            tool,
            other,
            at,
        ).text_member("receipt_id"@),
{
    reveal_strlit("receipt_id");
    reveal_strlit("recorded_at");
    reveal_strlit("tool");
    assert("receipt_id"@.len() == 10 && "recorded_at"@.len() == 11 && "tool"@.len() == 4);
    broadcast use crate::json::lemma_put_member, crate::json::lemma_no_member;

    let head = "mcp-receipt:"@ + tool + ":"@;
    let (a, b) = (head + id, head + other);
    assert(a.subrange(head.len() as int, a.len() as int) =~= id);
    assert(b.subrange(head.len() as int, b.len() as int) =~= other);
}

}
