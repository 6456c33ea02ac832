//! Conversations: sessions, their messages, and the search over them.
use crate::json::{fields, json_views, parse_document, read_document, Fields, Json, JsonView};
use crate::search::SearchHit;
use crate::text::{cat3, optional_text, same_text, to_lowercase, unicode_lowered};
use vstd::prelude::*;

verus! {

/// Who speaks in a message.
#[derive(Clone, Copy, Debug, PartialEq, Eq, Structural)]
pub enum MessageRole {
    User,
    Assistant,
    System,
    Tool,
}

/// The role with a name, in lower case.
pub open spec fn role_named(name: Seq<char>) -> Option<MessageRole> {
    if name == "user"@ {
        Some(MessageRole::User)
    } else if name == "assistant"@ {
        Some(MessageRole::Assistant)
    } else if name == "system"@ {
        Some(MessageRole::System)
    } else if name == "tool"@ {
        Some(MessageRole::Tool)
    } else {
        None
    }
}

/// The role with a name, in lower case, or why there is none.
pub fn role_of_name(name: &str) -> (r: Result<MessageRole, String>)
    ensures
        (match (role_named(name@), r) {
            (Some(role), Ok(found)) => found == role,
            (None, Err(message)) => message@ == "invalid role '"@ + name@
                + "' (use user|assistant|system|tool)"@,
            _ => false,
        }),
{
    if same_text(name, "user") {
        Ok(MessageRole::User)
    } else if same_text(name, "assistant") {
        Ok(MessageRole::Assistant)
    } else if same_text(name, "system") {
        Ok(MessageRole::System)
    } else if same_text(name, "tool") {
        Ok(MessageRole::Tool)
    } else {
        Err(cat3("invalid role '", name, "' (use user|assistant|system|tool)"))
    }
}

/// The role that a request names, in any letter case.
pub fn read_role(role: &str) -> (r: Result<MessageRole, String>)
    ensures
        (match (role_named(unicode_lowered(role@)), r) {
            (Some(role), Ok(found)) => found == role,
            (None, Err(message)) => message@ == "invalid role '"@ + unicode_lowered(role@)
                + "' (use user|assistant|system|tool)"@,
            _ => false,
        }),
{
    role_of_name(&to_lowercase(role))
}

/// What is kept beside a new session: the document that the request gives, if
/// it gives one that can be read.
pub fn session_metadata(metadata: &Option<String>) -> (r: Option<Json>)
    ensures
        (match (optional_text(*metadata), r) {
            (Some(text), Some(document)) => read_document(text) == Ok::<JsonView, Seq<char>>(
                document@,
            ),
            (Some(text), None) => read_document(text) is Err,
            (None, None) => true,
            (None, Some(_)) => false,
        }),
{
    match metadata {
        Some(text) => match parse_document(text) {
            Ok(document) => Some(document),
            Err(_) => None,
        },
        None => None,
    }
}

/// The reply to a session that was created.
pub fn finish_create_session(id: &str, channel: &str, receipt: Json) -> (reply: Json)
    ensures
        reply@ == fields().put("ok"@, JsonView::Bool(true)).put(
            "session_id"@,
            JsonView::Text(id@),
        ).put("channel"@, JsonView::Text(channel@)).put("receipt"@, receipt@).object(),
{
    Fields::new().with_bool("ok", true).with_text("session_id", id).with_text(
        "channel",
        channel,
    ).with("receipt", receipt).object()
}

/// The reply to a message that was added.
pub fn finish_add_message(id: Json, session_id: &str, receipt: Json) -> (reply: Json)
    ensures
        reply@ == fields().put("ok"@, JsonView::Bool(true)).put("message_id"@, id@).put(
            "session_id"@,
            JsonView::Text(session_id@),
        ).put("receipt"@, receipt@).object(),
{
    Fields::new().with_bool("ok", true).with("message_id", id).with_text(
        "session_id",
        session_id,
    ).with("receipt", receipt).object()
}

/// A session as the store lists it.
pub struct SessionRecord {
    pub id: String,
    pub channel: String,
    pub message_count: u64,
    pub created_at: String,
    pub updated_at: String,
}

/// A session as a reply tells it.
pub open spec fn session_json(s: SessionRecord) -> JsonView {
    fields().put("session_id"@, JsonView::Text(s.id@)).put(
        "channel"@,
        JsonView::Text(s.channel@),
    ).put("message_count"@, JsonView::Unsigned(s.message_count)).put(
        "created_at"@,
        JsonView::Text(s.created_at@),
    ).put("updated_at"@, JsonView::Text(s.updated_at@)).object()
}

/// The reply to a listing of sessions.
pub fn finish_list_sessions(sessions: &Vec<SessionRecord>) -> (reply: Json)
    ensures
        reply@ == fields().put("ok"@, JsonView::Bool(true)).put(
            "count"@,
            JsonView::Unsigned(sessions@.len() as u64),
        ).put(
            "sessions"@,
            JsonView::Array(Seq::new(sessions@.len(), |i: int| session_json(sessions@[i]))),
        ).object(),
{
    let mut list: Vec<Json> = Vec::new();
    let mut i: usize = 0;
    while i < sessions.len()
        invariant
            i <= sessions.len(),
            list@.len() == i,
            forall|j: int| 0 <= j < i ==> (#[trigger] list@[j])@ == session_json(sessions@[j]),
        decreases sessions.len() - i,
    {
        let s = &sessions[i];
        list.push(
            Fields::new().with_text("session_id", &s.id).with_text("channel", &s.channel).with(
                "message_count",
                Json::Unsigned(s.message_count),
            ).with_text("created_at", &s.created_at).with_text("updated_at", &s.updated_at).object(),
        );
        i += 1;
    }
    assert(json_views(list@) =~= Seq::new(sessions@.len(), |j: int| session_json(sessions@[j])));
    Fields::new().with_bool("ok", true).with_count("count", sessions.len()).with(
        "sessions",
        Json::from_list(list),
    ).object()
}

/// A message as the store keeps it.
pub struct MessageRecord {
    pub id: Json,
    pub role: Json,
    pub content: String,
    pub token_count: Json,
    pub created_at: String,
}

/// A message as a reply tells it.
pub open spec fn message_json(m: MessageRecord) -> JsonView {
    fields().put("id"@, m.id@).put("role"@, m.role@).put("content"@, JsonView::Text(m.content@)).put(
        "token_count"@,
        m.token_count@,
    ).put("created_at"@, JsonView::Text(m.created_at@)).object()
}

/// The reply to a request for messages.
pub fn finish_get_messages(session_id: &str, messages: &Vec<MessageRecord>) -> (reply: Json)
    ensures
        reply@ == fields().put("ok"@, JsonView::Bool(true)).put(
            "session_id"@,
            JsonView::Text(session_id@),
        ).put("count"@, JsonView::Unsigned(messages@.len() as u64)).put(
            "messages"@,
            JsonView::Array(Seq::new(messages@.len(), |i: int| message_json(messages@[i]))),
        ).object(),
{
    let mut list: Vec<Json> = Vec::new();
    let mut i: usize = 0;
    while i < messages.len()
        invariant
            i <= messages.len(),
            list@.len() == i,
            forall|j: int| 0 <= j < i ==> (#[trigger] list@[j])@ == message_json(messages@[j]),
        decreases messages.len() - i,
    {
        let m = &messages[i];
        list.push(
            Fields::new().with("id", m.id.copy()).with("role", m.role.copy()).with_text(
                "content",
                &m.content,
            ).with("token_count", m.token_count.copy()).with_text("created_at", &m.created_at).object(),
        );
        i += 1;
    }
    assert(json_views(list@) =~= Seq::new(messages@.len(), |j: int| message_json(messages@[j])));
    Fields::new().with_bool("ok", true).with_text("session_id", session_id).with_count(
        "count",
        messages.len(),
    ).with("messages", Json::from_list(list)).object()
}

/// A message that a search found, as a reply tells it.
pub open spec fn message_hit_json(hit: SearchHit) -> JsonView {
    fields().put("result_id"@, JsonView::Text(hit.result_id@)).put(
        "content"@,
        JsonView::Text(hit.content@),
    ).put("score"@, hit.score@).put("cosine_similarity"@, hit.cosine_similarity@).object()
}

/// The reply to a search over messages.
pub fn finish_search_conversations(hits: &Vec<SearchHit>) -> (reply: Json)
    ensures
        reply@ == fields().put("ok"@, JsonView::Bool(true)).put(
            "count"@,
            JsonView::Unsigned(hits@.len() as u64),
        ).put(
            "results"@,
            JsonView::Array(Seq::new(hits@.len(), |i: int| message_hit_json(hits@[i]))),
        ).object(),
{
    let mut list: Vec<Json> = Vec::new();
    let mut i: usize = 0;
    while i < hits.len()
        invariant
            i <= hits.len(),
            list@.len() == i,
            forall|j: int| 0 <= j < i ==> (#[trigger] list@[j])@ == message_hit_json(hits@[j]),
        decreases hits.len() - i,
    {
        let hit = &hits[i];
        list.push(
            Fields::new().with_text("result_id", &hit.result_id).with_text(
                "content",
                &hit.content,
            ).with("score", hit.score.copy()).with(
                "cosine_similarity",
                hit.cosine_similarity.copy(),
            ).object(),
        );
        i += 1;
    }
    assert(json_views(list@) =~= Seq::new(hits@.len(), |j: int| message_hit_json(hits@[j])));
    Fields::new().with_bool("ok", true).with_count("count", hits.len()).with(
        "results",
        Json::from_list(list),
    ).object()
}

impl MessageRole {
    /// The name of the role in requests.
    pub open spec fn text(self) -> Seq<char> {
        match self {
            MessageRole::User => "user"@,
            MessageRole::Assistant => "assistant"@,
            MessageRole::System => "system"@,
            MessageRole::Tool => "tool"@,
        }
    }
}

/// Every role is read by its name, and nothing else is read as one.
pub proof fn law_roles_are_read_by_name(role: MessageRole, name: Seq<char>)
    ensures
        role_named(role.text()) == Some(role),
        role_named(name) matches Some(read) ==> read.text() == name,
{
    reveal_strlit("user");
    reveal_strlit("assistant");
    reveal_strlit("system");
    reveal_strlit("tool");
    assert("user"@[0] == 'u' && "tool"@[0] == 't' && "assistant"@.len() == 9);
    assert("system"@.len() == 6 && "user"@.len() == 4 && "tool"@.len() == 4);
}

/// A message that was found is told by its identifier, its content and its
/// scores.
pub proof fn law_found_messages_are_told(hit: SearchHit)
    ensures
        message_hit_json(hit).text_member("result_id"@) == Some(hit.result_id@),
        message_hit_json(hit).text_member("content"@) == Some(hit.content@),
        message_hit_json(hit).member("score"@) == Some(hit.score@),
        message_hit_json(hit).member("cosine_similarity"@) == Some(hit.cosine_similarity@),
{
    reveal_strlit("result_id");
    reveal_strlit("content");
    reveal_strlit("score");
    reveal_strlit("cosine_similarity");
    assert("result_id"@.len() == 9 && "content"@.len() == 7 && "score"@.len() == 5);
    assert("cosine_similarity"@.len() == 17);
    broadcast use crate::json::lemma_put_member, crate::json::lemma_no_member;

}

/// A stored message is told by its own identifier, role and content.
pub proof fn law_stored_messages_are_told(message: MessageRecord)
    ensures
        message_json(message).member("id"@) == Some(message.id@),
        message_json(message).member("role"@) == Some(message.role@),
        message_json(message).text_member("content"@) == Some(message.content@),
        message_json(message).text_member("created_at"@) == Some(message.created_at@),
{
    reveal_strlit("id");
    reveal_strlit("role");
    reveal_strlit("content");
    reveal_strlit("token_count");
    reveal_strlit("created_at");
    assert("id"@.len() == 2 && "role"@.len() == 4 && "content"@.len() == 7);
    assert("token_count"@.len() == 11 && "created_at"@.len() == 10);
    broadcast use crate::json::lemma_put_member, crate::json::lemma_no_member;

}

/// A session is told by its own identifier, channel and number of messages.
pub proof fn law_sessions_are_told(session: SessionRecord)
    ensures
        session_json(session).text_member("session_id"@) == Some(session.id@),
        session_json(session).text_member("channel"@) == Some(session.channel@),
        session_json(session).member("message_count"@) == Some(
            JsonView::Unsigned(session.message_count),
        ),
{
    reveal_strlit("session_id");
    reveal_strlit("channel");
    reveal_strlit("message_count");
    assert("session_id"@.len() == 10 && "channel"@.len() == 7 && "message_count"@.len() == 13);
    broadcast use crate::json::lemma_put_member, crate::json::lemma_no_member;

}

}
