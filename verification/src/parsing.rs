//! The tools that read what a language model wrote.
use crate::json::{
    fields,
    json_to_string,
    pretty_text,
    pretty_value_text,
    stored,
    texts_json,
    value_contents,
    Fields,
    Json,
    JsonView,
};
use crate::text::{
    chars_of,
    matches_at,
    occurs_at,
    text_between,
    texts,
    to_lowercase,
    trim,
    trimmed,
    unicode_lowered,
};
use vstd::prelude::*;

verus! {

/// What `llm_output_parser::parse_json` reads in a model's output: a document,
/// or the message of the error.
pub uninterp spec fn model_document(output: Seq<char>) -> Result<JsonView, Seq<char>>;

/// `llm_output_parser::parse_json_value`, which is
/// `llm_output_parser::parse_json` for a document of any shape. What it makes of
/// an output is not stated.
#[verifier::external_body]
fn parse_output(output: &str) -> (r: Result<serde_json::Value, String>)
    ensures
        (match r {
            Ok(value) => model_document(output@) == Ok::<JsonView, Seq<char>>(
                value_contents(value),
            ),
            Err(message) => model_document(output@) == Err::<JsonView, Seq<char>>(message@),
        }),
{
    llm_output_parser::parse_json_value(output).map_err(|e| e.to_string())
}

/// What `llm_output_parser::strip_think_tags` leaves of a text.
pub uninterp spec fn without_thoughts(text: Seq<char>) -> Seq<char>;

/// `llm_output_parser::strip_think_tags`: the text without the blocks in which a
/// model thinks aloud. What counts as such a block is not stated.
#[verifier::external_body]
fn strip_thoughts(text: &str) -> (r: String)
    ensures
        r@ == without_thoughts(text@),
{
    llm_output_parser::strip_think_tags(text)
}

/// What `llm_output_parser::try_repair_json` makes of a text, if it can.
pub uninterp spec fn repaired(text: Seq<char>) -> Option<Seq<char>>;

/// `llm_output_parser::try_repair_json`: the text with common errors repaired,
/// where that makes it a document. It counts brackets in 32 bits.
#[verifier::external_body]
fn try_repair(text: &str) -> (r: Option<String>)
    requires
        text@.len() <= 0x7fff_ffff,
    ensures
        (match r {
            Some(s) => repaired(text@) == Some(s@),
            None => repaired(text@) is None,
        }),
{
    llm_output_parser::try_repair_json(text)
}

/// The list that `llm_output_parser::parse_string_list` reads in a model's
/// output, or the message of the error.
pub uninterp spec fn model_list(output: Seq<char>) -> Result<Seq<Seq<char>>, Seq<char>>;

/// `llm_output_parser::parse_string_list`: the list of texts in a model's
/// output. What it makes of an output is not stated.
#[verifier::external_body]
fn parse_list(output: &str) -> (r: Result<Vec<String>, String>)
    ensures
        (match r {
            Ok(items) => model_list(output@) == Ok::<Seq<Seq<char>>, Seq<char>>(texts(items@)),
            Err(message) => model_list(output@) == Err::<Seq<Seq<char>>, Seq<char>>(message@),
        }),
{
    llm_output_parser::parse_string_list(output).map_err(|e| e.to_string())
}

/// The choice that `llm_output_parser::parse_choice` reads in a model's output,
/// or the message of the error.
pub uninterp spec fn model_choice(output: Seq<char>, options: Seq<Seq<char>>) -> Result<
    Seq<char>,
    Seq<char>,
>;

/// Whether an option starts with an ASCII character.
pub open spec fn plain_start(option: Seq<char>) -> bool {
    option.len() > 0 && (option[0] as u32) < 128
}

/// An ASCII letter or digit.
pub open spec fn word_byte(c: char) -> bool {
    'a' <= c <= 'z' || 'A' <= c <= 'Z' || '0' <= c <= '9'
}

/// What occurs at an offset has no ASCII letter or digit next to it.
pub open spec fn stands_alone(text: Seq<char>, part: Seq<char>, at: int) -> bool {
    &&& at > 0 ==> !word_byte(text[at - 1])
    &&& at + part.len() < text.len() ==> !word_byte(text[at + part.len()])
}

/// `part` first occurs at an offset of a text.
pub open spec fn first_occurs(text: Seq<char>, part: Seq<char>, at: int) -> bool {
    &&& 0 <= at
    &&& occurs_at(text, part, at)
    &&& forall|k: int| 0 <= k < at ==> !#[trigger] occurs_at(text, part, k)
}

/// What `llm_output_parser::parse_choice` searches of an output.
pub open spec fn searched(output: Seq<char>) -> Seq<char> {
    unicode_lowered(trimmed(without_thoughts(output)))
}

/// An option can be searched for in a text: it starts with an ASCII character,
/// or where it first occurs it stands alone.
pub open spec fn searchable(text: Seq<char>, option: Seq<char>) -> bool {
    let lowered = unicode_lowered(option);
    plain_start(option) || (lowered.len() > 0 && forall|at: int| #[trigger]
        first_occurs(text, lowered, at) ==> stands_alone(text, lowered, at))
}

/// Every option can be searched for in an output.
pub open spec fn all_searchable(output: Seq<char>, options: Seq<Seq<char>>) -> bool {
    forall|i: int| 0 <= i < options.len() ==> searchable(searched(output), #[trigger] options[i])
}

/// `llm_output_parser::parse_choice`: the option that a model's output names.
/// The choice is one of the options. Its search goes on one byte behind the
/// start of an option that it found next to an ASCII letter or digit, so an
/// option has to start with an ASCII character or, where it first occurs, to
/// stand alone.
#[verifier::external_body]
fn choose_option(output: &str, options: &Vec<String>) -> (r: Result<String, String>)
    requires
        all_searchable(output@, texts(options@)),
    ensures
        (match r {
            Ok(choice) => model_choice(output@, texts(options@)) == Ok::<Seq<char>, Seq<char>>(
                choice@,
            ) && texts(options@).contains(choice@),
            Err(message) => model_choice(output@, texts(options@)) == Err::<Seq<char>, Seq<char>>(
                message@,
            ),
        }),
{
    let options: Vec<&str> = options.iter().map(|option| option.as_str()).collect();
    llm_output_parser::parse_choice(output, &options).map(|c| c.to_string()).map_err(|e| e.to_string())
}

/// The first 200 characters of a text.
pub open spec fn preview(text: Seq<char>) -> Seq<char> {
    if text.len() <= 200 {
        text
    } else {
        text.subrange(0, 200)
    }
}

/// The first 200 characters of a text.
pub fn preview_of(text: &str) -> (s: String)
    ensures
        s@ == preview(text@),
{
    let chars = chars_of(text);
    let n: usize = if chars.len() <= 200 {
        chars.len()
    } else {
        200
    };
    assert(text@.subrange(0, text@.len() as int) =~= text@);
    text_between(&chars, 0, n)
}

/// The reply to an output that could not be read.
pub open spec fn unread_json(error: Seq<char>) -> JsonView {
    fields().put("ok"@, JsonView::Bool(false)).put("error"@, JsonView::Text(error)).object()
}

/// The text of a document that was read, or `null` where it cannot be written.
fn written(value: &serde_json::Value) -> (s: String)
    ensures
        s@ == (match pretty_text(value_contents(*value)) {
            Ok(text) => text,
            Err(_) => "null"@,
        }),
{
    match pretty_value_text(value) {
        Ok(s) => s,
        Err(_) => "null".to_owned(),
    }
}

/// What a tool answers: the text of a document, or what `json_to_string` makes
/// of another reply.
pub open spec fn answer(document: JsonView) -> Result<Seq<char>, Seq<char>> {
    match pretty_text(stored(document)) {
        Ok(text) => Ok(text),
        Err(fault) => Err("Serialization error: "@ + fault),
    }
}

/// What a tool answered.
pub open spec fn answered(r: Result<String, String>) -> Result<Seq<char>, Seq<char>> {
    match r {
        Ok(text) => Ok(text@),
        Err(message) => Err(message@),
    }
}

/// The answer to a request to read a document in a model's output; a failure
/// shows the start of the output.
pub fn parse_json(output: &str) -> (r: Result<String, String>)
    ensures
        answered(r) == (match model_document(output@) {
            Ok(document) => Ok::<Seq<char>, Seq<char>>(
                match pretty_text(document) {
                    Ok(text) => text,
                    Err(_) => "null"@,
                },
            ),
            Err(fault) => answer(
                fields().put("ok"@, JsonView::Bool(false)).put(
                    "error"@,
                    JsonView::Text(fault),
                ).put("input_preview"@, JsonView::Text(preview(output@))).object(),
            ),
        }),
{
    match parse_output(output) {
        Ok(value) => Ok(written(&value)),
        Err(message) => json_to_string(
            &Fields::new().with_bool("ok", false).with_text("error", &message).with_text(
                "input_preview",
                &preview_of(output),
            ).object(),
        ),
    }
}

/// The answer to a request to read a document of any shape in a model's output.
pub fn parse_json_value(output: &str) -> (r: Result<String, String>)
    ensures
        answered(r) == (match model_document(output@) {
            Ok(document) => Ok::<Seq<char>, Seq<char>>(
                match pretty_text(document) {
                    Ok(text) => text,
                    Err(_) => "null"@,
                },
            ),
            Err(fault) => answer(unread_json(fault)),
        }),
{
    match parse_output(output) {
        Ok(value) => Ok(written(&value)),
        Err(message) => unread(&message),
    }
}

/// The answer to an output that could not be read.
pub fn unread(message: &str) -> (r: Result<String, String>)
    ensures
        answered(r) == answer(unread_json(message@)),
{
    json_to_string(&Fields::new().with_bool("ok", false).with_text("error", message).object())
}

/// The answer to a request to strip a model's thoughts.
pub fn strip_think_tags(text: &str) -> (s: String)
    ensures
        s@ == without_thoughts(text@),
{
    strip_thoughts(text)
}

/// The answer to a request to repair a document. The text has at most 2^31 - 1
/// characters.
pub fn repair_json(text: &str) -> (r: Result<String, String>)
    requires
        text@.len() <= 0x7fff_ffff,
    ensures
        answered(r) == (match repaired(text@) {
            Some(s) => Ok::<Seq<char>, Seq<char>>(s),
            None => answer(
                unread_json(
                    "Could not repair JSON. The input may not be valid JSON even after common fixes."@,
                ),
            ),
        }),
{
    match try_repair(text) {
        Some(s) => Ok(s),
        None => unread(
            "Could not repair JSON. The input may not be valid JSON even after common fixes.",
        ),
    }
}

/// The answer to a request to read a list in a model's output.
pub fn parse_string_list(output: &str) -> (r: Result<String, String>)
    ensures
        answered(r) == (match model_list(output@) {
            Ok(items) => Ok::<Seq<char>, Seq<char>>(
                match pretty_text(stored(texts_json(items))) {
                    Ok(text) => text,
                    Err(_) => "[]"@,
                },
            ),
            Err(fault) => answer(unread_json(fault)),
        }),
{
    match parse_list(output) {
        Ok(items) => match json_to_string(&Json::from_texts(&items)) {
            Ok(s) => Ok(s),
            Err(_) => Ok("[]".to_owned()),
        },
        Err(message) => unread(&message),
    }
}

/// The document of an output in which no option was found.
pub open spec fn unchosen_json(message: Seq<char>, options: Seq<Seq<char>>) -> JsonView {
    fields().put("ok"@, JsonView::Bool(false)).put("error"@, JsonView::Text(message)).put(
        "options"@,
        texts_json(options),
    ).object()
}

/// The answer to an output in which no option was found.
pub fn unchosen(message: &str, options: &Vec<String>) -> (r: Result<String, String>)
    ensures
        answered(r) == answer(unchosen_json(message@, texts(options@))),
{
    json_to_string(
        &Fields::new().with_bool("ok", false).with_text("error", message).with(
            "options",
            Json::from_texts(options),
        ).object(),
    )
}

/// The answer to a request to read a choice in a model's output.
pub open spec fn choice_answer(output: Seq<char>, options: Seq<Seq<char>>) -> Result<
    Seq<char>,
    Seq<char>,
> {
    match model_choice(output, options) {
        Ok(choice) => Ok::<Seq<char>, Seq<char>>(choice),
        Err(fault) => answer(unchosen_json(fault, options)),
    }
}

/// The answer to a request to read a choice in a model's output, in which every
/// option can be searched for.
pub fn parse_choice(output: &str, options: &Vec<String>) -> (r: Result<String, String>)
    requires
        all_searchable(output@, texts(options@)),
    ensures
        answered(r) == choice_answer(output@, texts(options@)),
{
    match choose_option(output, options) {
        Ok(choice) => Ok(choice),
        Err(message) => unchosen(&message, options),
    }
}

/// Whether a character is an ASCII letter or digit.
fn is_word_byte(c: char) -> (r: bool)
    ensures
        r == word_byte(c),
{
    ('a' <= c && c <= 'z') || ('A' <= c && c <= 'Z') || ('0' <= c && c <= '9')
}

/// Whether what occurs at an offset has no ASCII letter or digit next to it.
fn is_alone(text: &Vec<char>, part: &Vec<char>, at: usize) -> (r: bool)
    requires
        occurs_at(text@, part@, at as int),
    ensures
        r == stands_alone(text@, part@, at as int),
{
    if at > 0 && is_word_byte(text[at - 1]) {
        return false;
    }
    let whole: usize = text.len();
    let end: usize = at + part.len();
    !(end < whole && is_word_byte(text[end]))
}

/// Whether an option can be searched for in a text.
fn can_search(text: &Vec<char>, option: &str) -> (r: bool)
    ensures
        r == searchable(text@, option@),
{
    let chars = chars_of(option);
    if chars.len() > 0 && (chars[0] as u32) < 128 {
        return true;
    }
    let lowered = chars_of(&to_lowercase(option));
    if lowered.len() == 0 {
        return false;
    }
    let ghost part = unicode_lowered(option@);
    let mut at: usize = 0;
    while at < text.len() && lowered.len() <= text.len() - at
        invariant
            lowered@ == part,
            lowered@.len() > 0,
            part == unicode_lowered(option@),
            !plain_start(option@),
            at <= text.len(),
            forall|k: int| 0 <= k < at ==> !#[trigger] occurs_at(text@, part, k),
        ensures
            forall|k: int| 0 <= k ==> !#[trigger] occurs_at(text@, part, k),
        decreases text.len() - at,
    {
        if matches_at(text, &lowered, at) {
            assert(first_occurs(text@, part, at as int));
            assert forall|k: int| first_occurs(text@, part, k) implies k == at by {}
            return is_alone(text, &lowered, at);
        }
        at = at + 1;
    }
    true
}

/// The answer to a request to read a choice in a model's output; none where an
/// option cannot be searched for in it.
pub fn read_choice(output: &str, options: &Vec<String>) -> (r: Option<Result<String, String>>)
    ensures
        (match r {
            Some(r) => all_searchable(output@, texts(options@)) && answered(r) == choice_answer(
                output@,
                texts(options@),
            ),
            None => !all_searchable(output@, texts(options@)),
        }),
{
    let text = chars_of(&to_lowercase(&trim(&strip_thoughts(output))));
    let ghost all = texts(options@);
    let mut i: usize = 0;
    while i < options.len()
        invariant
            i <= options@.len(),
            all == texts(options@),
            text@ == searched(output@),
            forall|k: int| 0 <= k < i ==> searchable(searched(output@), #[trigger] all[k]),
        decreases options.len() - i,
    {
        if !can_search(&text, &options[i]) {
            assert(!searchable(searched(output@), all[i as int]));
            return None;
        }
        assert(searchable(searched(output@), all[i as int]));
        i = i + 1;
    }
    Some(parse_choice(output, options))
}

/// A preview is the beginning of its text, all of it where it is short, and never
/// longer than 200 characters.
pub proof fn law_previews_are_beginnings(text: Seq<char>)
    ensures
        preview(text).len() <= 200,
        preview(text).is_prefix_of(text),
        text.len() <= 200 ==> preview(text) == text,
        text.len() > 200 ==> preview(text).len() == 200,
{
    assert(preview(text) =~= text.subrange(0, preview(text).len() as int));
}

}
