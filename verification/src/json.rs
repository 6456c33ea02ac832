//! JSON documents: the request bodies the server reads and the replies it
//! writes.
use crate::text::{cat2, same_text, texts};
use vstd::prelude::*;

verus! {

/// A JSON document. A number that is no 64-bit integer is kept by its decimal
/// notation.
pub enum Json {
    Null,
    Bool(bool),
    Unsigned(u64),
    Negative(i64),
    Decimal(String),
    Text(String),
    Array(Vec<Json>),
    Object(Vec<(String, Json)>),
}

/// What a JSON document says.
pub enum JsonView {
    Null,
    Bool(bool),
    Unsigned(u64),
    Negative(i64),
    Decimal(Seq<char>),
    Text(Seq<char>),
    Array(Seq<JsonView>),
    Object(Seq<(Seq<char>, JsonView)>),
}

/// What `document` says.
pub open spec fn json_view(document: Json) -> JsonView
    decreases document,
{
    match document {
        Json::Null => JsonView::Null,
        Json::Bool(b) => JsonView::Bool(b),
        Json::Unsigned(n) => JsonView::Unsigned(n),
        Json::Negative(n) => JsonView::Negative(n),
        Json::Decimal(s) => JsonView::Decimal(s@),
        Json::Text(s) => JsonView::Text(s@),
        Json::Array(items) => JsonView::Array(
            Seq::new(
                items@.len(),
                |i: int|
                    if 0 <= i < items@.len() {
                        json_view(items@[i])
                    } else {
                        JsonView::Null
                    },
            ),
        ),
        Json::Object(fields) => JsonView::Object(
            Seq::new(
                fields@.len(),
                |i: int|
                    if 0 <= i < fields@.len() {
                        (fields@[i].0@, json_view(fields@[i].1))
                    } else {
                        (Seq::empty(), JsonView::Null)
                    },
            ),
        ),
    }
}

impl View for Json {
    type V = JsonView;

    open spec fn view(&self) -> JsonView {
        json_view(*self)
    }
}

/// What a list of documents says.
pub open spec fn json_views(items: Seq<Json>) -> Seq<JsonView> {
    Seq::new(items.len(), |i: int| items[i]@)
}

/// What a list of named documents says.
pub open spec fn field_views(fields: Seq<(String, Json)>) -> Seq<(Seq<char>, JsonView)> {
    Seq::new(fields.len(), |i: int| (fields[i].0@, fields[i].1@))
}

/// The offset of the first field called `key`, or the number of fields.
pub open spec fn field_index(fields: Seq<(Seq<char>, JsonView)>, key: Seq<char>) -> int
    decreases fields.len(),
{
    if fields.len() == 0 || fields[0].0 == key {
        0
    } else {
        1 + field_index(fields.subrange(1, fields.len() as int), key)
    }
}

impl JsonView {
    /// The member of an object called `key`.
    pub open spec fn member(self, key: Seq<char>) -> Option<JsonView> {
        match self {
            JsonView::Object(fields) => {
                let i = field_index(fields, key);
                if i < fields.len() {
                    Some(fields[i].1)
                } else {
                    None
                }
            },
            _ => None,
        }
    }

    /// The text, if the document is one.
    pub open spec fn text(self) -> Option<Seq<char>> {
        match self {
            JsonView::Text(s) => Some(s),
            _ => None,
        }
    }

    /// The member called `key`, if it is a text.
    pub open spec fn text_member(self, key: Seq<char>) -> Option<Seq<char>> {
        match self.member(key) {
            Some(value) => value.text(),
            None => None,
        }
    }

    /// The member called `key`, if it is a text, and `default` if not.
    pub open spec fn text_member_or(self, key: Seq<char>, default: Seq<char>) -> Seq<char> {
        match self.text_member(key) {
            Some(s) => s,
            None => default,
        }
    }

    /// The member called `key` is the literal `true`.
    pub open spec fn true_member(self, key: Seq<char>) -> bool {
        self.member(key) == Some(JsonView::Bool(true))
    }

    /// The texts of an array that holds nothing else.
    pub open spec fn text_list(self) -> Option<Seq<Seq<char>>> {
        match self {
            JsonView::Array(items) => if forall|i: int|
                0 <= i < items.len() ==> (#[trigger] items[i]) is Text {
                Some(Seq::new(items.len(), |i: int| items[i]->Text_0))
            } else {
                None
            },
            _ => None,
        }
    }

    /// The document with the member called `key` set: replaced where an object
    /// has it, appended where it has not. A document that is no object stays.
    pub open spec fn with_member(self, key: Seq<char>, value: JsonView) -> JsonView {
        match self {
            JsonView::Object(fields) => {
                let i = field_index(fields, key);
                if i < fields.len() {
                    JsonView::Object(fields.update(i, (key, value)))
                } else {
                    JsonView::Object(fields.push((key, value)))
                }
            },
            _ => self,
        }
    }

    /// The document is an array of exactly two texts.
    pub open spec fn is_text_pair(self) -> bool {
        match self.text_list() {
            Some(items) => items.len() == 2,
            None => false,
        }
    }

    /// The pairs of an array that holds nothing but pairs of texts.
    pub open spec fn text_pairs(self) -> Option<Seq<(Seq<char>, Seq<char>)>> {
        match self {
            JsonView::Array(items) => if forall|i: int|
                0 <= i < items.len() ==> (#[trigger] items[i]).is_text_pair() {
                Some(
                    Seq::new(
                        items.len(),
                        |i: int| (items[i].text_list()->0[0], items[i].text_list()->0[1]),
                    ),
                )
            } else {
                None
            },
            _ => None,
        }
    }
}

/// The document of an optional text: the text, or null.
pub open spec fn optional_text_json(s: Option<Seq<char>>) -> JsonView {
    match s {
        Some(t) => JsonView::Text(t),
        None => JsonView::Null,
    }
}

/// The document of an optional count: the number, or null.
pub open spec fn optional_count_json(n: Option<u64>) -> JsonView {
    match n {
        Some(v) => JsonView::Unsigned(v),
        None => JsonView::Null,
    }
}

/// The document that lists texts.
pub open spec fn texts_json(items: Seq<Seq<char>>) -> JsonView {
    JsonView::Array(Seq::new(items.len(), |i: int| JsonView::Text(items[i])))
}

/// The first field of a name is found where it stands.
pub proof fn lemma_field_index(fields: Seq<(Seq<char>, JsonView)>, key: Seq<char>, k: int)
    requires
        0 <= k <= fields.len(),
        forall|i: int| 0 <= i < k ==> (#[trigger] fields[i]).0 != key,
        k == fields.len() || fields[k].0 == key,
    ensures
        field_index(fields, key) == k,
    decreases fields.len(),
{
    if k > 0 {
        let rest = fields.subrange(1, fields.len() as int);
        assert forall|i: int| 0 <= i < k - 1 implies (#[trigger] rest[i]).0 != key by {
            assert(fields[i + 1].0 != key);
        }
        lemma_field_index(rest, key, k - 1);
    }
}

impl Json {
    /// The document that holds a text.
    pub fn from_text(s: &str) -> (document: Json)
        ensures
            document@ == JsonView::Text(s@),
    {
        Json::Text(s.to_owned())
    }

    /// The document of an optional text: the text, or null.
    pub fn from_optional_text(s: &Option<String>) -> (document: Json)
        ensures
            document@ == optional_text_json(crate::text::optional_text(*s)),
    {
        match s {
            Some(t) => Json::Text(t.clone()),
            None => Json::Null,
        }
    }

    /// The document of an optional count: the number, or null.
    pub fn from_optional_count(n: Option<u64>) -> (document: Json)
        ensures
            document@ == optional_count_json(n),
    {
        match n {
            Some(v) => Json::Unsigned(v),
            None => Json::Null,
        }
    }

    /// The document that holds a count.
    pub fn from_count(n: usize) -> (document: Json)
        ensures
            document@ == JsonView::Unsigned(n as u64),
    {
        Json::Unsigned(n as u64)
    }

    /// The document that lists documents.
    pub fn from_list(items: Vec<Json>) -> (document: Json)
        ensures
            document@ == JsonView::Array(json_views(items@)),
    {
        let document = Json::Array(items);
        assert(document@->Array_0 =~= json_views(items@));
        document
    }

    /// The document that lists texts.
    pub fn from_texts(items: &Vec<String>) -> (document: Json)
        ensures
            document@ == texts_json(texts(items@)),
    {
        let mut list: Vec<Json> = Vec::new();
        let mut i: usize = 0;
        while i < items.len()
            invariant
                i <= items.len(),
                list.len() == i,
                forall|k: int| 0 <= k < i ==> (#[trigger] list@[k])@ == JsonView::Text(items@[k]@),
            decreases items.len() - i,
        {
            list.push(Json::Text(items[i].clone()));
            i = i + 1;
        }
        assert(json_views(list@) =~= texts_json(texts(items@))->Array_0);
        Json::from_list(list)
    }

    /// A copy of the document.
    pub fn copy(&self) -> (document: Json)
        ensures
            document@ == self@,
        decreases self,
    {
        match self {
            Json::Null => Json::Null,
            Json::Bool(b) => Json::Bool(*b),
            Json::Unsigned(n) => Json::Unsigned(*n),
            Json::Negative(n) => Json::Negative(*n),
            Json::Decimal(s) => Json::Decimal(s.clone()),
            Json::Text(s) => Json::Text(s.clone()),
            Json::Array(items) => {
                let mut list: Vec<Json> = Vec::new();
                let mut i: usize = 0;
                while i < items.len()
                    invariant
                        i <= items.len(),
                        list.len() == i,
                        *self == Json::Array(*items),
                        forall|k: int| 0 <= k < i ==> (#[trigger] list@[k])@ == items@[k]@,
                    decreases items.len() - i,
                {
                    assert(decreases_to!(*self => self->Array_0));
                    assert(decreases_to!(self->Array_0 => self->Array_0@));
                    assert(decreases_to!(items@ => items@[i as int]));
                    list.push(items[i].copy());
                    i = i + 1;
                }
                let document = Json::Array(list);
                assert(document@->Array_0 =~= self@->Array_0);
                document
            },
            Json::Object(fields) => {
                let mut list: Vec<(String, Json)> = Vec::new();
                let mut i: usize = 0;
                while i < fields.len()
                    invariant
                        i <= fields.len(),
                        list.len() == i,
                        *self == Json::Object(*fields),
                        forall|k: int|
                            0 <= k < i ==> (#[trigger] list@[k]).0@ == fields@[k].0@ && list@[k].1@
                                == fields@[k].1@,
                    decreases fields.len() - i,
                {
                    assert(decreases_to!(*self => self->Object_0));
                    assert(decreases_to!(self->Object_0 => self->Object_0@));
                    assert(decreases_to!(fields@ => fields@[i as int]));
                    assert(decreases_to!(fields@[i as int] => fields@[i as int].1));
                    list.push((fields[i].0.clone(), fields[i].1.copy()));
                    i = i + 1;
                }
                let document = Json::Object(list);
                assert(document@->Object_0 =~= self@->Object_0);
                document
            },
        }
    }

    /// The member of an object called `key`.
    pub fn get(&self, key: &str) -> (value: Option<&Json>)
        ensures
            (match value {
                Some(v) => self@.member(key@) == Some(v@),
                None => self@.member(key@) is None,
            }),
    {
        match self {
            Json::Object(fields) => {
                let ghost names = self@->Object_0;
                let mut i: usize = 0;
                while i < fields.len()
                    invariant
                        i <= fields.len(),
                        *self == Json::Object(*fields),
                        names == self@->Object_0,
                        forall|k: int| 0 <= k < i ==> (#[trigger] names[k]).0 != key@,
                    decreases fields.len() - i,
                {
                    if same_text(&fields[i].0, key) {
                        proof {
                            lemma_field_index(names, key@, i as int);
                        }
                        return Some(&fields[i].1);
                    }
                    i = i + 1;
                }
                proof {
                    lemma_field_index(names, key@, names.len() as int);
                }
                None
            },
            _ => None,
        }
    }

    /// Sets the member of an object called `key`.
    pub fn set(self, key: &str, value: Json) -> (document: Json)
        ensures
            document@ == self@.with_member(key@, value@),
    {
        let ghost before = self@;
        match self {
            Json::Object(fields) => {
                let mut list = fields;
                let ghost names = before->Object_0;
                let mut i: usize = 0;
                while i < list.len() && !same_text(&list[i].0, key)
                    invariant
                        i <= list.len(),
                        names == field_views(list@),
                        forall|k: int| 0 <= k < i ==> (#[trigger] names[k]).0 != key@,
                    decreases list.len() - i,
                {
                    i = i + 1;
                }
                proof {
                    lemma_field_index(names, key@, i as int);
                }
                let found = i < list.len();
                if found {
                    list.set(i, (key.to_owned(), value));
                } else {
                    list.push((key.to_owned(), value));
                }
                let document = Json::Object(list);
                assert(document@->Object_0 =~= before.with_member(key@, value@)->Object_0);
                document
            },
            other => other,
        }
    }

    /// The text, if the document is one.
    pub fn as_text(&self) -> (s: Option<&String>)
        ensures
            (match s {
                Some(t) => self@.text() == Some(t@),
                None => self@.text() is None,
            }),
    {
        match self {
            Json::Text(s) => Some(s),
            _ => None,
        }
    }

    /// The member called `key`, if it is a text.
    pub fn get_text(&self, key: &str) -> (s: Option<&String>)
        ensures
            (match s {
                Some(t) => self@.text_member(key@) == Some(t@),
                None => self@.text_member(key@) is None,
            }),
    {
        match self.get(key) {
            Some(value) => value.as_text(),
            None => None,
        }
    }

    /// The member called `key`, if it is a text, and `default` if not.
    pub fn get_text_or(&self, key: &str, default: &str) -> (s: String)
        ensures
            s@ == self@.text_member_or(key@, default@),
    {
        match self.get_text(key) {
            Some(s) => s.clone(),
            None => default.to_owned(),
        }
    }

    /// Whether the member called `key` is the literal `true`.
    pub fn get_true(&self, key: &str) -> (r: bool)
        ensures
            r == self@.true_member(key@),
    {
        match self.get(key) {
            Some(Json::Bool(b)) => *b,
            _ => false,
        }
    }

    /// The texts of an array that holds nothing else.
    pub fn as_text_list(&self) -> (r: Option<Vec<String>>)
        ensures
            (match r {
                Some(list) => self@.text_list() == Some(texts(list@)),
                None => self@.text_list() is None,
            }),
    {
        match self {
            Json::Array(items) => {
                let ghost views = self@->Array_0;
                let mut list: Vec<String> = Vec::new();
                let mut i: usize = 0;
                while i < items.len()
                    invariant
                        i <= items.len(),
                        list.len() == i,
                        *self == Json::Array(*items),
                        views == self@->Array_0,
                        forall|k: int|
                            0 <= k < i ==> (#[trigger] views[k]) == JsonView::Text(list@[k]@),
                    decreases items.len() - i,
                {
                    assert(views[i as int] == items@[i as int]@);
                    match &items[i] {
                        Json::Text(s) => {
                            list.push(s.clone());
                        },
                        _ => {
                            assert(!(views[i as int] is Text));
                            return None;
                        },
                    }
                    i = i + 1;
                }
                assert(self@.text_list()->0 =~= texts(list@));
                Some(list)
            },
            _ => None,
        }
    }

    /// The pairs of an array that holds nothing but pairs of texts.
    pub fn as_text_pairs(&self) -> (r: Option<Vec<(String, String)>>)
        ensures
            (match r {
                Some(list) => self@.text_pairs() == Some(pair_texts(list@)),
                None => self@.text_pairs() is None,
            }),
    {
        match self {
            Json::Array(items) => {
                let ghost views = self@->Array_0;
                let mut list: Vec<(String, String)> = Vec::new();
                let mut i: usize = 0;
                while i < items.len()
                    invariant
                        i <= items.len(),
                        list.len() == i,
                        *self == Json::Array(*items),
                        views == self@->Array_0,
                        forall|k: int| 0 <= k < i ==> (#[trigger] views[k]).is_text_pair(),
                        forall|k: int|
                            0 <= k < i ==> (#[trigger] list@[k]).0@ == views[k].text_list()->0[0]
                                && list@[k].1@ == views[k].text_list()->0[1],
                    decreases items.len() - i,
                {
                    match items[i].as_text_list() {
                        Some(pair) => {
                            if pair.len() != 2 {
                                assert(!views[i as int].is_text_pair());
                                return None;
                            }
                            assert(texts(pair@)[0] == pair@[0]@);
                            assert(texts(pair@)[1] == pair@[1]@);
                            assert(views[i as int].is_text_pair());
                            list.push((pair[0].clone(), pair[1].clone()));
                        },
                        None => {
                            assert(!views[i as int].is_text_pair());
                            return None;
                        },
                    }
                    i = i + 1;
                }
                assert(self@.text_pairs()->0 =~= pair_texts(list@));
                Some(list)
            },
            _ => None,
        }
    }
}

/// The texts of a list of pairs.
pub open spec fn pair_texts(items: Seq<(String, String)>) -> Seq<(Seq<char>, Seq<char>)> {
    Seq::new(items.len(), |i: int| (items[i].0@, items[i].1@))
}

/// Copies of documents.
pub fn copy_documents(items: &Vec<Json>) -> (r: Vec<Json>)
    ensures
        json_views(r@) == json_views(items@),
{
    let mut r: Vec<Json> = Vec::new();
    let mut i: usize = 0;
    while i < items.len()
        invariant
            i <= items.len(),
            r.len() == i,
            forall|k: int| 0 <= k < i ==> (#[trigger] r@[k])@ == items@[k]@,
        decreases items.len() - i,
    {
        r.push(items[i].copy());
        i = i + 1;
    }
    assert(json_views(r@) =~= json_views(items@));
    r
}

/// The fields of an object under construction.
pub struct Fields {
    items: Vec<(String, Json)>,
}

/// What the fields of an object under construction say.
#[verifier::ext_equal]
pub struct FieldsView {
    pub list: Seq<(Seq<char>, JsonView)>,
}

/// No fields.
pub open spec fn fields() -> FieldsView {
    FieldsView { list: Seq::empty() }
}

impl FieldsView {
    /// The fields followed by one more.
    pub open spec fn put(self, key: Seq<char>, value: JsonView) -> FieldsView {
        FieldsView { list: self.list.push((key, value)) }
    }

    /// The object with these fields.
    pub open spec fn object(self) -> JsonView {
        JsonView::Object(self.list)
    }
}

impl View for Fields {
    type V = FieldsView;

    closed spec fn view(&self) -> FieldsView {
        FieldsView { list: field_views(self.items@) }
    }
}

impl Fields {
    /// No fields.
    pub fn new() -> (r: Fields)
        ensures
            r@ == fields(),
    {
        let r = Fields { items: Vec::new() };
        assert(r@ =~= fields());
        r
    }

    /// The fields followed by one more.
    pub fn with(self, key: &str, value: Json) -> (r: Fields)
        ensures
            r@ == self@.put(key@, value@),
    {
        let mut items = self.items;
        items.push((key.to_owned(), value));
        let r = Fields { items };
        assert(r@ =~= self@.put(key@, value@));
        r
    }

    /// The fields followed by one that holds a text.
    pub fn with_text(self, key: &str, value: &str) -> (r: Fields)
        ensures
            r@ == self@.put(key@, JsonView::Text(value@)),
    {
        self.with(key, Json::from_text(value))
    }

    /// The fields followed by one that holds a truth value.
    pub fn with_bool(self, key: &str, value: bool) -> (r: Fields)
        ensures
            r@ == self@.put(key@, JsonView::Bool(value)),
    {
        self.with(key, Json::Bool(value))
    }

    /// The fields followed by one that holds a count.
    pub fn with_count(self, key: &str, value: usize) -> (r: Fields)
        ensures
            r@ == self@.put(key@, JsonView::Unsigned(value as u64)),
    {
        self.with(key, Json::from_count(value))
    }

    /// The fields followed by one that is null.
    pub fn with_null(self, key: &str) -> (r: Fields)
        ensures
            r@ == self@.put(key@, JsonView::Null),
    {
        self.with(key, Json::Null)
    }

    /// The object with these fields.
    pub fn object(self) -> (document: Json)
        ensures
            document@ == self@.object(),
    {
        let document = Json::Object(self.items);
        assert(document@->Object_0 =~= self@.list);
        document
    }
}

/// `serde_json::Value`.
#[verifier::external_type_specification]
#[verifier::external_body]
pub struct ExValue(serde_json::Value);

/// What a `serde_json::Value` holds.
pub uninterp spec fn value_contents(value: serde_json::Value) -> JsonView;

/// What `serde_json::from_str` reads in a text: a document, or the message of
/// the error.
pub uninterp spec fn read_document(text: Seq<char>) -> Result<JsonView, Seq<char>>;

/// Whether `a` comes before `b` in the order of texts, which is that of their
/// characters.
pub open spec fn text_before(a: Seq<char>, b: Seq<char>) -> bool
    decreases a.len(),
{
    if b.len() == 0 {
        false
    } else if a.len() == 0 {
        true
    } else if a[0] != b[0] {
        (a[0] as u32) < (b[0] as u32)
    } else {
        text_before(a.drop_first(), b.drop_first())
    }
}

/// Fields in the order of their keys, with one of them set.
pub open spec fn with_ordered(
    fields: Seq<(Seq<char>, JsonView)>,
    key: Seq<char>,
    value: JsonView,
) -> Seq<(Seq<char>, JsonView)>
    decreases fields.len(),
{
    if fields.len() == 0 {
        seq![(key, value)]
    } else if fields[0].0 == key {
        seq![(key, value)] + fields.drop_first()
    } else if text_before(key, fields[0].0) {
        seq![(key, value)] + fields
    } else {
        seq![fields[0]] + with_ordered(fields.drop_first(), key, value)
    }
}

/// Fields in the order of their keys. Of fields with one key the last stays.
pub open spec fn in_order(fields: Seq<(Seq<char>, JsonView)>) -> Seq<(Seq<char>, JsonView)>
    decreases fields.len(),
{
    if fields.len() == 0 {
        Seq::empty()
    } else {
        with_ordered(in_order(fields.drop_last()), fields.last().0, fields.last().1)
    }
}

/// What a `serde_json::Value` made from a document holds: its objects are
/// ordered by key, and of fields with one key the last stays. A decimal is what
/// `serde_json` reads in its notation, and null where it reads nothing.
#[verifier::opaque]
pub open spec fn stored(document: JsonView) -> JsonView
    decreases document,
{
    match document {
        JsonView::Negative(n) => if n >= 0 {
            JsonView::Unsigned(n as u64)
        } else {
            document
        },
        JsonView::Decimal(s) => match read_document(s) {
            Ok(number) => number,
            Err(_) => JsonView::Null,
        },
        JsonView::Array(items) => JsonView::Array(
            Seq::new(
                items.len(),
                |i: int|
                    if 0 <= i < items.len() {
                        stored(items[i])
                    } else {
                        JsonView::Null
                    },
            ),
        ),
        JsonView::Object(fields) => JsonView::Object(
            in_order(
                Seq::new(
                    fields.len(),
                    |i: int|
                        if 0 <= i < fields.len() {
                            (fields[i].0, stored(fields[i].1))
                        } else {
                            (Seq::empty(), JsonView::Null)
                        },
                ),
            ),
        ),
        _ => document,
    }
}

/// What the `Display` of a `serde_json::Value` writes, without any space.
pub uninterp spec fn compact_text(document: JsonView) -> Seq<char>;

/// What `serde_json::to_string_pretty` writes: the text, or the message of the
/// error.
pub uninterp spec fn pretty_text(document: JsonView) -> Result<Seq<char>, Seq<char>>;

/// `serde_json::from_str` reads a document, or says why the text holds none.
/// Which texts hold a document, and what the message says, is the JSON grammar
/// of that crate and is not stated.
#[verifier::external_body]
fn value_from_text(text: &str) -> (r: Result<serde_json::Value, String>)
    ensures
        (match r {
            Ok(value) => read_document(text@) == Ok::<JsonView, Seq<char>>(value_contents(value)),
            Err(message) => read_document(text@) == Err::<JsonView, Seq<char>>(message@),
        }),
{
    serde_json::from_str(text).map_err(|error: serde_json::Error| error.to_string())
}

/// The document that a `serde_json::Value` holds, variant by variant. A number
/// without an exact 64-bit integer keeps the notation that its `Display` gives.
#[verifier::external_body]
pub(crate) fn document_of(value: serde_json::Value) -> (document: Json)
    ensures
        document@ == value_contents(value),
{
    match value {
        serde_json::Value::Null => Json::Null,
        serde_json::Value::Bool(b) => Json::Bool(b),
        serde_json::Value::Number(n) => match (n.as_u64(), n.as_i64()) {
            (Some(u), _) => Json::Unsigned(u),
            (None, Some(i)) => Json::Negative(i),
            (None, None) => Json::Decimal(n.to_string()),
        },
        serde_json::Value::String(s) => Json::Text(s),
        serde_json::Value::Array(a) => Json::Array(a.into_iter().map(document_of).collect()),
        serde_json::Value::Object(o) => {
            Json::Object(o.into_iter().map(|(k, v)| (k, document_of(v))).collect())
        },
    }
}

/// The `serde_json::Value` made from a document, variant by variant. A decimal
/// goes through `serde_json::from_str`; one that is no JSON number becomes null.
#[verifier::external_body]
fn value_of(document: &Json) -> (value: serde_json::Value)
    ensures
        value_contents(value) == stored(document@),
{
    match document {
        Json::Null => serde_json::Value::Null,
        Json::Bool(b) => serde_json::Value::Bool(*b),
        Json::Unsigned(n) => serde_json::Value::from(*n),
        Json::Negative(n) => serde_json::Value::from(*n),
        Json::Decimal(s) => serde_json::from_str(s).unwrap_or(serde_json::Value::Null),
        Json::Text(s) => serde_json::Value::String(s.clone()),
        Json::Array(items) => serde_json::Value::Array(items.iter().map(value_of).collect()),
        Json::Object(fields) => {
            serde_json::Value::Object(fields.iter().map(|(k, v)| (k.clone(), value_of(v))).collect())
        },
    }
}

/// The `Display` of a `serde_json::Value`.
#[verifier::external_body]
fn value_text(value: &serde_json::Value) -> (s: String)
    ensures
        s@ == compact_text(value_contents(*value)),
{
    value.to_string()
}

/// `serde_json::to_string_pretty` of a `serde_json::Value`.
#[verifier::external_body]
pub(crate) fn pretty_value_text(value: &serde_json::Value) -> (r: Result<String, String>)
    ensures
        (match r {
            Ok(s) => pretty_text(value_contents(*value)) == Ok::<Seq<char>, Seq<char>>(s@),
            Err(message) => pretty_text(value_contents(*value)) == Err::<Seq<char>, Seq<char>>(
                message@,
            ),
        }),
{
    serde_json::to_string_pretty(value).map_err(|error| error.to_string())
}

/// The text of a document, with ordered keys and without any space.
pub fn write_document(document: &Json) -> (s: String)
    ensures
        s@ == compact_text(stored(document@)),
{
    value_text(&value_of(document))
}

/// The text of a reply, with ordered keys and indented.
pub fn json_to_string(document: &Json) -> (r: Result<String, String>)
    ensures
        (match r {
            Ok(s) => pretty_text(stored(document@)) == Ok::<Seq<char>, Seq<char>>(s@),
            Err(message) => pretty_text(stored(document@)) matches Err(fault) && message@
                == "Serialization error: "@ + fault,
        }),
{
    match pretty_value_text(&value_of(document)) {
        Ok(s) => Ok(s),
        Err(message) => Err(cat2("Serialization error: ", &message)),
    }
}

/// The document that a text holds, or why it holds none.
pub fn parse_document(text: &str) -> (r: Result<Json, String>)
    ensures
        (match r {
            Ok(document) => read_document(text@) == Ok::<JsonView, Seq<char>>(document@),
            Err(message) => read_document(text@) == Err::<JsonView, Seq<char>>(message@),
        }),
{
    match value_from_text(text) {
        Ok(value) => Ok(document_of(value)),
        Err(message) => Err(message),
    }
}

/// The offset of a field is within the fields, and the field stands there and
/// nowhere before.
pub proof fn lemma_field_found(fields: Seq<(Seq<char>, JsonView)>, key: Seq<char>)
    ensures
        0 <= field_index(fields, key) <= fields.len(),
        field_index(fields, key) < fields.len() ==> fields[field_index(fields, key)].0 == key,
        forall|i: int| 0 <= i < field_index(fields, key) ==> (#[trigger] fields[i]).0 != key,
    decreases fields.len(),
{
    if fields.len() > 0 && fields[0].0 != key {
        let rest = fields.subrange(1, fields.len() as int);
        lemma_field_found(rest, key);
        assert forall|i: int| 0 <= i < field_index(fields, key) implies (#[trigger] fields[i]).0
            != key by {
            if i > 0 {
                assert(rest[i - 1] == fields[i]);
            }
        }
    }
}

/// One more field is the member of its name where there was none, and changes
/// no other member.
pub broadcast proof fn lemma_put_member(
    f: FieldsView,
    key: Seq<char>,
    value: JsonView,
    other: Seq<char>,
)
    ensures
        (#[trigger] f.put(key, value).object().member(other)) == (match f.object().member(other) {
            Some(found) => Some(found),
            None => if other == key {
                Some(value)
            } else {
                None
            },
        }),
{
    let more = f.put(key, value).list;
    lemma_field_found(f.list, other);
    let k = field_index(f.list, other);
    assert forall|i: int| 0 <= i < k implies (#[trigger] more[i]).0 != other by {
        assert(more[i] == f.list[i]);
    }
    if k < f.list.len() || key == other {
        lemma_field_index(more, other, k);
    } else {
        assert forall|i: int| 0 <= i < more.len() implies (#[trigger] more[i]).0 != other by {
            if i < k {
                assert(more[i] == f.list[i]);
            }
        }
        lemma_field_index(more, other, more.len() as int);
    }
}

/// An object without fields has no member.
pub broadcast proof fn lemma_no_member(key: Seq<char>)
    ensures
        (#[trigger] fields().object().member(key)) is None,
{
}

/// A member that was set is read back, and every other member stays.
pub proof fn law_set_members_are_read_back(
    document: JsonView,
    key: Seq<char>,
    value: JsonView,
    other: Seq<char>,
)
    requires
        document is Object,
    ensures
        document.with_member(key, value).member(key) == Some(value),
        other != key ==> document.with_member(key, value).member(other) == document.member(other),
{
    let list = document->Object_0;
    let k = field_index(list, key);
    lemma_field_found(list, key);
    if k < list.len() {
        let more = list.update(k, (key, value));
        assert forall|i: int| 0 <= i < k implies (#[trigger] more[i]).0 != key by {
            assert(more[i] == list[i]);
        }
        lemma_field_index(more, key, k);
        lemma_field_found(list, other);
        let o = field_index(list, other);
        if other != key {
            assert forall|i: int| 0 <= i < o implies (#[trigger] more[i]).0 != other by {
                if i != k {
                    assert(more[i] == list[i]);
                }
            }
            lemma_field_index(more, other, o);
        }
    } else {
        lemma_put_member(FieldsView { list }, key, value, key);
        lemma_put_member(FieldsView { list }, key, value, other);
    }
}

/// Different characters have different numbers.
proof fn lemma_characters_differ(a: char, b: char)
    requires
        a != b,
    ensures
        a as u32 != b as u32,
{
}

/// The order of texts is strict and total: no text comes before itself, of two
/// different ones just one comes before the other, and what comes before a text
/// comes before all behind it.
pub proof fn law_texts_are_ordered(a: Seq<char>, b: Seq<char>, c: Seq<char>)
    ensures
        !text_before(a, a),
        a != b ==> (text_before(a, b) <==> !text_before(b, a)),
        text_before(a, b) && text_before(b, c) ==> text_before(a, c),
        b.len() > 0 ==> text_before(a, a + b),
    decreases a.len() + b.len() + c.len(),
{
    if a.len() > 0 {
        let none = Seq::<char>::empty();
        assert((a + b).drop_first() =~= a.drop_first() + b);
        law_texts_are_ordered(a.drop_first(), b, none);
        if b.len() > 0 {
            let rest = if c.len() > 0 {
                c.drop_first()
            } else {
                c
            };
            law_texts_are_ordered(a.drop_first(), b.drop_first(), rest);
            if a[0] == b[0] && a.drop_first() == b.drop_first() {
                assert(a =~= seq![a[0]] + a.drop_first());
                assert(b =~= seq![b[0]] + b.drop_first());
                assert(a == b);
            }
            if a[0] != b[0] {
                lemma_characters_differ(a[0], b[0]);
            }
        }
    } else {
        if b.len() == 0 {
            assert(a =~= b);
        }
        assert(a + b =~= b);
    }
}

/// Setting a field keeps the others, and keeps the fields in order.
proof fn lemma_with_ordered(fields: Seq<(Seq<char>, JsonView)>, key: Seq<char>, value: JsonView)
    requires
        keys_in_order(fields),
    ensures
        keys_in_order(with_ordered(fields, key, value)),
        with_ordered(fields, key, value).contains((key, value)),
        forall|k: Seq<char>, v: JsonView|
            k != key ==> (#[trigger] with_ordered(fields, key, value).contains((k, v))
                <==> fields.contains((k, v))),
    decreases fields.len(),
{
    let result = with_ordered(fields, key, value);
    if fields.len() == 0 {
        assert(result[0] == (key, value));
    } else {
        let rest = fields.drop_first();
        assert(forall|i: int| 0 <= i < rest.len() ==> #[trigger] rest[i] == fields[i + 1]);
        assert(keys_in_order(rest));
        law_texts_are_ordered(key, fields[0].0, key);
        if fields[0].0 == key {
            assert(result =~= fields.update(0, (key, value)));
            assert(result[0] == (key, value));
            assert forall|k: Seq<char>, v: JsonView| k != key implies (#[trigger] result.contains(
                (k, v),
            ) <==> fields.contains((k, v))) by {
                if result.contains((k, v)) {
                    let i = choose|i: int| 0 <= i < result.len() && result[i] == (k, v);
                    assert(fields[i] == (k, v));
                }
                if fields.contains((k, v)) {
                    let i = choose|i: int| 0 <= i < fields.len() && fields[i] == (k, v);
                    assert(result[i] == (k, v));
                }
            }
        } else if text_before(key, fields[0].0) {
            assert(result =~= fields.insert(0, (key, value)));
            assert(result[0] == (key, value));
            assert forall|i: int, j: int| 0 <= i < j < result.len() implies text_before(
                (#[trigger] result[i]).0,
                (#[trigger] result[j]).0,
            ) by {
                assert(result[j] == fields[j - 1]);
                if i > 0 {
                    assert(result[i] == fields[i - 1]);
                } else {
                    law_texts_are_ordered(key, fields[0].0, fields[j - 1].0);
                    if j > 1 {
                        assert(text_before(fields[0].0, fields[j - 1].0));
                    }
                }
            }
            assert forall|k: Seq<char>, v: JsonView| k != key implies (#[trigger] result.contains(
                (k, v),
            ) <==> fields.contains((k, v))) by {
                if result.contains((k, v)) {
                    let i = choose|i: int| 0 <= i < result.len() && result[i] == (k, v);
                    assert(fields[i - 1] == (k, v));
                }
                if fields.contains((k, v)) {
                    let i = choose|i: int| 0 <= i < fields.len() && fields[i] == (k, v);
                    assert(result[i + 1] == (k, v));
                }
            }
        } else {
            let more = with_ordered(rest, key, value);
            lemma_with_ordered(rest, key, value);
            assert(result =~= more.insert(0, fields[0]));
            let at = choose|i: int| 0 <= i < more.len() && more[i] == (key, value);
            assert(result[at + 1] == (key, value));
            assert forall|i: int, j: int| 0 <= i < j < result.len() implies text_before(
                (#[trigger] result[i]).0,
                (#[trigger] result[j]).0,
            ) by {
                assert(result[j] == more[j - 1]);
                if i > 0 {
                    assert(result[i] == more[i - 1]);
                } else {
                    let (k, v) = more[j - 1];
                    if k != key {
                        assert(more.contains((k, v)));
                        assert(rest.contains((k, v)));
                        let m = choose|m: int| 0 <= m < rest.len() && rest[m] == (k, v);
                        assert(fields[m + 1] == (k, v));
                        assert(text_before(fields[0].0, fields[m + 1].0));
                    }
                }
            }
            assert forall|k: Seq<char>, v: JsonView| k != key implies (#[trigger] result.contains(
                (k, v),
            ) <==> fields.contains((k, v))) by {
                if result.contains((k, v)) {
                    let i = choose|i: int| 0 <= i < result.len() && result[i] == (k, v);
                    if i > 0 {
                        assert(more[i - 1] == (k, v));
                        assert(more.contains((k, v)));
                        let m = choose|m: int| 0 <= m < rest.len() && rest[m] == (k, v);
                        assert(fields[m + 1] == (k, v));
                    } else {
                        assert(fields[0] == (k, v));
                    }
                }
                if fields.contains((k, v)) {
                    let i = choose|i: int| 0 <= i < fields.len() && fields[i] == (k, v);
                    if i > 0 {
                        assert(rest[i - 1] == (k, v));
                        assert(rest.contains((k, v)));
                        assert(more.contains((k, v)));
                        let m = choose|m: int| 0 <= m < more.len() && more[m] == (k, v);
                        assert(result[m + 1] == (k, v));
                    } else {
                        assert(result[0] == (k, v));
                    }
                }
            }
        }
    }
}

/// The keys of fields ascend.
pub open spec fn keys_in_order(fields: Seq<(Seq<char>, JsonView)>) -> bool {
    forall|i: int, j: int|
        0 <= i < j < fields.len() ==> text_before(
            (#[trigger] fields[i]).0,
            (#[trigger] fields[j]).0,
        )
}

/// Fields that are put in order have ascending keys, so none twice, and hold
/// just what was set last under each key.
pub proof fn law_fields_are_stored_in_order(
    fields: Seq<(Seq<char>, JsonView)>,
    key: Seq<char>,
    value: JsonView,
)
    ensures
        keys_in_order(in_order(fields)),
        in_order(fields).contains((key, value)) <==> exists|i: int|
            0 <= i < fields.len() && #[trigger] fields[i] == (key, value) && forall|j: int|
                i < j < fields.len() ==> (#[trigger] fields[j]).0 != key,
    decreases fields.len(),
{
    if fields.len() > 0 {
        let fewer = fields.drop_last();
        let (last_key, last_value) = fields.last();
        let last = fields.len() - 1;
        law_fields_are_stored_in_order(fewer, key, value);
        lemma_with_ordered(in_order(fewer), last_key, last_value);
        let result = in_order(fields);
        if key != last_key {
            if result.contains((key, value)) {
                let i = choose|i: int|
                    0 <= i < fewer.len() && #[trigger] fewer[i] == (key, value) && forall|j: int|
                        i < j < fewer.len() ==> (#[trigger] fewer[j]).0 != key;
                assert(fields[i] == (key, value));
                assert forall|j: int| i < j < fields.len() implies (#[trigger] fields[j]).0
                    != key by {
                    if j < last {
                        assert(fewer[j] == fields[j]);
                    }
                }
            }
            if exists|i: int|
                0 <= i < fields.len() && #[trigger] fields[i] == (key, value) && forall|j: int|
                    i < j < fields.len() ==> (#[trigger] fields[j]).0 != key {
                let i = choose|i: int|
                    0 <= i < fields.len() && #[trigger] fields[i] == (key, value) && forall|j: int|
                        i < j < fields.len() ==> (#[trigger] fields[j]).0 != key;
                assert(fewer[i] == (key, value));
                assert forall|j: int| i < j < fewer.len() implies (#[trigger] fewer[j]).0
                    != key by {
                    assert(fewer[j] == fields[j]);
                }
            }
        } else {
            assert(fields[last] == (last_key, last_value));
            if result.contains((key, value)) {
                let i = choose|i: int| 0 <= i < result.len() && result[i] == (key, value);
                let j = choose|j: int|
                    0 <= j < result.len() && result[j] == (last_key, last_value);
                law_texts_are_ordered(key, key, key);
                assert(i == j);
            }
        }
    }
}

}
