//! Reranking: a language model rates every result from 1 to 5, and the results
//! are ordered by rating.
use crate::http::byte_length;
use crate::json::{copy_documents, fields, json_views, Fields, Json, JsonView};
use crate::text::{chars_of, cat5, digit_char, trim, trimmed};
use vstd::multiset::Multiset;
use vstd::prelude::*;
use vstd::seq_lib::lemma_multiset_commutative;
use vstd::string::StrSliceExecFns;
use vstd::utf8::{encode_scalar, encode_utf8};

verus! {

/// The largest number of results that are reranked.
pub const MAX_RERANK_RESULTS: usize = 50;

/// The largest part of a result, in bytes, that is rated.
pub const MAX_RERANK_CONTENT_BYTES: usize = 2_000;

/// The model that rates.
pub const RERANK_MODEL: &'static str = "granite4.1:3b";

/// `end` characters of `content` are the longest prefix of at most `max` bytes.
pub open spec fn longest_prefix(content: Seq<char>, end: int, max: int) -> bool {
    &&& 0 <= end <= content.len()
    &&& byte_length(content.subrange(0, end)) <= max
    &&& end < content.len() ==> byte_length(content.subrange(0, end + 1)) > max
}

/// Appending a character appends its encoding.
proof fn lemma_encode_push(s: Seq<char>, c: char)
    ensures
        encode_utf8(s.push(c)) == encode_utf8(s) + encode_scalar(c as u32),
    decreases s.len(),
{
    if s.len() == 0 {
        reveal_with_fuel(encode_utf8, 2);
        assert(s.push(c).drop_first() =~= Seq::<char>::empty());
        assert(encode_utf8(s.push(c)) =~= encode_scalar(c as u32));
    } else {
        lemma_encode_push(s.drop_first(), c);
        assert(s.push(c).drop_first() =~= s.drop_first().push(c));
        assert(encode_utf8(s.push(c)) =~= encode_utf8(s) + encode_scalar(c as u32));
    }
}

/// A longer prefix takes at least as many bytes.
pub proof fn lemma_prefix_bytes(content: Seq<char>, a: int, b: int)
    requires
        0 <= a <= b <= content.len(),
    ensures
        byte_length(content.subrange(0, a)) <= byte_length(content.subrange(0, b)),
    decreases b - a,
{
    if a < b {
        lemma_prefix_bytes(content, a, b - 1);
        assert(content.subrange(0, b - 1).push(content[b - 1]) =~= content.subrange(0, b));
        lemma_encode_push(content.subrange(0, b - 1), content[b - 1]);
    }
}

/// The number of bytes of a character in UTF-8.
fn char_bytes(c: char) -> (n: usize)
    ensures
        n == encode_scalar(c as u32).len(),
        1 <= n <= 4,
{
    let v = c as u32;
    if v < 0x80 {
        1
    } else if v < 0x800 {
        2
    } else if v < 0x10000 {
        3
    } else {
        4
    }
}

/// The longest prefix of a result's content that is rated.
pub fn truncate_rerank_content(content: &str) -> (r: &str)
    ensures
        exists|end: int| #[trigger]
            longest_prefix(content@, end, MAX_RERANK_CONTENT_BYTES as int) && r@
                == content@.subrange(0, end),
{
    let chars = chars_of(content);
    let mut end: usize = 0;
    let mut bytes: usize = 0;
    assert(content@.subrange(0, 0) =~= Seq::<char>::empty());
    while end < chars.len() && bytes + char_bytes(chars[end]) <= MAX_RERANK_CONTENT_BYTES
        invariant
            chars@ == content@,
            end <= chars.len(),
            bytes == byte_length(content@.subrange(0, end as int)),
            bytes <= MAX_RERANK_CONTENT_BYTES,
        decreases chars.len() - end,
    {
        proof {
            lemma_encode_push(content@.subrange(0, end as int), content@[end as int]);
            assert(content@.subrange(0, end as int).push(content@[end as int])
                =~= content@.subrange(0, end as int + 1));
        }
        bytes = bytes + char_bytes(chars[end]);
        end = end + 1;
    }
    proof {
        if end < chars.len() {
            lemma_encode_push(content@.subrange(0, end as int), content@[end as int]);
            assert(content@.subrange(0, end as int).push(content@[end as int])
                =~= content@.subrange(0, end as int + 1));
        }
        assert(longest_prefix(content@, end as int, MAX_RERANK_CONTENT_BYTES as int));
    }
    content.substring_char(0, end)
}

/// The number of candidates to fetch for `top_k` reranked results: twice as
/// many, up to the most that are reranked.
pub fn rerank_candidate_limit(top_k: usize) -> (limit: usize)
    ensures
        limit == (if 2 * top_k < MAX_RERANK_RESULTS {
            2 * top_k
        } else {
            MAX_RERANK_RESULTS as int
        }),
{
    if top_k < 25 {
        top_k * 2
    } else {
        MAX_RERANK_RESULTS
    }
}

/// The prompt that asks for the rating of one document.
pub open spec fn rating_prompt(query: Seq<char>, document: Seq<char>) -> Seq<char> {
    "Rate the relevance of this document to the query on a scale of 1-5. Reply with ONLY the number.\nQuery: "@
        + query + "\nDocument: "@ + document + "\nRating:"@
}

/// The request that asks a model for the rating of one result.
pub open spec fn rating_request(model: Seq<char>, prompt: Seq<char>) -> JsonView {
    fields().put("model"@, JsonView::Text(model)).put("prompt"@, JsonView::Text(prompt)).put(
        "stream"@,
        JsonView::Bool(false),
    ).put(
        "options"@,
        fields().put("temperature"@, JsonView::Unsigned(0)).put(
            "num_predict"@,
            JsonView::Unsigned(1),
        ).object(),
    ).object()
}

/// The content of a result that is rated.
pub open spec fn result_content(result: JsonView) -> Seq<char> {
    result.text_member_or("content"@, ""@)
}

/// The request that asks `model` for the rating of `result`.
pub fn rerank_request(query: &str, result: &Json, model: &str) -> (request: Json)
    ensures
        exists|end: int| #[trigger]
            longest_prefix(result_content(result@), end, MAX_RERANK_CONTENT_BYTES as int)
                && request@ == rating_request(
                model@,
                rating_prompt(query@, result_content(result@).subrange(0, end)),
            ),
{
    let content = result.get_text_or("content", "");
    let document = truncate_rerank_content(&content);
    let ghost end = choose|end: int| #[trigger]
        longest_prefix(content@, end, MAX_RERANK_CONTENT_BYTES as int) && document@
            == content@.subrange(0, end);
    let prompt = cat5(
        "Rate the relevance of this document to the query on a scale of 1-5. Reply with ONLY the number.\nQuery: ",
        query,
        "\nDocument: ",
        document,
        "\nRating:",
    );
    assert(prompt@ == rating_prompt(query@, result_content(result@).subrange(0, end)));
    Fields::new().with_text("model", model).with_text("prompt", &prompt).with_bool("stream", false)
        .with(
        "options",
        Fields::new().with("temperature", Json::Unsigned(0)).with("num_predict", Json::Unsigned(1))
            .object(),
    ).object()
}

/// The rating that a model's reply gives: its `response` begins, after white
/// space, with a digit from 1 to 5.
pub open spec fn given_rating(reply: JsonView) -> Option<int> {
    match reply.text_member("response"@) {
        None => None,
        Some(s) => {
            let t = trimmed(s);
            if t.len() > 0 && '1' <= t[0] <= '5' {
                Some(t[0] as int - 48)
            } else {
                None
            }
        },
    }
}

/// The rating that a model's reply gives.
pub fn rating_of(reply: &Json) -> (rating: Option<u8>)
    ensures
        (match rating {
            Some(n) => given_rating(reply@) == Some(n as int) && 1 <= n <= 5,
            None => given_rating(reply@) is None,
        }),
{
    match reply.get_text("response") {
        None => None,
        Some(s) => {
            let chars = chars_of(&trim(s));
            if chars.len() > 0 && '1' <= chars[0] && chars[0] <= '5' {
                Some((chars[0] as u8) - 48)
            } else {
                None
            }
        },
    }
}

/// How a rerank ended.
#[derive(Clone, Copy, Debug, PartialEq, Eq, Structural)]
pub enum RerankStatus {
    NotApplicable,
    Degraded,
    Applied,
}

impl RerankStatus {
    /// The name of the status in replies.
    pub open spec fn text(self) -> Seq<char> {
        match self {
            RerankStatus::NotApplicable => "not_applicable"@,
            RerankStatus::Degraded => "degraded"@,
            RerankStatus::Applied => "applied"@,
        }
    }

    /// The name of the status in replies.
    pub fn name(self) -> (s: &'static str)
        ensures
            s@ == self.text(),
    {
        match self {
            RerankStatus::NotApplicable => "not_applicable",
            RerankStatus::Degraded => "degraded",
            RerankStatus::Applied => "applied",
        }
    }
}

/// The notation of a rating in replies.
pub open spec fn rating_text(rating: int) -> Seq<char> {
    seq![digit_char(rating)] + ".0"@
}

/// A result with its rating noted in it.
pub open spec fn rated(result: JsonView, rating: int) -> JsonView {
    result.with_member("rerank_score"@, JsonView::Decimal(rating_text(rating)))
}

/// The results rated `rating`, in their order, with the rating noted.
pub open spec fn with_rating(results: Seq<JsonView>, ratings: Seq<u8>, rating: int) -> Seq<
    JsonView,
>
    decreases results.len(),
{
    if results.len() == 0 || ratings.len() != results.len() {
        Seq::empty()
    } else {
        let before = with_rating(results.drop_last(), ratings.drop_last(), rating);
        if ratings.last() == rating {
            before.push(rated(results.last(), rating))
        } else {
            before
        }
    }
}

/// The results from the best rating to the worst; results of one rating keep
/// their order.
pub open spec fn ranked(results: Seq<JsonView>, ratings: Seq<u8>) -> Seq<JsonView> {
    with_rating(results, ratings, 5) + with_rating(results, ratings, 4) + with_rating(
        results,
        ratings,
        3,
    ) + with_rating(results, ratings, 2) + with_rating(results, ratings, 1)
}

/// What a rerank hands back: the results by rating if every result has one,
/// and the results as they were if any has none.
pub open spec fn reranked(results: Seq<JsonView>, ratings: Seq<Option<u8>>) -> (
    Seq<JsonView>,
    RerankStatus,
) {
    if all_rated(ratings) && ratings.len() == results.len() {
        (ranked(results, Seq::new(ratings.len(), |i: int| ratings[i]->0)), RerankStatus::Applied)
    } else {
        (results, RerankStatus::Degraded)
    }
}

/// Every rating is there, from 1 to 5.
pub open spec fn all_rated(ratings: Seq<Option<u8>>) -> bool {
    forall|i: int|
        0 <= i < ratings.len() ==> (#[trigger] ratings[i]) is Some && 1 <= ratings[i]->0 <= 5
}

/// The notation of a rating in replies.
fn rating_notation(rating: u8) -> (s: String)
    requires
        1 <= rating <= 5,
    ensures
        s@ == rating_text(rating as int),
{
    let mut s = String::new();
    s.push((rating + 48) as char);
    s.append(".0");
    assert(s@ =~= rating_text(rating as int));
    s
}

/// Appends the results rated `rating`, in their order.
fn push_rated(out: &mut Vec<Json>, results: &Vec<Json>, ratings: &Vec<u8>, rating: u8)
    requires
        results.len() == ratings.len(),
        1 <= rating <= 5,
    ensures
        json_views(final(out)@) == json_views(old(out)@) + with_rating(
            json_views(results@),
            ratings@,
            rating as int,
        ),
{
    let ghost start = json_views(out@);
    let ghost all = json_views(results@);
    let mut i: usize = 0;
    proof {
        assert(all.subrange(0, 0) =~= Seq::<JsonView>::empty());
        assert(start + Seq::<JsonView>::empty() =~= start);
    }
    while i < results.len()
        invariant
            i <= results.len(),
            results.len() == ratings.len(),
            1 <= rating <= 5,
            all == json_views(results@),
            json_views(out@) == start + with_rating(
                all.subrange(0, i as int),
                ratings@.subrange(0, i as int),
                rating as int,
            ),
        decreases results.len() - i,
    {
        let ghost before = out@;
        proof {
            assert(all.subrange(0, i as int + 1).drop_last() =~= all.subrange(0, i as int));
            assert(ratings@.subrange(0, i as int + 1).drop_last() =~= ratings@.subrange(
                0,
                i as int,
            ));
        }
        if ratings[i] == rating {
            out.push(
                results[i].copy().set("rerank_score", Json::Decimal(rating_notation(rating))),
            );
            proof {
                assert(json_views(out@) =~= json_views(before).push(
                    rated(all[i as int], rating as int),
                ));
                assert(json_views(out@) =~= start + with_rating(
                    all.subrange(0, i as int + 1),
                    ratings@.subrange(0, i as int + 1),
                    rating as int,
                ));
            }
        }
        i = i + 1;
    }
    proof {
        assert(all.subrange(0, all.len() as int) =~= all);
        assert(ratings@.subrange(0, ratings@.len() as int) =~= ratings@);
    }
}

/// The ratings, if every one is there.
fn complete_ratings(ratings: &Vec<Option<u8>>) -> (r: Option<Vec<u8>>)
    ensures
        (match r {
            Some(given) => all_rated(ratings@) && given@ == Seq::new(
                ratings@.len(),
                |i: int| ratings@[i]->0,
            ),
            None => !all_rated(ratings@),
        }),
{
    let mut given: Vec<u8> = Vec::new();
    let mut i: usize = 0;
    while i < ratings.len()
        invariant
            i <= ratings.len(),
            given.len() == i,
            forall|k: int|
                0 <= k < i ==> (#[trigger] ratings@[k]) == Some(given@[k]) && 1 <= given@[k] <= 5,
        decreases ratings.len() - i,
    {
        let rating = ratings[i];
        match rating {
            Some(n) => {
                if n < 1 || n > 5 {
                    assert(!(1 <= ratings@[i as int]->0 <= 5));
                    return None;
                }
                given.push(n);
            },
            None => {
                assert(!(ratings@[i as int] is Some));
                return None;
            },
        }
        i = i + 1;
    }
    assert(given@ =~= Seq::new(ratings@.len(), |k: int| ratings@[k]->0));
    Some(given)
}

/// Orders results by the ratings that were given; without a rating for every
/// result the results stay as they are.
pub fn apply_ratings(results: &Vec<Json>, ratings: &Vec<Option<u8>>) -> (r: (
    Vec<Json>,
    RerankStatus,
))
    ensures
        (json_views(r.0@), r.1) == reranked(json_views(results@), ratings@),
{
    let ghost all = json_views(results@);
    let given = match complete_ratings(ratings) {
        Some(given) if given.len() == results.len() => given,
        _ => {
            let out = copy_documents(results);
            assert(json_views(out@) =~= all);
            return (out, RerankStatus::Degraded);
        },
    };
    proof {
        assert(Seq::new(ratings@.len(), |k: int| ratings@[k]->0) =~= given@);
        assert(all_rated(ratings@));
    }
    let mut out: Vec<Json> = Vec::new();
    assert(json_views(out@) =~= Seq::<JsonView>::empty());
    push_rated(&mut out, results, &given, 5);
    assert(json_views(out@) =~= with_rating(all, given@, 5));
    push_rated(&mut out, results, &given, 4);
    push_rated(&mut out, results, &given, 3);
    push_rated(&mut out, results, &given, 2);
    push_rated(&mut out, results, &given, 1);
    (out, RerankStatus::Applied)
}

/// Every result with its rating noted.
pub open spec fn each_rated(results: Seq<JsonView>, ratings: Seq<u8>) -> Seq<JsonView> {
    Seq::new(results.len(), |i: int| rated(results[i], ratings[i] as int))
}

/// The results of each rating, counted together.
spec fn ranked_counts(results: Seq<JsonView>, ratings: Seq<u8>) -> Multiset<JsonView> {
    with_rating(results, ratings, 5).to_multiset().add(
        with_rating(results, ratings, 4).to_multiset(),
    ).add(with_rating(results, ratings, 3).to_multiset()).add(
        with_rating(results, ratings, 2).to_multiset(),
    ).add(with_rating(results, ratings, 1).to_multiset())
}

proof fn lemma_ranked_counts(results: Seq<JsonView>, ratings: Seq<u8>)
    ensures
        ranked(results, ratings).to_multiset() == ranked_counts(results, ratings),
{
    let r5 = with_rating(results, ratings, 5);
    let r4 = with_rating(results, ratings, 4);
    let r3 = with_rating(results, ratings, 3);
    let r2 = with_rating(results, ratings, 2);
    let r1 = with_rating(results, ratings, 1);
    lemma_multiset_commutative(r5, r4);
    lemma_multiset_commutative(r5 + r4, r3);
    lemma_multiset_commutative(r5 + r4 + r3, r2);
    lemma_multiset_commutative(r5 + r4 + r3 + r2, r1);
}

/// An applied rerank loses and invents nothing: its results are the given ones,
/// each with its rating noted.
pub proof fn law_rerank_is_a_permutation(results: Seq<JsonView>, ratings: Seq<u8>)
    requires
        ratings.len() == results.len(),
        forall|i: int| 0 <= i < ratings.len() ==> 1 <= (#[trigger] ratings[i]) <= 5,
    ensures
        ranked(results, ratings).to_multiset() == each_rated(results, ratings).to_multiset(),
        ranked(results, ratings).len() == results.len(),
    decreases results.len(),
{
    broadcast use vstd::seq_lib::group_to_multiset_ensures;
    broadcast use vstd::multiset::group_multiset_axioms;

    lemma_ranked_counts(results, ratings);
    if results.len() == 0 {
        assert(each_rated(results, ratings) =~= Seq::<JsonView>::empty());
        assert(ranked_counts(results, ratings) =~= Multiset::empty());
        assert(each_rated(results, ratings).to_multiset() =~= Multiset::empty());
    } else {
        let fewer = results.drop_last();
        let less = ratings.drop_last();
        assert forall|i: int| 0 <= i < less.len() implies 1 <= (#[trigger] less[i]) <= 5 by {
            assert(ratings[i] == less[i]);
        }
        law_rerank_is_a_permutation(fewer, less);
        lemma_ranked_counts(fewer, less);
        let last = rated(results.last(), ratings.last() as int);
        assert(1 <= ratings[ratings.len() - 1] <= 5);
        assert(each_rated(results, ratings) =~= each_rated(fewer, less).push(last));
        assert(ranked_counts(results, ratings) =~= ranked_counts(fewer, less).insert(last));
    }
    assert(ranked(results, ratings).to_multiset().len() == each_rated(
        results,
        ratings,
    ).to_multiset().len());
}

/// The offsets of the results rated `rating`, in their order.
spec fn rated_offsets(ratings: Seq<u8>, rating: int) -> Seq<int>
    decreases ratings.len(),
{
    if ratings.len() == 0 {
        Seq::empty()
    } else if ratings.last() == rating {
        rated_offsets(ratings.drop_last(), rating).push(ratings.len() - 1)
    } else {
        rated_offsets(ratings.drop_last(), rating)
    }
}

/// The results of one rating are those at the offsets of that rating, ascending.
proof fn lemma_rated_offsets(results: Seq<JsonView>, ratings: Seq<u8>, rating: int)
    requires
        results.len() == ratings.len(),
    ensures
        ({
            let found = rated_offsets(ratings, rating);
            &&& with_rating(results, ratings, rating).len() == found.len()
            &&& forall|n: int|
                0 <= n < found.len() ==> 0 <= #[trigger] found[n] < ratings.len()
                    && ratings[found[n]] == rating && with_rating(results, ratings, rating)[n]
                    == rated(results[found[n]], rating)
            &&& forall|n: int, m: int|
                0 <= n < m < found.len() ==> #[trigger] found[n] < #[trigger] found[m]
        }),
    decreases ratings.len(),
{
    if ratings.len() > 0 {
        let (fewer, less) = (results.drop_last(), ratings.drop_last());
        let found = rated_offsets(ratings, rating);
        let before = rated_offsets(less, rating);
        lemma_rated_offsets(fewer, less, rating);
        assert forall|n: int| 0 <= n < found.len() implies 0 <= #[trigger] found[n] < ratings.len()
            && ratings[found[n]] == rating && with_rating(results, ratings, rating)[n] == rated(
            results[found[n]],
            rating,
        ) by {
            if n < before.len() {
                assert(before[n] == found[n]);
                assert(less[before[n]] == ratings[before[n]]);
                assert(fewer[before[n]] == results[before[n]]);
            }
        }
        assert forall|n: int, m: int| 0 <= n < m < found.len() implies #[trigger] found[n]
            < #[trigger] found[m] by {
            assert(before[n] == found[n]);
            if m < before.len() {
                assert(before[m] == found[m]);
            }
        }
    }
}

/// An applied rerank puts the better rated result first: from one result to a
/// later one the ratings never rise, and results of equal rating keep their
/// order. Each result notes its own rating, as a number with one decimal.
/// `order` gives for each reranked result the offset that it had, each offset
/// once.
pub proof fn law_rerank_orders_by_rating(results: Seq<JsonView>, ratings: Seq<Option<u8>>) -> (order:
    Seq<int>)
    requires
        ratings.len() == results.len(),
        forall|i: int|
            0 <= i < ratings.len() ==> (#[trigger] ratings[i]) is Some && 1 <= ratings[i]->0 <= 5,
    ensures
        reranked(results, ratings).1 == RerankStatus::Applied,
        reranked(results, ratings).0.len() == results.len(),
        order.len() == results.len(),
        forall|n: int|
            0 <= n < order.len() ==> 0 <= #[trigger] order[n] < results.len() && reranked(
                results,
                ratings,
            ).0[n] == results[order[n]].with_member(
                "rerank_score"@,
                JsonView::Decimal(seq![(48 + ratings[order[n]]->0) as char, '.', '0']),
            ),
        forall|n: int, m: int|
            0 <= n < m < order.len() ==> ratings[#[trigger] order[n]]->0 >= ratings[
                #[trigger] order[m]
            ]->0,
        forall|n: int, m: int|
            0 <= n < m < order.len() && ratings[#[trigger] order[n]] == ratings[
                #[trigger] order[m]
            ] ==> order[n] < order[m],
{
    let given = Seq::new(ratings.len(), |i: int| ratings[i]->0);
    assert forall|i: int| 0 <= i < given.len() implies 1 <= (#[trigger] given[i]) <= 5 by {
        assert(ratings[i] is Some);
    }
    law_rerank_is_a_permutation(results, given);
    lemma_rated_offsets(results, given, 5);
    lemma_rated_offsets(results, given, 4);
    lemma_rated_offsets(results, given, 3);
    lemma_rated_offsets(results, given, 2);
    lemma_rated_offsets(results, given, 1);
    let o5 = rated_offsets(given, 5);
    let o4 = o5 + rated_offsets(given, 4);
    let o3 = o4 + rated_offsets(given, 3);
    let o2 = o3 + rated_offsets(given, 2);
    let order = o2 + rated_offsets(given, 1);
    let out = ranked(results, given);
    reveal_strlit(".0");
    assert forall|n: int| 0 <= n < order.len() implies 0 <= #[trigger] order[n] < results.len()
        && out[n] == results[order[n]].with_member(
        "rerank_score"@,
        JsonView::Decimal(seq![(48 + given[order[n]]) as char, '.', '0']),
    ) && given[order[n]] == (if n < o5.len() {
        5
    } else if n < o4.len() {
        4
    } else if n < o3.len() {
        3
    } else if n < o2.len() {
        2
    } else {
        1int
    }) by {
        if n < o5.len() {
            assert(order[n] == o5[n]);
        } else if n < o4.len() {
            assert(order[n] == rated_offsets(given, 4)[n - o5.len()]);
        } else if n < o3.len() {
            assert(order[n] == rated_offsets(given, 3)[n - o4.len()]);
        } else if n < o2.len() {
            assert(order[n] == rated_offsets(given, 2)[n - o3.len()]);
        } else {
            assert(order[n] == rated_offsets(given, 1)[n - o2.len()]);
        }
        let rating = given[order[n]] as int;
        assert(rating_text(rating) =~= seq![(48 + rating) as char, '.', '0']);
    }
    assert forall|n: int, m: int|
        0 <= n < m < order.len() && given[#[trigger] order[n]] == given[
            #[trigger] order[m]
        ] implies order[n] < order[m] by {
        if n < o5.len() {
            assert(o5[n] < o5[m]);
        } else if n < o4.len() {
            let found = rated_offsets(given, 4);
            assert(found[n - o5.len()] < found[m - o5.len()]);
        } else if n < o3.len() {
            let found = rated_offsets(given, 3);
            assert(found[n - o4.len()] < found[m - o4.len()]);
        } else if n < o2.len() {
            let found = rated_offsets(given, 2);
            assert(found[n - o3.len()] < found[m - o3.len()]);
        } else {
            let found = rated_offsets(given, 1);
            assert(found[n - o2.len()] < found[m - o2.len()]);
        }
    }
    order
}

/// A rerank in which any rating is missing changes nothing and says so.
pub proof fn law_degraded_rerank_changes_nothing(
    results: Seq<JsonView>,
    ratings: Seq<Option<u8>>,
    i: int,
)
    requires
        0 <= i < ratings.len(),
        ratings[i] is None,
    ensures
        reranked(results, ratings) == (results, RerankStatus::Degraded),
{
    assert(!(ratings[i] is Some));
}

/// What is rated of a content is within the limit and cannot be made longer.
pub proof fn law_rated_content_is_maximal(content: Seq<char>, end: int, longer: int)
    requires
        longest_prefix(content, end, MAX_RERANK_CONTENT_BYTES as int),
        end < longer <= content.len(),
    ensures
        byte_length(content.subrange(0, end)) <= MAX_RERANK_CONTENT_BYTES,
        byte_length(content.subrange(0, longer)) > MAX_RERANK_CONTENT_BYTES,
{
    lemma_prefix_bytes(content, end + 1, longer);
}

/// A reply is rated by the first character behind white space: a digit from 1 to
/// 5 is the rating, and anything else is none.
pub proof fn law_replies_are_rated_by_their_first_digit(
    reply: JsonView,
    margin: Seq<char>,
    rest: Seq<char>,
)
    requires
        reply.text_member("response"@) == Some(margin + rest),
        crate::text::blank(margin),
        rest.len() > 0,
        !crate::text::white_space(rest[0]),
    ensures
        '1' <= rest[0] <= '5' ==> given_rating(reply) == Some(rest[0] as int - 48),
        !('1' <= rest[0] <= '5') ==> given_rating(reply) is None,
{
    let whole = margin + rest;
    let (from, to) = crate::text::law_trimming_removes_the_margins(whole);
    let k = margin.len() as int;
    assert(whole[k] == rest[0]);
    if k < from {
        assert(crate::text::white_space(whole[k]));
    }
    if to <= k {
        assert(crate::text::white_space(whole[k]));
    }
    if from < k {
        assert(trimmed(whole)[0] == whole[from]);
        assert(whole[from] == margin[from]);
    }
}

/// What a model is asked holds the query and the document, the query first, and
/// it is asked for one token without a stream.
pub proof fn law_ratings_are_asked_for(model: Seq<char>, query: Seq<char>, document: Seq<char>)
    ensures
        ({
            let request = rating_request(model, rating_prompt(query, document));
            let prompt = rating_prompt(query, document);
            let start = prompt.len() - "\nRating:"@.len() - document.len();
            &&& request.text_member("model"@) == Some(model)
            &&& request.text_member("prompt"@) == Some(prompt)
            &&& request.member("stream"@) == Some(JsonView::Bool(false))
            &&& prompt.subrange(start, start + document.len()) == document
            &&& prompt.subrange(
                start - "\nDocument: "@.len() - query.len(),
                start - "\nDocument: "@.len(),
            ) == query
        }),
{
    reveal_strlit("model");
    reveal_strlit("prompt");
    reveal_strlit("stream");
    reveal_strlit("options");
    assert("model"@.len() == 5 && "prompt"@.len() == 6 && "stream"@.len() == 6);
    assert("options"@.len() == 7 && "prompt"@[0] == 'p' && "stream"@[0] == 's');
    broadcast use crate::json::lemma_put_member, crate::json::lemma_no_member;

    let prompt = rating_prompt(query, document);
    let start = prompt.len() - "\nRating:"@.len() - document.len();
    assert(prompt.subrange(start, start + document.len()) =~= document);
    assert(prompt.subrange(
        start - "\nDocument: "@.len() - query.len(),
        start - "\nDocument: "@.len(),
    ) =~= query);
}

/// What is rated of a result is its content, and nothing where it has none.
pub proof fn law_contents_are_rated(result: JsonView, content: Seq<char>)
    ensures
        result.member("content"@) == Some(JsonView::Text(content)) ==> result_content(result)
            == content,
        result.member("content"@) is None ==> result_content(result).len() == 0,
{
    reveal_strlit("");
}

}
