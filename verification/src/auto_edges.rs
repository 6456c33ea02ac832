//! Edges that are created without being asked for one by one: between facts
//! that share a telling term.
use crate::facts::{fact_node, node_of_fact};
use crate::http_api::{invalid_json, read_body, HttpStatus, Reply, ReplyView};
use crate::json::{fields, pair_texts, parse_document, read_document, Fields, Json, JsonView};
use crate::graph_tools::StoredEdge;
use crate::text::{
    ascii_lowered,
    blank,
    chars_of,
    holds,
    is_blank,
    is_white_space,
    same_text,
    split_words,
    texts,
    to_ascii_lowercase,
    white_space,
    words,
};
use vstd::prelude::*;

verus! {

/// Words that tell nothing of what a fact is about.
pub const STOPWORDS: &'static str =
    "a about above according across actually after afterwards again against ago \
     all almost alone along already also although always am among amongst an and \
     another any anybody anyhow anyone anything anyway anywhere apart are around \
     as aside at available away awfully back be became because become becomes \
     becoming been before beforehand began behind being believe below beside \
     besides best better between beyond both brief but by call called came can \
     cannot cause causes certain certainly change changed clearly come comes \
     concerning consequently consider considering contain containing contains \
     corresponding could course currently date day days definitely described \
     despite detail did different do does doing done down downwards due during \
     each early easily effect eight either else elsewhere end ended enough \
     entirely especially even ever every everybody everyone everything everywhere \
     exactly example except far few fifth find first five followed following \
     follows for former formerly forth found four from further furthermore gave \
     general generally get gets getting give given gives go goes going gone got \
     great had happens hardly has have having he hello help hence her here \
     hereafter hereby herein hers herself high him himself his hither hopefully \
     how however i if ignored immediate important in include includes including \
     indeed indicate indicated indicates information inner insofar instead into \
     inward is it its itself just keep keeps kept kind know known knows large \
     last lately later latter least less lest let like liked likely little long \
     look looking looks low made mainly make makes making many matter may maybe \
     me mean means meanwhile merely might mine more moreover most mostly much \
     must my myself name named namely near nearly necessary need needs neither \
     never nevertheless new next nine no nobody none nor normally not nothing now \
     nowhere number obviously of off often oh ok okay old on once one ones only \
     onto or other others otherwise ought our ours ourselves out outside over \
     overall own part particular particularly per perhaps place placed please \
     plus point possible present presumably previous probably provide provided \
     provides put quite rather really reasonably regarding regardless regards \
     relatively respectively result results right said same saw say saying says \
     second secondly see seeing seem seemed seeming seems seen self selves \
     sensible sent serious seriously set seven several shall she should since six \
     small so some somebody somehow someone something sometime sometimes somewhat \
     somewhere soon sorry specified specify still such sure take taken taking \
     tell tends than thank thanks that the their theirs them themselves then \
     thence there thereafter thereby therefore therein these they thing things \
     think third this thorough thoroughly those though three through throughout \
     thru thus time times to today together too took toward towards tried tries \
     true truly try trying twice two under unfortunately unless unlikely until \
     unto up upon us use used useful user uses using usually value various very \
     via want wants was way we week welcome well went were what whatever when \
     whence whenever where whereafter whereas whereby wherein wherever whether \
     which while whither who whoever whole whom whose why will willing wish with \
     within without wonder word words work would year years yes yet you your \
     yours yourself yourselves zero";

/// Namespaces of social media, which are left alone.
pub const SOCIAL_NAMESPACES: &'static str =
    "bluesky facebook instagram linkedin mastodon reddit social social-media social_media \
     threads tiktok twitter x youtube";

/// A character of a word.
pub open spec fn word_char(c: char) -> bool {
    ||| 'a' <= c <= 'z'
    ||| 'A' <= c <= 'Z'
    ||| '0' <= c <= '9'
    ||| c == '_'
    ||| c as u32 >= 128 && !white_space(c)
}

/// A text with a space for every character that is in no word.
pub open spec fn spaced(s: Seq<char>) -> Seq<char> {
    Seq::new(
        s.len(),
        |i: int|
            if word_char(s[i]) {
                s[i]
            } else {
                ' '
            },
    )
}

/// A small letter is followed by a capital one.
pub open spec fn camel_case(word: Seq<char>) -> bool {
    exists|i: int, j: int|
        0 <= i && j == i + 1 && j < word.len() && 'a' <= #[trigger] word[i] <= 'z' && 'A'
            <= #[trigger] word[j] <= 'Z'
}

/// Whether a word tells what a fact is about: it is no stopword, and it is a
/// proper noun, in camel case, or has five characters or more.
pub open spec fn telling(word: Seq<char>) -> bool {
    &&& word.len() > 0
    &&& !words(STOPWORDS@).contains(ascii_lowered(word))
    &&& 'A' <= word[0] <= 'Z' || camel_case(word) || word.len() >= 5
}

/// The telling words among some, in lower case and in their order.
pub open spec fn telling_words(list: Seq<Seq<char>>) -> Seq<Seq<char>>
    decreases list.len(),
{
    if list.len() == 0 {
        Seq::empty()
    } else if telling(list.last()) {
        telling_words(list.drop_last()).push(ascii_lowered(list.last()))
    } else {
        telling_words(list.drop_last())
    }
}

/// The terms of a content.
pub open spec fn terms_of(content: Seq<char>) -> Seq<Seq<char>> {
    telling_words(words(spaced(content)))
}

/// A text with a space for every character that is in no word.
fn space_out(s: &str) -> (r: String)
    ensures
        r@ == spaced(s@),
{
    let chars = chars_of(s);
    let mut r = String::new();
    let mut i: usize = 0;
    while i < chars.len()
        invariant
            chars@ == s@,
            i <= chars@.len(),
            r@ == spaced(s@).subrange(0, i as int),
        decreases chars.len() - i,
    {
        let c = chars[i];
        let inside = ('a' <= c && c <= 'z') || ('A' <= c && c <= 'Z') || ('0' <= c && c <= '9') || c
            == '_' || (c as u32 >= 128 && !is_white_space(c));
        if inside {
            r.push(c);
        } else {
            r.push(' ');
        }
        assert(spaced(s@).subrange(0, i as int + 1) =~= spaced(s@).subrange(0, i as int).push(
            spaced(s@)[i as int],
        ));
        i += 1;
    }
    assert(spaced(s@).subrange(0, s@.len() as int) =~= spaced(s@));
    r
}

/// Whether a small letter is followed by a capital one.
fn is_camel_case(chars: &Vec<char>) -> (r: bool)
    ensures
        r == camel_case(chars@),
{
    let mut i: usize = 1;
    while i < chars.len()
        invariant
            1 <= i,
            i <= chars@.len() || chars@.len() == 0,
            forall|a: int, b: int|
                0 <= a && b == a + 1 && b < i && b < chars@.len() ==> !('a' <= #[trigger] chars@[a]
                    <= 'z' && 'A' <= #[trigger] chars@[b] <= 'Z'),
        decreases chars@.len() - i,
    {
        let small = 'a' <= chars[i - 1] && chars[i - 1] <= 'z';
        let capital = 'A' <= chars[i] && chars[i] <= 'Z';
        if small && capital {
            assert('a' <= chars@[i - 1] <= 'z' && 'A' <= chars@[i as int] <= 'Z');
            return true;
        }
        i += 1;
    }
    false
}

/// Whether a word tells what a fact is about, given the stopwords.
fn is_telling(word: &str, stopwords: &Vec<String>) -> (r: bool)
    requires
        texts(stopwords@) == words(STOPWORDS@),
    ensures
        r == telling(word@),
{
    let chars = chars_of(word);
    if chars.len() == 0 || holds(stopwords, &to_ascii_lowercase(word)) {
        return false;
    }
    ('A' <= chars[0] && chars[0] <= 'Z') || is_camel_case(&chars) || chars.len() >= 5
}

/// The terms of a content, given the stopwords.
fn read_terms(content: &str, stopwords: &Vec<String>) -> (terms: Vec<String>)
    requires
        texts(stopwords@) == words(STOPWORDS@),
    ensures
        texts(terms@) == terms_of(content@),
{
    let list = split_words(&space_out(content));
    let ghost all = texts(list@);
    let mut terms: Vec<String> = Vec::new();
    let mut i: usize = 0;
    assert(all.subrange(0, 0) =~= Seq::empty());
    assert(texts(terms@) =~= Seq::empty());
    while i < list.len()
        invariant
            i <= list@.len(),
            all == texts(list@),
            texts(stopwords@) == words(STOPWORDS@),
            texts(terms@) == telling_words(all.subrange(0, i as int)),
        decreases list.len() - i,
    {
        assert(all.subrange(0, i as int + 1).drop_last() =~= all.subrange(0, i as int));
        if is_telling(&list[i], stopwords) {
            let ghost before = terms@;
            let term = to_ascii_lowercase(&list[i]);
            let ghost said = term@;
            terms.push(term);
            assert(texts(terms@) =~= texts(before).push(said));
        }
        i += 1;
    }
    assert(all.subrange(0, all.len() as int) =~= all);
    terms
}

/// The terms of a content.
pub fn content_terms(content: &str) -> (terms: Vec<String>)
    ensures
        texts(terms@) == terms_of(content@),
{
    read_terms(content, &split_words(STOPWORDS))
}

/// A fact that is scanned.
pub struct ScannedFact {
    pub id: String,
    pub namespace: String,
    pub content: String,
}

/// Whether a fact belongs to a social medium.
pub open spec fn social(fact: ScannedFact) -> bool {
    words(SOCIAL_NAMESPACES@).contains(ascii_lowered(fact.namespace@))
}

/// The first term of one list that another holds too.
pub open spec fn shared_term(a: Seq<Seq<char>>, b: Seq<Seq<char>>) -> Option<Seq<char>>
    decreases a.len(),
{
    if a.len() == 0 {
        None
    } else if b.contains(a[0]) {
        Some(a[0])
    } else {
        shared_term(a.subrange(1, a.len() as int), b)
    }
}

/// The term that relates two facts, where neither belongs to a social medium.
pub open spec fn relating_term(a: ScannedFact, b: ScannedFact) -> Option<Seq<char>> {
    if social(a) || social(b) {
        None
    } else {
        shared_term(terms_of(a.content@), terms_of(b.content@))
    }
}

/// Whether some edge joins two nodes, in either direction.
pub open spec fn joined_by(edges: Seq<(Seq<char>, Seq<char>)>, a: Seq<char>, b: Seq<char>) -> bool {
    edges.contains((a, b)) || edges.contains((b, a))
}

/// The edge that is created between two facts: its source, its target, and the
/// term that relates them. There is none between facts that no term relates,
/// nor between nodes that an edge joins already.
pub open spec fn edge_between(
    a: ScannedFact,
    b: ScannedFact,
    edges: Seq<(Seq<char>, Seq<char>)>,
) -> Option<(Seq<char>, Seq<char>, Seq<char>)> {
    let (source, target) = (fact_node(a.id@), fact_node(b.id@));
    match relating_term(a, b) {
        Some(term) => if joined_by(edges, source, target) {
            None
        } else {
            Some((source, target, term))
        },
        None => None,
    }
}

/// The edges from a fact to the facts that come after it, before offset `n`.
pub open spec fn edges_from(
    facts: Seq<ScannedFact>,
    edges: Seq<(Seq<char>, Seq<char>)>,
    i: int,
    n: int,
) -> Seq<(Seq<char>, Seq<char>, Seq<char>)>
    decreases n,
{
    if n <= i + 1 || n <= 0 {
        Seq::empty()
    } else {
        let before = edges_from(facts, edges, i, n - 1);
        match edge_between(facts[i], facts[n - 1], edges) {
            Some(edge) => before.push(edge),
            None => before,
        }
    }
}

/// The edges that are created from the first `m` facts to those after them.
pub open spec fn planned_edges(
    facts: Seq<ScannedFact>,
    edges: Seq<(Seq<char>, Seq<char>)>,
    m: int,
) -> Seq<(Seq<char>, Seq<char>, Seq<char>)>
    decreases m,
{
    if m <= 0 {
        Seq::empty()
    } else {
        planned_edges(facts, edges, m - 1) + edges_from(facts, edges, m - 1, facts.len() as int)
    }
}

/// An edge that is to be created.
pub struct PlannedEdge {
    pub source: String,
    pub target: String,
    pub relation: String,
    /// What is kept beside the edge.
    pub metadata: Json,
}

/// What is kept beside an edge that was created over a term.
pub open spec fn auto_metadata(term: Seq<char>) -> JsonView {
    fields().put("created_by"@, JsonView::Text("auto-edge"@)).put(
        "term"@,
        JsonView::Text(term),
    ).object()
}

/// Whether an edge is the one that the plan names.
pub open spec fn carries_out(edge: PlannedEdge, plan: (Seq<char>, Seq<char>, Seq<char>)) -> bool {
    &&& edge.source@ == plan.0
    &&& edge.target@ == plan.1
    &&& edge.relation@ == "related"@
    &&& edge.metadata@ == auto_metadata(plan.2)
}

/// Whether edges are those that the plan names, in its order.
pub open spec fn carry_out(
    list: Seq<PlannedEdge>,
    plan: Seq<(Seq<char>, Seq<char>, Seq<char>)>,
) -> bool {
    list.len() == plan.len() && forall|i: int|
        0 <= i < list.len() ==> carries_out(#[trigger] list[i], plan[i])
}

/// The first term of one list that another holds too.
fn find_shared<'a>(a: &'a Vec<String>, b: &Vec<String>) -> (r: Option<&'a String>)
    ensures
        (match r {
            Some(term) => shared_term(texts(a@), texts(b@)) == Some(term@),
            None => shared_term(texts(a@), texts(b@)) is None,
        }),
{
    let ghost all = texts(a@);
    let mut i: usize = 0;
    assert(all.subrange(0, all.len() as int) =~= all);
    while i < a.len()
        invariant
            i <= a@.len(),
            all == texts(a@),
            shared_term(all, texts(b@)) == shared_term(
                all.subrange(i as int, all.len() as int),
                texts(b@),
            ),
        decreases a.len() - i,
    {
        let ghost rest = all.subrange(i as int, all.len() as int);
        assert(rest[0] == a@[i as int]@);
        if holds(b, &a[i]) {
            return Some(&a[i]);
        }
        assert(rest.subrange(1, rest.len() as int) =~= all.subrange(i as int + 1, all.len() as int));
        i += 1;
    }
    None
}

/// Whether some edge joins two nodes, in either direction.
fn are_joined(edges: &Vec<(String, String)>, a: &str, b: &str) -> (r: bool)
    ensures
        r == joined_by(pair_texts(edges@), a@, b@),
{
    let ghost all = pair_texts(edges@);
    let mut i: usize = 0;
    while i < edges.len()
        invariant
            i <= edges@.len(),
            all == pair_texts(edges@),
            forall|j: int| 0 <= j < i ==> #[trigger] all[j] != (a@, b@) && all[j] != (b@, a@),
        decreases edges.len() - i,
    {
        let edge = &edges[i];
        if (same_text(&edge.0, a) && same_text(&edge.1, b)) || (same_text(&edge.0, b) && same_text(
            &edge.1,
            a,
        )) {
            assert(all[i as int] == (a@, b@) || all[i as int] == (b@, a@));
            return true;
        }
        assert(all[i as int] != (a@, b@) && all[i as int] != (b@, a@));
        i += 1;
    }
    false
}

/// What a scan knows of a fact: its node, and its terms, none where it belongs
/// to a social medium.
struct ScanNote {
    node: String,
    social: bool,
    terms: Vec<String>,
}

/// Whether a note says of a fact what it says.
spec fn notes(note: ScanNote, fact: ScannedFact) -> bool {
    &&& note.node@ == fact_node(fact.id@)
    &&& note.social == social(fact)
    &&& texts(note.terms@) == terms_of(fact.content@)
}

/// Notes on every fact.
fn note_facts(facts: &Vec<ScannedFact>) -> (r: Vec<ScanNote>)
    ensures
        r@.len() == facts@.len(),
        forall|i: int| 0 <= i < r@.len() ==> notes(#[trigger] r@[i], facts@[i]),
{
    let stopwords = split_words(STOPWORDS);
    let media = split_words(SOCIAL_NAMESPACES);
    let mut r: Vec<ScanNote> = Vec::new();
    let mut i: usize = 0;
    while i < facts.len()
        invariant
            i <= facts@.len(),
            texts(stopwords@) == words(STOPWORDS@),
            texts(media@) == words(SOCIAL_NAMESPACES@),
            r@.len() == i,
            forall|j: int| 0 <= j < i ==> notes(#[trigger] r@[j], facts@[j]),
        decreases facts.len() - i,
    {
        let fact = &facts[i];
        let note = ScanNote {
            node: node_of_fact(&fact.id),
            social: holds(&media, &to_ascii_lowercase(&fact.namespace)),
            terms: read_terms(&fact.content, &stopwords),
        };
        assert(notes(note, facts@[i as int]));
        r.push(note);
        i += 1;
    }
    r
}

/// The edges that are created between facts, given the edges that there are.
pub fn plan_auto_edges(facts: &Vec<ScannedFact>, edges: &Vec<(String, String)>) -> (list: Vec<
    PlannedEdge,
>)
    ensures
        carry_out(
            list@,
            planned_edges(facts@, pair_texts(edges@), facts@.len() as int),
        ),
{
    let known = note_facts(facts);
    let ghost there = pair_texts(edges@);
    let mut list: Vec<PlannedEdge> = Vec::new();
    let mut i: usize = 0;
    while i < facts.len()
        invariant
            i <= facts@.len(),
            there == pair_texts(edges@),
            known@.len() == facts@.len(),
            forall|j: int| 0 <= j < known@.len() ==> notes(#[trigger] known@[j], facts@[j]),
            carry_out(list@, planned_edges(facts@, there, i as int)),
        decreases facts.len() - i,
    {
        let ghost first = planned_edges(facts@, there, i as int);
        let mut n: usize = i + 1;
        assert(first + edges_from(facts@, there, i as int, n as int) =~= first);
        while n < facts.len()
            invariant
                i < n <= facts@.len(),
                there == pair_texts(edges@),
                known@.len() == facts@.len(),
                forall|j: int| 0 <= j < known@.len() ==> notes(#[trigger] known@[j], facts@[j]),
                carry_out(list@, first + edges_from(facts@, there, i as int, n as int)),
            decreases facts.len() - n,
        {
            let (a, b) = (&known[i], &known[n]);
            assert(notes(known@[i as int], facts@[i as int]));
            assert(notes(known@[n as int], facts@[n as int]));
            let ghost before = edges_from(facts@, there, i as int, n as int);
            let ghost next = edge_between(facts@[i as int], facts@[n as int], there);
            if !a.social && !b.social {
                if let Some(term) = find_shared(&a.terms, &b.terms) {
                    if !are_joined(edges, &a.node, &b.node) {
                        let metadata = Fields::new().with_text("created_by", "auto-edge").with_text(
                            "term",
                            term,
                        ).object();
                        let edge = PlannedEdge {
                            source: a.node.clone(),
                            target: b.node.clone(),
                            relation: "related".to_owned(),
                            metadata,
                        };
                        assert(carries_out(edge, next->0));
                        let ghost held = list@;
                        list.push(edge);
                        assert((first + before).push(next->0) =~= first + before.push(next->0));
                        assert(carry_out(list@, (first + before).push(next->0))) by {
                            assert forall|k: int| 0 <= k < list@.len() implies carries_out(
                                #[trigger] list@[k],
                                (first + before).push(next->0)[k],
                            ) by {
                                if k < held.len() {
                                    assert(carries_out(held[k], (first + before)[k]));
                                }
                            }
                        }
                    }
                }
            }
            n += 1;
        }
        i += 1;
    }
    list
}

/// An edge joins two facts over a term: both contents have it, neither fact
/// belongs to a social medium, and nothing joined the two yet.
pub open spec fn relates(
    edge: (Seq<char>, Seq<char>, Seq<char>),
    a: ScannedFact,
    b: ScannedFact,
    edges: Seq<(Seq<char>, Seq<char>)>,
) -> bool {
    &&& edge.0 == fact_node(a.id@)
    &&& edge.1 == fact_node(b.id@)
    &&& terms_of(a.content@).contains(edge.2)
    &&& terms_of(b.content@).contains(edge.2)
    &&& !social(a)
    &&& !social(b)
    &&& !joined_by(edges, edge.0, edge.1)
}

/// Every edge that is planned joins a fact and a later one over a term that
/// both have. Neither belongs to a social medium, and nothing joined them yet.
pub proof fn law_auto_edges_join_related_facts(
    facts: Seq<ScannedFact>,
    edges: Seq<(Seq<char>, Seq<char>)>,
    k: int,
)
    requires
        0 <= k < planned_edges(facts, edges, facts.len() as int).len(),
    ensures
        exists|i: int, j: int|
            0 <= i < j < facts.len() && #[trigger] relates(
                planned_edges(facts, edges, facts.len() as int)[k],
                facts[i],
                facts[j],
                edges,
            ),
{
    lemma_planned_edges(facts, edges, facts.len() as int, k);
    let edge = planned_edges(facts, edges, facts.len() as int)[k];
    let (i, j) = choose|i: int, j: int|
        0 <= i < j < facts.len() && Some(edge) == #[trigger] edge_between(
            facts[i],
            facts[j],
            edges,
        );
    lemma_shared_term(terms_of(facts[i].content@), terms_of(facts[j].content@));
    assert(relates(edge, facts[i], facts[j], edges));
}

/// Two facts that share a term, neither of which belongs to a social medium,
/// get an edge unless something joins them already.
pub proof fn law_related_facts_are_joined(
    facts: Seq<ScannedFact>,
    edges: Seq<(Seq<char>, Seq<char>)>,
    i: int,
    j: int,
    term: Seq<char>,
)
    requires
        0 <= i < j < facts.len(),
        terms_of(facts[i].content@).contains(term),
        terms_of(facts[j].content@).contains(term),
        !social(facts[i]),
        !social(facts[j]),
        !joined_by(edges, fact_node(facts[i].id@), fact_node(facts[j].id@)),
    ensures
        exists|k: int|
            0 <= k < planned_edges(facts, edges, facts.len() as int).len() && #[trigger] relates(
                planned_edges(facts, edges, facts.len() as int)[k],
                facts[i],
                facts[j],
                edges,
            ),
{
    let n = facts.len() as int;
    let (a, b) = (terms_of(facts[i].content@), terms_of(facts[j].content@));
    lemma_some_term_is_shared(a, b, term);
    lemma_shared_term(a, b);
    let edge = edge_between(facts[i], facts[j], edges)->0;
    lemma_edge_is_planned(facts, edges, i, j, n);
    let k = choose|k: int|
        0 <= k < planned_edges(facts, edges, n).len() && #[trigger] planned_edges(
            facts,
            edges,
            n,
        )[k] == edge;
    assert(relates(planned_edges(facts, edges, n)[k], facts[i], facts[j], edges));
}

/// The shared term of two lists is in both.
proof fn lemma_shared_term(a: Seq<Seq<char>>, b: Seq<Seq<char>>)
    ensures
        shared_term(a, b) matches Some(term) ==> a.contains(term) && b.contains(term),
    decreases a.len(),
{
    if a.len() > 0 && !b.contains(a[0]) {
        let rest = a.subrange(1, a.len() as int);
        lemma_shared_term(rest, b);
        if let Some(term) = shared_term(rest, b) {
            let k = choose|k: int| 0 <= k < rest.len() && rest[k] == term;
            assert(a[k + 1] == term);
        }
    } else if a.len() > 0 {
        assert(a.contains(a[0]));
    }
}

/// Two lists that have a term in common share one.
proof fn lemma_some_term_is_shared(a: Seq<Seq<char>>, b: Seq<Seq<char>>, term: Seq<char>)
    requires
        a.contains(term),
        b.contains(term),
    ensures
        shared_term(a, b) is Some,
    decreases a.len(),
{
    let k = choose|k: int| 0 <= k < a.len() && a[k] == term;
    if !b.contains(a[0]) {
        let rest = a.subrange(1, a.len() as int);
        assert(rest[k - 1] == term);
        lemma_some_term_is_shared(rest, b, term);
    }
}

/// Every planned edge is the one between a fact and a later one.
proof fn lemma_planned_edges(
    facts: Seq<ScannedFact>,
    edges: Seq<(Seq<char>, Seq<char>)>,
    m: int,
    k: int,
)
    requires
        m <= facts.len(),
        0 <= k < planned_edges(facts, edges, m).len(),
    ensures
        exists|i: int, j: int|
            0 <= i < j < facts.len() && Some(planned_edges(facts, edges, m)[k]) == #[trigger]
                edge_between(facts[i], facts[j], edges),
    decreases m,
{
    if m > 0 {
        let before = planned_edges(facts, edges, m - 1);
        if k < before.len() {
            lemma_planned_edges(facts, edges, m - 1, k);
        } else {
            lemma_edges_from(facts, edges, m - 1, facts.len() as int, k - before.len());
        }
    }
}

/// The edge between a fact and a later one is among those from the fact.
proof fn lemma_edge_is_listed(
    facts: Seq<ScannedFact>,
    edges: Seq<(Seq<char>, Seq<char>)>,
    i: int,
    j: int,
    n: int,
)
    requires
        0 <= i < j < n <= facts.len(),
        edge_between(facts[i], facts[j], edges) is Some,
    ensures
        edges_from(facts, edges, i, n).contains(edge_between(facts[i], facts[j], edges)->0),
    decreases n,
{
    let edge = edge_between(facts[i], facts[j], edges)->0;
    let before = edges_from(facts, edges, i, n - 1);
    let all = edges_from(facts, edges, i, n);
    if j < n - 1 {
        lemma_edge_is_listed(facts, edges, i, j, n - 1);
        let k = choose|k: int| 0 <= k < before.len() && before[k] == edge;
        assert(all[k] == edge);
    } else {
        assert(all[before.len() as int] == edge);
    }
}

/// The edge between a fact and a later one is planned.
proof fn lemma_edge_is_planned(
    facts: Seq<ScannedFact>,
    edges: Seq<(Seq<char>, Seq<char>)>,
    i: int,
    j: int,
    m: int,
)
    requires
        0 <= i < j < facts.len(),
        i < m <= facts.len(),
        edge_between(facts[i], facts[j], edges) is Some,
    ensures
        exists|k: int|
            0 <= k < planned_edges(facts, edges, m).len() && #[trigger] planned_edges(
                facts,
                edges,
                m,
            )[k] == edge_between(facts[i], facts[j], edges)->0,
    decreases m,
{
    let edge = edge_between(facts[i], facts[j], edges)->0;
    let before = planned_edges(facts, edges, m - 1);
    let last = edges_from(facts, edges, m - 1, facts.len() as int);
    let all = planned_edges(facts, edges, m);
    if i < m - 1 {
        lemma_edge_is_planned(facts, edges, i, j, m - 1);
        let k = choose|k: int| 0 <= k < before.len() && #[trigger] before[k] == edge;
        assert(all[k] == edge);
    } else {
        lemma_edge_is_listed(facts, edges, i, j, facts.len() as int);
        let k = choose|k: int| 0 <= k < last.len() && last[k] == edge;
        assert(all[before.len() + k] == edge);
    }
}

/// An edge from a fact goes to one that comes after it.
proof fn lemma_edges_from(
    facts: Seq<ScannedFact>,
    edges: Seq<(Seq<char>, Seq<char>)>,
    i: int,
    n: int,
    k: int,
)
    requires
        0 <= i < facts.len(),
        n <= facts.len(),
        0 <= k < edges_from(facts, edges, i, n).len(),
    ensures
        exists|j: int|
            i < j < facts.len() && Some(edges_from(facts, edges, i, n)[k]) == #[trigger]
                edge_between(facts[i], facts[j], edges),
    decreases n,
{
    let before = edges_from(facts, edges, i, n - 1);
    if k < before.len() {
        lemma_edges_from(facts, edges, i, n - 1, k);
    } else {
        assert(Some(edges_from(facts, edges, i, n)[k]) == edge_between(
            facts[i],
            facts[n - 1],
            edges,
        ));
    }
}

/// Whether an edge was created over a term.
pub open spec fn is_auto(edge: StoredEdge) -> bool {
    match edge.metadata@ {
        JsonView::Text(text) => read_document(text) matches Ok(document) && document.text_member(
            "created_by"@,
        ) == Some("auto-edge"@),
        _ => false,
    }
}

/// The edges that were created over a term, by their identifiers and in their
/// order.
pub open spec fn auto_ids(edges: Seq<StoredEdge>) -> Seq<Seq<char>>
    decreases edges.len(),
{
    if edges.len() == 0 {
        Seq::empty()
    } else if is_auto(edges.last()) {
        auto_ids(edges.drop_last()).push(edges.last().id@)
    } else {
        auto_ids(edges.drop_last())
    }
}

/// Whether an edge was created over a term.
fn was_created(edge: &StoredEdge) -> (r: bool)
    ensures
        r == is_auto(*edge),
{
    match &edge.metadata {
        Json::Text(text) => match parse_document(text) {
            Ok(document) => match document.get_text("created_by") {
                Some(name) => same_text(name, "auto-edge"),
                None => false,
            },
            Err(_) => false,
        },
        _ => false,
    }
}

/// The edges that a rebuild invalidates: those that were created over a term.
pub fn outdated_edges(edges: &Vec<StoredEdge>) -> (ids: Vec<String>)
    ensures
        texts(ids@) == auto_ids(edges@),
{
    let mut ids: Vec<String> = Vec::new();
    let mut i: usize = 0;
    assert(edges@.subrange(0, 0) =~= Seq::empty());
    assert(texts(ids@) =~= Seq::empty());
    while i < edges.len()
        invariant
            i <= edges@.len(),
            texts(ids@) == auto_ids(edges@.subrange(0, i as int)),
        decreases edges.len() - i,
    {
        assert(edges@.subrange(0, i as int + 1).drop_last() =~= edges@.subrange(0, i as int));
        if was_created(&edges[i]) {
            let ghost before = ids@;
            ids.push(edges[i].id.clone());
            assert(texts(ids@) =~= texts(before).push(edges@[i as int].id@));
        }
        i += 1;
    }
    assert(edges@.subrange(0, edges@.len() as int) =~= edges@);
    ids
}

/// Whether a request asks for the edges to be rebuilt. A blank body asks for
/// nothing.
pub fn rebuild_request(body: &str) -> (r: Result<bool, Reply>)
    ensures
        (match r {
            Ok(rebuild) => if blank(body@) {
                !rebuild
            } else {
                read_document(body@) matches Ok(params) && rebuild == params.true_member(
                    "rebuild"@,
                )
            },
            Err(reply) => !blank(body@) && read_document(body@) is Err && reply@ == invalid_json(
                read_document(body@)->Err_0,
            ),
        }),
{
    if is_blank(body) {
        return Ok(false);
    }
    match read_body(body) {
        Ok(params) => Ok(params.get_true("rebuild")),
        Err(reply) => Err(reply),
    }
}

/// The reply to the creation of edges.
pub fn auto_edge_reply(rebuild: bool, scanned: usize, invalidated: usize, created: usize) -> (reply:
    Reply)
    ensures
        reply@ == (ReplyView {
            status: HttpStatus::Success,
            body: fields().put("ok"@, JsonView::Bool(true)).put(
                "action"@,
                JsonView::Text("auto-edge"@),
            ).put("rebuild"@, JsonView::Bool(rebuild)).put(
                "facts_scanned"@,
                JsonView::Unsigned(scanned as u64),
            ).put("edges_invalidated"@, JsonView::Unsigned(invalidated as u64)).put(
                "edges_created"@,
                JsonView::Unsigned(created as u64),
            ).object(),
        }),
{
    Reply {
        status: HttpStatus::Success,
        body: Fields::new().with_bool("ok", true).with_text("action", "auto-edge").with_bool(
            "rebuild",
            rebuild,
        ).with_count("facts_scanned", scanned).with_count(
            "edges_invalidated",
            invalidated,
        ).with_count("edges_created", created).object(),
    }
}

/// A word tells by its shape: with five characters or more, with a capital
/// letter in front, or with one behind a small letter it does, unless it is a
/// stopword in any letter case; a shorter word of small letters never does.
pub proof fn law_words_tell_by_their_shape(word: Seq<char>)
    ensures
        words(STOPWORDS@).contains(ascii_lowered(word)) ==> !telling(word),
        word.len() >= 5 && !words(STOPWORDS@).contains(ascii_lowered(word)) ==> telling(word),
        word.len() > 0 && 'A' <= word[0] <= 'Z' && !words(STOPWORDS@).contains(ascii_lowered(word))
            ==> telling(word),
        word.len() < 5 && (forall|i: int|
            0 <= i < word.len() ==> !('A' <= (#[trigger] word[i]) <= 'Z')) ==> !telling(word),
        word.len() == 0 ==> !telling(word),
{
    if word.len() < 5 && (forall|i: int|
        0 <= i < word.len() ==> !('A' <= (#[trigger] word[i]) <= 'Z')) && word.len() > 0 {
        assert(!('A' <= word[0] <= 'Z'));
        if camel_case(word) {
            let (i, j) = choose|i: int, j: int|
                0 <= i && j == i + 1 && j < word.len() && 'a' <= #[trigger] word[i] <= 'z' && 'A'
                    <= #[trigger] word[j] <= 'Z';
            assert(!('A' <= word[j] <= 'Z'));
        }
    }
}

/// The terms of some words are the telling ones among them, in lower case: each
/// of these is a term, and there is no other.
pub proof fn law_terms_are_telling_words(list: Seq<Seq<char>>, term: Seq<char>)
    ensures
        telling_words(list).contains(term) <==> exists|i: int|
            0 <= i < list.len() && telling(#[trigger] list[i]) && term == ascii_lowered(list[i]),
    decreases list.len(),
{
    if list.len() > 0 {
        let fewer = list.drop_last();
        let last = list.len() - 1;
        let before = telling_words(fewer);
        let all = telling_words(list);
        law_terms_are_telling_words(fewer, term);
        if before.contains(term) {
            let k = choose|k: int| 0 <= k < before.len() && before[k] == term;
            assert(all[k] == term);
            let i = choose|i: int|
                0 <= i < fewer.len() && telling(#[trigger] fewer[i]) && term == ascii_lowered(
                    fewer[i],
                );
            assert(list[i] == fewer[i]);
        }
        if telling(list.last()) && term == ascii_lowered(list.last()) {
            assert(all[before.len() as int] == term);
            assert(telling(list[last]));
        }
        if all.contains(term) && !before.contains(term) {
            let k = choose|k: int| 0 <= k < all.len() && all[k] == term;
            if k < before.len() {
                assert(before[k] == term);
            }
            assert(telling(list[last]) && term == ascii_lowered(list[last]));
        }
        if exists|i: int|
            0 <= i < list.len() && telling(#[trigger] list[i]) && term == ascii_lowered(list[i]) {
            let i = choose|i: int|
                0 <= i < list.len() && telling(#[trigger] list[i]) && term == ascii_lowered(
                    list[i],
                );
            if i < last {
                assert(fewer[i] == list[i]);
            }
        }
    }
}

/// The pairs of offsets from a fact to those that it is joined to, before
/// offset `n`.
proof fn lemma_pairs_from(
    facts: Seq<ScannedFact>,
    edges: Seq<(Seq<char>, Seq<char>)>,
    i: int,
    n: int,
) -> (ends: Seq<int>)
    requires
        0 <= i < facts.len(),
        n <= facts.len(),
    ensures
        ends.len() == edges_from(facts, edges, i, n).len(),
        forall|k: int|
            0 <= k < ends.len() ==> i < #[trigger] ends[k] < n && edge_between(
                facts[i],
                facts[ends[k]],
                edges,
            ) == Some(edges_from(facts, edges, i, n)[k]),
        forall|k: int, l: int|
            0 <= k < l < ends.len() ==> #[trigger] ends[k] < #[trigger] ends[l],
    decreases n,
{
    if n <= i + 1 || n <= 0 {
        Seq::empty()
    } else {
        let before = lemma_pairs_from(facts, edges, i, n - 1);
        let ends = if edge_between(facts[i], facts[n - 1], edges) is Some {
            before.push(n - 1)
        } else {
            before
        };
        assert forall|k: int| 0 <= k < ends.len() implies i < #[trigger] ends[k] < n
            && edge_between(facts[i], facts[ends[k]], edges) == Some(
            edges_from(facts, edges, i, n)[k],
        ) by {
            if k < before.len() {
                assert(before[k] == ends[k]);
            }
        }
        assert forall|k: int, l: int| 0 <= k < l < ends.len() implies #[trigger] ends[k]
            < #[trigger] ends[l] by {
            assert(before[k] == ends[k]);
            if l < before.len() {
                assert(before[l] == ends[l]);
            }
        }
        ends
    }
}

/// The first pair of offsets comes before the second.
pub open spec fn pair_before(a: (int, int), b: (int, int)) -> bool {
    a.0 < b.0 || (a.0 == b.0 && a.1 < b.1)
}

/// The pairs of offsets that are joined from the first `m` facts.
proof fn lemma_planned_pairs(
    facts: Seq<ScannedFact>,
    edges: Seq<(Seq<char>, Seq<char>)>,
    m: int,
) -> (pairs: Seq<(int, int)>)
    requires
        m <= facts.len(),
    ensures
        pairs.len() == planned_edges(facts, edges, m).len(),
        forall|k: int|
            0 <= k < pairs.len() ==> 0 <= (#[trigger] pairs[k]).0 < pairs[k].1 < facts.len()
                && pairs[k].0 < m && edge_between(facts[pairs[k].0], facts[pairs[k].1], edges)
                == Some(planned_edges(facts, edges, m)[k]),
        forall|k: int, l: int|
            0 <= k < l < pairs.len() ==> pair_before(#[trigger] pairs[k], #[trigger] pairs[l]),
    decreases m,
{
    if m <= 0 {
        Seq::empty()
    } else {
        let before = lemma_planned_pairs(facts, edges, m - 1);
        let ends = lemma_pairs_from(facts, edges, m - 1, facts.len() as int);
        let more = Seq::new(ends.len(), |k: int| (m - 1, ends[k]));
        let pairs = before + more;
        assert forall|k: int| 0 <= k < pairs.len() implies 0 <= (#[trigger] pairs[k]).0
            < pairs[k].1 < facts.len() && pairs[k].0 < m && edge_between(
            facts[pairs[k].0],
            facts[pairs[k].1],
            edges,
        ) == Some(planned_edges(facts, edges, m)[k]) by {
            if k < before.len() {
                assert(before[k] == pairs[k]);
            } else {
                assert(ends[k - before.len()] == pairs[k].1);
            }
        }
        assert forall|k: int, l: int| 0 <= k < l < pairs.len() implies pair_before(
            #[trigger] pairs[k],
            #[trigger] pairs[l],
        ) by {
            if l < before.len() {
                assert(before[k] == pairs[k] && before[l] == pairs[l]);
            } else if k < before.len() {
                assert(before[k] == pairs[k]);
            } else {
                assert(ends[k - before.len()] < ends[l - before.len()]);
            }
        }
        pairs
    }
}

/// No two facts are joined twice: every planned edge joins a pair of facts of
/// its own, in the order of the facts. `pairs` gives their offsets.
pub proof fn law_facts_are_joined_once(
    facts: Seq<ScannedFact>,
    edges: Seq<(Seq<char>, Seq<char>)>,
) -> (pairs: Seq<(int, int)>)
    ensures
        pairs.len() == planned_edges(facts, edges, facts.len() as int).len(),
        forall|k: int|
            0 <= k < pairs.len() ==> 0 <= (#[trigger] pairs[k]).0 < pairs[k].1 < facts.len()
                && relates(
                planned_edges(facts, edges, facts.len() as int)[k],
                facts[pairs[k].0],
                facts[pairs[k].1],
                edges,
            ),
        forall|k: int, l: int|
            0 <= k < l < pairs.len() ==> pair_before(#[trigger] pairs[k], #[trigger] pairs[l]),
{
    let pairs = lemma_planned_pairs(facts, edges, facts.len() as int);
    assert forall|k: int| 0 <= k < pairs.len() implies 0 <= (#[trigger] pairs[k]).0 < pairs[k].1
        < facts.len() && relates(
        planned_edges(facts, edges, facts.len() as int)[k],
        facts[pairs[k].0],
        facts[pairs[k].1],
        edges,
    ) by {
        let (i, j) = pairs[k];
        lemma_shared_term(terms_of(facts[i].content@), terms_of(facts[j].content@));
    }
    pairs
}

/// An edge whose metadata are those that a planned edge is given is known as a
/// created one, so that a rebuild finds it again.
pub proof fn law_created_edges_are_recognised(
    edge: StoredEdge,
    text: Seq<char>,
    term: Seq<char>,
)
    requires
        edge.metadata@ == JsonView::Text(text),
        read_document(text) == Ok::<JsonView, Seq<char>>(auto_metadata(term)),
    ensures
        is_auto(edge),
{
    broadcast use crate::json::lemma_put_member, crate::json::lemma_no_member;

}

/// A rebuild invalidates every edge that was created, and no other, in the order
/// of the edges. `offsets` lists them.
pub proof fn law_rebuilds_invalidate_what_was_created(edges: Seq<StoredEdge>) -> (offsets: Seq<int>)
    ensures
        auto_ids(edges).len() == offsets.len(),
        forall|n: int|
            0 <= n < offsets.len() ==> 0 <= #[trigger] offsets[n] < edges.len() && auto_ids(
                edges,
            )[n] == edges[offsets[n]].id@,
        forall|n: int, m: int|
            0 <= n < m < offsets.len() ==> #[trigger] offsets[n] < #[trigger] offsets[m],
        forall|i: int|
            0 <= i < edges.len() ==> (offsets.contains(i) <==> is_auto(#[trigger] edges[i])),
    decreases edges.len(),
{
    if edges.len() == 0 {
        Seq::empty()
    } else {
        let fewer = edges.drop_last();
        let last = edges.len() - 1;
        let before = law_rebuilds_invalidate_what_was_created(fewer);
        let offsets = if is_auto(edges.last()) {
            before.push(last)
        } else {
            before
        };
        assert forall|n: int| 0 <= n < offsets.len() implies 0 <= #[trigger] offsets[n]
            < edges.len() && auto_ids(edges)[n] == edges[offsets[n]].id@ by {
            if n < before.len() {
                assert(before[n] == offsets[n]);
                assert(fewer[before[n]] == edges[before[n]]);
            }
        }
        assert forall|n: int, m: int| 0 <= n < m < offsets.len() implies #[trigger] offsets[n]
            < #[trigger] offsets[m] by {
            assert(before[n] == offsets[n]);
            if m < before.len() {
                assert(before[m] == offsets[m]);
            }
        }
        assert forall|i: int| 0 <= i < edges.len() implies (offsets.contains(i) <==> is_auto(
            #[trigger] edges[i],
        )) by {
            if i < last {
                assert(fewer[i] == edges[i]);
                if before.contains(i) {
                    let n = choose|n: int| 0 <= n < before.len() && before[n] == i;
                    assert(offsets[n] == i);
                }
            }
            if offsets.contains(i) {
                let n = choose|n: int| 0 <= n < offsets.len() && offsets[n] == i;
                if n < before.len() {
                    assert(before[n] == i);
                    assert(before[n] < fewer.len());
                }
            }
            if i == last && is_auto(edges[i]) {
                assert(offsets[before.len() as int] == i);
            }
        }
        offsets
    }
}

/// The term that relates two facts is the first one of the earlier fact that the
/// later one has too; facts without a common term are not related.
pub proof fn law_facts_are_related_by_the_first_common_term(
    a: Seq<Seq<char>>,
    b: Seq<Seq<char>>,
)
    ensures
        shared_term(a, b) is None <==> forall|i: int|
            0 <= i < a.len() ==> !b.contains(#[trigger] a[i]),
        shared_term(a, b) matches Some(term) ==> b.contains(term) && exists|i: int|
            0 <= i < a.len() && #[trigger] a[i] == term && forall|j: int|
                0 <= j < i ==> !b.contains(#[trigger] a[j]),
    decreases a.len(),
{
    if a.len() > 0 && !b.contains(a[0]) {
        let rest = a.subrange(1, a.len() as int);
        law_facts_are_related_by_the_first_common_term(rest, b);
        if shared_term(rest, b) is None {
            assert forall|i: int| 0 <= i < a.len() implies !b.contains(#[trigger] a[i]) by {
                if i > 0 {
                    assert(rest[i - 1] == a[i]);
                }
            }
        } else {
            let term = shared_term(rest, b)->0;
            let i = choose|i: int|
                0 <= i < rest.len() && #[trigger] rest[i] == term && forall|j: int|
                    0 <= j < i ==> !b.contains(#[trigger] rest[j]);
            assert(a[i + 1] == term);
            assert forall|j: int| 0 <= j < i + 1 implies !b.contains(#[trigger] a[j]) by {
                if j > 0 {
                    assert(rest[j - 1] == a[j]);
                }
            }
        }
    } else if a.len() > 0 {
        assert(a[0] == shared_term(a, b)->0);
    }
}

/// Letters, digits and the underscore are in words; white space and ASCII
/// punctuation are in none.
pub proof fn law_words_are_made_of_letters_and_digits(c: char)
    ensures
        ('a' <= c <= 'z') || ('A' <= c <= 'Z') || ('0' <= c <= '9') || c == '_' ==> word_char(c),
        (' ' <= c <= '/') || (':' <= c <= '@') || ('[' <= c <= '^') || c == '`' || ('{' <= c
            <= '~') ==> !word_char(c),
        white_space(c) ==> !word_char(c),
{
}

/// Only what is in no word is replaced, and by a space.
pub proof fn law_words_are_kept_and_gaps_are_spaces(s: Seq<char>, i: int)
    requires
        0 <= i < s.len(),
    ensures
        spaced(s).len() == s.len(),
        word_char(s[i]) ==> spaced(s)[i] == s[i],
        !word_char(s[i]) ==> spaced(s)[i] == ' ',
{
}

/// Two nodes are joined by an edge in either direction, and by nothing else.
pub proof fn law_edges_join_in_either_direction(
    edges: Seq<(Seq<char>, Seq<char>)>,
    a: Seq<char>,
    b: Seq<char>,
)
    ensures
        joined_by(edges, a, b) == joined_by(edges, b, a),
        edges.contains((a, b)) ==> joined_by(edges, a, b),
        edges.contains((b, a)) ==> joined_by(edges, a, b),
        !edges.contains((a, b)) && !edges.contains((b, a)) ==> !joined_by(edges, a, b),
{
}

/// The edges that carry out a plan go from its sources to its targets, in its
/// order, and tell the terms.
pub proof fn law_plans_are_carried_out(
    list: Seq<PlannedEdge>,
    plan: Seq<(Seq<char>, Seq<char>, Seq<char>)>,
    i: int,
)
    requires
        carry_out(list, plan),
        0 <= i < plan.len(),
    ensures
        list.len() == plan.len(),
        list[i].source@ == plan[i].0,
        list[i].target@ == plan[i].1,
        list[i].metadata@ == auto_metadata(plan[i].2),
{
    assert(carries_out(list[i], plan[i]));
}

}
