//! Text primitives: every string is reasoned about as the sequence of its
//! characters.
use vstd::prelude::*;

verus! {

/// The texts of a list of strings.
pub open spec fn texts(items: Seq<String>) -> Seq<Seq<char>> {
    Seq::new(items.len(), |i: int| items[i]@)
}

/// The text of an optional string.
pub open spec fn optional_text(item: Option<String>) -> Option<Seq<char>> {
    match item {
        Some(s) => Some(s@),
        None => None,
    }
}

/// The texts of an optional list.
pub open spec fn optional_texts(items: Option<Vec<String>>) -> Option<Seq<Seq<char>>> {
    match items {
        Some(list) => Some(texts(list@)),
        None => None,
    }
}

/// `prefix` is how `s` begins.
pub open spec fn starts_with(s: Seq<char>, prefix: Seq<char>) -> bool {
    prefix.len() <= s.len() && s.subrange(0, prefix.len() as int) == prefix
}

/// `s` without its first `n` characters.
pub open spec fn after(s: Seq<char>, n: int) -> Seq<char> {
    s.subrange(n, s.len() as int)
}

/// `part` occurs in `s` at offset `at`.
pub open spec fn occurs_at(s: Seq<char>, part: Seq<char>, at: int) -> bool {
    0 <= at && at + part.len() <= s.len() && s.subrange(at, at + part.len()) == part
}

/// `part` occurs somewhere in `s`.
pub open spec fn contains_text(s: Seq<char>, part: Seq<char>) -> bool {
    exists|at: int| occurs_at(s, part, at)
}

/// The characters with the Unicode `White_Space` property.
pub open spec fn white_space(c: char) -> bool {
    ||| '\u{9}' <= c <= '\u{d}'
    ||| c == '\u{20}'
    ||| c == '\u{85}'
    ||| c == '\u{a0}'
    ||| c == '\u{1680}'
    ||| '\u{2000}' <= c <= '\u{200a}'
    ||| c == '\u{2028}'
    ||| c == '\u{2029}'
    ||| c == '\u{202f}'
    ||| c == '\u{205f}'
    ||| c == '\u{3000}'
}

/// `s` without its leading white space.
pub open spec fn trimmed_start(s: Seq<char>) -> Seq<char>
    decreases s.len(),
{
    if s.len() > 0 && white_space(s[0]) {
        trimmed_start(s.subrange(1, s.len() as int))
    } else {
        s
    }
}

/// `s` without its trailing white space.
pub open spec fn trimmed_end(s: Seq<char>) -> Seq<char>
    decreases s.len(),
{
    if s.len() > 0 && white_space(s.last()) {
        trimmed_end(s.drop_last())
    } else {
        s
    }
}

/// `s` without its leading and trailing white space.
pub open spec fn trimmed(s: Seq<char>) -> Seq<char> {
    trimmed_end(trimmed_start(s))
}

/// `s` holds nothing but white space.
pub open spec fn blank(s: Seq<char>) -> bool {
    forall|i: int| 0 <= i < s.len() ==> white_space(#[trigger] s[i])
}

/// `s` with its ASCII capital letters lowered.
pub open spec fn ascii_lowered(s: Seq<char>) -> Seq<char> {
    Seq::new(s.len(), |i: int| ascii_lowered_char(s[i]))
}

/// An ASCII capital letter lowered; any other character as it is.
pub open spec fn ascii_lowered_char(c: char) -> char {
    if 'A' <= c <= 'Z' {
        ((c as u32 + 32) as u32) as char
    } else {
        c
    }
}

/// The decimal digits of `n`, without leading zeros.
pub open spec fn decimal(n: nat) -> Seq<char>
    decreases n,
{
    if n < 10 {
        seq![digit_char(n as int)]
    } else {
        decimal(n / 10).push(digit_char((n % 10) as int))
    }
}

/// The character of the digit `d`.
pub open spec fn digit_char(d: int) -> char {
    (d + 48) as char
}

/// The value of a digit character.
pub open spec fn digit_value(c: char) -> int {
    c as int - 48
}

/// `c` is one of `0` to `9`.
pub open spec fn is_digit(c: char) -> bool {
    '0' <= c <= '9'
}

/// Every character of `s` is a digit.
pub open spec fn all_digits(s: Seq<char>) -> bool {
    forall|i: int| 0 <= i < s.len() ==> is_digit(#[trigger] s[i])
}

/// The number written by the digits `s`.
pub open spec fn number_of(s: Seq<char>) -> int
    decreases s.len(),
{
    if s.len() == 0 {
        0
    } else {
        number_of(s.drop_last()) * 10 + digit_value(s.last())
    }
}

/// The digits of an unsigned decimal numeral, after the optional plus sign.
pub open spec fn numeral_digits(s: Seq<char>) -> Seq<char> {
    if s.len() > 0 && s[0] == '+' {
        after(s, 1)
    } else {
        s
    }
}

/// The unsigned number that `s` writes in decimal, if it writes one that is at
/// most `max`.
pub open spec fn parsed_unsigned(s: Seq<char>, max: int) -> Option<int> {
    let digits = numeral_digits(s);
    if digits.len() > 0 && all_digits(digits) && number_of(digits) <= max {
        Some(number_of(digits))
    } else {
        None
    }
}

/// The words of `s`: its maximal runs without white space.
pub open spec fn words(s: Seq<char>) -> Seq<Seq<char>>
    decreases s.len(),
{
    if s.len() == 0 {
        Seq::empty()
    } else if white_space(s.last()) {
        words(s.drop_last())
    } else {
        let start = last_word_start(s);
        proof {
            lemma_last_word_start(s);
            lemma_last_word_start(s.drop_last());
        }
        words(s.subrange(0, start)).push(s.subrange(start, s.len() as int))
    }
}

/// Where the word that ends `s` begins.
pub open spec fn last_word_start(s: Seq<char>) -> int
    decreases s.len(),
{
    if s.len() == 0 || white_space(s.last()) {
        s.len() as int
    } else {
        last_word_start(s.drop_last())
    }
}

/// `items` with `separator` between neighbours.
pub open spec fn joined(items: Seq<Seq<char>>, separator: Seq<char>) -> Seq<char>
    decreases items.len(),
{
    if items.len() == 0 {
        Seq::empty()
    } else if items.len() == 1 {
        items[0]
    } else {
        joined(items.drop_last(), separator) + separator + items.last()
    }
}

/// `std::string::String::push` appends one character.
pub assume_specification[ String::push ](s: &mut String, c: char)
    ensures
        final(s)@ == old(s)@.push(c),
;

/// Whether two texts are the same.
pub fn same_text(a: &str, b: &str) -> (same: bool)
    ensures
        same == (a@ == b@),
{
    let left = a.as_bytes();
    let right = b.as_bytes();
    if left.len() != right.len() {
        return false;
    }
    let mut i: usize = 0;
    while i < left.len()
        invariant
            i <= left.len(),
            left.len() == right.len(),
            left@ == vstd::utf8::encode_utf8(a@),
            right@ == vstd::utf8::encode_utf8(b@),
            forall|k: int| 0 <= k < i ==> left@[k] == #[trigger] right@[k],
        decreases left.len() - i,
    {
        if left[i] != right[i] {
            assert(left@[i as int] != right@[i as int]);
            return false;
        }
        i = i + 1;
    }
    proof {
        assert(left@ =~= right@);
        vstd::utf8::encode_utf8_decode_utf8(a@);
        vstd::utf8::encode_utf8_decode_utf8(b@);
    }
    true
}

/// The characters of a text.
pub fn chars_of(s: &str) -> (chars: Vec<char>)
    ensures
        chars@ == s@,
{
    let mut chars: Vec<char> = Vec::new();
    for c in it: s.chars()
        invariant
            chars@ == s@.subrange(0, it.index() as int),
            it.seq() == s@,
    {
        chars.push(c);
        proof {
            assert(s@.subrange(0, it.index() as int).push(c) =~= s@.subrange(
                0,
                it.index() as int + 1,
            ));
        }
    }
    assert(s@.subrange(0, s@.len() as int) =~= s@);
    chars
}

/// The text made of the characters from `from` up to, not including, `to`.
pub fn text_between(chars: &Vec<char>, from: usize, to: usize) -> (s: String)
    requires
        from <= to <= chars.len(),
    ensures
        s@ == chars@.subrange(from as int, to as int),
{
    let mut s = String::new();
    let mut i: usize = from;
    assert(s@ =~= chars@.subrange(from as int, from as int));
    while i < to
        invariant
            from <= i <= to <= chars.len(),
            s@ == chars@.subrange(from as int, i as int),
        decreases to - i,
    {
        s.push(chars[i]);
        proof {
            assert(chars@.subrange(from as int, i as int).push(chars@[i as int]) =~= chars@.subrange(
                from as int,
                i as int + 1,
            ));
        }
        i = i + 1;
    }
    s
}

/// Two texts in a row.
pub fn cat2(a: &str, b: &str) -> (s: String)
    ensures
        s@ == a@ + b@,
{
    a.to_owned().concat(b)
}

/// Three texts in a row.
pub fn cat3(a: &str, b: &str, c: &str) -> (s: String)
    ensures
        s@ == a@ + b@ + c@,
{
    a.to_owned().concat(b).concat(c)
}

/// Four texts in a row.
pub fn cat4(a: &str, b: &str, c: &str, d: &str) -> (s: String)
    ensures
        s@ == a@ + b@ + c@ + d@,
{
    a.to_owned().concat(b).concat(c).concat(d)
}

/// Five texts in a row.
pub fn cat5(a: &str, b: &str, c: &str, d: &str, e: &str) -> (s: String)
    ensures
        s@ == a@ + b@ + c@ + d@ + e@,
{
    a.to_owned().concat(b).concat(c).concat(d).concat(e)
}

/// The word that ends a text starts inside it.
pub proof fn lemma_last_word_start(s: Seq<char>)
    ensures
        0 <= last_word_start(s) <= s.len(),
    decreases s.len(),
{
    if s.len() > 0 && !white_space(s.last()) {
        lemma_last_word_start(s.drop_last());
    }
}

/// Whether `c` has the Unicode `White_Space` property.
pub fn is_white_space(c: char) -> (r: bool)
    ensures
        r == white_space(c),
{
    ('\u{9}' <= c && c <= '\u{d}') || c == '\u{20}' || c == '\u{85}' || c == '\u{a0}' || c
        == '\u{1680}' || ('\u{2000}' <= c && c <= '\u{200a}') || c == '\u{2028}' || c == '\u{2029}'
        || c == '\u{202f}' || c == '\u{205f}' || c == '\u{3000}'
}

/// What `trimmed_start` removes is white space, and it stops at the first
/// character that is not.
proof fn lemma_trimmed_start(s: Seq<char>, k: int)
    requires
        0 <= k <= s.len(),
        blank(s.subrange(0, k)),
        k == s.len() || !white_space(s[k]),
    ensures
        trimmed_start(s) == after(s, k),
    decreases s.len(),
{
    if k == 0 {
        assert(after(s, 0) =~= s);
    } else {
        assert(s.subrange(0, k)[0] == s[0]);
        let rest = s.subrange(1, s.len() as int);
        assert forall|i: int| 0 <= i < k - 1 implies white_space(
            #[trigger] rest.subrange(0, k - 1)[i],
        ) by {
            assert(s.subrange(0, k)[i + 1] == rest[i]);
        }
        lemma_trimmed_start(rest, k - 1);
        assert(after(rest, k - 1) =~= after(s, k));
    }
}

/// What `trimmed_end` removes is white space, and it stops at the last
/// character that is not.
proof fn lemma_trimmed_end(s: Seq<char>, k: int)
    requires
        0 <= k <= s.len(),
        blank(s.subrange(k, s.len() as int)),
        k == 0 || !white_space(s[k - 1]),
    ensures
        trimmed_end(s) == s.subrange(0, k),
    decreases s.len(),
{
    if k == s.len() {
        assert(s.subrange(0, k) =~= s);
    } else {
        let tail = s.subrange(k, s.len() as int);
        assert(tail[s.len() - 1 - k] == s.last());
        let rest = s.drop_last();
        assert forall|i: int| 0 <= i < rest.len() - k implies white_space(
            #[trigger] rest.subrange(k, rest.len() as int)[i],
        ) by {
            assert(tail[i] == rest.subrange(k, rest.len() as int)[i]);
        }
        lemma_trimmed_end(rest, k);
        assert(rest.subrange(0, k) =~= s.subrange(0, k));
    }
}

/// A text is blank exactly if trimming leaves nothing of it.
pub proof fn lemma_blank_is_trimmed_away(s: Seq<char>)
    ensures
        blank(s) <==> trimmed(s).len() == 0,
{
    let k = first_visible(s);
    lemma_first_visible(s);
    lemma_trimmed_start(s, k);
    let rest = after(s, k);
    let e = last_visible(rest);
    lemma_last_visible(rest);
    lemma_trimmed_end(rest, e);
    if blank(s) && k < s.len() {
        assert(white_space(s[k]));
    }
    if e == 0 && rest.len() > 0 {
        assert(rest.subrange(0, rest.len() as int)[0] == s[k]);
    }
    if k == s.len() {
        assert forall|i: int| 0 <= i < s.len() implies white_space(#[trigger] s[i]) by {
            assert(s.subrange(0, k)[i] == s[i]);
        }
    }
}

/// Trimming a trimmed text changes nothing.
pub proof fn lemma_trimmed_idempotent(s: Seq<char>)
    ensures
        trimmed(trimmed(s)) == trimmed(s),
{
    let k = first_visible(s);
    lemma_first_visible(s);
    lemma_trimmed_start(s, k);
    let rest = after(s, k);
    let e = last_visible(rest);
    lemma_last_visible(rest);
    lemma_trimmed_end(rest, e);
    let t = rest.subrange(0, e);
    assert(t.subrange(0, 0) =~= Seq::<char>::empty());
    assert(t.subrange(t.len() as int, t.len() as int) =~= Seq::<char>::empty());
    if t.len() > 0 {
        assert(t[0] == s[k]);
    }
    lemma_trimmed_start(t, 0);
    assert(after(t, 0) =~= t);
    lemma_trimmed_end(t, t.len() as int);
    assert(t.subrange(0, t.len() as int) =~= t);
}

/// The offset of the first character of `s` that is not white space, or its
/// length.
spec fn first_visible(s: Seq<char>) -> int
    decreases s.len(),
{
    if s.len() > 0 && white_space(s[0]) {
        1 + first_visible(s.subrange(1, s.len() as int))
    } else {
        0
    }
}

proof fn lemma_first_visible(s: Seq<char>)
    ensures
        0 <= first_visible(s) <= s.len(),
        blank(s.subrange(0, first_visible(s))),
        first_visible(s) == s.len() || !white_space(s[first_visible(s)]),
    decreases s.len(),
{
    if s.len() > 0 && white_space(s[0]) {
        let rest = s.subrange(1, s.len() as int);
        lemma_first_visible(rest);
        let k = first_visible(s);
        assert forall|i: int| 0 <= i < k implies white_space(#[trigger] s.subrange(0, k)[i]) by {
            if i > 0 {
                assert(rest.subrange(0, k - 1)[i - 1] == s[i]);
            }
        }
    }
}

/// One past the offset of the last character of `s` that is not white space,
/// or 0.
spec fn last_visible(s: Seq<char>) -> int
    decreases s.len(),
{
    if s.len() > 0 && white_space(s.last()) {
        last_visible(s.drop_last())
    } else {
        s.len() as int
    }
}

proof fn lemma_last_visible(s: Seq<char>)
    ensures
        0 <= last_visible(s) <= s.len(),
        blank(s.subrange(last_visible(s), s.len() as int)),
        last_visible(s) == 0 || !white_space(s[last_visible(s) - 1]),
    decreases s.len(),
{
    if s.len() > 0 && white_space(s.last()) {
        let rest = s.drop_last();
        lemma_last_visible(rest);
        let k = last_visible(s);
        assert forall|i: int| 0 <= i < s.len() - k implies white_space(
            #[trigger] s.subrange(k, s.len() as int)[i],
        ) by {
            if i < rest.len() - k {
                assert(rest.subrange(k, rest.len() as int)[i] == s[k + i]);
            }
        }
    }
}

/// The text without its leading and trailing white space.
pub fn trim(s: &str) -> (t: String)
    ensures
        t@ == trimmed(s@),
{
    let chars = chars_of(s);
    let mut from: usize = 0;
    while from < chars.len() && is_white_space(chars[from])
        invariant
            from <= chars.len(),
            forall|i: int| 0 <= i < from ==> white_space(#[trigger] chars@[i]),
        decreases chars.len() - from,
    {
        from = from + 1;
    }
    proof {
        assert(blank(chars@.subrange(0, from as int)));
        lemma_trimmed_start(chars@, from as int);
    }
    let mut to: usize = chars.len();
    while to > from && is_white_space(chars[to - 1])
        invariant
            from <= to <= chars.len(),
            forall|i: int| to <= i < chars.len() ==> white_space(#[trigger] chars@[i]),
        decreases to,
    {
        to = to - 1;
    }
    proof {
        let rest = after(chars@, from as int);
        assert(blank(rest.subrange(to - from, rest.len() as int)));
        lemma_trimmed_end(rest, to - from);
        assert(rest.subrange(0, to - from) =~= chars@.subrange(from as int, to as int));
    }
    text_between(&chars, from, to)
}

/// Whether the text holds nothing but white space.
pub fn is_blank(s: &str) -> (r: bool)
    ensures
        r == blank(s@),
{
    let chars = chars_of(s);
    let mut i: usize = 0;
    while i < chars.len()
        invariant
            i <= chars.len(),
            chars@ == s@,
            forall|k: int| 0 <= k < i ==> white_space(#[trigger] s@[k]),
        decreases chars.len() - i,
    {
        if !is_white_space(chars[i]) {
            assert(!white_space(s@[i as int]));
            return false;
        }
        i = i + 1;
    }
    true
}

/// Whether the text holds a white space character.
pub fn has_white_space(s: &str) -> (r: bool)
    ensures
        r == exists|i: int| 0 <= i < s@.len() && white_space(#[trigger] s@[i]),
{
    let chars = chars_of(s);
    let mut i: usize = 0;
    while i < chars.len()
        invariant
            i <= chars.len(),
            chars@ == s@,
            forall|k: int| 0 <= k < i ==> !white_space(#[trigger] s@[k]),
        decreases chars.len() - i,
    {
        if is_white_space(chars[i]) {
            assert(white_space(s@[i as int]));
            return true;
        }
        i = i + 1;
    }
    false
}

/// Whether `part` stands in `chars` at offset `at`.
pub(crate) fn matches_at(chars: &Vec<char>, part: &Vec<char>, at: usize) -> (r: bool)
    requires
        at + part.len() <= chars.len(),
    ensures
        r == occurs_at(chars@, part@, at as int),
{
    let mut i: usize = 0;
    while i < part.len()
        invariant
            at + part.len() <= chars.len(),
            i <= part.len(),
            forall|k: int| 0 <= k < i ==> chars@[at + k] == #[trigger] part@[k],
        decreases part.len() - i,
    {
        if chars[at + i] != part[i] {
            assert(chars@.subrange(at as int, at + part.len())[i as int] != part@[i as int]);
            return false;
        }
        i = i + 1;
    }
    assert(chars@.subrange(at as int, at + part.len()) =~= part@);
    true
}

/// What follows `prefix` in a text that begins with it.
pub fn strip_prefix(s: &str, prefix: &str) -> (rest: Option<String>)
    ensures
        rest is Some <==> starts_with(s@, prefix@),
        rest is Some ==> rest->0@ == after(s@, prefix@.len() as int),
{
    let chars = chars_of(s);
    let head = chars_of(prefix);
    if head.len() <= chars.len() && matches_at(&chars, &head, 0) {
        Some(text_between(&chars, head.len(), chars.len()))
    } else {
        None
    }
}

/// Whether `part` occurs in the text.
pub fn contains(s: &str, part: &str) -> (r: bool)
    ensures
        r == contains_text(s@, part@),
{
    let chars = chars_of(s);
    let wanted = chars_of(part);
    let mut at: usize = 0;
    while at <= chars.len() && wanted.len() <= chars.len() - at
        invariant
            chars@ == s@,
            wanted@ == part@,
            at <= chars.len() + 1,
            forall|k: int| 0 <= k < at ==> !occurs_at(s@, part@, k),
        decreases chars.len() + 1 - at,
    {
        if matches_at(&chars, &wanted, at) {
            return true;
        }
        if at == chars.len() {
            return false;
        }
        at = at + 1;
    }
    false
}

/// `str::to_lowercase`, the Unicode lower case of a text.
pub uninterp spec fn unicode_lowered(s: Seq<char>) -> Seq<char>;

/// `str::to_lowercase`: the Unicode lower case of a text. Of a text made of
/// ASCII characters it is the text with its capital letters lowered; what it is
/// of other texts is left to the Unicode tables.
#[verifier::external_body]
pub(crate) fn to_lowercase(s: &str) -> (r: String)
    ensures
        r@ == unicode_lowered(s@),
        vstd::utf8::is_ascii_chars(s@) ==> r@ == ascii_lowered(s@),
{
    s.to_lowercase()
}

/// The text with its ASCII capital letters lowered.
pub fn to_ascii_lowercase(s: &str) -> (r: String)
    ensures
        r@ == ascii_lowered(s@),
{
    let chars = chars_of(s);
    let mut r = String::new();
    let mut i: usize = 0;
    while i < chars.len()
        invariant
            chars@ == s@,
            i <= chars.len(),
            r@ == ascii_lowered(s@).subrange(0, i as int),
        decreases chars.len() - i,
    {
        let c = chars[i];
        if 'A' <= c && c <= 'Z' {
            let lowered: u8 = (c as u8) + 32;
            proof {
                assert(lowered as char == ascii_lowered_char(c));
            }
            r.push(lowered as char);
        } else {
            r.push(c);
        }
        proof {
            assert(ascii_lowered(s@).subrange(0, i as int).push(ascii_lowered(s@)[i as int])
                =~= ascii_lowered(s@).subrange(0, i as int + 1));
        }
        i = i + 1;
    }
    assert(ascii_lowered(s@).subrange(0, s@.len() as int) =~= ascii_lowered(s@));
    r
}

/// A longer numeral writes a number at least as large.
proof fn lemma_number_grows(s: Seq<char>, k: int)
    requires
        all_digits(s),
        0 <= k <= s.len(),
    ensures
        0 <= number_of(s.subrange(0, k)) <= number_of(s),
    decreases s.len(),
{
    if k == s.len() {
        assert(s.subrange(0, k) =~= s);
        if k > 0 {
            assert forall|i: int| 0 <= i < s.drop_last().len() implies is_digit(
                #[trigger] s.drop_last()[i],
            ) by {
                assert(is_digit(s[i]));
            }
            lemma_number_grows(s.drop_last(), k - 1);
            assert(s.drop_last().subrange(0, k - 1) =~= s.drop_last());
            assert(is_digit(s[k - 1]));
        }
    } else {
        assert forall|i: int| 0 <= i < s.drop_last().len() implies is_digit(
            #[trigger] s.drop_last()[i],
        ) by {
            assert(is_digit(s[i]));
        }
        lemma_number_grows(s.drop_last(), k);
        assert(s.drop_last().subrange(0, k) =~= s.subrange(0, k));
        assert(is_digit(s[s.len() - 1]));
    }
}

/// The unsigned number that the text writes in decimal, with an optional plus
/// sign, if it is at most `max`.
pub fn parse_unsigned(s: &str, max: u64) -> (r: Option<u64>)
    ensures
        (match r {
            Some(n) => parsed_unsigned(s@, max as int) == Some(n as int),
            None => parsed_unsigned(s@, max as int) is None,
        }),
{
    let chars = chars_of(s);
    let start: usize = if chars.len() > 0 && chars[0] == '+' { 1 } else { 0 };
    let ghost digits = numeral_digits(s@);
    proof {
        if start == 0 {
            assert(after(s@, 0) =~= s@);
        }
        assert(digits == after(s@, start as int));
    }
    if start == chars.len() {
        return None;
    }
    let mut n: u64 = 0;
    let mut i: usize = start;
    assert(digits.subrange(0, 0) =~= Seq::<char>::empty());
    while i < chars.len()
        invariant
            chars@ == s@,
            start <= i <= chars.len(),
            start < chars.len(),
            digits == numeral_digits(s@),
            digits == after(s@, start as int),
            forall|k: int| 0 <= k < i - start ==> is_digit(#[trigger] digits[k]),
            n == number_of(digits.subrange(0, i - start)),
            n <= max,
        decreases chars.len() - i,
    {
        let c = chars[i];
        assert(c == digits[i - start]);
        if !('0' <= c && c <= '9') {
            return None;
        }
        let d: u64 = (c as u64) - 48;
        proof {
            assert(digits.subrange(0, i - start + 1).drop_last() =~= digits.subrange(0, i - start));
            if all_digits(digits) {
                lemma_number_grows(digits, i - start + 1);
            }
        }
        if d > max || n > (max - d) / 10 {
            return None;
        }
        n = n * 10 + d;
        i = i + 1;
    }
    assert(digits.subrange(0, digits.len() as int) =~= digits);
    Some(n)
}

/// The decimal digits of a number.
pub fn decimal_text(n: u64) -> (s: String)
    ensures
        s@ == decimal(n as nat),
    decreases n,
{
    if n < 10 {
        let mut s = String::new();
        s.push(((n as u8) + 48) as char);
        s
    } else {
        let mut s = decimal_text(n / 10);
        s.push((((n % 10) as u8) + 48) as char);
        s
    }
}

/// Whether a list holds a text.
pub fn holds(items: &Vec<String>, s: &str) -> (r: bool)
    ensures
        r == texts(items@).contains(s@),
{
    let mut i: usize = 0;
    while i < items.len()
        invariant
            i <= items.len(),
            forall|k: int| 0 <= k < i ==> (#[trigger] items@[k])@ != s@,
        decreases items.len() - i,
    {
        if same_text(&items[i], s) {
            assert(texts(items@)[i as int] == s@);
            return true;
        }
        i = i + 1;
    }
    proof {
        if texts(items@).contains(s@) {
            let k = choose|k: int| 0 <= k < texts(items@).len() && texts(items@)[k] == s@;
            assert(items@[k]@ == s@);
        }
    }
    false
}

/// A copy of a list of strings.
pub fn copy_texts(items: &Vec<String>) -> (r: Vec<String>)
    ensures
        r@ == items@,
{
    let mut r: Vec<String> = Vec::new();
    let mut i: usize = 0;
    while i < items.len()
        invariant
            i <= items.len(),
            r@ == items@.subrange(0, i as int),
        decreases items.len() - i,
    {
        r.push(items[i].clone());
        assert(items@.subrange(0, i as int).push(items@[i as int]) =~= items@.subrange(
            0,
            i as int + 1,
        ));
        i = i + 1;
    }
    assert(items@.subrange(0, items@.len() as int) =~= items@);
    r
}

/// The texts with `separator` between neighbours.
pub fn join(items: &Vec<String>, separator: &str) -> (s: String)
    ensures
        s@ == joined(texts(items@), separator@),
{
    if items.len() == 0 {
        return String::new();
    }
    let mut s = items[0].clone();
    let mut i: usize = 1;
    let ghost all = texts(items@);
    assert(all.subrange(0, 1) =~= seq![all[0]]);
    while i < items.len()
        invariant
            1 <= i <= items.len(),
            all == texts(items@),
            s@ == joined(all.subrange(0, i as int), separator@),
        decreases items.len() - i,
    {
        s.append(separator);
        s.append(&items[i]);
        proof {
            let next = all.subrange(0, i as int + 1);
            assert(next.drop_last() =~= all.subrange(0, i as int));
            assert(next.last() == items@[i as int]@);
        }
        i = i + 1;
    }
    assert(all.subrange(0, all.len() as int) =~= all);
    s
}

/// The words of a text.
pub fn split_words(s: &str) -> (r: Vec<String>)
    ensures
        texts(r@) == words(s@),
{
    let chars = chars_of(s);
    let mut r: Vec<String> = Vec::new();
    let mut i: usize = 0;
    assert(s@.subrange(0, 0) =~= Seq::<char>::empty());
    assert(texts(r@) =~= Seq::<Seq<char>>::empty());
    while i < chars.len()
        invariant
            chars@ == s@,
            i <= chars.len(),
            texts(r@) == words(s@.subrange(0, i as int)),
            i == 0 || i == chars.len() || white_space(s@[i as int]) || white_space(s@[i - 1]),
        decreases chars.len() - i,
    {
        if is_white_space(chars[i]) {
            proof {
                assert(s@.subrange(0, i as int + 1).drop_last() =~= s@.subrange(0, i as int));
                assert(s@.subrange(0, i as int + 1).last() == s@[i as int]);
            }
            i = i + 1;
        } else {
            let start = i;
            while i < chars.len() && !is_white_space(chars[i])
                invariant
                    chars@ == s@,
                    start <= i <= chars.len(),
                    forall|k: int| start <= k < i ==> !white_space(#[trigger] s@[k]),
                decreases chars.len() - i,
            {
                i = i + 1;
            }
            let ghost before = r@;
            r.push(text_between(&chars, start, i));
            proof {
                lemma_word_start(s@.subrange(0, i as int), start as int);
                assert(s@.subrange(0, i as int).subrange(0, start as int) =~= s@.subrange(
                    0,
                    start as int,
                ));
                assert(s@.subrange(0, i as int).subrange(start as int, i as int) =~= s@.subrange(
                    start as int,
                    i as int,
                ));
                assert(texts(r@) =~= texts(before).push(s@.subrange(start as int, i as int)));
            }
        }
    }
    assert(s@.subrange(0, s@.len() as int) =~= s@);
    r
}

/// The word that ends a text starts where the run without white space does.
proof fn lemma_word_start(s: Seq<char>, start: int)
    requires
        0 <= start <= s.len(),
        forall|k: int| start <= k < s.len() ==> !white_space(#[trigger] s[k]),
        start == 0 || white_space(s[start - 1]),
    ensures
        last_word_start(s) == start,
    decreases s.len(),
{
    if start < s.len() {
        assert(!white_space(s[s.len() - 1]));
        lemma_word_start(s.drop_last(), start);
    }
}

/// The digits of a number are digits, there is one at least, and they write the
/// number.
proof fn lemma_decimal(n: nat)
    ensures
        decimal(n).len() > 0,
        all_digits(decimal(n)),
        number_of(decimal(n)) == n,
    decreases n,
{
    if n < 10 {
        assert(decimal(n).drop_last() =~= Seq::<char>::empty());
        assert(number_of(decimal(n).drop_last()) == 0);
        assert(digit_value(digit_char(n as int)) == n);
    } else {
        lemma_decimal(n / 10);
        assert(decimal(n).drop_last() =~= decimal(n / 10));
        assert(digit_value(digit_char((n % 10) as int)) == n % 10);
    }
}

/// A number that is written down in decimal is read back.
pub proof fn law_decimals_are_read_back(n: nat, max: int)
    requires
        n <= max,
    ensures
        parsed_unsigned(decimal(n), max) == Some(n as int),
{
    lemma_decimal(n);
    assert(is_digit(decimal(n)[0]));
}

/// Different numbers are written differently.
pub proof fn law_decimals_differ(a: nat, b: nat)
    requires
        a != b,
    ensures
        decimal(a) != decimal(b),
{
    lemma_decimal(a);
    lemma_decimal(b);
}

/// Trimming takes white space off both ends and nothing else: what is left is a
/// part of the text that white space alone surrounds, and neither begins nor
/// ends with white space.
pub proof fn law_trimming_removes_the_margins(s: Seq<char>) -> (margins: (int, int))
    ensures
        0 <= margins.0 <= margins.1 <= s.len(),
        trimmed(s) == s.subrange(margins.0, margins.1),
        forall|i: int|
            0 <= i < margins.0 || margins.1 <= i < s.len() ==> white_space(#[trigger] s[i]),
        trimmed(s).len() > 0 ==> !white_space(trimmed(s)[0]) && !white_space(trimmed(s).last()),
{
    let k = first_visible(s);
    lemma_first_visible(s);
    lemma_trimmed_start(s, k);
    let rest = after(s, k);
    let e = last_visible(rest);
    lemma_last_visible(rest);
    lemma_trimmed_end(rest, e);
    assert(rest.subrange(0, e) =~= s.subrange(k, k + e));
    assert forall|i: int| 0 <= i < k || k + e <= i < s.len() implies white_space(
        #[trigger] s[i],
    ) by {
        if i < k {
            assert(s.subrange(0, k)[i] == s[i]);
        } else {
            assert(rest.subrange(e, rest.len() as int)[i - k - e] == s[i]);
        }
    }
    (k, k + e)
}

/// A text between margins of white space is what trimming leaves.
pub proof fn law_margins_are_trimmed(before: Seq<char>, s: Seq<char>, behind: Seq<char>)
    requires
        blank(before),
        blank(behind),
        s.len() > 0,
        !white_space(s[0]),
        !white_space(s.last()),
    ensures
        trimmed(before + s + behind) == s,
{
    let all = before + s + behind;
    let k = before.len() as int;
    assert(all.subrange(0, k) =~= before);
    lemma_trimmed_start(all, k);
    let rest = after(all, k);
    let e = s.len() as int;
    assert(rest.subrange(e, rest.len() as int) =~= behind);
    assert(rest[e - 1] == s.last());
    lemma_trimmed_end(rest, e);
    assert(rest.subrange(0, e) =~= s);
}

/// Joining a text to others appends it after a separator; a single text is
/// joined to itself.
pub proof fn law_joining_appends(items: Seq<Seq<char>>, last: Seq<char>, separator: Seq<char>)
    ensures
        joined(items.push(last), separator) == (if items.len() == 0 {
            last
        } else {
            joined(items, separator) + separator + last
        }),
{
    assert(items.push(last).drop_last() =~= items);
}

/// White space at the end of a text adds no word.
proof fn lemma_words_before_gap(s: Seq<char>, gap: Seq<char>)
    requires
        blank(gap),
    ensures
        words(s + gap) == words(s),
    decreases gap.len(),
{
    if gap.len() == 0 {
        assert(s + gap =~= s);
    } else {
        let less = gap.drop_last();
        assert forall|i: int| 0 <= i < less.len() implies white_space(#[trigger] less[i]) by {
            assert(gap[i] == less[i]);
        }
        lemma_words_before_gap(s, less);
        assert(white_space(gap[gap.len() - 1]));
        assert((s + gap).last() == gap.last());
        assert((s + gap).drop_last() =~= s + less);
    }
}

/// The words of a text are what white space separates: a run without white
/// space that stands behind some is one more word, and white space at the end
/// adds none.
pub proof fn law_words_stand_between_white_space(s: Seq<char>, gap: Seq<char>, word: Seq<char>)
    requires
        blank(gap),
        gap.len() > 0 || s.len() == 0,
        word.len() > 0,
        forall|i: int| 0 <= i < word.len() ==> !white_space(#[trigger] word[i]),
    ensures
        words(s + gap) == words(s),
        words(s + gap + word) == words(s).push(word),
{
    let head = s + gap;
    let all = head + word;
    let start = head.len() as int;
    lemma_words_before_gap(s, gap);
    assert forall|k: int| start <= k < all.len() implies !white_space(#[trigger] all[k]) by {
        assert(all[k] == word[k - start]);
    }
    if start > 0 {
        assert(white_space(gap[gap.len() - 1]));
        assert(all[start - 1] == gap[gap.len() - 1]);
    }
    lemma_word_start(all, start);
    assert(all.last() == word[word.len() - 1]);
    assert(all.subrange(0, start) =~= head);
    assert(all.subrange(start, all.len() as int) =~= word);
}

/// Lowering changes just the ASCII capitals, each to its own small letter, and
/// what is lowered stays as it is.
pub proof fn law_capitals_are_lowered(c: char, d: char)
    ensures
        !('A' <= c <= 'Z') ==> ascii_lowered_char(c) == c,
        'A' <= c <= 'Z' ==> 'a' <= ascii_lowered_char(c) <= 'z',
        ascii_lowered_char('A') == 'a' && ascii_lowered_char('Z') == 'z',
        'A' <= c <= 'Z' && 'A' <= d <= 'Z' ==> ascii_lowered_char(c) as int - ascii_lowered_char(
            d,
        ) as int == c as int - d as int,
        ascii_lowered_char(ascii_lowered_char(c)) == ascii_lowered_char(c),
{
}

/// A part occurs in a text just where the text is what stands before it, the
/// part, and what stands behind it.
pub proof fn law_parts_occur_between_the_rest(s: Seq<char>, part: Seq<char>, at: int)
    ensures
        occurs_at(s, part, at) <==> 0 <= at && at + part.len() <= s.len() && s == s.subrange(0, at)
            + part + s.subrange(at + part.len(), s.len() as int),
{
    if 0 <= at && at + part.len() <= s.len() {
        let (before, behind) = (s.subrange(0, at), s.subrange(at + part.len(), s.len() as int));
        let found = s.subrange(at, at + part.len());
        assert(s =~= before + found + behind);
        if s == before + part + behind {
            assert((before + part + behind).subrange(at, at + part.len()) =~= part);
        }
    }
}

/// A part is in a text that is made from it.
pub proof fn law_parts_are_contained(before: Seq<char>, part: Seq<char>, behind: Seq<char>)
    ensures
        contains_text(before + part + behind, part),
        contains_text(part, part),
{
    let s = before + part + behind;
    let n = before.len() as int;
    assert(s.subrange(n, n + part.len()) =~= part);
    assert(occurs_at(s, part, n));
    assert(part.subrange(0, part.len() as int) =~= part);
    assert(occurs_at(part, part, 0));
}

}
