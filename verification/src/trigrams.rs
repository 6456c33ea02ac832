//! Similarity of texts: the trigrams they share.
use crate::text::{chars_of, text_between, texts, to_lowercase, unicode_lowered};
use vstd::hash_set::StringHashSet;
use vstd::prelude::*;

verus! {

/// The first `n` three-character windows of `s`.
pub open spec fn windows(s: Seq<char>, n: nat) -> Set<Seq<char>>
    decreases n,
{
    if n == 0 {
        Set::empty()
    } else {
        windows(s, (n - 1) as nat).insert(s.subrange(n as int - 1, n as int + 2))
    }
}

/// The trigrams of a text in lower case: its three-character windows, or the
/// text itself if it is shorter.
pub open spec fn trigrams_of(lowered: Seq<char>) -> Set<Seq<char>> {
    if lowered.len() == 0 {
        Set::empty()
    } else if lowered.len() < 3 {
        Set::empty().insert(lowered)
    } else {
        windows(lowered, (lowered.len() - 2) as nat)
    }
}

/// The trigrams of a text: those of its lower case.
pub open spec fn trigram_set(text: Seq<char>) -> Set<Seq<char>> {
    trigrams_of(unicode_lowered(text))
}

/// The trigrams of a text, listed once each.
pub struct Trigrams {
    list: Vec<String>,
    set: StringHashSet,
}

impl View for Trigrams {
    type V = Set<Seq<char>>;

    closed spec fn view(&self) -> Set<Seq<char>> {
        self.set@
    }
}

/// The members of a list.
spec fn members(list: Seq<Seq<char>>) -> Set<Seq<char>>
    decreases list.len(),
{
    if list.len() == 0 {
        Set::empty()
    } else {
        members(list.drop_last()).insert(list.last())
    }
}

proof fn lemma_members_finite(list: Seq<Seq<char>>)
    ensures
        members(list).finite(),
    decreases list.len(),
{
    if list.len() > 0 {
        lemma_members_finite(list.drop_last());
    }
}

/// One more member of a list is shared with a set or not.
proof fn lemma_one_more_shared(list: Seq<Seq<char>>, i: int, other: Set<Seq<char>>)
    requires
        0 <= i < list.len(),
        !members(list.subrange(0, i)).contains(list[i]),
    ensures
        members(list.subrange(0, i + 1)).intersect(other).len() == members(
            list.subrange(0, i),
        ).intersect(other).len() + (if other.contains(list[i]) {
            1nat
        } else {
            0nat
        }),
{
    let part = list.subrange(0, i);
    let next = list.subrange(0, i + 1);
    assert(next.drop_last() =~= part);
    lemma_members_finite(part);
    if other.contains(list[i]) {
        assert(members(next).intersect(other) =~= members(part).intersect(other).insert(list[i]));
    } else {
        assert(members(next).intersect(other) =~= members(part).intersect(other));
    }
}

/// How the sizes of two sets, of what they share and of what they have
/// together hang together.
proof fn lemma_overlap(a: Set<Seq<char>>, b: Set<Seq<char>>)
    requires
        a.finite(),
        b.finite(),
    ensures
        a.union(b).len() == a.len() + b.len() - a.intersect(b).len(),
        a.intersect(b).len() <= a.len(),
        a.intersect(b).len() <= b.len(),
{
    vstd::set_lib::lemma_set_intersect_union_lens(a, b);
    assert(a + b =~= a.union(b));
    vstd::set_lib::lemma_len_intersect(a, b);
    vstd::set_lib::lemma_len_intersect(b, a);
    assert(b.intersect(a) =~= a.intersect(b));
}

impl Trigrams {
    /// The list holds each member of the set once.
    pub closed spec fn well_formed(&self) -> bool {
        &&& members(texts(self.list@)) == self.set@
        &&& members(texts(self.list@)).len() == self.list@.len()
        &&& forall|i: int|
            0 <= i < self.list@.len() ==> !members(texts(self.list@).subrange(0, i)).contains(
                #[trigger] texts(self.list@)[i],
            )
    }

    /// No trigrams.
    fn none() -> (t: Trigrams)
        ensures
            t.well_formed(),
            t@ == Set::<Seq<char>>::empty(),
    {
        let t = Trigrams { list: Vec::new(), set: StringHashSet::new() };
        assert(texts(t.list@) =~= Seq::empty());
        t
    }

    /// Adds a trigram.
    fn include_one(&mut self, trigram: String)
        requires
            old(self).well_formed(),
        ensures
            final(self).well_formed(),
            final(self)@ == old(self)@.insert(trigram@),
    {
        let ghost before = texts(self.list@);
        let fresh = self.set.insert(trigram.clone());
        if fresh {
            self.list.push(trigram);
            proof {
                let now = texts(self.list@);
                assert(now =~= before.push(trigram@));
                assert(now.drop_last() =~= before);
                lemma_members_finite(before);
                assert forall|i: int| 0 <= i < now.len() implies !members(
                    now.subrange(0, i),
                ).contains(#[trigger] now[i]) by {
                    if i < before.len() {
                        assert(now.subrange(0, i) =~= before.subrange(0, i));
                        assert(now[i] == before[i]);
                    } else {
                        assert(now.subrange(0, i) =~= before);
                    }
                }
            }
        } else {
            assert(self.set@ =~= old(self).set@);
        }
    }

    /// The trigrams of a text in lower case.
    pub fn of_lowered(lowered: &str) -> (t: Trigrams)
        ensures
            t.well_formed(),
            t@ == trigrams_of(lowered@),
            t@.finite(),
    {
        proof {
            law_trigrams_are_finite(lowered@);
        }
        let chars = chars_of(lowered);
        let mut t = Trigrams::none();
        if chars.len() == 0 {
            return t;
        }
        if chars.len() < 3 {
            t.include_one(lowered.to_owned());
            return t;
        }
        let mut i: usize = 0;
        while i < chars.len() - 2
            invariant
                chars@ == lowered@,
                chars.len() >= 3,
                i <= chars.len() - 2,
                t.well_formed(),
                t@ == windows(lowered@, i as nat),
            decreases chars.len() - i,
        {
            t.include_one(text_between(&chars, i, i + 3));
            i = i + 1;
        }
        t
    }

    /// The trigrams of a text.
    pub fn of(text: &str) -> (t: Trigrams)
        ensures
            t.well_formed(),
            t@ == trigram_set(text@),
            t@.finite(),
    {
        Trigrams::of_lowered(&to_lowercase(text))
    }

    /// How many trigrams two texts share, and how many they have together.
    #[verifier::spinoff_prover]
    #[verifier::rlimit(50)]
    pub fn overlap(&self, other: &Trigrams) -> (r: (usize, u128))
        requires
            self.well_formed(),
            other.well_formed(),
        ensures
            r.0 == self@.intersect(other@).len(),
            r.1 == self@.union(other@).len(),
            r.0 <= r.1,
            self@.finite(),
            other@.finite(),
    {
        let ghost mine = texts(self.list@);
        let mut shared: usize = 0;
        let mut i: usize = 0;
        proof {
            assert(mine.subrange(0, 0) =~= Seq::empty());
            assert(members(mine.subrange(0, 0)).intersect(other@) =~= Set::empty());
        }
        while i < self.list.len()
            invariant
                i <= self.list.len(),
                shared <= i,
                self.well_formed(),
                mine == texts(self.list@),
                shared == members(mine.subrange(0, i as int)).intersect(other@).len(),
            decreases self.list.len() - i,
        {
            proof {
                assert(!members(mine.subrange(0, i as int)).contains(mine[i as int]));
                lemma_one_more_shared(mine, i as int, other@);
            }
            if other.set.contains(&self.list[i]) {
                shared = shared + 1;
            }
            i = i + 1;
        }
        proof {
            assert(mine.subrange(0, mine.len() as int) =~= mine);
            lemma_members_finite(mine);
            lemma_members_finite(texts(other.list@));
            lemma_overlap(self@, other@);
        }
        let total = (self.list.len() as u128) + (other.list.len() as u128) - (shared as u128);
        (shared, total)
    }
}

/// How similar two trigram sets are: shared trigrams over all trigrams.
pub struct Similarity {
    pub shared: nat,
    pub total: nat,
}

/// How similar two trigram sets are.
pub open spec fn similarity(a: Set<Seq<char>>, b: Set<Seq<char>>) -> Similarity {
    Similarity { shared: a.intersect(b).len(), total: a.union(b).len() }
}

impl Similarity {
    /// The first similarity is the greater fraction.
    pub open spec fn exceeds(self, other: Similarity) -> bool {
        self.shared * other.total > other.shared * self.total
    }

    /// At least seven tenths are shared.
    pub open spec fn suffices(self) -> bool {
        10 * self.shared >= 7 * self.total
    }
}

/// The product of two numbers in base `2^64`: the upper part and the lowest
/// digit.
fn wide_product(x: u64, y: u128) -> (r: (u128, u64))
    ensures
        r.0 * 0x1_0000_0000_0000_0000 + r.1 == x * y,
{
    let base: u128 = 0x1_0000_0000_0000_0000;
    let upper: u128 = y / base;
    let lower: u128 = y % base;
    let wide_x: u128 = x as u128;
    proof {
        assert(wide_x * lower <= 0xffff_ffff_ffff_ffff * 0xffff_ffff_ffff_ffff)
            by (nonlinear_arith)
            requires
                0 <= wide_x <= 0xffff_ffff_ffff_ffff,
                0 <= lower <= 0xffff_ffff_ffff_ffff,
        ;
        assert(wide_x * upper <= 0xffff_ffff_ffff_ffff * 0xffff_ffff_ffff_ffff)
            by (nonlinear_arith)
            requires
                0 <= wide_x <= 0xffff_ffff_ffff_ffff,
                0 <= upper <= 0xffff_ffff_ffff_ffff,
        ;
    }
    let low_product: u128 = wide_x * lower;
    let high_product: u128 = wide_x * upper;
    let digit: u128 = low_product % base;
    let carry: u128 = low_product / base;
    proof {
        assert((high_product + carry) * base + digit == wide_x * y) by (nonlinear_arith)
            requires
                high_product == wide_x * upper,
                low_product == wide_x * lower,
                low_product == carry * base + digit,
                y == upper * base + lower,
        ;
    }
    (high_product + carry, digit as u64)
}

/// Whether `a / b` is more than `c / d`.
pub fn larger_fraction(a: usize, b: u128, c: usize, d: u128) -> (r: bool)
    ensures
        r == (a * d > c * b),
{
    let (left_high, left_low) = wide_product(a as u64, d);
    let (right_high, right_low) = wide_product(c as u64, b);
    left_high > right_high || (left_high == right_high && left_low > right_low)
}

/// Whether `shared / total` is at least seven tenths.
pub fn seven_tenths(shared: usize, total: u128) -> (r: bool)
    ensures
        r == (10 * shared >= 7 * total),
{
    let left: u128 = (shared as u128) * 10;
    total <= left / 7
}

/// Similarity does not depend on the order of the texts.
pub proof fn law_similarity_is_symmetric(a: Set<Seq<char>>, b: Set<Seq<char>>)
    ensures
        similarity(a, b) == similarity(b, a),
{
    assert(a.intersect(b) =~= b.intersect(a));
    assert(a.union(b) =~= b.union(a));
}

/// No two texts share more trigrams than they have.
pub proof fn law_similarity_is_at_most_one(a: Set<Seq<char>>, b: Set<Seq<char>>)
    requires
        a.finite(),
        b.finite(),
    ensures
        similarity(a, b).shared <= similarity(a, b).total,
{
    lemma_overlap(a, b);
}

/// Similarity is nought where nothing is shared, and only there.
pub proof fn law_similarity_is_nought_without_overlap(a: Set<Seq<char>>, b: Set<Seq<char>>)
    requires
        a.finite(),
        b.finite(),
    ensures
        similarity(a, b).shared == 0 <==> a.disjoint(b),
{
    let shared = a.intersect(b);
    if shared.len() == 0 {
        assert forall|t: Seq<char>| a.contains(t) implies !b.contains(t) by {
            if b.contains(t) {
                assert(shared.contains(t));
                vstd::set_lib::lemma_set_empty_equivalency_len(shared);
            }
        }
    } else {
        vstd::set_lib::lemma_set_empty_equivalency_len(shared);
        let t = choose|t: Seq<char>| shared.contains(t);
        assert(a.contains(t) && b.contains(t));
    }
}

/// Similarity is one where both texts have the same trigrams, and only there.
/// Texts without trigrams are not similar.
pub proof fn law_similarity_is_one_of_equal_sets(a: Set<Seq<char>>, b: Set<Seq<char>>)
    requires
        a.finite(),
        b.finite(),
    ensures
        similarity(a, b).total > 0 && similarity(a, b).shared == similarity(a, b).total <==> a == b
            && a.len() > 0,
{
    let shared = a.intersect(b);
    let all = a.union(b);
    if shared.len() == all.len() {
        assert(shared.subset_of(all));
        vstd::set_lib::lemma_subset_equality(shared, all);
        assert forall|t: Seq<char>| a.contains(t) == b.contains(t) by {
            assert(all.contains(t) == shared.contains(t));
        }
        assert(a =~= b);
        assert(all =~= a);
    }
    if a == b {
        assert(shared =~= a);
        assert(all =~= a);
    }
}

/// The windows of a text are finitely many.
proof fn lemma_windows_finite(s: Seq<char>, n: nat)
    ensures
        windows(s, n).finite(),
    decreases n,
{
    if n > 0 {
        lemma_windows_finite(s, (n - 1) as nat);
    }
}

/// A text has finitely many trigrams.
pub proof fn law_trigrams_are_finite(lowered: Seq<char>)
    ensures
        trigrams_of(lowered).finite(),
{
    if lowered.len() >= 3 {
        lemma_windows_finite(lowered, (lowered.len() - 2) as nat);
    }
}

/// Of any two texts, the similarity does not depend on their order. It is a
/// share of at most one, with nothing to share only where both texts are empty.
/// It is nought where no trigram is shared, and one where both texts have the
/// same trigrams and there are some; and only there.
pub proof fn law_similarity_of_texts(a: Seq<char>, b: Seq<char>)
    ensures
        ({
            let (x, y) = (trigram_set(a), trigram_set(b));
            let found = similarity(x, y);
            &&& found == similarity(y, x)
            &&& found.shared <= found.total
            &&& found.total == 0 <==> unicode_lowered(a).len() == 0 && unicode_lowered(b).len() == 0
            &&& found.shared == 0 <==> x.disjoint(y)
            &&& found.total > 0 && found.shared == found.total <==> x == y && x.len() > 0
        }),
{
    let (x, y) = (trigram_set(a), trigram_set(b));
    law_trigrams_are_finite(unicode_lowered(a));
    law_trigrams_are_finite(unicode_lowered(b));
    law_similarity_is_symmetric(x, y);
    law_similarity_is_at_most_one(x, y);
    law_similarity_is_nought_without_overlap(x, y);
    law_similarity_is_one_of_equal_sets(x, y);
    lemma_some_trigram(unicode_lowered(a));
    lemma_some_trigram(unicode_lowered(b));
    let all = x.union(y);
    vstd::set_lib::lemma_set_empty_equivalency_len(all);
    if all.len() == 0 {
        assert forall|t: Seq<char>| !x.contains(t) && !y.contains(t) by {
            assert(!all.contains(t));
        }
    }
    if unicode_lowered(a).len() == 0 && unicode_lowered(b).len() == 0 {
        assert(all =~= Set::empty());
    }
}

/// A text that is not empty has a trigram.
proof fn lemma_some_trigram(lowered: Seq<char>)
    ensures
        lowered.len() > 0 ==> exists|t: Seq<char>| #[trigger] trigrams_of(lowered).contains(t),
{
    if lowered.len() >= 3 {
        let n = (lowered.len() - 2) as nat;
        assert(trigrams_of(lowered).contains(lowered.subrange(n as int - 1, n as int + 2)));
    } else if lowered.len() > 0 {
        assert(trigrams_of(lowered).contains(lowered));
    }
}

/// The first windows of a text are those at its first offsets.
proof fn lemma_windows(s: Seq<char>, n: nat, t: Seq<char>)
    ensures
        windows(s, n).contains(t) <==> exists|i: int|
            0 <= i < n && t == #[trigger] s.subrange(i, i + 3),
    decreases n,
{
    if n > 0 {
        let less = (n - 1) as nat;
        lemma_windows(s, less, t);
        if t == s.subrange(n as int - 1, n as int + 2) {
            assert(t == s.subrange(less as int, less as int + 3));
        }
    }
}

/// The trigrams of a text are all of its runs of three characters, and nothing
/// else; a shorter text that is not empty is its own only one.
pub proof fn law_trigrams_are_runs_of_three(lowered: Seq<char>, t: Seq<char>)
    ensures
        lowered.len() >= 3 ==> (trigrams_of(lowered).contains(t) <==> exists|i: int|
            0 <= i && i + 3 <= lowered.len() && t == #[trigger] lowered.subrange(i, i + 3)),
        lowered.len() < 3 ==> (trigrams_of(lowered).contains(t) <==> lowered.len() > 0 && t
            == lowered),
{
    if lowered.len() >= 3 {
        lemma_windows(lowered, (lowered.len() - 2) as nat, t);
    }
}

}
