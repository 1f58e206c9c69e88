//! The orders in which texts are listed, and sorting by them.
use vstd::prelude::*;
use vstd::relations::*;
use vstd::seq_lib::*;
use vstd::string::*;

use crate::text::{chars_of, texts};

verus! {

broadcast use vstd::string::group_string_axioms;

/// Dictionary order of two texts by their characters.
pub open spec fn lex_le(a: Seq<char>, b: Seq<char>) -> bool
    decreases a.len(),
{
    if a.len() == 0 {
        true
    } else if b.len() == 0 {
        false
    } else if a[0] == b[0] {
        lex_le(a.drop_first(), b.drop_first())
    } else {
        a[0] < b[0]
    }
}

/// Dictionary order.
pub open spec fn dictionary() -> spec_fn(Seq<char>, Seq<char>) -> bool {
    |a: Seq<char>, b: Seq<char>| lex_le(a, b)
}

/// Longer texts first, those of one length in dictionary order.
pub open spec fn longest_first() -> spec_fn(Seq<char>, Seq<char>) -> bool {
    |a: Seq<char>, b: Seq<char>| a.len() > b.len() || (a.len() == b.len() && lex_le(a, b))
}

proof fn lemma_lex_reflexive(a: Seq<char>)
    ensures
        lex_le(a, a),
    decreases a.len(),
{
    if a.len() > 0 {
        lemma_lex_reflexive(a.drop_first());
    }
}

proof fn lemma_lex_antisymmetric(a: Seq<char>, b: Seq<char>)
    requires
        lex_le(a, b),
        lex_le(b, a),
    ensures
        a == b,
    decreases a.len(),
{
    if a.len() > 0 && b.len() > 0 {
        lemma_lex_antisymmetric(a.drop_first(), b.drop_first());
        assert(a =~= seq![a[0]] + a.drop_first());
        assert(b =~= seq![b[0]] + b.drop_first());
    } else {
        assert(a =~= b);
    }
}

proof fn lemma_lex_transitive(a: Seq<char>, b: Seq<char>, c: Seq<char>)
    requires
        lex_le(a, b),
        lex_le(b, c),
    ensures
        lex_le(a, c),
    decreases a.len(),
{
    if a.len() > 0 && b.len() > 0 && c.len() > 0 && a[0] == b[0] && b[0] == c[0] {
        lemma_lex_transitive(a.drop_first(), b.drop_first(), c.drop_first());
    }
}

proof fn lemma_lex_total(a: Seq<char>, b: Seq<char>)
    ensures
        lex_le(a, b) || lex_le(b, a),
    decreases a.len(),
{
    if a.len() > 0 && b.len() > 0 {
        lemma_lex_total(a.drop_first(), b.drop_first());
    }
}

/// Dictionary order is a total order.
pub proof fn dictionary_is_total()
    ensures
        total_ordering(dictionary()),
{
    let r = dictionary();
    assert forall|a: Seq<char>| #[trigger] r(a, a) by {
        lemma_lex_reflexive(a);
    }
    assert forall|a: Seq<char>, b: Seq<char>| #[trigger] r(a, b) && #[trigger] r(b, a) implies a
        == b by {
        lemma_lex_antisymmetric(a, b);
    }
    assert forall|a: Seq<char>, b: Seq<char>, c: Seq<char>| #[trigger]
        r(a, b) && #[trigger] r(b, c) implies r(a, c) by {
        lemma_lex_transitive(a, b, c);
    }
    assert forall|a: Seq<char>, b: Seq<char>| #[trigger] r(a, b) || #[trigger] r(b, a) by {
        lemma_lex_total(a, b);
    }
}

/// Longest-first order is a total order.
pub proof fn longest_first_is_total()
    ensures
        total_ordering(longest_first()),
{
    let r = longest_first();
    assert forall|a: Seq<char>| #[trigger] r(a, a) by {
        lemma_lex_reflexive(a);
    }
    assert forall|a: Seq<char>, b: Seq<char>| #[trigger] r(a, b) && #[trigger] r(b, a) implies a
        == b by {
        lemma_lex_antisymmetric(a, b);
    }
    assert forall|a: Seq<char>, b: Seq<char>, c: Seq<char>| #[trigger]
        r(a, b) && #[trigger] r(b, c) implies r(a, c) by {
        if a.len() == b.len() && b.len() == c.len() {
            lemma_lex_transitive(a, b, c);
        }
    }
    assert forall|a: Seq<char>, b: Seq<char>| #[trigger] r(a, b) || #[trigger] r(b, a) by {
        lemma_lex_total(a, b);
    }
}

/// Whether `a` stands before `b` in dictionary order, or equals it.
pub fn text_le(a: &str, b: &str) -> (r: bool)
    ensures
        r == lex_le(a@, b@),
{
    let x = chars_of(a);
    let y = chars_of(b);
    let mut i: usize = 0;
    assert(x@.skip(0) =~= x@);
    assert(y@.skip(0) =~= y@);
    loop
        invariant
            i <= x.len(),
            i <= y.len(),
            x@ == a@,
            y@ == b@,
            lex_le(a@, b@) == lex_le(x@.skip(i as int), y@.skip(i as int)),
        decreases x.len() - i,
    {
        if i == x.len() {
            return true;
        }
        if i == y.len() {
            return false;
        }
        if x[i] != y[i] {
            return x[i] < y[i];
        }
        assert(x@.skip(i as int).drop_first() =~= x@.skip(i + 1));
        assert(y@.skip(i as int).drop_first() =~= y@.skip(i + 1));
        i += 1;
    }
}

/// An order on texts that code can decide.
pub trait TextOrder {
    spec fn order() -> spec_fn(Seq<char>, Seq<char>) -> bool;

    proof fn is_total()
        ensures
            total_ordering(Self::order()),
    ;

    fn le(a: &str, b: &str) -> (r: bool)
        ensures
            r == Self::order()(a@, b@),
    ;
}

/// Dictionary order.
pub struct Dictionary;

/// Longer texts first.
pub struct LongestFirst;

impl TextOrder for Dictionary {
    open spec fn order() -> spec_fn(Seq<char>, Seq<char>) -> bool {
        dictionary()
    }

    proof fn is_total() {
        dictionary_is_total();
    }

    fn le(a: &str, b: &str) -> (r: bool) {
        text_le(a, b)
    }
}

impl TextOrder for LongestFirst {
    open spec fn order() -> spec_fn(Seq<char>, Seq<char>) -> bool {
        longest_first()
    }

    proof fn is_total() {
        longest_first_is_total();
    }

    fn le(a: &str, b: &str) -> (r: bool) {
        let m = a.unicode_len();
        let n = b.unicode_len();
        m > n || (m == n && text_le(a, b))
    }
}

/// Inserting at the right place keeps a sequence sorted.
pub proof fn lemma_insert_sorted<A>(s: Seq<A>, x: A, p: int, leq: spec_fn(A, A) -> bool)
    requires
        total_ordering(leq),
        sorted_by(s, leq),
        0 <= p <= s.len(),
        forall|i: int| 0 <= i < p ==> leq(#[trigger] s[i], x),
        p < s.len() ==> !leq(s[p], x),
    ensures
        sorted_by(s.insert(p, x), leq),
        s.insert(p, x).to_multiset() == s.to_multiset().insert(x),
{
    broadcast use group_to_multiset_ensures;

    let t = s.insert(p, x);
    assert forall|i: int, j: int| 0 <= i < j < t.len() implies #[trigger] leq(t[i], t[j]) by {
        if p < s.len() {
            assert(leq(s[p], x) || leq(x, s[p]));
        }
        let a = if i < p {
            s[i]
        } else if i == p {
            x
        } else {
            s[i - 1]
        };
        let b = if j < p {
            s[j]
        } else if j == p {
            x
        } else {
            s[j - 1]
        };
        assert(t[i] == a && t[j] == b);
        if i == p {
            if j - 1 > p {
                assert(leq(s[p], s[j - 1]));
                assert(leq(x, s[p]));
            }
        } else if j == p {
        } else if i < p && j > p {
            assert(leq(s[i], s[j - 1]));
        } else if i < p {
            assert(leq(s[i], s[j]));
        } else {
            assert(leq(s[i - 1], s[j - 1]));
        }
    }
}

/// The texts sorted by the order `O`.
pub fn sort_texts<O: TextOrder>(list: &Vec<String>) -> (r: Vec<String>)
    ensures
        texts(r@) == texts(list@).sort_by(O::order()),
{
    broadcast use group_to_multiset_ensures;

    let mut r: Vec<String> = Vec::new();
    let mut i: usize = 0;
    proof {
        O::is_total();
        assert(texts(r@) =~= Seq::<Seq<char>>::empty());
        assert(texts(list@).take(0) =~= Seq::<Seq<char>>::empty());
    }
    while i < list.len()
        invariant
            i <= list.len(),
            total_ordering(O::order()),
            sorted_by(texts(r@), O::order()),
            texts(r@).to_multiset() == texts(list@).take(i as int).to_multiset(),
        decreases list.len() - i,
    {
        let mut p: usize = 0;
        while p < r.len() && O::le(&r[p], &list[i])
            invariant
                p <= r.len(),
                i < list.len(),
                forall|j: int|
                    0 <= j < p ==> O::order()(#[trigger] texts(r@)[j], list@[i as int]@),
            decreases r.len() - p,
        {
            p += 1;
        }
        let ghost before = texts(r@);
        proof {
            if p < r.len() {
                assert(texts(r@)[p as int] == r@[p as int]@);
            }
            lemma_insert_sorted(before, list@[i as int]@, p as int, O::order());
        }
        r.insert(p, list[i].clone());
        i += 1;
        proof {
            assert(texts(r@) =~= before.insert(p as int, list@[i - 1]@));
            assert(texts(list@).take(i as int) =~= texts(list@).take(i - 1).push(
                list@[i - 1]@,
            ));
            to_multiset_build(texts(list@).take(i - 1), list@[i - 1]@);
        }
    }
    proof {
        assert(texts(list@).take(i as int) =~= texts(list@));
        texts(list@).lemma_sort_by_ensures(O::order());
        lemma_sorted_unique(texts(r@), texts(list@).sort_by(O::order()), O::order());
    }
    r
}

// ------------------------------------------------------------ stable sorting

/// `x` put into `s` behind the last element that may stand before it.
pub open spec fn placed<A>(s: Seq<A>, x: A, leq: spec_fn(A, A) -> bool) -> Seq<A>
    decreases s.len(),
{
    if s.len() == 0 {
        seq![x]
    } else if leq(s.last(), x) {
        s.push(x)
    } else {
        placed(s.drop_last(), x, leq).push(s.last())
    }
}

/// `s` in order, where what is equal in that order stays as it stood.
pub open spec fn stable_sorted<A>(s: Seq<A>, leq: spec_fn(A, A) -> bool) -> Seq<A>
    decreases s.len(),
{
    if s.len() == 0 {
        s
    } else {
        placed(stable_sorted(s.drop_last(), leq), s.last(), leq)
    }
}

pub proof fn lemma_placed_len<A>(s: Seq<A>, x: A, leq: spec_fn(A, A) -> bool)
    ensures
        placed(s, x, leq).len() == s.len() + 1,
    decreases s.len(),
{
    if s.len() > 0 && !leq(s.last(), x) {
        lemma_placed_len(s.drop_last(), x, leq);
    }
}

pub proof fn lemma_stable_len<A>(s: Seq<A>, leq: spec_fn(A, A) -> bool)
    ensures
        stable_sorted(s, leq).len() == s.len(),
    decreases s.len(),
{
    if s.len() > 0 {
        lemma_stable_len(s.drop_last(), leq);
        lemma_placed_len(stable_sorted(s.drop_last(), leq), s.last(), leq);
    }
}

/// An order in which different elements may be equal.
pub open spec fn preorder<A>(leq: spec_fn(A, A) -> bool) -> bool {
    &&& forall|a: A, b: A| #[trigger] leq(a, b) || #[trigger] leq(b, a)
    &&& forall|a: A, b: A, c: A| #[trigger] leq(a, b) && #[trigger] leq(b, c) ==> leq(a, c)
}

pub proof fn lemma_placed_at<A>(s: Seq<A>, x: A, p: int, leq: spec_fn(A, A) -> bool)
    requires
        0 <= p <= s.len(),
        p > 0 ==> leq(s[p - 1], x),
        forall|j: int| p <= j < s.len() ==> !leq(#[trigger] s[j], x),
    ensures
        placed(s, x, leq) == s.insert(p, x),
    decreases s.len(),
{
    if s.len() == 0 {
        assert(s.insert(p, x) =~= seq![x]);
    } else if p == s.len() {
        assert(s.insert(p, x) =~= s.push(x));
    } else {
        assert(!leq(s[s.len() - 1], x));
        lemma_placed_at(s.drop_last(), x, p, leq);
        assert(s.insert(p, x) =~= s.drop_last().insert(p, x).push(s.last()));
    }
}

proof fn lemma_placed<A>(s: Seq<A>, x: A, leq: spec_fn(A, A) -> bool)
    requires
        preorder(leq),
        sorted_by(s, leq),
    ensures
        sorted_by(placed(s, x, leq), leq),
        placed(s, x, leq).to_multiset() == s.to_multiset().insert(x),
        forall|i: int|
            0 <= i < placed(s, x, leq).len() ==> (#[trigger] placed(s, x, leq)[i]) == x
                || s.contains(placed(s, x, leq)[i]),
    decreases s.len(),
{
    broadcast use group_to_multiset_ensures;

    let t = placed(s, x, leq);
    if s.len() == 0 {
        assert(t =~= s.push(x));
    } else if leq(s.last(), x) {
        assert forall|i: int, j: int| 0 <= i < j < t.len() implies #[trigger] leq(t[i], t[j]) by {
            if j == s.len() && i < s.len() - 1 {
                assert(leq(s[i], s[s.len() - 1]));
            }
        }
        assert forall|i: int| 0 <= i < t.len() implies (#[trigger] t[i]) == x || s.contains(
            t[i],
        ) by {
            if i < s.len() {
                assert(s[i] == t[i]);
            }
        }
    } else {
        let u = placed(s.drop_last(), x, leq);
        assert forall|i: int, j: int| 0 <= i < j < s.len() - 1 implies #[trigger] leq(
            s.drop_last()[i],
            s.drop_last()[j],
        ) by {
            assert(leq(s[i], s[j]));
        }
        lemma_placed(s.drop_last(), x, leq);
        assert(leq(x, s.last()));
        assert forall|i: int, j: int| 0 <= i < j < t.len() implies #[trigger] leq(t[i], t[j]) by {
            if j == t.len() - 1 {
                assert(t[i] == u[i]);
                if u[i] != x {
                    let k = choose|k: int|
                        0 <= k < s.drop_last().len() && s.drop_last()[k] == u[i];
                    assert(leq(s[k], s[s.len() - 1]));
                }
            } else {
                assert(leq(u[i], u[j]));
            }
        }
        assert forall|i: int| 0 <= i < t.len() implies (#[trigger] t[i]) == x || s.contains(
            t[i],
        ) by {
            if i < u.len() {
                assert(t[i] == u[i]);
                if u[i] != x {
                    let k = choose|k: int|
                        0 <= k < s.drop_last().len() && s.drop_last()[k] == u[i];
                    assert(s[k] == t[i]);
                }
            } else {
                assert(s[s.len() - 1] == t[i]);
            }
        }
        assert(s.drop_last().push(s.last()) =~= s);
        to_multiset_build(s.drop_last(), s.last());
        to_multiset_build(u, s.last());
        assert(t.to_multiset() =~= s.to_multiset().insert(x));
    }
}

/// A stable sort keeps the elements and puts them in order.
pub proof fn stable_sorting_sorts<A>(s: Seq<A>, leq: spec_fn(A, A) -> bool)
    requires
        preorder(leq),
    ensures
        sorted_by(stable_sorted(s, leq), leq),
        stable_sorted(s, leq).to_multiset() == s.to_multiset(),
    decreases s.len(),
{
    broadcast use group_to_multiset_ensures;

    if s.len() > 0 {
        stable_sorting_sorts(s.drop_last(), leq);
        lemma_placed(stable_sorted(s.drop_last(), leq), s.last(), leq);
        assert(s.drop_last().push(s.last()) =~= s);
        to_multiset_build(s.drop_last(), s.last());
    }
}

/// The elements that are equal to `x` in the order.
pub open spec fn equals_of<A>(x: A, leq: spec_fn(A, A) -> bool) -> spec_fn(A) -> bool {
    |a: A| leq(a, x) && leq(x, a)
}

proof fn lemma_filter_push<A>(s: Seq<A>, x: A, keep: spec_fn(A) -> bool)
    ensures
        s.push(x).filter(keep) == if keep(x) {
            s.filter(keep).push(x)
        } else {
            s.filter(keep)
        },
{
    reveal(Seq::filter);
    assert(s.push(x).drop_last() =~= s);
}

proof fn lemma_placed_stable<A>(s: Seq<A>, x: A, leq: spec_fn(A, A) -> bool, y: A)
    requires
        preorder(leq),
    ensures
        placed(s, x, leq).filter(equals_of(y, leq)) == s.push(x).filter(equals_of(y, leq)),
    decreases s.len(),
{
    let keep = equals_of(y, leq);
    if s.len() == 0 {
        assert(placed(s, x, leq) =~= s.push(x));
    } else if !leq(s.last(), x) {
        let u = placed(s.drop_last(), x, leq);
        lemma_placed_stable(s.drop_last(), x, leq, y);
        lemma_filter_push(u, s.last(), keep);
        lemma_filter_push(s.drop_last(), x, keep);
        lemma_filter_push(s, x, keep);
        lemma_filter_push(s.drop_last(), s.last(), keep);
        assert(s.drop_last().push(s.last()) =~= s);
        if keep(x) && keep(s.last()) {
            assert(leq(s.last(), y) && leq(y, x));
        }
    }
}

/// A stable sort leaves what is equal in the order as it stood.
pub proof fn stable_sorting_is_stable<A>(s: Seq<A>, leq: spec_fn(A, A) -> bool, y: A)
    requires
        preorder(leq),
    ensures
        stable_sorted(s, leq).filter(equals_of(y, leq)) == s.filter(equals_of(y, leq)),
    decreases s.len(),
{
    if s.len() > 0 {
        let head = stable_sorted(s.drop_last(), leq);
        stable_sorting_is_stable(s.drop_last(), leq, y);
        lemma_placed_stable(head, s.last(), leq, y);
        lemma_filter_push(head, s.last(), equals_of(y, leq));
        lemma_filter_push(s.drop_last(), s.last(), equals_of(y, leq));
        assert(s.drop_last().push(s.last()) =~= s);
    }
}

// ------------------------------------------------------------------ subsequences

/// Whether `at` says where in `big` the elements of `small` stand, from left to
/// right.
pub open spec fn places<A>(small: Seq<A>, big: Seq<A>, at: Seq<int>) -> bool {
    &&& at.len() == small.len()
    &&& forall|i: int|
        0 <= i < small.len() ==> 0 <= #[trigger] at[i] < big.len() && big[at[i]] == small[i]
    &&& forall|i: int, j: int| 0 <= i < j < at.len() ==> #[trigger] at[i] < #[trigger] at[j]
}

/// Whether all of `small` stands in `big`, in the same order.
pub open spec fn subsequence<A>(small: Seq<A>, big: Seq<A>) -> bool {
    exists|at: Seq<int>| places(small, big, at)
}

pub proof fn lemma_subsequence_of_itself<A>(s: Seq<A>)
    ensures
        subsequence(s, s),
{
    assert(places(s, s, Seq::new(s.len(), |i: int| i)));
}

/// Putting an element into a sequence keeps what stands in it.
pub proof fn lemma_inserting_keeps<A>(small: Seq<A>, big: Seq<A>, p: int, x: A)
    requires
        subsequence(small, big),
        0 <= p <= big.len(),
    ensures
        subsequence(small, big.insert(p, x)),
{
    let at = choose|at: Seq<int>| places(small, big, at);
    let moved = Seq::new(
        at.len(),
        |i: int|
            if at[i] >= p {
                at[i] + 1
            } else {
                at[i]
            },
    );
    let t = big.insert(p, x);
    assert forall|i: int| 0 <= i < small.len() implies 0 <= #[trigger] moved[i] < t.len()
        && t[moved[i]] == small[i] by {
        assert(0 <= at[i] < big.len() && big[at[i]] == small[i]);
    }
    assert forall|i: int, j: int| 0 <= i < j < moved.len() implies #[trigger] moved[i]
        < #[trigger] moved[j] by {
        assert(at[i] < at[j]);
    }
    assert(places(small, t, moved));
}

/// What is left of a list when the last is looked at last.
pub proof fn lemma_filter_last<A>(s: Seq<A>, keep: spec_fn(A) -> bool)
    requires
        s.len() > 0,
    ensures
        s.filter(keep) == if keep(s.last()) {
            s.drop_last().filter(keep).push(s.last())
        } else {
            s.drop_last().filter(keep)
        },
{
    reveal(Seq::filter);
}

pub proof fn lemma_filter_none<A>(s: Seq<A>, keep: spec_fn(A) -> bool)
    requires
        s.len() == 0,
    ensures
        s.filter(keep).len() == 0,
{
    reveal(Seq::filter);
}

/// What is left of a list is what is in it and wanted.
pub proof fn lemma_filter_has<A>(s: Seq<A>, keep: spec_fn(A) -> bool, x: A)
    ensures
        s.filter(keep).contains(x) <==> s.contains(x) && keep(x),
    decreases s.len(),
{
    if s.len() > 0 {
        let head = s.drop_last();
        lemma_filter_has(head, keep, x);
        lemma_filter_last(s, keep);
        let f = head.filter(keep);
        if s.contains(x) && x != s.last() {
            let k = choose|k: int| 0 <= k < s.len() && s[k] == x;
            assert(head[k] == x);
        }
        if head.contains(x) {
            let k = choose|k: int| 0 <= k < head.len() && head[k] == x;
            assert(s[k] == x);
        }
        if keep(s.last()) {
            assert(f.push(s.last())[f.len() as int] == s.last());
            if f.contains(x) {
                let k = choose|k: int| 0 <= k < f.len() && f[k] == x;
                assert(f.push(s.last())[k] == x);
            }
            if f.push(s.last()).contains(x) && x != s.last() {
                let k = choose|k: int| 0 <= k < f.push(s.last()).len() && f.push(s.last())[k] == x;
                assert(f[k] == x);
            }
        }
        assert(s[s.len() - 1] == s.last());
    } else {
        lemma_filter_none(s, keep);
    }
}

} // verus!
