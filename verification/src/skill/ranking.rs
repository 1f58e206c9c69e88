//! Ordering skills by how well they answer a query.
use vstd::prelude::*;
use vstd::seq_lib::*;
use vstd::string::*;

use crate::order::{
    dictionary, dictionary_is_total, lemma_placed_at, lex_le, preorder, stable_sorted,
    stable_sorting_sorts, text_le,
};
use crate::search_query::{search_terms, tokenize_search_query};
use crate::skill::types::{summary_views, SkillSummary, SummaryView};
use crate::text::{
    ascii_lowercase_text, contains_text, occurs, occurs_at, str_eq, texts, to_ascii_lowercase,
};

verus! {

broadcast use vstd::string::group_string_axioms;

/// Whether a keyword occurs in the name or the description of a skill.
pub open spec fn hits(summary: SummaryView, keyword: Seq<char>) -> bool {
    occurs(ascii_lowercase_text(summary.name), keyword) || occurs(
        ascii_lowercase_text(summary.description),
        keyword,
    )
}

/// How many of the keywords hit a skill.
pub open spec fn hit_count(summary: SummaryView, keywords: Seq<Seq<char>>) -> nat
    decreases keywords.len(),
{
    if keywords.len() == 0 {
        0
    } else {
        hit_count(summary, keywords.drop_last()) + if hits(summary, keywords.last()) {
            1nat
        } else {
            0nat
        }
    }
}

/// More hits first, then by name, then by source where it counts.
pub open spec fn rank_le(
    by_source: bool,
    a: (nat, SummaryView),
    b: (nat, SummaryView),
) -> bool {
    a.0 > b.0 || (a.0 == b.0 && (a.1.name != b.1.name && lex_le(a.1.name, b.1.name) || (a.1.name
        == b.1.name && (!by_source || lex_le(a.1.source, b.1.source)))))
}

pub open spec fn rank_order(by_source: bool) -> spec_fn((nat, SummaryView), (nat, SummaryView)) -> bool {
    |a: (nat, SummaryView), b: (nat, SummaryView)| rank_le(by_source, a, b)
}

/// The ranking is an order, in which different skills may be equal.
pub proof fn ranking_is_an_order(by_source: bool)
    ensures
        preorder(rank_order(by_source)),
{
    dictionary_is_total();
    let le = dictionary();
    let o = rank_order(by_source);
    assert forall|a: (nat, SummaryView), b: (nat, SummaryView)| #[trigger] o(a, b) || #[trigger] o(
        b,
        a,
    ) by {
        assert(le(a.1.name, b.1.name) || le(b.1.name, a.1.name));
        assert(le(a.1.source, b.1.source) || le(b.1.source, a.1.source));
    }
    assert forall|a: (nat, SummaryView), b: (nat, SummaryView), c: (nat, SummaryView)| #[trigger]
        o(a, b) && #[trigger] o(b, c) implies o(a, c) by {
        assert(le(a.1.name, b.1.name) && le(b.1.name, c.1.name) ==> le(a.1.name, c.1.name));
        assert(le(a.1.source, b.1.source) && le(b.1.source, c.1.source) ==> le(
            a.1.source,
            c.1.source,
        ));
        assert(le(a.1.name, b.1.name) && le(b.1.name, a.1.name) ==> a.1.name == b.1.name);
    }
}

/// The skills that some keyword hits, each with how many do.
pub open spec fn hit_pairs(
    summaries: Seq<SummaryView>,
    keywords: Seq<Seq<char>>,
) -> Seq<(nat, SummaryView)>
    decreases summaries.len(),
{
    if summaries.len() == 0 {
        Seq::empty()
    } else {
        let head = hit_pairs(summaries.drop_last(), keywords);
        let n = hit_count(summaries.last(), keywords);
        if n > 0 {
            head.push((n, summaries.last()))
        } else {
            head
        }
    }
}

pub open spec fn unranked(summaries: Seq<SummaryView>) -> Seq<(nat, SummaryView)> {
    summaries.map_values(|s: SummaryView| (0nat, s))
}

pub open spec fn second(pairs: Seq<(nat, SummaryView)>) -> Seq<SummaryView> {
    pairs.map_values(|p: (nat, SummaryView)| p.1)
}

/// The skills that answer the keywords, best first; without keywords, all of
/// them by name.
pub open spec fn ranked(summaries: Seq<SummaryView>, keywords: Seq<Seq<char>>) -> Seq<SummaryView> {
    if keywords.len() == 0 {
        second(stable_sorted(unranked(summaries), rank_order(false)))
    } else {
        second(stable_sorted(hit_pairs(summaries, keywords), rank_order(true)))
    }
}

pub open spec fn pair_views(pairs: Seq<(usize, SkillSummary)>) -> Seq<(nat, SummaryView)> {
    pairs.map_values(|p: (usize, SkillSummary)| (p.0 as nat, p.1@))
}

fn ranks_before(by_source: bool, a: &(usize, SkillSummary), b: &(usize, SkillSummary)) -> (r: bool)
    ensures
        r == rank_le(by_source, (a.0 as nat, a.1@), (b.0 as nat, b.1@)),
{
    if a.0 != b.0 {
        a.0 > b.0
    } else if !str_eq(&a.1.name, &b.1.name) {
        text_le(&a.1.name, &b.1.name)
    } else {
        !by_source || text_le(&a.1.source, &b.1.source)
    }
}

fn sort_pairs(pairs: Vec<(usize, SkillSummary)>, by_source: bool) -> (r: Vec<(usize, SkillSummary)>)
    ensures
        pair_views(r@) == stable_sorted(pair_views(pairs@), rank_order(by_source)),
{
    let ghost all = pair_views(pairs@);
    let mut out: Vec<(usize, SkillSummary)> = Vec::new();
    let mut i: usize = 0;
    assert(all.take(0) =~= Seq::empty());
    assert(pair_views(out@) =~= Seq::<(nat, SummaryView)>::empty());
    while i < pairs.len()
        invariant
            i <= pairs.len(),
            all == pair_views(pairs@),
            pair_views(out@) == stable_sorted(all.take(i as int), rank_order(by_source)),
        decreases pairs.len() - i,
    {
        let item = (pairs[i].0, pairs[i].1.copy());
        let ghost x = (item.0 as nat, item.1@);
        let ghost before = pair_views(out@);
        let mut p: usize = out.len();
        while p > 0 && !ranks_before(by_source, &out[p - 1], &item)
            invariant
                p <= out.len(),
                before == pair_views(out@),
                x == (item.0 as nat, item.1@),
                forall|j: int|
                    p <= j < out.len() ==> !rank_order(by_source)(#[trigger] before[j], x),
            decreases p,
        {
            assert(before[p - 1] == (out@[p - 1].0 as nat, out@[p - 1].1@));
            p -= 1;
        }
        proof {
            if p > 0 {
                assert(before[p - 1] == (out@[p - 1].0 as nat, out@[p - 1].1@));
            }
            lemma_placed_at(before, x, p as int, rank_order(by_source));
            assert(all.take(i + 1).drop_last() =~= all.take(i as int));
            assert(all.take(i + 1).last() == x);
        }
        out.insert(p, item);
        assert(pair_views(out@) =~= before.insert(p as int, x));
        i += 1;
    }
    assert(all.take(i as int) =~= all);
    out
}

fn count_hits(summary: &SkillSummary, keywords: &Vec<String>) -> (r: usize)
    ensures
        r == hit_count(summary@, texts(keywords@)),
{
    let name = to_ascii_lowercase(&summary.name);
    let description = to_ascii_lowercase(&summary.description);
    let ghost all = texts(keywords@);
    let mut n: usize = 0;
    let mut i: usize = 0;
    while i < keywords.len()
        invariant
            i <= keywords.len(),
            n <= i,
            all == texts(keywords@),
            name@ == ascii_lowercase_text(summary@.name),
            description@ == ascii_lowercase_text(summary@.description),
            n == hit_count(summary@, all.take(i as int)),
        decreases keywords.len() - i,
    {
        assert(all.take(i + 1).drop_last() =~= all.take(i as int));
        if contains_text(&name, &keywords[i]) || contains_text(&description, &keywords[i]) {
            n += 1;
        }
        i += 1;
    }
    assert(all.take(i as int) =~= all);
    n
}

/// The skills that answer the keywords, best first.
pub fn rank_summaries(summaries: &Vec<SkillSummary>, keywords: &Vec<String>) -> (r: Vec<SkillSummary>)
    ensures
        summary_views(r@) == ranked(summary_views(summaries@), texts(keywords@)),
{
    let ghost all = summary_views(summaries@);
    let mut pairs: Vec<(usize, SkillSummary)> = Vec::new();
    let none = keywords.len() == 0;
    let mut i: usize = 0;
    assert(all.take(0) =~= Seq::empty());
    assert(pair_views(pairs@) =~= Seq::<(nat, SummaryView)>::empty());
    while i < summaries.len()
        invariant
            i <= summaries.len(),
            all == summary_views(summaries@),
            none == (keywords.len() == 0),
            pair_views(pairs@) == if none {
                unranked(all.take(i as int))
            } else {
                hit_pairs(all.take(i as int), texts(keywords@))
            },
        decreases summaries.len() - i,
    {
        let ghost before = pair_views(pairs@);
        let n = count_hits(&summaries[i], keywords);
        proof {
            assert(all.take(i + 1).drop_last() =~= all.take(i as int));
            assert(all.take(i + 1).last() == summaries@[i as int]@);
            assert(unranked(all.take(i + 1)) =~= unranked(all.take(i as int)).push(
                (0nat, summaries@[i as int]@),
            ));
        }
        if none || n > 0 {
            pairs.push((n, summaries[i].copy()));
            assert(pair_views(pairs@) =~= before.push((n as nat, summaries@[i as int]@)));
        }
        i += 1;
    }
    assert(all.take(i as int) =~= all);
    let sorted = sort_pairs(pairs, !none);
    unpair(&sorted)
}

/// The skills by name, and by source where it counts.
pub open spec fn by_name(summaries: Seq<SummaryView>, by_source: bool) -> Seq<SummaryView> {
    second(stable_sorted(unranked(summaries), rank_order(by_source)))
}

/// The skills by name and then by source.
pub fn sort_by_name(summaries: &Vec<SkillSummary>) -> (r: Vec<SkillSummary>)
    ensures
        summary_views(r@) == by_name(summary_views(summaries@), true),
{
    let ghost all = summary_views(summaries@);
    let mut pairs: Vec<(usize, SkillSummary)> = Vec::new();
    let mut i: usize = 0;
    while i < summaries.len()
        invariant
            i <= summaries.len(),
            all == summary_views(summaries@),
            pairs.len() == i,
            forall|j: int|
                0 <= j < i ==> (#[trigger] pairs@[j]).0 == 0 && pairs@[j].1@ == all[j],
        decreases summaries.len() - i,
    {
        assert(all[i as int] == summaries@[i as int]@);
        pairs.push((0, summaries[i].copy()));
        i += 1;
    }
    assert(pair_views(pairs@) =~= unranked(all));
    let sorted = sort_pairs(pairs, true);
    unpair(&sorted)
}

fn unpair(sorted: &Vec<(usize, SkillSummary)>) -> (r: Vec<SkillSummary>)
    ensures
        summary_views(r@) == second(pair_views(sorted@)),
{
    let ghost views = pair_views(sorted@);
    let mut out: Vec<SkillSummary> = Vec::new();
    let mut k: usize = 0;
    while k < sorted.len()
        invariant
            k <= sorted.len(),
            views == pair_views(sorted@),
            out.len() == k,
            forall|j: int| 0 <= j < k ==> (#[trigger] out@[j])@ == views[j].1,
        decreases sorted.len() - k,
    {
        assert(views[k as int].1 == sorted@[k as int].1@);
        out.push(sorted[k].1.copy());
        k += 1;
    }
    assert(summary_views(out@) =~= second(views));
    out
}

/// The keywords of a query.
pub fn parse_keywords(query: &str) -> (r: Vec<String>)
    ensures
        texts(r@) == search_terms(query@),
{
    tokenize_search_query(query)
}

// ------------------------------------------------------------------------ laws

/// Each keyword that hits a skill counts once: no keyword, no hit; a keyword more
/// counts one more where it occurs in the name or the description, in whatever
/// case these are written.
pub proof fn each_keyword_counts_once(
    summary: SummaryView,
    keywords: Seq<Seq<char>>,
    keyword: Seq<char>,
)
    ensures
        hit_count(summary, Seq::empty()) == 0,
        hit_count(summary, keywords.push(keyword)) == hit_count(summary, keywords) + (if (exists|
            i: int,
        |
            0 <= i && i + keyword.len() <= summary.name.len() && ascii_lowercase_text(
                #[trigger] summary.name.subrange(i, i + keyword.len()),
            ) == keyword) || (exists|i: int|
            0 <= i && i + keyword.len() <= summary.description.len() && ascii_lowercase_text(
                #[trigger] summary.description.subrange(i, i + keyword.len()),
            ) == keyword) {
            1nat
        } else {
            0nat
        }),
{
    let all = keywords.push(keyword);
    assert(all.drop_last() =~= keywords);
    lemma_occurs_lowered(summary.name, keyword);
    lemma_occurs_lowered(summary.description, keyword);
}

proof fn lemma_occurs_lowered(text: Seq<char>, keyword: Seq<char>)
    ensures
        occurs(ascii_lowercase_text(text), keyword) <==> exists|i: int|
            0 <= i && i + keyword.len() <= text.len() && ascii_lowercase_text(
                #[trigger] text.subrange(i, i + keyword.len()),
            ) == keyword,
{
    let low = ascii_lowercase_text(text);
    assert forall|i: int| 0 <= i && i + keyword.len() <= text.len() implies low.subrange(
        i,
        i + keyword.len(),
    ) == ascii_lowercase_text(#[trigger] text.subrange(i, i + keyword.len())) by {
        assert(low.subrange(i, i + keyword.len()) =~= ascii_lowercase_text(
            text.subrange(i, i + keyword.len()),
        ));
    }
    if occurs(low, keyword) {
        let i = choose|i: int| occurs_at(low, keyword, i);
        assert(ascii_lowercase_text(text.subrange(i, i + keyword.len())) == keyword);
    }
    if exists|i: int|
        0 <= i && i + keyword.len() <= text.len() && ascii_lowercase_text(
            #[trigger] text.subrange(i, i + keyword.len()),
        ) == keyword {
        let i = choose|i: int|
            0 <= i && i + keyword.len() <= text.len() && ascii_lowercase_text(
                #[trigger] text.subrange(i, i + keyword.len()),
            ) == keyword;
        assert(occurs_at(low, keyword, i));
    }
}

proof fn lemma_hit_pairs(summaries: Seq<SummaryView>, keywords: Seq<Seq<char>>)
    ensures
        second(hit_pairs(summaries, keywords)) == summaries.filter(
            |s: SummaryView| hit_count(s, keywords) > 0,
        ),
        forall|i: int|
            0 <= i < hit_pairs(summaries, keywords).len() ==> (#[trigger] hit_pairs(
                summaries,
                keywords,
            )[i]).0 == hit_count(hit_pairs(summaries, keywords)[i].1, keywords),
    decreases summaries.len(),
{
    reveal(Seq::filter);
    let keep = |s: SummaryView| hit_count(s, keywords) > 0;
    let pairs = hit_pairs(summaries, keywords);
    if summaries.len() > 0 {
        let head = hit_pairs(summaries.drop_last(), keywords);
        lemma_hit_pairs(summaries.drop_last(), keywords);
        let n = hit_count(summaries.last(), keywords);
        if n > 0 {
            assert(second(pairs) =~= second(head).push(summaries.last()));
        }
        assert forall|i: int| 0 <= i < pairs.len() implies (#[trigger] pairs[i]).0 == hit_count(
            pairs[i].1,
            keywords,
        ) by {
            if i < head.len() {
                assert(pairs[i] == head[i]);
            }
        }
    } else {
        assert(second(pairs) =~= Seq::<SummaryView>::empty());
    }
}

proof fn lemma_second_multiset(a: Seq<(nat, SummaryView)>, b: Seq<(nat, SummaryView)>)
    requires
        a.to_multiset() == b.to_multiset(),
    ensures
        second(a).to_multiset() == second(b).to_multiset(),
{
    broadcast use group_to_multiset_ensures;

    let f = |p: (nat, SummaryView)| p.1;
    lemma_mapped_multiset(a, b, f);
    assert(second(a) =~= a.map_values(f));
    assert(second(b) =~= b.map_values(f));
}

proof fn lemma_mapped_multiset<A, B>(a: Seq<A>, b: Seq<A>, f: spec_fn(A) -> B)
    requires
        a.to_multiset() == b.to_multiset(),
    ensures
        a.map_values(f).to_multiset() == b.map_values(f).to_multiset(),
    decreases a.len(),
{
    broadcast use group_to_multiset_ensures;

    assert(a.to_multiset().len() == a.len());
    assert(b.to_multiset().len() == b.len());
    if a.len() > 0 {
        let x = a.last();
        assert(a.contains(x));
        assert(a.to_multiset().count(x) > 0);
        assert(b.contains(x));
        let k = choose|k: int| 0 <= k < b.len() && b[k] == x;
        let rest = b.remove(k);
        assert(a.drop_last().push(x) =~= a);
        to_multiset_build(a.drop_last(), x);
        assert(rest.insert(k, x) =~= b);
        lemma_insert_multiset(rest, k, x);
        assert(a.drop_last().to_multiset() =~= rest.to_multiset());
        lemma_mapped_multiset(a.drop_last(), rest, f);
        assert(a.map_values(f) =~= a.drop_last().map_values(f).push(f(x)));
        to_multiset_build(a.drop_last().map_values(f), f(x));
        assert(b.map_values(f) =~= rest.map_values(f).insert(k, f(x)));
        lemma_insert_multiset(rest.map_values(f), k, f(x));
    } else {
        assert(a.map_values(f) =~= b.map_values(f));
    }
}

proof fn lemma_insert_multiset<A>(s: Seq<A>, k: int, x: A)
    requires
        0 <= k <= s.len(),
    ensures
        s.insert(k, x).to_multiset() == s.to_multiset().insert(x),
{
    broadcast use group_to_multiset_ensures;

    let all = s.insert(k, x);
    assert(all =~= s.take(k).push(x) + s.skip(k));
    assert(s =~= s.take(k) + s.skip(k));
    lemma_multiset_commutative(s.take(k).push(x), s.skip(k));
    lemma_multiset_commutative(s.take(k), s.skip(k));
    to_multiset_build(s.take(k), x);
    assert(all.to_multiset() =~= s.to_multiset().insert(x));
}

/// With keywords, exactly the skills that some keyword hits are found, each as
/// often as it is there. The number of keywords that hit a skill never goes up
/// along the result; those that are hit equally often stand by name, and those of
/// one name by source.
pub proof fn the_best_match_comes_first(summaries: Seq<SummaryView>, keywords: Seq<Seq<char>>)
    requires
        keywords.len() > 0,
    ensures
        ({
            let r = ranked(summaries, keywords);
            &&& r.to_multiset() == summaries.filter(
                |s: SummaryView| hit_count(s, keywords) > 0,
            ).to_multiset()
            &&& forall|i: int, j: int|
                0 <= i < j < r.len() ==> {
                    let (a, b) = (#[trigger] r[i], #[trigger] r[j]);
                    &&& hit_count(a, keywords) >= hit_count(b, keywords)
                    &&& hit_count(a, keywords) == hit_count(b, keywords) ==> lex_le(a.name, b.name)
                    &&& hit_count(a, keywords) == hit_count(b, keywords) && a.name == b.name
                        ==> lex_le(a.source, b.source)
                }
        }),
{
    let pairs = hit_pairs(summaries, keywords);
    let o = rank_order(true);
    let sorted = stable_sorted(pairs, o);
    let r = ranked(summaries, keywords);
    lemma_hit_pairs(summaries, keywords);
    ranking_is_an_order(true);
    stable_sorting_sorts(pairs, o);
    lemma_second_multiset(sorted, pairs);
    lemma_sorted_hits(pairs, sorted, keywords);
    assert forall|i: int, j: int| 0 <= i < j < r.len() implies {
        let (a, b) = (#[trigger] r[i], #[trigger] r[j]);
        &&& hit_count(a, keywords) >= hit_count(b, keywords)
        &&& hit_count(a, keywords) == hit_count(b, keywords) ==> lex_le(a.name, b.name)
        &&& hit_count(a, keywords) == hit_count(b, keywords) && a.name == b.name ==> lex_le(
            a.source,
            b.source,
        )
    } by {
        assert(o(sorted[i], sorted[j]));
        assert(r[i] == sorted[i].1 && r[j] == sorted[j].1);
        dictionary_is_total();
        assert(dictionary()(r[i].name, r[i].name));
    }
}

proof fn lemma_sorted_hits(
    pairs: Seq<(nat, SummaryView)>,
    sorted: Seq<(nat, SummaryView)>,
    keywords: Seq<Seq<char>>,
)
    requires
        sorted.to_multiset() == pairs.to_multiset(),
        forall|i: int|
            0 <= i < pairs.len() ==> (#[trigger] pairs[i]).0 == hit_count(pairs[i].1, keywords),
    ensures
        forall|i: int|
            0 <= i < sorted.len() ==> (#[trigger] sorted[i]).0 == hit_count(
                sorted[i].1,
                keywords,
            ),
{
    broadcast use group_to_multiset_ensures;

    assert forall|i: int| 0 <= i < sorted.len() implies (#[trigger] sorted[i]).0 == hit_count(
        sorted[i].1,
        keywords,
    ) by {
        assert(sorted.contains(sorted[i]));
        assert(sorted.to_multiset().count(sorted[i]) > 0);
        assert(pairs.contains(sorted[i]));
        let k = choose|k: int| 0 <= k < pairs.len() && pairs[k] == sorted[i];
        assert(pairs[k].0 == hit_count(pairs[k].1, keywords));
    }
}

/// Without keywords all skills are listed, by name; sorted by name, they stand by
/// source where they have one name.
pub proof fn all_skills_are_listed_by_name(summaries: Seq<SummaryView>)
    ensures
        ({
            let r = ranked(summaries, Seq::empty());
            let s = by_name(summaries, true);
            &&& r.to_multiset() == summaries.to_multiset()
            &&& s.to_multiset() == summaries.to_multiset()
            &&& forall|i: int, j: int|
                0 <= i < j < r.len() ==> lex_le((#[trigger] r[i]).name, (#[trigger] r[j]).name)
            &&& forall|i: int, j: int|
                0 <= i < j < s.len() ==> {
                    let (a, b) = (#[trigger] s[i], #[trigger] s[j]);
                    &&& lex_le(a.name, b.name)
                    &&& a.name == b.name ==> lex_le(a.source, b.source)
                }
        }),
{
    lemma_listed(summaries, false);
    lemma_listed(summaries, true);
}

proof fn lemma_listed(summaries: Seq<SummaryView>, by_source: bool)
    ensures
        ({
            let s = by_name(summaries, by_source);
            &&& s.to_multiset() == summaries.to_multiset()
            &&& forall|i: int, j: int|
                0 <= i < j < s.len() ==> {
                    let (a, b) = (#[trigger] s[i], #[trigger] s[j]);
                    &&& lex_le(a.name, b.name)
                    &&& by_source && a.name == b.name ==> lex_le(a.source, b.source)
                }
        }),
{
    let pairs = unranked(summaries);
    let o = rank_order(by_source);
    let sorted = stable_sorted(pairs, o);
    let s = by_name(summaries, by_source);
    ranking_is_an_order(by_source);
    stable_sorting_sorts(pairs, o);
    lemma_second_multiset(sorted, pairs);
    assert(second(pairs) =~= summaries);
    lemma_unranked(pairs, sorted);
    assert forall|i: int, j: int| 0 <= i < j < s.len() implies {
        let (a, b) = (#[trigger] s[i], #[trigger] s[j]);
        &&& lex_le(a.name, b.name)
        &&& by_source && a.name == b.name ==> lex_le(a.source, b.source)
    } by {
        assert(o(sorted[i], sorted[j]));
        assert(s[i] == sorted[i].1 && s[j] == sorted[j].1);
        dictionary_is_total();
        assert(dictionary()(s[i].name, s[i].name));
    }
}

proof fn lemma_unranked(pairs: Seq<(nat, SummaryView)>, sorted: Seq<(nat, SummaryView)>)
    requires
        sorted.to_multiset() == pairs.to_multiset(),
        forall|i: int| 0 <= i < pairs.len() ==> (#[trigger] pairs[i]).0 == 0,
    ensures
        forall|i: int| 0 <= i < sorted.len() ==> (#[trigger] sorted[i]).0 == 0,
{
    broadcast use group_to_multiset_ensures;

    assert forall|i: int| 0 <= i < sorted.len() implies (#[trigger] sorted[i]).0 == 0 by {
        assert(sorted.contains(sorted[i]));
        assert(sorted.to_multiset().count(sorted[i]) > 0);
        assert(pairs.contains(sorted[i]));
        let k = choose|k: int| 0 <= k < pairs.len() && pairs[k] == sorted[i];
        assert(pairs[k].0 == 0);
    }
}

} // verus!
