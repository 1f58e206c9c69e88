//! The names that skills go by.
use vstd::prelude::*;
use vstd::string::*;

use crate::order::{lemma_filter_last, lemma_filter_none};
use crate::text::{
    ascii_alphanumeric, ascii_lower, ascii_digit, ascii_lowercase_char, ascii_lowercase_text, among,
    chars_of, drop_leading, drop_trailing, first_chars, is_ascii_alphanumeric, join, joined, pieces,
    split_on, take_chars, texts, to_ascii_lowercase, trim, trim_chars, trimmed, trimmed_of,
    white_char, text_of,
};

verus! {

broadcast use vstd::string::group_string_axioms;

/// Letters and digits in lower case, with one dash for each stretch of other
/// characters.
pub open spec fn dashed(s: Seq<char>) -> Seq<char>
    decreases s.len(),
{
    if s.len() == 0 {
        s
    } else {
        let head = dashed(s.drop_last());
        if ascii_alphanumeric(s.last()) {
            head.push(ascii_lowercase_char(s.last()))
        } else if head.len() > 0 && head.last() == '-' {
            head
        } else {
            head.push('-')
        }
    }
}

/// The longest name of a skill.
pub open spec fn name_limit() -> int {
    64
}

/// The name of a skill as it is kept: lower case letters and digits with single
/// dashes between them, at most 64 characters; none where nothing is left.
pub open spec fn normalized_name(raw: Seq<char>) -> Option<Seq<char>> {
    let whole = trimmed_of(dashed(trimmed(raw)), "-"@);
    let short = trimmed_of(first_chars(whole, name_limit()), "-"@);
    if short.len() == 0 {
        None
    } else {
        Some(short)
    }
}

/// What a name is compared by: its normalized form, or where it has none, the
/// name without surrounding white space and in lower case.
pub open spec fn canonical_name_text(name: Seq<char>) -> Seq<char> {
    match normalized_name(name) {
        Some(n) => n,
        None => ascii_lowercase_text(trimmed(name)),
    }
}

pub open spec fn canonical_names(names: Seq<Seq<char>>) -> Seq<Seq<char>> {
    names.map_values(|n: Seq<char>| canonical_name_text(n))
}

/// What an id is compared by: its parts in their canonical form.
pub open spec fn canonical_id_text(id: Seq<char>) -> Seq<char> {
    joined(canonical_names(pieces(id, '/')), "/"@)
}

fn dash(chars: &Vec<char>) -> (r: Vec<char>)
    ensures
        r@ == dashed(chars@),
{
    let mut out: Vec<char> = Vec::new();
    let mut i: usize = 0;
    while i < chars.len()
        invariant
            i <= chars.len(),
            out@ == dashed(chars@.take(i as int)),
        decreases chars.len() - i,
    {
        let c = chars[i];
        assert(chars@.take(i + 1).drop_last() =~= chars@.take(i as int));
        if is_ascii_alphanumeric(c) {
            if 'A' <= c && c <= 'Z' {
                let b: u8 = c as u8;
                out.push((b + 32) as char);
            } else {
                out.push(c);
            }
        } else if out.len() == 0 || out[out.len() - 1] != '-' {
            out.push('-');
        }
        i += 1;
    }
    assert(chars@.take(i as int) =~= chars@);
    out
}

/// The first `limit` characters of a text.
pub fn truncate_chars(value: &str, limit: usize) -> (r: String)
    ensures
        r@ == first_chars(value@, limit as int),
{
    take_chars(value, limit)
}

/// The name of a skill as it is kept.
pub fn normalize_skill_name(raw: &str) -> (r: Option<String>)
    ensures
        match r {
            Some(n) => normalized_name(raw@) == Some(n@),
            None => normalized_name(raw@) is None,
        },
{
    let clean = trim(raw);
    let chars = chars_of(&clean);
    let flat = text_of(&dash(&chars));
    let whole = trim_chars(&flat, "-");
    let short = trim_chars(&truncate_chars(&whole, 64), "-");
    if short.as_str().is_empty() {
        None
    } else {
        Some(short)
    }
}

/// What a name is compared by.
pub fn canonical_name(name: &str) -> (r: String)
    ensures
        r@ == canonical_name_text(name@),
{
    match normalize_skill_name(name) {
        Some(n) => n,
        None => to_ascii_lowercase(&trim(name)),
    }
}

/// What an id is compared by.
pub fn canonical_id(id: &str) -> (r: String)
    ensures
        r@ == canonical_id_text(id@),
{
    let parts = split_on(id, '/');
    let mut names: Vec<String> = Vec::new();
    let mut i: usize = 0;
    let ghost all = texts(parts@);
    while i < parts.len()
        invariant
            i <= parts.len(),
            all == texts(parts@),
            texts(names@) == canonical_names(all.take(i as int)),
        decreases parts.len() - i,
    {
        let ghost before = texts(names@);
        let name = canonical_name(&parts[i]);
        proof {
            let known = all.take(i as int);
            assert(all.take(i + 1) =~= known.push(parts@[i as int]@));
            assert(canonical_names(known.push(parts@[i as int]@)) =~= canonical_names(known).push(
                name@,
            ));
            assert(texts(names@.push(name)) =~= before.push(name@));
        }
        names.push(name);
        i += 1;
    }
    assert(all.take(i as int) =~= all);
    join(&names, "/")
}

// ---------------------------------------------------------------------- laws

/// A character of a kept name.
pub open spec fn name_char(c: char) -> bool {
    ascii_lower(c) || ascii_digit(c) || c == '-'
}

/// Lower case letters and digits with single dashes between them.
pub open spec fn dash_separated(s: Seq<char>) -> bool {
    &&& forall|i: int| 0 <= i < s.len() ==> name_char(#[trigger] s[i])
    &&& forall|i: int, j: int|
        0 <= i < s.len() && j == i + 1 && j < s.len() ==> !(#[trigger] s[i] == '-'
            && #[trigger] s[j] == '-')
}

/// A name as it is kept.
pub open spec fn kept_name(s: Seq<char>) -> bool {
    &&& 1 <= s.len() <= name_limit()
    &&& dash_separated(s)
    &&& s[0] != '-'
    &&& s.last() != '-'
}

proof fn lemma_dashed_shape(s: Seq<char>)
    ensures
        dash_separated(dashed(s)),
    decreases s.len(),
{
    if s.len() > 0 {
        lemma_dashed_shape(s.drop_last());
    }
}

proof fn lemma_shape_of_part(s: Seq<char>, from: int, to: int)
    requires
        dash_separated(s),
        0 <= from <= to <= s.len(),
    ensures
        dash_separated(s.subrange(from, to)),
{
    let t = s.subrange(from, to);
    assert forall|i: int| 0 <= i < t.len() implies name_char(#[trigger] t[i]) by {
        assert(t[i] == s[from + i]);
    }
    assert forall|i: int, j: int|
        0 <= i < t.len() && j == i + 1 && j < t.len() implies !(#[trigger] t[i] == '-'
        && #[trigger] t[j] == '-') by {
        assert(t[i] == s[from + i]);
        assert(t[j] == s[from + i + 1]);
    }
}

/// Trimming dashes leaves a part of the text without a dash at its ends.
proof fn lemma_trimmed_dashes(s: Seq<char>)
    ensures
        ({
            let t = trimmed_of(s, "-"@);
            &&& t.len() <= s.len()
            &&& t.len() > 0 ==> t[0] != '-' && t.last() != '-'
            &&& exists|from: int| 0 <= from <= from + t.len() <= s.len() && t == #[trigger] s.subrange(
                from,
                from + t.len(),
            )
        }),
{
    reveal_strlit("-");
    let p = among("-"@);
    assert(p('-')) by {
        assert("-"@[0] == '-');
    }
    let a = drop_leading(s, p);
    let t = drop_trailing(a, p);
    crate::text::lemma_drop_leading_is_suffix(s, p);
    crate::text::lemma_drop_trailing_is_prefix(a, p);
    crate::text::lemma_drop_leading_edge(s, p);
    crate::text::lemma_drop_trailing_edge(a, p);
    let from = s.len() - a.len();
    assert(t =~= s.subrange(from, from + t.len()));
    if t.len() > 0 {
        assert(t[0] == a[0]);
    }
}

/// A text without a dash at its ends is left as it is.
proof fn lemma_nothing_to_trim(s: Seq<char>)
    requires
        s.len() > 0 ==> s[0] != '-' && s.last() != '-',
    ensures
        trimmed_of(s, "-"@) == s,
{
    reveal_strlit("-");
}

proof fn lemma_dashed_fixed(s: Seq<char>)
    requires
        dash_separated(s),
    ensures
        dashed(s) == s,
    decreases s.len(),
{
    if s.len() > 0 {
        let head = s.drop_last();
        assert(head =~= s.subrange(0, s.len() - 1));
        lemma_shape_of_part(s, 0, s.len() - 1);
        lemma_dashed_fixed(head);
        let c = s.last();
        assert(name_char(s[s.len() - 1]));
        if c == '-' && head.len() > 0 {
            assert(s[s.len() - 2] == head.last());
            assert(s[s.len() - 1] == '-');
        }
        assert(head.push(c) =~= s);
    }
}

proof fn lemma_no_white_to_trim(s: Seq<char>)
    requires
        s.len() > 0 ==> !white_char(s[0]) && !white_char(s.last()),
    ensures
        trimmed(s) == s,
{
}

/// A normalized name is made of lower case letters and digits with single
/// dashes between them, and has at most 64 characters.
pub proof fn normalized_names_are_kept_names(raw: Seq<char>)
    requires
        normalized_name(raw) is Some,
    ensures
        kept_name(normalized_name(raw)->0),
{
    let d = dashed(trimmed(raw));
    lemma_dashed_shape(trimmed(raw));
    lemma_trimmed_dashes(d);
    let whole = trimmed_of(d, "-"@);
    let from = choose|from: int|
        0 <= from <= from + whole.len() <= d.len() && whole == #[trigger] d.subrange(
            from,
            from + whole.len(),
        );
    lemma_shape_of_part(d, from, from + whole.len());
    let cut = first_chars(whole, name_limit());
    assert(cut =~= whole.subrange(0, cut.len() as int));
    lemma_shape_of_part(whole, 0, cut.len() as int);
    lemma_trimmed_dashes(cut);
    let short = trimmed_of(cut, "-"@);
    let start = choose|from: int|
        0 <= from <= from + short.len() <= cut.len() && short == #[trigger] cut.subrange(
            from,
            from + short.len(),
        );
    lemma_shape_of_part(cut, start, start + short.len());
}

/// A kept name is its own normalized form.
pub proof fn kept_names_stay(s: Seq<char>)
    requires
        kept_name(s),
    ensures
        normalized_name(s) == Some(s),
{
    assert(name_char(s[0]));
    assert(name_char(s[s.len() - 1]));
    lemma_no_white_to_trim(s);
    lemma_dashed_fixed(s);
    lemma_nothing_to_trim(s);
}

/// Normalizing a second time changes nothing.
pub proof fn normalizing_is_idempotent(raw: Seq<char>)
    requires
        normalized_name(raw) is Some,
    ensures
        normalized_name(normalized_name(raw)->0) == normalized_name(raw),
{
    normalized_names_are_kept_names(raw);
    kept_names_stay(normalized_name(raw)->0);
}

/// A name keeps its letters and digits, in small letters and in their order; all else
/// becomes hyphens.
pub proof fn names_keep_their_letters(s: Seq<char>)
    ensures
        dashed(s).filter(|c: char| c != '-') == s.filter(
            |c: char| ascii_alphanumeric(c),
        ).map_values(|c: char| ascii_lowercase_char(c)),
    decreases s.len(),
{
    let plain = |c: char| c != '-';
    let kept = |c: char| ascii_alphanumeric(c);
    let small = |c: char| ascii_lowercase_char(c);
    let d = dashed(s);
    if s.len() > 0 {
        let head = dashed(s.drop_last());
        names_keep_their_letters(s.drop_last());
        lemma_filter_last(s, kept);
        if ascii_alphanumeric(s.last()) {
            let c = ascii_lowercase_char(s.last());
            lemma_filter_last(d, plain);
            assert(d.drop_last() =~= head);
            assert(c != '-');
        } else if !(head.len() > 0 && head.last() == '-') {
            lemma_filter_last(d, plain);
            assert(d.drop_last() =~= head);
        }
    } else {
        lemma_filter_none(s, kept);
        lemma_filter_none(d, plain);
    }
    assert(d.filter(plain) =~= s.filter(kept).map_values(small));
}

/// An id is read part by part.
pub proof fn ids_are_read_part_by_part(id: Seq<char>, i: int)
    requires
        0 <= i < pieces(id, '/').len(),
    ensures
        canonical_names(pieces(id, '/')).len() == pieces(id, '/').len(),
        canonical_names(pieces(id, '/'))[i] == canonical_name_text(pieces(id, '/')[i]),
        canonical_id_text(id) == joined(canonical_names(pieces(id, '/')), "/"@),
        !id.contains('/') ==> canonical_id_text(id) == canonical_name_text(id),
{
    if !id.contains('/') {
        let names = canonical_names(pieces(id, '/'));
        assert(names.len() == 1 && names[0] == canonical_name_text(id));
    }
}

} // verus!
