//! Turning a question in natural language into search terms and a pattern.
use vstd::prelude::*;
use vstd::string::*;

use crate::order::{longest_first, longest_first_is_total, sort_texts, LongestFirst};
use crate::text::{
    alphanumeric_char, among, ascii_alphanumeric, ascii_lower, ascii_lowercase_char,
    ascii_lowercase_text, ascii_upper, chars_of, drop_leading, drop_trailing, is_alphanumeric,
    is_ascii_alphanumeric, is_ascii_char, is_ascii_text, join, joined, lemma_drop_leading_edge, lemma_drop_trailing_edge,
    lemma_drop_trailing_is_prefix, lemma_occurs_in_both, list_has, lowercase, lowercase_text,
    occurs, pieces, replace_char, replaced_char, split_on, str_eq, text_range, texts, to_ascii_lowercase, trim_chars, trimmed_of,
    what_is_joined_is_there,
};

verus! {

broadcast use vstd::string::group_string_axioms;

/// `regex::Regex`, a compiled pattern.
#[verifier::external_type_specification]
#[verifier::external_body]
pub struct ExRegex(regex::Regex);

// ------------------------------------------------------------------- classes

/// The scripts that a run of query characters is read in.
#[derive(Clone, Copy, PartialEq, Eq, Structural)]
pub enum Mode {
    Ascii,
    Cjk,
    Other,
}

/// Han, kana and hangul characters, which are written without spaces.
pub open spec fn cjk_like(c: char) -> bool {
    let u = c as u32;
    ||| 0x3400 <= u <= 0x4dbf
    ||| 0x4e00 <= u <= 0x9fff
    ||| 0xf900 <= u <= 0xfaff
    ||| 0x20000 <= u <= 0x2a6df
    ||| 0x2a700 <= u <= 0x2b73f
    ||| 0x2b740 <= u <= 0x2b81f
    ||| 0x2b820 <= u <= 0x2ceaf
    ||| 0x3040 <= u <= 0x30ff
    ||| 0xac00 <= u <= 0xd7af
}

/// The script of a character, if it can be part of a term.
pub open spec fn mode_of(c: char) -> Option<Mode> {
    if cjk_like(c) {
        Some(Mode::Cjk)
    } else if ascii_alphanumeric(c) || c == '-' || c == '_' {
        Some(Mode::Ascii)
    } else if alphanumeric_char(c) {
        Some(Mode::Other)
    } else {
        None
    }
}

/// The words that carry no meaning of their own in a query.
pub open spec fn ascii_stopword(s: Seq<char>) -> bool {
    ||| s == "a"@
    ||| s == "an"@
    ||| s == "and"@
    ||| s == "are"@
    ||| s == "as"@
    ||| s == "at"@
    ||| s == "be"@
    ||| s == "by"@
    ||| s == "can"@
    ||| s == "could"@
    ||| s == "did"@
    ||| s == "do"@
    ||| s == "does"@
    ||| s == "for"@
    ||| s == "from"@
    ||| s == "had"@
    ||| s == "has"@
    ||| s == "have"@
    ||| s == "how"@
    ||| s == "i"@
    ||| s == "in"@
    ||| s == "is"@
    ||| s == "it"@
    ||| s == "me"@
    ||| s == "my"@
    ||| s == "of"@
    ||| s == "on"@
    ||| s == "or"@
    ||| s == "that"@
    ||| s == "the"@
    ||| s == "this"@
    ||| s == "to"@
    ||| s == "was"@
    ||| s == "were"@
    ||| s == "what"@
    ||| s == "when"@
    ||| s == "where"@
    ||| s == "which"@
    ||| s == "who"@
    ||| s == "why"@
    ||| s == "with"@
    ||| s == "you"@
    ||| s == "your"@
}

pub fn is_cjk_like(ch: char) -> (r: bool)
    ensures
        r == cjk_like(ch),
{
    let u: u32 = ch as u32;
    (0x3400 <= u && u <= 0x4dbf) || (0x4e00 <= u && u <= 0x9fff) || (0xf900 <= u && u <= 0xfaff)
        || (0x20000 <= u && u <= 0x2a6df) || (0x2a700 <= u && u <= 0x2b73f) || (0x2b740 <= u && u
        <= 0x2b81f) || (0x2b820 <= u && u <= 0x2ceaf) || (0x3040 <= u && u <= 0x30ff) || (0xac00
        <= u && u <= 0xd7af)
}

pub fn is_ascii_stopword(term: &str) -> (r: bool)
    ensures
        r == ascii_stopword(term@),
{
    str_eq(term, "a")
        || str_eq(term, "an")
        || str_eq(term, "and")
        || str_eq(term, "are")
        || str_eq(term, "as")
        || str_eq(term, "at")
        || str_eq(term, "be")
        || str_eq(term, "by")
        || str_eq(term, "can")
        || str_eq(term, "could")
        || str_eq(term, "did")
        || str_eq(term, "do")
        || str_eq(term, "does")
        || str_eq(term, "for")
        || str_eq(term, "from")
        || str_eq(term, "had")
        || str_eq(term, "has")
        || str_eq(term, "have")
        || str_eq(term, "how")
        || str_eq(term, "i")
        || str_eq(term, "in")
        || str_eq(term, "is")
        || str_eq(term, "it")
        || str_eq(term, "me")
        || str_eq(term, "my")
        || str_eq(term, "of")
        || str_eq(term, "on")
        || str_eq(term, "or")
        || str_eq(term, "that")
        || str_eq(term, "the")
        || str_eq(term, "this")
        || str_eq(term, "to")
        || str_eq(term, "was")
        || str_eq(term, "were")
        || str_eq(term, "what")
        || str_eq(term, "when")
        || str_eq(term, "where")
        || str_eq(term, "which")
        || str_eq(term, "who")
        || str_eq(term, "why")
        || str_eq(term, "with")
        || str_eq(term, "you")
        || str_eq(term, "your")
}

fn char_mode(c: char) -> (r: Option<Mode>)
    ensures
        r == mode_of(c),
        r == Some(Mode::Other) ==> !is_ascii_char(c),
{
    if is_cjk_like(c) {
        Some(Mode::Cjk)
    } else if is_ascii_alphanumeric(c) || c == '-' || c == '_' {
        Some(Mode::Ascii)
    } else if is_alphanumeric(c) {
        Some(Mode::Other)
    } else {
        None
    }
}

// --------------------------------------------------------------------- terms

/// The candidates of `list` that are long enough and no stop word.
pub open spec fn ascii_candidates(list: Seq<Seq<char>>) -> Seq<Seq<char>>
    decreases list.len(),
{
    if list.len() == 0 {
        list
    } else {
        let head = ascii_candidates(list.drop_last());
        if list.last().len() >= 2 && !ascii_stopword(list.last()) {
            head.push(list.last())
        } else {
            head
        }
    }
}

/// An ASCII word in lower case, without dashes and underscores at its ends.
pub open spec fn ascii_word(raw: Seq<char>) -> Seq<char> {
    ascii_lowercase_text(trimmed_of(raw, "-_"@))
}

/// The parts of a word between dashes and underscores.
pub open spec fn word_parts(word: Seq<char>) -> Seq<Seq<char>> {
    pieces(replaced_char(word, '_', '-'), '-')
}

/// All stretches of `width` characters, from left to right.
pub open spec fn windows(raw: Seq<char>, width: nat) -> Seq<Seq<char>> {
    if raw.len() < width {
        Seq::empty()
    } else {
        Seq::new((raw.len() - width + 1) as nat, |i: int| raw.subrange(i, i + width))
    }
}

/// The terms of a run of characters of one script.
pub open spec fn run_terms(mode: Mode, raw: Seq<char>) -> Seq<Seq<char>> {
    match mode {
        Mode::Ascii => ascii_candidates(seq![ascii_word(raw)] + word_parts(ascii_word(raw))),
        Mode::Cjk => if raw.len() <= 2 {
            seq![raw]
        } else {
            windows(raw, 3) + windows(raw, 2)
        },
        Mode::Other => if lowercase_text(raw).len() >= 2 {
            seq![lowercase_text(raw)]
        } else {
            Seq::empty()
        },
    }
}

/// How many characters from the start of `s` are of the script `mode`.
pub open spec fn run_len(s: Seq<char>, mode: Mode) -> nat
    decreases s.len(),
{
    if s.len() > 0 && mode_of(s[0]) == Some(mode) {
        1 + run_len(s.drop_first(), mode)
    } else {
        0
    }
}

proof fn lemma_run_len(s: Seq<char>, mode: Mode, k: int)
    requires
        0 <= k <= s.len(),
        forall|i: int| 0 <= i < k ==> mode_of(#[trigger] s[i]) == Some(mode),
        k < s.len() ==> mode_of(s[k]) != Some(mode),
    ensures
        run_len(s, mode) == k,
    decreases s.len(),
{
    if k > 0 {
        let t = s.drop_first();
        assert forall|i: int| 0 <= i < k - 1 implies mode_of(#[trigger] t[i]) == Some(mode) by {
            assert(t[i] == s[i + 1]);
        }
        lemma_run_len(t, mode, k - 1);
    }
}

/// The terms of a query in the order in which they stand in it: those of each
/// longest run of characters of one script, from left to right.
pub open spec fn raw_terms(s: Seq<char>) -> Seq<Seq<char>>
    decreases s.len(),
{
    if s.len() == 0 {
        Seq::empty()
    } else {
        match mode_of(s[0]) {
            None => raw_terms(s.drop_first()),
            Some(mode) => {
                let k = run_len(s, mode) as int;
                if 0 < k <= s.len() {
                    run_terms(mode, s.take(k)) + raw_terms(s.skip(k))
                } else {
                    Seq::empty()
                }
            },
        }
    }
}

/// `terms` with `x` behind it, unless `x` is empty or already there.
pub open spec fn push_new(terms: Seq<Seq<char>>, x: Seq<char>) -> Seq<Seq<char>> {
    if x.len() == 0 || terms.contains(x) {
        terms
    } else {
        terms.push(x)
    }
}

/// `terms` with each of `xs` added in turn.
pub open spec fn push_all(terms: Seq<Seq<char>>, xs: Seq<Seq<char>>) -> Seq<Seq<char>>
    decreases xs.len(),
{
    if xs.len() == 0 {
        terms
    } else {
        push_new(push_all(terms, xs.drop_last()), xs.last())
    }
}

/// The search terms of a query: what its runs give, each once, in the order of
/// their first occurrence.
pub open spec fn search_terms(query: Seq<char>) -> Seq<Seq<char>> {
    push_all(Seq::empty(), raw_terms(query))
}

proof fn lemma_push_all_add(terms: Seq<Seq<char>>, xs: Seq<Seq<char>>, ys: Seq<Seq<char>>)
    ensures
        push_all(terms, xs + ys) == push_all(push_all(terms, xs), ys),
    decreases ys.len(),
{
    if ys.len() == 0 {
        assert(xs + ys =~= xs);
    } else {
        lemma_push_all_add(terms, xs, ys.drop_last());
        assert((xs + ys).drop_last() =~= xs + ys.drop_last());
        assert((xs + ys).last() == ys.last());
    }
}

proof fn lemma_push_all_distinct(terms: Seq<Seq<char>>, xs: Seq<Seq<char>>)
    requires
        terms.no_duplicates(),
        forall|i: int| 0 <= i < terms.len() ==> (#[trigger] terms[i]).len() > 0,
    ensures
        push_all(terms, xs).no_duplicates(),
        forall|i: int|
            0 <= i < push_all(terms, xs).len() ==> (#[trigger] push_all(terms, xs)[i]).len() > 0,
    decreases xs.len(),
{
    if xs.len() > 0 {
        lemma_push_all_distinct(terms, xs.drop_last());
    }
}

/// No search term is empty, and none occurs twice.
pub proof fn search_terms_are_distinct(query: Seq<char>)
    ensures
        search_terms(query).no_duplicates(),
        forall|i: int|
            0 <= i < search_terms(query).len() ==> (#[trigger] search_terms(query)[i]).len() > 0,
{
    lemma_push_all_distinct(Seq::empty(), raw_terms(query));
}

// ---------------------------------------------------------------------- laws

/// A term that is an ASCII word: of two characters or more, in lower case,
/// without dashes and underscores at its ends, and no stop word.
pub open spec fn shaped_word(t: Seq<char>) -> bool {
    &&& t.len() >= 2
    &&& forall|i: int| 0 <= i < t.len() ==> !ascii_upper(#[trigger] t[i])
    &&& t[0] != '-' && t[0] != '_'
    &&& t.last() != '-' && t.last() != '_'
    &&& !ascii_stopword(t)
}

spec fn term_shaped(t: Seq<char>) -> bool {
    t.len() > 0 && is_ascii_text(t) ==> shaped_word(t)
}

spec fn all_shaped(terms: Seq<Seq<char>>) -> bool {
    forall|i: int| 0 <= i < terms.len() ==> term_shaped(#[trigger] terms[i])
}

proof fn lemma_pieces_chars(s: Seq<char>, sep: char)
    ensures
        forall|i: int, j: int|
            0 <= i < pieces(s, sep).len() && 0 <= j < pieces(s, sep)[i].len()
                ==> #[trigger] pieces(s, sep)[i][j] != sep && s.contains(pieces(s, sep)[i][j]),
    decreases s.len(),
{
    let all = pieces(s, sep);
    if s.contains(sep) {
        s.index_of_first_ensures(sep);
        let k = s.index_of_first(sep)->0;
        let rest = s.skip(k + 1);
        lemma_pieces_chars(rest, sep);
        assert forall|i: int, j: int| 0 <= i < all.len() && 0 <= j < all[i].len() implies
            #[trigger] all[i][j] != sep && s.contains(all[i][j]) by {
            if i == 0 {
                assert(all[0] == s.take(k));
                assert(s[j] == all[0][j]);
            } else {
                assert(all[i] == pieces(rest, sep)[i - 1]);
                let c = pieces(rest, sep)[i - 1][j];
                assert(rest.contains(c));
                let n = choose|n: int| 0 <= n < rest.len() && rest[n] == c;
                assert(s[n + k + 1] == c);
            }
        }
    } else {
        assert forall|i: int, j: int| 0 <= i < all.len() && 0 <= j < all[i].len() implies
            #[trigger] all[i][j] != sep && s.contains(all[i][j]) by {
            assert(all[i] == s);
            assert(s[j] == all[i][j]);
        }
    }
}

proof fn lemma_candidates_are_listed(list: Seq<Seq<char>>)
    ensures
        forall|i: int|
            0 <= i < ascii_candidates(list).len() ==> {
                &&& list.contains(#[trigger] ascii_candidates(list)[i])
                &&& ascii_candidates(list)[i].len() >= 2
                &&& !ascii_stopword(ascii_candidates(list)[i])
            },
    decreases list.len(),
{
    if list.len() > 0 {
        let head = list.drop_last();
        lemma_candidates_are_listed(head);
        let all = ascii_candidates(list);
        assert forall|i: int| 0 <= i < all.len() implies {
            &&& list.contains(#[trigger] all[i])
            &&& all[i].len() >= 2
            &&& !ascii_stopword(all[i])
        } by {
            if i < ascii_candidates(head).len() {
                assert(all[i] == ascii_candidates(head)[i]);
                let k = choose|k: int| 0 <= k < head.len() && head[k] == all[i];
                assert(list[k] == all[i]);
            } else {
                assert(list[list.len() - 1] == all[i]);
            }
        }
    }
}

proof fn lemma_lowered_char(c: char)
    ensures
        !ascii_upper(ascii_lowercase_char(c)),
        ascii_lowercase_char(c) == '-' <==> c == '-',
        ascii_lowercase_char(c) == '_' <==> c == '_',
{
    if ascii_upper(c) {
        assert(('A' as u32) + 32 <= (c as u32 + 32) as u32 <= ('Z' as u32) + 32);
    }
}

proof fn lemma_word_shape(raw: Seq<char>)
    ensures
        ({
            let word = ascii_word(raw);
            &&& forall|i: int| 0 <= i < word.len() ==> !ascii_upper(#[trigger] word[i])
            &&& word.len() > 0 ==> word[0] != '-' && word[0] != '_' && word.last() != '-'
                && word.last() != '_'
        }),
{
    let edge = among("-_"@);
    let open = drop_leading(raw, edge);
    let bare = trimmed_of(raw, "-_"@);
    let word = ascii_word(raw);
    lemma_drop_leading_edge(raw, edge);
    lemma_drop_trailing_edge(open, edge);
    lemma_drop_trailing_is_prefix(open, edge);
    assert forall|i: int| 0 <= i < word.len() implies !ascii_upper(#[trigger] word[i]) by {
        lemma_lowered_char(bare[i]);
    }
    if word.len() > 0 {
        reveal_strlit("-_");
        assert("-_"@[0] == '-' && "-_"@[1] == '_');
        assert(bare[0] == open[0]);
        assert(!edge(bare[0]) && !edge(bare.last()));
        lemma_lowered_char(bare[0]);
        lemma_lowered_char(bare.last());
    }
}

proof fn lemma_ascii_run_shaped(raw: Seq<char>)
    ensures
        all_shaped(run_terms(Mode::Ascii, raw)),
{
    let word = ascii_word(raw);
    let flat = replaced_char(word, '_', '-');
    let parts = word_parts(word);
    let list = seq![word] + parts;
    let terms = ascii_candidates(list);
    lemma_candidates_are_listed(list);
    lemma_word_shape(raw);
    lemma_pieces_chars(flat, '-');
    assert forall|i: int| 0 <= i < terms.len() implies term_shaped(#[trigger] terms[i]) by {
        let t = terms[i];
        let k = choose|k: int| 0 <= k < list.len() && list[k] == t;
        if k > 0 {
            assert(parts[k - 1] == t);
            assert forall|j: int| 0 <= j < t.len() implies !ascii_upper(#[trigger] t[j]) && t[j]
                != '-' && t[j] != '_' by {
                assert(pieces(flat, '-')[k - 1][j] == t[j]);
                let n = choose|n: int| 0 <= n < flat.len() && flat[n] == t[j];
                assert(flat[n] == if word[n] == '_' {
                    '-'
                } else {
                    word[n]
                });
            }
            assert(!ascii_upper(t[0]) && t[0] != '-');
            assert(!ascii_upper(t[t.len() - 1]) && t[t.len() - 1] != '-');
        }
        assert(shaped_word(t));
    }
}

proof fn lemma_cjk_run_shaped(raw: Seq<char>)
    requires
        raw.len() > 0,
        forall|i: int| 0 <= i < raw.len() ==> cjk_like(#[trigger] raw[i]),
    ensures
        all_shaped(run_terms(Mode::Cjk, raw)),
{
    let terms = run_terms(Mode::Cjk, raw);
    assert forall|i: int| 0 <= i < terms.len() implies term_shaped(#[trigger] terms[i]) by {
        let t = terms[i];
        if raw.len() > 2 {
            let n = windows(raw, 3).len();
            let (at, width) = if i < n {
                (i, 3int)
            } else {
                (i - n, 2int)
            };
            assert(t == raw.subrange(at, at + width));
            assert(t[0] == raw[at]);
        }
        assert(cjk_like(t[0]));
        assert(!is_ascii_char(t[0]));
    }
}

proof fn lemma_k_word(t: Seq<char>)
    requires
        t.len() >= 2,
        forall|i: int| 0 <= i < t.len() ==> (#[trigger] t[i]) == 'k',
    ensures
        shaped_word(t),
{
    assert(t[0] == 'k' && t[t.len() - 1] == 'k');
    reveal_strlit("a");
    reveal_strlit("i");
    reveal_strlit("an");
    reveal_strlit("and");
    reveal_strlit("are");
    reveal_strlit("as");
    reveal_strlit("at");
    reveal_strlit("be");
    reveal_strlit("by");
    reveal_strlit("can");
    reveal_strlit("could");
    reveal_strlit("did");
    reveal_strlit("do");
    reveal_strlit("does");
    reveal_strlit("for");
    reveal_strlit("from");
    reveal_strlit("had");
    reveal_strlit("has");
    reveal_strlit("have");
    reveal_strlit("how");
    reveal_strlit("in");
    reveal_strlit("is");
    reveal_strlit("it");
    reveal_strlit("me");
    reveal_strlit("my");
    reveal_strlit("of");
    reveal_strlit("on");
    reveal_strlit("or");
    reveal_strlit("that");
    reveal_strlit("the");
    reveal_strlit("this");
    reveal_strlit("to");
    reveal_strlit("was");
    reveal_strlit("were");
    reveal_strlit("what");
    reveal_strlit("when");
    reveal_strlit("where");
    reveal_strlit("which");
    reveal_strlit("who");
    reveal_strlit("why");
    reveal_strlit("with");
    reveal_strlit("you");
    reveal_strlit("your");
}

proof fn lemma_run_modes(s: Seq<char>, mode: Mode)
    ensures
        run_len(s, mode) <= s.len(),
        forall|i: int| 0 <= i < run_len(s, mode) ==> mode_of(#[trigger] s[i]) == Some(mode),
    decreases s.len(),
{
    if s.len() > 0 && mode_of(s[0]) == Some(mode) {
        let t = s.drop_first();
        lemma_run_modes(t, mode);
        assert forall|i: int| 0 <= i < run_len(s, mode) implies mode_of(#[trigger] s[i]) == Some(
            mode,
        ) by {
            if i > 0 {
                assert(t[i - 1] == s[i]);
            }
        }
    }
}

proof fn lemma_push_all_shaped(terms: Seq<Seq<char>>, xs: Seq<Seq<char>>)
    requires
        all_shaped(terms),
        all_shaped(xs),
    ensures
        all_shaped(push_all(terms, xs)),
    decreases xs.len(),
{
    if xs.len() > 0 {
        assert forall|i: int| 0 <= i < xs.drop_last().len() implies term_shaped(
            #[trigger] xs.drop_last()[i],
        ) by {
            assert(term_shaped(xs[i]));
        }
        assert(term_shaped(xs[xs.len() - 1]));
        lemma_push_all_shaped(terms, xs.drop_last());
    }
}

pub open spec fn ascii_uppercase_char(c: char) -> char {
    if ascii_lower(c) {
        (c as u32 - 32) as char
    } else {
        c
    }
}

/// A text with its ASCII letters in upper case.
pub open spec fn ascii_uppercase_text(s: Seq<char>) -> Seq<char> {
    s.map_values(|c: char| ascii_uppercase_char(c))
}

proof fn lemma_raised_char(c: char)
    ensures
        mode_of(ascii_uppercase_char(c)) == mode_of(c),
        ascii_lowercase_char(ascii_uppercase_char(c)) == ascii_lowercase_char(c),
        mode_of(c) != Some(Mode::Ascii) ==> ascii_uppercase_char(c) == c,
        among("-_"@)(ascii_uppercase_char(c)) == among("-_"@)(c),
{
    reveal_strlit("-_");
    if ascii_lower(c) {
        let u = ascii_uppercase_char(c);
        assert('A' as u32 <= (c as u32 - 32) as u32 <= 'Z' as u32);
        assert(ascii_upper(u));
        assert(!"-_"@.contains(u) && !"-_"@.contains(c)) by {
            assert("-_"@[0] == '-' && "-_"@[1] == '_');
            assert("-_"@.len() == 2);
        }
    }
}

proof fn lemma_raised_edges(s: Seq<char>)
    ensures
        drop_leading(ascii_uppercase_text(s), among("-_"@)) == ascii_uppercase_text(
            drop_leading(s, among("-_"@)),
        ),
        drop_trailing(ascii_uppercase_text(s), among("-_"@)) == ascii_uppercase_text(
            drop_trailing(s, among("-_"@)),
        ),
    decreases s.len(),
{
    let raised = ascii_uppercase_text(s);
    if s.len() > 0 {
        lemma_raised_char(s[0]);
        lemma_raised_char(s.last());
        lemma_raised_edges(s.drop_first());
        lemma_raised_edges(s.drop_last());
        assert(raised.drop_first() =~= ascii_uppercase_text(s.drop_first()));
        assert(raised.drop_last() =~= ascii_uppercase_text(s.drop_last()));
        assert(raised[0] == ascii_uppercase_char(s[0]));
        assert(raised.last() == ascii_uppercase_char(s.last()));
    }
}

proof fn lemma_raised_run(mode: Mode, raw: Seq<char>)
    requires
        forall|i: int| 0 <= i < raw.len() ==> mode_of(#[trigger] raw[i]) == Some(mode),
    ensures
        run_terms(mode, ascii_uppercase_text(raw)) == run_terms(mode, raw),
{
    let raised = ascii_uppercase_text(raw);
    if mode == Mode::Ascii {
        let open = drop_leading(raw, among("-_"@));
        lemma_raised_edges(raw);
        lemma_raised_edges(open);
        let bare = trimmed_of(raw, "-_"@);
        assert(trimmed_of(raised, "-_"@) == ascii_uppercase_text(bare));
        assert(ascii_word(raised) =~= ascii_word(raw)) by {
            assert forall|i: int| 0 <= i < bare.len() implies ascii_word(raised)[i] == ascii_word(
                raw,
            )[i] by {
                lemma_raised_char(bare[i]);
            }
        }
    } else {
        assert(raised =~= raw) by {
            assert forall|i: int| 0 <= i < raw.len() implies raised[i] == raw[i] by {
                lemma_raised_char(raw[i]);
                assert(mode_of(raw[i]) == Some(mode));
            }
        }
    }
}

proof fn lemma_raised_run_len(s: Seq<char>, mode: Mode)
    ensures
        run_len(ascii_uppercase_text(s), mode) == run_len(s, mode),
    decreases s.len(),
{
    if s.len() > 0 {
        lemma_raised_char(s[0]);
        lemma_raised_run_len(s.drop_first(), mode);
        assert(ascii_uppercase_text(s).drop_first() =~= ascii_uppercase_text(s.drop_first()));
    }
}

proof fn lemma_raised_terms(s: Seq<char>)
    ensures
        raw_terms(ascii_uppercase_text(s)) == raw_terms(s),
    decreases s.len(),
{
    let raised = ascii_uppercase_text(s);
    if s.len() > 0 {
        lemma_raised_char(s[0]);
        assert(raised[0] == ascii_uppercase_char(s[0]));
        match mode_of(s[0]) {
            None => {
                lemma_raised_terms(s.drop_first());
                assert(raised.drop_first() =~= ascii_uppercase_text(s.drop_first()));
            },
            Some(mode) => {
                let k = run_len(s, mode) as int;
                lemma_run_modes(s, mode);
                lemma_raised_run_len(s, mode);
                if 0 < k <= s.len() {
                    assert forall|i: int| 0 <= i < k implies mode_of(#[trigger] s.take(k)[i])
                        == Some(mode) by {
                        assert(s[i] == s.take(k)[i]);
                    }
                    assert(raised.take(k) =~= ascii_uppercase_text(s.take(k)));
                    assert(raised.skip(k) =~= ascii_uppercase_text(s.skip(k)));
                    lemma_raised_run(mode, s.take(k));
                    lemma_raised_terms(s.skip(k));
                }
            },
        }
    }
}

/// Writing the ASCII letters of a query in upper case changes no search term.
pub proof fn case_changes_no_term(query: Seq<char>)
    ensures
        search_terms(ascii_uppercase_text(query)) == search_terms(query),
{
    lemma_raised_terms(query);
}

fn push_term(term: String, terms: &mut Vec<String>)
    ensures
        texts(final(terms)@) == push_new(texts(old(terms)@), term@),
{
    if !term.as_str().is_empty() && !list_has(terms, &term) {
        let ghost before = texts(terms@);
        let ghost added = term@;
        terms.push(term);
        assert(texts(terms@) =~= before.push(added));
    }
}

fn push_ascii_candidate(candidate: &String, terms: &mut Vec<String>)
    ensures
        texts(final(terms)@) == push_all(
            texts(old(terms)@),
            ascii_candidates(seq![candidate@]),
        ),
{
    proof {
        let one = seq![candidate@];
        assert(one.drop_last() =~= Seq::<Seq<char>>::empty());
        assert(one.last() == candidate@);
        assert(Seq::<Seq<char>>::empty().push(candidate@).drop_last() =~= Seq::<
            Seq<char>,
        >::empty());
        reveal_with_fuel(push_all, 2);
        reveal_with_fuel(ascii_candidates, 2);
    }
    if candidate.as_str().unicode_len() >= 2 && !is_ascii_stopword(candidate) {
        push_term(candidate.clone(), terms);
    }
}

proof fn lemma_ascii_candidates_add(xs: Seq<Seq<char>>, ys: Seq<Seq<char>>)
    ensures
        ascii_candidates(xs + ys) == ascii_candidates(xs) + ascii_candidates(ys),
    decreases ys.len(),
{
    if ys.len() == 0 {
        assert(xs + ys =~= xs);
        assert(ascii_candidates(xs) + ascii_candidates(ys) =~= ascii_candidates(xs));
    } else {
        lemma_ascii_candidates_add(xs, ys.drop_last());
        assert((xs + ys).drop_last() =~= xs + ys.drop_last());
        assert(ascii_candidates(xs + ys) =~= ascii_candidates(xs) + ascii_candidates(ys));
    }
}

fn push_ascii_terms(raw: &str, terms: &mut Vec<String>)
    ensures
        texts(final(terms)@) == push_all(texts(old(terms)@), run_terms(Mode::Ascii, raw@)),
{
    let ghost before = texts(terms@);
    let trimmed = trim_chars(raw, "-_");
    let word = to_ascii_lowercase(&trimmed);
    push_ascii_candidate(&word, terms);
    let flat = replace_char(&word, '_', '-');
    let parts = split_on(&flat, '-');
    let ghost all = seq![word@] + texts(parts@);
    let mut i: usize = 0;
    proof {
        assert(all.take(1) =~= seq![word@]);
    }
    while i < parts.len()
        invariant
            i <= parts.len(),
            all == seq![word@] + texts(parts@),
            texts(terms@) == push_all(before, ascii_candidates(all.take(i + 1))),
        decreases parts.len() - i,
    {
        let ghost mid = texts(terms@);
        push_ascii_candidate(&parts[i], terms);
        proof {
            assert(all.take(i + 2) =~= all.take(i + 1) + seq![parts@[i as int]@]);
            lemma_ascii_candidates_add(all.take(i + 1), seq![parts@[i as int]@]);
            lemma_push_all_add(
                before,
                ascii_candidates(all.take(i + 1)),
                ascii_candidates(seq![parts@[i as int]@]),
            );
        }
        i += 1;
    }
    proof {
        assert(all.take(i + 1) =~= all);
    }
}

fn push_windows(chars: &Vec<char>, width: usize, terms: &mut Vec<String>)
    requires
        1 <= width <= chars.len(),
    ensures
        texts(final(terms)@) == push_all(texts(old(terms)@), windows(chars@, width as nat)),
{
    let ghost before = texts(terms@);
    let ghost all = windows(chars@, width as nat);
    let mut i: usize = 0;
    assert(all.take(0) =~= Seq::<Seq<char>>::empty());
    while i <= chars.len() - width
        invariant
            1 <= width <= chars.len(),
            i <= chars.len() - width + 1,
            all == windows(chars@, width as nat),
            texts(terms@) == push_all(before, all.take(i as int)),
        decreases chars.len() - i,
    {
        push_term(text_range(chars, i, i + width), terms);
        proof {
            assert(all.take(i + 1).drop_last() =~= all.take(i as int));
            assert(all.take(i + 1).last() == chars@.subrange(i as int, i + width));
        }
        i += 1;
    }
    assert(all.take(i as int) =~= all);
}

fn push_cjk_terms(raw: &str, terms: &mut Vec<String>)
    requires
        raw@.len() > 0,
    ensures
        texts(final(terms)@) == push_all(texts(old(terms)@), run_terms(Mode::Cjk, raw@)),
{
    let ghost before = texts(terms@);
    let chars = chars_of(raw);
    if chars.len() <= 2 {
        push_term(raw.to_owned(), terms);
        proof {
            let one = seq![raw@];
            assert(one.drop_last() =~= Seq::<Seq<char>>::empty());
            reveal_with_fuel(push_all, 2);
        }
    } else {
        push_windows(&chars, 3, terms);
        push_windows(&chars, 2, terms);
        proof {
            lemma_push_all_add(before, windows(raw@, 3), windows(raw@, 2));
        }
    }
}

fn push_generic_term(raw: &str, terms: &mut Vec<String>)
    requires
        forall|i: int| 0 <= i < raw@.len() ==> !is_ascii_char(#[trigger] raw@[i]),
    ensures
        texts(final(terms)@) == push_all(texts(old(terms)@), run_terms(Mode::Other, raw@)),
        all_shaped(run_terms(Mode::Other, raw@)),
{
    let normalized = lowercase(raw);
    proof {
        if normalized@.len() >= 2 && is_ascii_text(normalized@) {
            lemma_k_word(normalized@);
        }
        let one = seq![normalized@];
        assert(one.drop_last() =~= Seq::<Seq<char>>::empty());
        reveal_with_fuel(push_all, 2);
    }
    if normalized.as_str().unicode_len() >= 2 {
        push_term(normalized, terms);
    }
}

/// The search terms of a query. Every term in ASCII is a word of two characters
/// or more, in lower case, without dashes and underscores at its ends, and no stop
/// word.
pub fn tokenize_search_query(query: &str) -> (r: Vec<String>)
    ensures
        texts(r@) == search_terms(query@),
        forall|i: int|
            0 <= i < r@.len() && is_ascii_text(#[trigger] texts(r@)[i]) ==> shaped_word(
                texts(r@)[i],
            ),
{
    let chars = chars_of(query);
    let mut terms: Vec<String> = Vec::new();
    let mut i: usize = 0;
    let ghost mut done: Seq<Seq<char>> = Seq::empty();
    proof {
        assert(chars@.skip(0) =~= query@);
        assert(done + raw_terms(query@) =~= raw_terms(query@));
        assert(texts(terms@) =~= Seq::<Seq<char>>::empty());
    }
    while i < chars.len()
        invariant
            i <= chars.len(),
            chars@ == query@,
            texts(terms@) == push_all(Seq::empty(), done),
            all_shaped(done),
            done + raw_terms(chars@.skip(i as int)) == raw_terms(query@),
        decreases chars.len() - i,
    {
        let ghost rest = chars@.skip(i as int);
        match char_mode(chars[i]) {
            None => {
                assert(rest.drop_first() =~= chars@.skip(i + 1));
                i += 1;
            },
            Some(mode) => {
                let mut j: usize = i + 1;
                while j < chars.len() && char_mode(chars[j]) == Some(mode)
                    invariant
                        i < j <= chars.len(),
                        forall|k: int|
                            i <= k < j ==> mode_of(#[trigger] chars@[k]) == Some(mode),
                        mode == Mode::Other ==> forall|k: int|
                            i <= k < j ==> !is_ascii_char(#[trigger] chars@[k]),
                    decreases chars.len() - j,
                {
                    j += 1;
                }
                let raw = text_range(&chars, i, j);
                proof {
                    assert forall|k: int| 0 <= k < j - i implies mode_of(#[trigger] rest[k])
                        == Some(mode) by {
                        assert(rest[k] == chars@[i + k]);
                    }
                    if j < chars.len() {
                        assert(rest[j - i] == chars@[j as int]);
                    }
                    lemma_run_len(rest, mode, j - i);
                    assert(rest.take(j - i) =~= raw@);
                    assert(rest.skip(j - i) =~= chars@.skip(j as int));
                    lemma_push_all_add(Seq::empty(), done, run_terms(mode, raw@));
                    assert(done + raw_terms(rest) =~= (done + run_terms(mode, raw@)) + raw_terms(
                        chars@.skip(j as int),
                    ));
                }
                match mode {
                    Mode::Ascii => {
                        push_ascii_terms(&raw, &mut terms);
                        proof {
                            lemma_ascii_run_shaped(raw@);
                        }
                    },
                    Mode::Cjk => {
                        push_cjk_terms(&raw, &mut terms);
                        proof {
                            assert forall|k: int| 0 <= k < raw@.len() implies cjk_like(
                                #[trigger] raw@[k],
                            ) by {
                                assert(mode_of(chars@[i + k]) == Some(mode));
                            }
                            lemma_cjk_run_shaped(raw@);
                        }
                    },
                    Mode::Other => {
                        assert forall|k: int| 0 <= k < raw@.len() implies !is_ascii_char(
                            #[trigger] raw@[k],
                        ) by {
                            assert(!is_ascii_char(chars@[i + k]));
                        }
                        push_generic_term(&raw, &mut terms);
                    },
                }
                proof {
                    let more = run_terms(mode, raw@);
                    assert forall|k: int| 0 <= k < (done + more).len() implies term_shaped(
                        #[trigger] (done + more)[k],
                    ) by {
                        if k < done.len() {
                            assert(term_shaped(done[k]));
                        } else {
                            assert(term_shaped(more[k - done.len()]));
                        }
                    }
                    done = done + more;
                }
                i = j;
            },
        }
    }
    proof {
        assert(done + raw_terms(chars@.skip(i as int)) =~= done);
        lemma_push_all_shaped(Seq::empty(), done);
        search_terms_are_distinct(query@);
        assert forall|k: int|
            0 <= k < terms@.len() && is_ascii_text(#[trigger] texts(terms@)[k]) implies shaped_word(
            texts(terms@)[k],
        ) by {
            assert(term_shaped(search_terms(query@)[k]));
        }
    }
    terms
}

// ------------------------------------------------------------------- pattern

/// The characters that mean something in a pattern.
pub open spec fn meta_char(c: char) -> bool {
    "\\.+*?()|[]{}^$#&-~"@.contains(c)
}

/// A text as a pattern that matches only that text.
pub open spec fn escaped_text(s: Seq<char>) -> Seq<char>
    decreases s.len(),
{
    if s.len() == 0 {
        s
    } else if meta_char(s.last()) {
        escaped_text(s.drop_last()).push('\\').push(s.last())
    } else {
        escaped_text(s.drop_last()).push(s.last())
    }
}

/// `regex::escape`: the text with a backslash before each character that has a
/// meaning in a pattern.
#[verifier::external_body]
fn escape_pattern(s: &str) -> (r: String)
    ensures
        r@ == escaped_text(s@),
{
    regex::escape(s)
}

/// Whether `Regex::new` accepts a text as a pattern.
pub uninterp spec fn pattern_compiles(pattern: Seq<char>) -> bool;

/// The pattern that a `Regex` was made from, which `Regex::as_str` hands out.
pub uninterp spec fn regex_pattern(r: regex::Regex) -> Seq<char>;

/// `Regex::new`, which fails on a text that is no pattern or whose program is
/// too large; it depends on the text alone, and keeps the text it was made from.
#[verifier::external_body]
fn compile_pattern(pattern: &str) -> (r: Option<regex::Regex>)
    ensures
        r.is_some() == pattern_compiles(pattern@),
        r matches Some(re) ==> regex_pattern(re) == pattern@,
{
    regex::Regex::new(pattern).ok()
}

/// Each term as a pattern that matches it.
pub open spec fn escaped_terms(terms: Seq<Seq<char>>) -> Seq<Seq<char>> {
    terms.map_values(|t: Seq<char>| escaped_text(t))
}

/// A pattern that matches any of the terms in either case, with the longer
/// terms tried first.
pub open spec fn any_term_pattern(terms: Seq<Seq<char>>) -> Seq<char> {
    let alternatives = escaped_terms(terms).sort_by(longest_first());
    let body = if terms.len() == 1 {
        alternatives[0]
    } else {
        "(?:"@ + joined(alternatives, "|"@) + ")"@
    };
    "(?i:"@ + body + ")"@
}

/// The pattern that finds any of the terms, if there is a term.
pub fn ripgrep_query_from_terms(terms: &Vec<String>) -> (r: Option<String>)
    ensures
        match r {
            Some(q) => terms@.len() > 0 && q@ == any_term_pattern(texts(terms@)),
            None => terms@.len() == 0,
        },
{
    if terms.len() == 0 {
        return None;
    }
    let mut escaped: Vec<String> = Vec::new();
    let mut i: usize = 0;
    while i < terms.len()
        invariant
            i <= terms.len(),
            texts(escaped@) == escaped_terms(texts(terms@).take(i as int)),
        decreases terms.len() - i,
    {
        let ghost before = texts(escaped@);
        let e = escape_pattern(&terms[i]);
        proof {
            let known = texts(terms@).take(i as int);
            assert(texts(terms@).take(i + 1) =~= known.push(terms@[i as int]@));
            assert(escaped_terms(known.push(terms@[i as int]@)) =~= escaped_terms(known).push(e@));
            assert(texts(escaped@.push(e)) =~= before.push(e@));
        }
        escaped.push(e);
        i += 1;
    }
    assert(texts(terms@).take(i as int) =~= texts(terms@));
    let sorted = sort_texts::<LongestFirst>(&escaped);
    let ghost order = escaped_terms(texts(terms@)).sort_by(longest_first());
    proof {
        crate::order::longest_first_is_total();
        escaped_terms(texts(terms@)).lemma_sort_by_ensures(longest_first());
        vstd::seq_lib::to_multiset_len(order);
        vstd::seq_lib::to_multiset_len(escaped_terms(texts(terms@)));
        assert(texts(sorted@) == order);
        assert(order.len() == terms@.len());
    }
    let mut query = "(?i:".to_owned();
    if sorted.len() == 1 {
        assert(texts(sorted@)[0] == sorted@[0]@);
        query.push_str(&sorted[0]);
        query.push_str(")");
    } else {
        let mut body = "(?:".to_owned();
        body.push_str(&join(&sorted, "|"));
        body.push_str(")");
        query.push_str(&body);
        query.push_str(")");
    }
    Some(query)
}

/// A query with its terms, the pattern that finds them, and that pattern
/// compiled.
#[derive(Debug)]
pub struct TokenizedSearchQuery {
    terms: Vec<String>,
    ripgrep_query: String,
    regex: regex::Regex,
}

impl TokenizedSearchQuery {
    pub closed spec fn spec_terms(&self) -> Seq<Seq<char>> {
        texts(self.terms@)
    }

    pub closed spec fn spec_query(&self) -> Seq<char> {
        self.ripgrep_query@
    }

    pub closed spec fn spec_regex(&self) -> regex::Regex {
        self.regex
    }

    pub fn terms(&self) -> (r: &Vec<String>)
        ensures
            texts(r@) == self.spec_terms(),
    {
        &self.terms
    }

    pub fn ripgrep_query(&self) -> (r: &str)
        ensures
            r@ == self.spec_query(),
    {
        &self.ripgrep_query
    }

    pub fn regex(&self) -> (r: &regex::Regex)
        ensures
            *r == self.spec_regex(),
    {
        &self.regex
    }
}

/// The query made ready for searching, if it has a term and its pattern
/// compiles.
pub fn tokenized_search_query(query: &str) -> (r: Option<TokenizedSearchQuery>)
    ensures
        match r {
            Some(q) => {
                &&& search_terms(query@).len() > 0
                &&& pattern_compiles(any_term_pattern(search_terms(query@)))
                &&& q.spec_terms() == search_terms(query@)
                &&& q.spec_query() == any_term_pattern(search_terms(query@))
                &&& regex_pattern(q.spec_regex()) == q.spec_query()
            },
            None => search_terms(query@).len() == 0 || !pattern_compiles(
                any_term_pattern(search_terms(query@)),
            ),
        },
{
    let terms = tokenize_search_query(query);
    assert(texts(terms@).len() == terms@.len());
    match ripgrep_query_from_terms(&terms) {
        None => None,
        Some(ripgrep_query) => match compile_pattern(&ripgrep_query) {
            None => None,
            Some(regex) => Some(TokenizedSearchQuery { terms, ripgrep_query, regex }),
        },
    }
}

// ----------------------------------------------------------------- what is searched

proof fn lemma_push_all_has(terms: Seq<Seq<char>>, xs: Seq<Seq<char>>, x: Seq<char>)
    ensures
        push_all(terms, xs).contains(x) <==> terms.contains(x) || (xs.contains(x) && x.len() > 0),
    decreases xs.len(),
{
    if xs.len() > 0 {
        let rest = xs.drop_last();
        let before = push_all(terms, rest);
        lemma_push_all_has(terms, rest, x);
        let all = push_all(terms, xs);
        assert(xs[xs.len() - 1] == xs.last());
        if xs.contains(x) && x != xs.last() {
            let k = choose|k: int| 0 <= k < xs.len() && xs[k] == x;
            assert(rest[k] == x);
        }
        if rest.contains(x) {
            let k = choose|k: int| 0 <= k < rest.len() && rest[k] == x;
            assert(xs[k] == x);
        }
        let y = xs.last();
        if !(y.len() == 0 || before.contains(y)) {
            assert(all == before.push(y));
            assert(all[before.len() as int] == y);
            if before.contains(x) {
                let k = choose|k: int| 0 <= k < before.len() && before[k] == x;
                assert(all[k] == x);
            }
            if all.contains(x) && x != y {
                let k = choose|k: int| 0 <= k < all.len() && all[k] == x;
                assert(before[k] == x);
            }
        }
    }
}

/// What is searched for is all that the runs of a query give, each once.
pub proof fn every_term_is_searched_for(query: Seq<char>, x: Seq<char>)
    ensures
        search_terms(query).contains(x) <==> raw_terms(query).contains(x) && x.len() > 0,
{
    lemma_push_all_has(Seq::empty(), raw_terms(query), x);
}

/// A query is read run by run: letters and digits of the same kind that stand together
/// are taken together, and what stands between is left out.
pub proof fn queries_are_read_run_by_run(mode: Mode, run: Seq<char>, rest: Seq<char>, c: char)
    requires
        run.len() > 0,
        forall|i: int| 0 <= i < run.len() ==> mode_of(#[trigger] run[i]) == Some(mode),
        rest.len() > 0 ==> mode_of(rest[0]) != Some(mode),
    ensures
        raw_terms(run + rest) == run_terms(mode, run) + raw_terms(rest),
        mode_of(c) is None ==> raw_terms(seq![c] + rest) == raw_terms(rest),
{
    let all = run + rest;
    assert forall|i: int| 0 <= i < run.len() implies mode_of(#[trigger] all[i]) == Some(mode) by {
        assert(all[i] == run[i]);
    }
    if run.len() < all.len() {
        assert(all[run.len() as int] == rest[0]);
    }
    lemma_run_len(all, mode, run.len() as int);
    assert(all[0] == run[0]);
    assert(all.take(run.len() as int) =~= run);
    assert(all.skip(run.len() as int) =~= rest);
    assert((seq![c] + rest).drop_first() =~= rest);
}

/// A word is searched for in small letters, without hyphens and underscores round it,
/// where it is long enough and says something; and so are the parts that those divide
/// it into.
pub proof fn words_are_searched_for(raw: Seq<char>, x: Seq<char>)
    ensures
        run_terms(Mode::Ascii, raw).contains(x) <==> x.len() >= 2 && !ascii_stopword(x) && (x
            == ascii_lowercase_text(trimmed_of(raw, "-_"@)) || pieces(
            replaced_char(ascii_lowercase_text(trimmed_of(raw, "-_"@)), '_', '-'),
            '-',
        ).contains(x)),
{
    let word = ascii_word(raw);
    let list = seq![word] + word_parts(word);
    lemma_candidates_have(list, x);
    assert(list[0] == word);
    if word_parts(word).contains(x) {
        let k = choose|k: int| 0 <= k < word_parts(word).len() && word_parts(word)[k] == x;
        assert(list[k + 1] == x);
    }
    if list.contains(x) && x != word {
        let k = choose|k: int| 0 <= k < list.len() && list[k] == x;
        assert(word_parts(word)[k - 1] == x);
    }
}

proof fn lemma_candidates_have(list: Seq<Seq<char>>, x: Seq<char>)
    ensures
        ascii_candidates(list).contains(x) <==> list.contains(x) && x.len() >= 2 && !ascii_stopword(
            x,
        ),
    decreases list.len(),
{
    lemma_candidates_are_listed(list);
    let all = ascii_candidates(list);
    if all.contains(x) {
        let k = choose|k: int| 0 <= k < all.len() && all[k] == x;
        assert(list.contains(all[k]));
    }
    if list.len() > 0 && list.contains(x) && x.len() >= 2 && !ascii_stopword(x) {
        let head = ascii_candidates(list.drop_last());
        if x == list.last() {
            assert(all[all.len() - 1] == x);
        } else {
            let k = choose|k: int| 0 <= k < list.len() && list[k] == x;
            assert(list.drop_last()[k] == x);
            lemma_candidates_have(list.drop_last(), x);
            let j = choose|j: int| 0 <= j < head.len() && head[j] == x;
            assert(all[j] == x);
        }
    }
}

/// Signs that are written without spaces are searched for in twos and threes that
/// stand together; one or two of them as they are.
pub proof fn signs_are_searched_for(raw: Seq<char>, i: int)
    requires
        raw.len() > 0,
    ensures
        raw.len() <= 2 ==> run_terms(Mode::Cjk, raw) == seq![raw],
        raw.len() > 2 && 0 <= i <= raw.len() - 2 ==> run_terms(Mode::Cjk, raw).contains(
            raw.subrange(i, i + 2),
        ),
        raw.len() > 2 && 0 <= i <= raw.len() - 3 ==> run_terms(Mode::Cjk, raw).contains(
            raw.subrange(i, i + 3),
        ),
{
    if raw.len() > 2 {
        let all = run_terms(Mode::Cjk, raw);
        let three = windows(raw, 3);
        if 0 <= i <= raw.len() - 3 {
            assert(all[i] == raw.subrange(i, i + 3));
        }
        if 0 <= i <= raw.len() - 2 {
            assert(all[three.len() + i] == raw.subrange(i, i + 2));
        }
    }
}

/// Other words are searched for in small letters.
pub proof fn other_words_are_searched_for(raw: Seq<char>)
    ensures
        lowercase_text(raw).len() >= 2 ==> run_terms(Mode::Other, raw) == seq![lowercase_text(raw)],
        lowercase_text(raw).len() < 2 ==> run_terms(Mode::Other, raw).len() == 0,
{
}

/// Escaping puts a backslash before each sign that a pattern would read otherwise, and
/// changes nothing else.
pub proof fn escaping_keeps_the_text(s: Seq<char>, c: char)
    ensures
        escaped_text(s.push(c)) == (if meta_char(c) {
            escaped_text(s) + seq!['\\', c]
        } else {
            escaped_text(s).push(c)
        }),
        escaped_text(Seq::empty()).len() == 0,
{
    assert(s.push(c).drop_last() =~= s);
    assert(escaped_text(s).push('\\').push(c) =~= escaped_text(s) + seq!['\\', c]);
}

/// Every term is in the pattern, escaped.
pub proof fn patterns_hold_every_term(terms: Seq<Seq<char>>, i: int)
    requires
        0 <= i < terms.len(),
    ensures
        occurs(any_term_pattern(terms), escaped_text(terms[i])),
{
    broadcast use vstd::seq_lib::group_to_multiset_ensures;

    let all = escaped_terms(terms);
    let x = escaped_text(terms[i]);
    let sorted = all.sort_by(longest_first());
    longest_first_is_total();
    all.lemma_sort_by_ensures(longest_first());
    assert(all[i] == x);
    assert(all.to_multiset().count(x) > 0);
    assert(sorted.to_multiset().count(x) > 0);
    assert(sorted.contains(x));
    let k = choose|k: int| 0 <= k < sorted.len() && sorted[k] == x;
    assert(all.to_multiset().len() == all.len());
    assert(sorted.to_multiset().len() == sorted.len());
    let body = if terms.len() == 1 {
        sorted[0]
    } else {
        "(?:"@ + joined(sorted, "|"@) + ")"@
    };
    if terms.len() == 1 {
        lemma_occurs_in_both(x, x, x);
    } else {
        what_is_joined_is_there(sorted, "|"@, k);
        lemma_occurs_in_both("(?:"@, joined(sorted, "|"@), x);
        lemma_occurs_in_both("(?:"@ + joined(sorted, "|"@), ")"@, x);
    }
    lemma_occurs_in_both("(?i:"@, body, x);
    lemma_occurs_in_both("(?i:"@ + body, ")"@, x);
}

} // verus!
