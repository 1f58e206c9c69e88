//! Text as sequences of characters: the vocabulary in which the rest of the
//! crate states what it does to strings.
use vstd::prelude::*;
use vstd::string::*;

verus! {

broadcast use vstd::string::group_string_axioms;

/// `String::push` appends one character.
pub assume_specification[ String::push ](s: &mut String, c: char)
    ensures
        final(s)@ == old(s)@.push(c),
;

/// `String::push_str` appends the characters of the argument.
pub assume_specification[ String::push_str ](s: &mut String, tail: &str)
    ensures
        final(s)@ == old(s)@ + tail@,
;

/// What `str::to_lowercase` returns: the Unicode lowercase mapping of a text.
pub uninterp spec fn lowercase_text(s: Seq<char>) -> Seq<char>;

/// `str::to_lowercase`, which maps a text by the lowercase mappings of the Unicode
/// Character Database. On ASCII they lower `A` to `Z`. Outside ASCII they map only
/// U+212A, the Kelvin sign, to an ASCII character alone, so a text without ASCII
/// characters whose lower case is in ASCII comes to letters `k`.
#[verifier::external_body]
pub(crate) fn lowercase(s: &str) -> (r: String)
    ensures
        r@ == lowercase_text(s@),
        is_ascii_text(s@) ==> r@ == ascii_lowercase_text(s@),
        (forall|i: int| 0 <= i < s@.len() ==> !is_ascii_char(#[trigger] s@[i])) && is_ascii_text(r@)
            ==> forall|i: int| 0 <= i < r@.len() ==> (#[trigger] r@[i]) == 'k',
{
    s.to_lowercase()
}

/// Whether `char::is_alphanumeric` holds of a character.
pub uninterp spec fn alphanumeric_char(c: char) -> bool;

/// `char::is_alphanumeric`: the Unicode categories of letters and numbers, which
/// on ASCII are the letters and the decimal digits.
#[verifier::external_body]
pub(crate) fn is_alphanumeric(c: char) -> (r: bool)
    ensures
        r == alphanumeric_char(c),
        is_ascii_char(c) ==> r == ascii_alphanumeric(c),
{
    c.is_alphanumeric()
}

// ---------------------------------------------------------------- characters

pub open spec fn is_ascii_char(c: char) -> bool {
    c as u32 <= 0x7f
}

pub open spec fn is_ascii_text(s: Seq<char>) -> bool {
    forall|i: int| 0 <= i < s.len() ==> is_ascii_char(#[trigger] s[i])
}

pub open spec fn ascii_digit(c: char) -> bool {
    '0' <= c <= '9'
}

pub open spec fn ascii_upper(c: char) -> bool {
    'A' <= c <= 'Z'
}

pub open spec fn ascii_lower(c: char) -> bool {
    'a' <= c <= 'z'
}

pub open spec fn ascii_alphanumeric(c: char) -> bool {
    ascii_digit(c) || ascii_upper(c) || ascii_lower(c)
}

/// The characters with the Unicode `White_Space` property.
pub open spec fn white_char(c: char) -> bool {
    let u = c as u32;
    ||| 0x09 <= u <= 0x0d
    ||| u == 0x20
    ||| u == 0x85
    ||| u == 0xa0
    ||| u == 0x1680
    ||| 0x2000 <= u <= 0x200a
    ||| u == 0x2028
    ||| u == 0x2029
    ||| u == 0x202f
    ||| u == 0x205f
    ||| u == 0x3000
}

pub fn is_ascii_alphanumeric(c: char) -> (r: bool)
    ensures
        r == ascii_alphanumeric(c),
{
    ('0' <= c && c <= '9') || ('A' <= c && c <= 'Z') || ('a' <= c && c <= 'z')
}

pub fn is_white(c: char) -> (r: bool)
    ensures
        r == white_char(c),
{
    let u: u32 = c as u32;
    (0x09 <= u && u <= 0x0d) || u == 0x20 || u == 0x85 || u == 0xa0 || u == 0x1680 || (0x2000 <= u
        && u <= 0x200a) || u == 0x2028 || u == 0x2029 || u == 0x202f || u == 0x205f || u == 0x3000
}

/// ASCII letters in lower case, every other character unchanged.
pub open spec fn ascii_lowercase_char(c: char) -> char {
    if ascii_upper(c) {
        (c as u32 + 32) as char
    } else {
        c
    }
}

pub open spec fn ascii_lowercase_text(s: Seq<char>) -> Seq<char> {
    s.map_values(|c: char| ascii_lowercase_char(c))
}

fn to_ascii_lowercase_char(c: char) -> (r: char)
    ensures
        r == ascii_lowercase_char(c),
{
    if 'A' <= c && c <= 'Z' {
        let b: u8 = c as u8;
        (b + 32) as char
    } else {
        c
    }
}

// ------------------------------------------------------------- conversions

/// The characters of a text.
pub fn chars_of(s: &str) -> (r: Vec<char>)
    ensures
        r@ == s@,
{
    let mut r: Vec<char> = Vec::new();
    for c in it: s.chars()
        invariant
            it.seq() == s@,
            r@ == s@.take(it.index()),
    {
        r.push(c);
        assert(s@.take(it.index() + 1) =~= s@.take(it.index()).push(c));
    }
    assert(s@.take(s@.len() as int) =~= s@);
    r
}

/// The text made of the characters from `from` up to `to`.
pub fn text_range(chars: &Vec<char>, from: usize, to: usize) -> (r: String)
    requires
        from <= to <= chars.len(),
    ensures
        r@ == chars@.subrange(from as int, to as int),
{
    let mut r = String::new();
    let mut i: usize = from;
    while i < to
        invariant
            from <= i <= to <= chars.len(),
            r@ == chars@.subrange(from as int, i as int),
        decreases to - i,
    {
        r.push(chars[i]);
        i += 1;
        assert(chars@.subrange(from as int, i as int) =~= chars@.subrange(
            from as int,
            i - 1,
        ).push(chars@[i - 1]));
    }
    r
}

pub fn text_of(chars: &Vec<char>) -> (r: String)
    ensures
        r@ == chars@,
{
    let r = text_range(chars, 0, chars.len());
    assert(chars@.subrange(0, chars@.len() as int) =~= chars@);
    r
}

/// Whether two texts are equal.
pub fn str_eq(a: &str, b: &str) -> (r: bool)
    ensures
        r == (a@ == b@),
{
    a.to_owned() == b.to_owned()
}

/// The texts of a list of strings.
pub open spec fn texts(v: Seq<String>) -> Seq<Seq<char>> {
    v.map_values(|s: String| s@)
}

pub open spec fn option_texts(list: Option<Vec<String>>) -> Option<Seq<Seq<char>>> {
    match list {
        Some(l) => Some(texts(l@)),
        None => None,
    }
}

// ----------------------------------------------------------------- trimming

/// `s` without the leading characters that satisfy `p`.
pub open spec fn drop_leading(s: Seq<char>, p: spec_fn(char) -> bool) -> Seq<char>
    decreases s.len(),
{
    if s.len() > 0 && p(s[0]) {
        drop_leading(s.drop_first(), p)
    } else {
        s
    }
}

/// `s` without the trailing characters that satisfy `p`.
pub open spec fn drop_trailing(s: Seq<char>, p: spec_fn(char) -> bool) -> Seq<char>
    decreases s.len(),
{
    if s.len() > 0 && p(s.last()) {
        drop_trailing(s.drop_last(), p)
    } else {
        s
    }
}

/// Membership in the white space characters, as a predicate.
pub open spec fn white() -> spec_fn(char) -> bool {
    |c: char| white_char(c)
}

/// Membership in the characters of `set`, as a predicate.
pub open spec fn among(set: Seq<char>) -> spec_fn(char) -> bool {
    |c: char| set.contains(c)
}

pub open spec fn trim_start_text(s: Seq<char>) -> Seq<char> {
    drop_leading(s, white())
}

pub open spec fn trim_end_text(s: Seq<char>) -> Seq<char> {
    drop_trailing(s, white())
}

/// `s` without leading and trailing white space.
pub open spec fn trimmed(s: Seq<char>) -> Seq<char> {
    trim_end_text(trim_start_text(s))
}

/// Where the leading run of characters that satisfy `p` ends.
proof fn lemma_drop_leading(s: Seq<char>, p: spec_fn(char) -> bool, k: int)
    requires
        0 <= k <= s.len(),
        forall|i: int| 0 <= i < k ==> p(#[trigger] s[i]),
        k < s.len() ==> !p(s[k]),
    ensures
        drop_leading(s, p) == s.skip(k),
    decreases s.len(),
{
    if k > 0 {
        let t = s.drop_first();
        assert forall|i: int| 0 <= i < k - 1 implies p(#[trigger] t[i]) by {
            assert(t[i] == s[i + 1]);
        }
        lemma_drop_leading(t, p, k - 1);
        assert(t.skip(k - 1) =~= s.skip(k));
    } else {
        assert(s.skip(0) =~= s);
    }
}

proof fn lemma_drop_trailing(s: Seq<char>, p: spec_fn(char) -> bool, k: int)
    requires
        0 <= k <= s.len(),
        forall|i: int| k <= i < s.len() ==> p(#[trigger] s[i]),
        k > 0 ==> !p(s[k - 1]),
    ensures
        drop_trailing(s, p) == s.take(k),
    decreases s.len(),
{
    if k < s.len() {
        let t = s.drop_last();
        assert forall|i: int| k <= i < t.len() implies p(#[trigger] t[i]) by {
            assert(t[i] == s[i]);
        }
        assert(p(s[s.len() - 1]));
        lemma_drop_trailing(t, p, k);
        assert(t.take(k) =~= s.take(k));
    } else {
        assert(s.take(k) =~= s);
    }
}

/// What is left of a text by dropping leading characters is a suffix of it.
pub proof fn lemma_drop_leading_is_suffix(s: Seq<char>, p: spec_fn(char) -> bool)
    ensures
        drop_leading(s, p).len() <= s.len(),
        drop_leading(s, p) == s.skip(s.len() - drop_leading(s, p).len()),
    decreases s.len(),
{
    if s.len() > 0 && p(s[0]) {
        let t = s.drop_first();
        lemma_drop_leading_is_suffix(t, p);
        let n = drop_leading(t, p).len();
        assert(t.skip(t.len() - n) =~= s.skip(s.len() - n));
    } else {
        assert(s.skip(0) =~= s);
    }
}

/// What is left of a text by dropping trailing characters is a prefix of it.
pub proof fn lemma_drop_trailing_is_prefix(s: Seq<char>, p: spec_fn(char) -> bool)
    ensures
        drop_trailing(s, p).len() <= s.len(),
        drop_trailing(s, p) == s.take(drop_trailing(s, p).len() as int),
    decreases s.len(),
{
    if s.len() > 0 && p(s.last()) {
        let t = s.drop_last();
        lemma_drop_trailing_is_prefix(t, p);
        let n = drop_trailing(t, p).len() as int;
        assert(t.take(n) =~= s.take(n));
    } else {
        assert(s.take(s.len() as int) =~= s);
    }
}

pub proof fn lemma_drop_leading_edge(s: Seq<char>, p: spec_fn(char) -> bool)
    ensures
        drop_leading(s, p).len() > 0 ==> !p(drop_leading(s, p)[0]),
    decreases s.len(),
{
    if s.len() > 0 && p(s[0]) {
        lemma_drop_leading_edge(s.drop_first(), p);
    }
}

pub proof fn lemma_drop_trailing_edge(s: Seq<char>, p: spec_fn(char) -> bool)
    ensures
        drop_trailing(s, p).len() > 0 ==> !p(drop_trailing(s, p).last()),
    decreases s.len(),
{
    if s.len() > 0 && p(s.last()) {
        lemma_drop_trailing_edge(s.drop_last(), p);
    }
}

/// Trimming a second time changes nothing.
pub proof fn trimming_is_idempotent(s: Seq<char>)
    ensures
        trimmed(trimmed(s)) == trimmed(s),
{
    let a = trim_start_text(s);
    let b = trim_end_text(a);
    lemma_drop_leading_edge(s, white());
    lemma_drop_trailing_is_prefix(a, white());
    lemma_drop_trailing_edge(a, white());
    if b.len() > 0 {
        assert(b[0] == a[0]);
    }
    assert(trim_start_text(b) == b);
    assert(trim_end_text(b) == b);
}

fn leading_white(chars: &Vec<char>) -> (k: usize)
    ensures
        k <= chars.len(),
        drop_leading(chars@, white()) == chars@.skip(k as int),
{
    let mut k: usize = 0;
    while k < chars.len() && is_white(chars[k])
        invariant
            k <= chars.len(),
            forall|i: int| 0 <= i < k ==> white_char(#[trigger] chars@[i]),
        decreases chars.len() - k,
    {
        k += 1;
    }
    proof {
        lemma_drop_leading(chars@, white(), k as int);
    }
    k
}

fn trailing_white(chars: &Vec<char>, from: usize) -> (k: usize)
    requires
        from <= chars.len(),
    ensures
        from <= k <= chars.len(),
        drop_trailing(chars@.skip(from as int), white()) == chars@.subrange(from as int, k as int),
{
    let mut k: usize = chars.len();
    while from < k && is_white(chars[k - 1])
        invariant
            from <= k <= chars.len(),
            forall|i: int| k <= i < chars.len() ==> white_char(#[trigger] chars@[i]),
        decreases k,
    {
        k -= 1;
    }
    proof {
        let t = chars@.skip(from as int);
        assert forall|i: int| k - from <= i < t.len() implies white()(#[trigger] t[i]) by {
            assert(t[i] == chars@[i + from]);
        }
        if k > from {
            assert(t[k - from - 1] == chars@[k - 1]);
        }
        lemma_drop_trailing(t, white(), k - from);
        assert(t.take(k - from) =~= chars@.subrange(from as int, k as int));
    }
    k
}

/// `s` without leading and trailing white space.
pub fn trim(s: &str) -> (r: String)
    ensures
        r@ == trimmed(s@),
{
    let chars = chars_of(s);
    let a = leading_white(&chars);
    let b = trailing_white(&chars, a);
    text_range(&chars, a, b)
}

/// `s` without leading white space.
pub fn trim_start(s: &str) -> (r: String)
    ensures
        r@ == trim_start_text(s@),
{
    let chars = chars_of(s);
    let a = leading_white(&chars);
    assert(chars@.subrange(a as int, chars@.len() as int) =~= chars@.skip(a as int));
    text_range(&chars, a, chars.len())
}

/// `s` without trailing white space.
pub fn trim_end(s: &str) -> (r: String)
    ensures
        r@ == trim_end_text(s@),
{
    let chars = chars_of(s);
    assert(chars@.skip(0) =~= chars@);
    let b = trailing_white(&chars, 0);
    text_range(&chars, 0, b)
}

/// Whether a character list holds a character.
pub fn has_char(set: &Vec<char>, c: char) -> (r: bool)
    ensures
        r == set@.contains(c),
{
    let mut i: usize = 0;
    while i < set.len()
        invariant
            i <= set.len(),
            forall|j: int| 0 <= j < i ==> set@[j] != c,
        decreases set.len() - i,
    {
        if set[i] == c {
            return true;
        }
        i += 1;
    }
    false
}

/// `s` without leading and trailing characters of `set`.
pub open spec fn trimmed_of(s: Seq<char>, set: Seq<char>) -> Seq<char> {
    drop_trailing(drop_leading(s, among(set)), among(set))
}

/// `s` without leading and trailing characters of `set`.
pub fn trim_chars(s: &str, set: &str) -> (r: String)
    ensures
        r@ == trimmed_of(s@, set@),
{
    let chars = chars_of(s);
    let members = chars_of(set);
    let mut a: usize = 0;
    while a < chars.len() && has_char(&members, chars[a])
        invariant
            a <= chars.len(),
            members@ == set@,
            forall|i: int| 0 <= i < a ==> set@.contains(#[trigger] chars@[i]),
        decreases chars.len() - a,
    {
        a += 1;
    }
    let mut b: usize = chars.len();
    while a < b && has_char(&members, chars[b - 1])
        invariant
            a <= b <= chars.len(),
            members@ == set@,
            forall|i: int| b <= i < chars.len() ==> set@.contains(#[trigger] chars@[i]),
        decreases b,
    {
        b -= 1;
    }
    proof {
        let p = among(set@);
        lemma_drop_leading(chars@, p, a as int);
        let t = chars@.skip(a as int);
        assert forall|i: int| b - a <= i < t.len() implies p(#[trigger] t[i]) by {
            assert(t[i] == chars@[i + a]);
        }
        if b > a {
            assert(t[b - a - 1] == chars@[b - 1]);
        }
        lemma_drop_trailing(t, p, b - a);
        assert(t.take(b - a) =~= chars@.subrange(a as int, b as int));
    }
    text_range(&chars, a, b)
}

/// Whether a text is empty or white space only.
pub fn is_blank(s: &str) -> (r: bool)
    ensures
        r == (trimmed(s@).len() == 0),
{
    let t = trim(s);
    t.as_str().is_empty()
}

// ----------------------------------------------------------------- searching

/// `needle` stands in `hay` at position `i`.
pub open spec fn occurs_at(hay: Seq<char>, needle: Seq<char>, i: int) -> bool {
    0 <= i && i + needle.len() <= hay.len() && hay.subrange(i, i + needle.len()) == needle
}

/// `needle` is a part of `hay`.
pub open spec fn occurs(hay: Seq<char>, needle: Seq<char>) -> bool {
    exists|i: int| occurs_at(hay, needle, i)
}

/// Whether `needle` stands in `hay` at position `at`.
pub fn matches_at(hay: &Vec<char>, needle: &Vec<char>, at: usize) -> (r: bool)
    ensures
        r == occurs_at(hay@, needle@, at as int),
{
    if at > hay.len() || needle.len() > hay.len() - at {
        return false;
    }
    let mut j: usize = 0;
    while j < needle.len()
        invariant
            at + needle.len() <= hay.len(),
            j <= needle.len(),
            forall|k: int| 0 <= k < j ==> hay@[at + k] == needle@[k],
        decreases needle.len() - j,
    {
        if hay[at + j] != needle[j] {
            assert(hay@.subrange(at as int, at + needle@.len())[j as int] != needle@[j as int]);
            return false;
        }
        j += 1;
    }
    assert(hay@.subrange(at as int, at + needle@.len()) =~= needle@);
    true
}

/// Where `needle` first stands in `hay`, at `from` or later.
pub fn find_from(hay: &Vec<char>, needle: &Vec<char>, from: usize) -> (r: Option<usize>)
    ensures
        match r {
            Some(i) => from <= i <= hay.len() && occurs_at(hay@, needle@, i as int) && forall|j: int|
                from <= j < i ==> !occurs_at(hay@, needle@, j),
            None => forall|j: int| from <= j ==> !occurs_at(hay@, needle@, j),
        },
{
    let mut i: usize = from;
    while i <= hay.len()
        invariant
            from <= i,
            i <= hay.len() + 1 || i == from,
            forall|j: int| from <= j < i ==> !occurs_at(hay@, needle@, j),
        decreases hay.len() + 1 - i,
    {
        if matches_at(hay, needle, i) {
            return Some(i);
        }
        if i == hay.len() {
            return None;
        }
        i += 1;
    }
    None
}

/// Whether `needle` is a part of `hay`.
pub fn contains_text(hay: &str, needle: &str) -> (r: bool)
    ensures
        r == occurs(hay@, needle@),
{
    let h = chars_of(hay);
    let n = chars_of(needle);
    match find_from(&h, &n, 0) {
        Some(i) => {
            assert(occurs_at(hay@, needle@, i as int));
            true
        },
        None => {
            assert forall|j: int| !occurs_at(hay@, needle@, j) by {
                if j < 0 {
                }
            }
            false
        },
    }
}

/// Whether `s` begins with `prefix`.
pub fn starts_with(s: &str, prefix: &str) -> (r: bool)
    ensures
        r == prefix@.is_prefix_of(s@),
{
    let h = chars_of(s);
    let n = chars_of(prefix);
    let r = matches_at(&h, &n, 0);
    assert(occurs_at(s@, prefix@, 0) == prefix@.is_prefix_of(s@));
    r
}

/// Whether `s` ends with `suffix`.
pub fn ends_with(s: &str, suffix: &str) -> (r: bool)
    ensures
        r == suffix@.is_suffix_of(s@),
{
    let h = chars_of(s);
    let n = chars_of(suffix);
    if n.len() > h.len() {
        return false;
    }
    let r = matches_at(&h, &n, h.len() - n.len());
    assert(occurs_at(s@, suffix@, s@.len() - suffix@.len()) == suffix@.is_suffix_of(s@));
    r
}

/// What follows `prefix` in `s`, if `s` begins with it.
pub fn strip_prefix(s: &str, prefix: &str) -> (r: Option<String>)
    ensures
        match r {
            Some(t) => prefix@.is_prefix_of(s@) && t@ == s@.skip(prefix@.len() as int),
            None => !prefix@.is_prefix_of(s@),
        },
{
    if !starts_with(s, prefix) {
        return None;
    }
    let h = chars_of(s);
    let n = chars_of(prefix);
    assert(h@.subrange(n@.len() as int, h@.len() as int) =~= s@.skip(prefix@.len() as int));
    Some(text_range(&h, n.len(), h.len()))
}

/// Where a character first stands in a list of characters, at `from` or later.
pub fn find_char(chars: &Vec<char>, c: char, from: usize) -> (r: Option<usize>)
    ensures
        match r {
            Some(i) => from <= i < chars.len() && chars@[i as int] == c && forall|j: int|
                from <= j < i ==> chars@[j] != c,
            None => forall|j: int| from <= j < chars.len() ==> chars@[j] != c,
        },
{
    let mut i: usize = from;
    while i < chars.len()
        invariant
            from <= i,
            forall|j: int| from <= j < i && j < chars.len() ==> chars@[j] != c,
        decreases chars.len() - i,
    {
        if chars[i] == c {
            return Some(i);
        }
        i += 1;
    }
    None
}

/// Whether a list of strings holds a text.
pub fn list_has(list: &Vec<String>, s: &str) -> (r: bool)
    ensures
        r == texts(list@).contains(s@),
{
    let mut i: usize = 0;
    while i < list.len()
        invariant
            i <= list.len(),
            forall|j: int| 0 <= j < i ==> texts(list@)[j] != s@,
        decreases list.len() - i,
    {
        if str_eq(&list[i], s) {
            assert(texts(list@)[i as int] == s@);
            return true;
        }
        i += 1;
    }
    false
}

// ------------------------------------------------------------------ shaping

/// The first `n` characters of a text, or all of it where it has fewer.
pub open spec fn first_chars(s: Seq<char>, n: int) -> Seq<char> {
    if s.len() <= n {
        s
    } else {
        s.take(n)
    }
}

/// The first `n` characters of a text, or all of it where it has fewer.
pub fn take_chars(s: &str, n: usize) -> (r: String)
    ensures
        r@ == first_chars(s@, n as int),
{
    let chars = chars_of(s);
    let m: usize = if chars.len() < n {
        chars.len()
    } else {
        n
    };
    let r = text_range(&chars, 0, m);
    assert(r@ =~= first_chars(s@, n as int));
    r
}

/// ASCII letters in lower case, everything else unchanged.
pub fn to_ascii_lowercase(s: &str) -> (r: String)
    ensures
        r@ == ascii_lowercase_text(s@),
{
    let chars = chars_of(s);
    let mut r = String::new();
    let mut i: usize = 0;
    while i < chars.len()
        invariant
            i <= chars.len(),
            chars@ == s@,
            r@ == ascii_lowercase_text(s@.take(i as int)),
        decreases chars.len() - i,
    {
        r.push(to_ascii_lowercase_char(chars[i]));
        i += 1;
        assert(r@ =~= ascii_lowercase_text(s@.take(i as int)));
    }
    assert(s@.take(i as int) =~= s@);
    r
}

/// `s` with each `from` replaced by `to`.
pub open spec fn replaced_char(s: Seq<char>, from: char, to: char) -> Seq<char> {
    s.map_values(
        |c: char|
            if c == from {
                to
            } else {
                c
            },
    )
}

/// `s` with each `from` replaced by `to`.
pub fn replace_char(s: &str, from: char, to: char) -> (r: String)
    ensures
        r@ == replaced_char(s@, from, to),
{
    let chars = chars_of(s);
    let mut r = String::new();
    let mut i: usize = 0;
    while i < chars.len()
        invariant
            i <= chars.len(),
            chars@ == s@,
            r@ == replaced_char(s@.take(i as int), from, to),
        decreases chars.len() - i,
    {
        if chars[i] == from {
            r.push(to);
        } else {
            r.push(chars[i]);
        }
        i += 1;
        assert(r@ =~= replaced_char(s@.take(i as int), from, to));
    }
    assert(s@.take(i as int) =~= s@);
    r
}

/// The digit characters of a number in base ten.
pub open spec fn digit_char(d: nat) -> char {
    (d + 48) as char
}

pub open spec fn decimal(n: nat) -> Seq<char>
    decreases n,
{
    if n < 10 {
        seq![digit_char(n)]
    } else {
        decimal(n / 10).push(digit_char(n % 10))
    }
}

/// The decimal form of a number.
pub fn decimal_text(n: u64) -> (r: String)
    ensures
        r@ == decimal(n as nat),
    decreases n,
{
    let d: u8 = (n % 10) as u8;
    let c: char = (d + 48) as char;
    let mut r = if n < 10 {
        String::new()
    } else {
        decimal_text(n / 10)
    };
    r.push(c);
    assert(c == digit_char((n % 10) as nat));
    assert(r@ =~= decimal(n as nat));
    r
}

// ------------------------------------------------------- joining, splitting

/// The texts with `sep` between each two.
pub open spec fn joined(parts: Seq<Seq<char>>, sep: Seq<char>) -> Seq<char>
    decreases parts.len(),
{
    if parts.len() == 0 {
        Seq::empty()
    } else if parts.len() == 1 {
        parts[0]
    } else {
        joined(parts.drop_last(), sep) + sep + parts.last()
    }
}

/// The strings with `sep` between each two.
pub fn join(parts: &Vec<String>, sep: &str) -> (r: String)
    ensures
        r@ == joined(texts(parts@), sep@),
{
    let mut r = String::new();
    let mut i: usize = 0;
    while i < parts.len()
        invariant
            i <= parts.len(),
            r@ == joined(texts(parts@).take(i as int), sep@),
        decreases parts.len() - i,
    {
        if i > 0 {
            r.push_str(sep);
        }
        r.push_str(&parts[i]);
        i += 1;
        assert(texts(parts@).take(i as int).drop_last() =~= texts(parts@).take(i - 1));
        assert(r@ =~= joined(texts(parts@).take(i as int), sep@));
    }
    assert(texts(parts@).take(i as int) =~= texts(parts@));
    r
}

/// The pieces of a text between the separators `sep`, empty pieces included.
pub open spec fn pieces(s: Seq<char>, sep: char) -> Seq<Seq<char>>
    decreases s.len(),
{
    if !s.contains(sep) {
        seq![s]
    } else {
        let i = s.index_of_first(sep)->0;
        if 0 <= i < s.len() {
            seq![s.take(i)] + pieces(s.skip(i + 1), sep)
        } else {
            seq![s]
        }
    }
}

/// The pieces of a text between the separators `sep`, empty pieces included.
pub fn split_on(s: &str, sep: char) -> (r: Vec<String>)
    ensures
        texts(r@) == pieces(s@, sep),
{
    let chars = chars_of(s);
    let mut r: Vec<String> = Vec::new();
    let mut start: usize = 0;
    assert(chars@.skip(0) =~= s@);
    assert(texts(r@) + pieces(chars@.skip(start as int), sep) =~= pieces(s@, sep));
    loop
        invariant
            start <= chars.len(),
            chars@ == s@,
            texts(r@) + pieces(chars@.skip(start as int), sep) == pieces(s@, sep),
        decreases chars.len() - start,
    {
        let ghost rest = chars@.skip(start as int);
        match find_char(&chars, sep, start) {
            Some(i) => {
                let piece = text_range(&chars, start, i);
                proof {
                    assert(rest[i - start] == sep);
                    assert(rest.contains(sep));
                    let k = rest.index_of_first(sep)->0;
                    rest.index_of_first_ensures(sep);
                    if k < i - start {
                        assert(chars@[start + k] == sep);
                    }
                    assert(k == i - start);
                    assert(rest.take(k) =~= piece@);
                    assert(rest.skip(k + 1) =~= chars@.skip(i + 1));
                    assert(texts(r@.push(piece)) =~= texts(r@).push(piece@));
                    assert(texts(r@) + pieces(rest, sep) =~= texts(r@.push(piece)) + pieces(
                        chars@.skip(i + 1),
                        sep,
                    ));
                }
                r.push(piece);
                start = i + 1;
            },
            None => {
                let piece = text_range(&chars, start, chars.len());
                proof {
                    assert forall|j: int| 0 <= j < rest.len() implies rest[j] != sep by {
                        assert(rest[j] == chars@[start + j]);
                    }
                    assert(!rest.contains(sep));
                    assert(piece@ =~= rest);
                    assert(texts(r@.push(piece)) =~= texts(r@) + pieces(rest, sep));
                }
                r.push(piece);
                return r;
            },
        }
    }
}

// ------------------------------------------------------------ first matches

/// Where `needle` first stands in `hay`.
pub open spec fn index_of(hay: Seq<char>, needle: Seq<char>) -> Option<int>
    decreases hay.len(),
{
    if needle.is_prefix_of(hay) {
        Some(0)
    } else if hay.len() == 0 {
        None
    } else {
        match index_of(hay.drop_first(), needle) {
            Some(i) => Some(i + 1),
            None => None,
        }
    }
}

/// A found match lies within the text.
pub proof fn lemma_index_of_bound(hay: Seq<char>, needle: Seq<char>)
    ensures
        index_of(hay, needle) matches Some(i) ==> 0 <= i && i + needle.len() <= hay.len(),
    decreases hay.len(),
{
    if !needle.is_prefix_of(hay) && hay.len() > 0 {
        lemma_index_of_bound(hay.drop_first(), needle);
    }
}

proof fn lemma_occurs_at_prefix(hay: Seq<char>, needle: Seq<char>)
    ensures
        occurs_at(hay, needle, 0) == needle.is_prefix_of(hay),
{
    if needle.len() <= hay.len() {
        assert(hay.subrange(0, needle.len() as int) =~= hay.take(needle.len() as int));
        if occurs_at(hay, needle, 0) {
            assert(needle.is_prefix_of(hay));
        }
        if needle.is_prefix_of(hay) {
            assert(hay.subrange(0, needle.len() as int) =~= needle);
        }
    }
}

proof fn lemma_index_of(hay: Seq<char>, needle: Seq<char>, k: int)
    requires
        0 <= k <= hay.len(),
        forall|j: int| 0 <= j < k ==> !occurs_at(hay, needle, j),
    ensures
        occurs_at(hay, needle, k) ==> index_of(hay, needle) == Some(k),
        k == hay.len() && !occurs_at(hay, needle, k) ==> index_of(hay, needle) is None,
    decreases hay.len(),
{
    lemma_occurs_at_prefix(hay, needle);
    if k > 0 {
        assert(!occurs_at(hay, needle, 0));
        let t = hay.drop_first();
        assert forall|j: int| 0 <= j < k - 1 implies !occurs_at(t, needle, j) by {
            if occurs_at(t, needle, j) {
                assert(hay.subrange(j + 1, j + 1 + needle.len()) =~= t.subrange(
                    j,
                    j + needle.len(),
                ));
                assert(occurs_at(hay, needle, j + 1));
            }
        }
        lemma_index_of(t, needle, k - 1);
        if k - 1 + needle.len() <= t.len() {
            assert(hay.subrange(k, k + needle.len()) =~= t.subrange(k - 1, k - 1 + needle.len()));
        }
    }
}

/// Where `needle` first stands in `hay`, counted in characters.
pub fn find(hay: &str, needle: &str) -> (r: Option<usize>)
    ensures
        match r {
            Some(i) => index_of(hay@, needle@) == Some(i as int) && i + needle@.len() <= hay@.len(),
            None => index_of(hay@, needle@) is None,
        },
        hay@.len() <= usize::MAX,
{
    let h = chars_of(hay);
    let n = chars_of(needle);
    let size: usize = h.len();
    assert(hay@.len() == size);
    let found = find_from(&h, &n, 0);
    proof {
        lemma_index_of_bound(hay@, needle@);
        match found {
            Some(i) => {
                lemma_index_of(hay@, needle@, i as int);
            },
            None => {
                lemma_index_of(hay@, needle@, hay@.len() as int);
            },
        }
    }
    found
}

/// The characters of `s` from the `n`th on.
pub fn skip_chars(s: &str, n: usize) -> (r: String)
    requires
        n <= s@.len(),
    ensures
        r@ == s@.skip(n as int),
{
    let chars = chars_of(s);
    assert(chars@.subrange(n as int, chars@.len() as int) =~= s@.skip(n as int));
    text_range(&chars, n, chars.len())
}

/// `s` without leading characters of `set`.
pub fn trim_start_chars(s: &str, set: &str) -> (r: String)
    ensures
        r@ == drop_leading(s@, among(set@)),
{
    let chars = chars_of(s);
    let members = chars_of(set);
    let mut a: usize = 0;
    while a < chars.len() && has_char(&members, chars[a])
        invariant
            a <= chars.len(),
            members@ == set@,
            forall|i: int| 0 <= i < a ==> set@.contains(#[trigger] chars@[i]),
        decreases chars.len() - a,
    {
        a += 1;
    }
    proof {
        lemma_drop_leading(chars@, among(set@), a as int);
    }
    skip_chars(s, a)
}

// --------------------------------------------------------------------- bytes

/// How many bytes a character takes in UTF-8.
pub open spec fn utf8_width(c: char) -> nat {
    let n = c as u32;
    if n < 0x80 {
        1
    } else if n < 0x800 {
        2
    } else if n < 0x10000 {
        3
    } else {
        4
    }
}

/// How many bytes a text takes in UTF-8.
pub open spec fn utf8_len(s: Seq<char>) -> nat
    decreases s.len(),
{
    if s.len() == 0 {
        0
    } else {
        utf8_len(s.drop_last()) + utf8_width(s.last())
    }
}

/// How many characters of a text take `n` bytes or fewer.
pub open spec fn chars_within(s: Seq<char>, n: nat) -> int
    decreases s.len(),
{
    if s.len() == 0 || utf8_len(s) <= n {
        s.len() as int
    } else {
        chars_within(s.drop_last(), n)
    }
}

/// Whether a text can be cut behind its first `n` bytes.
pub open spec fn cuts_at(s: Seq<char>, n: nat) -> bool {
    utf8_len(s) <= n || utf8_len(s.take(chars_within(s, n))) == n
}

pub fn char_width(c: char) -> (r: usize)
    ensures
        r == utf8_width(c),
{
    let n = c as u32;
    if n < 0x80 {
        1
    } else if n < 0x800 {
        2
    } else if n < 0x10000 {
        3
    } else {
        4
    }
}

pub proof fn lemma_utf8_len_monotone(s: Seq<char>, k: int)
    requires
        0 <= k <= s.len(),
    ensures
        utf8_len(s.take(k)) <= utf8_len(s),
    decreases s.len(),
{
    if k < s.len() {
        lemma_utf8_len_monotone(s.drop_last(), k);
        assert(s.drop_last().take(k) =~= s.take(k));
    } else {
        assert(s.take(k) =~= s);
    }
}

proof fn lemma_chars_within(s: Seq<char>, n: nat, k: int)
    requires
        0 <= k <= s.len(),
        utf8_len(s.take(k)) <= n,
        k < s.len() ==> utf8_len(s.take(k + 1)) > n,
    ensures
        chars_within(s, n) == k,
    decreases s.len(),
{
    if k == s.len() {
        assert(s.take(k) =~= s);
    } else {
        lemma_utf8_len_monotone(s, k + 1);
        assert(s.drop_last().take(k) =~= s.take(k));
        if k < s.len() - 1 {
            assert(s.drop_last().take(k + 1) =~= s.take(k + 1));
        }
        lemma_chars_within(s.drop_last(), n, k);
    }
}

/// Where a text is cut that takes more than `n` bytes, and whether it can be cut
/// there; none for a text of `n` bytes or fewer.
pub fn cut_within(s: &str, n: usize) -> (r: Option<(usize, bool)>)
    ensures
        match r {
            None => utf8_len(s@) <= n,
            Some((k, even)) => utf8_len(s@) > n && k == chars_within(s@, n as nat) && k <= s@.len()
                && even == cuts_at(s@, n as nat),
        },
{
    let chars = chars_of(s);
    let mut used: usize = 0;
    let mut i: usize = 0;
    assert(s@.take(0).len() == 0);
    while i < chars.len()
        invariant
            i <= chars.len(),
            chars@ == s@,
            used == utf8_len(s@.take(i as int)),
            used <= n,
        decreases chars.len() - i,
    {
        let w = char_width(chars[i]);
        assert(s@.take(i + 1).drop_last() =~= s@.take(i as int));
        if w > n - used {
            proof {
                lemma_chars_within(s@, n as nat, i as int);
                lemma_utf8_len_monotone(s@, i + 1);
            }
            return Some((i, used == n));
        }
        used = used + w;
        i += 1;
    }
    assert(s@.take(i as int) =~= s@);
    None
}

pub proof fn lemma_utf8_len_concat(a: Seq<char>, b: Seq<char>)
    ensures
        utf8_len(a + b) == utf8_len(a) + utf8_len(b),
    decreases b.len(),
{
    if b.len() == 0 {
        assert(a + b =~= a);
    } else {
        assert((a + b).drop_last() =~= a + b.drop_last());
        lemma_utf8_len_concat(a, b.drop_last());
    }
}

/// A text has as many bytes as its characters take.
pub proof fn lemma_utf8_len_bytes(s: Seq<char>)
    ensures
        vstd::utf8::encode_utf8(s).len() == utf8_len(s),
    decreases s.len(),
{
    if s.len() > 0 {
        let c = s[0];
        let rest = s.drop_first();
        lemma_utf8_len_bytes(rest);
        vstd::utf8::char_is_scalar(c);
        assert(s =~= seq![c] + rest);
        lemma_utf8_len_concat(seq![c], rest);
        assert(seq![c].drop_last() =~= Seq::<char>::empty());
        assert(utf8_len(seq![c]) == utf8_width(c)) by {
            reveal_with_fuel(utf8_len, 2);
        }
        assert(vstd::utf8::encode_scalar(c as u32).len() == utf8_width(c));
    }
}

/// How many bytes a text takes in UTF-8.
pub fn byte_len(s: &str) -> (r: usize)
    ensures
        r == utf8_len(s@),
{
    proof {
        lemma_utf8_len_bytes(s@);
    }
    s.as_bytes().len()
}

/// Where a text can be cut behind its first characters.
pub proof fn lemma_cuts_behind(a: Seq<char>, b: Seq<char>)
    ensures
        cuts_at(a + b, utf8_len(a)),
        chars_within(a + b, utf8_len(a)) == a.len(),
{
    let s = a + b;
    assert(s.take(a.len() as int) =~= a);
    if b.len() > 0 {
        assert(s.take(a.len() as int + 1).drop_last() =~= a);
    }
    lemma_chars_within(s, utf8_len(a), a.len() as int);
}

/// The size of a text in bytes, as the machine counts them.
pub open spec fn byte_size(s: Seq<char>) -> usize {
    vstd::utf8::encode_utf8(s).len() as usize
}

/// The size of a text in bytes.
pub fn size_in_bytes(s: &str) -> (r: usize)
    ensures
        r == byte_size(s@),
{
    s.len()
}

// --------------------------------------------------------------------- quoting

/// What `{:?}` writes of a text.
pub uninterp spec fn debug_text(s: Seq<char>) -> Seq<char>;

/// `format!("{:?}", ..)` of a text, by `str`'s `Debug`: the text between double
/// quotes, with escapes inside. It depends on the text alone, and ASCII letters
/// and digits stand for themselves.
#[verifier::external_body]
pub(crate) fn quoted(s: &str) -> (r: String)
    ensures
        r@ == debug_text(s@),
        (forall|i: int| 0 <= i < s@.len() ==> ascii_alphanumeric(#[trigger] s@[i])) ==> r@ == "\""@
            + s@ + "\""@,
{
    format!("{:?}", s)
}

// ------------------------------------------------------------------------ laws

/// What stands in a text stands in every text that holds it.
pub proof fn lemma_occurs_in_both(a: Seq<char>, b: Seq<char>, x: Seq<char>)
    ensures
        occurs(a, x) ==> occurs(a + b, x),
        occurs(b, x) ==> occurs(a + b, x),
        occurs(x, x),
{
    let all = a + b;
    if occurs(a, x) {
        let i = choose|i: int| occurs_at(a, x, i);
        assert(all.subrange(i, i + x.len()) =~= a.subrange(i, i + x.len()));
        assert(occurs_at(all, x, i));
    }
    if occurs(b, x) {
        let i = choose|i: int| occurs_at(b, x, i);
        assert(all.subrange(i + a.len(), i + a.len() + x.len()) =~= b.subrange(i, i + x.len()));
        assert(occurs_at(all, x, i + a.len()));
    }
    assert(x.subrange(0, x.len() as int) =~= x);
    assert(occurs_at(x, x, 0));
}

/// Trimming takes away white space at both ends and nothing else.
pub proof fn trimming_cuts_only_white(s: Seq<char>)
    ensures
        exists|left: int, right: int|
            #![trigger s.subrange(left, right)]
            {
                &&& 0 <= left <= right <= s.len()
                &&& trimmed(s) == s.subrange(left, right)
                &&& forall|i: int| 0 <= i < left ==> white_char(#[trigger] s[i])
                &&& forall|i: int| right <= i < s.len() ==> white_char(#[trigger] s[i])
            },
        trimmed(s).len() > 0 ==> !white_char(trimmed(s)[0]) && !white_char(trimmed(s).last()),
        s.len() > 0 && !white_char(s[0]) && !white_char(s.last()) ==> trimmed(s) == s,
{
    let p = white();
    let a = drop_leading(s, p);
    let b = drop_trailing(a, p);
    lemma_drop_leading_is_suffix(s, p);
    lemma_drop_trailing_is_prefix(a, p);
    lemma_drop_leading_edge(s, p);
    lemma_drop_trailing_edge(a, p);
    lemma_dropped_are_white(s, p);
    lemma_dropped_at_end(a, p);
    let left = s.len() - a.len();
    let right = left + b.len();
    assert(b =~= s.subrange(left, right));
    assert forall|i: int| right <= i < s.len() implies white_char(#[trigger] s[i]) by {
        assert(a[i - left] == s[i]);
        assert(p(a[i - left]));
    }
    assert forall|i: int| 0 <= i < left implies white_char(#[trigger] s[i]) by {
        assert(p(s[i]));
    }
    if b.len() > 0 {
        assert(b[0] == a[0]);
    }
    if s.len() > 0 && !white_char(s[0]) && !white_char(s.last()) {
        assert(!p(s[0]) && !p(s.last()));
    }
}

proof fn lemma_dropped_are_white(s: Seq<char>, p: spec_fn(char) -> bool)
    ensures
        forall|i: int| 0 <= i < s.len() - drop_leading(s, p).len() ==> p(#[trigger] s[i]),
    decreases s.len(),
{
    if s.len() > 0 && p(s[0]) {
        let t = s.drop_first();
        lemma_dropped_are_white(t, p);
        assert forall|i: int| 0 <= i < s.len() - drop_leading(s, p).len() implies p(
            #[trigger] s[i],
        ) by {
            if i > 0 {
                assert(t[i - 1] == s[i]);
            }
        }
    }
}

proof fn lemma_dropped_at_end(s: Seq<char>, p: spec_fn(char) -> bool)
    ensures
        forall|i: int| drop_trailing(s, p).len() <= i < s.len() ==> p(#[trigger] s[i]),
    decreases s.len(),
{
    if s.len() > 0 && p(s.last()) {
        let t = s.drop_last();
        lemma_dropped_at_end(t, p);
        assert forall|i: int| drop_trailing(s, p).len() <= i < s.len() implies p(
            #[trigger] s[i],
        ) by {
            if i < t.len() {
                assert(t[i] == s[i]);
            }
        }
    }
}

/// Where a text is found is where it first stands; where it is not found, it does
/// not stand.
pub proof fn what_is_found_is_the_first(hay: Seq<char>, needle: Seq<char>)
    ensures
        match index_of(hay, needle) {
            Some(k) => occurs_at(hay, needle, k) && forall|j: int|
                0 <= j < k ==> !#[trigger] occurs_at(hay, needle, j),
            None => !occurs(hay, needle),
        },
    decreases hay.len(),
{
    lemma_occurs_at_prefix(hay, needle);
    if !needle.is_prefix_of(hay) && hay.len() > 0 {
        let t = hay.drop_first();
        what_is_found_is_the_first(t, needle);
        assert forall|j: int| j >= 1 implies occurs_at(hay, needle, j) == #[trigger] occurs_at(
            t,
            needle,
            j - 1,
        ) by {
            if j + needle.len() <= hay.len() {
                assert(hay.subrange(j, j + needle.len()) =~= t.subrange(
                    j - 1,
                    j - 1 + needle.len(),
                ));
            }
        }
        match index_of(t, needle) {
            Some(k) => {
                assert(occurs_at(hay, needle, k + 1) == occurs_at(t, needle, k + 1 - 1));
                assert forall|j: int| 0 <= j < k + 1 implies !#[trigger] occurs_at(
                    hay,
                    needle,
                    j,
                ) by {
                    if j > 0 {
                        assert(occurs_at(hay, needle, j) == occurs_at(t, needle, j - 1));
                    }
                }
            },
            None => {
                if occurs(hay, needle) {
                    let j = choose|j: int| occurs_at(hay, needle, j);
                    if j > 0 {
                        assert(occurs_at(hay, needle, j) == occurs_at(t, needle, j - 1));
                    }
                }
            },
        }
    } else if hay.len() == 0 && !needle.is_prefix_of(hay) {
        if occurs(hay, needle) {
            let j = choose|j: int| occurs_at(hay, needle, j);
            assert(j == 0);
        }
    }
}

/// Joining the pieces of a text with what stood between them gives the text back,
/// and no piece holds the separator.
pub proof fn joining_undoes_splitting(s: Seq<char>, sep: char)
    ensures
        joined(pieces(s, sep), seq![sep]) == s,
        forall|i: int|
            0 <= i < pieces(s, sep).len() ==> !(#[trigger] pieces(s, sep)[i]).contains(sep),
    decreases s.len(),
{
    let all = pieces(s, sep);
    if s.contains(sep) {
        s.index_of_first_ensures(sep);
        let i = s.index_of_first(sep)->0;
        let rest = pieces(s.skip(i + 1), sep);
        joining_undoes_splitting(s.skip(i + 1), sep);
        lemma_joined_first(s.take(i), rest, seq![sep]);
        assert(s.take(i) + seq![sep] + s.skip(i + 1) =~= s);
        assert forall|k: int| 0 <= k < all.len() implies !(#[trigger] all[k]).contains(sep) by {
            if k == 0 {
                if s.take(i).contains(sep) {
                    let j = choose|j: int| 0 <= j < s.take(i).len() && s.take(i)[j] == sep;
                    assert(s[j] == sep);
                }
            } else {
                assert(all[k] == rest[k - 1]);
            }
        }
    }
}

proof fn lemma_joined_first(first: Seq<char>, rest: Seq<Seq<char>>, sep: Seq<char>)
    requires
        rest.len() > 0,
    ensures
        joined(seq![first] + rest, sep) == first + sep + joined(rest, sep),
    decreases rest.len(),
{
    let all = seq![first] + rest;
    assert(all.last() == rest.last());
    if rest.len() == 1 {
        assert(all.drop_last() =~= seq![first]);
        assert(joined(seq![first], sep) == first);
        assert(joined(rest, sep) == rest[0]);
        assert(all.last() == rest[0]);
    } else {
        lemma_joined_first(first, rest.drop_last(), sep);
        assert(all.drop_last() =~= seq![first] + rest.drop_last());
        assert(joined(all, sep) =~= first + sep + joined(rest, sep));
    }
}

/// Each of the texts that are joined stands in the result.
pub proof fn what_is_joined_is_there(parts: Seq<Seq<char>>, sep: Seq<char>, i: int)
    requires
        0 <= i < parts.len(),
    ensures
        occurs(joined(parts, sep), parts[i]),
    decreases parts.len(),
{
    if parts.len() == 1 {
        lemma_occurs_in_both(parts[0], parts[0], parts[0]);
    } else {
        let head = joined(parts.drop_last(), sep);
        lemma_occurs_in_both(head + sep, parts.last(), parts[i]);
        if i < parts.len() - 1 {
            what_is_joined_is_there(parts.drop_last(), sep, i);
            lemma_occurs_in_both(head, sep, parts[i]);
        } else {
            lemma_occurs_in_both(parts[i], parts[i], parts[i]);
        }
    }
}

/// Lowering a text changes its capital ASCII letters, and no other character.
pub proof fn lowering_changes_capitals_only(s: Seq<char>, i: int)
    requires
        0 <= i < s.len(),
    ensures
        ascii_lowercase_text(s).len() == s.len(),
        !ascii_upper(ascii_lowercase_text(s)[i]),
        !ascii_upper(s[i]) ==> ascii_lowercase_text(s)[i] == s[i],
        ascii_upper(s[i]) ==> ascii_lower(ascii_lowercase_text(s)[i])
            && ascii_lowercase_text(s)[i] as u32 == s[i] as u32 + 32,
{
    if ascii_upper(s[i]) {
        assert(('A' as u32) + 32 <= (s[i] as u32 + 32) as u32 <= ('Z' as u32) + 32);
    }
}

/// The first characters of a text are its beginning, as many as asked for or all.
pub proof fn first_characters_are_the_beginning(s: Seq<char>, n: int)
    requires
        n >= 0,
    ensures
        first_chars(s, n).is_prefix_of(s),
        s.len() <= n ==> first_chars(s, n) == s,
        s.len() > n ==> first_chars(s, n).len() == n,
{
    let r = first_chars(s, n);
    assert(r =~= s.subrange(0, r.len() as int));
}

/// Replacing a character changes that character everywhere, and no other.
pub proof fn replacing_changes_one_character(s: Seq<char>, from: char, to: char, i: int)
    requires
        0 <= i < s.len(),
    ensures
        replaced_char(s, from, to).len() == s.len(),
        s[i] == from ==> replaced_char(s, from, to)[i] == to,
        s[i] != from ==> replaced_char(s, from, to)[i] == s[i],
{
}

} // verus!
