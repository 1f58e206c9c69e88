//! File paths with `/` between their parts.
use vstd::prelude::*;
use vstd::string::*;

use crate::text::{join, joined, pieces, split_on, starts_with, str_eq, texts};

verus! {

broadcast use vstd::string::group_string_axioms;

/// Whether a path starts at the root.
pub open spec fn absolute(p: Seq<char>) -> bool {
    "/"@.is_prefix_of(p)
}

/// The parts that count: empty ones fall away, and so does `.` behind the first.
pub open spec fn kept_parts(ps: Seq<Seq<char>>) -> Seq<Seq<char>>
    decreases ps.len(),
{
    if ps.len() == 0 {
        ps
    } else {
        let head = kept_parts(ps.drop_last());
        if ps.last().len() == 0 || (ps.last() == "."@ && ps.len() > 1) {
            head
        } else {
            head.push(ps.last())
        }
    }
}

/// The parts of a path.
pub open spec fn path_parts(p: Seq<char>) -> Seq<Seq<char>> {
    kept_parts(pieces(p, '/'))
}

/// The path of the given parts.
pub open spec fn path_of(rooted: bool, parts: Seq<Seq<char>>) -> Seq<char> {
    if rooted {
        "/"@ + joined(parts, "/"@)
    } else {
        joined(parts, "/"@)
    }
}

/// The last part of a path, where it names something.
pub open spec fn file_name_text(p: Seq<char>) -> Option<Seq<char>> {
    let parts = path_parts(p);
    if parts.len() == 0 || parts.last() == "."@ || parts.last() == ".."@ {
        None
    } else {
        Some(parts.last())
    }
}

/// The path without its last part; none of the root and of the empty path.
pub open spec fn parent_text(p: Seq<char>) -> Option<Seq<char>> {
    let parts = path_parts(p);
    if parts.len() == 0 {
        None
    } else {
        Some(path_of(absolute(p), parts.drop_last()))
    }
}

/// `child` seen from `base`: itself where it is absolute, else behind `base`.
pub open spec fn joined_path(base: Seq<char>, child: Seq<char>) -> Seq<char> {
    if absolute(child) || base.len() == 0 {
        child
    } else if base.last() == '/' {
        base + child
    } else {
        base + "/"@ + child
    }
}

/// The parts of `p` behind those of `root`, where `p` lies under `root`.
pub open spec fn parts_under(root: Seq<char>, p: Seq<char>) -> Option<Seq<Seq<char>>> {
    if absolute(root) == absolute(p) && path_parts(root).is_prefix_of(path_parts(p)) {
        Some(path_parts(p).skip(path_parts(root).len() as int))
    } else {
        None
    }
}

/// Whether `p` is `root` or lies under it.
pub open spec fn lies_under(root: Seq<char>, p: Seq<char>) -> bool {
    parts_under(root, p) is Some
}

pub fn is_absolute(p: &str) -> (r: bool)
    ensures
        r == absolute(p@),
{
    starts_with(p, "/")
}

/// The parts of a path.
pub fn parts_of(p: &str) -> (r: Vec<String>)
    ensures
        texts(r@) == path_parts(p@),
{
    let raw = split_on(p, '/');
    let ghost all = texts(raw@);
    let mut r: Vec<String> = Vec::new();
    let mut i: usize = 0;
    assert(texts(r@) =~= kept_parts(all.take(0)));
    while i < raw.len()
        invariant
            i <= raw.len(),
            all == texts(raw@),
            texts(r@) == kept_parts(all.take(i as int)),
        decreases raw.len() - i,
    {
        let ghost before = texts(r@);
        assert(all.take(i + 1).drop_last() =~= all.take(i as int));
        assert(all.take(i + 1).last() == raw@[i as int]@);
        if !raw[i].as_str().is_empty() && !(i > 0 && str_eq(&raw[i], ".")) {
            r.push(raw[i].clone());
            assert(texts(r@) =~= before.push(raw@[i as int]@));
        }
        i += 1;
    }
    assert(all.take(i as int) =~= all);
    r
}

fn path_from(rooted: bool, parts: &Vec<String>) -> (r: String)
    ensures
        r@ == path_of(rooted, texts(parts@)),
{
    let body = join(parts, "/");
    if rooted {
        let mut r = "/".to_owned();
        r.push_str(&body);
        r
    } else {
        body
    }
}

/// The last part of a path, where it names something.
pub fn file_name(p: &str) -> (r: Option<String>)
    ensures
        crate::message::option_text(r) == file_name_text(p@),
{
    let mut parts = parts_of(p);
    let ghost all = texts(parts@);
    match parts.pop() {
        None => None,
        Some(last) => {
            assert(all.last() == last@);
            if str_eq(&last, ".") || str_eq(&last, "..") {
                None
            } else {
                Some(last)
            }
        },
    }
}

/// The path without its last part.
pub fn parent(p: &str) -> (r: Option<String>)
    ensures
        crate::message::option_text(r) == parent_text(p@),
{
    let mut parts = parts_of(p);
    let ghost all = texts(parts@);
    match parts.pop() {
        None => None,
        Some(_) => {
            assert(texts(parts@) =~= all.drop_last());
            Some(path_from(is_absolute(p), &parts))
        },
    }
}

/// `child` seen from `base`.
pub fn join_path(base: &str, child: &str) -> (r: String)
    ensures
        r@ == joined_path(base@, child@),
{
    if is_absolute(child) || base.is_empty() {
        return child.to_owned();
    }
    let mut r = base.to_owned();
    let slashed = crate::text::ends_with(base, "/");
    proof {
        reveal_strlit("/");
        if slashed {
            assert("/"@[0] == base@.subrange(base@.len() - 1, base@.len() as int)[0]);
        } else {
            if base@.last() == '/' {
                assert("/"@ =~= base@.subrange(base@.len() - 1, base@.len() as int));
            }
        }
    }
    if !slashed {
        r.push_str("/");
    }
    r.push_str(child);
    r
}

/// The parts of `p` behind those of `root`, where `p` lies under `root`.
pub fn strip_root(root: &str, p: &str) -> (r: Option<Vec<String>>)
    ensures
        match r {
            Some(rest) => parts_under(root@, p@) == Some(texts(rest@)),
            None => parts_under(root@, p@) is None,
        },
{
    if is_absolute(root) != is_absolute(p) {
        return None;
    }
    let base = parts_of(root);
    let parts = parts_of(p);
    if base.len() > parts.len() {
        return None;
    }
    let mut i: usize = 0;
    while i < base.len()
        invariant
            base.len() <= parts.len(),
            i <= base.len(),
            texts(base@) == path_parts(root@),
            texts(parts@) == path_parts(p@),
            forall|j: int| 0 <= j < i ==> texts(base@)[j] == texts(parts@)[j],
        decreases base.len() - i,
    {
        if !str_eq(&base[i], &parts[i]) {
            assert(texts(base@)[i as int] != texts(parts@).subrange(0, base@.len() as int)[i as int]);
            return None;
        }
        i += 1;
    }
    let mut rest: Vec<String> = Vec::new();
    while i < parts.len()
        invariant
            base.len() <= i <= parts.len(),
            texts(rest@) == texts(parts@).subrange(base@.len() as int, i as int),
        decreases parts.len() - i,
    {
        let ghost before = texts(rest@);
        rest.push(parts[i].clone());
        i += 1;
        assert(texts(rest@) =~= before.push(parts@[i - 1]@));
        assert(texts(rest@) =~= texts(parts@).subrange(base@.len() as int, i as int));
    }
    assert(texts(base@) =~= texts(parts@).subrange(0, base@.len() as int));
    assert(texts(parts@).subrange(base@.len() as int, parts@.len() as int) =~= texts(parts@).skip(
        base@.len() as int,
    ));
    Some(rest)
}

/// Whether `p` is `root` or lies under it.
pub fn is_under(root: &str, p: &str) -> (r: bool)
    ensures
        r == lies_under(root@, p@),
{
    strip_root(root, p).is_some()
}

/// A path, its parent, the parent of that, and so on.
pub open spec fn ancestors_from(rooted: bool, parts: Seq<Seq<char>>) -> Seq<Seq<char>>
    decreases parts.len(),
{
    if parts.len() == 0 {
        seq![path_of(rooted, parts)]
    } else {
        seq![path_of(rooted, parts)] + ancestors_from(rooted, parts.drop_last())
    }
}

/// A path, its parent, the parent of that, and so on to the end.
pub fn ancestors(p: &str) -> (r: Vec<String>)
    ensures
        texts(r@) == ancestors_from(absolute(p@), path_parts(p@)),
{
    let rooted = is_absolute(p);
    let mut parts = parts_of(p);
    let ghost all = path_parts(p@);
    let mut r: Vec<String> = Vec::new();
    assert(all.take(parts@.len() as int) =~= all);
    assert(texts(r@) + ancestors_from(rooted, all) =~= ancestors_from(rooted, all));
    loop
        invariant
            parts.len() <= all.len(),
            rooted == absolute(p@),
            all == path_parts(p@),
            texts(parts@) == all.take(parts@.len() as int),
            texts(r@) + ancestors_from(rooted, texts(parts@)) == ancestors_from(rooted, all),
        decreases parts.len(),
    {
        let ghost before = texts(r@);
        let ghost now = texts(parts@);
        let path = path_from(rooted, &parts);
        let ghost path_text = path@;
        r.push(path);
        assert(texts(r@) =~= before.push(path_text));
        if parts.len() == 0 {
            assert(texts(r@) =~= before + ancestors_from(rooted, now));
            return r;
        }
        let _ = parts.pop();
        assert(texts(parts@) =~= now.drop_last());
        assert(texts(parts@) =~= all.take(parts@.len() as int));
        assert(texts(r@) + ancestors_from(rooted, texts(parts@)) =~= before + ancestors_from(
            rooted,
            now,
        ));
    }
}

// ---------------------------------------------------------------------- laws

proof fn lemma_pieces_prepend(a: Seq<char>, b: Seq<char>)
    requires
        !a.contains('/'),
    ensures
        pieces(a + "/"@ + b, '/') == seq![a] + pieces(b, '/'),
{
    reveal_strlit("/");
    let s = a + "/"@ + b;
    let n = a.len() as int;
    assert(s[n] == '/');
    assert(s.contains('/'));
    let i = s.index_of_first('/')->0;
    s.index_of_first_ensures('/');
    if i < n {
        assert(a[i] == '/');
    }
    assert(i == n);
    assert(s.take(n) =~= a);
    assert(s.skip(n + 1) =~= b);
}

/// The pieces of two texts with a slash between them are those of the one and
/// then those of the other.
pub proof fn lemma_pieces_slash(a: Seq<char>, b: Seq<char>)
    ensures
        pieces(a + "/"@ + b, '/') == pieces(a, '/') + pieces(b, '/'),
    decreases a.len(),
{
    reveal_strlit("/");
    if !a.contains('/') {
        lemma_pieces_prepend(a, b);
    } else {
        let i = a.index_of_first('/')->0;
        a.index_of_first_ensures('/');
        let head = a.take(i);
        let tail = a.skip(i + 1);
        assert(!head.contains('/'));
        assert(a =~= head + "/"@ + tail);
        assert(a + "/"@ + b =~= head + "/"@ + (tail + "/"@ + b));
        lemma_pieces_prepend(head, tail + "/"@ + b);
        lemma_pieces_slash(tail, b);
        assert(pieces(a, '/') =~= seq![head] + pieces(tail, '/'));
        assert(seq![head] + (pieces(tail, '/') + pieces(b, '/')) =~= pieces(a, '/') + pieces(
            b,
            '/',
        ));
    }
}

proof fn lemma_pieces_nonempty(s: Seq<char>)
    ensures
        pieces(s, '/').len() >= 1,
{
}

/// Parts that follow a path keep all that has a name.
proof fn lemma_kept_append(ps: Seq<Seq<char>>, qs: Seq<Seq<char>>)
    requires
        ps.len() >= 1,
        forall|i: int| 0 <= i < qs.len() ==> (#[trigger] qs[i]).len() > 0 && qs[i] != "."@,
    ensures
        kept_parts(ps + qs) == kept_parts(ps) + qs,
    decreases qs.len(),
{
    if qs.len() == 0 {
        assert(ps + qs =~= ps);
        assert(kept_parts(ps) + qs =~= kept_parts(ps));
    } else {
        lemma_kept_append(ps, qs.drop_last());
        assert((ps + qs).drop_last() =~= ps + qs.drop_last());
        assert((ps + qs).last() == qs.last());
        assert(qs[qs.len() - 1] == qs.last());
        assert(kept_parts(ps) + qs =~= (kept_parts(ps) + qs.drop_last()).push(qs.last()));
    }
}

/// A part of a path: not empty and without a slash.
pub open spec fn plain_part(s: Seq<char>) -> bool {
    s.len() > 0 && s != "."@ && s != ".."@ && !s.contains('/')
}

proof fn lemma_pieces_of_joined(parts: Seq<Seq<char>>)
    requires
        parts.len() > 0,
        forall|i: int| 0 <= i < parts.len() ==> plain_part(#[trigger] parts[i]),
    ensures
        pieces(joined(parts, "/"@), '/') == parts,
    decreases parts.len(),
{
    if parts.len() == 1 {
        assert(plain_part(parts[0]));
        assert(pieces(parts[0], '/') =~= parts);
    } else {
        let head = parts.drop_last();
        lemma_pieces_of_joined(head);
        lemma_pieces_slash(joined(head, "/"@), parts.last());
        assert(plain_part(parts[parts.len() - 1]));
        assert(pieces(parts.last(), '/') =~= seq![parts.last()]);
        assert(head + seq![parts.last()] =~= parts);
    }
}

/// Plain parts behind a root stay under the root: nothing in them leads out.
pub proof fn plain_parts_stay_under(root: Seq<char>, parts: Seq<Seq<char>>)
    requires
        root.len() > 0,
        root.last() != '/',
        parts.len() > 0,
        forall|i: int| 0 <= i < parts.len() ==> plain_part(#[trigger] parts[i]),
    ensures
        lies_under(root, joined_path(root, joined(parts, "/"@))),
        path_parts(joined_path(root, joined(parts, "/"@))) == path_parts(root) + parts,
{
    reveal_strlit("/");
    let child = joined(parts, "/"@);
    lemma_pieces_of_joined(parts);
    if absolute(child) {
        assert(child.subrange(0, 1)[0] == "/"@[0]);
        assert(child =~= Seq::<char>::empty() + "/"@ + child.skip(1));
        lemma_pieces_prepend(Seq::empty(), child.skip(1));
        assert(pieces(child, '/')[0].len() == 0);
        assert(plain_part(parts[0]));
    }
    lemma_pieces_slash(root, child);
    lemma_pieces_nonempty(root);
    assert forall|i: int| 0 <= i < parts.len() implies (#[trigger] parts[i]).len() > 0 && parts[i]
        != "."@ by {
        assert(plain_part(parts[i]));
    }
    lemma_kept_append(pieces(root, '/'), parts);
    let whole = joined_path(root, child);
    assert(whole == root + "/"@ + child);
    assert(absolute(whole) == absolute(root)) by {
        assert(whole[0] == root[0]);
        if absolute(root) {
            assert("/"@ =~= whole.take(1));
        }
        if absolute(whole) {
            assert("/"@ =~= root.take(1));
        }
    }
    assert(path_parts(root).is_prefix_of(path_parts(whole)));
}

/// The parts that count in what follows another path: all that have a name.
pub open spec fn later_parts(ps: Seq<Seq<char>>) -> Seq<Seq<char>>
    decreases ps.len(),
{
    if ps.len() == 0 {
        ps
    } else {
        let head = later_parts(ps.drop_last());
        if ps.last().len() == 0 || ps.last() == "."@ {
            head
        } else {
            head.push(ps.last())
        }
    }
}

proof fn lemma_kept_joined(ps: Seq<Seq<char>>, qs: Seq<Seq<char>>)
    requires
        ps.len() >= 1,
    ensures
        kept_parts(ps + qs) == kept_parts(ps) + later_parts(qs),
    decreases qs.len(),
{
    if qs.len() == 0 {
        assert(ps + qs =~= ps);
        assert(kept_parts(ps) + later_parts(qs) =~= kept_parts(ps));
    } else {
        lemma_kept_joined(ps, qs.drop_last());
        assert((ps + qs).drop_last() =~= ps + qs.drop_last());
        assert((ps + qs).last() == qs.last());
        assert(kept_parts(ps + qs) =~= kept_parts(ps) + later_parts(qs));
    }
}

proof fn lemma_no_parent_kept(qs: Seq<Seq<char>>)
    ensures
        later_parts(qs).contains(".."@) ==> kept_parts(qs).contains(".."@),
    decreases qs.len(),
{
    reveal_strlit(".");
    reveal_strlit("..");
    if qs.len() > 0 {
        lemma_no_parent_kept(qs.drop_last());
        let later = later_parts(qs.drop_last());
        let kept = kept_parts(qs.drop_last());
        if later_parts(qs).contains(".."@) {
            if qs.last() == ".."@ {
                assert(kept_parts(qs) =~= kept.push(qs.last()));
                assert(kept_parts(qs)[kept.len() as int] == ".."@);
            } else {
                let i = choose|i: int| 0 <= i < later_parts(qs).len() && later_parts(qs)[i] == ".."@;
                assert(later[i] == ".."@);
                assert(later.contains(".."@));
                let k = choose|k: int| 0 <= k < kept.len() && kept[k] == ".."@;
                assert(kept_parts(qs)[k] == ".."@);
            }
        }
    }
}

/// A relative path without `..` leads to a place under the root that it is
/// joined to.
pub proof fn joined_paths_stay_under(root: Seq<char>, child: Seq<char>)
    requires
        root.len() > 0,
        root.last() != '/',
        !absolute(child),
        !path_parts(child).contains(".."@),
    ensures
        lies_under(root, joined_path(root, child)),
        !parts_under(root, joined_path(root, child))->0.contains(".."@),
{
    reveal_strlit("/");
    let whole = joined_path(root, child);
    lemma_pieces_slash(root, child);
    lemma_pieces_nonempty(root);
    lemma_kept_joined(pieces(root, '/'), pieces(child, '/'));
    lemma_no_parent_kept(pieces(child, '/'));
    assert(absolute(whole) == absolute(root)) by {
        assert(whole[0] == root[0]);
        if absolute(root) {
            assert("/"@ =~= whole.take(1));
        }
        if absolute(whole) {
            assert("/"@ =~= root.take(1));
        }
    }
    let below = later_parts(pieces(child, '/'));
    assert(path_parts(whole) == path_parts(root) + below);
    assert(path_parts(root).is_prefix_of(path_parts(whole)));
    assert(path_parts(whole).skip(path_parts(root).len() as int) =~= below);
}

// ----------------------------------------------------------------- reading paths back

/// A path that is put together from plain parts has those parts.
pub proof fn paths_have_their_parts(rooted: bool, parts: Seq<Seq<char>>)
    requires
        forall|i: int| 0 <= i < parts.len() ==> plain_part(#[trigger] parts[i]),
        parts.len() > 0,
    ensures
        path_parts(path_of(rooted, parts)) == parts,
        absolute(path_of(rooted, parts)) == rooted,
{
    reveal_strlit("/");
    let text = joined(parts, "/"@);
    lemma_pieces_of_joined(parts);
    lemma_begins_plain(parts);
    if rooted {
        let p = path_of(true, parts);
        assert("/"@ =~= p.subrange(0, 1));
        let none = Seq::<char>::empty();
        assert(p =~= none + "/"@ + text);
        assert(!none.contains('/'));
        lemma_pieces_prepend(none, text);
        let ps = seq![none];
        assert(pieces(p, '/') =~= ps + parts);
        assert forall|i: int| 0 <= i < parts.len() implies (#[trigger] parts[i]).len() > 0
            && parts[i] != "."@ by {
            assert(plain_part(parts[i]));
        }
        lemma_kept_append(ps, parts);
        assert(ps.drop_last() =~= Seq::<Seq<char>>::empty());
        assert(kept_parts(ps.drop_last()) =~= Seq::<Seq<char>>::empty());
        assert(kept_parts(ps) =~= Seq::<Seq<char>>::empty());
        assert(kept_parts(ps) + parts =~= parts);
    } else {
        lemma_plain_kept(parts);
        assert(!absolute(text)) by {
            if absolute(text) {
                assert("/"@ == text.subrange(0, 1));
                assert(text.subrange(0, 1)[0] == text[0]);
            }
        }
    }
}

proof fn lemma_begins_plain(parts: Seq<Seq<char>>)
    requires
        forall|i: int| 0 <= i < parts.len() ==> plain_part(#[trigger] parts[i]),
        parts.len() > 0,
    ensures
        joined(parts, "/"@).len() > 0,
        joined(parts, "/"@)[0] != '/',
    decreases parts.len(),
{
    assert(plain_part(parts[0]));
    if parts.len() == 1 {
        assert(parts[0].contains(parts[0][0]));
    } else {
        let head = parts.drop_last();
        assert forall|i: int| 0 <= i < head.len() implies plain_part(#[trigger] head[i]) by {
            assert(head[i] == parts[i]);
        }
        lemma_begins_plain(head);
    }
}

proof fn lemma_plain_kept(parts: Seq<Seq<char>>)
    requires
        forall|i: int| 0 <= i < parts.len() ==> plain_part(#[trigger] parts[i]),
    ensures
        kept_parts(parts) == parts,
    decreases parts.len(),
{
    if parts.len() > 0 {
        let head = parts.drop_last();
        assert forall|i: int| 0 <= i < head.len() implies plain_part(#[trigger] head[i]) by {
            assert(head[i] == parts[i]);
        }
        lemma_plain_kept(head);
        assert(plain_part(parts[parts.len() - 1]));
        assert(head.push(parts.last()) =~= parts);
    }
}

/// A file is called by the last part of its path, and lies in what is left of the
/// path without it.
pub proof fn a_file_lies_in_its_parent(rooted: bool, parts: Seq<Seq<char>>)
    requires
        forall|i: int| 0 <= i < parts.len() ==> plain_part(#[trigger] parts[i]),
        parts.len() > 1,
    ensures
        file_name_text(path_of(rooted, parts)) == Some(parts.last()),
        parent_text(path_of(rooted, parts)) == Some(path_of(rooted, parts.drop_last())),
        path_parts(parent_text(path_of(rooted, parts))->0) == parts.drop_last(),
{
    paths_have_their_parts(rooted, parts);
    let head = parts.drop_last();
    assert forall|i: int| 0 <= i < head.len() implies plain_part(#[trigger] head[i]) by {
        assert(head[i] == parts[i]);
    }
    paths_have_their_parts(rooted, head);
    assert(plain_part(parts[parts.len() - 1]));
}

/// A path is joined below another, unless it says where it begins itself.
pub proof fn paths_are_joined_below(base: Seq<char>, child: Seq<char>)
    ensures
        absolute(child) ==> joined_path(base, child) == child,
        !absolute(child) && base.len() > 0 ==> base.is_prefix_of(joined_path(base, child))
            && child.is_suffix_of(joined_path(base, child)),
        base.len() == 0 ==> joined_path(base, child) == child,
{
    let r = joined_path(base, child);
    if !absolute(child) && base.len() > 0 {
        assert(base =~= r.subrange(0, base.len() as int));
        assert(child =~= r.subrange(r.len() - child.len(), r.len() as int));
    }
}

/// A path lies under another where it begins with its parts, and either both begin at
/// the root or neither does.
pub proof fn what_lies_under_a_path(root: Seq<char>, p: Seq<char>)
    ensures
        lies_under(root, p) <==> absolute(root) == absolute(p) && path_parts(root).is_prefix_of(
            path_parts(p),
        ),
        parts_under(root, p) matches Some(rest) ==> path_parts(root) + rest == path_parts(p),
        lies_under(p, p),
{
    if parts_under(root, p) is Some {
        let r = path_parts(root);
        let all = path_parts(p);
        assert(r == all.subrange(0, r.len() as int));
        assert(r + all.skip(r.len() as int) =~= all);
    }
    assert(path_parts(p) =~= path_parts(p).subrange(0, path_parts(p).len() as int));
}

/// The directories above a path are found one by one, from the path itself up to
/// where it begins.
pub proof fn ancestors_lead_up(rooted: bool, parts: Seq<Seq<char>>, i: int)
    requires
        0 <= i <= parts.len(),
    ensures
        ancestors_from(rooted, parts).len() == parts.len() + 1,
        ancestors_from(rooted, parts)[i] == path_of(rooted, parts.take(parts.len() - i)),
    decreases parts.len(),
{
    assert(parts.take(parts.len() as int) =~= parts);
    if parts.len() > 0 {
        if i > 0 {
            ancestors_lead_up(rooted, parts.drop_last(), i - 1);
            assert(parts.drop_last().take(parts.len() - i) =~= parts.take(parts.len() - i));
        } else {
            ancestors_lead_up(rooted, parts.drop_last(), 0);
        }
    }
}

} // verus!
