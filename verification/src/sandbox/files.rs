//! What file operations in a sandbox do.
use vstd::prelude::*;
use vstd::string::*;

use crate::order::{dictionary, sort_texts, Dictionary};
use crate::text::{
    find, index_of, lemma_index_of_bound, occurs, skip_chars, take_chars, texts,
    what_is_found_is_the_first,
};

verus! {

broadcast use vstd::string::group_string_axioms;

/// How large a file is and when it was changed.
#[derive(Debug, Clone, Copy, PartialEq, Eq, Structural)]
pub struct SandboxMetadata {
    pub len: u64,
    pub modified_ms: Option<u64>,
}

/// What is told of a file: its length, and when it was changed, in the
/// milliseconds since 1970 that 64 bits hold.
pub fn sandbox_metadata(len: u64, modified_ms: Option<u128>) -> (r: SandboxMetadata)
    ensures
        r.len == len,
        match modified_ms {
            Some(ms) => r.modified_ms == Some(ms as u64),
            None => r.modified_ms is None,
        },
{
    let modified_ms = match modified_ms {
        Some(ms) => Some(#[verifier::truncate] (ms as u64)),
        None => None,
    };
    SandboxMetadata { len, modified_ms }
}

/// What came of replacing a text.
#[derive(Debug, Clone, Copy, PartialEq, Eq, Structural)]
pub enum ReplaceResult {
    Replaced,
    NotFound,
    MultipleMatches(usize),
}

/// How often `needle` occurs in `hay`, one place behind the other.
pub open spec fn match_count(hay: Seq<char>, needle: Seq<char>) -> nat
    decreases hay.len(),
{
    if needle.len() == 0 {
        hay.len() + 1
    } else {
        match index_of(hay, needle) {
            Some(i) => if 0 <= i && i + needle.len() <= hay.len() {
                1 + match_count(hay.skip(i + needle.len()), needle)
            } else {
                0
            },
            None => 0,
        }
    }
}

/// `hay` with `new` in the first place where `needle` occurs.
pub open spec fn replaced_once(hay: Seq<char>, needle: Seq<char>, new: Seq<char>) -> Seq<char> {
    match index_of(hay, needle) {
        Some(i) => hay.take(i) + new + hay.skip(i + needle.len()),
        None => hay,
    }
}

proof fn lemma_match_count_bound(hay: Seq<char>, needle: Seq<char>)
    ensures
        match_count(hay, needle) <= hay.len() + 1,
    decreases hay.len(),
{
    if needle.len() > 0 {
        if let Some(i) = index_of(hay, needle) {
            if 0 <= i && i + needle.len() <= hay.len() {
                lemma_match_count_bound(hay.skip(i + needle.len()), needle);
            }
        }
    }
}

/// How often `needle` occurs in `hay`, one place behind the other.
pub fn count_matches(hay: &str, needle: &str) -> (r: usize)
    requires
        hay@.len() < usize::MAX,
    ensures
        r == match_count(hay@, needle@),
{
    let width: usize = needle.unicode_len();
    if width == 0 {
        return hay.unicode_len() + 1;
    }
    let mut rest = hay.to_owned();
    let mut count: usize = 0;
    proof {
        lemma_match_count_bound(hay@, needle@);
    }
    loop
        invariant
            width == needle@.len(),
            width > 0,
            count + match_count(rest@, needle@) == match_count(hay@, needle@),
            match_count(hay@, needle@) <= usize::MAX,
        ensures
            count == match_count(hay@, needle@),
        decreases rest@.len(),
    {
        match find(&rest, needle) {
            Some(i) => {
                proof {
                    crate::text::lemma_index_of_bound(rest@, needle@);
                }
                rest = skip_chars(&rest, i + width);
                count += 1;
            },
            None => {
                break;
            },
        }
    }
    count
}

/// What replacing a text in a file comes to, with what is to be written where
/// the text occurs just once.
pub fn replace_text(content: &str, old_text: &str, new_text: &str) -> (r: (
    ReplaceResult,
    Option<String>,
))
    requires
        content@.len() < usize::MAX,
    ensures
        ({
            let n = match_count(content@, old_text@);
            if n == 0 {
                r == (ReplaceResult::NotFound, None::<String>)
            } else if n == 1 {
                &&& r.0 is Replaced
                &&& r.1 is Some
                &&& r.1->0@ == replaced_once(content@, old_text@, new_text@)
            } else {
                &&& r.0 is MultipleMatches
                &&& r.0->MultipleMatches_0 == n
                &&& r.1 is None
            }
        }),
{
    let count: usize = count_matches(content, old_text);
    if count == 0 {
        return (ReplaceResult::NotFound, None);
    }
    if count > 1 {
        return (ReplaceResult::MultipleMatches(count), None);
    }
    let width: usize = old_text.unicode_len();
    match find(content, old_text) {
        Some(i) => {
            proof {
                crate::text::lemma_index_of_bound(content@, old_text@);
            }
            let mut t = take_chars(content, i);
            t.push_str(new_text);
            t.push_str(&skip_chars(content, i + width));
            (ReplaceResult::Replaced, Some(t))
        },
        None => {
            proof {
                lemma_empty_is_found(content@, old_text@);
            }
            (ReplaceResult::Replaced, Some(content.to_owned()))
        },
    }
}

proof fn lemma_empty_is_found(hay: Seq<char>, needle: Seq<char>)
    ensures
        needle.len() == 0 ==> index_of(hay, needle) is Some,
{
}

proof fn lemma_found_is_there(hay: Seq<char>, needle: Seq<char>)
    ensures
        index_of(hay, needle) matches Some(i) ==> hay.subrange(i, i + needle.len()) == needle,
    decreases hay.len(),
{
    crate::text::lemma_index_of_bound(hay, needle);
    if needle.is_prefix_of(hay) {
        assert(hay.subrange(0, needle.len() as int) =~= needle);
    } else if hay.len() > 0 {
        let t = hay.drop_first();
        lemma_found_is_there(t, needle);
        crate::text::lemma_index_of_bound(t, needle);
        if let Some(i) = index_of(t, needle) {
            assert(hay.subrange(i + 1, i + 1 + needle.len()) =~= t.subrange(i, i + needle.len()));
        }
    }
}

/// A text that occurs once is replaced where it stands: what is before it and
/// behind it stays.
pub proof fn replacing_changes_one_place(hay: Seq<char>, needle: Seq<char>, new: Seq<char>)
    requires
        match_count(hay, needle) == 1,
        needle.len() > 0,
    ensures
        ({
            let i = index_of(hay, needle)->0;
            let r = replaced_once(hay, needle, new);
            &&& 0 <= i <= hay.len() - needle.len()
            &&& hay.subrange(i, i + needle.len()) == needle
            &&& r.take(i) == hay.take(i)
            &&& r.skip(i + new.len()) == hay.skip(i + needle.len())
            &&& r.subrange(i, i + new.len()) == new
        }),
{
    crate::text::lemma_index_of_bound(hay, needle);
    lemma_found_is_there(hay, needle);
    let i = index_of(hay, needle)->0;
    let r = replaced_once(hay, needle, new);
    assert(r.take(i) =~= hay.take(i));
    assert(r.skip(i + new.len()) =~= hay.skip(i + needle.len()));
    assert(r.subrange(i, i + new.len()) =~= new);
}

/// Something in a directory.
#[derive(Debug, Clone, PartialEq, Eq)]
pub struct DirEntry {
    pub name: String,
    pub is_dir: bool,
}

/// The name under which something in a directory is listed.
pub open spec fn listed(entry: DirEntry) -> Seq<char> {
    if entry.is_dir {
        entry.name@ + "/"@
    } else {
        entry.name@
    }
}

pub open spec fn listed_all(entries: Seq<DirEntry>) -> Seq<Seq<char>> {
    entries.map_values(|e: DirEntry| listed(e))
}

/// The names of what is in a directory, in order; a directory has a slash
/// behind its name.
pub fn list_entries(entries: &Vec<DirEntry>) -> (r: Vec<String>)
    ensures
        texts(r@) == listed_all(entries@).sort_by(dictionary()),
{
    let ghost all = listed_all(entries@);
    let mut names: Vec<String> = Vec::new();
    let mut i: usize = 0;
    while i < entries.len()
        invariant
            i <= entries.len(),
            names.len() == i,
            all == listed_all(entries@),
            forall|j: int| 0 <= j < i ==> (#[trigger] names@[j])@ == all[j],
        decreases entries.len() - i,
    {
        let mut name = entries[i].name.clone();
        if entries[i].is_dir {
            name.push_str("/");
        }
        assert(name@ == listed(entries@[i as int]));
        names.push(name);
        i += 1;
    }
    assert(texts(names@) =~= all);
    sort_texts::<Dictionary>(&names)
}

/// How something is to be removed.
#[derive(Debug, Clone, Copy, PartialEq, Eq, Structural)]
pub enum Removal {
    Tree,
    Dir,
    File,
}

/// How something is to be removed: with all that is in it, as an empty
/// directory, or as a file.
pub fn choose_removal(recursive: bool, is_dir: bool) -> (r: Removal)
    ensures
        r == (if recursive {
            Removal::Tree
        } else if is_dir {
            Removal::Dir
        } else {
            Removal::File
        }),
{
    if recursive {
        Removal::Tree
    } else if is_dir {
        Removal::Dir
    } else {
        Removal::File
    }
}

/// Nothing is found where the text does not stand, and something where it does.
pub proof fn what_stands_there_is_counted(hay: Seq<char>, needle: Seq<char>)
    requires
        needle.len() > 0,
    ensures
        match_count(hay, needle) == 0 <==> !occurs(hay, needle),
        !occurs(hay, needle) ==> replaced_once(hay, needle, hay) == hay,
{
    what_is_found_is_the_first(hay, needle);
    lemma_index_of_bound(hay, needle);
}

/// The same text twice in a row is found twice.
pub proof fn matches_are_counted_one_by_one(needle: Seq<char>, rest: Seq<char>)
    requires
        needle.len() > 0,
    ensures
        match_count(needle + rest, needle) == 1 + match_count(rest, needle),
        replaced_once(needle + rest, needle, Seq::empty()) == rest,
{
    let hay = needle + rest;
    assert(needle =~= hay.subrange(0, needle.len() as int));
    assert(needle.is_prefix_of(hay));
    assert(index_of(hay, needle) == Some(0int));
    assert(hay.skip(needle.len() as int) =~= rest);
    assert(hay.take(0) + Seq::<char>::empty() + rest =~= rest);
}

/// A directory is listed with a slash behind its name, a file as it is called.
pub proof fn directories_are_marked(entries: Seq<DirEntry>, i: int)
    requires
        0 <= i < entries.len(),
    ensures
        listed_all(entries).len() == entries.len(),
        entries[i].is_dir ==> listed_all(entries)[i] == entries[i].name@ + "/"@,
        !entries[i].is_dir ==> listed_all(entries)[i] == entries[i].name@,
{
}

} // verus!
