//! What can be relied on of looking up, listing and showing skills.
use vstd::prelude::*;
use vstd::seq_lib::*;
use vstd::string::*;

use crate::error::ErrorView;
use crate::order::{lemma_filter_has, lemma_filter_last, lemma_filter_none};
use crate::paths::{absolute, joined_path, path_parts};
use crate::search_query::search_terms;
use crate::skill::builtin::{
    builtin_document, identities, identity, listed_builtins, merged, merging_keeps_the_first,
    BuiltinSkillStore, Identity,
};
use crate::skill::markdown::{description_limit, skill_of_markdown};
use crate::skill::names::{canonical_id_text, canonical_name_text, name_limit};
use crate::skill::ranking::{
    all_skills_are_listed_by_name, hit_count, ranked, the_best_match_comes_first,
};
use crate::skill::scan::EntryView;
use crate::skill::store::{
    children_of, document_of, entry_summaries, leaf_dir, located, named, top_or_pinned,
    FileSkillStore, SkillStore,
};
use crate::skill::tools::{
    catalog_text, diagnostics_of, diagnostics_shown, missing_skill_text, search_text, skill_text, speaks_of,
    summary_line, summary_lines, without_trigger, BUILTIN_TRIGGER_SKILL_NAME,
};
use crate::skill::types::{DiagnosticView, DocumentView, SummaryView};
use crate::text::{lemma_occurs_in_both, occurs, occurs_at, trim_end_text};
use crate::text_map::{entries_are_read_back, keys_ordered, value_of};

verus! {

broadcast use vstd::string::group_string_axioms;

// ------------------------------------------------------------------- looking up

/// The entries whose name reads like `name`.
pub open spec fn like_named(entries: Seq<(Seq<char>, EntryView)>, name: Seq<char>) -> Seq<
    (Seq<char>, EntryView),
> {
    entries.filter(
        |e: (Seq<char>, EntryView)| canonical_name_text(e.1.summary.name) == canonical_name_text(
            name,
        ),
    )
}

proof fn lemma_like_named(entries: Seq<(Seq<char>, EntryView)>, name: Seq<char>)
    ensures
        named(entries, canonical_name_text(name)) == like_named(entries, name).map_values(
            |e: (Seq<char>, EntryView)| e.1,
        ),
    decreases entries.len(),
{
    let keep = |e: (Seq<char>, EntryView)|
        canonical_name_text(e.1.summary.name) == canonical_name_text(name);
    let second = |e: (Seq<char>, EntryView)| e.1;
    if entries.len() > 0 {
        lemma_like_named(entries.drop_last(), name);
        lemma_filter_last(entries, keep);
        assert(named(entries, canonical_name_text(name)) =~= like_named(entries, name).map_values(
            second,
        ));
    } else {
        lemma_filter_none(entries, keep);
        assert(named(entries, canonical_name_text(name)) =~= like_named(entries, name).map_values(
            second,
        ));
    }
}

/// A name means the one skill that has it, in whatever way it is written; a name
/// that no skill has means none, and one that several have means none of them.
pub proof fn a_name_means_the_skill_that_has_it(
    entries: Seq<(Seq<char>, EntryView)>,
    name: Seq<char>,
)
    requires
        !name.contains('/'),
    ensures
        ({
            let same = like_named(entries, name);
            &&& same.len() == 0 ==> located(entries, name) == Ok::<Option<EntryView>, ErrorView>(
                None,
            )
            &&& same.len() == 1 ==> located(entries, name) == Ok::<_, ErrorView>(Some(same[0].1))
            &&& same.len() > 1 ==> located(entries, name) is Err
        }),
{
    lemma_like_named(entries, name);
}

/// An id means the skill that is listed under it.
pub proof fn an_id_means_the_skill_under_it(
    entries: Seq<(Seq<char>, EntryView)>,
    id: Seq<char>,
    i: int,
)
    requires
        id.contains('/'),
        keys_ordered(entries),
        0 <= i < entries.len(),
        entries[i].0 == canonical_id_text(id),
    ensures
        located(entries, id) == Ok::<_, ErrorView>(Some(entries[i].1)),
{
    entries_are_read_back(entries, i);
}

proof fn lemma_children(entries: Seq<(Seq<char>, EntryView)>, id: Seq<char>)
    ensures
        children_of(entries, id) == entry_summaries(
            entries.filter(|e: (Seq<char>, EntryView)| e.1.summary.parent_id == Some(id)),
        ),
    decreases entries.len(),
{
    let keep = |e: (Seq<char>, EntryView)| e.1.summary.parent_id == Some(id);
    if entries.len() > 0 {
        lemma_children(entries.drop_last(), id);
        lemma_filter_last(entries, keep);
    } else {
        lemma_filter_none(entries, keep);
    }
    assert(children_of(entries, id) =~= entry_summaries(entries.filter(keep)));
}

/// A skill that is read has the text of its file, whole, and what that text says
/// of its name and description; it lists the skills right below it. A file that
/// could not be read is an error.
pub proof fn a_skill_is_what_its_file_says(
    entries: Seq<(Seq<char>, EntryView)>,
    entry: EntryView,
)
    ensures
        entry.content is Err ==> document_of(entries, entry) == Err::<DocumentView, _>(
            ErrorView::Io(entry.content->Err_0),
        ),
        entry.content is Ok && skill_of_markdown(leaf_dir(entry), entry.content->Ok_0) is Ok ==> {
            let said = skill_of_markdown(leaf_dir(entry), entry.content->Ok_0)->Ok_0;
            &&& document_of(entries, entry) is Ok
            &&& {
                let d = document_of(entries, entry)->Ok_0;
                &&& d.content == entry.content->Ok_0
                &&& d.name == said.name
                &&& d.description == said.description
                &&& d.pin == said.pin
                &&& d.id == entry.summary.id
                &&& d.source == entry.summary.source
                &&& d.root == Some(entry.root)
                &&& d.skill_file_path == entry.summary.skill_file_path
                &&& d.resource_root_path == entry.summary.resource_root_path
                &&& d.children == entry_summaries(
                    entries.filter(
                        |e: (Seq<char>, EntryView)| e.1.summary.parent_id == Some(
                            entry.summary.id,
                        ),
                    ),
                )
            }
        },
{
    lemma_children(entries, entry.summary.id);
}

/// A store reads the skill that a name or id means, and no other.
pub proof fn a_store_reads_the_skill_that_is_meant(store: FileSkillStore, name: Seq<char>)
    ensures
        match located(store.index(), name) {
            Err(e) => store.got(name) == Err::<Option<DocumentView>, _>(e),
            Ok(None) => store.got(name) == Ok::<Option<DocumentView>, ErrorView>(None),
            Ok(Some(entry)) => match document_of(store.index(), entry) {
                Ok(d) => store.got(name) == Ok::<_, ErrorView>(Some(d)),
                Err(e) => store.got(name) == Err::<Option<DocumentView>, _>(e),
            },
        },
{
}

/// A store lists every skill that it has, in the order of its index; and features
/// those at the top and those that are pinned.
pub proof fn a_store_lists_what_it_has(store: FileSkillStore)
    ensures
        store.all().len() == store.index().len(),
        forall|i: int|
            0 <= i < store.index().len() ==> #[trigger] store.all()[i]
                == store.index()[i].1.summary,
        store.featured() == store.all().filter(|s: SummaryView| s.parent_id is None || s.pin),
{
    lemma_featured(store.index());
}

proof fn lemma_featured(entries: Seq<(Seq<char>, EntryView)>)
    ensures
        top_or_pinned(entries) == entry_summaries(entries).filter(
            |s: SummaryView| s.parent_id is None || s.pin,
        ),
    decreases entries.len(),
{
    let keep = |s: SummaryView| s.parent_id is None || s.pin;
    let all = entry_summaries(entries);
    if entries.len() > 0 {
        lemma_featured(entries.drop_last());
        assert(all.drop_last() =~= entry_summaries(entries.drop_last()));
        assert(all.last() == entries.last().1.summary);
        lemma_filter_last(all, keep);
    } else {
        lemma_filter_none(all, keep);
        assert(top_or_pinned(entries) =~= all.filter(keep));
    }
}

/// A search finds exactly the skills that a term of the query hits, those with
/// more hits before those with fewer; a query without terms lists all.
pub proof fn a_search_finds_what_is_hit(store: FileSkillStore, query: Seq<char>, s: SummaryView)
    ensures
        store.found(query) is Ok,
        search_terms(query).len() > 0 ==> (store.found(query)->Ok_0.contains(s) <==> store.all(
        ).contains(s) && hit_count(s, search_terms(query)) > 0),
        search_terms(query).len() == 0 ==> (store.found(query)->Ok_0.contains(s) <==> store.all(
        ).contains(s)),
        forall|i: int, j: int|
            0 <= i < j < store.found(query)->Ok_0.len() ==> search_terms(query).len() == 0
                || hit_count(#[trigger] store.found(query)->Ok_0[i], search_terms(query))
                >= hit_count(#[trigger] store.found(query)->Ok_0[j], search_terms(query)),
{
    let all = store.all();
    let terms = search_terms(query);
    let r = store.found(query)->Ok_0;
    if terms.len() > 0 {
        let keep = |x: SummaryView| hit_count(x, terms) > 0;
        the_best_match_comes_first(all, terms);
        lemma_filter_has(all, keep, s);
        lemma_same_multiset(r, all.filter(keep), s);
    } else {
        assert(terms =~= Seq::empty());
        all_skills_are_listed_by_name(all);
        lemma_same_multiset(r, all, s);
    }
}

proof fn lemma_same_multiset(a: Seq<SummaryView>, b: Seq<SummaryView>, x: SummaryView)
    requires
        a.to_multiset() == b.to_multiset(),
    ensures
        a.contains(x) <==> b.contains(x),
{
    broadcast use group_to_multiset_ensures;

    assert(a.contains(x) <==> a.to_multiset().count(x) > 0);
    assert(b.contains(x) <==> b.to_multiset().count(x) > 0);
}

/// A resource is read from below the directory of the skill that is meant, under
/// the path that was asked for; a path that is absolute or leads upwards is refused,
/// and so is one of a skill that is not there.
pub proof fn resources_lie_below_their_skill(store: FileSkillStore, skill: Seq<char>, path: Seq<char>)
    ensures
        match located(store.index(), skill) {
            Ok(Some(entry)) => if absolute(path) || path_parts(path).contains(".."@) {
                store.resource(skill, path) is Err
            } else {
                &&& store.resource(skill, path) is Ok
                &&& store.resource(skill, path)->Ok_0.file == joined_path(entry.root, path)
                &&& store.resource(skill, path)->Ok_0.path == path
                &&& store.resource(skill, path)->Ok_0.skill == entry.summary.id
            },
            _ => store.resource(skill, path) is Err,
        },
{
}

/// A skill that is built in is read before any other of its name, and is listed
/// first; what is not built in is looked for elsewhere.
pub proof fn builtin_skills_come_first<S: SkillStore>(
    store: BuiltinSkillStore<S>,
    name: Seq<char>,
    query: Seq<char>,
)
    ensures
        match value_of(store.listed(), canonical_name_text(name)) {
            Some(b) => match builtin_document(b) {
                Ok(d) => store.got(name) == Ok::<_, ErrorView>(Some(d)),
                Err(e) => store.got(name) == Err::<Option<DocumentView>, _>(e),
            },
            None => store.got(name) == store.inner.got(name),
        },
        listed_builtins(store.listed()).is_prefix_of(store.featured()),
        listed_builtins(store.listed()).is_prefix_of(store.all()),
        store.inner.found(query) is Ok ==> store.found(query) is Ok && ranked(
            listed_builtins(store.listed()),
            search_terms(query),
        ).is_prefix_of(store.found(query)->Ok_0),
        store.problems() == store.inner.problems(),
{
    lemma_first_stays(
        Identity::ByName,
        listed_builtins(store.listed()),
        store.inner.featured(),
    );
    lemma_first_stays(Identity::ById, listed_builtins(store.listed()), store.inner.all());
    if store.inner.found(query) is Ok {
        lemma_first_stays(
            Identity::ByName,
            ranked(listed_builtins(store.listed()), search_terms(query)),
            store.inner.found(query)->Ok_0,
        );
    }
}

proof fn lemma_first_stays(by: Identity, first: Seq<SummaryView>, rest: Seq<SummaryView>)
    ensures
        first.is_prefix_of(merged(by, first, rest)),
{
    if rest.len() > 0 {
        merging_keeps_the_first(by, first, rest, 0);
    } else {
        assert(first =~= merged(by, first, rest).subrange(0, first.len() as int));
    }
}

/// What another store finds is found too, unless a skill of the same name stands
/// before it.
pub proof fn other_skills_are_found_too<S: SkillStore>(
    store: BuiltinSkillStore<S>,
    query: Seq<char>,
    i: int,
)
    requires
        store.inner.found(query) is Ok,
        0 <= i < store.inner.found(query)->Ok_0.len(),
    ensures
        identities(Identity::ByName, store.found(query)->Ok_0).contains(
            identity(Identity::ByName, store.inner.found(query)->Ok_0[i]),
        ),
{
    merging_keeps_the_first(
        Identity::ByName,
        ranked(listed_builtins(store.listed()), search_terms(query)),
        store.inner.found(query)->Ok_0,
        i,
    );
}

// ------------------------------------------------------------------------ showing

/// A line about a skill tells its name, its description and its source.
pub proof fn lines_tell_of_their_skill(s: SummaryView)
    ensures
        occurs(summary_line(s), s.name),
        occurs(summary_line(s), s.description),
        occurs(summary_line(s), s.source),
{
    let a = "- "@ + s.name;
    let b = a + " - "@ + s.description;
    let c = b + " ("@ + s.source;
    lemma_occurs_in_both("- "@, s.name, s.name);
    lemma_occurs_in_both(a, " - "@, s.name);
    lemma_occurs_in_both(a + " - "@, s.description, s.name);
    lemma_occurs_in_both(a + " - "@, s.description, s.description);
    lemma_occurs_in_both(s.description, s.name, s.description);
    lemma_occurs_in_both(s.name, s.name, s.name);
    lemma_occurs_in_both(s.source, s.name, s.source);
    lemma_occurs_in_both(b, " ("@, s.name);
    lemma_occurs_in_both(b, " ("@, s.description);
    lemma_occurs_in_both(b + " ("@, s.source, s.name);
    lemma_occurs_in_both(b + " ("@, s.source, s.description);
    lemma_occurs_in_both(b + " ("@, s.source, s.source);
    lemma_occurs_in_both(c, ")"@, s.name);
    lemma_occurs_in_both(c, ")"@, s.description);
    lemma_occurs_in_both(c, ")"@, s.source);
    assert(summary_line(s) == c + ")"@);
}

proof fn lemma_lines(list: Seq<SummaryView>, i: int)
    requires
        0 <= i < list.len(),
    ensures
        occurs(summary_lines(list), summary_line(list[i])),
    decreases list.len(),
{
    let head = summary_lines(list.drop_last());
    let x = summary_line(list[i]);
    if i < list.len() - 1 {
        lemma_lines(list.drop_last(), i);
        lemma_occurs_in_both(head, summary_line(list.last()), x);
    } else {
        lemma_occurs_in_both(x, x, x);
        lemma_occurs_in_both(head, x, x);
    }
    lemma_occurs_in_both(head + summary_line(list.last()), "\n"@, x);
}

/// The catalog and the answer to a search hold a line for each skill that they are
/// about.
pub proof fn every_skill_has_its_line(
    list: Seq<SummaryView>,
    query: Seq<char>,
    problems: Seq<DiagnosticView>,
    i: int,
)
    requires
        0 <= i < list.len(),
    ensures
        occurs(catalog_text(list), summary_line(list[i])),
        occurs(search_text(query, list, problems), summary_line(list[i])),
{
    let x = summary_line(list[i]);
    lemma_lines(list, i);
    let head = "Available local skills (catalog only; full instructions are loaded by skill__get):\n"@;
    lemma_occurs_in_both(head, summary_lines(list), x);
    lemma_occurs_in_both(
        head + summary_lines(list),
        "Use skill__search to discover additional skills. Use skill__get with the exact skill name to read one skill's instructions for the current turn."@,
        x,
    );
    let found = "Found "@ + crate::text::decimal(list.len()) + " matching skill(s) for '"@ + query
        + "':\n"@;
    lemma_occurs_in_both(found, summary_lines(list), x);
    let used = "Use skill__get with the exact skill name to read one."@;
    lemma_occurs_in_both(found + summary_lines(list), used, x);
    lemma_occurs_in_both(
        found + summary_lines(list) + used,
        crate::skill::tools::diagnostics_text(problems),
        x,
    );
}

/// An agent that reads a skill is given its instructions, whole but for white space
/// at their end; one that asks for a skill that is not there is told its name.
pub proof fn an_agent_is_given_the_instructions(
    doc: DocumentView,
    name: Seq<char>,
    problems: Seq<DiagnosticView>,
)
    ensures
        trim_end_text(doc.content).is_prefix_of(skill_text(doc, problems)),
        occurs(missing_skill_text(name, problems), name),
{
    let text = skill_text(doc, problems);
    let content = trim_end_text(doc.content);
    assert(content =~= text.subrange(0, content.len() as int));
    let said = missing_skill_text(name, problems);
    let at = "Skill '"@.len() as int;
    assert(said.subrange(at, at + name.len()) =~= name);
    assert(occurs_at(said, name, at));
}

/// Hiding the skill for triggers hides that one, and no other.
pub proof fn only_the_trigger_skill_is_hidden(list: Seq<SummaryView>)
    ensures
        without_trigger(list, false) == list,
        without_trigger(list, true) == list.filter(
            |s: SummaryView| s.name != BUILTIN_TRIGGER_SKILL_NAME@,
        ),
    decreases list.len(),
{
    let keep = |s: SummaryView| s.name != BUILTIN_TRIGGER_SKILL_NAME@;
    if list.len() > 0 {
        only_the_trigger_skill_is_hidden(list.drop_last());
        lemma_filter_last(list, keep);
    } else {
        lemma_filter_none(list, keep);
        assert(without_trigger(list, true) =~= list.filter(keep));
    }
}

/// The diagnostics of a skill are those that speak of it, all of them.
pub proof fn diagnostics_speak_of_their_skill(list: Seq<DiagnosticView>, name: Seq<char>)
    ensures
        diagnostics_of(list, name) == list.filter(|d: DiagnosticView| speaks_of(d, name)),
    decreases list.len(),
{
    let keep = |d: DiagnosticView| speaks_of(d, name);
    if list.len() > 0 {
        diagnostics_speak_of_their_skill(list.drop_last(), name);
        lemma_filter_last(list, keep);
    } else {
        lemma_filter_none(list, keep);
        assert(diagnostics_of(list, name) =~= list.filter(keep));
    }
}

/// How much is kept and shown: descriptions of up to 1024 characters, names of up to
/// 64, and eight diagnostics.
pub proof fn how_much_is_kept()
    ensures
        description_limit() == 1024,
        name_limit() == 64,
        diagnostics_shown() == 8,
{
}

} // verus!
