//! Skills that come with the program, in front of those of another store.
use vstd::prelude::*;
use vstd::string::*;

use crate::error::{AgentError, ErrorView};
use crate::search_query::search_terms;
use crate::skill::markdown::{parse_skill_markdown, skill_of_markdown};
use crate::skill::names::{canonical_id, canonical_id_text, canonical_name, canonical_name_text};
use crate::skill::ranking::{parse_keywords, rank_summaries, ranked};
use crate::skill::store::{RequestView, ResourceRequest, SkillStore};
use crate::skill::types::{
    summary_views, DiagnosticView, DocumentView, SkillDocument, SkillLoadDiagnostic, SkillSummary,
    SummaryView,
};
use crate::text::{list_has, texts};
use crate::text_map::{
    keys_ordered, lemma_seen_value_of, lemma_seen_with_value, seen, set_value_is_read_back,
    setting_keeps_order, value_of, with_value, TextMap,
};

verus! {

broadcast use vstd::string::group_string_axioms;

/// A skill that comes with the program.
#[derive(Debug, Clone, PartialEq, Eq)]
pub struct BuiltinSkill {
    pub name: String,
    pub description: String,
    pub content: String,
}

pub struct BuiltinView {
    pub name: Seq<char>,
    pub description: Seq<char>,
    pub content: Seq<char>,
}

impl View for BuiltinSkill {
    type V = BuiltinView;

    open spec fn view(&self) -> BuiltinView {
        BuiltinView { name: self.name@, description: self.description@, content: self.content@ }
    }
}

pub open spec fn builtin_view() -> spec_fn(BuiltinSkill) -> BuiltinView {
    |b: BuiltinSkill| b@
}

/// A builtin skill with its instructions.
pub open spec fn builtin_document(skill: BuiltinView) -> Result<DocumentView, ErrorView> {
    match skill_of_markdown(skill.name, skill.content) {
        Err(e) => Err(e),
        Ok(parsed) => Ok(
            DocumentView {
                id: parsed.name,
                name: parsed.name,
                description: parsed.description,
                pin: parsed.pin,
                content: skill.content,
                source: "builtin"@,
                root: None,
                skill_file_path: None,
                resource_root_path: None,
                parent_id: None,
                children: Seq::empty(),
            },
        ),
    }
}

pub open spec fn builtin_summary(skill: BuiltinView) -> SummaryView {
    SummaryView {
        id: skill.name,
        name: skill.name,
        description: skill.description,
        parent_id: None,
        has_children: false,
        source: "builtin"@,
        skill_file_path: None,
        resource_root_path: None,
        pin: false,
    }
}

impl BuiltinSkill {
    /// The skill with its instructions.
    pub fn document(&self) -> (r: Result<SkillDocument, AgentError>)
        ensures
            match r {
                Ok(d) => builtin_document(self@) == Ok::<_, ErrorView>(d@),
                Err(e) => builtin_document(self@) == Err::<DocumentView, _>(e@),
            },
    {
        match parse_skill_markdown(&self.name, &self.content) {
            Err(e) => Err(e),
            Ok(parsed) => {
                let children: Vec<SkillSummary> = Vec::new();
                assert(summary_views(children@) =~= Seq::<SummaryView>::empty());
                Ok(
                    SkillDocument {
                        id: parsed.name.clone(),
                        name: parsed.name,
                        description: parsed.description,
                        pin: parsed.pin,
                        content: self.content.clone(),
                        source: "builtin".to_owned(),
                        root: None,
                        skill_file_path: None,
                        resource_root_path: None,
                        parent_id: None,
                        children,
                    },
                )
            },
        }
    }

    fn summary(&self) -> (r: SkillSummary)
        ensures
            r@ == builtin_summary(self@),
    {
        SkillSummary {
            id: self.name.clone(),
            name: self.name.clone(),
            description: self.description.clone(),
            parent_id: None,
            has_children: false,
            source: "builtin".to_owned(),
            skill_file_path: None,
            resource_root_path: None,
            pin: false,
        }
    }
}

/// By what two listed skills are told apart: by the canonical form of the whole
/// id, or of the id taken as one name.
#[derive(Debug, Clone, Copy, PartialEq, Eq, Structural)]
pub enum Identity {
    ById,
    ByName,
}

pub open spec fn identity(by: Identity, summary: SummaryView) -> Seq<char> {
    match by {
        Identity::ById => canonical_id_text(summary.id),
        Identity::ByName => canonical_name_text(summary.id),
    }
}

pub open spec fn identities(by: Identity, list: Seq<SummaryView>) -> Seq<Seq<char>> {
    list.map_values(|s: SummaryView| identity(by, s))
}

/// `first`, then each of `rest` that is not yet listed.
pub open spec fn merged(
    by: Identity,
    first: Seq<SummaryView>,
    rest: Seq<SummaryView>,
) -> Seq<SummaryView>
    decreases rest.len(),
{
    if rest.len() == 0 {
        first
    } else {
        let head = merged(by, first, rest.drop_last());
        if identities(by, head).contains(identity(by, rest.last())) {
            head
        } else {
            head.push(rest.last())
        }
    }
}

/// A merged list begins with the first list, and leaves none of the rest out
/// that the list does not already have.
pub proof fn merging_keeps_the_first(
    by: Identity,
    first: Seq<SummaryView>,
    rest: Seq<SummaryView>,
    i: int,
)
    requires
        0 <= i < rest.len(),
    ensures
        first.is_prefix_of(merged(by, first, rest)),
        identities(by, merged(by, first, rest)).contains(identity(by, rest[i])),
    decreases rest.len(),
{
    let head = merged(by, first, rest.drop_last());
    let all = merged(by, first, rest);
    if rest.len() > 1 {
        let k = if i < rest.len() - 1 {
            i
        } else {
            0
        };
        merging_keeps_the_first(by, first, rest.drop_last(), k);
    } else {
        assert(first.is_prefix_of(first));
    }
    assert(first.is_prefix_of(all)) by {
        assert(first =~= all.subrange(0, first.len() as int));
    }
    if i == rest.len() - 1 {
        if !identities(by, head).contains(identity(by, rest.last())) {
            assert(identities(by, all)[head.len() as int] == identity(by, rest[i]));
        }
    } else {
        let j = choose|j: int|
            0 <= j < identities(by, head).len() && identities(by, head)[j] == identity(
                by,
                rest.drop_last()[i],
            );
        assert(identities(by, all)[j] == identity(by, rest[i]));
    }
}

/// No skill of the rest is listed twice, or again where the first list has it.
pub proof fn merging_lists_nothing_twice(
    by: Identity,
    first: Seq<SummaryView>,
    rest: Seq<SummaryView>,
)
    requires
        identities(by, first).no_duplicates(),
    ensures
        identities(by, merged(by, first, rest)).no_duplicates(),
    decreases rest.len(),
{
    if rest.len() > 0 {
        merging_lists_nothing_twice(by, first, rest.drop_last());
        let head = merged(by, first, rest.drop_last());
        let x = rest.last();
        if !identities(by, head).contains(identity(by, x)) {
            assert(identities(by, head.push(x)) =~= identities(by, head).push(identity(by, x)));
        }
    }
}

fn identity_of(by: Identity, summary: &SkillSummary) -> (r: String)
    ensures
        r@ == identity(by, summary@),
{
    match by {
        Identity::ById => canonical_id(&summary.id),
        Identity::ByName => canonical_name(&summary.id),
    }
}

/// `first`, then each of `rest` that is not yet listed.
pub fn merge(by: Identity, first: Vec<SkillSummary>, rest: &Vec<SkillSummary>) -> (r: Vec<SkillSummary>)
    ensures
        summary_views(r@) == merged(by, summary_views(first@), summary_views(rest@)),
{
    let ghost start = summary_views(first@);
    let ghost more = summary_views(rest@);
    let mut out = first;
    let mut keys: Vec<String> = Vec::new();
    let mut i: usize = 0;
    while i < out.len()
        invariant
            i <= out.len(),
            keys.len() == i,
            summary_views(out@) == start,
            forall|j: int| 0 <= j < i ==> (#[trigger] keys@[j])@ == identities(by, start)[j],
        decreases out.len() - i,
    {
        assert(start[i as int] == out@[i as int]@);
        keys.push(identity_of(by, &out[i]));
        i += 1;
    }
    assert(texts(keys@) =~= identities(by, start));
    let mut k: usize = 0;
    assert(more.take(0) =~= Seq::empty());
    while k < rest.len()
        invariant
            k <= rest.len(),
            more == summary_views(rest@),
            summary_views(out@) == merged(by, start, more.take(k as int)),
            texts(keys@) == identities(by, summary_views(out@)),
        decreases rest.len() - k,
    {
        assert(more.take(k + 1).drop_last() =~= more.take(k as int));
        assert(more[k as int] == rest@[k as int]@);
        let key = identity_of(by, &rest[k]);
        if !list_has(&keys, &key) {
            let ghost before = summary_views(out@);
            let ghost known = texts(keys@);
            out.push(rest[k].copy());
            assert(summary_views(out@) =~= before.push(rest@[k as int]@));
            assert(identities(by, before.push(rest@[k as int]@)) =~= identities(by, before).push(
                key@,
            ));
            let ghost key_text = key@;
            keys.push(key);
            assert(texts(keys@) =~= known.push(key_text));
        }
        k += 1;
    }
    assert(more.take(k as int) =~= more);
    out
}

/// Builtin skills in front of those of another store.
#[derive(Debug)]
pub struct BuiltinSkillStore<S> {
    pub inner: S,
    pub builtins: TextMap<BuiltinSkill>,
}

/// The builtin skills under the canonical forms of their names; of two with the
/// same the later.
pub open spec fn builtins_of(skills: Seq<BuiltinSkill>) -> Seq<(Seq<char>, BuiltinView)>
    decreases skills.len(),
{
    if skills.len() == 0 {
        Seq::empty()
    } else {
        with_value(
            builtins_of(skills.drop_last()),
            canonical_name_text(skills.last().name@),
            skills.last()@,
        )
    }
}

pub open spec fn listed_builtins(builtins: Seq<(Seq<char>, BuiltinView)>) -> Seq<SummaryView> {
    builtins.map_values(|e: (Seq<char>, BuiltinView)| builtin_summary(e.1))
}

impl<S> BuiltinSkillStore<S> {
    pub open spec fn listed(&self) -> Seq<(Seq<char>, BuiltinView)> {
        seen(self.builtins@, builtin_view())
    }

    pub fn new(inner: S, builtins: Vec<BuiltinSkill>) -> (r: Self)
        ensures
            r.inner == inner,
            r.listed() == builtins_of(builtins@),
    {
        let mut map: TextMap<BuiltinSkill> = TextMap::new();
        let mut i: usize = 0;
        assert(builtins@.take(0) =~= Seq::empty());
        assert(seen(map@, builtin_view()) =~= Seq::<(Seq<char>, BuiltinView)>::empty());
        while i < builtins.len()
            invariant
                i <= builtins.len(),
                seen(map@, builtin_view()) == builtins_of(builtins@.take(i as int)),
            decreases builtins.len() - i,
        {
            let skill = BuiltinSkill {
                name: builtins[i].name.clone(),
                description: builtins[i].description.clone(),
                content: builtins[i].content.clone(),
            };
            let key = canonical_name(&skill.name);
            proof {
                assert(builtins@.take(i + 1).drop_last() =~= builtins@.take(i as int));
                lemma_seen_with_value(map@, builtin_view(), key@, skill);
            }
            map.insert(key, skill);
            i += 1;
        }
        assert(builtins@.take(i as int) =~= builtins@);
        BuiltinSkillStore { inner, builtins: map }
    }

    fn builtin(&self, name: &str) -> (r: Option<&BuiltinSkill>)
        ensures
            match r {
                Some(b) => value_of(self.listed(), canonical_name_text(name@)) == Some(b@),
                None => value_of(self.listed(), canonical_name_text(name@)) is None,
            },
    {
        let key = canonical_name(name);
        proof {
            lemma_seen_value_of(self.builtins@, builtin_view(), key@);
        }
        self.builtins.get(&key)
    }

    fn builtin_summaries(&self) -> (r: Vec<SkillSummary>)
        ensures
            summary_views(r@) == listed_builtins(self.listed()),
    {
        let ghost list = self.listed();
        let mut out: Vec<SkillSummary> = Vec::new();
        let mut i: usize = 0;
        while i < self.builtins.entries.len()
            invariant
                i <= self.builtins.entries.len(),
                list == self.listed(),
                out.len() == i,
                forall|j: int| 0 <= j < i ==> (#[trigger] out@[j])@ == builtin_summary(list[j].1),
            decreases self.builtins.entries.len() - i,
        {
            assert(list[i as int].1 == self.builtins.entries@[i as int].1@);
            out.push(self.builtins.entries[i].1.summary());
            i += 1;
        }
        assert(summary_views(out@) =~= listed_builtins(list));
        out
    }
}

impl<S: SkillStore> SkillStore for BuiltinSkillStore<S> {
    open spec fn got(&self, name: Seq<char>) -> Result<Option<DocumentView>, ErrorView> {
        match value_of(self.listed(), canonical_name_text(name)) {
            Some(b) => match builtin_document(b) {
                Ok(d) => Ok(Some(d)),
                Err(e) => Err(e),
            },
            None => self.inner.got(name),
        }
    }

    open spec fn found(&self, query: Seq<char>) -> Result<Seq<SummaryView>, ErrorView> {
        match self.inner.found(query) {
            Ok(rest) => Ok(
                merged(
                    Identity::ByName,
                    ranked(listed_builtins(self.listed()), search_terms(query)),
                    rest,
                ),
            ),
            Err(e) => Err(e),
        }
    }

    open spec fn resource(&self, skill: Seq<char>, path: Seq<char>) -> Result<
        RequestView,
        ErrorView,
    > {
        match value_of(self.listed(), canonical_name_text(skill)) {
            Some(_) => Err(
                ErrorView::Tool(
                    "skill_resource"@,
                    "builtin skills do not have external resources"@,
                ),
            ),
            None => self.inner.resource(skill, path),
        }
    }

    open spec fn featured(&self) -> Seq<SummaryView> {
        merged(Identity::ByName, listed_builtins(self.listed()), self.inner.featured())
    }

    open spec fn all(&self) -> Seq<SummaryView> {
        merged(Identity::ById, listed_builtins(self.listed()), self.inner.all())
    }

    open spec fn problems(&self) -> Seq<DiagnosticView> {
        self.inner.problems()
    }

    fn get(&self, name: &str) -> (r: Result<Option<SkillDocument>, AgentError>) {
        match self.builtin(name) {
            Some(skill) => match skill.document() {
                Ok(d) => Ok(Some(d)),
                Err(e) => Err(e),
            },
            None => self.inner.get(name),
        }
    }

    fn search(&self, query: &str) -> (r: Result<Vec<SkillSummary>, AgentError>) {
        let keywords = parse_keywords(query);
        let own = rank_summaries(&self.builtin_summaries(), &keywords);
        match self.inner.search(query) {
            Ok(rest) => Ok(merge(Identity::ByName, own, &rest)),
            Err(e) => Err(e),
        }
    }

    fn read_resource(&self, skill: &str, path: &str) -> (r: Result<ResourceRequest, AgentError>) {
        match self.builtin(skill) {
            Some(_) => Err(
                AgentError::tool(
                    "skill_resource",
                    "builtin skills do not have external resources",
                ),
            ),
            None => self.inner.read_resource(skill, path),
        }
    }

    fn featured_summaries(&self) -> (r: Vec<SkillSummary>) {
        let rest = self.inner.featured_summaries();
        merge(Identity::ByName, self.builtin_summaries(), &rest)
    }

    fn all_summaries(&self) -> (r: Vec<SkillSummary>) {
        let rest = self.inner.all_summaries();
        merge(Identity::ById, self.builtin_summaries(), &rest)
    }

    fn load_diagnostics(&self) -> (r: Vec<SkillLoadDiagnostic>) {
        self.inner.load_diagnostics()
    }
}

/// A built-in skill is read as its text says, whole, and is listed as it is set up.
pub proof fn builtin_skills_are_what_they_hold(skill: BuiltinView)
    ensures
        match skill_of_markdown(skill.name, skill.content) {
            Ok(said) => {
                let d = builtin_document(skill)->Ok_0;
                &&& builtin_document(skill) is Ok
                &&& d.content == skill.content
                &&& d.name == said.name && d.id == said.name
                &&& d.description == said.description
                &&& d.pin == said.pin
                &&& d.root is None && d.parent_id is None
            },
            Err(e) => builtin_document(skill) == Err::<DocumentView, _>(e),
        },
        builtin_summary(skill).name == skill.name,
        builtin_summary(skill).id == skill.name,
        builtin_summary(skill).description == skill.description,
        builtin_summary(skill).source == "builtin"@,
{
}

/// Of built-in skills with the same name the last counts.
pub proof fn the_last_builtin_of_a_name_counts(skills: Seq<BuiltinSkill>, i: int)
    requires
        0 <= i < skills.len(),
        forall|j: int|
            i < j < skills.len() ==> canonical_name_text((#[trigger] skills[j]).name@)
                != canonical_name_text(skills[i].name@),
    ensures
        value_of(builtins_of(skills), canonical_name_text(skills[i].name@)) == Some(skills[i]@),
        keys_ordered(builtins_of(skills)),
    decreases skills.len(),
{
    let head = skills.drop_last();
    let key = canonical_name_text(skills.last().name@);
    lemma_builtins_ordered(head);
    lemma_builtins_ordered(skills);
    set_value_is_read_back(
        builtins_of(head),
        key,
        skills.last()@,
        canonical_name_text(skills[i].name@),
    );
    if i < skills.len() - 1 {
        assert(head[i] == skills[i]);
        assert forall|j: int| i < j < head.len() implies canonical_name_text(
            (#[trigger] head[j]).name@,
        ) != canonical_name_text(head[i].name@) by {
            assert(head[j] == skills[j]);
        }
        assert(canonical_name_text(skills[skills.len() - 1].name@) != canonical_name_text(
            skills[i].name@,
        ));
        the_last_builtin_of_a_name_counts(head, i);
    }
}

proof fn lemma_builtins_ordered(skills: Seq<BuiltinSkill>)
    ensures
        keys_ordered(builtins_of(skills)),
    decreases skills.len(),
{
    if skills.len() > 0 {
        lemma_builtins_ordered(skills.drop_last());
        setting_keeps_order(
            builtins_of(skills.drop_last()),
            canonical_name_text(skills.last().name@),
            skills.last()@,
        );
    }
}

/// What is merged in is left out only where something of the same identity is there.
pub proof fn merging_adds_nothing_else(
    by: Identity,
    first: Seq<SummaryView>,
    rest: Seq<SummaryView>,
    k: int,
)
    requires
        first.len() <= k < merged(by, first, rest).len(),
    ensures
        rest.contains(merged(by, first, rest)[k]),
    decreases rest.len(),
{
    if rest.len() > 0 {
        let head = merged(by, first, rest.drop_last());
        if k < head.len() {
            merging_adds_nothing_else(by, first, rest.drop_last(), k);
            let j = choose|j: int|
                0 <= j < rest.drop_last().len() && rest.drop_last()[j] == head[k];
            assert(rest[j] == head[k]);
            assert(merged(by, first, rest)[k] == head[k]);
        } else {
            assert(rest[rest.len() - 1] == merged(by, first, rest)[k]);
        }
    }
}

/// A skill is told apart by its whole id, or by its id as a name.
pub proof fn skills_are_told_apart(summary: SummaryView)
    ensures
        identity(Identity::ById, summary) == canonical_id_text(summary.id),
        identity(Identity::ByName, summary) == canonical_name_text(summary.id),
{
}

} // verus!
