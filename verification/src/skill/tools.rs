//! The tools by which an agent finds and reads skills.
use vstd::prelude::*;
use vstd::string::*;

use crate::error::{AgentError, ErrorView};
use crate::json::{
    as_text, json_views, member, no_fields, no_items, set_field_is_read_back, with_field, JsonMap, JsonValue,
    JsonView,
};
use crate::message::option_text;
use crate::paths::{file_name, file_name_text, parent, parent_text};
use crate::skill::names::{canonical_name, canonical_name_text};
use crate::skill::store::SkillStore;
use crate::skill::types::{
    diagnostic_views, summary_views, DiagnosticView, DocumentView, SkillDocument,
    SkillLoadDiagnostic, SkillLoadDiagnosticSeverity, SkillSummary, SummaryView,
};
use crate::text::{
    decimal, decimal_text, list_has, str_eq, texts, trim, trim_end, trim_end_text, trimmed,
};

verus! {

broadcast use vstd::string::group_string_axioms;

pub const READ_SKILLS_STATE_KEY: &'static str = "__read_skills";

pub const LEGACY_ACTIVATED_SKILLS_STATE_KEY: &'static str = "__activated_skills";

pub const BUILTIN_TRIGGER_SKILL_NAME: &'static str = "trigger";

// ---------------------------------------------------------------------- texts

pub open spec fn summary_line(s: SummaryView) -> Seq<char> {
    "- "@ + s.name + " - "@ + s.description + " ("@ + s.source + ")"@
}

pub fn render_skill_summary(summary: &SkillSummary) -> (r: String)
    ensures
        r@ == summary_line(summary@),
{
    let mut t = "- ".to_owned();
    t.push_str(&summary.name);
    t.push_str(" - ");
    t.push_str(&summary.description);
    t.push_str(" (");
    t.push_str(&summary.source);
    t.push_str(")");
    t
}

pub open spec fn summary_lines(list: Seq<SummaryView>) -> Seq<char>
    decreases list.len(),
{
    if list.len() == 0 {
        Seq::empty()
    } else {
        summary_lines(list.drop_last()) + summary_line(list.last()) + "\n"@
    }
}

fn push_summaries(text: &mut String, list: &Vec<SkillSummary>)
    ensures
        final(text)@ == old(text)@ + summary_lines(summary_views(list@)),
{
    let ghost all = summary_views(list@);
    let ghost start = text@;
    let mut i: usize = 0;
    assert(all.take(0) =~= Seq::empty());
    assert(start + Seq::<char>::empty() =~= start);
    while i < list.len()
        invariant
            i <= list.len(),
            all == summary_views(list@),
            text@ == start + summary_lines(all.take(i as int)),
        decreases list.len() - i,
    {
        assert(all.take(i + 1).drop_last() =~= all.take(i as int));
        assert(all[i as int] == list@[i as int]@);
        text.push_str(&render_skill_summary(&list[i]));
        text.push_str("\n");
        i += 1;
        assert(text@ =~= start + summary_lines(all.take(i as int)));
    }
    assert(all.take(i as int) =~= all);
}

pub open spec fn severity_text(s: SkillLoadDiagnosticSeverity) -> Seq<char> {
    match s {
        SkillLoadDiagnosticSeverity::Warning => "warning"@,
        SkillLoadDiagnosticSeverity::Error => "error"@,
    }
}

pub open spec fn skill_mark(skill: Option<Seq<char>>) -> Seq<char> {
    match skill {
        Some(s) => " skill="@ + s,
        None => Seq::empty(),
    }
}

pub open spec fn diagnostic_line(d: DiagnosticView) -> Seq<char> {
    "- "@ + severity_text(d.severity) + ":"@ + skill_mark(d.skill) + " "@ + d.path + " - "@
        + d.message + "\n"@
}

pub open spec fn diagnostic_lines(list: Seq<DiagnosticView>) -> Seq<char>
    decreases list.len(),
{
    if list.len() == 0 {
        Seq::empty()
    } else {
        diagnostic_lines(list.drop_last()) + diagnostic_line(list.last())
    }
}

/// How many diagnostics are shown.
pub open spec fn diagnostics_shown() -> int {
    8
}

/// The diagnostics as a text: the first of them, and how many more there are.
pub open spec fn diagnostics_text(list: Seq<DiagnosticView>) -> Seq<char> {
    if list.len() == 0 {
        Seq::empty()
    } else {
        let limit = diagnostics_shown();
        let head = "\n\nSkill load diagnostics:\n"@ + diagnostic_lines(
            list.take(if list.len() < limit { list.len() as int } else { limit }),
        );
        trim_end_text(
            if list.len() > limit {
                head + "- ... "@ + decimal((list.len() - limit) as nat)
                    + " more diagnostic(s) omitted\n"@
            } else {
                head
            },
        )
    }
}

fn push_diagnostic(text: &mut String, d: &SkillLoadDiagnostic)
    ensures
        final(text)@ == old(text)@ + diagnostic_line(d@),
{
    let ghost start = text@;
    text.push_str("- ");
    match d.severity {
        SkillLoadDiagnosticSeverity::Warning => text.push_str("warning"),
        SkillLoadDiagnosticSeverity::Error => text.push_str("error"),
    }
    text.push_str(":");
    match &d.skill {
        Some(s) => {
            text.push_str(" skill=");
            text.push_str(s);
        },
        None => {},
    }
    text.push_str(" ");
    text.push_str(&d.path);
    text.push_str(" - ");
    text.push_str(&d.message);
    text.push_str("\n");
    assert(text@ =~= start + diagnostic_line(d@));
}

/// The diagnostics as a text.
pub fn render_skill_diagnostics_summary(diagnostics: &Vec<SkillLoadDiagnostic>) -> (r: String)
    ensures
        r@ == diagnostics_text(diagnostic_views(diagnostics@)),
{
    if diagnostics.len() == 0 {
        return String::new();
    }
    let limit: usize = 8;
    let shown: usize = if diagnostics.len() < limit {
        diagnostics.len()
    } else {
        limit
    };
    let ghost all = diagnostic_views(diagnostics@);
    let mut text = "\n\nSkill load diagnostics:\n".to_owned();
    let ghost head = text@;
    let mut i: usize = 0;
    assert(all.take(0) =~= Seq::empty());
    assert(head + Seq::<char>::empty() =~= head);
    while i < shown
        invariant
            i <= shown <= diagnostics.len(),
            all == diagnostic_views(diagnostics@),
            text@ == head + diagnostic_lines(all.take(i as int)),
        decreases shown - i,
    {
        assert(all.take(i + 1).drop_last() =~= all.take(i as int));
        assert(all[i as int] == diagnostics@[i as int]@);
        push_diagnostic(&mut text, &diagnostics[i]);
        i += 1;
        assert(text@ =~= head + diagnostic_lines(all.take(i as int)));
    }
    if diagnostics.len() > limit {
        text.push_str("- ... ");
        text.push_str(&decimal_text((diagnostics.len() - limit) as u64));
        text.push_str(" more diagnostic(s) omitted\n");
    }
    trim_end(&text)
}

/// The skill that the file of a diagnostic belongs to, by its directory.
pub open spec fn path_skill(path: Seq<char>) -> Option<Seq<char>> {
    match parent_text(path) {
        Some(dir) => match file_name_text(dir) {
            Some(name) => Some(canonical_name_text(name)),
            None => None,
        },
        None => None,
    }
}

pub fn diagnostic_path_skill_name(path: &str) -> (r: Option<String>)
    ensures
        option_text(r) == path_skill(path@),
{
    match parent(path) {
        Some(dir) => match file_name(&dir) {
            Some(name) => Some(canonical_name(&name)),
            None => None,
        },
        None => None,
    }
}

/// Whether a diagnostic speaks of the skill with the canonical name `name`.
pub open spec fn speaks_of(d: DiagnosticView, name: Seq<char>) -> bool {
    (d.skill matches Some(s) && canonical_name_text(s) == name) || path_skill(d.path) == Some(name)
}

pub open spec fn diagnostics_of(list: Seq<DiagnosticView>, name: Seq<char>) -> Seq<DiagnosticView>
    decreases list.len(),
{
    if list.len() == 0 {
        list
    } else {
        let head = diagnostics_of(list.drop_last(), name);
        if speaks_of(list.last(), name) {
            head.push(list.last())
        } else {
            head
        }
    }
}

/// The diagnostics that speak of a skill.
pub fn diagnostics_for_skill_name(diagnostics: &Vec<SkillLoadDiagnostic>, name: &str) -> (r: Vec<
    SkillLoadDiagnostic,
>)
    ensures
        diagnostic_views(r@) == diagnostics_of(
            diagnostic_views(diagnostics@),
            canonical_name_text(name@),
        ),
{
    let requested = canonical_name(name);
    let ghost all = diagnostic_views(diagnostics@);
    let mut out: Vec<SkillLoadDiagnostic> = Vec::new();
    let mut i: usize = 0;
    assert(all.take(0) =~= Seq::empty());
    assert(diagnostic_views(out@) =~= all.take(0));
    while i < diagnostics.len()
        invariant
            i <= diagnostics.len(),
            all == diagnostic_views(diagnostics@),
            diagnostic_views(out@) == diagnostics_of(all.take(i as int), requested@),
        decreases diagnostics.len() - i,
    {
        let d = &diagnostics[i];
        assert(all.take(i + 1).drop_last() =~= all.take(i as int));
        assert(all[i as int] == d@);
        let by_skill = match &d.skill {
            Some(s) => str_eq(&canonical_name(s), &requested),
            None => false,
        };
        let by_path = match diagnostic_path_skill_name(&d.path) {
            Some(s) => str_eq(&s, &requested),
            None => false,
        };
        if by_skill || by_path {
            let ghost before = diagnostic_views(out@);
            out.push(d.copy());
            assert(diagnostic_views(out@) =~= before.push(d@));
        }
        i += 1;
    }
    assert(all.take(i as int) =~= all);
    out
}

/// What an agent is told of the skills there are.
pub open spec fn catalog_text(skills: Seq<SummaryView>) -> Seq<char> {
    if skills.len() == 0 {
        "Local skills follow the Agent Skills SKILL.md directory format. Use skill__search with keywords to discover skills by name and description. Use skill__get to read one skill's instructions for the current turn; use fs_read with the returned resource_root_path for supporting files."@
    } else {
        "Available local skills (catalog only; full instructions are loaded by skill__get):\n"@
            + summary_lines(skills)
            + "Use skill__search to discover additional skills. Use skill__get with the exact skill name to read one skill's instructions for the current turn."@
    }
}

/// What an agent is told of the skills there are.
pub fn render_skill_get_extra_prompt(skills: &Vec<SkillSummary>) -> (r: String)
    ensures
        r@ == catalog_text(summary_views(skills@)),
{
    if skills.len() == 0 {
        return "Local skills follow the Agent Skills SKILL.md directory format. Use skill__search with keywords to discover skills by name and description. Use skill__get to read one skill's instructions for the current turn; use fs_read with the returned resource_root_path for supporting files.".to_owned();
    }
    let mut prompt =
        "Available local skills (catalog only; full instructions are loaded by skill__get):\n".to_owned();
    push_summaries(&mut prompt, skills);
    prompt.push_str(
        "Use skill__search to discover additional skills. Use skill__get with the exact skill name to read one skill's instructions for the current turn.",
    );
    prompt
}

// ------------------------------------------------------------- trigger skill

/// The skills without the one for triggers, where that one is to be hidden.
pub open spec fn without_trigger(list: Seq<SummaryView>, suppress: bool) -> Seq<SummaryView>
    decreases list.len(),
{
    if !suppress || list.len() == 0 {
        list
    } else {
        let head = without_trigger(list.drop_last(), suppress);
        if list.last().name != BUILTIN_TRIGGER_SKILL_NAME@ {
            head.push(list.last())
        } else {
            head
        }
    }
}

/// The skills without the one for triggers, where that one is to be hidden.
pub fn filter_trigger_skill(skills: Vec<SkillSummary>, suppress: bool) -> (r: Vec<SkillSummary>)
    ensures
        summary_views(r@) == without_trigger(summary_views(skills@), suppress),
{
    if !suppress {
        return skills;
    }
    let ghost all = summary_views(skills@);
    let mut out: Vec<SkillSummary> = Vec::new();
    let mut i: usize = 0;
    assert(all.take(0) =~= Seq::empty());
    assert(summary_views(out@) =~= all.take(0));
    while i < skills.len()
        invariant
            i <= skills.len(),
            suppress,
            all == summary_views(skills@),
            summary_views(out@) == without_trigger(all.take(i as int), suppress),
        decreases skills.len() - i,
    {
        assert(all.take(i + 1).drop_last() =~= all.take(i as int));
        assert(all[i as int] == skills@[i as int]@);
        if !str_eq(&skills[i].name, BUILTIN_TRIGGER_SKILL_NAME) {
            let ghost before = summary_views(out@);
            out.push(skills[i].copy());
            assert(summary_views(out@) =~= before.push(skills@[i as int]@));
        }
        i += 1;
    }
    assert(all.take(i as int) =~= all);
    out
}

/// A hidden skill is never listed.
pub proof fn hidden_skill_is_not_listed(list: Seq<SummaryView>, i: int)
    requires
        0 <= i < without_trigger(list, true).len(),
    ensures
        without_trigger(list, true)[i].name != BUILTIN_TRIGGER_SKILL_NAME@,
    decreases list.len(),
{
    if list.len() > 0 {
        let head = without_trigger(list.drop_last(), true);
        if i < head.len() {
            hidden_skill_is_not_listed(list.drop_last(), i);
        }
    }
}

pub fn hides_trigger_skill(name: &str, suppress: bool) -> (r: bool)
    ensures
        r == (suppress && trimmed(name@) == BUILTIN_TRIGGER_SKILL_NAME@),
{
    suppress && str_eq(&trim(name), BUILTIN_TRIGGER_SKILL_NAME)
}

// ------------------------------------------------------------- read skills

/// `names` with the texts among `items` that it does not yet hold.
pub open spec fn with_names(names: Seq<Seq<char>>, items: Seq<JsonView>) -> Seq<Seq<char>>
    decreases items.len(),
{
    if items.len() == 0 {
        names
    } else {
        let head = with_names(names, items.drop_last());
        match items.last() {
            JsonView::Text(s) => if head.contains(s) {
                head
            } else {
                head.push(s)
            },
            _ => head,
        }
    }
}

pub open spec fn listed(state: JsonView, key: Seq<char>) -> Seq<JsonView> {
    match member(state, key) {
        Some(JsonView::Array(items)) => items,
        _ => Seq::empty(),
    }
}

/// The skills that were read in a session, each once.
pub open spec fn read_names(state: JsonView) -> Seq<Seq<char>> {
    with_names(
        with_names(Seq::empty(), listed(state, READ_SKILLS_STATE_KEY@)),
        listed(state, LEGACY_ACTIVATED_SKILLS_STATE_KEY@),
    )
}

fn add_names(names: &mut Vec<String>, state: &JsonValue, key: &str)
    ensures
        texts(final(names)@) == with_names(texts(old(names)@), listed(state@, key@)),
{
    let ghost start = texts(names@);
    match state.get(key) {
        Some(JsonValue::Array(items)) => {
            let ghost all = json_views(items@);
            assert(listed(state@, key@) =~= all);
            let mut i: usize = 0;
            assert(all.take(0) =~= Seq::empty());
            while i < items.len()
                invariant
                    i <= items.len(),
                    all == json_views(items@),
                    texts(names@) == with_names(start, all.take(i as int)),
                decreases items.len() - i,
            {
                assert(all.take(i + 1).drop_last() =~= all.take(i as int));
                assert(all[i as int] == items@[i as int]@);
                match &items[i] {
                    JsonValue::Text(s) => {
                        if !list_has(names, s) {
                            let ghost before = texts(names@);
                            names.push(s.clone());
                            assert(texts(names@) =~= before.push(s@));
                        }
                    },
                    _ => {},
                }
                i += 1;
            }
            assert(all.take(i as int) =~= all);
        },
        _ => {},
    }
}

/// The skills that were read in a session.
pub fn read_skill_names(user_state: &JsonValue) -> (r: Vec<String>)
    ensures
        texts(r@) == read_names(user_state@),
{
    let mut names: Vec<String> = Vec::new();
    assert(texts(names@) =~= Seq::<Seq<char>>::empty());
    add_names(&mut names, user_state, READ_SKILLS_STATE_KEY);
    add_names(&mut names, user_state, LEGACY_ACTIVATED_SKILLS_STATE_KEY);
    names
}

pub open spec fn with_item(items: Seq<JsonView>, name: Seq<char>) -> Seq<JsonView> {
    if items.contains(JsonView::Text(name)) {
        items
    } else {
        items.push(JsonView::Text(name))
    }
}

pub open spec fn object_fields(state: JsonView) -> Seq<(Seq<char>, JsonView)> {
    match state {
        JsonView::Object(fields) => fields,
        _ => Seq::empty(),
    }
}

/// The state of a session in which one skill more was read.
pub open spec fn marked_read(state: JsonView, name: Seq<char>) -> JsonView {
    JsonView::Object(
        with_field(
            object_fields(state),
            READ_SKILLS_STATE_KEY@,
            JsonView::Array(with_item(listed(state, READ_SKILLS_STATE_KEY@), name)),
        ),
    )
}

/// Notes that a skill was read.
pub fn mark_skill_read(state: &mut JsonValue, name: &str)
    ensures
        final(state)@ == marked_read(old(state)@, name@),
{
    let ghost before = state@;
    let mut items: Vec<JsonValue> = Vec::new();
    let mut known = false;
    match state.get(READ_SKILLS_STATE_KEY) {
        Some(JsonValue::Array(list)) => {
            let ghost all = json_views(list@);
            assert(listed(before, READ_SKILLS_STATE_KEY@) =~= all);
            let mut i: usize = 0;
            while i < list.len()
                invariant
                    i <= list.len(),
                    all == json_views(list@),
                    items.len() == i,
                    forall|j: int| 0 <= j < i ==> (#[trigger] items@[j])@ == all[j],
                    known <==> exists|j: int| 0 <= j < i && #[trigger] all[j] == JsonView::Text(
                        name@,
                    ),
                decreases list.len() - i,
            {
                assert(all[i as int] == list@[i as int]@);
                match &list[i] {
                    JsonValue::Text(s) => {
                        if str_eq(s, name) {
                            known = true;
                        }
                    },
                    _ => {},
                }
                items.push(list[i].copy());
                i += 1;
            }
            assert(json_views(items@) =~= all);
            assert(known == all.contains(JsonView::Text(name@)));
        },
        _ => {
            assert(json_views(items@) =~= Seq::<JsonView>::empty());
        },
    }
    let ghost old_items = json_views(items@);
    assert(old_items == listed(before, READ_SKILLS_STATE_KEY@));
    if !known {
        items.push(JsonValue::text(name));
        assert(json_views(items@) =~= old_items.push(JsonView::Text(name@)));
    }
    let mut map = match &*state {
        JsonValue::Object(m) => m.copy(),
        _ => JsonMap::new(),
    };
    map.insert(READ_SKILLS_STATE_KEY, JsonValue::array(items));
    *state = JsonValue::Object(map);
}

proof fn lemma_with_names_has(names: Seq<Seq<char>>, items: Seq<JsonView>, name: Seq<char>)
    ensures
        names.contains(name) || items.contains(JsonView::Text(name)) ==> with_names(
            names,
            items,
        ).contains(name),
    decreases items.len(),
{
    if items.len() > 0 {
        let head = with_names(names, items.drop_last());
        lemma_with_names_has(names, items.drop_last(), name);
        if items.contains(JsonView::Text(name)) && items.last() != JsonView::Text(name) {
            let i = choose|i: int| 0 <= i < items.len() && items[i] == JsonView::Text(name);
            assert(items.drop_last()[i] == JsonView::Text(name));
        }
        if head.contains(name) {
            let k = choose|k: int| 0 <= k < head.len() && head[k] == name;
            assert(with_names(names, items)[k] == name);
        } else if items.last() == JsonView::Text(name) {
            assert(with_names(names, items)[head.len() as int] == name);
        }
    }
}

/// A skill that is noted as read is among those that were read.
pub proof fn marked_skills_are_read(state: JsonView, name: Seq<char>)
    ensures
        read_names(marked_read(state, name)).contains(name),
{
    let items = with_item(listed(state, READ_SKILLS_STATE_KEY@), name);
    set_field_is_read_back(
        object_fields(state),
        READ_SKILLS_STATE_KEY@,
        JsonView::Array(items),
        LEGACY_ACTIVATED_SKILLS_STATE_KEY@,
    );
    let after = marked_read(state, name);
    if !listed(state, READ_SKILLS_STATE_KEY@).contains(JsonView::Text(name)) {
        assert(items.last() == JsonView::Text(name));
        assert(items[items.len() - 1] == JsonView::Text(name));
    }
    lemma_with_names_has(Seq::empty(), items, name);
    lemma_with_names_has(
        with_names(Seq::empty(), items),
        listed(after, LEGACY_ACTIVATED_SKILLS_STATE_KEY@),
        name,
    );
}

/// No skill is listed twice among those that were read.
pub proof fn read_skills_are_distinct(names: Seq<Seq<char>>, items: Seq<JsonView>)
    requires
        names.no_duplicates(),
    ensures
        with_names(names, items).no_duplicates(),
    decreases items.len(),
{
    if items.len() > 0 {
        read_skills_are_distinct(names, items.drop_last());
    }
}

// ---------------------------------------------------------------------- tools

/// The schema of a tool that takes one text.
pub open spec fn one_text_schema(name: Seq<char>, description: Seq<char>) -> JsonView {
    let parameter = no_fields().push(("type"@, JsonView::Text("string"@))).push(
        ("description"@, JsonView::Text(description)),
    );
    let properties = no_fields().push((name, JsonView::Object(parameter)));
    JsonView::Object(
        no_fields().push(("type"@, JsonView::Text("object"@))).push(
            ("properties"@, JsonView::Object(properties)),
        ).push(("required"@, JsonView::Array(no_items().push(JsonView::Text(name))))),
    )
}

/// The schema of a tool that takes one text.
pub fn text_parameter_schema(name: &str, description: &str) -> (r: JsonValue)
    ensures
        r@ == one_text_schema(name@, description@),
{
    let parameter = JsonMap::new().with("type", JsonValue::text("string")).with(
        "description",
        JsonValue::text(description),
    );
    let properties = JsonMap::new().with(name, JsonValue::object(parameter));
    let mut required: Vec<JsonValue> = Vec::new();
    required.push(JsonValue::text(name));
    assert(json_views(required@) =~= no_items().push(JsonView::Text(name@)));
    JsonValue::object(
        JsonMap::new().with("type", JsonValue::text("object")).with(
            "properties",
            JsonValue::object(properties),
        ).with("required", JsonValue::array(required)),
    )
}

/// Where the files of a skill can be read.
pub open spec fn resource_hint(doc: DocumentView) -> Seq<char> {
    match (doc.skill_file_path, doc.resource_root_path) {
        (Some(file), Some(root)) => "fs_read skill_file_path="@ + file + "; resource_root_path="@
            + root,
        _ => "resources are not readable through fs_read because this skill is outside the workspace root"@,
    }
}

/// What an agent is given that reads a skill.
pub open spec fn skill_text(doc: DocumentView, problems: Seq<DiagnosticView>) -> Seq<char> {
    trim_end_text(doc.content) + "\n\n[skill read: "@ + doc.name + " from "@ + doc.source + "; "@
        + resource_hint(doc) + "]"@ + diagnostics_text(
        diagnostics_of(problems, canonical_name_text(doc.name)),
    )
}

/// What an agent is told that asks for a skill that is not there: with the
/// diagnostics that speak of it, or with all where none does.
pub open spec fn missing_skill_text(name: Seq<char>, problems: Seq<DiagnosticView>) -> Seq<char> {
    let relevant = diagnostics_of(problems, canonical_name_text(name));
    "Skill '"@ + name + "' not found."@ + diagnostics_text(
        if relevant.len() == 0 {
            problems
        } else {
            relevant
        },
    )
}

fn render_skill(doc: &SkillDocument, problems: &Vec<SkillLoadDiagnostic>) -> (r: String)
    ensures
        r@ == skill_text(doc@, diagnostic_views(problems@)),
{
    let mut hint = String::new();
    match (&doc.skill_file_path, &doc.resource_root_path) {
        (Some(file), Some(root)) => {
            hint = "fs_read skill_file_path=".to_owned();
            hint.push_str(file);
            hint.push_str("; resource_root_path=");
            hint.push_str(root);
        },
        _ => {
            hint =
            "resources are not readable through fs_read because this skill is outside the workspace root".to_owned();
        },
    }
    let relevant = diagnostics_for_skill_name(problems, &doc.name);
    let mut text = trim_end(&doc.content);
    text.push_str("\n\n[skill read: ");
    text.push_str(&doc.name);
    text.push_str(" from ");
    text.push_str(&doc.source);
    text.push_str("; ");
    text.push_str(&hint);
    text.push_str("]");
    text.push_str(&render_skill_diagnostics_summary(&relevant));
    text
}

fn render_missing_skill(name: &str, problems: Vec<SkillLoadDiagnostic>) -> (r: String)
    ensures
        r@ == missing_skill_text(name@, diagnostic_views(problems@)),
{
    let relevant = diagnostics_for_skill_name(&problems, name);
    let mut text = "Skill '".to_owned();
    text.push_str(name);
    text.push_str("' not found.");
    if relevant.len() == 0 {
        assert(diagnostic_views(relevant@).len() == 0);
        text.push_str(&render_skill_diagnostics_summary(&problems));
    } else {
        assert(diagnostic_views(relevant@).len() == relevant@.len());
        text.push_str(&render_skill_diagnostics_summary(&relevant));
    }
    text
}

/// The tool that reads a skill.
#[derive(Debug)]
pub struct SkillGetTool<S> {
    pub store: S,
}

impl<S: SkillStore> SkillGetTool<S> {
    pub fn name(&self) -> (r: &'static str)
        ensures
            r@ == "skill__get"@,
    {
        "skill__get"
    }

    pub fn description(&self) -> (r: &'static str)
        ensures
            r@
                == "Read the full SKILL.md instructions for a local skill by name. The instructions are returned in this tool result. For supporting files, use fs_read with the returned resource_root_path."@,
    {
        "Read the full SKILL.md instructions for a local skill by name. The instructions are returned in this tool result. For supporting files, use fs_read with the returned resource_root_path."
    }

    /// What an agent is told beside the description.
    pub fn extra_prompt(&self, suppress: bool) -> (r: Option<String>)
        ensures
            option_text(r) == Some(catalog_text(without_trigger(self.store.featured(), suppress))),
    {
        let skills = filter_trigger_skill(self.store.featured_summaries(), suppress);
        Some(render_skill_get_extra_prompt(&skills))
    }

    pub fn parameters_schema(&self) -> (r: JsonValue)
        ensures
            r@ == one_text_schema("name"@, "Skill name from the catalog"@),
    {
        text_parameter_schema("name", "Skill name from the catalog")
    }

    /// Reads the skill that the arguments name, and notes in the state of the
    /// session that it was read.
    pub fn execute(&self, arguments: &JsonValue, suppress: bool, state: &mut JsonValue) -> (r: Result<
        String,
        AgentError,
    >)
        ensures
            match as_text(member(arguments@, "name"@)) {
                None => r is Err && r->Err_0@ == ErrorView::Tool("skill__get"@, "missing 'name'"@)
                    && final(state)@ == old(state)@,
                Some(name) => if suppress && trimmed(name) == BUILTIN_TRIGGER_SKILL_NAME@ {
                    r is Ok && r->Ok_0@ == "Skill '"@ + name + "' not found."@ && final(state)@
                        == old(state)@
                } else {
                    match self.store.got(name) {
                        Err(e) => r is Err && r->Err_0@ == e && final(state)@ == old(state)@,
                        Ok(None) => r is Ok && r->Ok_0@ == missing_skill_text(
                            name,
                            self.store.problems(),
                        ) && final(state)@ == old(state)@,
                        Ok(Some(doc)) => r is Ok && r->Ok_0@ == skill_text(
                            doc,
                            self.store.problems(),
                        ) && final(state)@ == marked_read(old(state)@, doc.name),
                    }
                },
            },
    {
        let name = match arguments.get_str("name") {
            Some(n) => n,
            None => return Err(AgentError::tool("skill__get", "missing 'name'")),
        };
        if hides_trigger_skill(&name, suppress) {
            let mut text = "Skill '".to_owned();
            text.push_str(&name);
            text.push_str("' not found.");
            return Ok(text);
        }
        match self.store.get(&name) {
            Err(e) => Err(e),
            Ok(Some(doc)) => {
                mark_skill_read(state, &doc.name);
                let problems = self.store.load_diagnostics();
                Ok(render_skill(&doc, &problems))
            },
            Ok(None) => Ok(render_missing_skill(&name, self.store.load_diagnostics())),
        }
    }
}

/// What an agent is told that looks for skills.
pub open spec fn search_text(
    query: Seq<char>,
    matches: Seq<SummaryView>,
    problems: Seq<DiagnosticView>,
) -> Seq<char> {
    if matches.len() == 0 {
        "No skills matched '"@ + query
            + "'. Search checks skill names and descriptions; try broader keywords."@
            + diagnostics_text(problems)
    } else {
        "Found "@ + decimal(matches.len()) + " matching skill(s) for '"@ + query + "':\n"@
            + summary_lines(matches) + "Use skill__get with the exact skill name to read one."@
            + diagnostics_text(problems)
    }
}

/// The tool that looks for skills.
#[derive(Debug)]
pub struct SkillSearchTool<S> {
    pub store: S,
}

impl<S: SkillStore> SkillSearchTool<S> {
    pub fn name(&self) -> (r: &'static str)
        ensures
            r@ == "skill__search"@,
    {
        "skill__search"
    }

    pub fn description(&self) -> (r: &'static str)
        ensures
            r@
                == "Search the local skill catalog by keyword across skill names and descriptions. Results contain only name, description, and source; use skill__get to read a skill."@,
    {
        "Search the local skill catalog by keyword across skill names and descriptions. Results contain only name, description, and source; use skill__get to read a skill."
    }

    pub fn parameters_schema(&self) -> (r: JsonValue)
        ensures
            r@ == one_text_schema(
                "query"@,
                "One or more keywords separated by spaces. Empty query lists the catalog."@,
            ),
    {
        text_parameter_schema(
            "query",
            "One or more keywords separated by spaces. Empty query lists the catalog.",
        )
    }

    /// Looks for the skills that answer the query of the arguments.
    pub fn execute(&self, arguments: &JsonValue, suppress: bool) -> (r: Result<String, AgentError>)
        ensures
            match as_text(member(arguments@, "query"@)) {
                None => r is Err && r->Err_0@ == ErrorView::Tool(
                    "skill__search"@,
                    "missing 'query'"@,
                ),
                Some(q) => match self.store.found(trimmed(q)) {
                    Err(e) => r is Err && r->Err_0@ == e,
                    Ok(found) => r is Ok && r->Ok_0@ == search_text(
                        trimmed(q),
                        without_trigger(found, suppress),
                        self.store.problems(),
                    ),
                },
            },
    {
        let query = match arguments.get_str("query") {
            Some(q) => trim(&q),
            None => return Err(AgentError::tool("skill__search", "missing 'query'")),
        };
        let matches = match self.store.search(&query) {
            Ok(found) => filter_trigger_skill(found, suppress),
            Err(e) => return Err(e),
        };
        let problems = self.store.load_diagnostics();
        assert(summary_views(matches@).len() == matches@.len());
        if matches.len() == 0 {
            let mut text = "No skills matched '".to_owned();
            text.push_str(&query);
            text.push_str("'. Search checks skill names and descriptions; try broader keywords.");
            text.push_str(&render_skill_diagnostics_summary(&problems));
            return Ok(text);
        }
        let mut text = "Found ".to_owned();
        text.push_str(&decimal_text(matches.len() as u64));
        text.push_str(" matching skill(s) for '");
        text.push_str(&query);
        text.push_str("':\n");
        push_summaries(&mut text, &matches);
        text.push_str("Use skill__get with the exact skill name to read one.");
        text.push_str(&render_skill_diagnostics_summary(&problems));
        Ok(text)
    }
}

pub open spec fn skill_tools() -> Seq<Seq<char>> {
    seq!["skill__get"@, "skill__search"@, "skill__read_resource"@]
}

/// The names of the tools for skills, in the order in which they are offered.
pub fn register_skill_tools(registry: &mut Vec<String>)
    ensures
        texts(final(registry)@) == texts(old(registry)@) + skill_tools(),
{
    let ghost before = texts(registry@);
    registry.push("skill__get".to_owned());
    registry.push("skill__search".to_owned());
    registry.push("skill__read_resource".to_owned());
    assert(texts(registry@) =~= before + skill_tools());
}

} // verus!
