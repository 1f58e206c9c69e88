//! What an agent is told of the skills that are pinned.
use vstd::prelude::*;
use vstd::string::*;

use crate::message::{insert_system, message_views, option_text, with_system_at, Message, MessageView};
use crate::order::{lemma_filter_has, lemma_filter_last, lemma_filter_none};
use crate::runtime::budget::{at_least_one, less};
use crate::skill::ranking::{all_skills_are_listed_by_name, by_name, sort_by_name};
use crate::skill::types::{summary_views, SkillSummary, SummaryView};
use crate::text::{
    chars_of, is_blank, join, joined, lemma_occurs_in_both, occurs, occurs_at, text_range, texts,
    trimmed, what_is_joined_is_there,
};
use crate::tokens::{
    budget_tokens, context_budget_tokens, estimate_model_input_tokens, token_estimate,
};

verus! {

broadcast use vstd::string::group_string_axioms;

pub const PINNED_SKILL_PROMPT_CONTEXT_PERCENT: usize = 2;

pub const PINNED_SKILLS_HEADER: &'static str = "## Pinned Skills";

pub const PINNED_SKILLS_SEARCH_AND_GET_HINT: &'static str =
    "More skills may be available; use `skill__search`, then `skill__get`.";

pub const PINNED_SKILLS_SEARCH_HINT: &'static str =
    "More skills may be available; use `skill__search`.";

pub const PINNED_SKILLS_GET_HINT: &'static str =
    "Use `skill__get` with an exact skill name to read full skill instructions.";

/// Which tools for skills an agent has.
#[derive(Debug, Clone, Copy, PartialEq, Eq, Structural)]
pub struct SkillPromptToolAvailability {
    pub skill_search: bool,
    pub skill_get: bool,
    pub fs_read: bool,
}

pub open spec fn undiscoverable(t: SkillPromptToolAvailability) -> SkillPromptToolAvailability {
    SkillPromptToolAvailability { skill_search: false, skill_get: false, fs_read: t.fs_read }
}

impl SkillPromptToolAvailability {
    pub fn new(skill_search: bool, skill_get: bool, fs_read: bool) -> (r: Self)
        ensures
            r == (SkillPromptToolAvailability { skill_search, skill_get, fs_read }),
    {
        SkillPromptToolAvailability { skill_search, skill_get, fs_read }
    }

    fn without_skill_discovery(self) -> (r: Self)
        ensures
            r == undiscoverable(self),
    {
        SkillPromptToolAvailability { skill_search: false, skill_get: false, fs_read: self.fs_read }
    }

    pub fn all() -> (r: Self)
        ensures
            r.skill_search && r.skill_get && r.fs_read,
    {
        Self::new(true, true, true)
    }
}

/// How more skills are found.
pub open spec fn discovery_hint(t: SkillPromptToolAvailability) -> Option<Seq<char>> {
    match (t.skill_search, t.skill_get) {
        (true, true) => Some(PINNED_SKILLS_SEARCH_AND_GET_HINT@),
        (true, false) => Some(PINNED_SKILLS_SEARCH_HINT@),
        (false, true) => Some(PINNED_SKILLS_GET_HINT@),
        (false, false) => None,
    }
}

/// How more skills are found.
pub fn pinned_skills_discovery_hint(t: SkillPromptToolAvailability) -> (r: Option<&'static str>)
    ensures
        match r {
            Some(h) => discovery_hint(t) == Some(h@),
            None => discovery_hint(t) is None,
        },
{
    if t.skill_search && t.skill_get {
        Some(PINNED_SKILLS_SEARCH_AND_GET_HINT)
    } else if t.skill_search {
        Some(PINNED_SKILLS_SEARCH_HINT)
    } else if t.skill_get {
        Some(PINNED_SKILLS_GET_HINT)
    } else {
        None
    }
}

// ---------------------------------------------------------------- descriptions

/// How many characters of a text, from `k` on, still fit with an ellipsis.
pub open spec fn fitting_from(text: Seq<char>, budget: int, k: int) -> int
    decreases text.len() - k,
{
    if 0 <= k < text.len() && token_estimate(text.take(k + 1) + "..."@) <= budget {
        fitting_from(text, budget, k + 1)
    } else {
        k
    }
}

/// The description of a pinned skill, cut so that its line takes no more tokens
/// than it may; empty where nothing of it fits.
pub open spec fn shown_description(name: Seq<char>, description: Seq<char>, budget: u32) -> Seq<char> {
    let prefix = token_estimate("- `"@ + name + "` - "@);
    if prefix >= budget {
        Seq::empty()
    } else if token_estimate(description) <= budget - prefix {
        description
    } else {
        let k = fitting_from(description, budget - prefix, 0);
        if k == 0 {
            Seq::empty()
        } else {
            description.take(k) + "..."@
        }
    }
}

proof fn lemma_fitting(text: Seq<char>, budget: int, k: int)
    requires
        0 <= k <= text.len(),
        k > 0 ==> token_estimate(text.take(k) + "..."@) <= budget,
    ensures
        k <= fitting_from(text, budget, k) <= text.len(),
        fitting_from(text, budget, k) > 0 ==> token_estimate(
            text.take(fitting_from(text, budget, k)) + "..."@,
        ) <= budget,
    decreases text.len() - k,
{
    if k < text.len() && token_estimate(text.take(k + 1) + "..."@) <= budget {
        lemma_fitting(text, budget, k + 1);
    }
}

/// What is shown of a description takes no more tokens than its line leaves.
pub proof fn shown_descriptions_fit(name: Seq<char>, description: Seq<char>, budget: u32)
    requires
        shown_description(name, description, budget).len() > 0,
    ensures
        token_estimate("- `"@ + name + "` - "@) + token_estimate(
            shown_description(name, description, budget),
        ) <= budget,
{
    let prefix = token_estimate("- `"@ + name + "` - "@);
    if prefix < budget && token_estimate(description) > budget - prefix {
        lemma_fitting(description, budget - prefix, 0);
    }
}

/// The description of a pinned skill, cut to its budget.
pub fn truncate_pinned_description(name: &str, description: &str, token_budget: u32) -> (r: String)
    ensures
        r@ == shown_description(name@, description@, token_budget),
{
    let mut line = "- `".to_owned();
    line.push_str(name);
    line.push_str("` - ");
    let prefix_tokens = estimate_model_input_tokens(&line);
    if prefix_tokens >= token_budget {
        return String::new();
    }
    let budget: u32 = token_budget - prefix_tokens;
    if estimate_model_input_tokens(description) <= budget {
        return description.to_owned();
    }
    let chars = chars_of(description);
    let mut k: usize = 0;
    let ghost goal = fitting_from(description@, budget as int, 0);
    while k < chars.len()
        invariant_except_break
            goal == fitting_from(description@, budget as int, k as int),
        invariant
            k <= chars.len(),
            chars@ == description@,
        ensures
            k == goal,
        decreases chars.len() - k,
    {
        let mut candidate = text_range(&chars, 0, k + 1);
        assert(chars@.subrange(0, k + 1) =~= description@.take(k + 1));
        candidate.push_str("...");
        if estimate_model_input_tokens(&candidate) > budget {
            break;
        }
        k += 1;
    }
    if k == 0 {
        return String::new();
    }
    let mut out = text_range(&chars, 0, k);
    assert(chars@.subrange(0, k as int) =~= description@.take(k as int));
    out.push_str("...");
    out
}

// ---------------------------------------------------------------------- prompt

/// The line of a pinned skill.
pub open spec fn pinned_line(skill: SummaryView, per_skill: Option<u32>) -> Seq<char> {
    let description = match per_skill {
        Some(budget) => shown_description(skill.name, skill.description, budget),
        None => skill.description,
    };
    if trimmed(description).len() == 0 {
        "- `"@ + skill.name + "`"@
    } else {
        "- `"@ + skill.name + "` - "@ + description
    }
}

pub open spec fn pinned_lines(skills: Seq<SummaryView>, per_skill: Option<u32>) -> Seq<Seq<char>> {
    skills.map_values(|s: SummaryView| pinned_line(s, per_skill))
}

/// The list of pinned skills, with how more are found.
pub open spec fn pinned_list(
    skills: Seq<SummaryView>,
    per_skill: Option<u32>,
    t: SkillPromptToolAvailability,
) -> Seq<char> {
    let head = Seq::<Seq<char>>::empty().push(PINNED_SKILLS_HEADER@).push(Seq::empty());
    let lines = head + pinned_lines(skills, per_skill);
    joined(
        match discovery_hint(t) {
            Some(h) => lines.push(Seq::empty()).push(h),
            None => lines,
        },
        "\n"@,
    )
}

/// The list of pinned skills, with how more are found.
pub fn render_pinned_skill_prompt(
    skills: &Vec<SkillSummary>,
    per_skill_budget: Option<u32>,
    t: SkillPromptToolAvailability,
) -> (r: String)
    ensures
        r@ == pinned_list(summary_views(skills@), per_skill_budget, t),
{
    let mut lines: Vec<String> = Vec::new();
    lines.push(PINNED_SKILLS_HEADER.to_owned());
    lines.push(String::new());
    let ghost head = Seq::<Seq<char>>::empty().push(PINNED_SKILLS_HEADER@).push(Seq::empty());
    let ghost all = pinned_lines(summary_views(skills@), per_skill_budget);
    assert(lines@[1]@ =~= Seq::<char>::empty());
    assert(texts(lines@) =~= head);
    assert(head + all.take(0) =~= head);
    let mut i: usize = 0;
    while i < skills.len()
        invariant
            i <= skills.len(),
            all == pinned_lines(summary_views(skills@), per_skill_budget),
            texts(lines@) == head + all.take(i as int),
        decreases skills.len() - i,
    {
        let skill = &skills[i];
        let description = match per_skill_budget {
            Some(budget) => truncate_pinned_description(&skill.name, &skill.description, budget),
            None => skill.description.clone(),
        };
        let mut line = "- `".to_owned();
        line.push_str(&skill.name);
        if is_blank(&description) {
            line.push_str("`");
        } else {
            line.push_str("` - ");
            line.push_str(&description);
        }
        let ghost before = texts(lines@);
        let ghost text = line@;
        assert(text == all[i as int]);
        lines.push(line);
        assert(texts(lines@) =~= before.push(text));
        i += 1;
        assert(head + all.take(i as int) =~= (head + all.take(i - 1)).push(all[i - 1]));
    }
    assert(all.take(i as int) =~= all);
    match pinned_skills_discovery_hint(t) {
        Some(h) => {
            let ghost before = texts(lines@);
            lines.push(String::new());
            assert(lines@[lines@.len() - 1]@ =~= Seq::<char>::empty());
            lines.push(h.to_owned());
            assert(texts(lines@) =~= before.push(Seq::empty()).push(h@));
        },
        None => {},
    }
    join(&lines, "\n")
}

/// How many tokens each line may take where the list is cut.
pub open spec fn line_budget(count: nat, budget: u32, t: SkillPromptToolAvailability) -> u32 {
    let fixed = token_estimate(pinned_list(Seq::empty(), None, t));
    at_least_one(less(budget as int, fixed as int) / at_least_one(count as int)) as u32
}

/// The list of pinned skills, each line cut to its share.
pub open spec fn cut_list(
    skills: Seq<SummaryView>,
    budget: u32,
    t: SkillPromptToolAvailability,
) -> Seq<char> {
    pinned_list(skills, Some(line_budget(skills.len(), budget, t)), t)
}

/// The list of pinned skills, each line cut to its share.
pub fn truncated_pinned_skill_prompt(
    skills: &Vec<SkillSummary>,
    budget: u32,
    t: SkillPromptToolAvailability,
) -> (r: String)
    requires
        skills.len() <= u32::MAX,
    ensures
        r@ == cut_list(summary_views(skills@), budget, t),
{
    let none: Vec<SkillSummary> = Vec::new();
    assert(summary_views(none@) =~= Seq::<SummaryView>::empty());
    let fixed = estimate_model_input_tokens(&render_pinned_skill_prompt(&none, None, t));
    let left: u32 = if budget > fixed {
        budget - fixed
    } else {
        0
    };
    let count: u32 = if skills.len() < 1 {
        1
    } else {
        skills.len() as u32
    };
    let share: u32 = left / count;
    let per_skill: u32 = if share < 1 {
        1
    } else {
        share
    };
    assert(summary_views(skills@).len() == skills.len());
    render_pinned_skill_prompt(skills, Some(per_skill), t)
}

/// The skills that are pinned.
pub open spec fn pinned_of(skills: Seq<SummaryView>) -> Seq<SummaryView>
    decreases skills.len(),
{
    if skills.len() == 0 {
        skills
    } else {
        let head = pinned_of(skills.drop_last());
        if skills.last().pin {
            head.push(skills.last())
        } else {
            head
        }
    }
}

/// The skills that are pinned.
pub fn pinned_only(skills: &Vec<SkillSummary>) -> (r: Vec<SkillSummary>)
    ensures
        summary_views(r@) == pinned_of(summary_views(skills@)),
        r.len() <= skills.len(),
{
    let ghost all = summary_views(skills@);
    let mut out: Vec<SkillSummary> = Vec::new();
    let mut i: usize = 0;
    assert(all.take(0) =~= Seq::empty());
    assert(summary_views(out@) =~= all.take(0));
    while i < skills.len()
        invariant
            i <= skills.len(),
            out.len() <= i,
            all == summary_views(skills@),
            summary_views(out@) == pinned_of(all.take(i as int)),
        decreases skills.len() - i,
    {
        assert(all.take(i + 1).drop_last() =~= all.take(i as int));
        assert(all[i as int] == skills@[i as int]@);
        if skills[i].pin {
            let ghost before = summary_views(out@);
            out.push(skills[i].copy());
            assert(summary_views(out@) =~= before.push(skills@[i as int]@));
        }
        i += 1;
    }
    assert(all.take(i as int) =~= all);
    out
}

/// The prompt for pinned skills by name: whole where it fits, else cut; and where
/// the cut one does not fit, without how more are found.
pub open spec fn pinned_prompt_of(
    pinned: Seq<SummaryView>,
    budget: u32,
    t: SkillPromptToolAvailability,
) -> Seq<char> {
    let whole = pinned_list(pinned, None, t);
    let cut = cut_list(pinned, budget, t);
    let bare = pinned_list(pinned, None, undiscoverable(t));
    if token_estimate(whole) <= budget {
        whole
    } else if token_estimate(cut) <= budget || discovery_hint(t) is None {
        cut
    } else if token_estimate(bare) <= budget {
        bare
    } else {
        cut_list(pinned, budget, undiscoverable(t))
    }
}

/// The tokens that pinned skills may take.
pub open spec fn pinned_budget(context_tokens: u32) -> u32 {
    budget_tokens(context_tokens, PINNED_SKILL_PROMPT_CONTEXT_PERCENT) as u32
}

/// The prompt for pinned skills, where there are any.
pub open spec fn pinned_prompt(
    skills: Seq<SummaryView>,
    context_tokens: u32,
    t: SkillPromptToolAvailability,
) -> Option<Seq<char>> {
    let pinned = pinned_of(skills);
    if pinned.len() == 0 {
        None
    } else {
        Some(pinned_prompt_of(by_name(pinned, true), pinned_budget(context_tokens), t))
    }
}

/// The prompt for pinned skills, where there are any.
pub fn pinned_skill_prompt(
    skills: &Vec<SkillSummary>,
    context_tokens: u32,
    tool_availability: SkillPromptToolAvailability,
) -> (r: Option<String>)
    requires
        skills.len() <= u32::MAX,
    ensures
        option_text(r) == pinned_prompt(summary_views(skills@), context_tokens, tool_availability),
{
    let t = tool_availability;
    let found = pinned_only(skills);
    assert(summary_views(found@).len() == found.len());
    if found.len() == 0 {
        return None;
    }
    let pinned = sort_by_name(&found);
    proof {
        crate::order::lemma_stable_len(
            crate::skill::ranking::unranked(summary_views(found@)),
            crate::skill::ranking::rank_order(true),
        );
        assert(summary_views(pinned@).len() == pinned.len());
    }
    let budget: u32 = context_budget_tokens(
        context_tokens,
        PINNED_SKILL_PROMPT_CONTEXT_PERCENT,
    ) as u32;
    let whole = render_pinned_skill_prompt(&pinned, None, t);
    if estimate_model_input_tokens(&whole) <= budget {
        return Some(whole);
    }
    let cut = truncated_pinned_skill_prompt(&pinned, budget, t);
    if estimate_model_input_tokens(&cut) <= budget || pinned_skills_discovery_hint(t).is_none() {
        return Some(cut);
    }
    let bare_tools = t.without_skill_discovery();
    let bare = render_pinned_skill_prompt(&pinned, None, bare_tools);
    if estimate_model_input_tokens(&bare) <= budget {
        return Some(bare);
    }
    Some(truncated_pinned_skill_prompt(&pinned, budget, bare_tools))
}

/// Where one of the ways to tell of the pinned skills fits, the prompt fits.
pub proof fn pinned_prompts_fit_where_they_can(
    pinned: Seq<SummaryView>,
    budget: u32,
    t: SkillPromptToolAvailability,
)
    requires
        token_estimate(pinned_list(pinned, None, t)) <= budget || token_estimate(
            cut_list(pinned, budget, t),
        ) <= budget || token_estimate(cut_list(pinned, budget, undiscoverable(t))) <= budget,
    ensures
        token_estimate(pinned_prompt_of(pinned, budget, t)) <= budget,
{
    if discovery_hint(t) is None {
        assert(undiscoverable(t) == t);
    }
}

/// Tells an agent of the pinned skills.
pub fn insert_pinned_skill_prompt(
    history: &mut Vec<Message>,
    insertion_index: usize,
    skills: &Vec<SkillSummary>,
    context_tokens: u32,
    tool_availability: SkillPromptToolAvailability,
)
    requires
        skills.len() <= u32::MAX,
    ensures
        message_views(final(history)@) == with_prompt_at(
            message_views(old(history)@),
            insertion_index as int,
            pinned_prompt(summary_views(skills@), context_tokens, tool_availability),
        ),
{
    match pinned_skill_prompt(skills, context_tokens, tool_availability) {
        Some(prompt) => insert_system(history, insertion_index, &prompt),
        None => {},
    }
}

/// The history with a prompt at an index, where there is one.
pub open spec fn with_prompt_at(
    history: Seq<MessageView>,
    index: int,
    prompt: Option<Seq<char>>,
) -> Seq<MessageView> {
    match prompt {
        Some(p) => with_system_at(history, index, p),
        None => history,
    }
}

// ------------------------------------------------------------------------ its laws

/// The skills that are pinned are those marked so, in their order.
pub proof fn marked_skills_are_pinned(skills: Seq<SummaryView>)
    ensures
        pinned_of(skills) == skills.filter(|s: SummaryView| s.pin),
    decreases skills.len(),
{
    let keep = |s: SummaryView| s.pin;
    if skills.len() > 0 {
        marked_skills_are_pinned(skills.drop_last());
        lemma_filter_last(skills, keep);
    } else {
        lemma_filter_none(skills, keep);
        assert(pinned_of(skills) =~= skills.filter(keep));
    }
}

proof fn lemma_line_names(skill: SummaryView, per_skill: Option<u32>)
    ensures
        occurs(pinned_line(skill, per_skill), skill.name),
        per_skill is None && trimmed(skill.description).len() > 0 ==> occurs(
            pinned_line(skill, per_skill),
            skill.description,
        ),
{
    let d = match per_skill {
        Some(budget) => shown_description(skill.name, skill.description, budget),
        None => skill.description,
    };
    let n = "- `"@ + skill.name;
    lemma_occurs_in_both("- `"@, skill.name, skill.name);
    lemma_occurs_in_both(n, "`"@, skill.name);
    lemma_occurs_in_both(n, "` - "@, skill.name);
    lemma_occurs_in_both(n + "` - "@, d, skill.name);
    lemma_occurs_in_both(n + "` - "@, d, d);
}

proof fn lemma_lines_in_list(
    skills: Seq<SummaryView>,
    per_skill: Option<u32>,
    t: SkillPromptToolAvailability,
    i: int,
)
    requires
        0 <= i < skills.len(),
    ensures
        occurs(pinned_list(skills, per_skill, t), pinned_line(skills[i], per_skill)),
{
    let head = Seq::<Seq<char>>::empty().push(PINNED_SKILLS_HEADER@).push(Seq::empty());
    let lines = head + pinned_lines(skills, per_skill);
    let all = match discovery_hint(t) {
        Some(h) => lines.push(Seq::empty()).push(h),
        None => lines,
    };
    assert(all[i + 2] == pinned_line(skills[i], per_skill));
    what_is_joined_is_there(all, "\n"@, i + 2);
}

proof fn lemma_through(a: Seq<char>, b: Seq<char>, x: Seq<char>)
    requires
        occurs(a, b),
        occurs(b, x),
    ensures
        occurs(a, x),
{
    let i = choose|i: int| occurs_at(a, b, i);
    let j = choose|j: int| occurs_at(b, x, j);
    assert(a.subrange(i + j, i + j + x.len()) =~= x) by {
        assert forall|k: int| 0 <= k < x.len() implies a[i + j + k] == #[trigger] x[k] by {
            assert(b.subrange(j, j + x.len())[k] == x[k]);
            assert(a.subrange(i, i + b.len())[j + k] == b[j + k]);
        }
    }
    assert(occurs_at(a, x, i + j));
}

proof fn lemma_list_names(
    skills: Seq<SummaryView>,
    per_skill: Option<u32>,
    t: SkillPromptToolAvailability,
    i: int,
)
    requires
        0 <= i < skills.len(),
    ensures
        occurs(pinned_list(skills, per_skill, t), skills[i].name),
{
    lemma_lines_in_list(skills, per_skill, t, i);
    lemma_line_names(skills[i], per_skill);
    lemma_through(
        pinned_list(skills, per_skill, t),
        pinned_line(skills[i], per_skill),
        skills[i].name,
    );
}

/// An agent is told the name of every skill that is pinned, whatever has to be left
/// out; where none is, it is told nothing of them.
pub proof fn every_pinned_skill_is_named(
    skills: Seq<SummaryView>,
    context_tokens: u32,
    t: SkillPromptToolAvailability,
    i: int,
)
    requires
        0 <= i < skills.len(),
    ensures
        skills[i].pin ==> {
            let p = pinned_prompt(skills, context_tokens, t);
            p is Some && occurs(p->0, skills[i].name)
        },
        (forall|j: int| 0 <= j < skills.len() ==> !(#[trigger] skills[j]).pin) ==> pinned_prompt(
            skills,
            context_tokens,
            t,
        ) is None,
{
    broadcast use vstd::seq_lib::group_to_multiset_ensures;

    let keep = |s: SummaryView| s.pin;
    marked_skills_are_pinned(skills);
    let pinned = pinned_of(skills);
    if skills[i].pin {
        assert(skills.contains(skills[i]));
        lemma_filter_has(skills, keep, skills[i]);
        let sorted = by_name(pinned, true);
        all_skills_are_listed_by_name(pinned);
        assert(pinned.to_multiset().count(skills[i]) > 0);
        assert(sorted.to_multiset().count(skills[i]) > 0);
        assert(sorted.contains(skills[i]));
        let k = choose|k: int| 0 <= k < sorted.len() && sorted[k] == skills[i];
        let budget = pinned_budget(context_tokens);
        lemma_list_names(sorted, None, t, k);
        lemma_list_names(sorted, Some(line_budget(sorted.len(), budget, t)), t, k);
        lemma_list_names(sorted, None, undiscoverable(t), k);
        lemma_list_names(
            sorted,
            Some(line_budget(sorted.len(), budget, undiscoverable(t))),
            undiscoverable(t),
            k,
        );
    }
    if forall|j: int| 0 <= j < skills.len() ==> !(#[trigger] skills[j]).pin {
        if pinned.len() > 0 {
            assert(pinned.contains(pinned[0]));
            lemma_filter_has(skills, keep, pinned[0]);
        }
    }
}

/// Where the whole list fits, the agent is told every description as it is.
pub proof fn descriptions_are_told_where_they_fit(
    pinned: Seq<SummaryView>,
    budget: u32,
    t: SkillPromptToolAvailability,
    i: int,
)
    requires
        0 <= i < pinned.len(),
        token_estimate(pinned_list(pinned, None, t)) <= budget,
        trimmed(pinned[i].description).len() > 0,
    ensures
        occurs(pinned_prompt_of(pinned, budget, t), pinned[i].description),
{
    lemma_lines_in_list(pinned, None, t, i);
    lemma_line_names(pinned[i], None);
    lemma_through(
        pinned_list(pinned, None, t),
        pinned_line(pinned[i], None),
        pinned[i].description,
    );
}

/// What is shown of a description is its beginning.
pub proof fn shown_descriptions_begin_alike(
    name: Seq<char>,
    description: Seq<char>,
    budget: u32,
)
    ensures
        ({
            let r = shown_description(name, description, budget);
            ||| r.len() == 0
            ||| r == description
            ||| exists|k: int|
                0 < k <= description.len() && r == #[trigger] description.take(k) + "..."@
        }),
{
    let prefix = token_estimate("- `"@ + name + "` - "@);
    if prefix < budget && token_estimate(description) > budget - prefix {
        lemma_fitting_bound(description, budget - prefix, 0);
    }
}

proof fn lemma_fitting_bound(text: Seq<char>, budget: int, k: int)
    requires
        0 <= k <= text.len(),
    ensures
        k <= fitting_from(text, budget, k) <= text.len(),
    decreases text.len() - k,
{
    if k < text.len() && token_estimate(text.take(k + 1) + "..."@) <= budget {
        lemma_fitting_bound(text, budget, k + 1);
    }
}

/// As much of a description is shown as fits: one character more would not.
pub proof fn as_much_is_shown_as_fits(name: Seq<char>, description: Seq<char>, budget: u32)
    ensures
        ({
            let prefix = token_estimate("- `"@ + name + "` - "@);
            let k = fitting_from(description, budget - prefix, 0);
            &&& 0 <= k <= description.len()
            &&& k < description.len() ==> token_estimate(description.take(k + 1) + "..."@)
                > budget - prefix
            &&& prefix < budget && token_estimate(description) <= budget - prefix
                ==> shown_description(name, description, budget) == description
            &&& prefix < budget && token_estimate(description) > budget - prefix && k > 0
                ==> shown_description(name, description, budget) == description.take(k) + "..."@
        }),
{
    let prefix = token_estimate("- `"@ + name + "` - "@);
    lemma_fitting_most(description, budget - prefix, 0);
}

proof fn lemma_fitting_most(text: Seq<char>, budget: int, k: int)
    requires
        0 <= k <= text.len(),
    ensures
        ({
            let r = fitting_from(text, budget, k);
            &&& k <= r <= text.len()
            &&& r < text.len() ==> token_estimate(text.take(r + 1) + "..."@) > budget
        }),
    decreases text.len() - k,
{
    if k < text.len() && token_estimate(text.take(k + 1) + "..."@) <= budget {
        lemma_fitting_most(text, budget, k + 1);
    }
}

} // verus!
