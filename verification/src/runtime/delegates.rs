//! The tools by which an agent hands tasks to other agents.
use vstd::prelude::*;
use vstd::string::*;

use crate::json::{
    fields_are_read_back, json_views, lemma_field_push, member, no_fields, no_items, JsonMap,
    JsonValue, JsonView,
};
use crate::message::{copy_option_text, option_text};
use crate::order::{lemma_filter_last, lemma_filter_none};
use crate::profile::{agent_view, copy_texts, AgentProfile, AgentView};
use crate::text::{
    contains_text, ends_with, lemma_occurs_in_both, list_has, occurs, replace_char, replaced_char,
    texts, trim, trimmed,
};
use crate::text_map::{lemma_seen_value_of, seen, value_of, TextMap};

verus! {

broadcast use vstd::string::group_string_axioms;

pub const AGENT_MD_CWD_SYSTEM_PROMPT_NOTICE: &'static str =
    "Agent.md exists in the current working directory; read it before substantive work and follow any applicable project instructions.";

/// A prompt with the notice that there is an `Agent.md`, once.
pub open spec fn noticed(prompt: Seq<char>, has_agent_md: bool) -> Seq<char> {
    if !has_agent_md || occurs(prompt, AGENT_MD_CWD_SYSTEM_PROMPT_NOTICE@) {
        prompt
    } else if "\n"@.is_suffix_of(prompt) {
        prompt + AGENT_MD_CWD_SYSTEM_PROMPT_NOTICE@
    } else {
        prompt + "\n"@ + AGENT_MD_CWD_SYSTEM_PROMPT_NOTICE@
    }
}

/// A prompt with the notice that there is an `Agent.md`, where there is one.
pub fn system_prompt_with_agent_md_notice(system_prompt: String, has_agent_md: bool) -> (r: String)
    ensures
        r@ == noticed(system_prompt@, has_agent_md),
{
    if !has_agent_md || contains_text(&system_prompt, AGENT_MD_CWD_SYSTEM_PROMPT_NOTICE) {
        return system_prompt;
    }
    let mut prompt = system_prompt;
    if !ends_with(&prompt, "\n") {
        prompt.push_str("\n");
    }
    prompt.push_str(AGENT_MD_CWD_SYSTEM_PROMPT_NOTICE);
    prompt
}

/// The notice is added no more than once.
pub proof fn notice_is_added_once(prompt: Seq<char>, has_agent_md: bool)
    ensures
        noticed(noticed(prompt, has_agent_md), has_agent_md) == noticed(prompt, has_agent_md),
{
    let n = AGENT_MD_CWD_SYSTEM_PROMPT_NOTICE@;
    let r = noticed(prompt, has_agent_md);
    if has_agent_md && !occurs(prompt, n) {
        let at = r.len() - n.len();
        assert(r.subrange(at, at + n.len()) =~= n);
        assert(crate::text::occurs_at(r, n, at));
    }
}

/// The name of the tool that hands a task to an agent.
pub open spec fn delegate_name(agent_id: Seq<char>) -> Seq<char> {
    "agent__"@ + replaced_char(trimmed(agent_id), '-', '_')
}

/// The name of the tool that hands a task to an agent.
pub fn delegate_tool_name(agent_id: &str) -> (r: String)
    ensures
        r@ == delegate_name(agent_id@),
{
    let mut name = "agent__".to_owned();
    name.push_str(&replace_char(&trim(agent_id), '-', '_'));
    name
}

/// The tools, with the search for skills where skills can be read and other
/// things can be searched.
pub open spec fn expanded(tools: Seq<Seq<char>>) -> Seq<Seq<char>> {
    if tools.contains("search"@) && tools.contains("skill__get"@) && !tools.contains(
        "skill__search"@,
    ) {
        tools.push("skill__search"@)
    } else {
        tools
    }
}

/// The tools, with the search for skills where it belongs to them.
pub fn expand_skill_discovery_tools(tools: &mut Vec<String>)
    ensures
        texts(final(tools)@) == expanded(texts(old(tools)@)),
{
    if list_has(tools, "search") && list_has(tools, "skill__get") && !list_has(
        tools,
        "skill__search",
    ) {
        let ghost before = texts(tools@);
        tools.push("skill__search".to_owned());
        assert(texts(tools@) =~= before.push("skill__search"@));
    }
}

/// The tools with those for the given agents, none twice.
pub open spec fn with_delegates(tools: Seq<Seq<char>>, delegates: Seq<Seq<char>>) -> Seq<Seq<char>>
    decreases delegates.len(),
{
    if delegates.len() == 0 {
        tools
    } else {
        let head = with_delegates(tools, delegates.drop_last());
        let name = delegate_name(delegates.last());
        if head.contains(name) {
            head
        } else {
            head.push(name)
        }
    }
}

/// The tools that an agent with the given tools and delegates may use.
pub open spec fn allowed_tools(tools: Seq<Seq<char>>, delegates: Seq<Seq<char>>) -> Seq<Seq<char>> {
    with_delegates(expanded(tools), delegates)
}

/// The tools that an agent with the given tools and delegates may use.
pub fn allowlist(tools: &Vec<String>, delegates: &Vec<String>) -> (r: Vec<String>)
    ensures
        texts(r@) == allowed_tools(texts(tools@), texts(delegates@)),
{
    let mut out = copy_texts(tools);
    expand_skill_discovery_tools(&mut out);
    let ghost start = texts(out@);
    let ghost all = texts(delegates@);
    let mut i: usize = 0;
    assert(all.take(0) =~= Seq::empty());
    while i < delegates.len()
        invariant
            i <= delegates.len(),
            all == texts(delegates@),
            texts(out@) == with_delegates(start, all.take(i as int)),
        decreases delegates.len() - i,
    {
        assert(all.take(i + 1).drop_last() =~= all.take(i as int));
        assert(all[i as int] == delegates@[i as int]@);
        let name = delegate_tool_name(&delegates[i]);
        if !list_has(&out, &name) {
            let ghost before = texts(out@);
            let ghost n = name@;
            out.push(name);
            assert(texts(out@) =~= before.push(n));
        }
        i += 1;
    }
    assert(all.take(i as int) =~= all);
    out
}

/// The tools that an agent may use.
pub fn agent_tool_allowlist(profile: &AgentProfile) -> (r: Vec<String>)
    ensures
        texts(r@) == allowed_tools(profile@.tools, profile@.delegates),
{
    allowlist(&profile.tools, &profile.delegates)
}

/// An agent may use each of its tools and the tool for each of its delegates.
pub proof fn delegates_are_exposed_as_tools(
    tools: Seq<Seq<char>>,
    delegates: Seq<Seq<char>>,
    i: int,
)
    requires
        0 <= i < delegates.len(),
    ensures
        tools.is_prefix_of(with_delegates(tools, delegates)),
        with_delegates(tools, delegates).contains(delegate_name(delegates[i])),
    decreases delegates.len(),
{
    let head = with_delegates(tools, delegates.drop_last());
    let all = with_delegates(tools, delegates);
    if delegates.len() > 1 {
        delegates_are_exposed_as_tools(
            tools,
            delegates.drop_last(),
            if i < delegates.len() - 1 {
                i
            } else {
                0
            },
        );
    } else {
        assert(tools.is_prefix_of(head));
    }
    assert(tools =~= all.subrange(0, tools.len() as int));
    if i == delegates.len() - 1 {
        if !head.contains(delegate_name(delegates.last())) {
            assert(all[head.len() as int] == delegate_name(delegates[i]));
        }
    } else {
        let n = delegate_name(delegates.drop_last()[i]);
        let k = choose|k: int| 0 <= k < head.len() && head[k] == n;
        assert(all[k] == n);
    }
}

// ------------------------------------------------------------- delegate tools

/// A tool that hands tasks to an agent.
#[derive(Debug)]
pub struct RemiSubAgentTool {
    pub name: String,
    pub description: String,
    pub parameters_schema: JsonValue,
    pub agent_name: String,
    pub model_name: String,
    pub base_url: Option<String>,
    pub api_key: String,
    pub system_prompt: String,
    pub extra_options: JsonMap,
    pub max_turns: usize,
    pub tool_allowlist: Vec<String>,
    pub overflow_bytes: usize,
    pub persistent_sessions: bool,
}

pub struct SubAgentView {
    pub name: Seq<char>,
    pub description: Seq<char>,
    pub parameters_schema: JsonView,
    pub agent_name: Seq<char>,
    pub model_name: Seq<char>,
    pub base_url: Option<Seq<char>>,
    pub api_key: Seq<char>,
    pub system_prompt: Seq<char>,
    pub extra_options: Seq<(Seq<char>, JsonView)>,
    pub max_turns: usize,
    pub tool_allowlist: Seq<Seq<char>>,
    pub overflow_bytes: usize,
    pub persistent_sessions: bool,
}

impl View for RemiSubAgentTool {
    type V = SubAgentView;

    open spec fn view(&self) -> SubAgentView {
        SubAgentView {
            name: self.name@,
            description: self.description@,
            parameters_schema: self.parameters_schema@,
            agent_name: self.agent_name@,
            model_name: self.model_name@,
            base_url: option_text(self.base_url),
            api_key: self.api_key@,
            system_prompt: self.system_prompt@,
            extra_options: self.extra_options@,
            max_turns: self.max_turns,
            tool_allowlist: texts(self.tool_allowlist@),
            overflow_bytes: self.overflow_bytes,
            persistent_sessions: self.persistent_sessions,
        }
    }
}

pub open spec fn text_field(description: Seq<char>) -> JsonView {
    JsonView::Object(
        no_fields().push(("type"@, JsonView::Text("string"@))).push(
            ("description"@, JsonView::Text(description)),
        ),
    )
}

/// What a delegate takes: a task, and a session where it keeps sessions.
pub open spec fn delegate_schema(persistent: bool) -> JsonView {
    let task = no_fields().push(
        (
            "task"@,
            text_field(
                "Complete, self-contained task for the sub-agent. Include all necessary context."@,
            ),
        ),
    );
    let properties = if persistent {
        task.push(
            (
                "named"@,
                text_field(
                    "Optional named persistent sub-agent session. Calls with the same name reuse the same sub-agent conversation and memory."@,
                ),
            ),
        )
    } else {
        task
    };
    JsonView::Object(
        no_fields().push(("type"@, JsonView::Text("object"@))).push(
            ("properties"@, JsonView::Object(properties)),
        ).push(("required"@, JsonView::Array(no_items().push(JsonView::Text("task"@))))),
    )
}

fn text_property(description: &str) -> (r: JsonValue)
    ensures
        r@ == text_field(description@),
{
    JsonValue::object(
        JsonMap::new().with("type", JsonValue::text("string")).with(
            "description",
            JsonValue::text(description),
        ),
    )
}

fn delegate_parameters(persistent: bool) -> (r: JsonValue)
    ensures
        r@ == delegate_schema(persistent),
{
    let mut properties = JsonMap::new().with(
        "task",
        text_property(
            "Complete, self-contained task for the sub-agent. Include all necessary context.",
        ),
    );
    if persistent {
        properties =
        properties.with(
            "named",
            text_property(
                "Optional named persistent sub-agent session. Calls with the same name reuse the same sub-agent conversation and memory.",
            ),
        );
    }
    let mut required: Vec<JsonValue> = Vec::new();
    required.push(JsonValue::text("task"));
    assert(json_views(required@) =~= no_items().push(JsonView::Text("task"@)));
    JsonValue::object(
        JsonMap::new().with("type", JsonValue::text("object")).with(
            "properties",
            JsonValue::object(properties),
        ).with("required", JsonValue::array(required)),
    )
}

/// What the tools for delegates have in common.
#[derive(Debug)]
pub struct DelegateDefaults {
    pub api_key: String,
    pub base_url: Option<String>,
    pub default_model: String,
    pub extra_options: JsonMap,
    pub overflow_bytes: usize,
    pub has_agent_md: bool,
}

pub open spec fn delegate_tool(profile: AgentView, defaults: DelegateDefaults) -> SubAgentView {
    SubAgentView {
        name: delegate_name(profile.id),
        description: "Delegate a focused task to the `"@ + profile.name + "` sub-agent. "@
            + profile.description,
        parameters_schema: delegate_schema(profile.persistent_sessions),
        agent_name: profile.id,
        model_name: match profile.model {
            Some(m) => m,
            None => defaults.default_model@,
        },
        base_url: match profile.base_url {
            Some(u) => Some(u),
            None => option_text(defaults.base_url),
        },
        api_key: defaults.api_key@,
        system_prompt: noticed(profile.system_prompt, defaults.has_agent_md),
        extra_options: defaults.extra_options@,
        max_turns: match profile.max_turns {
            Some(n) => n,
            None => 12,
        },
        tool_allowlist: allowed_tools(profile.tools, profile.delegates),
        overflow_bytes: defaults.overflow_bytes,
        persistent_sessions: profile.persistent_sessions,
    }
}

/// The tool for one delegate.
pub fn make_delegate_tool(profile: &AgentProfile, defaults: &DelegateDefaults) -> (r: RemiSubAgentTool)
    ensures
        r@ == delegate_tool(profile@, *defaults),
{
    let mut description = "Delegate a focused task to the `".to_owned();
    description.push_str(&profile.name);
    description.push_str("` sub-agent. ");
    description.push_str(&profile.description);
    RemiSubAgentTool {
        name: delegate_tool_name(&profile.id),
        description,
        parameters_schema: delegate_parameters(profile.persistent_sessions),
        agent_name: profile.id.clone(),
        model_name: match &profile.model {
            Some(m) => m.clone(),
            None => defaults.default_model.clone(),
        },
        base_url: match &profile.base_url {
            Some(u) => Some(u.clone()),
            None => copy_option_text(&defaults.base_url),
        },
        api_key: defaults.api_key.clone(),
        system_prompt: system_prompt_with_agent_md_notice(
            profile.system_prompt.clone(),
            defaults.has_agent_md,
        ),
        extra_options: defaults.extra_options.copy(),
        max_turns: match profile.max_turns {
            Some(n) => n,
            None => 12,
        },
        tool_allowlist: agent_tool_allowlist(profile),
        overflow_bytes: defaults.overflow_bytes,
        persistent_sessions: profile.persistent_sessions,
    }
}

/// The profile of a delegate: from the registry where that has it, else the one
/// that comes with the program.
pub open spec fn delegate_profile(
    registry: Seq<(Seq<char>, AgentView)>,
    embedded: Seq<(Seq<char>, AgentView)>,
    id: Seq<char>,
) -> Option<AgentView> {
    match value_of(registry, id) {
        Some(p) => Some(p),
        None => value_of(embedded, id),
    }
}

/// The tools for the delegates that there are, in their order.
pub open spec fn delegate_tools(
    registry: Seq<(Seq<char>, AgentView)>,
    embedded: Seq<(Seq<char>, AgentView)>,
    ids: Seq<Seq<char>>,
    defaults: DelegateDefaults,
) -> Seq<SubAgentView>
    decreases ids.len(),
{
    if ids.len() == 0 {
        Seq::empty()
    } else {
        let head = delegate_tools(registry, embedded, ids.drop_last(), defaults);
        match delegate_profile(registry, embedded, ids.last()) {
            Some(p) => head.push(delegate_tool(p, defaults)),
            None => head,
        }
    }
}

pub open spec fn sub_agent_views(s: Seq<RemiSubAgentTool>) -> Seq<SubAgentView> {
    s.map_values(|t: RemiSubAgentTool| t@)
}

/// The tools for the delegates that there are. A registry that could not be
/// loaded is an empty one.
pub fn register_delegate_agent_tools(
    registry: &TextMap<AgentProfile>,
    embedded: &TextMap<AgentProfile>,
    delegate_ids: &Vec<String>,
    defaults: &DelegateDefaults,
) -> (r: Vec<RemiSubAgentTool>)
    ensures
        sub_agent_views(r@) == delegate_tools(
            seen(registry@, agent_view()),
            seen(embedded@, agent_view()),
            texts(delegate_ids@),
            *defaults,
        ),
{
    let ghost known = seen(registry@, agent_view());
    let ghost own = seen(embedded@, agent_view());
    let ghost all = texts(delegate_ids@);
    let mut out: Vec<RemiSubAgentTool> = Vec::new();
    let mut i: usize = 0;
    assert(all.take(0) =~= Seq::empty());
    assert(sub_agent_views(out@) =~= Seq::<SubAgentView>::empty());
    while i < delegate_ids.len()
        invariant
            i <= delegate_ids.len(),
            known == seen(registry@, agent_view()),
            own == seen(embedded@, agent_view()),
            all == texts(delegate_ids@),
            sub_agent_views(out@) == delegate_tools(known, own, all.take(i as int), *defaults),
        decreases delegate_ids.len() - i,
    {
        let id = &delegate_ids[i];
        proof {
            assert(all.take(i + 1).drop_last() =~= all.take(i as int));
            assert(all[i as int] == id@);
            lemma_seen_value_of(registry@, agent_view(), id@);
            lemma_seen_value_of(embedded@, agent_view(), id@);
        }
        let profile: Option<&AgentProfile> = match registry.get(id) {
            Some(p) => Some(p),
            None => embedded.get(id),
        };
        match profile {
            Some(p) => {
                let ghost before = sub_agent_views(out@);
                out.push(make_delegate_tool(p, defaults));
                assert(sub_agent_views(out@) =~= before.push(delegate_tool(p@, *defaults)));
            },
            None => {},
        }
        i += 1;
    }
    assert(all.take(i as int) =~= all);
    out
}

// ------------------------------------------------------------------------ its laws

/// A prompt stays as it begins; the notice is in it where there is an `Agent.md`,
/// and is not added where there is none.
pub proof fn the_notice_is_given_where_it_is_due(prompt: Seq<char>, has_agent_md: bool)
    ensures
        prompt.is_prefix_of(noticed(prompt, has_agent_md)),
        has_agent_md ==> occurs(
            noticed(prompt, has_agent_md),
            AGENT_MD_CWD_SYSTEM_PROMPT_NOTICE@,
        ),
        !has_agent_md ==> noticed(prompt, has_agent_md) == prompt,
{
    let r = noticed(prompt, has_agent_md);
    let n = AGENT_MD_CWD_SYSTEM_PROMPT_NOTICE@;
    assert(prompt =~= r.subrange(0, prompt.len() as int));
    lemma_occurs_in_both(prompt, n, n);
    lemma_occurs_in_both(prompt + "\n"@, n, n);
}

/// An agent may use the tools that it lists and those that hand work to its
/// delegates; and it may search skills where it may search and read them. Nothing
/// else.
pub proof fn agents_may_use_what_they_list(
    tools: Seq<Seq<char>>,
    delegates: Seq<Seq<char>>,
    name: Seq<char>,
)
    ensures
        allowed_tools(tools, delegates).contains(name) <==> {
            ||| tools.contains(name)
            ||| name == "skill__search"@ && tools.contains("search"@) && tools.contains(
                "skill__get"@,
            )
            ||| exists|i: int|
                0 <= i < delegates.len() && #[trigger] delegate_name(delegates[i]) == name
        },
{
    let e = expanded(tools);
    lemma_push_has(tools, "skill__search"@, name);
    lemma_with_delegates_has(e, delegates, name);
}

proof fn lemma_push_has(s: Seq<Seq<char>>, a: Seq<char>, x: Seq<char>)
    ensures
        s.push(a).contains(x) <==> s.contains(x) || x == a,
{
    let t = s.push(a);
    assert(t[s.len() as int] == a);
    if s.contains(x) {
        let k = choose|k: int| 0 <= k < s.len() && s[k] == x;
        assert(t[k] == x);
    }
    if t.contains(x) && x != a {
        let k = choose|k: int| 0 <= k < t.len() && t[k] == x;
        assert(s[k] == x);
    }
}

proof fn lemma_with_delegates_has(
    tools: Seq<Seq<char>>,
    delegates: Seq<Seq<char>>,
    name: Seq<char>,
)
    ensures
        with_delegates(tools, delegates).contains(name) <==> {
            ||| tools.contains(name)
            ||| exists|i: int|
                0 <= i < delegates.len() && #[trigger] delegate_name(delegates[i]) == name
        },
    decreases delegates.len(),
{
    if delegates.len() > 0 {
        let rest = delegates.drop_last();
        let head = with_delegates(tools, rest);
        lemma_with_delegates_has(tools, rest, name);
        let last = delegate_name(delegates.last());
        lemma_push_has(head, last, name);
        assert(delegates[delegates.len() - 1] == delegates.last());
        if exists|i: int| 0 <= i < rest.len() && #[trigger] delegate_name(rest[i]) == name {
            let i = choose|i: int| 0 <= i < rest.len() && #[trigger] delegate_name(rest[i]) == name;
            assert(delegates[i] == rest[i]);
            assert(delegate_name(delegates[i]) == name);
        }
        if exists|i: int|
            0 <= i < delegates.len() && #[trigger] delegate_name(delegates[i]) == name {
            let i = choose|i: int|
                0 <= i < delegates.len() && #[trigger] delegate_name(delegates[i]) == name;
            if i < rest.len() {
                assert(rest[i] == delegates[i]);
                assert(delegate_name(rest[i]) == name);
            }
        }
        assert(name == last ==> delegate_name(delegates[delegates.len() - 1]) == name);
    }
}

/// An agent that tasks are handed to runs with its own profile: its model, its
/// address, its prompt, its turns and its tools, and what is common to all where
/// its profile does not say.
pub proof fn delegates_run_with_their_own_profile(profile: AgentView, defaults: DelegateDefaults)
    ensures
        ({
            let t = delegate_tool(profile, defaults);
            &&& t.agent_name == profile.id
            &&& t.name == delegate_name(profile.id)
            &&& profile.model matches Some(m) ==> t.model_name == m
            &&& profile.model is None ==> t.model_name == defaults.default_model@
            &&& profile.base_url matches Some(u) ==> t.base_url == Some(u)
            &&& profile.base_url is None ==> t.base_url == option_text(defaults.base_url)
            &&& t.api_key == defaults.api_key@
            &&& profile.system_prompt.is_prefix_of(t.system_prompt)
            &&& profile.max_turns matches Some(n) ==> t.max_turns == n
            &&& t.tool_allowlist == allowed_tools(profile.tools, profile.delegates)
            &&& t.persistent_sessions == profile.persistent_sessions
            &&& t.overflow_bytes == defaults.overflow_bytes
            &&& t.extra_options == defaults.extra_options@
            &&& occurs(t.description, profile.name)
            &&& occurs(t.description, profile.description)
        }),
{
    the_notice_is_given_where_it_is_due(profile.system_prompt, defaults.has_agent_md);
    let a = "Delegate a focused task to the `"@;
    let b = "` sub-agent. "@;
    lemma_occurs_in_both(a, profile.name, profile.name);
    lemma_occurs_in_both(a + profile.name, b, profile.name);
    lemma_occurs_in_both(a + profile.name + b, profile.description, profile.name);
    lemma_occurs_in_both(a + profile.name + b, profile.description, profile.description);
}

/// A call must give a task, and may name a session only where sessions go on.
pub proof fn calls_give_a_task(persistent: bool)
    ensures
        ({
            let s = delegate_schema(persistent);
            let properties = member(s, "properties"@);
            &&& properties is Some
            &&& member(properties->0, "task"@) is Some
            &&& member(properties->0, "named"@) is Some == persistent
            &&& member(s, "required"@) == Some(JsonView::Array(seq![JsonView::Text("task"@)]))
        }),
{
    reveal_strlit("type");
    reveal_strlit("properties");
    reveal_strlit("required");
    reveal_strlit("task");
    reveal_strlit("named");
    let f = delegate_schema(persistent)->Object_0;
    assert(f[0].0 == "type"@ && f[1].0 == "properties"@ && f[2].0 == "required"@);
    assert(f[0].0.len() == 4 && f[1].0.len() == 10 && f[2].0.len() == 8);
    fields_are_read_back(f, 1);
    fields_are_read_back(f, 2);
    let p = f[1].1->Object_0;
    assert(p[0].0 == "task"@ && p[0].0.len() == 4);
    fields_are_read_back(p, 0);
    let none = no_fields();
    lemma_field_push(none, p[0], "named"@);
    if persistent {
        assert(p[1].0 == "named"@ && p[1].0.len() == 5);
        fields_are_read_back(p, 1);
    } else {
        assert(p =~= none.push(p[0]));
    }
    assert(no_items().push(JsonView::Text("task"@)) =~= seq![JsonView::Text("task"@)]);
}

/// An agent of the registry comes before one that is built in.
pub proof fn own_agents_come_before_embedded_ones(
    registry: Seq<(Seq<char>, AgentView)>,
    embedded: Seq<(Seq<char>, AgentView)>,
    id: Seq<char>,
)
    ensures
        value_of(registry, id) is Some ==> delegate_profile(registry, embedded, id) == value_of(
            registry,
            id,
        ),
        value_of(registry, id) is None ==> delegate_profile(registry, embedded, id) == value_of(
            embedded,
            id,
        ),
{
}

/// There is a tool for each delegate that is known, in their order, and none else.
pub proof fn each_known_delegate_has_its_tool(
    registry: Seq<(Seq<char>, AgentView)>,
    embedded: Seq<(Seq<char>, AgentView)>,
    ids: Seq<Seq<char>>,
    defaults: DelegateDefaults,
)
    ensures
        delegate_tools(registry, embedded, ids, defaults) == ids.filter(
            |id: Seq<char>| delegate_profile(registry, embedded, id) is Some,
        ).map_values(
            |id: Seq<char>| delegate_tool(delegate_profile(registry, embedded, id)->0, defaults),
        ),
    decreases ids.len(),
{
    let known = |id: Seq<char>| delegate_profile(registry, embedded, id) is Some;
    let made = |id: Seq<char>|
        delegate_tool(delegate_profile(registry, embedded, id)->0, defaults);
    if ids.len() > 0 {
        each_known_delegate_has_its_tool(registry, embedded, ids.drop_last(), defaults);
        lemma_filter_last(ids, known);
    } else {
        lemma_filter_none(ids, known);
    }
    assert(delegate_tools(registry, embedded, ids, defaults) =~= ids.filter(known).map_values(
        made,
    ));
}

/// The notice stands on a line of its own.
pub proof fn the_notice_has_its_own_line(prompt: Seq<char>)
    requires
        !occurs(prompt, AGENT_MD_CWD_SYSTEM_PROMPT_NOTICE@),
    ensures
        ("\n"@ + AGENT_MD_CWD_SYSTEM_PROMPT_NOTICE@).is_suffix_of(noticed(prompt, true)),
        noticed(prompt, true).len() <= prompt.len() + 1 + AGENT_MD_CWD_SYSTEM_PROMPT_NOTICE@.len(),
        "\n"@.is_suffix_of(prompt) ==> noticed(prompt, true).len() == prompt.len()
            + AGENT_MD_CWD_SYSTEM_PROMPT_NOTICE@.len(),
{
    reveal_strlit("\n");
    let n = AGENT_MD_CWD_SYSTEM_PROMPT_NOTICE@;
    let line = "\n"@ + n;
    let r = noticed(prompt, true);
    if "\n"@.is_suffix_of(prompt) {
        let at = prompt.len() - 1;
        assert(prompt.subrange(at, prompt.len() as int) == "\n"@);
        assert(prompt.subrange(at, prompt.len() as int)[0] == prompt[at]);
        assert(line =~= r.subrange(r.len() - line.len(), r.len() as int));
    } else {
        assert(line =~= r.subrange(r.len() - line.len(), r.len() as int));
    }
}

} // verus!
