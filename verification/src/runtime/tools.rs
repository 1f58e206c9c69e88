//! Which tools an agent has, and what is said of those that it has not.
use vstd::prelude::*;
use vstd::string::*;

use crate::order::{lemma_filter_last, lemma_filter_none};
use crate::runtime::pinned::SkillPromptToolAvailability;
use crate::text::{list_has, option_texts, starts_with, str_eq, texts};
use crate::text_map::{
    keys_ordered, lemma_seen_value_of, lemma_seen_with_value, seen, set_value_is_read_back,
    setting_keeps_order, value_of, with_value, TextMap,
};

verus! {

broadcast use vstd::string::group_string_axioms;

// ---------------------------------------------------------------- registration

/// A tool that comes with the runtime.
#[derive(Debug, Clone, Copy, PartialEq, Eq, Structural)]
pub enum RuntimeTool {
    MemoryGetDetail,
    MemoryUpsertNamed,
    MemoryRecall,
    Search,
    ToolTasks,
    Bash,
    Ssh,
    FsRead,
    FsWrite,
    ApplyPatch,
    FsCreate,
    FsRemove,
    FsLs,
    Ripgrep,
    Fetch,
    WebSearch,
    Now,
    Sleep,
    ManageYourself,
    AskUserQuestion,
}

/// What is put into a registry of tools.
#[derive(Debug, Clone, Copy, PartialEq, Eq, Structural)]
pub enum ToolEntry {
    /// The tools for skills.
    Skills,
    /// The tools for todo items.
    Todos,
    /// The tools that hand work to other agents by ACP.
    AcpAgents,
    /// The tools of the ACP client at the other end.
    AcpClient,
    Runtime(RuntimeTool),
    /// The tool at this place among those of the host.
    Host(usize),
}

/// What the ACP client at the other end does itself.
#[derive(Debug, Clone, Copy, PartialEq, Eq, Structural)]
pub struct AcpClientToolSupport {
    pub terminal: bool,
    pub fs_read: bool,
    pub fs_write: bool,
}

/// A tool of the host, which may stand in for one of the runtime.
#[derive(Debug, Clone, PartialEq, Eq)]
pub struct HostTool {
    pub name: String,
    pub allows_builtin_override: bool,
}

/// What the choice of tools rests on.
#[derive(Debug)]
pub struct LocalToolDeps {
    pub host_tools: Vec<HostTool>,
    pub acp_client_tools: Option<AcpClientToolSupport>,
    pub bash_enabled: bool,
}

/// Whether a tool of the host stands in for the one of the given name.
pub open spec fn overridden(deps: LocalToolDeps, name: Seq<char>) -> bool {
    exists|i: int|
        0 <= i < deps.host_tools@.len() && (#[trigger] deps.host_tools@[i]).name@ == name
            && deps.host_tools@[i].allows_builtin_override
}

pub open spec fn client_support(deps: LocalToolDeps) -> AcpClientToolSupport {
    match deps.acp_client_tools {
        Some(support) => support,
        None => AcpClientToolSupport { terminal: false, fs_read: false, fs_write: false },
    }
}

/// `list` with `tool` behind it where `wanted`.
pub open spec fn with_tool(list: Seq<ToolEntry>, wanted: bool, tool: RuntimeTool) -> Seq<ToolEntry> {
    if wanted {
        list.push(ToolEntry::Runtime(tool))
    } else {
        list
    }
}

/// The tools of the runtime, in the order in which they are registered.
pub open spec fn with_runtime_tools(
    list: Seq<ToolEntry>,
    deps: LocalToolDeps,
    include_user_question: bool,
) -> Seq<ToolEntry> {
    let support = client_support(deps);
    let l = with_tool(
        list,
        !overridden(deps, "memory__get_detail"@),
        RuntimeTool::MemoryGetDetail,
    );
    let l = with_tool(
        l,
        !overridden(deps, "memory__upsert_named"@),
        RuntimeTool::MemoryUpsertNamed,
    );
    let l = with_tool(l, !overridden(deps, "memory__recall"@), RuntimeTool::MemoryRecall);
    let l = with_tool(l, !overridden(deps, "search"@), RuntimeTool::Search);
    let l = with_tool(l, true, RuntimeTool::ToolTasks);
    let l = if deps.acp_client_tools is Some {
        l.push(ToolEntry::AcpClient)
    } else {
        l
    };
    let l = with_tool(l, deps.bash_enabled && !support.terminal, RuntimeTool::Bash);
    let l = with_tool(l, true, RuntimeTool::Ssh);
    let l = with_tool(l, !support.fs_read, RuntimeTool::FsRead);
    let l = with_tool(l, !support.fs_write, RuntimeTool::FsWrite);
    let l = with_tool(l, true, RuntimeTool::ApplyPatch);
    let l = with_tool(l, true, RuntimeTool::FsCreate);
    let l = with_tool(l, true, RuntimeTool::FsRemove);
    let l = with_tool(l, true, RuntimeTool::FsLs);
    let l = with_tool(l, true, RuntimeTool::Ripgrep);
    let l = with_tool(l, true, RuntimeTool::Fetch);
    let l = with_tool(l, true, RuntimeTool::WebSearch);
    let l = with_tool(l, true, RuntimeTool::Now);
    let l = with_tool(l, true, RuntimeTool::Sleep);
    let l = with_tool(l, true, RuntimeTool::ManageYourself);
    with_tool(l, include_user_question, RuntimeTool::AskUserQuestion)
}

fn add_tool(list: &mut Vec<ToolEntry>, wanted: bool, tool: RuntimeTool)
    ensures
        final(list)@ == with_tool(old(list)@, wanted, tool),
{
    if wanted {
        list.push(ToolEntry::Runtime(tool));
    }
}

impl LocalToolDeps {
    fn is_overridden(&self, name: &str) -> (r: bool)
        ensures
            r == overridden(*self, name@),
    {
        let mut i: usize = 0;
        while i < self.host_tools.len()
            invariant
                i <= self.host_tools.len(),
                forall|j: int|
                    0 <= j < i ==> !((#[trigger] self.host_tools@[j]).name@ == name@
                        && self.host_tools@[j].allows_builtin_override),
            decreases self.host_tools.len() - i,
        {
            if str_eq(&self.host_tools[i].name, name) && self.host_tools[i].allows_builtin_override {
                return true;
            }
            i += 1;
        }
        false
    }

    /// The tools of an agent that works for the user.
    pub fn build_static_tools(&self, include_acp: bool) -> (r: Vec<ToolEntry>)
        ensures
            r@ == with_runtime_tools(
                if include_acp {
                    Seq::empty().push(ToolEntry::Skills).push(ToolEntry::Todos).push(
                        ToolEntry::AcpAgents,
                    )
                } else {
                    Seq::empty().push(ToolEntry::Skills).push(ToolEntry::Todos)
                },
                *self,
                true,
            ),
    {
        let mut list: Vec<ToolEntry> = Vec::new();
        list.push(ToolEntry::Skills);
        list.push(ToolEntry::Todos);
        if include_acp {
            list.push(ToolEntry::AcpAgents);
        }
        register_runtime_tools(&mut list, self, true);
        list
    }
}

/// Registers the tools of the runtime.
pub fn register_runtime_tools(
    list: &mut Vec<ToolEntry>,
    deps: &LocalToolDeps,
    include_user_question: bool,
)
    ensures
        final(list)@ == with_runtime_tools(old(list)@, *deps, include_user_question),
{
    add_tool(list, !deps.is_overridden("memory__get_detail"), RuntimeTool::MemoryGetDetail);
    add_tool(list, !deps.is_overridden("memory__upsert_named"), RuntimeTool::MemoryUpsertNamed);
    add_tool(list, !deps.is_overridden("memory__recall"), RuntimeTool::MemoryRecall);
    add_tool(list, !deps.is_overridden("search"), RuntimeTool::Search);
    add_tool(list, true, RuntimeTool::ToolTasks);
    let support = match deps.acp_client_tools {
        Some(support) => {
            list.push(ToolEntry::AcpClient);
            support
        },
        None => AcpClientToolSupport { terminal: false, fs_read: false, fs_write: false },
    };
    add_tool(list, deps.bash_enabled && !support.terminal, RuntimeTool::Bash);
    add_tool(list, true, RuntimeTool::Ssh);
    add_tool(list, !support.fs_read, RuntimeTool::FsRead);
    add_tool(list, !support.fs_write, RuntimeTool::FsWrite);
    add_tool(list, true, RuntimeTool::ApplyPatch);
    add_tool(list, true, RuntimeTool::FsCreate);
    add_tool(list, true, RuntimeTool::FsRemove);
    add_tool(list, true, RuntimeTool::FsLs);
    add_tool(list, true, RuntimeTool::Ripgrep);
    add_tool(list, true, RuntimeTool::Fetch);
    add_tool(list, true, RuntimeTool::WebSearch);
    add_tool(list, true, RuntimeTool::Now);
    add_tool(list, true, RuntimeTool::Sleep);
    add_tool(list, true, RuntimeTool::ManageYourself);
    add_tool(list, include_user_question, RuntimeTool::AskUserQuestion);
}

/// The tools of an agent that works for another: those of the runtime, and
/// those of the host behind them.
pub fn build_subagent_tools(deps: &LocalToolDeps) -> (r: Vec<ToolEntry>)
    ensures
        r@ == with_runtime_tools(
            Seq::empty().push(ToolEntry::Skills).push(ToolEntry::Todos),
            *deps,
            true,
        ) + Seq::new(deps.host_tools@.len(), |i: int| ToolEntry::Host(i as usize)),
{
    let mut list: Vec<ToolEntry> = Vec::new();
    list.push(ToolEntry::Skills);
    list.push(ToolEntry::Todos);
    register_runtime_tools(&mut list, deps, true);
    let ghost own = list@;
    let mut i: usize = 0;
    while i < deps.host_tools.len()
        invariant
            i <= deps.host_tools.len(),
            list@ == own + Seq::new(i as nat, |j: int| ToolEntry::Host(j as usize)),
        decreases deps.host_tools.len() - i,
    {
        let ghost before = list@;
        list.push(ToolEntry::Host(i));
        i += 1;
        assert(list@ =~= own + Seq::new(i as nat, |j: int| ToolEntry::Host(j as usize)));
    }
    list
}

// -------------------------------------------------------------------- the agent

/// A tool as the model sees it. One that is switched off is registered all the
/// same.
#[derive(Debug, Clone, PartialEq, Eq)]
pub struct ToolDefinition {
    pub name: String,
    pub description: String,
    pub enabled: bool,
}

pub open spec fn tool_names(tools: Seq<ToolDefinition>) -> Seq<Seq<char>> {
    tools.map_values(|t: ToolDefinition| t.name@)
}

/// The tools of an agent, and those of them that it may use.
#[derive(Debug)]
pub struct AgentTools {
    pub local_tools: Vec<ToolDefinition>,
    pub model_tools: Option<Vec<ToolDefinition>>,
    pub tool_allowlist: Option<Vec<String>>,
}

pub open spec fn all_tools(agent: AgentTools) -> Seq<ToolDefinition> {
    match agent.model_tools {
        Some(more) => agent.local_tools@ + more@,
        None => agent.local_tools@,
    }
}

/// The tools that are switched on.
pub open spec fn definitions(tools: Seq<ToolDefinition>) -> Seq<(Seq<char>, Seq<char>)>
    decreases tools.len(),
{
    if tools.len() == 0 {
        Seq::empty()
    } else {
        let head = definitions(tools.drop_last());
        if tools.last().enabled {
            head.push((tools.last().name@, tools.last().description@))
        } else {
            head
        }
    }
}

/// Whether an agent may use the tool of the given name: with no list, all.
pub open spec fn permitted(allowlist: Option<Seq<Seq<char>>>, name: Seq<char>) -> bool {
    match allowlist {
        Some(list) => list.contains(name),
        None => true,
    }
}

pub open spec fn has_tool(agent: AgentTools, name: Seq<char>) -> bool {
    tool_names(all_tools(agent)).contains(name)
}

/// The tools that are switched on and permitted.
pub open spec fn listed_tools(
    tools: Seq<(Seq<char>, Seq<char>)>,
    allowlist: Option<Seq<Seq<char>>>,
) -> Seq<(Seq<char>, Seq<char>)>
    decreases tools.len(),
{
    if tools.len() == 0 {
        Seq::empty()
    } else {
        let head = listed_tools(tools.drop_last(), allowlist);
        if permitted(allowlist, tools.last().0) {
            head.push(tools.last())
        } else {
            head
        }
    }
}

pub open spec fn pair_views(pairs: Seq<(String, String)>) -> Seq<(Seq<char>, Seq<char>)> {
    pairs.map_values(|p: (String, String)| (p.0@, p.1@))
}

fn push_definitions(out: &mut Vec<(String, String)>, tools: &Vec<ToolDefinition>)
    ensures
        pair_views(final(out)@) == pair_views(old(out)@) + definitions(tools@),
{
    let ghost start = pair_views(out@);
    let mut i: usize = 0;
    assert(tools@.take(0) =~= Seq::empty());
    assert(start + Seq::<(Seq<char>, Seq<char>)>::empty() =~= start);
    while i < tools.len()
        invariant
            i <= tools.len(),
            pair_views(out@) == start + definitions(tools@.take(i as int)),
        decreases tools.len() - i,
    {
        let ghost before = pair_views(out@);
        assert(tools@.take(i + 1).drop_last() =~= tools@.take(i as int));
        if tools[i].enabled {
            out.push((tools[i].name.clone(), tools[i].description.clone()));
            assert(pair_views(out@) =~= before.push((tools@[i as int].name@, tools@[i as int].description@)));
            assert(pair_views(out@) =~= start + definitions(tools@.take(i + 1)));
        }
        i += 1;
    }
    assert(tools@.take(i as int) =~= tools@);
}

proof fn lemma_definitions_concat(a: Seq<ToolDefinition>, b: Seq<ToolDefinition>)
    ensures
        definitions(a + b) == definitions(a) + definitions(b),
    decreases b.len(),
{
    if b.len() == 0 {
        assert(a + b =~= a);
        assert(definitions(a) + definitions(b) =~= definitions(a));
    } else {
        lemma_definitions_concat(a, b.drop_last());
        assert((a + b).drop_last() =~= a + b.drop_last());
        assert(definitions(a + b) =~= definitions(a) + definitions(b));
    }
}

fn names_tool(tools: &Vec<ToolDefinition>, name: &str) -> (r: bool)
    ensures
        r == tool_names(tools@).contains(name@),
{
    let mut i: usize = 0;
    while i < tools.len()
        invariant
            i <= tools.len(),
            forall|j: int| 0 <= j < i ==> tool_names(tools@)[j] != name@,
        decreases tools.len() - i,
    {
        if str_eq(&tools[i].name, name) {
            assert(tool_names(tools@)[i as int] == name@);
            return true;
        }
        assert(tool_names(tools@)[i as int] != name@);
        i += 1;
    }
    false
}

impl AgentTools {
    /// The tools that are switched on.
    pub fn definitions(&self) -> (r: Vec<(String, String)>)
        ensures
            pair_views(r@) == definitions(all_tools(*self)),
    {
        let mut out: Vec<(String, String)> = Vec::new();
        assert(pair_views(out@) =~= Seq::<(Seq<char>, Seq<char>)>::empty());
        push_definitions(&mut out, &self.local_tools);
        assert(pair_views(out@) =~= definitions(self.local_tools@));
        if let Some(more) = &self.model_tools {
            push_definitions(&mut out, more);
            proof {
                lemma_definitions_concat(self.local_tools@, more@);
            }
        }
        out
    }

    /// Whether there is a tool of the given name.
    pub fn contains_tool(&self, name: &str) -> (r: bool)
        ensures
            r == has_tool(*self, name@),
    {
        let here = names_tool(&self.local_tools, name);
        let there = match &self.model_tools {
            Some(more) => names_tool(more, name),
            None => false,
        };
        proof {
            if let Some(more) = &self.model_tools {
                assert(tool_names(self.local_tools@ + more@) =~= tool_names(self.local_tools@)
                    + tool_names(more@));
                let all = tool_names(self.local_tools@) + tool_names(more@);
                if here {
                    let k = tool_names(self.local_tools@).index_of(name@);
                    assert(all[k] == name@);
                }
                if there {
                    let k = tool_names(more@).index_of(name@);
                    assert(all[k + self.local_tools@.len()] == name@);
                }
            }
        }
        here || there
    }

    /// Whether the agent may use the tool of the given name.
    pub fn tool_in_active_allowlist(&self, name: &str) -> (r: bool)
        ensures
            r == permitted(option_texts(self.tool_allowlist), name@),
    {
        permits(&self.tool_allowlist, name)
    }

    /// Whether there is a tool of the given name that the agent may use.
    pub fn tool_available(&self, name: &str) -> (r: bool)
        ensures
            r == (has_tool(*self, name@) && permitted(option_texts(self.tool_allowlist), name@)),
    {
        self.contains_tool(name) && self.tool_in_active_allowlist(name)
    }

    /// The tools for skills that the agent may use.
    pub fn skill_prompt_tool_availability(&self) -> (r: SkillPromptToolAvailability)
        ensures
            r.skill_search == (has_tool(*self, "skill__search"@) && permitted(
                option_texts(self.tool_allowlist),
                "skill__search"@,
            )),
            r.skill_get == (has_tool(*self, "skill__get"@) && permitted(
                option_texts(self.tool_allowlist),
                "skill__get"@,
            )),
            r.fs_read == (has_tool(*self, "fs_read"@) && permitted(
                option_texts(self.tool_allowlist),
                "fs_read"@,
            )),
    {
        SkillPromptToolAvailability::new(
            self.tool_available("skill__search"),
            self.tool_available("skill__get"),
            self.tool_available("fs_read"),
        )
    }

    /// Every tool that is switched on, with what it is for, whether or not the
    /// agent may use it.
    pub fn tool_list(&self) -> (r: Vec<(String, String)>)
        ensures
            pair_views(r@) == definitions(all_tools(*self)),
    {
        self.definitions()
    }
}

fn permits(allowlist: &Option<Vec<String>>, name: &str) -> (r: bool)
    ensures
        r == permitted(option_texts(*allowlist), name@),
{
    match allowlist {
        Some(list) => list_has(list, name),
        None => true,
    }
}

/// The tools among the known ones that may be used.
pub fn list_permitted(known: &Vec<(String, String)>, allowlist: &Option<Vec<String>>) -> (r: Vec<
    (String, String),
>)
    ensures
        pair_views(r@) == listed_tools(pair_views(known@), option_texts(*allowlist)),
{
    let ghost all = pair_views(known@);
    let mut out: Vec<(String, String)> = Vec::new();
    let mut i: usize = 0;
    assert(all.take(0) =~= Seq::empty());
    assert(pair_views(out@) =~= Seq::<(Seq<char>, Seq<char>)>::empty());
    while i < known.len()
        invariant
            i <= known.len(),
            all == pair_views(known@),
            pair_views(out@) == listed_tools(all.take(i as int), option_texts(*allowlist)),
        decreases known.len() - i,
    {
        let ghost before = pair_views(out@);
        assert(all.take(i + 1).drop_last() =~= all.take(i as int));
        assert(all[i as int] == (known@[i as int].0@, known@[i as int].1@));
        if permits(allowlist, &known[i].0) {
            out.push((known[i].0.clone(), known[i].1.clone()));
            assert(pair_views(out@) =~= before.push(all[i as int]));
        }
        i += 1;
    }
    assert(all.take(i as int) =~= all);
    out
}

/// Among the known tools none is listed for an agent that it may not use.
pub proof fn listed_tools_are_permitted(
    tools: Seq<(Seq<char>, Seq<char>)>,
    allowlist: Option<Seq<Seq<char>>>,
)
    ensures
        forall|i: int|
            0 <= i < listed_tools(tools, allowlist).len() ==> permitted(
                allowlist,
                (#[trigger] listed_tools(tools, allowlist)[i]).0,
            ),
    decreases tools.len(),
{
    if tools.len() > 0 {
        listed_tools_are_permitted(tools.drop_last(), allowlist);
        let head = listed_tools(tools.drop_last(), allowlist);
        let all = listed_tools(tools, allowlist);
        assert forall|i: int| 0 <= i < all.len() implies permitted(
            allowlist,
            (#[trigger] all[i]).0,
        ) by {
            if i < head.len() {
                assert(all[i] == head[i]);
            }
        }
    }
}

// ---------------------------------------------------------------------- status

/// What is said of a tool.
#[derive(Debug)]
pub struct RegisteredToolStatus {
    pub name: String,
    pub description: String,
    pub registered: bool,
    pub enabled: bool,
    pub in_active_allowlist: bool,
    pub warnings: Vec<String>,
    pub errors: Vec<String>,
}

pub struct StatusView {
    pub name: Seq<char>,
    pub description: Seq<char>,
    pub registered: bool,
    pub enabled: bool,
    pub in_active_allowlist: bool,
    pub warnings: Seq<Seq<char>>,
    pub errors: Seq<Seq<char>>,
}

impl View for RegisteredToolStatus {
    type V = StatusView;

    open spec fn view(&self) -> StatusView {
        StatusView {
            name: self.name@,
            description: self.description@,
            registered: self.registered,
            enabled: self.enabled,
            in_active_allowlist: self.in_active_allowlist,
            warnings: texts(self.warnings@),
            errors: texts(self.errors@),
        }
    }
}

pub open spec fn status_view() -> spec_fn(RegisteredToolStatus) -> StatusView {
    |s: RegisteredToolStatus| s@
}

/// The tools that come with the program, with what they are for.
pub open spec fn catalog() -> Seq<(Seq<char>, Seq<char>)> {
    Seq::empty().push(
        ("acp__remi"@, "Open, resume, or poll a named ACP client session."@),
    ).push(("apply_patch"@, "Apply a unified diff patch inside the workspace."@)).push(
        ("bash"@, "Execute a bash command in the configured workspace sandbox."@),
    ).push(("codex"@, "Open, resume, or poll a Codex ACP session."@)).push(
        ("fetch"@, "Fetch content or IM bridge files into the workspace."@),
    ).push(("fs_create"@, "Create a new file in the workspace."@)).push(
        ("fs_ls"@, "List workspace directory entries."@),
    ).push(("fs_mkdir"@, "Create a workspace directory."@)).push(
        ("fs_read"@, "Read a workspace file."@),
    ).push(("fs_remove"@, "Remove a workspace file or directory."@)).push(
        ("fs_write"@, "Write a workspace file."@),
    ).push(("manage_yourself"@, "Run remi-cat CLI commands for self-management."@)).push(
        ("memory__get_detail"@, "Read a stored memory detail."@),
    ).push(("memory__recall"@, "Search memory directly."@)).push(
        ("memory__upsert_named"@, "Save or update a named memory."@),
    ).push(("now"@, "Return the current time."@)).push(
        ("rg"@, "Search workspace files with ripgrep."@),
    ).push(("search"@, "Search local memory/skills or web results."@)).push(
        ("skill__get"@, "Read a skill document."@),
    ).push(("skill__search"@, "Search installed skills."@)).push(
        ("sleep"@, "Wait for a short duration."@),
    ).push(("ssh"@, "Execute a command on a remote host via host OpenSSH."@)).push(
        ("todo__add"@, "Add todo items."@),
    ).push(("todo__complete"@, "Complete a todo item."@)).push(
        ("todo__list"@, "List todo items."@),
    ).push(("todo__remove"@, "Remove a todo item."@)).push(
        ("todo__update"@, "Update a todo item."@),
    ).push(("web_search"@, "Search the web with Exa."@))
}

fn note(list: &mut Vec<(String, String)>, name: &str, description: &str)
    ensures
        pair_views(final(list)@) == pair_views(old(list)@).push((name@, description@)),
{
    let ghost before = pair_views(list@);
    list.push((name.to_owned(), description.to_owned()));
    assert(pair_views(list@) =~= before.push((name@, description@)));
}

/// The tools that come with the program, with what they are for.
pub fn builtin_tool_catalog() -> (r: Vec<(String, String)>)
    ensures
        pair_views(r@) == catalog(),
{
    let mut l: Vec<(String, String)> = Vec::new();
    assert(pair_views(l@) =~= Seq::<(Seq<char>, Seq<char>)>::empty());
    note(&mut l, "acp__remi", "Open, resume, or poll a named ACP client session.");
    note(&mut l, "apply_patch", "Apply a unified diff patch inside the workspace.");
    note(&mut l, "bash", "Execute a bash command in the configured workspace sandbox.");
    note(&mut l, "codex", "Open, resume, or poll a Codex ACP session.");
    note(&mut l, "fetch", "Fetch content or IM bridge files into the workspace.");
    note(&mut l, "fs_create", "Create a new file in the workspace.");
    note(&mut l, "fs_ls", "List workspace directory entries.");
    note(&mut l, "fs_mkdir", "Create a workspace directory.");
    note(&mut l, "fs_read", "Read a workspace file.");
    note(&mut l, "fs_remove", "Remove a workspace file or directory.");
    note(&mut l, "fs_write", "Write a workspace file.");
    note(&mut l, "manage_yourself", "Run remi-cat CLI commands for self-management.");
    note(&mut l, "memory__get_detail", "Read a stored memory detail.");
    note(&mut l, "memory__recall", "Search memory directly.");
    note(&mut l, "memory__upsert_named", "Save or update a named memory.");
    note(&mut l, "now", "Return the current time.");
    note(&mut l, "rg", "Search workspace files with ripgrep.");
    note(&mut l, "search", "Search local memory/skills or web results.");
    note(&mut l, "skill__get", "Read a skill document.");
    note(&mut l, "skill__search", "Search installed skills.");
    note(&mut l, "sleep", "Wait for a short duration.");
    note(&mut l, "ssh", "Execute a command on a remote host via host OpenSSH.");
    note(&mut l, "todo__add", "Add todo items.");
    note(&mut l, "todo__complete", "Complete a todo item.");
    note(&mut l, "todo__list", "List todo items.");
    note(&mut l, "todo__remove", "Remove a todo item.");
    note(&mut l, "todo__update", "Update a todo item.");
    note(&mut l, "web_search", "Search the web with Exa.");
    l
}

/// What a tool needs that the machine may lack.
#[derive(Debug)]
pub struct ToolSurroundings {
    /// Whether `EXA_API_KEY` says something.
    pub exa_api_key: bool,
    /// Whether there is an `ssh` to call.
    pub ssh: bool,
    /// Whether there is an `rg` to call.
    pub rg: bool,
    /// The name and the description of the ACP tool that is configured, where
    /// it cannot be used.
    pub missing_acp_tool: Option<(String, String)>,
}

pub open spec fn warnings_of(name: Seq<char>, exa_api_key: bool) -> Seq<Seq<char>> {
    if (name == "search"@ || name == "web_search"@) && !exa_api_key {
        Seq::empty().push(
            "web search is unavailable until EXA_API_KEY is set; local memory/skill search still works"@,
        )
    } else {
        Seq::empty()
    }
}

fn one_text(s: &str) -> (r: Vec<String>)
    ensures
        texts(r@) == Seq::empty().push(s@),
{
    let mut v: Vec<String> = Vec::new();
    v.push(s.to_owned());
    assert(texts(v@) =~= Seq::empty().push(s@));
    v
}

fn no_texts() -> (r: Vec<String>)
    ensures
        texts(r@) == Seq::<Seq<char>>::empty(),
{
    let v: Vec<String> = Vec::new();
    assert(texts(v@) =~= Seq::<Seq<char>>::empty());
    v
}

/// What a tool can do less of.
pub fn tool_warnings(name: &str, exa_api_key: bool) -> (r: Vec<String>)
    ensures
        texts(r@) == warnings_of(name@, exa_api_key),
{
    if (str_eq(name, "search") || str_eq(name, "web_search")) && !exa_api_key {
        one_text(
            "web search is unavailable until EXA_API_KEY is set; local memory/skill search still works",
        )
    } else {
        no_texts()
    }
}

pub open spec fn absence_of(name: Seq<char>, registered: bool) -> Seq<Seq<char>> {
    if registered {
        Seq::empty()
    } else if name == "bash"@ {
        Seq::empty().push(
            "bash is not registered because shell execution is disabled; enable shell.mode=local or a sandbox mode that allows bash"@,
        )
    } else if name == "codex"@ {
        Seq::empty().push(
            "codex is not registered because ACP Codex is not configured or the Codex binary is unavailable; run remi-cat acp setup --client codex and remi-cat acp doctor"@,
        )
    } else if "acp__"@.is_prefix_of(name) {
        Seq::empty().push(
            name
                + " is not registered because the configured ACP client is unavailable; run remi-cat acp setup and remi-cat acp doctor"@,
        )
    } else {
        Seq::empty()
    }
}

/// Why a tool is not registered.
pub fn tool_errors(name: &str, registered: bool) -> (r: Vec<String>)
    ensures
        texts(r@) == absence_of(name@, registered),
{
    if registered {
        no_texts()
    } else if str_eq(name, "bash") {
        one_text(
            "bash is not registered because shell execution is disabled; enable shell.mode=local or a sandbox mode that allows bash",
        )
    } else if str_eq(name, "codex") {
        one_text(
            "codex is not registered because ACP Codex is not configured or the Codex binary is unavailable; run remi-cat acp setup --client codex and remi-cat acp doctor",
        )
    } else if starts_with(name, "acp__") {
        let mut t = name.to_owned();
        t.push_str(
            " is not registered because the configured ACP client is unavailable; run remi-cat acp setup and remi-cat acp doctor",
        );
        one_text(&t)
    } else {
        no_texts()
    }
}

pub open spec fn unusable(name: Seq<char>, around: ToolSurroundings) -> Seq<Seq<char>> {
    if name == "ssh"@ && !around.ssh {
        Seq::empty().push(
            "ssh is not usable because the host ssh executable was not found in PATH"@,
        )
    } else if name == "rg"@ && !around.rg {
        Seq::empty().push("rg is not usable because the host rg executable was not found in PATH"@)
    } else {
        Seq::empty()
    }
}

/// Why a tool that is registered cannot be used.
pub fn tool_runtime_errors(name: &str, around: &ToolSurroundings) -> (r: Vec<String>)
    ensures
        texts(r@) == unusable(name@, *around),
{
    if str_eq(name, "ssh") && !around.ssh {
        one_text("ssh is not usable because the host ssh executable was not found in PATH")
    } else if str_eq(name, "rg") && !around.rg {
        one_text("rg is not usable because the host rg executable was not found in PATH")
    } else {
        no_texts()
    }
}

/// What is said of a tool that is switched on.
pub open spec fn status_on(
    agent: AgentTools,
    around: ToolSurroundings,
    tool: (Seq<char>, Seq<char>),
) -> StatusView {
    StatusView {
        name: tool.0,
        description: tool.1,
        registered: true,
        enabled: true,
        in_active_allowlist: permitted(option_texts(agent.tool_allowlist), tool.0),
        warnings: warnings_of(tool.0, around.exa_api_key),
        errors: unusable(tool.0, around),
    }
}

/// What is said of a tool of the program that is not switched on.
pub open spec fn status_off(
    agent: AgentTools,
    around: ToolSurroundings,
    tool: (Seq<char>, Seq<char>),
) -> StatusView {
    let registered = has_tool(agent, tool.0);
    StatusView {
        name: tool.0,
        description: tool.1,
        registered,
        enabled: registered,
        in_active_allowlist: permitted(option_texts(agent.tool_allowlist), tool.0),
        warnings: warnings_of(tool.0, around.exa_api_key),
        errors: absence_of(tool.0, registered) + unusable(tool.0, around),
    }
}

/// The tools that are switched on, by their names.
pub open spec fn statuses_on(
    agent: AgentTools,
    around: ToolSurroundings,
    tools: Seq<(Seq<char>, Seq<char>)>,
) -> Seq<(Seq<char>, StatusView)>
    decreases tools.len(),
{
    if tools.len() == 0 {
        Seq::empty()
    } else {
        with_value(
            statuses_on(agent, around, tools.drop_last()),
            tools.last().0,
            status_on(agent, around, tools.last()),
        )
    }
}

/// With those of the program that are not among them.
pub open spec fn with_catalog(
    known: Seq<(Seq<char>, StatusView)>,
    agent: AgentTools,
    around: ToolSurroundings,
    tools: Seq<(Seq<char>, Seq<char>)>,
) -> Seq<(Seq<char>, StatusView)>
    decreases tools.len(),
{
    if tools.len() == 0 {
        known
    } else {
        let head = with_catalog(known, agent, around, tools.drop_last());
        if value_of(head, tools.last().0) is Some {
            head
        } else {
            with_value(head, tools.last().0, status_off(agent, around, tools.last()))
        }
    }
}

/// With the ACP tool that cannot be used, where there is one.
pub open spec fn with_missing(
    known: Seq<(Seq<char>, StatusView)>,
    agent: AgentTools,
    around: ToolSurroundings,
) -> Seq<(Seq<char>, StatusView)> {
    match around.missing_acp_tool {
        Some((name, description)) => {
            let status = match value_of(known, name@) {
                Some(s) => StatusView {
                    registered: false,
                    enabled: false,
                    errors: absence_of(name@, false),
                    ..s
                },
                None => StatusView {
                    name: name@,
                    description: description@,
                    registered: false,
                    enabled: false,
                    in_active_allowlist: permitted(option_texts(agent.tool_allowlist), name@),
                    warnings: Seq::empty(),
                    errors: absence_of(name@, false),
                },
            };
            with_value(known, name@, status)
        },
        None => known,
    }
}

/// What is said of all tools, by their names.
pub open spec fn all_statuses(agent: AgentTools, around: ToolSurroundings) -> Seq<
    (Seq<char>, StatusView),
> {
    with_missing(
        with_catalog(
            statuses_on(agent, around, definitions(all_tools(agent))),
            agent,
            around,
            catalog(),
        ),
        agent,
        around,
    )
}

pub open spec fn status_views(statuses: Seq<RegisteredToolStatus>) -> Seq<StatusView> {
    statuses.map_values(|s: RegisteredToolStatus| s@)
}

pub open spec fn values<V>(entries: Seq<(Seq<char>, V)>) -> Seq<V> {
    entries.map_values(|e: (Seq<char>, V)| e.1)
}

fn push_all(list: &mut Vec<String>, more: Vec<String>)
    ensures
        texts(final(list)@) == texts(old(list)@) + texts(more@),
{
    let ghost start = texts(list@);
    let mut more = more;
    let ghost added = texts(more@);
    list.append(&mut more);
    assert(texts(list@) =~= start + added);
}

fn copy_status(s: &RegisteredToolStatus) -> (r: RegisteredToolStatus)
    ensures
        r@ == s@,
{
    RegisteredToolStatus {
        name: s.name.clone(),
        description: s.description.clone(),
        registered: s.registered,
        enabled: s.enabled,
        in_active_allowlist: s.in_active_allowlist,
        warnings: crate::profile::copy_texts(&s.warnings),
        errors: crate::profile::copy_texts(&s.errors),
    }
}

impl AgentTools {
    fn statuses_on(&self, around: &ToolSurroundings) -> (r: TextMap<RegisteredToolStatus>)
        ensures
            seen(r@, status_view()) == statuses_on(
                *self,
                *around,
                definitions(all_tools(*self)),
            ),
    {
        let known = self.definitions();
        let ghost all = pair_views(known@);
        let mut by_name: TextMap<RegisteredToolStatus> = TextMap::new();
        let mut i: usize = 0;
        assert(all.take(0) =~= Seq::empty());
        assert(seen(by_name@, status_view()) =~= Seq::<(Seq<char>, StatusView)>::empty());
        while i < known.len()
            invariant
                i <= known.len(),
                all == pair_views(known@),
                seen(by_name@, status_view()) == statuses_on(*self, *around, all.take(i as int)),
            decreases known.len() - i,
        {
            assert(all.take(i + 1).drop_last() =~= all.take(i as int));
            assert(all[i as int] == (known@[i as int].0@, known@[i as int].1@));
            let name = known[i].0.clone();
            let status = RegisteredToolStatus {
                name: name.clone(),
                description: known[i].1.clone(),
                registered: true,
                enabled: true,
                in_active_allowlist: self.tool_in_active_allowlist(&name),
                warnings: tool_warnings(&name, around.exa_api_key),
                errors: tool_runtime_errors(&name, around),
            };
            proof {
                lemma_seen_with_value(by_name@, status_view(), name@, status);
            }
            by_name.insert(name, status);
            i += 1;
        }
        assert(all.take(i as int) =~= all);
        by_name
    }

    fn add_catalog(&self, by_name: &mut TextMap<RegisteredToolStatus>, around: &ToolSurroundings)
        ensures
            seen(final(by_name)@, status_view()) == with_catalog(
                seen(old(by_name)@, status_view()),
                *self,
                *around,
                catalog(),
            ),
    {
        let ghost start = seen(by_name@, status_view());
        let known = builtin_tool_catalog();
        let ghost all = pair_views(known@);
        let mut i: usize = 0;
        assert(all.take(0) =~= Seq::empty());
        while i < known.len()
            invariant
                i <= known.len(),
                all == pair_views(known@),
                seen(by_name@, status_view()) == with_catalog(
                    start,
                    *self,
                    *around,
                    all.take(i as int),
                ),
            decreases known.len() - i,
        {
            assert(all.take(i + 1).drop_last() =~= all.take(i as int));
            assert(all[i as int] == (known@[i as int].0@, known@[i as int].1@));
            let name = known[i].0.clone();
            proof {
                lemma_seen_value_of(by_name@, status_view(), name@);
            }
            if !by_name.contains_key(&name) {
                let registered = self.contains_tool(&name);
                let mut errors = tool_errors(&name, registered);
                push_all(&mut errors, tool_runtime_errors(&name, around));
                let status = RegisteredToolStatus {
                    name: name.clone(),
                    description: known[i].1.clone(),
                    registered,
                    enabled: registered,
                    in_active_allowlist: self.tool_in_active_allowlist(&name),
                    warnings: tool_warnings(&name, around.exa_api_key),
                    errors,
                };
                proof {
                    lemma_seen_with_value(by_name@, status_view(), name@, status);
                }
                by_name.insert(name, status);
            }
            i += 1;
        }
        assert(all.take(i as int) =~= all);
    }

    fn add_missing(&self, by_name: &mut TextMap<RegisteredToolStatus>, around: &ToolSurroundings)
        ensures
            seen(final(by_name)@, status_view()) == with_missing(
                seen(old(by_name)@, status_view()),
                *self,
                *around,
            ),
    {
        if let Some((name, description)) = &around.missing_acp_tool {
            proof {
                lemma_seen_value_of(by_name@, status_view(), name@);
            }
            let status = match by_name.get(name) {
                Some(s) => {
                    let mut s = copy_status(s);
                    s.registered = false;
                    s.enabled = false;
                    s.errors = tool_errors(name, false);
                    s
                },
                None => RegisteredToolStatus {
                    name: name.clone(),
                    description: description.clone(),
                    registered: false,
                    enabled: false,
                    in_active_allowlist: self.tool_in_active_allowlist(name),
                    warnings: no_texts(),
                    errors: tool_errors(name, false),
                },
            };
            proof {
                lemma_seen_with_value(by_name@, status_view(), name@, status);
            }
            by_name.insert(name.clone(), status);
        }
    }

    /// What is said of all tools, in the order of their names, whether the
    /// agent may use them or not.
    pub fn registered_tool_statuses(&self, around: &ToolSurroundings) -> (r: Vec<
        RegisteredToolStatus,
    >)
        ensures
            status_views(r@) == values(all_statuses(*self, *around)),
    {
        let mut by_name = self.statuses_on(around);
        self.add_catalog(&mut by_name, around);
        self.add_missing(&mut by_name, around);
        let ghost all = seen(by_name@, status_view());
        let mut out: Vec<RegisteredToolStatus> = Vec::new();
        let mut i: usize = 0;
        while i < by_name.entries.len()
            invariant
                i <= by_name.entries.len(),
                all == seen(by_name@, status_view()),
                out.len() == i,
                forall|j: int| 0 <= j < i ==> (#[trigger] out@[j])@ == all[j].1,
            decreases by_name.entries.len() - i,
        {
            assert(by_name@[i as int].1 == by_name.entries@[i as int].1);
            assert(all[i as int].1 == by_name.entries@[i as int].1@);
            out.push(copy_status(&by_name.entries[i].1));
            i += 1;
        }
        assert(status_views(out@) =~= values(all));
        out
    }
}

/// What is said of a tool is kept under the tool's own name.
pub open spec fn named_rightly(entries: Seq<(Seq<char>, StatusView)>) -> bool {
    forall|i: int| 0 <= i < entries.len() ==> (#[trigger] entries[i]).1.name == entries[i].0
}

proof fn lemma_with_value_named(
    entries: Seq<(Seq<char>, StatusView)>,
    name: Seq<char>,
    status: StatusView,
)
    requires
        named_rightly(entries),
        status.name == name,
    ensures
        named_rightly(with_value(entries, name, status)),
    decreases entries.len(),
{
    if entries.len() > 0 {
        let rest = entries.drop_first();
        assert(named_rightly(rest)) by {
            assert forall|i: int| 0 <= i < rest.len() implies (#[trigger] rest[i]).1.name
                == rest[i].0 by {
                assert(rest[i] == entries[i + 1]);
            }
        }
        assert(entries[0].1.name == entries[0].0);
        lemma_with_value_named(rest, name, status);
        let all = with_value(entries, name, status);
        assert forall|i: int| 0 <= i < all.len() implies (#[trigger] all[i]).1.name == all[i].0 by {
        }
    }
}

proof fn lemma_statuses_named(
    agent: AgentTools,
    around: ToolSurroundings,
    tools: Seq<(Seq<char>, Seq<char>)>,
)
    ensures
        named_rightly(statuses_on(agent, around, tools)),
        keys_ordered(statuses_on(agent, around, tools)),
    decreases tools.len(),
{
    if tools.len() > 0 {
        lemma_statuses_named(agent, around, tools.drop_last());
        lemma_with_value_named(
            statuses_on(agent, around, tools.drop_last()),
            tools.last().0,
            status_on(agent, around, tools.last()),
        );
        setting_keeps_order(
            statuses_on(agent, around, tools.drop_last()),
            tools.last().0,
            status_on(agent, around, tools.last()),
        );
    }
}

proof fn lemma_catalog_named(
    known: Seq<(Seq<char>, StatusView)>,
    agent: AgentTools,
    around: ToolSurroundings,
    tools: Seq<(Seq<char>, Seq<char>)>,
)
    requires
        named_rightly(known),
        keys_ordered(known),
    ensures
        named_rightly(with_catalog(known, agent, around, tools)),
        keys_ordered(with_catalog(known, agent, around, tools)),
    decreases tools.len(),
{
    if tools.len() > 0 {
        lemma_catalog_named(known, agent, around, tools.drop_last());
        let head = with_catalog(known, agent, around, tools.drop_last());
        lemma_with_value_named(head, tools.last().0, status_off(agent, around, tools.last()));
        setting_keeps_order(head, tools.last().0, status_off(agent, around, tools.last()));
    }
}

/// Each tool is told of once, under its own name, in the order of the names.
pub proof fn each_tool_is_told_of_once(agent: AgentTools, around: ToolSurroundings)
    ensures
        named_rightly(all_statuses(agent, around)),
        keys_ordered(all_statuses(agent, around)),
{
    let on = statuses_on(agent, around, definitions(all_tools(agent)));
    lemma_statuses_named(agent, around, definitions(all_tools(agent)));
    lemma_catalog_named(on, agent, around, catalog());
    let known = with_catalog(on, agent, around, catalog());
    if let Some((name, description)) = around.missing_acp_tool {
        let status = match value_of(known, name@) {
            Some(s) => StatusView {
                registered: false,
                enabled: false,
                errors: absence_of(name@, false),
                ..s
            },
            None => StatusView {
                name: name@,
                description: description@,
                registered: false,
                enabled: false,
                in_active_allowlist: permitted(option_texts(agent.tool_allowlist), name@),
                warnings: Seq::empty(),
                errors: absence_of(name@, false),
            },
        };
        lemma_value_named(known, name@);
        lemma_with_value_named(known, name@, status);
        setting_keeps_order(known, name@, status);
    }
}

proof fn lemma_value_named(entries: Seq<(Seq<char>, StatusView)>, name: Seq<char>)
    requires
        named_rightly(entries),
    ensures
        value_of(entries, name) matches Some(s) ==> s.name == name,
    decreases entries.len(),
{
    if entries.len() > 0 {
        let rest = entries.drop_first();
        assert(named_rightly(rest)) by {
            assert forall|i: int| 0 <= i < rest.len() implies (#[trigger] rest[i]).1.name
                == rest[i].0 by {
                assert(rest[i] == entries[i + 1]);
            }
        }
        assert(entries[0].1.name == entries[0].0);
        lemma_value_named(rest, name);
    }
}

// ------------------------------------------------------------------- which there are

/// Whether a tool of the runtime is wanted: the tools of memory and search where the
/// host has none in their place, the shell where it is on and the client has none,
/// reading and writing where the client does not, asking the user where that is
/// possible, and all others always.
pub open spec fn tool_wanted(
    deps: LocalToolDeps,
    include_user_question: bool,
    tool: RuntimeTool,
) -> bool {
    match tool {
        RuntimeTool::MemoryGetDetail => !overridden(deps, "memory__get_detail"@),
        RuntimeTool::MemoryUpsertNamed => !overridden(deps, "memory__upsert_named"@),
        RuntimeTool::MemoryRecall => !overridden(deps, "memory__recall"@),
        RuntimeTool::Search => !overridden(deps, "search"@),
        RuntimeTool::Bash => deps.bash_enabled && !(deps.acp_client_tools is Some
            && deps.acp_client_tools->0.terminal),
        RuntimeTool::FsRead => !(deps.acp_client_tools is Some && deps.acp_client_tools->0.fs_read),
        RuntimeTool::FsWrite => !(deps.acp_client_tools is Some
            && deps.acp_client_tools->0.fs_write),
        RuntimeTool::AskUserQuestion => include_user_question,
        _ => true,
    }
}

proof fn lemma_with_tool(list: Seq<ToolEntry>, wanted: bool, tool: RuntimeTool, e: ToolEntry)
    ensures
        with_tool(list, wanted, tool).contains(e) <==> list.contains(e) || (wanted && e
            == ToolEntry::Runtime(tool)),
{
    lemma_entry_pushed(list, ToolEntry::Runtime(tool), e);
}

proof fn lemma_entry_pushed(list: Seq<ToolEntry>, a: ToolEntry, e: ToolEntry)
    ensures
        list.push(a).contains(e) <==> list.contains(e) || e == a,
{
    let t = list.push(a);
    assert(t[list.len() as int] == a);
    if list.contains(e) {
        let k = choose|k: int| 0 <= k < list.len() && list[k] == e;
        assert(t[k] == e);
    }
    if t.contains(e) && e != a {
        let k = choose|k: int| 0 <= k < t.len() && t[k] == e;
        assert(list[k] == e);
    }
}

proof fn lemma_runtime_tools(
    list: Seq<ToolEntry>,
    deps: LocalToolDeps,
    include_user_question: bool,
    e: ToolEntry,
)
    ensures
        with_runtime_tools(list, deps, include_user_question).contains(e) <==> list.contains(e) || (
        match e {
            ToolEntry::Runtime(t) => tool_wanted(deps, include_user_question, t),
            ToolEntry::AcpClient => deps.acp_client_tools is Some,
            _ => false,
        }),
{
    let s = client_support(deps);
    let b0 = !overridden(deps, "memory__get_detail"@);
    let b1 = !overridden(deps, "memory__upsert_named"@);
    let b2 = !overridden(deps, "memory__recall"@);
    let b3 = !overridden(deps, "search"@);
    let l0 = with_tool(list, b0, RuntimeTool::MemoryGetDetail);
    let l1 = with_tool(l0, b1, RuntimeTool::MemoryUpsertNamed);
    let l2 = with_tool(l1, b2, RuntimeTool::MemoryRecall);
    let l3 = with_tool(l2, b3, RuntimeTool::Search);
    let l4 = with_tool(l3, true, RuntimeTool::ToolTasks);
    let l5 = if deps.acp_client_tools is Some {
        l4.push(ToolEntry::AcpClient)
    } else {
        l4
    };
    let l6 = with_tool(l5, deps.bash_enabled && !s.terminal, RuntimeTool::Bash);
    let l7 = with_tool(l6, true, RuntimeTool::Ssh);
    let l8 = with_tool(l7, !s.fs_read, RuntimeTool::FsRead);
    let l9 = with_tool(l8, !s.fs_write, RuntimeTool::FsWrite);
    let l10 = with_tool(l9, true, RuntimeTool::ApplyPatch);
    let l11 = with_tool(l10, true, RuntimeTool::FsCreate);
    let l12 = with_tool(l11, true, RuntimeTool::FsRemove);
    let l13 = with_tool(l12, true, RuntimeTool::FsLs);
    let l14 = with_tool(l13, true, RuntimeTool::Ripgrep);
    let l15 = with_tool(l14, true, RuntimeTool::Fetch);
    let l16 = with_tool(l15, true, RuntimeTool::WebSearch);
    let l17 = with_tool(l16, true, RuntimeTool::Now);
    let l18 = with_tool(l17, true, RuntimeTool::Sleep);
    let l19 = with_tool(l18, true, RuntimeTool::ManageYourself);
    let l20 = with_tool(l19, include_user_question, RuntimeTool::AskUserQuestion);
    assert(l20 == with_runtime_tools(list, deps, include_user_question));
    lemma_with_tool(list, b0, RuntimeTool::MemoryGetDetail, e);
    lemma_with_tool(l0, b1, RuntimeTool::MemoryUpsertNamed, e);
    lemma_with_tool(l1, b2, RuntimeTool::MemoryRecall, e);
    lemma_with_tool(l2, b3, RuntimeTool::Search, e);
    lemma_with_tool(l3, true, RuntimeTool::ToolTasks, e);
    lemma_entry_pushed(l4, ToolEntry::AcpClient, e);
    lemma_with_tool(l5, deps.bash_enabled && !s.terminal, RuntimeTool::Bash, e);
    lemma_with_tool(l6, true, RuntimeTool::Ssh, e);
    lemma_with_tool(l7, !s.fs_read, RuntimeTool::FsRead, e);
    lemma_with_tool(l8, !s.fs_write, RuntimeTool::FsWrite, e);
    lemma_with_tool(l9, true, RuntimeTool::ApplyPatch, e);
    lemma_with_tool(l10, true, RuntimeTool::FsCreate, e);
    lemma_with_tool(l11, true, RuntimeTool::FsRemove, e);
    lemma_with_tool(l12, true, RuntimeTool::FsLs, e);
    lemma_with_tool(l13, true, RuntimeTool::Ripgrep, e);
    lemma_with_tool(l14, true, RuntimeTool::Fetch, e);
    lemma_with_tool(l15, true, RuntimeTool::WebSearch, e);
    lemma_with_tool(l16, true, RuntimeTool::Now, e);
    lemma_with_tool(l17, true, RuntimeTool::Sleep, e);
    lemma_with_tool(l18, true, RuntimeTool::ManageYourself, e);
    lemma_with_tool(l19, include_user_question, RuntimeTool::AskUserQuestion, e);
}

/// A registry holds the tools of the runtime that are wanted, and what it held; the
/// tools of an ACP client where there is one.
pub proof fn the_tools_that_are_wanted_are_there(
    list: Seq<ToolEntry>,
    deps: LocalToolDeps,
    include_user_question: bool,
    tool: RuntimeTool,
)
    ensures
        with_runtime_tools(list, deps, include_user_question).contains(ToolEntry::Runtime(tool))
            <==> list.contains(ToolEntry::Runtime(tool)) || tool_wanted(
            deps,
            include_user_question,
            tool,
        ),
        with_runtime_tools(list, deps, include_user_question).contains(ToolEntry::AcpClient)
            <==> list.contains(ToolEntry::AcpClient) || deps.acp_client_tools is Some,
{
    lemma_runtime_tools(list, deps, include_user_question, ToolEntry::Runtime(tool));
    lemma_runtime_tools(list, deps, include_user_question, ToolEntry::AcpClient);
}

/// The model is told of the tools that are enabled, each by name and description, in
/// their order.
pub proof fn enabled_tools_are_defined(tools: Seq<ToolDefinition>)
    ensures
        definitions(tools) == tools.filter(|t: ToolDefinition| t.enabled).map_values(
            |t: ToolDefinition| (t.name@, t.description@),
        ),
    decreases tools.len(),
{
    let on = |t: ToolDefinition| t.enabled;
    let told = |t: ToolDefinition| (t.name@, t.description@);
    if tools.len() > 0 {
        enabled_tools_are_defined(tools.drop_last());
        lemma_filter_last(tools, on);
    } else {
        lemma_filter_none(tools, on);
    }
    assert(definitions(tools) =~= tools.filter(on).map_values(told));
}

/// The tools that are listed are those that the agent may use, in their order: all
/// where nothing is said about it, and else those on its list.
pub proof fn permitted_tools_are_listed(
    tools: Seq<(Seq<char>, Seq<char>)>,
    allowlist: Option<Seq<Seq<char>>>,
)
    ensures
        allowlist is None ==> listed_tools(tools, allowlist) == tools,
        allowlist matches Some(list) ==> listed_tools(tools, allowlist) == tools.filter(
            |t: (Seq<char>, Seq<char>)| list.contains(t.0),
        ),
    decreases tools.len(),
{
    if tools.len() > 0 {
        permitted_tools_are_listed(tools.drop_last(), allowlist);
    }
    match allowlist {
        None => {
            assert(listed_tools(tools, allowlist) =~= tools);
        },
        Some(list) => {
            let may = |t: (Seq<char>, Seq<char>)| list.contains(t.0);
            if tools.len() > 0 {
                lemma_filter_last(tools, may);
            } else {
                lemma_filter_none(tools, may);
            }
            assert(listed_tools(tools, allowlist) =~= tools.filter(may));
        },
    }
}

proof fn lemma_status_on(
    agent: AgentTools,
    around: ToolSurroundings,
    tools: Seq<(Seq<char>, Seq<char>)>,
    name: Seq<char>,
)
    ensures
        value_of(statuses_on(agent, around, tools), name) is Some <==> exists|i: int|
            0 <= i < tools.len() && (#[trigger] tools[i]).0 == name,
        value_of(statuses_on(agent, around, tools), name) matches Some(s) ==> {
            &&& s.registered && s.enabled
            &&& s.in_active_allowlist == permitted(option_texts(agent.tool_allowlist), name)
            &&& s.errors == unusable(name, around)
            &&& s.warnings == warnings_of(name, around.exa_api_key)
        },
    decreases tools.len(),
{
    if tools.len() > 0 {
        let head = tools.drop_last();
        let known = statuses_on(agent, around, head);
        let last = tools.last();
        lemma_status_on(agent, around, head, name);
        lemma_statuses_named(agent, around, head);
        set_value_is_read_back(known, last.0, status_on(agent, around, last), name);
        assert(tools[tools.len() - 1] == last);
        if exists|i: int| 0 <= i < head.len() && (#[trigger] head[i]).0 == name {
            let i = choose|i: int| 0 <= i < head.len() && (#[trigger] head[i]).0 == name;
            assert(tools[i].0 == name);
        }
        if exists|i: int| 0 <= i < tools.len() && (#[trigger] tools[i]).0 == name {
            let i = choose|i: int| 0 <= i < tools.len() && (#[trigger] tools[i]).0 == name;
            if i < head.len() {
                assert(head[i].0 == name);
            }
        }
    }
}

proof fn lemma_status_catalog(
    known: Seq<(Seq<char>, StatusView)>,
    agent: AgentTools,
    around: ToolSurroundings,
    tools: Seq<(Seq<char>, Seq<char>)>,
    name: Seq<char>,
)
    requires
        keys_ordered(known),
        named_rightly(known),
    ensures
        value_of(known, name) is Some ==> value_of(with_catalog(known, agent, around, tools), name)
            == value_of(known, name),
        value_of(known, name) is None ==> {
            let s = value_of(with_catalog(known, agent, around, tools), name);
            &&& s is Some <==> exists|i: int| 0 <= i < tools.len() && (#[trigger] tools[i]).0 == name
            &&& s is Some ==> s->0.registered == has_tool(agent, name)
            &&& s is Some ==> s->0.in_active_allowlist == permitted(
                option_texts(agent.tool_allowlist),
                name,
            )
        },
    decreases tools.len(),
{
    if tools.len() > 0 {
        let rest = tools.drop_last();
        let head = with_catalog(known, agent, around, rest);
        let last = tools.last();
        lemma_status_catalog(known, agent, around, rest, name);
        lemma_status_catalog(known, agent, around, rest, last.0);
        lemma_catalog_named(known, agent, around, rest);
        set_value_is_read_back(head, last.0, status_off(agent, around, last), name);
        assert(tools[tools.len() - 1] == last);
        if exists|i: int| 0 <= i < rest.len() && (#[trigger] rest[i]).0 == name {
            let i = choose|i: int| 0 <= i < rest.len() && (#[trigger] rest[i]).0 == name;
            assert(tools[i].0 == name);
        }
        if exists|i: int| 0 <= i < tools.len() && (#[trigger] tools[i]).0 == name {
            let i = choose|i: int| 0 <= i < tools.len() && (#[trigger] tools[i]).0 == name;
            if i < rest.len() {
                assert(rest[i].0 == name);
            }
        }
    }
}

/// What is said of a tool: one that the model is told of is registered and enabled,
/// with what makes it unusable; one that the catalog lists is told of in any case,
/// as registered where the agent has it; one that is configured and missing is not.
/// Of each is said whether the agent may use it.
pub proof fn every_tool_is_told_of(agent: AgentTools, around: ToolSurroundings, name: Seq<char>)
    ensures
        ({
            let s = value_of(all_statuses(agent, around), name);
            let told = exists|i: int|
                0 <= i < definitions(all_tools(agent)).len() && (#[trigger] definitions(
                    all_tools(agent),
                )[i]).0 == name;
            let listed = exists|i: int|
                0 <= i < catalog().len() && (#[trigger] catalog()[i]).0 == name;
            let missing = match around.missing_acp_tool {
                Some((n, _)) => n@ == name,
                None => false,
            };
            &&& s is Some <==> told || listed || missing
            &&& s is Some ==> s->0.in_active_allowlist == permitted(
                option_texts(agent.tool_allowlist),
                name,
            )
            &&& missing ==> !s->0.registered && !s->0.enabled
            &&& told && !missing ==> s->0.registered && s->0.enabled && s->0.errors == unusable(
                name,
                around,
            )
            &&& listed && !told && !missing ==> s->0.registered == has_tool(agent, name)
        }),
{
    let on = statuses_on(agent, around, definitions(all_tools(agent)));
    let all = with_catalog(on, agent, around, catalog());
    lemma_statuses_named(agent, around, definitions(all_tools(agent)));
    lemma_catalog_named(on, agent, around, catalog());
    lemma_status_on(agent, around, definitions(all_tools(agent)), name);
    lemma_status_catalog(on, agent, around, catalog(), name);
    if around.missing_acp_tool is Some {
        let missing = match around.missing_acp_tool {
            Some((n, _)) => n@,
            None => Seq::empty(),
        };
        let description = match around.missing_acp_tool {
            Some((_, d)) => d@,
            None => Seq::empty(),
        };
        let put = match value_of(all, missing) {
            Some(s) => StatusView {
                registered: false,
                enabled: false,
                errors: absence_of(missing, false),
                ..s
            },
            None => StatusView {
                name: missing,
                description,
                registered: false,
                enabled: false,
                in_active_allowlist: permitted(option_texts(agent.tool_allowlist), missing),
                warnings: Seq::empty(),
                errors: absence_of(missing, false),
            },
        };
        assert(all_statuses(agent, around) == with_value(all, missing, put));
        set_value_is_read_back(all, missing, put, name);
        lemma_status_on(agent, around, definitions(all_tools(agent)), missing);
        lemma_status_catalog(on, agent, around, catalog(), missing);
    }
}

/// A tool that lacks what it calls is said to be unusable, and only such a one.
pub proof fn lacking_tools_are_unusable(name: Seq<char>, around: ToolSurroundings)
    ensures
        unusable(name, around).len() > 0 <==> (name == "ssh"@ && !around.ssh) || (name == "rg"@
            && !around.rg),
        warnings_of(name, around.exa_api_key).len() > 0 <==> !around.exa_api_key && (name
            == "search"@ || name == "web_search"@),
        absence_of(name, true).len() == 0,
        absence_of("bash"@, false).len() > 0,
        absence_of("codex"@, false).len() > 0,
{
}

/// A tool of the runtime gives way to one of the host of the same name that may stand
/// in its place, and to no other.
pub proof fn only_the_hosts_own_tools_take_a_place(deps: LocalToolDeps, name: Seq<char>, i: int)
    ensures
        0 <= i < deps.host_tools@.len() && deps.host_tools@[i].name@ == name
            && deps.host_tools@[i].allows_builtin_override ==> overridden(deps, name),
        (forall|j: int| 0 <= j < deps.host_tools@.len() ==> (#[trigger] deps.host_tools@[j]).name@
            != name) ==> !overridden(deps, name),
        (forall|j: int|
            0 <= j < deps.host_tools@.len() ==> !(#[trigger] deps.host_tools@[j]).allows_builtin_override)
            ==> !overridden(deps, name),
{
}

} // verus!
