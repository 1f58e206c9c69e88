//! How a bot is put together.
use vstd::prelude::*;
use vstd::string::*;

use crate::json::{JsonMap, JsonView};
use crate::message::{copy_option_text, option_text};
use crate::paths::{join_path, joined_path};
use crate::profile::{
    agent_view, copy_texts, AgentModelBindings, AgentProfile, AgentView, BindingsView,
    ModelProfileConfig, ModelProfileRegistry, ModelView,
};
use crate::runtime::budget::{compaction_budget, memory_compaction_budget_tokens};
use crate::runtime::delegates::{
    agent_tool_allowlist, allowed_tools, noticed, system_prompt_with_agent_md_notice,
    the_notice_is_given_where_it_is_due,
};
use crate::runtime::effective::{
    every_effort_has_its_variant, model_runtime_variants, named, named_text, runtime_variants, variant_views, EffortOptions,
    ModelRuntimeVariant, VariantView,
};
use crate::runtime::lowering::{
    auto_compress_context_percent, build_inner_agent, counted, counts_are_read_as_written, first_setting, provider_of, says_not_a_number,
    setting, tool_output_overflow_bytes_from_env, InnerAgent,
};
use crate::runtime::options::{said, said_text};
use crate::runtime::tools::AcpClientToolSupport;
use crate::sandbox::config::{sandbox_of, BashMode, SandboxConfig, SandboxSettings, SandboxView};
use crate::sandbox::shell::{all_digits, digits_value, numbers_are_read_as_written};
use crate::text::{
    ascii_digit, chars_of, decimal, is_blank, option_texts, str_eq, texts, trimmed,
    trimming_cuts_only_white,
};
use crate::text_map::{
    keys_ordered, lemma_seen_value_of, lemma_seen_with_value, lemma_set_value_is_there, seen,
    set_value_is_read_back, setting_keeps_order, value_of, with_value, TextMap,
};

verus! {

broadcast use vstd::string::group_string_axioms;

pub const DEFAULT_AGENT_ID: &'static str = "default";

/// How long memories stay near, in days, where nothing else is set.
pub const DEFAULT_MEMORY_DAYS: u64 = 7;

// --------------------------------------------------------------------- builder

/// What a bot is put together from.
#[derive(Debug)]
pub struct CatBotBuilder {
    pub api_key: String,
    pub model_profile: ModelProfileConfig,
    pub runtime_model_locked: bool,
    pub system: String,
    pub skills_dir: String,
    pub data_dir: String,
    pub agent_md_path: Option<String>,
    pub overflow_bytes: Option<usize>,
    pub memory_days: u64,
    pub sandbox_config: SandboxConfig,
    /// Whether files can be fetched from the chat.
    pub im_bridge: bool,
    pub extra_options: JsonMap,
    pub tool_allowlist: Option<Vec<String>>,
    pub delegate_ids: Vec<String>,
    pub active_agent_id: String,
    pub model_bindings: AgentModelBindings,
    pub approval_model_profile_id: Option<String>,
    pub agents_dir: String,
    pub max_turns: Option<usize>,
    pub model_registry: ModelProfileRegistry,
    pub acp_client_tools: Option<AcpClientToolSupport>,
}

pub struct BuilderView {
    pub api_key: Seq<char>,
    pub model_profile: ModelView,
    pub runtime_model_locked: bool,
    pub system: Seq<char>,
    pub skills_dir: Seq<char>,
    pub data_dir: Seq<char>,
    pub agent_md_path: Option<Seq<char>>,
    pub overflow_bytes: Option<usize>,
    pub memory_days: u64,
    pub sandbox_config: SandboxView,
    pub im_bridge: bool,
    pub extra_options: Seq<(Seq<char>, JsonView)>,
    pub tool_allowlist: Option<Seq<Seq<char>>>,
    pub delegate_ids: Seq<Seq<char>>,
    pub active_agent_id: Seq<char>,
    pub model_bindings: BindingsView,
    pub approval_model_profile_id: Option<Seq<char>>,
    pub agents_dir: Seq<char>,
    pub max_turns: Option<usize>,
    pub model_registry: Seq<(Seq<char>, ModelView)>,
    pub acp_client_tools: Option<AcpClientToolSupport>,
}

impl View for CatBotBuilder {
    type V = BuilderView;

    open spec fn view(&self) -> BuilderView {
        BuilderView {
            api_key: self.api_key@,
            model_profile: self.model_profile@,
            runtime_model_locked: self.runtime_model_locked,
            system: self.system@,
            skills_dir: self.skills_dir@,
            data_dir: self.data_dir@,
            agent_md_path: option_text(self.agent_md_path),
            overflow_bytes: self.overflow_bytes,
            memory_days: self.memory_days,
            sandbox_config: self.sandbox_config@,
            im_bridge: self.im_bridge,
            extra_options: self.extra_options@,
            tool_allowlist: option_texts(self.tool_allowlist),
            delegate_ids: texts(self.delegate_ids@),
            active_agent_id: self.active_agent_id@,
            model_bindings: self.model_bindings@,
            approval_model_profile_id: option_text(self.approval_model_profile_id),
            agents_dir: self.agents_dir@,
            max_turns: self.max_turns,
            model_registry: self.model_registry@,
            acp_client_tools: self.acp_client_tools,
        }
    }
}

impl CatBotBuilder {
    pub fn system(self, s: String) -> (r: CatBotBuilder)
        ensures
            r@ == (BuilderView { system: s@, ..self@ }),
    {
        let mut b = self;
        b.system = s;
        b
    }

    pub fn skills_dir(self, dir: String) -> (r: CatBotBuilder)
        ensures
            r@ == (BuilderView { skills_dir: dir@, ..self@ }),
    {
        let mut b = self;
        b.skills_dir = dir;
        b
    }

    pub fn data_dir(self, dir: String) -> (r: CatBotBuilder)
        ensures
            r@ == (BuilderView { data_dir: dir@, ..self@ }),
    {
        let mut b = self;
        b.data_dir = dir;
        b
    }

    /// Sets the size from which a tool's output is cut, in place of the one
    /// that goes with the model.
    pub fn overflow_bytes(self, n: usize) -> (r: CatBotBuilder)
        ensures
            r@ == (BuilderView { overflow_bytes: Some(n), ..self@ }),
    {
        let mut b = self;
        b.overflow_bytes = Some(n);
        b
    }

    pub fn im_bridge(self) -> (r: CatBotBuilder)
        ensures
            r@ == (BuilderView { im_bridge: true, ..self@ }),
    {
        let mut b = self;
        b.im_bridge = true;
        b
    }

    pub fn approval_model_profile(self, profile_id: String) -> (r: CatBotBuilder)
        ensures
            r@ == (BuilderView { approval_model_profile_id: Some(profile_id@), ..self@ }),
    {
        let mut b = self;
        b.approval_model_profile_id = Some(profile_id);
        b
    }

    pub fn acp_client_tools(self, support: AcpClientToolSupport) -> (r: CatBotBuilder)
        ensures
            r@ == (BuilderView { acp_client_tools: Some(support), ..self@ }),
    {
        let mut b = self;
        b.acp_client_tools = Some(support);
        b
    }
}

/// The model of an agent: the one that its profile names, with the name and the
/// address that the profile gives; where the model is locked, the one at hand.
pub open spec fn adopted_model(b: BuilderView, p: AgentView) -> Result<ModelView, Seq<char>> {
    if b.runtime_model_locked {
        Ok(b.model_profile)
    } else {
        let base = match p.models.primary {
            Some(id) => match value_of(b.model_registry, id) {
                Some(m) => Ok(m),
                None => Err(
                    "agent `"@ + p.id + "` references unknown model profile `"@ + id + "`"@,
                ),
            },
            None => Ok(b.model_profile),
        };
        match base {
            Err(e) => Err(e),
            Ok(m) => Ok(
                ModelView {
                    model: match said(p.model) {
                        Some(name) => name,
                        None => m.model,
                    },
                    base_url: match said(p.base_url) {
                        Some(url) => Some(url),
                        None => m.base_url,
                    },
                    ..m
                },
            ),
        }
    }
}

/// A builder that has taken over an agent's profile.
pub open spec fn adopted(b: BuilderView, p: AgentView) -> Result<BuilderView, Seq<char>> {
    match adopted_model(b, p) {
        Err(e) => Err(e),
        Ok(model) => Ok(
            BuilderView {
                model_profile: model,
                model_bindings: p.models,
                active_agent_id: p.id,
                system: p.system_prompt,
                tool_allowlist: Some(allowed_tools(p.tools, p.delegates)),
                delegate_ids: p.delegates,
                max_turns: p.max_turns,
                ..b
            },
        ),
    }
}

impl CatBotBuilder {
    fn adopt_model(&self, profile: &AgentProfile) -> (r: Result<ModelProfileConfig, String>)
        ensures
            match adopted_model(self@, profile@) {
                Ok(m) => r is Ok && r->Ok_0@ == m,
                Err(e) => r is Err && r->Err_0@ == e,
            },
    {
        if self.runtime_model_locked {
            return Ok(self.model_profile.copy());
        }
        let mut model = match &profile.models.primary {
            Some(id) => match self.model_registry.get(id) {
                Some(m) => m.copy(),
                None => {
                    let mut e = "agent `".to_owned();
                    e.push_str(&profile.id);
                    e.push_str("` references unknown model profile `");
                    e.push_str(id);
                    e.push_str("`");
                    return Err(e);
                },
            },
            None => self.model_profile.copy(),
        };
        if let Some(name) = said_text(&profile.model) {
            model.model = name;
        }
        if let Some(url) = said_text(&profile.base_url) {
            model.base_url = Some(url);
        }
        Ok(model)
    }

    /// Takes over an agent's profile.
    pub fn agent_profile(self, profile: AgentProfile) -> (r: Result<CatBotBuilder, String>)
        ensures
            match adopted(self@, profile@) {
                Ok(b) => r is Ok && r->Ok_0@ == b,
                Err(e) => r is Err && r->Err_0@ == e,
            },
    {
        let model = match self.adopt_model(&profile) {
            Ok(m) => m,
            Err(e) => return Err(e),
        };
        let tools = agent_tool_allowlist(&profile);
        let mut b = self;
        b.model_profile = model;
        b.tool_allowlist = Some(tools);
        b.model_bindings = profile.models;
        b.active_agent_id = profile.id;
        b.system = profile.system_prompt;
        b.delegate_ids = profile.delegates;
        b.max_turns = profile.max_turns;
        Ok(b)
    }
}

/// Where the model is locked, no profile changes it.
pub proof fn a_locked_model_stays(b: BuilderView, p: AgentView)
    requires
        b.runtime_model_locked,
    ensures
        adopted(b, p) is Ok,
        adopted(b, p)->Ok_0.model_profile == b.model_profile,
{
}

// ----------------------------------------------------------------- environment

/// What the environment says of the bot.
#[derive(Debug)]
pub struct BuilderEnvironment {
    /// `REMI_MEMORY_DAYS`.
    pub memory_days: Option<String>,
    /// `REMI_TOOL_OUTPUT_OVERFLOW_BYTES`.
    pub overflow_bytes: Option<String>,
    /// `REMI_OVERFLOW_BYTES`.
    pub older_overflow_bytes: Option<String>,
    /// `REMI_SHELL_MODE`.
    pub shell_mode: Option<String>,
    /// `REMI_BASH_MODE`.
    pub bash_mode: Option<String>,
    /// `AGENT_MD_PATH`.
    pub agent_md_path: Option<String>,
    /// `REMI_DATA_DIR`.
    pub data_dir: Option<String>,
    /// `REMI_MODEL_PROFILE`.
    pub model_profile: Option<String>,
    /// `REMI_APPROVAL_MODEL_PROFILE`.
    pub approval_model_profile: Option<String>,
    /// `REMI_AGENT_ID`.
    pub agent_id: Option<String>,
    /// `REMI_AGENTS_DIR`.
    pub agents_dir: Option<String>,
    pub sandbox: SandboxSettings,
}

/// The model that the environment selects, with the key to reach it.
#[derive(Debug)]
pub struct ResolvedModel {
    pub profile: ModelProfileConfig,
    pub extra_options: JsonMap,
    pub api_key: String,
}

/// The number that a text stands for, as far as 64 bits hold it.
pub open spec fn days_in(s: Seq<char>) -> Option<nat> {
    let digits = if s.len() > 0 && s[0] == '+' {
        s.skip(1)
    } else {
        s
    };
    if digits.len() > 0 && all_digits(digits) && digits_value(digits) <= u64::MAX {
        Some(digits_value(digits))
    } else {
        None
    }
}

proof fn lemma_value_grows(s: Seq<char>, k: int)
    requires
        0 <= k <= s.len(),
        all_digits(s),
    ensures
        digits_value(s.take(k)) <= digits_value(s),
    decreases s.len(),
{
    if k < s.len() {
        let head = s.drop_last();
        assert(all_digits(head)) by {
            assert forall|i: int| 0 <= i < head.len() implies crate::text::ascii_digit(
                #[trigger] head[i],
            ) by {
                assert(s[i] == head[i]);
            }
        }
        lemma_value_grows(head, k);
        assert(head.take(k) =~= s.take(k));
    } else {
        assert(s.take(k) =~= s);
    }
}

/// Reads a number of 64 bits.
pub fn parse_days(s: &str) -> (r: Option<u64>)
    ensures
        match r {
            Some(n) => days_in(s@) == Some(n as nat),
            None => days_in(s@) is None,
        },
{
    let chars = chars_of(s);
    let start: usize = if chars.len() > 0 && chars[0] == '+' {
        1
    } else {
        0
    };
    let ghost digits = if s@.len() > 0 && s@[0] == '+' {
        s@.skip(1)
    } else {
        s@
    };
    assert(digits =~= chars@.skip(start as int));
    if start == chars.len() {
        return None;
    }
    let mut value: u64 = 0;
    let mut i: usize = start;
    assert(digits.take(0) =~= Seq::empty());
    while i < chars.len()
        invariant
            start <= i <= chars.len(),
            chars@ == s@,
            digits == (if s@.len() > 0 && s@[0] == '+' {
                s@.skip(1)
            } else {
                s@
            }),
            digits == chars@.skip(start as int),
            value == digits_value(digits.take(i - start)),
            all_digits(digits.take(i - start)),
        decreases chars.len() - i,
    {
        let c = chars[i];
        assert(c == digits[i - start]);
        if c < '0' || c > '9' {
            assert(!crate::text::ascii_digit(digits[i - start]));
            return None;
        }
        let ghost now = digits.take(i - start + 1);
        assert(now.drop_last() =~= digits.take(i - start));
        assert(all_digits(now)) by {
            assert forall|j: int| 0 <= j < now.len() implies crate::text::ascii_digit(
                #[trigger] now[j],
            ) by {
                if j < now.len() - 1 {
                    assert(digits.take(i - start)[j] == now[j]);
                }
            }
        }
        let digit: u64 = (c as u32 - '0' as u32) as u64;
        proof {
            if all_digits(digits) {
                lemma_value_grows(digits, i - start + 1);
            }
        }
        value = match value.checked_mul(10) {
            Some(v) => match v.checked_add(digit) {
                Some(v) => v,
                None => return None,
            },
            None => return None,
        };
        i += 1;
    }
    assert(digits.take(i - start) =~= digits);
    Some(value)
}

/// Where commands run when nothing else is said: here where the setting says
/// just that.
pub open spec fn mode_of(shell_mode: Option<Seq<char>>, bash_mode: Option<Seq<char>>) -> BashMode {
    let mode = match shell_mode {
        Some(m) => Some(m),
        None => bash_mode,
    };
    if mode == Some("local"@) {
        BashMode::Local
    } else {
        BashMode::Docker
    }
}

fn bash_mode_of(shell_mode: &Option<String>, bash_mode: &Option<String>) -> (r: BashMode)
    ensures
        r == mode_of(option_text(*shell_mode), option_text(*bash_mode)),
{
    let mode = match shell_mode {
        Some(m) => Some(m),
        None => match bash_mode {
            Some(m) => Some(m),
            None => None,
        },
    };
    match mode {
        Some(m) => if str_eq(m, "local") {
            BashMode::Local
        } else {
            BashMode::Docker
        },
        None => BashMode::Docker,
    }
}

pub open spec fn text_or(value: Option<String>, other: Seq<char>) -> Seq<char> {
    match value {
        Some(v) => v@,
        None => other,
    }
}

fn or_text(value: &Option<String>, other: &str) -> (r: String)
    ensures
        r@ == text_or(*value, other@),
{
    match value {
        Some(v) => v.clone(),
        None => other.to_owned(),
    }
}

/// What the environment describes, before an agent's profile is taken over.
pub open spec fn described(
    env: BuilderEnvironment,
    overflow: Option<usize>,
    resolved: ResolvedModel,
    registry: Seq<(Seq<char>, ModelView)>,
    system: Seq<char>,
) -> BuilderView {
    let data_dir = text_or(env.data_dir, ".remi-cat"@);
    BuilderView {
        api_key: resolved.api_key@,
        model_profile: resolved.profile@,
        runtime_model_locked: match env.model_profile {
            Some(v) => trimmed(v@).len() > 0,
            None => false,
        },
        system,
        skills_dir: joined_path(data_dir, "skills"@),
        data_dir,
        agent_md_path: option_text(env.agent_md_path),
        overflow_bytes: overflow,
        memory_days: match env.memory_days {
            Some(s) => match days_in(s@) {
                Some(n) => n as u64,
                None => DEFAULT_MEMORY_DAYS,
            },
            None => DEFAULT_MEMORY_DAYS,
        },
        sandbox_config: sandbox_of(
            data_dir,
            mode_of(option_text(env.shell_mode), option_text(env.bash_mode)),
            env.sandbox,
        ),
        im_bridge: false,
        extra_options: resolved.extra_options@,
        tool_allowlist: None,
        delegate_ids: Seq::empty(),
        active_agent_id: DEFAULT_AGENT_ID@,
        model_bindings: BindingsView { primary: None, helper: None, vision: None },
        approval_model_profile_id: named_text(option_text(env.approval_model_profile)),
        agents_dir: text_or(env.agents_dir, joined_path(data_dir, "agents"@)),
        max_turns: None,
        model_registry: registry,
        acp_client_tools: None,
    }
}

/// The profile of the agent that the environment asks for, where there is one.
pub open spec fn asked_agent(env: BuilderEnvironment, agents: Seq<(Seq<char>, AgentView)>) -> Option<
    AgentView,
> {
    value_of(agents, text_or(env.agent_id, DEFAULT_AGENT_ID@))
}

/// Whether a size that is set cannot be used, and what is said then.
pub open spec fn overflow_refused(env: BuilderEnvironment, message: Seq<char>) -> bool {
    match first_setting(
        option_text(env.overflow_bytes),
        option_text(env.older_overflow_bytes),
    ) {
        Some((key, raw)) => match counted(raw) {
            Some(n) => n == 0 && message == key + " must be greater than 0"@,
            None => says_not_a_number(message, key, raw),
        },
        None => false,
    }
}

/// The size from which a tool's output is cut, where one is set.
pub open spec fn overflow_set(env: BuilderEnvironment) -> Option<usize> {
    match first_setting(
        option_text(env.overflow_bytes),
        option_text(env.older_overflow_bytes),
    ) {
        Some((key, raw)) => match counted(raw) {
            Some(n) => Some(n as usize),
            None => None,
        },
        None => None,
    }
}

/// Whether the sizes that are set can be used.
pub open spec fn overflow_usable(env: BuilderEnvironment) -> bool {
    match first_setting(
        option_text(env.overflow_bytes),
        option_text(env.older_overflow_bytes),
    ) {
        Some((key, raw)) => counted(raw) is Some && counted(raw)->0 > 0,
        None => true,
    }
}

impl CatBotBuilder {
    /// What the environment describes. `agents` are the profiles that there
    /// are; none where they could not be loaded.
    pub fn from_env(
        env: &BuilderEnvironment,
        resolved: ResolvedModel,
        registry: ModelProfileRegistry,
        default_system: String,
        agents: &TextMap<AgentProfile>,
    ) -> (r: Result<CatBotBuilder, String>)
        ensures
            if !overflow_usable(*env) {
                r is Err && overflow_refused(*env, r->Err_0@)
            } else {
                let base = described(
                    *env,
                    overflow_set(*env),
                    resolved,
                    registry@,
                    default_system@,
                );
                match asked_agent(*env, seen(agents@, agent_view())) {
                    None => r is Ok && r->Ok_0@ == base,
                    Some(p) => match adopted(base, p) {
                        Ok(b) => r is Ok && r->Ok_0@ == b,
                        Err(e) => r is Err && r->Err_0@ == e,
                    },
                }
            },
    {
        let memory_days: u64 = match &env.memory_days {
            Some(s) => match parse_days(s) {
                Some(n) => n,
                None => DEFAULT_MEMORY_DAYS,
            },
            None => DEFAULT_MEMORY_DAYS,
        };
        let overflow_bytes = match tool_output_overflow_bytes_from_env(
            &env.overflow_bytes,
            &env.older_overflow_bytes,
        ) {
            Ok(o) => o,
            Err(e) => return Err(e),
        };
        let bash_mode = bash_mode_of(&env.shell_mode, &env.bash_mode);
        let data_dir = or_text(&env.data_dir, ".remi-cat");
        let sandbox_config = SandboxConfig::from_env(&data_dir, bash_mode, &env.sandbox);
        let runtime_model_locked = match &env.model_profile {
            Some(v) => !is_blank(v),
            None => false,
        };
        let delegate_ids: Vec<String> = Vec::new();
        assert(texts(delegate_ids@) =~= Seq::<Seq<char>>::empty());
        let builder = CatBotBuilder {
            api_key: resolved.api_key,
            model_profile: resolved.profile,
            runtime_model_locked,
            system: default_system,
            skills_dir: join_path(&data_dir, "skills"),
            agents_dir: or_text(&env.agents_dir, &join_path(&data_dir, "agents")),
            data_dir,
            agent_md_path: copy_option_text(&env.agent_md_path),
            overflow_bytes,
            memory_days,
            sandbox_config,
            im_bridge: false,
            extra_options: resolved.extra_options,
            tool_allowlist: None,
            delegate_ids,
            active_agent_id: DEFAULT_AGENT_ID.to_owned(),
            model_bindings: AgentModelBindings { primary: None, helper: None, vision: None },
            approval_model_profile_id: named(&env.approval_model_profile),
            max_turns: None,
            model_registry: registry,
            acp_client_tools: None,
        };
        let agent_id = or_text(&env.agent_id, DEFAULT_AGENT_ID);
        proof {
            lemma_seen_value_of(agents@, agent_view(), agent_id@);
        }
        match agents.get(&agent_id) {
            Some(p) => builder.agent_profile(p.copy()),
            None => Ok(builder),
        }
    }
}

// -------------------------------------------------------------------- runtimes

/// An agent with a model, as it is run.
#[derive(Debug)]
pub struct AgentRuntime {
    pub agent_id: String,
    pub system_prompt: String,
    pub max_turns: Option<usize>,
    pub profile: ModelProfileConfig,
    pub extra_options: JsonMap,
    pub api_key: String,
    pub overflow_bytes: usize,
    pub tool_allowlist: Option<Vec<String>>,
    pub delegate_ids: Vec<String>,
}

pub struct RuntimeView {
    pub agent_id: Seq<char>,
    pub system_prompt: Seq<char>,
    pub max_turns: Option<usize>,
    pub profile: ModelView,
    pub extra_options: Seq<(Seq<char>, JsonView)>,
    pub api_key: Seq<char>,
    pub overflow_bytes: usize,
    pub tool_allowlist: Option<Seq<Seq<char>>>,
    pub delegate_ids: Seq<Seq<char>>,
}

impl View for AgentRuntime {
    type V = RuntimeView;

    open spec fn view(&self) -> RuntimeView {
        RuntimeView {
            agent_id: self.agent_id@,
            system_prompt: self.system_prompt@,
            max_turns: self.max_turns,
            profile: self.profile@,
            extra_options: self.extra_options@,
            api_key: self.api_key@,
            overflow_bytes: self.overflow_bytes,
            tool_allowlist: option_texts(self.tool_allowlist),
            delegate_ids: texts(self.delegate_ids@),
        }
    }
}

pub open spec fn runtime_view() -> spec_fn(AgentRuntime) -> RuntimeView {
    |r: AgentRuntime| r@
}

pub open spec fn runtimes_view() -> spec_fn(TextMap<AgentRuntime>) -> Seq<(Seq<char>, RuntimeView)> {
    |m: TextMap<AgentRuntime>| seen(m@, runtime_view())
}

impl AgentRuntime {
    /// The loop that runs the agent.
    pub fn inner_agent(&self) -> (r: InnerAgent)
        ensures
            r.client.kind == provider_of(self.profile),
            r.client.api_key@ == self.api_key@,
            r.client.base_url == self.profile.base_url,
            r.client.supports_multimodal == self.profile.supports_images,
            r.model@ == self.profile.model@,
            r.max_tokens == self.profile.max_output_tokens,
            r.system@ == self.system_prompt@,
            r.max_turns == (match self.max_turns {
                Some(n) => n,
                None => usize::MAX,
            }),
            self.extra_options@.len() > 0 ==> r.extra_options is Some && r.extra_options->0@
                == self.extra_options@,
            self.extra_options@.len() == 0 ==> r.extra_options is None,
    {
        build_inner_agent(
            &self.api_key,
            &self.profile,
            self.system_prompt.clone(),
            self.max_turns,
            self.extra_options.copy(),
        )
    }
}

/// What an agent runs with, whatever its model.
#[derive(Debug)]
pub struct AgentPart {
    pub agent_id: String,
    pub system_prompt: String,
    pub max_turns: Option<usize>,
    pub overflow_bytes: Option<usize>,
    pub tool_allowlist: Option<Vec<String>>,
    pub delegate_ids: Vec<String>,
}

pub struct PartView {
    pub agent_id: Seq<char>,
    pub system_prompt: Seq<char>,
    pub max_turns: Option<usize>,
    pub overflow_bytes: Option<usize>,
    pub tool_allowlist: Option<Seq<Seq<char>>>,
    pub delegate_ids: Seq<Seq<char>>,
}

impl View for AgentPart {
    type V = PartView;

    open spec fn view(&self) -> PartView {
        PartView {
            agent_id: self.agent_id@,
            system_prompt: self.system_prompt@,
            max_turns: self.max_turns,
            overflow_bytes: self.overflow_bytes,
            tool_allowlist: option_texts(self.tool_allowlist),
            delegate_ids: texts(self.delegate_ids@),
        }
    }
}

/// The key for a model; an empty one where there is none.
pub open spec fn key_of(keys: Seq<(Seq<char>, String)>, id: Seq<char>) -> Seq<char> {
    match value_of(keys, id) {
        Some(k) => k@,
        None => Seq::empty(),
    }
}

/// The key for a model; an empty one where there is none, so that requests to
/// the model fail until it has one.
pub fn runtime_api_key_for_profile(keys: &TextMap<String>, profile: &ModelProfileConfig) -> (r: String)
    ensures
        r@ == key_of(keys@, profile.id@),
{
    match keys.get(&profile.id) {
        Some(k) => k.clone(),
        None => {
            let none = String::new();
            assert(none@ =~= Seq::<char>::empty());
            none
        },
    }
}

/// An agent with a model in one of its variants.
pub open spec fn runtime_of(part: PartView, variant: VariantView, key: Seq<char>) -> RuntimeView {
    RuntimeView {
        agent_id: part.agent_id,
        system_prompt: part.system_prompt,
        max_turns: part.max_turns,
        profile: variant.profile,
        extra_options: variant.extra_options,
        api_key: key,
        overflow_bytes: match part.overflow_bytes {
            Some(n) => n,
            None => variant.profile.overflow_bytes,
        },
        tool_allowlist: part.tool_allowlist,
        delegate_ids: part.delegate_ids,
    }
}

/// An agent with all models but the one that is given, by the keys of the
/// variants.
pub open spec fn runtimes_of(
    part: PartView,
    variants: Seq<VariantView>,
    keys: Seq<(Seq<char>, String)>,
    but: Option<Seq<char>>,
) -> Seq<(Seq<char>, RuntimeView)>
    decreases variants.len(),
{
    if variants.len() == 0 {
        Seq::empty()
    } else {
        let head = runtimes_of(part, variants.drop_last(), keys, but);
        let v = variants.last();
        if but == Some(v.profile.id) && v.key == v.profile.id {
            head
        } else {
            with_value(head, v.key, runtime_of(part, v, key_of(keys, v.profile.id)))
        }
    }
}

fn copy_list(list: &Option<Vec<String>>) -> (r: Option<Vec<String>>)
    ensures
        option_texts(r) == option_texts(*list),
{
    match list {
        Some(l) => Some(copy_texts(l)),
        None => None,
    }
}

impl AgentPart {
    fn with_variant(&self, variant: &ModelRuntimeVariant, api_key: String) -> (r: AgentRuntime)
        ensures
            r@ == runtime_of(self@, variant@, api_key@),
    {
        let overflow_bytes: usize = match self.overflow_bytes {
            Some(n) => n,
            None => variant.profile.overflow_bytes,
        };
        AgentRuntime {
            agent_id: self.agent_id.clone(),
            system_prompt: self.system_prompt.clone(),
            max_turns: self.max_turns,
            profile: variant.profile.copy(),
            extra_options: variant.extra_options.copy(),
            api_key,
            overflow_bytes,
            tool_allowlist: copy_list(&self.tool_allowlist),
            delegate_ids: copy_texts(&self.delegate_ids),
        }
    }

    /// The agent with all models but the one that is given.
    pub fn runtimes(
        &self,
        variants: &Vec<ModelRuntimeVariant>,
        keys: &TextMap<String>,
        but: &Option<String>,
    ) -> (r: TextMap<AgentRuntime>)
        ensures
            seen(r@, runtime_view()) == runtimes_of(
                self@,
                variant_views(variants@),
                keys@,
                option_text(*but),
            ),
    {
        let ghost all = variant_views(variants@);
        let mut map: TextMap<AgentRuntime> = TextMap::new();
        let mut i: usize = 0;
        assert(all.take(0) =~= Seq::empty());
        assert(seen(map@, runtime_view()) =~= Seq::<(Seq<char>, RuntimeView)>::empty());
        while i < variants.len()
            invariant
                i <= variants.len(),
                all == variant_views(variants@),
                seen(map@, runtime_view()) == runtimes_of(
                    self@,
                    all.take(i as int),
                    keys@,
                    option_text(*but),
                ),
            decreases variants.len() - i,
        {
            assert(all.take(i + 1).drop_last() =~= all.take(i as int));
            assert(all[i as int] == variants@[i as int]@);
            let v = &variants[i];
            let left_out = match but {
                Some(id) => str_eq(id, &v.profile.id) && str_eq(&v.key, &v.profile.id),
                None => false,
            };
            if !left_out {
                let runtime = self.with_variant(v, runtime_api_key_for_profile(keys, &v.profile));
                proof {
                    lemma_seen_with_value(map@, runtime_view(), v.key@, runtime);
                }
                map.insert(v.key.clone(), runtime);
            }
            i += 1;
        }
        assert(all.take(i as int) =~= all);
        map
    }
}

// -------------------------------------------------------------------- variants

/// The options of a model, plain and with each effort.
#[derive(Debug)]
pub struct ModelOptions {
    pub plain: Result<JsonMap, String>,
    pub efforts: Vec<EffortOptions>,
}

/// Whether the options of every model are there.
pub open spec fn has_options(
    models: Seq<(Seq<char>, ModelView)>,
    options: Seq<(Seq<char>, ModelOptions)>,
) -> bool {
    forall|i: int|
        0 <= i < models.len() ==> value_of(options, (#[trigger] models[i]).1.id) is Some
}

/// The variants of all models, or what is wrong with the first that has none.
pub open spec fn all_variants(
    models: Seq<(Seq<char>, ModelView)>,
    options: Seq<(Seq<char>, ModelOptions)>,
) -> Result<Seq<VariantView>, Seq<char>>
    recommends
        has_options(models, options),
    decreases models.len(),
{
    if models.len() == 0 {
        Ok(Seq::empty())
    } else {
        match all_variants(models.drop_last(), options) {
            Err(e) => Err(e),
            Ok(head) => {
                let m = models.last().1;
                let o = value_of(options, m.id)->0;
                match o.plain {
                    Ok(plain) => Ok(head + runtime_variants(m, plain@, o.efforts@)),
                    Err(e) => Err(e@),
                }
            },
        }
    }
}

fn copy_options(plain: &Result<JsonMap, String>) -> (r: Result<JsonMap, String>)
    ensures
        match *plain {
            Ok(o) => r is Ok && r->Ok_0@ == o@,
            Err(e) => r is Err && r->Err_0@ == e@,
        },
{
    match plain {
        Ok(o) => Ok(o.copy()),
        Err(e) => Err(e.clone()),
    }
}

/// The variants of all models.
pub fn collect_variants(registry: &ModelProfileRegistry, options: &TextMap<ModelOptions>) -> (r: Result<
    Vec<ModelRuntimeVariant>,
    String,
>)
    requires
        has_options(registry@, options@),
    ensures
        match all_variants(registry@, options@) {
            Ok(variants) => r is Ok && variant_views(r->Ok_0@) == variants,
            Err(e) => r is Err && r->Err_0@ == e,
        },
{
    let ghost all = registry@;
    let mut out: Vec<ModelRuntimeVariant> = Vec::new();
    let mut i: usize = 0;
    assert(all.take(0) =~= Seq::empty());
    assert(variant_views(out@) =~= Seq::<VariantView>::empty());
    while i < registry.profiles.entries.len()
        invariant
            i <= registry.profiles.entries.len(),
            all == registry@,
            all.len() == registry.profiles.entries.len(),
            has_options(all, options@),
            all_variants(all.take(i as int), options@) == Ok::<Seq<VariantView>, Seq<char>>(
                variant_views(out@),
            ),
        decreases registry.profiles.entries.len() - i,
    {
        let model = &registry.profiles.entries[i].1;
        assert(all[i as int].1 == model@) by {
            assert(registry.profiles@[i as int].1 == registry.profiles.entries@[i as int].1);
        }
        assert(all.take(i + 1).drop_last() =~= all.take(i as int));
        assert(all.take(i + 1).last() == all[i as int]);
        assert(value_of(options@, all[i as int].1.id) is Some);
        if let Some(o) = options.get(&model.id) {
            let ghost before = variant_views(out@);
            match model_runtime_variants(model, copy_options(&o.plain), &o.efforts) {
                Ok(variants) => {
                    let mut variants = variants;
                    let ghost added = variant_views(variants@);
                    out.append(&mut variants);
                    assert(variant_views(out@) =~= before + added);
                },
                Err(e) => {
                    proof {
                        lemma_first_error(all, options@, i + 1);
                    }
                    return Err(e);
                },
            }
        }
        i += 1;
    }
    assert(all.take(i as int) =~= all);
    Ok(out)
}

proof fn lemma_first_error(
    models: Seq<(Seq<char>, ModelView)>,
    options: Seq<(Seq<char>, ModelOptions)>,
    k: int,
)
    requires
        0 <= k <= models.len(),
        all_variants(models.take(k), options) is Err,
    ensures
        all_variants(models, options) == all_variants(models.take(k), options),
    decreases models.len(),
{
    if k < models.len() {
        assert(models.drop_last().take(k) =~= models.take(k));
        lemma_first_error(models.drop_last(), options, k);
    } else {
        assert(models.take(k) =~= models);
    }
}

// ---------------------------------------------------------------------- agents

/// The profile of the agent at hand, with what is known of it already.
pub open spec fn active_profile(b: BuilderView, system: Seq<char>, existing: Option<AgentView>) -> AgentView {
    AgentView {
        id: b.active_agent_id,
        name: match existing {
            Some(p) => p.name,
            None => b.active_agent_id,
        },
        description: match existing {
            Some(p) => p.description,
            None => "Runtime default agent"@,
        },
        model: match existing {
            Some(p) => p.model,
            None => None,
        },
        base_url: match existing {
            Some(p) => p.base_url,
            None => None,
        },
        models: b.model_bindings,
        tools: match b.tool_allowlist {
            Some(tools) => tools,
            None => Seq::empty(),
        },
        delegates: b.delegate_ids,
        max_turns: b.max_turns,
        persistent_sessions: match existing {
            Some(p) => p.persistent_sessions,
            None => false,
        },
        system_prompt: system,
    }
}

/// The profile of an agent of which nothing is known.
pub open spec fn bare_profile(b: BuilderView, system: Seq<char>) -> AgentView {
    AgentView {
        id: b.active_agent_id,
        name: b.active_agent_id,
        description: "Runtime default agent"@,
        model: None,
        base_url: None,
        models: b.model_bindings,
        tools: Seq::empty(),
        delegates: Seq::empty(),
        max_turns: b.max_turns,
        persistent_sessions: false,
        system_prompt: system,
    }
}

/// The agents with the one at hand among them.
pub open spec fn with_active(
    b: BuilderView,
    system: Seq<char>,
    agents: Seq<(Seq<char>, AgentView)>,
) -> Seq<(Seq<char>, AgentView)> {
    let existing = value_of(agents, b.active_agent_id);
    if b.tool_allowlist is Some {
        with_value(agents, b.active_agent_id, active_profile(b, system, existing))
    } else if existing is Some {
        agents
    } else {
        with_value(agents, b.active_agent_id, bare_profile(b, system))
    }
}

/// The agents, each with the notice of the file beside it where there is one.
pub open spec fn all_noticed(agents: Seq<(Seq<char>, AgentView)>, has_agent_md: bool) -> Seq<
    (Seq<char>, AgentView),
> {
    agents.map_values(
        |e: (Seq<char>, AgentView)|
            (e.0, AgentView { system_prompt: noticed(e.1.system_prompt, has_agent_md), ..e.1 }),
    )
}

/// All agents of a bot.
pub open spec fn bot_agents(
    b: BuilderView,
    agents: Seq<(Seq<char>, AgentView)>,
    has_agent_md: bool,
) -> Seq<(Seq<char>, AgentView)> {
    all_noticed(with_active(b, noticed(b.system, has_agent_md), agents), has_agent_md)
}

fn notice_all(agents: TextMap<AgentProfile>, has_agent_md: bool) -> (r: TextMap<AgentProfile>)
    ensures
        seen(r@, agent_view()) == all_noticed(seen(agents@, agent_view()), has_agent_md),
{
    let ghost before = seen(agents@, agent_view());
    let mut entries: Vec<(String, AgentProfile)> = Vec::new();
    let mut i: usize = 0;
    while i < agents.entries.len()
        invariant
            i <= agents.entries.len(),
            before == seen(agents@, agent_view()),
            entries.len() == i,
            forall|j: int|
                0 <= j < i ==> {
                    &&& (#[trigger] entries@[j]).0@ == before[j].0
                    &&& entries@[j].1@ == (AgentView {
                        system_prompt: noticed(before[j].1.system_prompt, has_agent_md),
                        ..before[j].1
                    })
                },
        decreases agents.entries.len() - i,
    {
        assert(agents@[i as int].1 == agents.entries@[i as int].1);
        assert(before[i as int].1 == agents.entries@[i as int].1@);
        assert(before[i as int].0 == agents.entries@[i as int].0@);
        let mut profile = agents.entries[i].1.copy();
        profile.system_prompt = system_prompt_with_agent_md_notice(
            profile.system_prompt.clone(),
            has_agent_md,
        );
        entries.push((agents.entries[i].0.clone(), profile));
        i += 1;
    }
    let r = TextMap { entries };
    assert(seen(r@, agent_view()) =~= all_noticed(before, has_agent_md)) by {
        assert forall|j: int| 0 <= j < r@.len() implies seen(r@, agent_view())[j] == all_noticed(
            before,
            has_agent_md,
        )[j] by {
            assert(r@[j].1 == r.entries@[j].1);
        }
    }
    r
}

impl CatBotBuilder {
    fn active_profile(&self, system: &str, existing: Option<&AgentProfile>) -> (r: AgentProfile)
        ensures
            r@ == active_profile(
                self@,
                system@,
                match existing {
                    Some(p) => Some(p@),
                    None => None,
                },
            ),
    {
        let tools = match &self.tool_allowlist {
            Some(l) => copy_texts(l),
            None => Vec::new(),
        };
        assert(self.tool_allowlist is None ==> texts(tools@) =~= Seq::<Seq<char>>::empty());
        AgentProfile {
            id: self.active_agent_id.clone(),
            name: match existing {
                Some(p) => p.name.clone(),
                None => self.active_agent_id.clone(),
            },
            description: match existing {
                Some(p) => p.description.clone(),
                None => "Runtime default agent".to_owned(),
            },
            model: match existing {
                Some(p) => copy_option_text(&p.model),
                None => None,
            },
            base_url: match existing {
                Some(p) => copy_option_text(&p.base_url),
                None => None,
            },
            models: self.model_bindings.copy(),
            tools,
            delegates: copy_texts(&self.delegate_ids),
            max_turns: self.max_turns,
            persistent_sessions: match existing {
                Some(p) => p.persistent_sessions,
                None => false,
            },
            system_prompt: system.to_owned(),
        }
    }

    fn bare_profile(&self, system: &str) -> (r: AgentProfile)
        ensures
            r@ == bare_profile(self@, system@),
    {
        let tools: Vec<String> = Vec::new();
        let delegates: Vec<String> = Vec::new();
        assert(texts(tools@) =~= Seq::<Seq<char>>::empty());
        assert(texts(delegates@) =~= Seq::<Seq<char>>::empty());
        AgentProfile {
            id: self.active_agent_id.clone(),
            name: self.active_agent_id.clone(),
            description: "Runtime default agent".to_owned(),
            model: None,
            base_url: None,
            models: self.model_bindings.copy(),
            tools,
            delegates,
            max_turns: self.max_turns,
            persistent_sessions: false,
            system_prompt: system.to_owned(),
        }
    }

    /// All agents of the bot.
    pub fn bot_agents(&self, agents: TextMap<AgentProfile>, has_agent_md: bool) -> (r: TextMap<
        AgentProfile,
    >)
        ensures
            seen(r@, agent_view()) == bot_agents(
                self@,
                seen(agents@, agent_view()),
                has_agent_md,
            ),
    {
        let system = system_prompt_with_agent_md_notice(self.system.clone(), has_agent_md);
        let mut agents = agents;
        proof {
            lemma_seen_value_of(agents@, agent_view(), self.active_agent_id@);
        }
        if self.tool_allowlist.is_some() {
            let profile = self.active_profile(&system, agents.get(&self.active_agent_id));
            proof {
                lemma_seen_with_value(agents@, agent_view(), self.active_agent_id@, profile);
            }
            agents.insert(self.active_agent_id.clone(), profile);
        } else if !agents.contains_key(&self.active_agent_id) {
            let profile = self.bare_profile(&system);
            proof {
                lemma_seen_with_value(agents@, agent_view(), self.active_agent_id@, profile);
            }
            agents.insert(self.active_agent_id.clone(), profile);
        }
        notice_all(agents, has_agent_md)
    }
}

proof fn lemma_noticed_value(agents: Seq<(Seq<char>, AgentView)>, has_agent_md: bool, id: Seq<char>)
    ensures
        value_of(all_noticed(agents, has_agent_md), id) == (match value_of(agents, id) {
            Some(p) => Some(
                AgentView { system_prompt: noticed(p.system_prompt, has_agent_md), ..p },
            ),
            None => None,
        }),
    decreases agents.len(),
{
    if agents.len() > 0 {
        assert(all_noticed(agents, has_agent_md).drop_first() =~= all_noticed(
            agents.drop_first(),
            has_agent_md,
        ));
        lemma_noticed_value(agents.drop_first(), has_agent_md, id);
    }
}

/// A bot always has the agent that it starts with.
pub proof fn the_active_agent_is_there(
    b: BuilderView,
    agents: Seq<(Seq<char>, AgentView)>,
    has_agent_md: bool,
)
    ensures
        value_of(bot_agents(b, agents, has_agent_md), b.active_agent_id) is Some,
{
    let system = noticed(b.system, has_agent_md);
    let existing = value_of(agents, b.active_agent_id);
    lemma_set_value_is_there(
        agents,
        b.active_agent_id,
        active_profile(b, system, existing),
    );
    lemma_set_value_is_there(agents, b.active_agent_id, bare_profile(b, system));
    lemma_noticed_value(with_active(b, system, agents), has_agent_md, b.active_agent_id);
}

// ----------------------------------------------------------------------- build

/// What is found outside when a bot is built.
#[derive(Debug)]
pub struct BuildFacts {
    /// `REMI_AUTO_COMPRESS_CONTEXT_PERCENT`.
    pub context_percent: Option<String>,
    /// Whether there is an `Agent.md` where the process runs.
    pub has_agent_md: bool,
    /// The key for the model that reviews approvals, or why there is none.
    pub approval_key: Result<String, String>,
    /// The keys that there are, by the ids of the models.
    pub keys: TextMap<String>,
    pub options: TextMap<ModelOptions>,
    /// The agents that there are.
    pub agents: TextMap<AgentProfile>,
}

/// The model that reviews approvals.
pub open spec fn approval_model(b: BuilderView) -> Result<ModelView, Seq<char>> {
    match b.approval_model_profile_id {
        Some(id) => match value_of(b.model_registry, id) {
            Some(m) => Ok(m),
            None => Err("approval model profile `"@ + id + "` was not found"@),
        },
        None => Ok(b.model_profile),
    }
}

/// What the agent at hand runs with.
pub open spec fn active_part(b: BuilderView, has_agent_md: bool) -> PartView {
    PartView {
        agent_id: b.active_agent_id,
        system_prompt: noticed(b.system, has_agent_md),
        max_turns: b.max_turns,
        overflow_bytes: b.overflow_bytes,
        tool_allowlist: b.tool_allowlist,
        delegate_ids: b.delegate_ids,
    }
}

/// What another agent runs with.
pub open spec fn part_of(p: AgentView, overflow_bytes: Option<usize>) -> PartView {
    PartView {
        agent_id: p.id,
        system_prompt: p.system_prompt,
        max_turns: p.max_turns,
        overflow_bytes,
        tool_allowlist: Some(allowed_tools(p.tools, p.delegates)),
        delegate_ids: p.delegates,
    }
}

/// The agents besides the one at hand, each with all models.
pub open spec fn other_runtimes(
    active: Seq<char>,
    overflow_bytes: Option<usize>,
    agents: Seq<(Seq<char>, AgentView)>,
    variants: Seq<VariantView>,
    keys: Seq<(Seq<char>, String)>,
) -> Seq<(Seq<char>, Seq<(Seq<char>, RuntimeView)>)>
    decreases agents.len(),
{
    if agents.len() == 0 {
        Seq::empty()
    } else {
        let head = other_runtimes(active, overflow_bytes, agents.drop_last(), variants, keys);
        let p = agents.last().1;
        if p.id == active {
            head
        } else {
            with_value(
                head,
                p.id,
                runtimes_of(part_of(p, overflow_bytes), variants, keys, None),
            )
        }
    }
}

/// What the agents of a bot see of the workspace.
#[derive(Debug)]
pub struct WorkspaceAccess {
    pub root: String,
    /// The directory of the workspace as commands see it.
    pub root_label: String,
    /// Whether paths of the machine mean the same in the sandbox.
    pub allow_host_absolute_paths: bool,
    pub bash_enabled: bool,
}

pub struct AccessView {
    pub root: Seq<char>,
    pub root_label: Seq<char>,
    pub allow_host_absolute_paths: bool,
    pub bash_enabled: bool,
}

impl View for WorkspaceAccess {
    type V = AccessView;

    open spec fn view(&self) -> AccessView {
        AccessView {
            root: self.root@,
            root_label: self.root_label@,
            allow_host_absolute_paths: self.allow_host_absolute_paths,
            bash_enabled: self.bash_enabled,
        }
    }
}

/// What is seen of the workspace in a sandbox: in a container it has another
/// name, and paths of the machine mean nothing there.
pub open spec fn access_in(sandbox: SandboxView) -> AccessView {
    match sandbox {
        SandboxView::Disabled(dir) => AccessView {
            root: dir,
            root_label: dir,
            allow_host_absolute_paths: true,
            bash_enabled: false,
        },
        SandboxView::NoSandbox(dir) => AccessView {
            root: dir,
            root_label: dir,
            allow_host_absolute_paths: true,
            bash_enabled: true,
        },
        SandboxView::Docker(config) => AccessView {
            root: config.host_dir,
            root_label: config.container_dir,
            allow_host_absolute_paths: false,
            bash_enabled: true,
        },
    }
}

/// What is seen of the workspace in a sandbox.
pub fn workspace_access(sandbox: &SandboxConfig) -> (r: WorkspaceAccess)
    ensures
        r@ == access_in(sandbox@),
{
    let in_container = matches!(sandbox, SandboxConfig::Docker(_));
    WorkspaceAccess {
        root: sandbox.host_dir().to_owned(),
        root_label: sandbox.workspace_root_label(),
        allow_host_absolute_paths: !in_container,
        bash_enabled: sandbox.bash_enabled(),
    }
}

/// The parts of a bot.
#[derive(Debug)]
pub struct BotParts {
    pub workspace: WorkspaceAccess,
    pub short_term_tokens: usize,
    pub approval_profile: ModelProfileConfig,
    pub approval_key: String,
    pub inner: AgentRuntime,
    pub model_agents: TextMap<AgentRuntime>,
    pub agent_runtimes: TextMap<TextMap<AgentRuntime>>,
    pub agent_profiles: TextMap<AgentProfile>,
    pub default_agent_profile: AgentProfile,
}

/// Whether the parts are those of the bot that is described, with the given
/// share of its context to fill and the given variants of its models.
pub open spec fn parts_fit(
    parts: BotParts,
    b: BuilderView,
    facts: BuildFacts,
    percent: usize,
    variants: Seq<VariantView>,
) -> bool {
    let agents = bot_agents(b, seen(facts.agents@, agent_view()), facts.has_agent_md);
    let part = active_part(b, facts.has_agent_md);
    &&& parts.workspace@ == access_in(b.sandbox_config)
    &&& parts.short_term_tokens == compaction_budget(
        b.model_profile,
        percent,
        noticed(b.system, facts.has_agent_md),
    )
    &&& approval_model(b) == Ok::<ModelView, Seq<char>>(parts.approval_profile@)
    &&& facts.approval_key is Ok && parts.approval_key@ == facts.approval_key->Ok_0@
    &&& parts.inner@ == runtime_of(
        part,
        VariantView {
            key: b.model_profile.id,
            profile: b.model_profile,
            extra_options: b.extra_options,
        },
        b.api_key,
    )
    &&& seen(parts.model_agents@, runtime_view()) == runtimes_of(
        part,
        variants,
        facts.keys@,
        Some(b.model_profile.id),
    )
    &&& seen(parts.agent_profiles@, agent_view()) == agents
    &&& value_of(agents, b.active_agent_id) == Some(parts.default_agent_profile@)
    &&& seen(parts.agent_runtimes@, runtimes_view()) == other_runtimes(
        b.active_agent_id,
        b.overflow_bytes,
        agents,
        variants,
        facts.keys@,
    )
}

/// Whether a share that is set cannot be used, and what is said then.
pub open spec fn percent_refused(raw: Seq<char>, message: Seq<char>) -> bool {
    match counted(raw) {
        Some(n) => message == "REMI_AUTO_COMPRESS_CONTEXT_PERCENT must be between 1 and 100"@,
        None => says_not_a_number(message, "REMI_AUTO_COMPRESS_CONTEXT_PERCENT"@, raw),
    }
}

/// The share of the context to fill, where that can be read.
pub open spec fn percent_set(variable: Option<Seq<char>>) -> Option<usize> {
    match setting(variable) {
        None => Some(crate::runtime::budget::DEFAULT_AUTO_COMPRESS_CONTEXT_PERCENT),
        Some(raw) => match counted(raw) {
            Some(n) => if 1 <= n <= 100 {
                Some(n as usize)
            } else {
                None
            },
            None => None,
        },
    }
}

impl CatBotBuilder {
    /// The model that reviews approvals.
    pub fn approval_profile(&self) -> (r: Result<ModelProfileConfig, String>)
        ensures
            match approval_model(self@) {
                Ok(m) => r is Ok && r->Ok_0@ == m,
                Err(e) => r is Err && r->Err_0@ == e,
            },
    {
        match &self.approval_model_profile_id {
            Some(id) => match self.model_registry.get(id) {
                Some(m) => Ok(m.copy()),
                None => {
                    let mut e = "approval model profile `".to_owned();
                    e.push_str(id);
                    e.push_str("` was not found");
                    Err(e)
                },
            },
            None => Ok(self.model_profile.copy()),
        }
    }

    fn active_part(&self, system: &str) -> (r: AgentPart)
        ensures
            r@ == (PartView {
                agent_id: self@.active_agent_id,
                system_prompt: system@,
                max_turns: self@.max_turns,
                overflow_bytes: self@.overflow_bytes,
                tool_allowlist: self@.tool_allowlist,
                delegate_ids: self@.delegate_ids,
            }),
    {
        AgentPart {
            agent_id: self.active_agent_id.clone(),
            system_prompt: system.to_owned(),
            max_turns: self.max_turns,
            overflow_bytes: self.overflow_bytes,
            tool_allowlist: copy_list(&self.tool_allowlist),
            delegate_ids: copy_texts(&self.delegate_ids),
        }
    }

    fn other_runtimes(
        &self,
        agents: &TextMap<AgentProfile>,
        variants: &Vec<ModelRuntimeVariant>,
        keys: &TextMap<String>,
    ) -> (r: TextMap<TextMap<AgentRuntime>>)
        ensures
            seen(r@, runtimes_view()) == other_runtimes(
                self@.active_agent_id,
                self@.overflow_bytes,
                seen(agents@, agent_view()),
                variant_views(variants@),
                keys@,
            ),
    {
        let ghost all = seen(agents@, agent_view());
        let mut map: TextMap<TextMap<AgentRuntime>> = TextMap::new();
        let mut i: usize = 0;
        assert(all.take(0) =~= Seq::empty());
        assert(seen(map@, runtimes_view()) =~= Seq::<
            (Seq<char>, Seq<(Seq<char>, RuntimeView)>),
        >::empty());
        while i < agents.entries.len()
            invariant
                i <= agents.entries.len(),
                all == seen(agents@, agent_view()),
                all.len() == agents.entries.len(),
                seen(map@, runtimes_view()) == other_runtimes(
                    self@.active_agent_id,
                    self@.overflow_bytes,
                    all.take(i as int),
                    variant_views(variants@),
                    keys@,
                ),
            decreases agents.entries.len() - i,
        {
            let profile = &agents.entries[i].1;
            assert(all[i as int].1 == profile@) by {
                assert(agents@[i as int].1 == agents.entries@[i as int].1);
            }
            assert(all.take(i + 1).drop_last() =~= all.take(i as int));
            if !str_eq(&profile.id, &self.active_agent_id) {
                let part = AgentPart {
                    agent_id: profile.id.clone(),
                    system_prompt: profile.system_prompt.clone(),
                    max_turns: profile.max_turns,
                    overflow_bytes: self.overflow_bytes,
                    tool_allowlist: Some(agent_tool_allowlist(profile)),
                    delegate_ids: copy_texts(&profile.delegates),
                };
                assert(part@ == part_of(profile@, self@.overflow_bytes));
                let by_model = part.runtimes(variants, keys, &None);
                proof {
                    lemma_seen_with_value(map@, runtimes_view(), profile.id@, by_model);
                }
                map.insert(profile.id.clone(), by_model);
            }
            i += 1;
        }
        assert(all.take(i as int) =~= all);
        map
    }

    /// Puts the bot together.
    pub fn build(self, facts: BuildFacts) -> (r: Result<BotParts, String>)
        requires
            has_options(self@.model_registry, facts.options@),
        ensures
            match percent_set(option_text(facts.context_percent)) {
                None => {
                    &&& r is Err
                    &&& percent_refused(
                        setting(option_text(facts.context_percent))->0,
                        r->Err_0@,
                    )
                },
                Some(percent) => match approval_model(self@) {
                    Err(e) => r is Err && r->Err_0@ == e,
                    Ok(_) => match facts.approval_key {
                        Err(e) => r is Err && r->Err_0@ == e@,
                        Ok(_) => match all_variants(self@.model_registry, facts.options@) {
                            Err(e) => r is Err && r->Err_0@ == e,
                            Ok(variants) => r is Ok && parts_fit(
                                r->Ok_0,
                                self@,
                                facts,
                                percent,
                                variants,
                            ),
                        },
                    },
                },
            },
    {
        let percent: usize = match auto_compress_context_percent(&facts.context_percent) {
            Ok(n) => n,
            Err(e) => return Err(e),
        };
        let system = system_prompt_with_agent_md_notice(self.system.clone(), facts.has_agent_md);
        let short_term_tokens: usize = memory_compaction_budget_tokens(
            &self.model_profile,
            percent,
            &system,
        );
        let approval_profile = match self.approval_profile() {
            Ok(p) => p,
            Err(e) => return Err(e),
        };
        let ghost given = facts;
        let approval_key = match facts.approval_key {
            Ok(k) => k,
            Err(e) => return Err(e),
        };
        let variants = match collect_variants(&self.model_registry, &facts.options) {
            Ok(v) => v,
            Err(e) => return Err(e),
        };
        let part = self.active_part(&system);
        let own = ModelRuntimeVariant {
            key: self.model_profile.id.clone(),
            profile: self.model_profile.copy(),
            extra_options: self.extra_options.copy(),
        };
        let inner = part.with_variant(&own, self.api_key.clone());
        let but = Some(self.model_profile.id.clone());
        let model_agents = part.runtimes(&variants, &facts.keys, &but);
        let agent_profiles = self.bot_agents(facts.agents, facts.has_agent_md);
        proof {
            the_active_agent_is_there(
                self@,
                seen(given.agents@, agent_view()),
                given.has_agent_md,
            );
            lemma_seen_value_of(agent_profiles@, agent_view(), self.active_agent_id@);
        }
        let default_agent_profile = match agent_profiles.get(&self.active_agent_id) {
            Some(p) => p.copy(),
            None => {
                let mut e = "active agent `".to_owned();
                e.push_str(&self.active_agent_id);
                e.push_str("` is unavailable");
                return Err(e);
            },
        };
        let agent_runtimes = self.other_runtimes(&agent_profiles, &variants, &facts.keys);
        Ok(
            BotParts {
                workspace: workspace_access(&self.sandbox_config),
                short_term_tokens,
                approval_profile,
                approval_key,
                inner,
                model_agents,
                agent_runtimes,
                agent_profiles,
                default_agent_profile,
            },
        )
    }
}

// ------------------------------------------------------------------------ its laws

/// An agent that is adopted brings its prompt, its tools, its delegates, its turns and
/// the models it is bound to; its model is the one it names, unless another is set for
/// good. Nothing else of the bot changes.
pub proof fn an_adopted_agent_brings_its_own(b: BuilderView, p: AgentView)
    ensures
        adopted(b, p) matches Ok(r) ==> {
            &&& r.active_agent_id == p.id
            &&& r.system == p.system_prompt
            &&& r.tool_allowlist == Some(allowed_tools(p.tools, p.delegates))
            &&& r.delegate_ids == p.delegates
            &&& r.max_turns == p.max_turns
            &&& r.model_bindings == p.models
            &&& r.api_key == b.api_key && r.data_dir == b.data_dir && r.skills_dir == b.skills_dir
            &&& r.agents_dir == b.agents_dir && r.sandbox_config == b.sandbox_config
            &&& r.memory_days == b.memory_days && r.overflow_bytes == b.overflow_bytes
            &&& r.model_registry == b.model_registry && r.extra_options == b.extra_options
            &&& r.approval_model_profile_id == b.approval_model_profile_id
            &&& !b.runtime_model_locked && p.models.primary is Some ==> r.model_profile.id
                == value_of(b.model_registry, p.models.primary->0)->0.id
            &&& !b.runtime_model_locked && p.models.primary is None ==> r.model_profile.id
                == b.model_profile.id
            &&& !b.runtime_model_locked && p.model is Some && trimmed(p.model->0).len() > 0
                ==> r.model_profile.model == p.model->0
            &&& !b.runtime_model_locked && p.base_url is Some && trimmed(p.base_url->0).len() > 0
                ==> r.model_profile.base_url == p.base_url
        },
        adopted(b, p) is Err <==> !b.runtime_model_locked && p.models.primary is Some && value_of(
            b.model_registry,
            p.models.primary->0,
        ) is None,
{
}

proof fn lemma_runtimes_ordered(
    part: PartView,
    variants: Seq<VariantView>,
    keys: Seq<(Seq<char>, String)>,
    but: Option<Seq<char>>,
)
    ensures
        keys_ordered(runtimes_of(part, variants, keys, but)),
    decreases variants.len(),
{
    if variants.len() > 0 {
        lemma_runtimes_ordered(part, variants.drop_last(), keys, but);
        let v = variants.last();
        setting_keeps_order(
            runtimes_of(part, variants.drop_last(), keys, but),
            v.key,
            runtime_of(part, v, key_of(keys, v.profile.id)),
        );
    }
}

/// An agent has a runtime for each variant of each model, but for the one that is left
/// out: with its own prompt, turns and tools, and with the model and the key of the
/// variant.
pub proof fn every_variant_has_its_runtime(
    part: PartView,
    variants: Seq<VariantView>,
    keys: Seq<(Seq<char>, String)>,
    but: Option<Seq<char>>,
    i: int,
)
    requires
        0 <= i < variants.len(),
        !(but == Some(variants[i].profile.id) && variants[i].key == variants[i].profile.id),
        forall|j: int| i < j < variants.len() ==> (#[trigger] variants[j]).key != variants[i].key,
    ensures
        ({
            let r = value_of(runtimes_of(part, variants, keys, but), variants[i].key);
            &&& r is Some
            &&& r->0.agent_id == part.agent_id
            &&& r->0.system_prompt == part.system_prompt
            &&& r->0.max_turns == part.max_turns
            &&& r->0.tool_allowlist == part.tool_allowlist
            &&& r->0.delegate_ids == part.delegate_ids
            &&& r->0.profile == variants[i].profile
            &&& r->0.extra_options == variants[i].extra_options
            &&& value_of(keys, variants[i].profile.id) matches Some(k) ==> r->0.api_key == k@
            &&& part.overflow_bytes matches Some(n) ==> r->0.overflow_bytes == n
            &&& part.overflow_bytes is None ==> r->0.overflow_bytes
                == variants[i].profile.overflow_bytes
        }),
    decreases variants.len(),
{
    let head = variants.drop_last();
    let before = runtimes_of(part, head, keys, but);
    let v = variants.last();
    let put = runtime_of(part, v, key_of(keys, v.profile.id));
    lemma_runtimes_ordered(part, head, keys, but);
    set_value_is_read_back(before, v.key, put, variants[i].key);
    if i < variants.len() - 1 {
        assert(head[i] == variants[i]);
        assert forall|j: int| i < j < head.len() implies (#[trigger] head[j]).key != head[i].key by {
            assert(head[j] == variants[j]);
        }
        assert(variants[variants.len() - 1].key != variants[i].key);
        every_variant_has_its_runtime(part, head, keys, but, i);
    }
}

/// Every model of the registry has its plain variant, in full.
pub proof fn every_model_has_its_variant(
    models: Seq<(Seq<char>, ModelView)>,
    options: Seq<(Seq<char>, ModelOptions)>,
    i: int,
)
    requires
        0 <= i < models.len(),
        all_variants(models, options) is Ok,
    ensures
        exists|k: int|
            0 <= k < all_variants(models, options)->Ok_0.len() && (#[trigger] all_variants(
                models,
                options,
            )->Ok_0[k]).key == models[i].1.id && all_variants(models, options)->Ok_0[k].profile
                == models[i].1,
    decreases models.len(),
{
    let all = all_variants(models, options)->Ok_0;
    let head = all_variants(models.drop_last(), options)->Ok_0;
    let m = models.last().1;
    let o = value_of(options, m.id)->0;
    let own = runtime_variants(m, o.plain->Ok_0@, o.efforts@);
    assert(all == head + own);
    if i < models.len() - 1 {
        every_model_has_its_variant(models.drop_last(), options, i);
        let k = choose|k: int|
            0 <= k < head.len() && (#[trigger] head[k]).key == models[i].1.id && head[k].profile
                == models[i].1;
        assert(all[k] == head[k]);
    } else {
        every_effort_has_its_variant(m, o.plain->Ok_0@, o.efforts@);
        assert(all[head.len() as int] == own[0]);
    }
}

proof fn lemma_other_ordered(
    active: Seq<char>,
    overflow_bytes: Option<usize>,
    agents: Seq<(Seq<char>, AgentView)>,
    variants: Seq<VariantView>,
    keys: Seq<(Seq<char>, String)>,
)
    ensures
        keys_ordered(other_runtimes(active, overflow_bytes, agents, variants, keys)),
    decreases agents.len(),
{
    if agents.len() > 0 {
        lemma_other_ordered(active, overflow_bytes, agents.drop_last(), variants, keys);
        let p = agents.last().1;
        setting_keeps_order(
            other_runtimes(active, overflow_bytes, agents.drop_last(), variants, keys),
            p.id,
            runtimes_of(part_of(p, overflow_bytes), variants, keys, None),
        );
    }
}

/// Every agent but the active one has runtimes of its own, made from its profile.
pub proof fn every_other_agent_has_its_runtimes(
    active: Seq<char>,
    overflow_bytes: Option<usize>,
    agents: Seq<(Seq<char>, AgentView)>,
    variants: Seq<VariantView>,
    keys: Seq<(Seq<char>, String)>,
    i: int,
)
    requires
        0 <= i < agents.len(),
        agents[i].1.id != active,
        forall|j: int| i < j < agents.len() ==> (#[trigger] agents[j]).1.id != agents[i].1.id,
    ensures
        ({
            let p = agents[i].1;
            let part = part_of(p, overflow_bytes);
            &&& value_of(
                other_runtimes(active, overflow_bytes, agents, variants, keys),
                p.id,
            ) == Some(runtimes_of(part, variants, keys, None))
            &&& part.agent_id == p.id
            &&& part.system_prompt == p.system_prompt
            &&& part.max_turns == p.max_turns
            &&& part.tool_allowlist == Some(allowed_tools(p.tools, p.delegates))
            &&& part.delegate_ids == p.delegates
            &&& part.overflow_bytes == overflow_bytes
        }),
    decreases agents.len(),
{
    let head = agents.drop_last();
    let before = other_runtimes(active, overflow_bytes, head, variants, keys);
    let p = agents.last().1;
    lemma_other_ordered(active, overflow_bytes, head, variants, keys);
    set_value_is_read_back(
        before,
        p.id,
        runtimes_of(part_of(p, overflow_bytes), variants, keys, None),
        agents[i].1.id,
    );
    if i < agents.len() - 1 {
        assert(head[i] == agents[i]);
        assert forall|j: int| i < j < head.len() implies (#[trigger] head[j]).1.id
            != head[i].1.id by {
            assert(head[j] == agents[j]);
        }
        assert(agents[agents.len() - 1].1.id != agents[i].1.id);
        every_other_agent_has_its_runtimes(active, overflow_bytes, head, variants, keys, i);
    }
}

/// The agents of a bot are those that there are, with the active one as it was set
/// up; each is told of an `Agent.md`.
pub proof fn the_agents_of_a_bot(
    b: BuilderView,
    agents: Seq<(Seq<char>, AgentView)>,
    has_agent_md: bool,
    id: Seq<char>,
)
    requires
        keys_ordered(agents),
    ensures
        id != b.active_agent_id ==> value_of(bot_agents(b, agents, has_agent_md), id) == (
        match value_of(agents, id) {
            Some(p) => Some(
                AgentView { system_prompt: noticed(p.system_prompt, has_agent_md), ..p },
            ),
            None => None,
        }),
        b.tool_allowlist matches Some(tools) ==> {
            let r = value_of(bot_agents(b, agents, has_agent_md), b.active_agent_id);
            &&& r is Some
            &&& r->0.id == b.active_agent_id
            &&& r->0.tools == tools
            &&& r->0.delegates == b.delegate_ids
            &&& r->0.max_turns == b.max_turns
            &&& b.system.is_prefix_of(r->0.system_prompt)
            &&& value_of(agents, b.active_agent_id) matches Some(p) ==> r->0.name == p.name
                && r->0.persistent_sessions == p.persistent_sessions
        },
{
    let system = noticed(b.system, has_agent_md);
    let existing = value_of(agents, b.active_agent_id);
    let with = with_active(b, system, agents);
    set_value_is_read_back(
        agents,
        b.active_agent_id,
        active_profile(b, system, existing),
        id,
    );
    set_value_is_read_back(agents, b.active_agent_id, bare_profile(b, system), id);
    lemma_noticed_value(with, has_agent_md, id);
    lemma_noticed_value(with, has_agent_md, b.active_agent_id);
    the_notice_is_given_where_it_is_due(b.system, has_agent_md);
    the_notice_is_given_where_it_is_due(system, has_agent_md);
    let last = noticed(system, has_agent_md);
    assert(b.system =~= last.subrange(0, b.system.len() as int)) by {
        assert(system.subrange(0, b.system.len() as int) == b.system);
        assert(last.subrange(0, system.len() as int) == system);
        assert forall|k: int| 0 <= k < b.system.len() implies last[k] == b.system[k] by {
            assert(last.subrange(0, system.len() as int)[k] == last[k]);
            assert(system.subrange(0, b.system.len() as int)[k] == system[k]);
        }
    }
}

/// Approvals are looked at by the model that is set for it, where it is known, and
/// else by the model of the bot.
pub proof fn approvals_have_their_model(b: BuilderView)
    ensures
        b.approval_model_profile_id is None ==> approval_model(b) == Ok::<ModelView, Seq<char>>(
            b.model_profile,
        ),
        b.approval_model_profile_id matches Some(id) ==> match value_of(b.model_registry, id) {
            Some(m) => approval_model(b) == Ok::<ModelView, Seq<char>>(m),
            None => approval_model(b) is Err,
        },
{
}

/// Commands can be run unless the sandbox is switched off; paths of the machine mean
/// the same inside unless it is a container, which has a directory of its own.
pub proof fn what_a_workspace_allows(sandbox: SandboxView)
    ensures
        access_in(sandbox).bash_enabled == !(sandbox is Disabled),
        access_in(sandbox).allow_host_absolute_paths == !(sandbox is Docker),
        sandbox matches SandboxView::Docker(d) ==> access_in(sandbox).root == d.host_dir
            && access_in(sandbox).root_label == d.container_dir,
        sandbox matches SandboxView::NoSandbox(dir) ==> access_in(sandbox).root == dir,
        sandbox matches SandboxView::Disabled(dir) ==> access_in(sandbox).root == dir,
{
}

/// What the environment says of a bot is what the bot is made with.
pub proof fn the_environment_is_heeded(
    env: BuilderEnvironment,
    overflow: Option<usize>,
    resolved: ResolvedModel,
    registry: Seq<(Seq<char>, ModelView)>,
    system: Seq<char>,
)
    ensures
        ({
            let b = described(env, overflow, resolved, registry, system);
            &&& b.api_key == resolved.api_key@
            &&& b.model_profile == resolved.profile@
            &&& b.extra_options == resolved.extra_options@
            &&& b.system == system
            &&& b.model_registry == registry
            &&& b.overflow_bytes == overflow
            &&& b.runtime_model_locked <==> env.model_profile is Some && trimmed(
                env.model_profile->0@,
            ).len() > 0
            &&& env.data_dir matches Some(d) ==> b.data_dir == d@
            &&& env.agents_dir matches Some(d) ==> b.agents_dir == d@
            &&& env.agents_dir is None ==> b.agents_dir == joined_path(b.data_dir, "agents"@)
            &&& b.skills_dir == joined_path(b.data_dir, "skills"@)
            &&& env.memory_days is None ==> b.memory_days == DEFAULT_MEMORY_DAYS
            &&& b.tool_allowlist is None && b.acp_client_tools is None && !b.im_bridge
            &&& b.delegate_ids.len() == 0 && b.max_turns is None
            &&& b.active_agent_id == DEFAULT_AGENT_ID@
            &&& b.agent_md_path == option_text(env.agent_md_path)
            &&& b.approval_model_profile_id == named_text(option_text(env.approval_model_profile))
        }),
        forall|n: u64|
            env.memory_days is Some && env.memory_days->0@ == #[trigger] decimal(n as nat)
                ==> described(env, overflow, resolved, registry, system).memory_days == n,
{
    assert forall|n: u64|
        env.memory_days is Some && env.memory_days->0@ == #[trigger] decimal(
            n as nat,
        ) implies described(env, overflow, resolved, registry, system).memory_days == n by {
        numbers_are_read_as_written(n as nat);
        assert(ascii_digit(decimal(n as nat)[0]));
    }
}

/// How commands are run goes by the newer setting where there is one.
pub proof fn the_newer_mode_counts(shell_mode: Option<Seq<char>>, bash_mode: Option<Seq<char>>)
    ensures
        shell_mode matches Some(m) ==> mode_of(shell_mode, bash_mode) == (if m == "local"@ {
            BashMode::Local
        } else {
            BashMode::Docker
        }),
        shell_mode is None ==> mode_of(shell_mode, bash_mode) == (if bash_mode == Some("local"@) {
            BashMode::Local
        } else {
            BashMode::Docker
        }),
{
}

proof fn lemma_plain_number(n: nat)
    ensures
        trimmed(decimal(n)) == decimal(n),
        decimal(n).len() > 0,
{
    numbers_are_read_as_written(n);
    let d = decimal(n);
    assert(ascii_digit(d[0]) && ascii_digit(d[d.len() - 1]));
    trimming_cuts_only_white(d);
}

/// A share of the context that is set is used, where it is one; a limit for what tools
/// print is used where it is more than nothing.
pub proof fn settings_are_read_as_written(env: BuilderEnvironment, n: usize)
    ensures
        percent_set(None) == Some(crate::runtime::budget::DEFAULT_AUTO_COMPRESS_CONTEXT_PERCENT),
        1 <= n <= 100 ==> percent_set(Some(decimal(n as nat))) == Some(n),
        n == 0 || n > 100 ==> percent_set(Some(decimal(n as nat))) is None,
        env.overflow_bytes is Some && env.overflow_bytes->0@ == decimal(n as nat) ==> overflow_set(
            env,
        ) == Some(n) && (overflow_usable(env) <==> n > 0),
        env.overflow_bytes is None && env.older_overflow_bytes is None ==> overflow_set(env) is None
            && overflow_usable(env),
{
    lemma_plain_number(n as nat);
    counts_are_read_as_written(n as nat);
}

/// The agent that is asked for is the one that the environment names.
pub proof fn the_agent_asked_for_is_found(
    env: BuilderEnvironment,
    agents: Seq<(Seq<char>, AgentView)>,
)
    ensures
        env.agent_id matches Some(id) ==> asked_agent(env, agents) == value_of(agents, id@),
        env.agent_id is None ==> asked_agent(env, agents) == value_of(agents, DEFAULT_AGENT_ID@),
{
}

/// An agent that is not listed, and was given no tools, is set up with nothing but its
/// prompt and what it is bound to.
pub proof fn bare_agents_have_nothing(
    b: BuilderView,
    agents: Seq<(Seq<char>, AgentView)>,
    system: Seq<char>,
)
    requires
        b.tool_allowlist is None,
    ensures
        value_of(agents, b.active_agent_id) is Some ==> with_active(b, system, agents) == agents,
        value_of(agents, b.active_agent_id) is None ==> {
            let p = value_of(with_active(b, system, agents), b.active_agent_id);
            &&& p is Some
            &&& p->0.id == b.active_agent_id
            &&& p->0.system_prompt == system
            &&& p->0.tools.len() == 0 && p->0.delegates.len() == 0
            &&& p->0.models == b.model_bindings && p->0.max_turns == b.max_turns
            &&& !p->0.persistent_sessions && p->0.model is None && p->0.base_url is None
        },
{
    lemma_set_value_is_there(agents, b.active_agent_id, bare_profile(b, system));
}

} // verus!
