//! Profiles of models and of agents.
use vstd::prelude::*;
use vstd::string::*;

use crate::json::{JsonMap, JsonView};
use crate::message::{copy_option_text, option_text};
use crate::text::texts;
use crate::text_map::{seen, TextMap};

verus! {

broadcast use vstd::string::group_string_axioms;

/// How much a model reasons before it answers.
#[derive(Debug, Clone, Copy, PartialEq, Eq, Structural)]
pub enum ReasoningEffort {
    Auto,
    NoReasoning,
    Minimal,
    Low,
    Medium,
    High,
    Xhigh,
    Max,
}

pub open spec fn effort_text(effort: ReasoningEffort) -> Seq<char> {
    match effort {
        ReasoningEffort::Auto => "auto"@,
        ReasoningEffort::NoReasoning => "none"@,
        ReasoningEffort::Minimal => "minimal"@,
        ReasoningEffort::Low => "low"@,
        ReasoningEffort::Medium => "medium"@,
        ReasoningEffort::High => "high"@,
        ReasoningEffort::Xhigh => "xhigh"@,
        ReasoningEffort::Max => "max"@,
    }
}

/// All efforts, from the one that the model chooses up.
pub open spec fn all_efforts() -> Seq<ReasoningEffort> {
    seq![
        ReasoningEffort::Auto,
        ReasoningEffort::NoReasoning,
        ReasoningEffort::Minimal,
        ReasoningEffort::Low,
        ReasoningEffort::Medium,
        ReasoningEffort::High,
        ReasoningEffort::Xhigh,
        ReasoningEffort::Max,
    ]
}

impl ReasoningEffort {
    pub fn as_str(self) -> (r: &'static str)
        ensures
            r@ == effort_text(self),
    {
        match self {
            ReasoningEffort::Auto => "auto",
            ReasoningEffort::NoReasoning => "none",
            ReasoningEffort::Minimal => "minimal",
            ReasoningEffort::Low => "low",
            ReasoningEffort::Medium => "medium",
            ReasoningEffort::High => "high",
            ReasoningEffort::Xhigh => "xhigh",
            ReasoningEffort::Max => "max",
        }
    }

    pub fn variants() -> (r: Vec<ReasoningEffort>)
        ensures
            r@ == all_efforts(),
    {
        let mut v: Vec<ReasoningEffort> = Vec::new();
        v.push(ReasoningEffort::Auto);
        v.push(ReasoningEffort::NoReasoning);
        v.push(ReasoningEffort::Minimal);
        v.push(ReasoningEffort::Low);
        v.push(ReasoningEffort::Medium);
        v.push(ReasoningEffort::High);
        v.push(ReasoningEffort::Xhigh);
        v.push(ReasoningEffort::Max);
        assert(v@ =~= all_efforts());
        v
    }
}

/// Different efforts have different names.
pub proof fn efforts_have_their_own_names(a: ReasoningEffort, b: ReasoningEffort)
    requires
        effort_text(a) == effort_text(b),
    ensures
        a == b,
{
    reveal_strlit("auto");
    reveal_strlit("none");
    reveal_strlit("minimal");
    reveal_strlit("low");
    reveal_strlit("medium");
    reveal_strlit("high");
    reveal_strlit("xhigh");
    reveal_strlit("max");
    let s = effort_text(a);
    let t = effort_text(b);
    assert("auto"@.len() == 4 && "none"@.len() == 4 && "minimal"@.len() == 7 && "low"@.len() == 3
        && "medium"@.len() == 6 && "high"@.len() == 4 && "xhigh"@.len() == 5 && "max"@.len() == 3);
    assert("auto"@[0] == 'a' && "none"@[0] == 'n' && "high"@[0] == 'h' && "low"@[0] == 'l'
        && "max"@[0] == 'm');
    assert(s[0] == t[0] && s.len() == t.len());
}

/// What is known of a model: where it is served, and how much it takes and gives.
#[derive(Debug)]
pub struct ModelProfileConfig {
    pub id: String,
    pub name: String,
    pub description: Option<String>,
    pub provider: Option<String>,
    pub model: String,
    pub base_url: Option<String>,
    pub thinking: Option<bool>,
    pub reasoning_effort: Option<ReasoningEffort>,
    pub max_output_tokens: u32,
    pub context_tokens: u32,
    pub supports_images: bool,
    pub legacy_short_term_tokens: Option<u32>,
    pub overflow_bytes: usize,
    pub auto_compress: bool,
    pub extra_options: JsonMap,
}

pub struct ModelView {
    pub id: Seq<char>,
    pub name: Seq<char>,
    pub description: Option<Seq<char>>,
    pub provider: Option<Seq<char>>,
    pub model: Seq<char>,
    pub base_url: Option<Seq<char>>,
    pub thinking: Option<bool>,
    pub reasoning_effort: Option<ReasoningEffort>,
    pub max_output_tokens: u32,
    pub context_tokens: u32,
    pub supports_images: bool,
    pub legacy_short_term_tokens: Option<u32>,
    pub overflow_bytes: usize,
    pub auto_compress: bool,
    pub extra_options: Seq<(Seq<char>, JsonView)>,
}

impl View for ModelProfileConfig {
    type V = ModelView;

    open spec fn view(&self) -> ModelView {
        ModelView {
            id: self.id@,
            name: self.name@,
            description: option_text(self.description),
            provider: option_text(self.provider),
            model: self.model@,
            base_url: option_text(self.base_url),
            thinking: self.thinking,
            reasoning_effort: self.reasoning_effort,
            max_output_tokens: self.max_output_tokens,
            context_tokens: self.context_tokens,
            supports_images: self.supports_images,
            legacy_short_term_tokens: self.legacy_short_term_tokens,
            overflow_bytes: self.overflow_bytes,
            auto_compress: self.auto_compress,
            extra_options: self.extra_options@,
        }
    }
}

impl ModelProfileConfig {
    pub fn copy(&self) -> (r: ModelProfileConfig)
        ensures
            r@ == self@,
    {
        ModelProfileConfig {
            id: self.id.clone(),
            name: self.name.clone(),
            description: copy_option_text(&self.description),
            provider: copy_option_text(&self.provider),
            model: self.model.clone(),
            base_url: copy_option_text(&self.base_url),
            thinking: self.thinking,
            reasoning_effort: self.reasoning_effort,
            max_output_tokens: self.max_output_tokens,
            context_tokens: self.context_tokens,
            supports_images: self.supports_images,
            legacy_short_term_tokens: self.legacy_short_term_tokens,
            overflow_bytes: self.overflow_bytes,
            auto_compress: self.auto_compress,
            extra_options: self.extra_options.copy(),
        }
    }
}

pub open spec fn model_view() -> spec_fn(ModelProfileConfig) -> ModelView {
    |p: ModelProfileConfig| p@
}

/// The models that there are, by their ids.
#[derive(Debug)]
pub struct ModelProfileRegistry {
    pub profiles: TextMap<ModelProfileConfig>,
}

impl View for ModelProfileRegistry {
    type V = Seq<(Seq<char>, ModelView)>;

    open spec fn view(&self) -> Seq<(Seq<char>, ModelView)> {
        seen(self.profiles@, model_view())
    }
}

/// The models that an agent uses.
#[derive(Debug, Clone, PartialEq, Eq)]
pub struct AgentModelBindings {
    pub primary: Option<String>,
    pub helper: Option<String>,
    pub vision: Option<String>,
}

pub struct BindingsView {
    pub primary: Option<Seq<char>>,
    pub helper: Option<Seq<char>>,
    pub vision: Option<Seq<char>>,
}

impl View for AgentModelBindings {
    type V = BindingsView;

    open spec fn view(&self) -> BindingsView {
        BindingsView {
            primary: option_text(self.primary),
            helper: option_text(self.helper),
            vision: option_text(self.vision),
        }
    }
}

impl Default for AgentModelBindings {
    fn default() -> (r: AgentModelBindings)
        ensures
            r.primary is None,
            r.helper is None,
            r.vision is None,
    {
        AgentModelBindings { primary: None, helper: None, vision: None }
    }
}

impl AgentModelBindings {
    pub fn copy(&self) -> (r: AgentModelBindings)
        ensures
            r == *self,
    {
        AgentModelBindings {
            primary: copy_option_text(&self.primary),
            helper: copy_option_text(&self.helper),
            vision: copy_option_text(&self.vision),
        }
    }
}

/// What an agent is: its prompt, its models, its tools and whom it delegates to.
#[derive(Debug)]
pub struct AgentProfile {
    pub id: String,
    pub name: String,
    pub description: String,
    pub model: Option<String>,
    pub base_url: Option<String>,
    pub models: AgentModelBindings,
    pub tools: Vec<String>,
    pub delegates: Vec<String>,
    pub max_turns: Option<usize>,
    pub persistent_sessions: bool,
    pub system_prompt: String,
}

pub struct AgentView {
    pub id: Seq<char>,
    pub name: Seq<char>,
    pub description: Seq<char>,
    pub model: Option<Seq<char>>,
    pub base_url: Option<Seq<char>>,
    pub models: BindingsView,
    pub tools: Seq<Seq<char>>,
    pub delegates: Seq<Seq<char>>,
    pub max_turns: Option<usize>,
    pub persistent_sessions: bool,
    pub system_prompt: Seq<char>,
}

impl View for AgentProfile {
    type V = AgentView;

    open spec fn view(&self) -> AgentView {
        AgentView {
            id: self.id@,
            name: self.name@,
            description: self.description@,
            model: option_text(self.model),
            base_url: option_text(self.base_url),
            models: self.models@,
            tools: texts(self.tools@),
            delegates: texts(self.delegates@),
            max_turns: self.max_turns,
            persistent_sessions: self.persistent_sessions,
            system_prompt: self.system_prompt@,
        }
    }
}

pub fn copy_texts(list: &Vec<String>) -> (r: Vec<String>)
    ensures
        r@ == list@,
{
    let mut out: Vec<String> = Vec::new();
    let mut i: usize = 0;
    while i < list.len()
        invariant
            i <= list.len(),
            out@ == list@.take(i as int),
        decreases list.len() - i,
    {
        out.push(list[i].clone());
        i += 1;
        assert(list@.take(i as int) =~= list@.take(i - 1).push(list@[i - 1]));
    }
    assert(list@.take(i as int) =~= list@);
    out
}

impl AgentProfile {
    pub fn copy(&self) -> (r: AgentProfile)
        ensures
            r@ == self@,
    {
        AgentProfile {
            id: self.id.clone(),
            name: self.name.clone(),
            description: self.description.clone(),
            model: copy_option_text(&self.model),
            base_url: copy_option_text(&self.base_url),
            models: self.models.copy(),
            tools: copy_texts(&self.tools),
            delegates: copy_texts(&self.delegates),
            max_turns: self.max_turns,
            persistent_sessions: self.persistent_sessions,
            system_prompt: self.system_prompt.clone(),
        }
    }
}

pub open spec fn agent_view() -> spec_fn(AgentProfile) -> AgentView {
    |p: AgentProfile| p@
}

} // verus!
