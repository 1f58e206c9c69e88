//! A bot: its agents, its models, its skills and its sessions.
use vstd::prelude::*;
use vstd::string::*;

use crate::error::{AgentError, ErrorView};
use crate::json::{
    lemma_field_push, member, no_fields, JsonMap, JsonValue, JsonView, NumberView,
};
use crate::message::option_text;
use crate::order::{lex_le, text_le};
use crate::profile::{
    agent_view, AgentProfile, AgentView, ModelProfileConfig, ModelProfileRegistry, ModelView,
    ReasoningEffort,
};
use crate::runtime::builder::{runtime_view, runtimes_view, AgentRuntime, BotParts, RuntimeView};
use crate::runtime::effective::{
    apply_reasoning_effort_override, effective_agent, effective_agent_profile_for_workflow,
    effective_model, effective_model_of_agent, effective_model_profile_for_agent,
    model_runtime_key, resolve_effective_model_profile, runtime_key, EffectiveAgentProfile, EffectiveModelProfile,
    EffectiveModelView,
};
use crate::runtime::options::{switched_on, StreamOptions};
use crate::runtime::pinned::{pinned_of, pinned_only};
use crate::runtime::steer::{
    preview_of, queued_of, SteerInput, SteerQueues, SteerSource, SteerSubmitResult,
};
use crate::runtime::tools::{
    all_statuses, all_tools, definitions, list_permitted, listed_tools, pair_views, status_views, values,
    AgentTools, RegisteredToolStatus, ToolSurroundings,
};
use crate::runtime::turn_input::{check_workflow_agent, reason_or, stops, HookReply};
use crate::skill::builtin::BuiltinSkillStore;
use crate::skill::store::{FileSkillStore, SkillStore};
use crate::skill::tools::{read_names, read_skill_names};
use crate::skill::types::{
    diagnostic_views, summary_views, DocumentView, SkillDocument, SkillLoadDiagnostic, SkillSummary,
};
use crate::text::{str_eq, texts, trimmed};
use crate::text_map::{lemma_seen_value_of, seen, value_of};
use crate::workflow::{
    unknown_agent, unknown_agent_error, validate_workflow_agents, WorkflowDefinition,
};

verus! {

broadcast use vstd::string::group_string_axioms;

/// A bot.
#[derive(Debug)]
pub struct CatBot {
    pub parts: BotParts,
    pub model_profile: ModelProfileConfig,
    pub model_registry: ModelProfileRegistry,
    pub skill_store: BuiltinSkillStore<FileSkillStore>,
    pub pinned_skill_summaries: Vec<SkillSummary>,
    /// The tools of the agent that the bot starts with.
    pub tools: AgentTools,
    pub steers: SteerQueues,
    pub workspace_root: String,
}

/// What a hook is told of the session that it is run for.
#[derive(Debug, Clone, PartialEq, Eq)]
pub struct HookContext {
    pub session_id: String,
    pub transcript_path: Option<String>,
    pub cwd: String,
    pub model: Option<String>,
    pub turn_id: Option<String>,
    pub permission_mode: Option<String>,
}

/// What a round runs on.
#[derive(Debug)]
pub struct RoundChoice {
    pub agent: EffectiveAgentProfile,
    pub model: EffectiveModelProfile,
    /// The key of the runtime of the model.
    pub runtime_key: String,
}

/// The model with an effort that changes it.
pub open spec fn with_effort(
    plain: EffectiveModelView,
    effort: Option<ReasoningEffort>,
) -> Option<EffectiveModelView> {
    match effort {
        None => None,
        Some(ReasoningEffort::Auto) => None,
        Some(effort) => Some(
            EffectiveModelView {
                profile: ModelView { reasoning_effort: Some(effort), ..plain.profile },
                ..plain
            },
        ),
    }
}

impl CatBot {
    pub open spec fn agents(&self) -> Seq<(Seq<char>, AgentView)> {
        seen(self.parts.agent_profiles@, agent_view())
    }

    /// A bot of the given parts, in which nothing runs yet.
    pub fn new(
        parts: BotParts,
        model_profile: ModelProfileConfig,
        model_registry: ModelProfileRegistry,
        skill_store: BuiltinSkillStore<FileSkillStore>,
        tools: AgentTools,
        workspace_root: String,
    ) -> (r: CatBot)
        ensures
            r.parts == parts,
            r.model_profile == model_profile,
            r.model_registry == model_registry,
            r.skill_store == skill_store,
            r.tools == tools,
            r.workspace_root == workspace_root,
            r.steers.wf(),
            summary_views(r.pinned_skill_summaries@) == pinned_of(skill_store.featured()),
            forall|session: Seq<char>| (#[trigger] r.steers.waiting(session)) is None,
    {
        let pinned_skill_summaries = pinned_only(&skill_store.featured_summaries());
        CatBot {
            parts,
            model_profile,
            model_registry,
            skill_store,
            pinned_skill_summaries,
            tools,
            steers: SteerQueues::new(),
            workspace_root,
        }
    }

    // ------------------------------------------------------------------ steering

    /// Hands input to the turn that runs in a session.
    pub fn submit_steer(&mut self, input: SteerInput) -> (r: SteerSubmitResult)
        requires
            old(self).steers.wf(),
        ensures
            final(self).steers.wf(),
            *final(self) == (CatBot { steers: final(self).steers, ..*old(self) }),
            (r is NotRunning) == (old(self).steers.waiting(input.session_id@) is None),
            r is NotRunning ==> final(self).steers.waiting(input.session_id@) is None,
            r matches SteerSubmitResult::Queued(event) ==> {
                &&& event.session_id@ == input.session_id@
                &&& event.preview@ == preview_of(input.content@)
                &&& final(self).steers.waiting(input.session_id@) == Some(
                    old(self).steers.waiting(input.session_id@)->0.push(
                        queued_of(input, SteerSource::User, event.steer_id@),
                    ),
                )
            },
            forall|other: Seq<char>|
                other != input.session_id@ ==> (#[trigger] final(self).steers.waiting(other))
                    == old(self).steers.waiting(other),
    {
        self.steers.submit_queued_input(input, SteerSource::User)
    }

    /// Hands input to the turn that follows the one that runs in a session.
    pub fn submit_next_turn(&mut self, input: SteerInput) -> (r: SteerSubmitResult)
        requires
            old(self).steers.wf(),
        ensures
            final(self).steers.wf(),
            *final(self) == (CatBot { steers: final(self).steers, ..*old(self) }),
            (r is NotRunning) == (old(self).steers.waiting(input.session_id@) is None),
            r is NotRunning ==> final(self).steers.waiting(input.session_id@) is None,
            r matches SteerSubmitResult::Queued(event) ==> {
                &&& event.session_id@ == input.session_id@
                &&& event.preview@ == preview_of(input.content@)
                &&& final(self).steers.waiting(input.session_id@) == Some(
                    old(self).steers.waiting(input.session_id@)->0.push(
                        queued_of(input, SteerSource::UserNextTurn, event.steer_id@),
                    ),
                )
            },
            forall|other: Seq<char>|
                other != input.session_id@ ==> (#[trigger] final(self).steers.waiting(other))
                    == old(self).steers.waiting(other),
    {
        self.steers.submit_queued_input(input, SteerSource::UserNextTurn)
    }

    // -------------------------------------------------------------------- models

    pub fn model_context_tokens(&self) -> (r: u32)
        ensures
            r == self.model_profile@.context_tokens,
    {
        self.model_profile.context_tokens
    }

    pub fn model_context_tokens_for(&self, session_model_profile_id: &Option<String>) -> (r: u32)
        ensures
            r == effective_model(
                self.model_profile@,
                self.model_registry@,
                option_text(*session_model_profile_id),
            ).profile.context_tokens,
    {
        self.effective_model_profile(session_model_profile_id).profile.context_tokens
    }

    pub fn model_context_tokens_for_agent(
        &self,
        session_model_profile_id: &Option<String>,
        session_agent_id: &Option<String>,
    ) -> (r: u32)
        ensures
            r == effective_model_of_agent(
                self.model_profile@,
                self.model_registry@,
                option_text(*session_model_profile_id),
                effective_agent(
                    self.parts.default_agent_profile@,
                    self.agents(),
                    option_text(*session_agent_id),
                    None,
                ).profile,
            ).profile.context_tokens,
    {
        let agent = self.effective_agent_profile(session_agent_id);
        self.effective_model_profile_for_agent(
            session_model_profile_id,
            &agent.profile,
        ).profile.context_tokens
    }

    /// The models that there are.
    pub fn model_profiles(&self) -> (r: Vec<&ModelProfileConfig>)
        ensures
            r@.len() == self.model_registry@.len(),
            forall|i: int|
                0 <= i < r@.len() ==> (#[trigger] r@[i])@ == self.model_registry@[i].1,
    {
        let mut out: Vec<&ModelProfileConfig> = Vec::new();
        let mut i: usize = 0;
        while i < self.model_registry.profiles.entries.len()
            invariant
                i <= self.model_registry.profiles.entries.len(),
                out.len() == i,
                forall|j: int|
                    0 <= j < i ==> (#[trigger] out@[j])@ == self.model_registry@[j].1,
            decreases self.model_registry.profiles.entries.len() - i,
        {
            let profile = &self.model_registry.profiles.entries[i].1;
            assert(self.model_registry.profiles@[i as int].1
                == self.model_registry.profiles.entries@[i as int].1);
            assert(self.model_registry@[i as int].1 == profile@);
            out.push(profile);
            i += 1;
        }
        out
    }

    pub fn default_model_profile(&self) -> (r: &ModelProfileConfig)
        ensures
            *r == self.model_profile,
    {
        &self.model_profile
    }

    pub fn get_model_profile(&self, id: &str) -> (r: Option<&ModelProfileConfig>)
        ensures
            match r {
                Some(p) => value_of(self.model_registry@, id@) == Some(p@),
                None => value_of(self.model_registry@, id@) is None,
            },
    {
        self.model_registry.get(id)
    }

    /// The model of a session.
    pub fn effective_model_profile(&self, session_model_profile_id: &Option<String>) -> (r:
        EffectiveModelProfile)
        ensures
            r@ == effective_model(
                self.model_profile@,
                self.model_registry@,
                option_text(*session_model_profile_id),
            ),
    {
        resolve_effective_model_profile(
            &self.model_profile,
            &self.model_registry,
            session_model_profile_id,
        )
    }

    /// The model of a session with the effort that the session asks for.
    /// `options` are those of the model with the effort.
    pub fn effective_model_profile_with_reasoning(
        &self,
        session_model_profile_id: &Option<String>,
        reasoning_effort: Option<ReasoningEffort>,
        options: Result<JsonMap, String>,
    ) -> (r: Result<EffectiveModelProfile, String>)
        ensures
            ({
                let plain = effective_model(
                    self.model_profile@,
                    self.model_registry@,
                    option_text(*session_model_profile_id),
                );
                match reasoning_effort {
                    None => r is Ok && r->Ok_0@ == plain,
                    Some(ReasoningEffort::Auto) => r is Ok && r->Ok_0@ == plain,
                    Some(effort) => match options {
                        Err(e) => r is Err && r->Err_0@ == e@,
                        Ok(_) => r is Ok && r->Ok_0@ == (EffectiveModelView {
                            profile: ModelView { reasoning_effort: Some(effort), ..plain.profile },
                            ..plain
                        }),
                    },
                }
            }),
    {
        apply_reasoning_effort_override(
            self.effective_model_profile(session_model_profile_id),
            reasoning_effort,
            options,
        )
    }

    /// The model of an agent in a session.
    pub fn effective_model_profile_for_agent(
        &self,
        session_model_profile_id: &Option<String>,
        agent: &AgentProfile,
    ) -> (r: EffectiveModelProfile)
        ensures
            r@ == effective_model_of_agent(
                self.model_profile@,
                self.model_registry@,
                option_text(*session_model_profile_id),
                agent@,
            ),
    {
        effective_model_profile_for_agent(
            &self.model_profile,
            &self.model_registry,
            session_model_profile_id,
            agent,
        )
    }

    // -------------------------------------------------------------------- agents

    /// The agents that there are.
    pub fn agent_profiles(&self) -> (r: Vec<&AgentProfile>)
        ensures
            r@.len() == self.agents().len(),
            forall|i: int| 0 <= i < r@.len() ==> (#[trigger] r@[i])@ == self.agents()[i].1,
    {
        let mut out: Vec<&AgentProfile> = Vec::new();
        let mut i: usize = 0;
        while i < self.parts.agent_profiles.entries.len()
            invariant
                i <= self.parts.agent_profiles.entries.len(),
                out.len() == i,
                forall|j: int| 0 <= j < i ==> (#[trigger] out@[j])@ == self.agents()[j].1,
            decreases self.parts.agent_profiles.entries.len() - i,
        {
            let profile = &self.parts.agent_profiles.entries[i].1;
            assert(self.parts.agent_profiles@[i as int].1
                == self.parts.agent_profiles.entries@[i as int].1);
            assert(self.agents()[i as int].1 == profile@);
            out.push(profile);
            i += 1;
        }
        out
    }

    pub fn default_agent_profile(&self) -> (r: &AgentProfile)
        ensures
            *r == self.parts.default_agent_profile,
    {
        &self.parts.default_agent_profile
    }

    pub fn get_agent_profile(&self, id: &str) -> (r: Option<&AgentProfile>)
        ensures
            match r {
                Some(p) => value_of(self.agents(), id@) == Some(p@),
                None => value_of(self.agents(), id@) is None,
            },
    {
        proof {
            lemma_seen_value_of(self.parts.agent_profiles@, agent_view(), id@);
        }
        self.parts.agent_profiles.get(id)
    }

    /// The agent of a session.
    pub fn effective_agent_profile(&self, session_agent_id: &Option<String>) -> (r:
        EffectiveAgentProfile)
        ensures
            r@ == effective_agent(
                self.parts.default_agent_profile@,
                self.agents(),
                option_text(*session_agent_id),
                None,
            ),
    {
        self.effective_agent_profile_for_workflow(session_agent_id, &None)
    }

    /// The agent of a session in which a workflow may ask for one.
    pub fn effective_agent_profile_for_workflow(
        &self,
        session_agent_id: &Option<String>,
        workflow_agent_id: &Option<String>,
    ) -> (r: EffectiveAgentProfile)
        ensures
            r@ == effective_agent(
                self.parts.default_agent_profile@,
                self.agents(),
                option_text(*session_agent_id),
                option_text(*workflow_agent_id),
            ),
    {
        effective_agent_profile_for_workflow(
            &self.parts.default_agent_profile,
            &self.parts.agent_profiles,
            session_agent_id,
            workflow_agent_id,
        )
    }

    /// Whether every agent that a workflow names is there.
    pub fn validate_workflow_agents(&self, definition: &WorkflowDefinition) -> (r: Result<
        (),
        AgentError,
    >)
        ensures
            match unknown_agent(definition@.nodes, self.agents()) {
                Some((node, agent)) => r is Err && r->Err_0@ == unknown_agent_error(node, agent),
                None => r is Ok,
            },
    {
        validate_workflow_agents(definition, &self.parts.agent_profiles)
    }

    // ------------------------------------------------------------------ runtimes

    /// The agent that the bot starts with, on a model.
    pub fn agent_for_model_profile(&self, profile_id: &str) -> (r: &AgentRuntime)
        ensures
            r@ == own_runtime(self.parts, self.model_profile@.id, profile_id@),
    {
        if str_eq(profile_id, &self.model_profile.id) {
            return &self.parts.inner;
        }
        proof {
            lemma_seen_value_of(self.parts.model_agents@, runtime_view(), profile_id@);
        }
        match self.parts.model_agents.get(profile_id) {
            Some(r) => r,
            None => &self.parts.inner,
        }
    }

    /// An agent on a model; where there is no such agent, the one that the bot
    /// starts with.
    pub fn runtime_for_agent_and_model(&self, agent_id: &str, model_profile_id: &str) -> (r:
        &AgentRuntime)
        ensures
            r@ == chosen_runtime(
                self.parts,
                self.model_profile@.id,
                agent_id@,
                model_profile_id@,
            ),
    {
        if str_eq(agent_id, &self.parts.default_agent_profile.id) {
            return self.agent_for_model_profile(model_profile_id);
        }
        proof {
            lemma_seen_value_of(self.parts.agent_runtimes@, runtimes_view(), agent_id@);
        }
        if let Some(by_model) = self.parts.agent_runtimes.get(agent_id) {
            proof {
                lemma_seen_value_of(by_model@, runtime_view(), model_profile_id@);
            }
            if let Some(r) = by_model.get(model_profile_id) {
                return r;
            }
        }
        self.agent_for_model_profile(model_profile_id)
    }

    /// What a round runs on: the agent, the model and the runtime of both.
    /// `options` are those of the model with the effort that is asked for.
    pub fn choose_round(
        &self,
        opts: &StreamOptions,
        workflow_agent_id: &Option<String>,
        options: Result<JsonMap, String>,
    ) -> (r: Result<RoundChoice, AgentError>)
        ensures
            ({
                let agent = effective_agent(
                    self.parts.default_agent_profile@,
                    self.agents(),
                    option_text(opts.agent_id),
                    option_text(*workflow_agent_id),
                );
                let plain = effective_model_of_agent(
                    self.model_profile@,
                    self.model_registry@,
                    option_text(opts.model_profile_id),
                    agent.profile,
                );
                let key = runtime_key(plain.profile.id, opts.reasoning_effort);
                match agent.invalid_session_agent {
                    Some(id) if workflow_agent_id is Some => {
                        &&& r is Err
                        &&& r->Err_0@ == ErrorView::Other(
                            "active workflow node references unknown agent `"@ + id + "`"@,
                        )
                    },
                    _ => match (with_effort(plain, opts.reasoning_effort), options) {
                        (Some(_), Err(e)) => r is Err && r->Err_0@ == ErrorView::Other(e@),
                        (model, _) => {
                            &&& r is Ok
                            &&& r->Ok_0.agent@ == agent
                            &&& r->Ok_0.model@ == (match model {
                                Some(changed) => changed,
                                None => plain,
                            })
                            &&& r->Ok_0.runtime_key@ == key
                        },
                    },
                }
            }),
    {
        let agent = self.effective_agent_profile_for_workflow(&opts.agent_id, workflow_agent_id);
        check_workflow_agent(&agent, workflow_agent_id.is_some())?;
        let plain = self.effective_model_profile_for_agent(&opts.model_profile_id, &agent.profile);
        let runtime_key = model_runtime_key(&plain.profile.id, opts.reasoning_effort);
        match apply_reasoning_effort_override(plain, opts.reasoning_effort, options) {
            Ok(model) => Ok(RoundChoice { agent, model, runtime_key }),
            Err(e) => Err(AgentError::other(&e)),
        }
    }

    /// The runtime that a round was given.
    pub fn chosen_agent(&self, choice: &RoundChoice) -> (r: &AgentRuntime)
        ensures
            r@ == chosen_runtime(
                self.parts,
                self.model_profile@.id,
                choice.agent@.profile.id,
                choice.runtime_key@,
            ),
    {
        self.runtime_for_agent_and_model(&choice.agent.profile.id, &choice.runtime_key)
    }

    // --------------------------------------------------------------------- tools

    /// Every tool of the agent that the bot starts with, with what it is for,
    /// whether or not the agent may use it. The agent has no tool that is
    /// switched off.
    pub fn tool_list(&self) -> (r: Vec<(String, String)>)
        ensures
            pair_views(r@) == definitions(all_tools(self.tools)),
    {
        self.tools.tool_list()
    }

    /// The agent of a session, on the model of the session.
    pub open spec fn session_runtime(
        &self,
        agent_id: Option<Seq<char>>,
        model_id: Option<Seq<char>>,
    ) -> RuntimeView {
        let agent = effective_agent(
            self.parts.default_agent_profile@,
            self.agents(),
            agent_id,
            None,
        ).profile;
        let model = effective_model_of_agent(
            self.model_profile@,
            self.model_registry@,
            model_id,
            agent,
        ).profile;
        chosen_runtime(self.parts, self.model_profile@.id, agent.id, model.id)
    }

    /// The agent of a session, on the model of the session.
    pub fn active_agent(
        &self,
        session_agent_id: &Option<String>,
        session_model_profile_id: &Option<String>,
    ) -> (r: &AgentRuntime)
        ensures
            r@ == self.session_runtime(
                option_text(*session_agent_id),
                option_text(*session_model_profile_id),
            ),
    {
        let agent = self.effective_agent_profile(session_agent_id);
        let model = self.effective_model_profile_for_agent(
            session_model_profile_id,
            &agent.profile,
        );
        self.runtime_for_agent_and_model(&agent.profile.id, &model.profile.id)
    }

    /// The tools that the agent of a session can use. `known` are those that it
    /// has.
    pub fn tool_list_for_agent(
        &self,
        session_agent_id: &Option<String>,
        known: &Vec<(String, String)>,
    ) -> (r: Vec<(String, String)>)
        ensures
            pair_views(r@) == listed_tools(
                pair_views(known@),
                self.session_runtime(option_text(*session_agent_id), None).tool_allowlist,
            ),
    {
        self.tool_list_for_agent_and_model(session_agent_id, &None, known)
    }

    /// The tools that the agent of a session can use on the model of the session.
    /// `known` are those that it has.
    pub fn tool_list_for_agent_and_model(
        &self,
        session_agent_id: &Option<String>,
        session_model_profile_id: &Option<String>,
        known: &Vec<(String, String)>,
    ) -> (r: Vec<(String, String)>)
        ensures
            pair_views(r@) == listed_tools(
                pair_views(known@),
                self.session_runtime(
                    option_text(*session_agent_id),
                    option_text(*session_model_profile_id),
                ).tool_allowlist,
            ),
    {
        let agent = self.active_agent(session_agent_id, session_model_profile_id);
        list_permitted(known, &agent.tool_allowlist)
    }

    /// What is said of all tools.
    pub fn registered_tool_statuses(&self, around: &ToolSurroundings) -> (r: Vec<
        RegisteredToolStatus,
    >)
        ensures
            status_views(r@) == values(all_statuses(self.tools, *around)),
    {
        self.tools.registered_tool_statuses(around)
    }

    // -------------------------------------------------------------------- skills

    pub fn skill_summaries(&self) -> (r: Vec<SkillSummary>)
        ensures
            summary_views(r@) == self.skill_store.featured(),
    {
        self.skill_store.featured_summaries()
    }

    pub fn all_skill_summaries(&self) -> (r: Vec<SkillSummary>)
        ensures
            summary_views(r@) == self.skill_store.all(),
    {
        self.skill_store.all_summaries()
    }

    pub fn skill_load_diagnostics(&self) -> (r: Vec<SkillLoadDiagnostic>)
        ensures
            diagnostic_views(r@) == self.skill_store.problems(),
    {
        self.skill_store.load_diagnostics()
    }

    pub fn get_skill(&self, name: &str) -> (r: Result<Option<SkillDocument>, AgentError>)
        ensures
            match r {
                Ok(Some(d)) => self.skill_store.got(name@) == Ok::<_, ErrorView>(Some(d@)),
                Ok(None) => self.skill_store.got(name@) == Ok::<Option<DocumentView>, ErrorView>(
                    None,
                ),
                Err(e) => self.skill_store.got(name@) == Err::<Option<DocumentView>, _>(e@),
            },
    {
        self.skill_store.get(name)
    }

    /// The skills that were read in a session of the given state.
    pub fn read_skill_names(&self, user_state: &JsonValue) -> (r: Vec<String>)
        ensures
            texts(r@) == read_names(user_state@),
    {
        read_skill_names(user_state)
    }

    // --------------------------------------------------------------------- hooks

    /// What a hook is told of the session that it is run for.
    pub fn hook_context(&self, thread_id: &str, model: Option<String>, turn_id: Option<String>) -> (r:
        HookContext)
        ensures
            r.session_id@ == thread_id@,
            r.transcript_path is None,
            r.cwd@ == self.workspace_root@,
            r.model == model,
            r.turn_id == turn_id,
            r.permission_mode is None,
    {
        HookContext {
            session_id: thread_id.to_owned(),
            transcript_path: None,
            cwd: self.workspace_root.clone(),
            model,
            turn_id,
            permission_mode: None,
        }
    }
}

/// The agent that a bot starts with, on a model.
pub open spec fn own_runtime(parts: BotParts, model: Seq<char>, wanted: Seq<char>) -> RuntimeView {
    if wanted == model {
        parts.inner@
    } else {
        match value_of(seen(parts.model_agents@, runtime_view()), wanted) {
            Some(r) => r,
            None => parts.inner@,
        }
    }
}

/// An agent on a model.
pub open spec fn chosen_runtime(
    parts: BotParts,
    model: Seq<char>,
    agent: Seq<char>,
    wanted: Seq<char>,
) -> RuntimeView {
    let own = own_runtime(parts, model, wanted);
    if agent == parts.default_agent_profile@.id {
        own
    } else {
        match value_of(seen(parts.agent_runtimes@, runtimes_view()), agent) {
            Some(by_model) => match value_of(by_model, wanted) {
                Some(r) => r,
                None => own,
            },
            None => own,
        }
    }
}

// ---------------------------------------------------------------------- memory

/// Lets the memory of a session be compressed by hand: not while the session
/// runs, and not against a hook.
pub fn compaction_may_start(running: bool, pre: Option<HookReply>) -> (r: Result<(), AgentError>)
    ensures
        if running {
            &&& r is Err
            &&& r->Err_0@ == ErrorView::Other(
                "cannot compact memory while this session is running; wait for the current model/tool turn to finish or cancel it first"@,
            )
        } else {
            match pre {
                Some(reply) if stops(reply) => {
                    &&& r is Err
                    &&& r->Err_0@ == ErrorView::Other(
                        reason_or(reply, "context compaction blocked by hook"@),
                    )
                },
                _ => r is Ok,
            }
        },
{
    if running {
        return Err(
            AgentError::other(
                "cannot compact memory while this session is running; wait for the current model/tool turn to finish or cancel it first",
            ),
        );
    }
    if let Some(reply) = pre {
        if reply.blocked || matches!(reply.continue_flow, Some(false)) {
            let reason = match reply.reason {
                Some(r) => r,
                None => "context compaction blocked by hook".to_owned(),
            };
            return Err(AgentError::other(&reason));
        }
    }
    Ok(())
}

/// What the hooks are told once the memory was compressed, or was not.
pub open spec fn compaction_value(result: Result<u64, Seq<char>>) -> JsonView {
    let f = no_fields().push(("trigger"@, JsonView::Text("manual"@)));
    match result {
        Ok(n) => JsonView::Object(
            f.push(("success"@, JsonView::Bool(true))).push(
                ("compacted_messages"@, JsonView::Number(NumberView::Unsigned(n))),
            ),
        ),
        Err(e) => JsonView::Object(
            f.push(("success"@, JsonView::Bool(false))).push(("error"@, JsonView::Text(e))),
        ),
    }
}

/// What the hooks are told once the memory was compressed, or was not.
pub fn compaction_payload(result: &Result<u64, String>) -> (r: JsonValue)
    ensures
        r@ == compaction_value(
            match *result {
                Ok(n) => Ok(n),
                Err(e) => Err(e@),
            },
        ),
{
    let map = JsonMap::new().with("trigger", JsonValue::text("manual"));
    match result {
        Ok(n) => JsonValue::object(
            map.with("success", JsonValue::Bool(true)).with(
                "compacted_messages",
                JsonValue::unsigned(*n),
            ),
        ),
        Err(e) => JsonValue::object(
            map.with("success", JsonValue::Bool(false)).with("error", JsonValue::text(e)),
        ),
    }
}

/// The order in which two threads are locked, whichever way one is copied onto
/// the other: that of their names.
pub fn fork_thread_data(source_thread_id: &str, target_thread_id: &str) -> (r: Result<
    (String, String),
    AgentError,
>)
    ensures
        if source_thread_id@ == target_thread_id@ {
            r is Err && r->Err_0@ == ErrorView::Other("cannot fork a thread onto itself"@)
        } else {
            r is Ok && (r->Ok_0.0@, r->Ok_0.1@) == lock_order(source_thread_id@, target_thread_id@)
        },
{
    if str_eq(source_thread_id, target_thread_id) {
        return Err(AgentError::other("cannot fork a thread onto itself"));
    }
    if text_le(source_thread_id, target_thread_id) {
        Ok((source_thread_id.to_owned(), target_thread_id.to_owned()))
    } else {
        Ok((target_thread_id.to_owned(), source_thread_id.to_owned()))
    }
}

/// The order in which two threads are locked.
pub open spec fn lock_order(source: Seq<char>, target: Seq<char>) -> (Seq<char>, Seq<char>) {
    if lex_le(source, target) {
        (source, target)
    } else {
        (target, source)
    }
}

/// Two copies between the same threads lock them in the same order, so neither
/// waits for the other forever.
pub proof fn locks_are_taken_in_one_order(a: Seq<char>, b: Seq<char>)
    requires
        a != b,
    ensures
        lock_order(a, b) == lock_order(b, a),
{
    crate::order::dictionary_is_total();
    let leq = crate::order::dictionary();
    assert(leq(a, b) || leq(b, a));
    if leq(a, b) && leq(b, a) {
        assert(a == b);
    }
    assert(leq(a, b) == lex_le(a, b));
    assert(leq(b, a) == lex_le(b, a));
}

/// What is said when something that belongs to a thread fails.
pub fn thread_failure(doing: &str, error: &str) -> (r: AgentError)
    ensures
        r@ == ErrorView::Other(doing@ + ": "@ + error@),
{
    let mut m = doing.to_owned();
    m.push_str(": ");
    m.push_str(error);
    AgentError::other(&m)
}

/// Whether a thread is busy: a turn runs in it, or something that a turn left
/// in the background where that is switched on.
pub fn is_thread_running(locked: bool, async_agent: &Option<String>, background: bool) -> (r: bool)
    ensures
        r == (locked || (switched_on(option_text(*async_agent)) && background)),
{
    locked || (crate::runtime::options::async_agent_enabled(async_agent) && background)
}

// ------------------------------------------------------------------------ its laws

/// A turn runs with the runtime that its agent has for its model. Where the agent
/// has none for it, and where the agent is the default one, it is the bot's own for
/// that model; and where that is not there either, the one that the bot starts with.
pub proof fn agents_run_with_their_own_runtimes(
    parts: BotParts,
    model: Seq<char>,
    agent: Seq<char>,
    wanted: Seq<char>,
)
    ensures
        ({
            let r = chosen_runtime(parts, model, agent, wanted);
            let of_agent = value_of(seen(parts.agent_runtimes@, runtimes_view()), agent);
            let of_bot = value_of(seen(parts.model_agents@, runtime_view()), wanted);
            let own_one = agent != parts.default_agent_profile@.id && of_agent is Some && value_of(
                of_agent->0,
                wanted,
            ) is Some;
            &&& own_one ==> r == value_of(of_agent->0, wanted)->0
            &&& !own_one && wanted == model ==> r == parts.inner@
            &&& !own_one && wanted != model && of_bot is Some ==> r == of_bot->0
            &&& !own_one && wanted != model && of_bot is None ==> r == parts.inner@
        }),
{
}

/// The tools of a session are those of the agent that it names, run with the model
/// that it names.
pub proof fn a_session_gets_the_runtime_it_names(bot: CatBot, agent: Seq<char>, model: Seq<char>)
    requires
        trimmed(agent).len() > 0,
        trimmed(model).len() > 0,
        value_of(bot.agents(), trimmed(agent)) is Some,
        value_of(bot.model_registry@, trimmed(model)) is Some,
    ensures
        bot.session_runtime(Some(agent), Some(model)) == chosen_runtime(
            bot.parts,
            bot.model_profile@.id,
            value_of(bot.agents(), trimmed(agent))->0.id,
            value_of(bot.model_registry@, trimmed(model))->0.id,
        ),
{
    crate::runtime::effective::a_session_gets_the_model_it_names(
        bot.model_profile@,
        bot.model_registry@,
        model,
        value_of(bot.agents(), trimmed(agent))->0,
    );
}

/// A session that names nothing gets the runtime of the default agent.
pub proof fn a_plain_session_gets_the_default_agent(bot: CatBot, model: Option<Seq<char>>)
    ensures
        bot.session_runtime(None, model) == own_runtime(
            bot.parts,
            bot.model_profile@.id,
            effective_model_of_agent(
                bot.model_profile@,
                bot.model_registry@,
                model,
                bot.parts.default_agent_profile@,
            ).profile.id,
        ),
{
}

/// An effort that is asked for is used, and changes nothing else of the model; the
/// automatic one leaves the model as it is.
pub proof fn efforts_change_the_effort_only(plain: EffectiveModelView, effort: ReasoningEffort)
    ensures
        effort == ReasoningEffort::Auto <==> with_effort(plain, Some(effort)) is None,
        with_effort(plain, None) is None,
        with_effort(plain, Some(effort)) matches Some(m) ==> {
            &&& m.profile.reasoning_effort == Some(effort)
            &&& m.profile == ModelView {
                reasoning_effort: m.profile.reasoning_effort,
                ..plain.profile
            }
            &&& m.source == plain.source
            &&& m.invalid_session_model == plain.invalid_session_model
        },
{
}

/// What is told of a compaction: whether it went well, and how many messages it
/// took in or why it failed.
pub proof fn compactions_are_told_as_they_went(result: Result<u64, Seq<char>>)
    ensures
        member(compaction_value(result), "success"@) == Some(JsonView::Bool(result is Ok)),
        result matches Ok(n) ==> member(compaction_value(result), "compacted_messages"@) == Some(
            JsonView::Number(NumberView::Unsigned(n)),
        ),
        result matches Err(e) ==> member(compaction_value(result), "error"@) == Some(
            JsonView::Text(e),
        ),
{
    reveal_strlit("trigger");
    reveal_strlit("success");
    reveal_strlit("compacted_messages");
    reveal_strlit("error");
    assert("trigger"@[0] != "success"@[0]);
    let f0 = no_fields();
    let f1 = f0.push(("trigger"@, JsonView::Text("manual"@)));
    let f2 = f1.push(("success"@, JsonView::Bool(result is Ok)));
    let last = match result {
        Ok(n) => ("compacted_messages"@, JsonView::Number(NumberView::Unsigned(n))),
        Err(e) => ("error"@, JsonView::Text(e)),
    };
    lemma_field_push(f0, f1.last(), "success"@);
    lemma_field_push(f1, f2.last(), "success"@);
    lemma_field_push(f2, last, "success"@);
    lemma_field_push(f0, f1.last(), last.0);
    lemma_field_push(f1, f2.last(), last.0);
    lemma_field_push(f2, last, last.0);
}

/// Copying a thread locks both of its threads.
pub proof fn both_threads_are_locked(source: Seq<char>, target: Seq<char>)
    ensures
        lock_order(source, target) == (source, target) || lock_order(source, target) == (
            target,
            source,
        ),
{
}

} // verus!
