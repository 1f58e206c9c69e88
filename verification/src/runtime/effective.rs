//! Which agent and which model a turn runs with.
use vstd::prelude::*;
use vstd::string::*;

use crate::message::option_text;
use crate::profile::{
    agent_view, effort_text, efforts_have_their_own_names, model_view, AgentProfile, AgentView, ModelProfileConfig,
    ModelProfileRegistry, ModelView, ReasoningEffort,
};
use crate::json::{JsonMap, JsonView};
use crate::text::{trim, trimmed, trimming_is_idempotent};
use crate::text_map::{lemma_seen_value_of, seen, value_of, TextMap};

verus! {

broadcast use vstd::string::group_string_axioms;

/// What is named, without white space around it; none where nothing is left.
pub open spec fn named_text(s: Option<Seq<char>>) -> Option<Seq<char>> {
    match s {
        Some(t) => if trimmed(t).len() == 0 {
            None
        } else {
            Some(trimmed(t))
        },
        None => None,
    }
}

/// What is named, without white space around it.
pub fn named(s: &Option<String>) -> (r: Option<String>)
    ensures
        option_text(r) == named_text(option_text(*s)),
{
    match s {
        Some(t) => {
            let t = trim(t);
            if t.as_str().is_empty() {
                None
            } else {
                Some(t)
            }
        },
        None => None,
    }
}

// ----------------------------------------------------------------------- model

#[derive(Debug, Clone, Copy, PartialEq, Eq, Structural)]
pub enum EffectiveModelSource {
    Session,
    Default,
}

/// The model of a turn, where it comes from, and what the session asked for in
/// vain.
#[derive(Debug)]
pub struct EffectiveModelProfile {
    pub profile: ModelProfileConfig,
    pub source: EffectiveModelSource,
    pub invalid_session_model: Option<String>,
}

pub struct EffectiveModelView {
    pub profile: ModelView,
    pub source: EffectiveModelSource,
    pub invalid_session_model: Option<Seq<char>>,
}

impl View for EffectiveModelProfile {
    type V = EffectiveModelView;

    open spec fn view(&self) -> EffectiveModelView {
        EffectiveModelView {
            profile: self.profile@,
            source: self.source,
            invalid_session_model: option_text(self.invalid_session_model),
        }
    }
}

/// The model that a session asks for where there is one, else the default.
pub open spec fn effective_model(
    default_profile: ModelView,
    registry: Seq<(Seq<char>, ModelView)>,
    session: Option<Seq<char>>,
) -> EffectiveModelView {
    match named_text(session) {
        Some(id) => match value_of(registry, id) {
            Some(profile) => EffectiveModelView {
                profile,
                source: EffectiveModelSource::Session,
                invalid_session_model: None,
            },
            None => EffectiveModelView {
                profile: default_profile,
                source: EffectiveModelSource::Default,
                invalid_session_model: Some(id),
            },
        },
        None => EffectiveModelView {
            profile: default_profile,
            source: EffectiveModelSource::Default,
            invalid_session_model: None,
        },
    }
}

impl ModelProfileRegistry {
    /// The model of an id.
    pub fn get(&self, id: &str) -> (r: Option<&ModelProfileConfig>)
        ensures
            match r {
                Some(p) => value_of(self@, id@) == Some(p@),
                None => value_of(self@, id@) is None,
            },
    {
        proof {
            lemma_seen_value_of(self.profiles@, model_view(), id@);
        }
        self.profiles.get(id)
    }
}

/// The model that a session asks for where there is one, else the default.
pub fn resolve_effective_model_profile(
    default_profile: &ModelProfileConfig,
    registry: &ModelProfileRegistry,
    session_model_profile_id: &Option<String>,
) -> (r: EffectiveModelProfile)
    ensures
        r@ == effective_model(default_profile@, registry@, option_text(*session_model_profile_id)),
{
    match named(session_model_profile_id) {
        Some(id) => match registry.get(&id) {
            Some(profile) => EffectiveModelProfile {
                profile: profile.copy(),
                source: EffectiveModelSource::Session,
                invalid_session_model: None,
            },
            None => EffectiveModelProfile {
                profile: default_profile.copy(),
                source: EffectiveModelSource::Default,
                invalid_session_model: Some(id),
            },
        },
        None => EffectiveModelProfile {
            profile: default_profile.copy(),
            source: EffectiveModelSource::Default,
            invalid_session_model: None,
        },
    }
}

/// The model of an agent: what the session asks for, else the agent's primary
/// model, served as the agent says.
pub open spec fn effective_model_of_agent(
    default_profile: ModelView,
    registry: Seq<(Seq<char>, ModelView)>,
    session: Option<Seq<char>>,
    agent: AgentView,
) -> EffectiveModelView {
    match named_text(session) {
        Some(id) => effective_model(default_profile, registry, Some(id)),
        None => {
            let chosen = effective_model(default_profile, registry, agent.models.primary);
            EffectiveModelView {
                profile: ModelView {
                    model: match named_text(agent.model) {
                        Some(m) => m,
                        None => chosen.profile.model,
                    },
                    base_url: match named_text(agent.base_url) {
                        Some(u) => Some(u),
                        None => chosen.profile.base_url,
                    },
                    ..chosen.profile
                },
                source: chosen.source,
                invalid_session_model: if chosen.source == EffectiveModelSource::Default {
                    None
                } else {
                    chosen.invalid_session_model
                },
            }
        },
    }
}

/// The model of an agent.
pub fn effective_model_profile_for_agent(
    default_profile: &ModelProfileConfig,
    registry: &ModelProfileRegistry,
    session_model_profile_id: &Option<String>,
    agent: &AgentProfile,
) -> (r: EffectiveModelProfile)
    ensures
        r@ == effective_model_of_agent(
            default_profile@,
            registry@,
            option_text(*session_model_profile_id),
            agent@,
        ),
{
    let asked = named(session_model_profile_id);
    if asked.is_some() {
        return resolve_effective_model_profile(default_profile, registry, &asked);
    }
    let mut effective = resolve_effective_model_profile(
        default_profile,
        registry,
        &agent.models.primary,
    );
    if matches!(effective.source, EffectiveModelSource::Default) {
        effective.invalid_session_model = None;
    }
    match named(&agent.model) {
        Some(m) => {
            effective.profile.model = m;
        },
        None => {},
    }
    match named(&agent.base_url) {
        Some(u) => {
            effective.profile.base_url = Some(u);
        },
        None => {},
    }
    effective
}

/// What an effort that a session asks for makes of a model; the error is that of
/// the model's options, where the model does not take the effort.
pub fn apply_reasoning_effort_override(
    effective: EffectiveModelProfile,
    reasoning_effort: Option<ReasoningEffort>,
    options: Result<JsonMap, String>,
) -> (r: Result<EffectiveModelProfile, String>)
    ensures
        match reasoning_effort {
            None => r is Ok && r->Ok_0@ == effective@,
            Some(ReasoningEffort::Auto) => r is Ok && r->Ok_0@ == effective@,
            Some(effort) => match options {
                Err(e) => r is Err && r->Err_0@ == e@,
                Ok(_) => r is Ok && r->Ok_0@ == (EffectiveModelView {
                    profile: ModelView {
                        reasoning_effort: Some(effort),
                        ..effective@.profile
                    },
                    ..effective@
                }),
            },
        },
{
    let effort = match reasoning_effort {
        None => return Ok(effective),
        Some(ReasoningEffort::Auto) => return Ok(effective),
        Some(e) => e,
    };
    match options {
        Err(e) => Err(e),
        Ok(_) => {
            let mut r = effective;
            r.profile.reasoning_effort = Some(effort);
            Ok(r)
        },
    }
}

/// The key under which the runtime of a model with an effort is kept.
pub open spec fn runtime_key(profile_id: Seq<char>, effort: Option<ReasoningEffort>) -> Seq<char> {
    match effort {
        Some(e) => if e == ReasoningEffort::Auto {
            profile_id
        } else {
            profile_id + "::reasoning="@ + effort_text(e)
        },
        None => profile_id,
    }
}

/// The key under which the runtime of a model with an effort is kept.
pub fn model_runtime_key(profile_id: &str, reasoning_effort: Option<ReasoningEffort>) -> (r: String)
    ensures
        r@ == runtime_key(profile_id@, reasoning_effort),
{
    match reasoning_effort {
        Some(e) => {
            let mut key = profile_id.to_owned();
            if e != ReasoningEffort::Auto {
                key.push_str("::reasoning=");
                key.push_str(e.as_str());
            }
            key
        },
        None => profile_id.to_owned(),
    }
}

/// A model as it runs with one effort.
#[derive(Debug)]
pub struct ModelRuntimeVariant {
    pub key: String,
    pub profile: ModelProfileConfig,
    pub extra_options: JsonMap,
}

pub struct VariantView {
    pub key: Seq<char>,
    pub profile: ModelView,
    pub extra_options: Seq<(Seq<char>, JsonView)>,
}

impl View for ModelRuntimeVariant {
    type V = VariantView;

    open spec fn view(&self) -> VariantView {
        VariantView {
            key: self.key@,
            profile: self.profile@,
            extra_options: self.extra_options@,
        }
    }
}

/// The options of a model with an effort, or none where the model does not take
/// it.
#[derive(Debug)]
pub struct EffortOptions {
    pub effort: ReasoningEffort,
    pub options: Option<JsonMap>,
}

pub open spec fn variant_of(
    profile: ModelView,
    effort: ReasoningEffort,
    options: Seq<(Seq<char>, JsonView)>,
) -> VariantView {
    VariantView {
        key: runtime_key(profile.id, Some(effort)),
        profile: ModelView { reasoning_effort: Some(effort), ..profile },
        extra_options: options,
    }
}

/// The variants that a model runs in: plain, and with each effort that it takes.
pub open spec fn runtime_variants(
    profile: ModelView,
    plain: Seq<(Seq<char>, JsonView)>,
    efforts: Seq<EffortOptions>,
) -> Seq<VariantView>
    decreases efforts.len(),
{
    if efforts.len() == 0 {
        Seq::empty().push(VariantView { key: profile.id, profile, extra_options: plain })
    } else {
        let head = runtime_variants(profile, plain, efforts.drop_last());
        let e = efforts.last();
        match e.options {
            Some(o) => if e.effort == ReasoningEffort::Auto {
                head
            } else {
                head.push(variant_of(profile, e.effort, o@))
            },
            None => head,
        }
    }
}

pub open spec fn variant_views(s: Seq<ModelRuntimeVariant>) -> Seq<VariantView> {
    s.map_values(|v: ModelRuntimeVariant| v@)
}

/// The variants that a model runs in, given its options plain and with each
/// effort; the error is that of the plain options.
pub fn model_runtime_variants(
    profile: &ModelProfileConfig,
    plain: Result<JsonMap, String>,
    efforts: &Vec<EffortOptions>,
) -> (r: Result<Vec<ModelRuntimeVariant>, String>)
    ensures
        match plain {
            Err(e) => r is Err && r->Err_0@ == e@,
            Ok(options) => r is Ok && variant_views(r->Ok_0@) == runtime_variants(
                profile@,
                options@,
                efforts@,
            ),
        },
{
    let options = match plain {
        Ok(o) => o,
        Err(e) => return Err(e),
    };
    let ghost plain_view = options@;
    let mut out: Vec<ModelRuntimeVariant> = Vec::new();
    out.push(
        ModelRuntimeVariant {
            key: profile.id.clone(),
            profile: profile.copy(),
            extra_options: options,
        },
    );
    let mut i: usize = 0;
    assert(efforts@.take(0) =~= Seq::empty());
    assert(variant_views(out@) =~= runtime_variants(profile@, plain_view, efforts@.take(0)));
    while i < efforts.len()
        invariant
            i <= efforts.len(),
            variant_views(out@) == runtime_variants(profile@, plain_view, efforts@.take(i as int)),
        decreases efforts.len() - i,
    {
        assert(efforts@.take(i + 1).drop_last() =~= efforts@.take(i as int));
        let effort = efforts[i].effort;
        match &efforts[i].options {
            Some(o) => {
                if effort != ReasoningEffort::Auto {
                    let mut copy = profile.copy();
                    copy.reasoning_effort = Some(effort);
                    let ghost before = variant_views(out@);
                    out.push(
                        ModelRuntimeVariant {
                            key: model_runtime_key(&profile.id, Some(effort)),
                            profile: copy,
                            extra_options: o.copy(),
                        },
                    );
                    assert(variant_views(out@) =~= before.push(
                        variant_of(profile@, effort, o@),
                    ));
                }
            },
            None => {},
        }
        i += 1;
    }
    assert(efforts@.take(i as int) =~= efforts@);
    Ok(out)
}

// ----------------------------------------------------------------------- agent

#[derive(Debug, Clone, Copy, PartialEq, Eq, Structural)]
pub enum EffectiveAgentSource {
    Workflow,
    Session,
    Default,
}

/// The agent of a turn, where it comes from, and what was asked for in vain.
#[derive(Debug)]
pub struct EffectiveAgentProfile {
    pub profile: AgentProfile,
    pub source: EffectiveAgentSource,
    pub invalid_session_agent: Option<String>,
}

pub struct EffectiveAgentView {
    pub profile: AgentView,
    pub source: EffectiveAgentSource,
    pub invalid_session_agent: Option<Seq<char>>,
}

impl View for EffectiveAgentProfile {
    type V = EffectiveAgentView;

    open spec fn view(&self) -> EffectiveAgentView {
        EffectiveAgentView {
            profile: self.profile@,
            source: self.source,
            invalid_session_agent: option_text(self.invalid_session_agent),
        }
    }
}

pub open spec fn chosen_agent(
    default_profile: AgentView,
    agents: Seq<(Seq<char>, AgentView)>,
    id: Seq<char>,
    source: EffectiveAgentSource,
) -> EffectiveAgentView {
    match value_of(agents, id) {
        Some(profile) => EffectiveAgentView { profile, source, invalid_session_agent: None },
        None => EffectiveAgentView {
            profile: default_profile,
            source: EffectiveAgentSource::Default,
            invalid_session_agent: Some(id),
        },
    }
}

/// The agent that a workflow asks for, else the one that the session asks for,
/// else the default.
pub open spec fn effective_agent(
    default_profile: AgentView,
    agents: Seq<(Seq<char>, AgentView)>,
    session: Option<Seq<char>>,
    workflow: Option<Seq<char>>,
) -> EffectiveAgentView {
    match named_text(workflow) {
        Some(id) => chosen_agent(default_profile, agents, id, EffectiveAgentSource::Workflow),
        None => match named_text(session) {
            Some(id) => chosen_agent(default_profile, agents, id, EffectiveAgentSource::Session),
            None => EffectiveAgentView {
                profile: default_profile,
                source: EffectiveAgentSource::Default,
                invalid_session_agent: None,
            },
        },
    }
}

fn choose_agent(
    default_profile: &AgentProfile,
    agents: &TextMap<AgentProfile>,
    id: String,
    source: EffectiveAgentSource,
) -> (r: EffectiveAgentProfile)
    ensures
        r@ == chosen_agent(default_profile@, seen(agents@, agent_view()), id@, source),
{
    proof {
        lemma_seen_value_of(agents@, agent_view(), id@);
    }
    match agents.get(&id) {
        Some(profile) => EffectiveAgentProfile {
            profile: profile.copy(),
            source,
            invalid_session_agent: None,
        },
        None => EffectiveAgentProfile {
            profile: default_profile.copy(),
            source: EffectiveAgentSource::Default,
            invalid_session_agent: Some(id),
        },
    }
}

/// The agent of a turn.
pub fn effective_agent_profile_for_workflow(
    default_profile: &AgentProfile,
    agents: &TextMap<AgentProfile>,
    session_agent_id: &Option<String>,
    workflow_agent_id: &Option<String>,
) -> (r: EffectiveAgentProfile)
    ensures
        r@ == effective_agent(
            default_profile@,
            seen(agents@, agent_view()),
            option_text(*session_agent_id),
            option_text(*workflow_agent_id),
        ),
{
    match named(workflow_agent_id) {
        Some(id) => choose_agent(default_profile, agents, id, EffectiveAgentSource::Workflow),
        None => match named(session_agent_id) {
            Some(id) => choose_agent(default_profile, agents, id, EffectiveAgentSource::Session),
            None => EffectiveAgentProfile {
                profile: default_profile.copy(),
                source: EffectiveAgentSource::Default,
                invalid_session_agent: None,
            },
        },
    }
}

/// What the session asks for counts where the workflow asks for nothing; what
/// cannot be had gives the default, and only then is it reported.
pub proof fn agents_fall_back_to_the_default(
    default_profile: AgentView,
    agents: Seq<(Seq<char>, AgentView)>,
    session: Option<Seq<char>>,
    workflow: Option<Seq<char>>,
)
    ensures
        ({
            let r = effective_agent(default_profile, agents, session, workflow);
            &&& r.invalid_session_agent is Some ==> r.profile == default_profile && r.source
                == EffectiveAgentSource::Default
            &&& r.source == EffectiveAgentSource::Default ==> r.profile == default_profile
            &&& named_text(workflow) is None && named_text(session) is None
                ==> r.invalid_session_agent is None
        }),
{
}

/// What a session names is what it is given, where there is such a model; what it
/// names in vain is reported, and the default is used. White space around a name
/// does not count, and a blank name is none.
pub proof fn a_session_gets_the_model_it_names(
    default_profile: ModelView,
    registry: Seq<(Seq<char>, ModelView)>,
    session: Seq<char>,
    agent: AgentView,
)
    ensures
        ({
            let id = trimmed(session);
            let plain = effective_model(default_profile, registry, Some(session));
            let r = effective_model_of_agent(default_profile, registry, Some(session), agent);
            &&& id.len() > 0 ==> r == plain
            &&& id.len() > 0 && value_of(registry, id) is Some ==> plain.profile == value_of(
                registry,
                id,
            )->0 && plain.source == EffectiveModelSource::Session && plain.invalid_session_model
                is None
            &&& id.len() > 0 && value_of(registry, id) is None ==> plain.profile == default_profile
                && plain.source == EffectiveModelSource::Default && plain.invalid_session_model
                == Some(id)
            &&& id.len() == 0 ==> plain.profile == default_profile && plain.source
                == EffectiveModelSource::Default && plain.invalid_session_model is None
            &&& id.len() == 0 ==> r == effective_model_of_agent(
                default_profile,
                registry,
                None,
                agent,
            )
        }),
{
    trimming_is_idempotent(session);
}

/// Where the session names no model, an agent runs with its primary model where
/// there is one of that name, and else with the default; only the name under which
/// the model is served, and where, are as the agent says, where it says so.
pub proof fn an_agent_runs_with_its_primary_model(
    default_profile: ModelView,
    registry: Seq<(Seq<char>, ModelView)>,
    agent: AgentView,
)
    ensures
        ({
            let r = effective_model_of_agent(default_profile, registry, None, agent);
            let base = match agent.models.primary {
                Some(p) => if trimmed(p).len() > 0 && value_of(registry, trimmed(p)) is Some {
                    value_of(registry, trimmed(p))->0
                } else {
                    default_profile
                },
                None => default_profile,
            };
            &&& r.profile.id == base.id
            &&& r.profile == ModelView {
                model: r.profile.model,
                base_url: r.profile.base_url,
                ..base
            }
            &&& (agent.model is None || trimmed(agent.model->0).len() == 0) ==> r.profile.model
                == base.model
            &&& agent.model is Some && trimmed(agent.model->0).len() > 0 ==> r.profile.model
                == trimmed(agent.model->0)
            &&& (agent.base_url is None || trimmed(agent.base_url->0).len() == 0)
                ==> r.profile.base_url == base.base_url
            &&& agent.base_url is Some && trimmed(agent.base_url->0).len() > 0
                ==> r.profile.base_url == Some(trimmed(agent.base_url->0))
            &&& r.invalid_session_model is None
        }),
{
}

/// The agent of a turn is the one that the workflow names, else the one that the
/// session names, where there is such an agent; what is named in vain is reported,
/// and the default is used.
pub proof fn a_turn_gets_the_agent_that_is_named(
    default_profile: AgentView,
    agents: Seq<(Seq<char>, AgentView)>,
    session: Option<Seq<char>>,
    workflow: Option<Seq<char>>,
)
    ensures
        ({
            let r = effective_agent(default_profile, agents, session, workflow);
            let by_workflow = workflow is Some && trimmed(workflow->0).len() > 0;
            let by_session = session is Some && trimmed(session->0).len() > 0;
            let id = if by_workflow {
                trimmed(workflow->0)
            } else {
                trimmed(session->0)
            };
            if !by_workflow && !by_session {
                r.profile == default_profile && r.source == EffectiveAgentSource::Default
            } else if value_of(agents, id) is Some {
                &&& r.profile == value_of(agents, id)->0
                &&& r.invalid_session_agent is None
                &&& r.source == if by_workflow {
                    EffectiveAgentSource::Workflow
                } else {
                    EffectiveAgentSource::Session
                }
            } else {
                &&& r.profile == default_profile
                &&& r.source == EffectiveAgentSource::Default
                &&& r.invalid_session_agent == Some(id)
            }
        }),
{
}

/// Runtimes of one model with different efforts, other than the automatic one, are
/// kept apart; without an effort, or with the automatic one, it is the model's own.
pub proof fn efforts_have_their_own_runtimes(
    profile_id: Seq<char>,
    a: ReasoningEffort,
    b: ReasoningEffort,
)
    ensures
        runtime_key(profile_id, None) == profile_id,
        runtime_key(profile_id, Some(ReasoningEffort::Auto)) == profile_id,
        a != ReasoningEffort::Auto ==> runtime_key(profile_id, Some(a)) != profile_id,
        a != ReasoningEffort::Auto && b != ReasoningEffort::Auto && runtime_key(
            profile_id,
            Some(a),
        ) == runtime_key(profile_id, Some(b)) ==> a == b,
{
    reveal_strlit("::reasoning=");
    if a != ReasoningEffort::Auto {
        assert(runtime_key(profile_id, Some(a)).len() > profile_id.len());
    }
    if a != ReasoningEffort::Auto && b != ReasoningEffort::Auto && runtime_key(
        profile_id,
        Some(a),
    ) == runtime_key(profile_id, Some(b)) {
        let head = profile_id + "::reasoning="@;
        assert((head + effort_text(a)).skip(head.len() as int) =~= effort_text(a));
        assert((head + effort_text(b)).skip(head.len() as int) =~= effort_text(b));
        efforts_have_their_own_names(a, b);
    }
}

/// A model can be run as it is, and with each effort that it takes: the first
/// variant is the model itself with its plain options, and for every effort with
/// options there is one with that effort and those options.
pub proof fn every_effort_has_its_variant(
    profile: ModelView,
    plain: Seq<(Seq<char>, JsonView)>,
    efforts: Seq<EffortOptions>,
)
    ensures
        ({
            let all = runtime_variants(profile, plain, efforts);
            &&& 1 <= all.len() <= efforts.len() + 1
            &&& all[0].profile == profile && all[0].extra_options == plain && all[0].key
                == profile.id
            &&& forall|i: int|
                0 <= i < efforts.len() && efforts[i].options is Some && efforts[i].effort
                    != ReasoningEffort::Auto ==> exists|k: int|
                    0 < k < all.len() && (#[trigger] all[k]).profile.reasoning_effort == Some(
                        (#[trigger] efforts[i]).effort,
                    ) && all[k].extra_options == efforts[i].options->0@ && all[k].key
                        == runtime_key(profile.id, Some(efforts[i].effort)) && all[k].profile.id
                        == profile.id
        }),
    decreases efforts.len(),
{
    let all = runtime_variants(profile, plain, efforts);
    if efforts.len() > 0 {
        let head = runtime_variants(profile, plain, efforts.drop_last());
        every_effort_has_its_variant(profile, plain, efforts.drop_last());
        assert forall|i: int|
            0 <= i < efforts.len() && efforts[i].options is Some && efforts[i].effort
                != ReasoningEffort::Auto implies exists|k: int|
            0 < k < all.len() && (#[trigger] all[k]).profile.reasoning_effort == Some(
                (#[trigger] efforts[i]).effort,
            ) && all[k].extra_options == efforts[i].options->0@ && all[k].key == runtime_key(
                profile.id,
                Some(efforts[i].effort),
            ) && all[k].profile.id == profile.id by {
            if i < efforts.len() - 1 {
                assert(efforts.drop_last()[i] == efforts[i]);
                let k = choose|k: int|
                    0 < k < head.len() && (#[trigger] head[k]).profile.reasoning_effort == Some(
                        efforts[i].effort,
                    ) && head[k].extra_options == efforts[i].options->0@ && head[k].key
                        == runtime_key(profile.id, Some(efforts[i].effort)) && head[k].profile.id
                        == profile.id;
                assert(all[k] == head[k]);
            } else {
                assert(all[all.len() - 1] == variant_of(
                    profile,
                    efforts[i].effort,
                    efforts[i].options->0@,
                ));
            }
        }
    }
}

} // verus!
