//! Workflows: what a supervisor leads an agent through.
use vstd::prelude::*;
use vstd::string::*;

use crate::error::{AgentError, ErrorView};
use crate::json::{JsonValue, JsonView};
use crate::message::{copy_option_text, option_text};
use crate::outside::current_time;
use crate::profile::{agent_view, copy_texts, AgentProfile, AgentView};
use crate::runtime::effective::{named, named_text};
use crate::text::{str_eq, texts};
use crate::text_map::{lemma_seen_value_of, seen, value_of, TextMap};

verus! {

broadcast use vstd::string::group_string_axioms;

#[derive(Debug, Clone, Copy, PartialEq, Eq, Structural)]
pub enum WorkflowStatus {
    Active,
    Paused,
    Completed,
    Error,
}

#[derive(Debug, Clone, Copy, PartialEq, Eq, Structural)]
pub enum WorkflowPauseReason {
    Manual,
    Interrupted,
    UserInput,
}

/// How often a supervisor may let an agent go on.
#[derive(Debug, Clone, Copy, PartialEq, Eq, Structural)]
pub enum GoalMaxRounds {
    Limited(u32),
    Unlimited,
}

/// Whether one round more is allowed.
pub fn workflow_round_allows_continue(max_rounds: &GoalMaxRounds, completed_continuations: u32) -> (r:
    bool)
    ensures
        r == match *max_rounds {
            GoalMaxRounds::Limited(max) => completed_continuations < max,
            GoalMaxRounds::Unlimited => true,
        },
{
    match max_rounds {
        GoalMaxRounds::Limited(max) => completed_continuations < *max,
        GoalMaxRounds::Unlimited => true,
    }
}

// ------------------------------------------------------------------ definition

#[derive(Debug, Clone, PartialEq, Eq)]
pub struct WorkflowNode {
    pub id: String,
    pub agent: Option<String>,
}

pub struct NodeView {
    pub id: Seq<char>,
    pub agent: Option<Seq<char>>,
}

impl View for WorkflowNode {
    type V = NodeView;

    open spec fn view(&self) -> NodeView {
        NodeView { id: self.id@, agent: option_text(self.agent) }
    }
}

pub open spec fn node_views(nodes: Seq<WorkflowNode>) -> Seq<NodeView> {
    nodes.map_values(|n: WorkflowNode| n@)
}

#[derive(Debug)]
pub struct WorkflowDefinition {
    pub id: String,
    pub name: String,
    pub initial_node: String,
    pub nodes: Vec<WorkflowNode>,
}

pub struct DefinitionView {
    pub id: Seq<char>,
    pub name: Seq<char>,
    pub initial_node: Seq<char>,
    pub nodes: Seq<NodeView>,
}

impl View for WorkflowDefinition {
    type V = DefinitionView;

    open spec fn view(&self) -> DefinitionView {
        DefinitionView {
            id: self.id@,
            name: self.name@,
            initial_node: self.initial_node@,
            nodes: node_views(self.nodes@),
        }
    }
}

/// The first node that names an agent which is not there, with that agent.
pub open spec fn unknown_agent(
    nodes: Seq<NodeView>,
    agents: Seq<(Seq<char>, AgentView)>,
) -> Option<(Seq<char>, Seq<char>)>
    decreases nodes.len(),
{
    if nodes.len() == 0 {
        None
    } else {
        match named_text(nodes[0].agent) {
            Some(agent) => if value_of(agents, agent) is Some {
                unknown_agent(nodes.drop_first(), agents)
            } else {
                Some((nodes[0].id, agent))
            },
            None => unknown_agent(nodes.drop_first(), agents),
        }
    }
}

pub open spec fn unknown_agent_error(node: Seq<char>, agent: Seq<char>) -> ErrorView {
    ErrorView::Other(
        "workflow node `"@ + node + "` references unknown agent `"@ + agent + "`"@,
    )
}

/// Whether every agent that a workflow names is there.
pub fn validate_workflow_agents(
    definition: &WorkflowDefinition,
    agents: &TextMap<AgentProfile>,
) -> (r: Result<(), AgentError>)
    ensures
        match unknown_agent(definition@.nodes, seen(agents@, agent_view())) {
            Some((node, agent)) => r is Err && r->Err_0@ == unknown_agent_error(node, agent),
            None => r is Ok,
        },
{
    let ghost known = seen(agents@, agent_view());
    let ghost all = definition@.nodes;
    let ghost goal = unknown_agent(all, known);
    let mut i: usize = 0;
    assert(all.skip(0) =~= all);
    while i < definition.nodes.len()
        invariant
            i <= definition.nodes.len(),
            known == seen(agents@, agent_view()),
            all == definition@.nodes,
            goal == unknown_agent(all, known),
            goal == unknown_agent(all.skip(i as int), known),
        decreases definition.nodes.len() - i,
    {
        let node = &definition.nodes[i];
        assert(all.skip(i as int)[0] == node@);
        assert(all.skip(i as int).drop_first() =~= all.skip(i + 1));
        match named(&node.agent) {
            Some(agent) => {
                proof {
                    lemma_seen_value_of(agents@, agent_view(), agent@);
                }
                if !agents.contains_key(&agent) {
                    let mut message = "workflow node `".to_owned();
                    message.push_str(&node.id);
                    message.push_str("` references unknown agent `");
                    message.push_str(&agent);
                    message.push_str("`");
                    return Err(AgentError::Other(message));
                }
            },
            None => {},
        }
        i += 1;
    }
    Ok(())
}

/// The agent of the first node with an id.
pub open spec fn agent_of_node(nodes: Seq<NodeView>, id: Seq<char>) -> Option<Seq<char>>
    decreases nodes.len(),
{
    if nodes.len() == 0 {
        None
    } else if nodes[0].id == id {
        nodes[0].agent
    } else {
        agent_of_node(nodes.drop_first(), id)
    }
}

impl WorkflowDefinition {
    /// The agent of a node.
    pub fn node_agent(&self, id: &str) -> (r: Option<String>)
        ensures
            option_text(r) == agent_of_node(self@.nodes, id@),
    {
        let ghost all = self@.nodes;
        let mut i: usize = 0;
        assert(all.skip(0) =~= all);
        while i < self.nodes.len()
            invariant
                i <= self.nodes.len(),
                all == self@.nodes,
                agent_of_node(all, id@) == agent_of_node(all.skip(i as int), id@),
            decreases self.nodes.len() - i,
        {
            assert(all.skip(i as int)[0] == self.nodes@[i as int]@);
            assert(all.skip(i as int).drop_first() =~= all.skip(i + 1));
            if str_eq(&self.nodes[i].id, id) {
                return copy_option_text(&self.nodes[i].agent);
            }
            i += 1;
        }
        None
    }
}

// -------------------------------------------------------------------- progress

/// What a supervisor did on its way to a decision.
#[derive(Debug)]
pub enum SupervisorTraceEvent {
    OutputDelta { content: String },
    Thinking { content: String },
    ToolCallStart { id: String, name: String },
    ToolCallArgumentsDelta { id: String, delta: String },
    ToolCall { id: String, name: String, args: JsonValue },
    ToolResult { id: String, name: String, args: JsonValue, result: String },
    Output { content: String },
    AgentMessage { content: String },
}

pub enum TraceView {
    OutputDelta(Seq<char>),
    Thinking(Seq<char>),
    ToolCallStart(Seq<char>, Seq<char>),
    ToolCallArgumentsDelta(Seq<char>, Seq<char>),
    ToolCall(Seq<char>, Seq<char>, JsonView),
    ToolResult(Seq<char>, Seq<char>, JsonView, Seq<char>),
    Output(Seq<char>),
    AgentMessage(Seq<char>),
}

impl View for SupervisorTraceEvent {
    type V = TraceView;

    open spec fn view(&self) -> TraceView {
        match self {
            SupervisorTraceEvent::OutputDelta { content } => TraceView::OutputDelta(content@),
            SupervisorTraceEvent::Thinking { content } => TraceView::Thinking(content@),
            SupervisorTraceEvent::ToolCallStart { id, name } => TraceView::ToolCallStart(
                id@,
                name@,
            ),
            SupervisorTraceEvent::ToolCallArgumentsDelta { id, delta } =>
                TraceView::ToolCallArgumentsDelta(id@, delta@),
            SupervisorTraceEvent::ToolCall { id, name, args } => TraceView::ToolCall(
                id@,
                name@,
                args@,
            ),
            SupervisorTraceEvent::ToolResult { id, name, args, result } => TraceView::ToolResult(
                id@,
                name@,
                args@,
                result@,
            ),
            SupervisorTraceEvent::Output { content } => TraceView::Output(content@),
            SupervisorTraceEvent::AgentMessage { content } => TraceView::AgentMessage(content@),
        }
    }
}

pub open spec fn trace_views(trace: Seq<SupervisorTraceEvent>) -> Seq<TraceView> {
    trace.map_values(|e: SupervisorTraceEvent| e@)
}

/// What is told of a step of a workflow.
#[derive(Debug)]
pub struct WorkflowReport {
    pub workflow_id: String,
    pub workflow_name: String,
    pub from_node: String,
    pub edge: Option<String>,
    pub to_node: String,
    pub path_edges: Vec<String>,
    pub path_nodes: Vec<String>,
    pub status: WorkflowStatus,
    pub reason: String,
    pub agent_message: Option<String>,
    pub next_node_message: Option<String>,
    pub supervisor_trace: Vec<SupervisorTraceEvent>,
    pub round: u32,
    pub max_rounds: GoalMaxRounds,
    pub error: Option<String>,
}

pub struct ReportView {
    pub workflow_id: Seq<char>,
    pub workflow_name: Seq<char>,
    pub from_node: Seq<char>,
    pub edge: Option<Seq<char>>,
    pub to_node: Seq<char>,
    pub path_edges: Seq<Seq<char>>,
    pub path_nodes: Seq<Seq<char>>,
    pub status: WorkflowStatus,
    pub reason: Seq<char>,
    pub agent_message: Option<Seq<char>>,
    pub next_node_message: Option<Seq<char>>,
    pub supervisor_trace: Seq<TraceView>,
    pub round: u32,
    pub max_rounds: GoalMaxRounds,
    pub error: Option<Seq<char>>,
}

impl View for WorkflowReport {
    type V = ReportView;

    open spec fn view(&self) -> ReportView {
        ReportView {
            workflow_id: self.workflow_id@,
            workflow_name: self.workflow_name@,
            from_node: self.from_node@,
            edge: option_text(self.edge),
            to_node: self.to_node@,
            path_edges: texts(self.path_edges@),
            path_nodes: texts(self.path_nodes@),
            status: self.status,
            reason: self.reason@,
            agent_message: option_text(self.agent_message),
            next_node_message: option_text(self.next_node_message),
            supervisor_trace: trace_views(self.supervisor_trace@),
            round: self.round,
            max_rounds: self.max_rounds,
            error: option_text(self.error),
        }
    }
}

/// A workflow on its way.
#[derive(Debug)]
pub struct WorkflowInstance {
    pub definition: WorkflowDefinition,
    pub context: JsonValue,
    pub current_node: String,
    pub incoming_edge: Option<String>,
    pub node_message: Option<String>,
    pub status: WorkflowStatus,
    pub pause_reason: Option<WorkflowPauseReason>,
    pub ask_user_for_help: Option<String>,
    pub max_rounds: GoalMaxRounds,
    pub last_report: Option<WorkflowReport>,
    pub updated_at: i64,
}

pub struct InstanceView {
    pub definition: DefinitionView,
    pub context: JsonView,
    pub current_node: Seq<char>,
    pub incoming_edge: Option<Seq<char>>,
    pub node_message: Option<Seq<char>>,
    pub status: WorkflowStatus,
    pub pause_reason: Option<WorkflowPauseReason>,
    pub ask_user_for_help: Option<Seq<char>>,
    pub max_rounds: GoalMaxRounds,
    pub last_report: Option<ReportView>,
    pub updated_at: i64,
}

pub open spec fn option_report(r: Option<WorkflowReport>) -> Option<ReportView> {
    match r {
        Some(v) => Some(v@),
        None => None,
    }
}

impl View for WorkflowInstance {
    type V = InstanceView;

    open spec fn view(&self) -> InstanceView {
        InstanceView {
            definition: self.definition@,
            context: self.context@,
            current_node: self.current_node@,
            incoming_edge: option_text(self.incoming_edge),
            node_message: option_text(self.node_message),
            status: self.status,
            pause_reason: self.pause_reason,
            ask_user_for_help: option_text(self.ask_user_for_help),
            max_rounds: self.max_rounds,
            last_report: option_report(self.last_report),
            updated_at: self.updated_at,
        }
    }
}

/// The agent that the current node of an active workflow asks for.
pub fn workflow_node_agent(instance: &WorkflowInstance) -> (r: Option<String>)
    ensures
        option_text(r) == if instance.status == WorkflowStatus::Active {
            agent_of_node(instance@.definition.nodes, instance@.current_node)
        } else {
            None
        },
{
    if instance.status != WorkflowStatus::Active {
        return None;
    }
    instance.definition.node_agent(&instance.current_node)
}

/// A report that a workflow stays where it is.
pub open spec fn standing_report(
    instance: InstanceView,
    status: WorkflowStatus,
    reason: Seq<char>,
    round: u32,
) -> ReportView {
    ReportView {
        workflow_id: instance.definition.id,
        workflow_name: instance.definition.name,
        from_node: instance.current_node,
        edge: None,
        to_node: instance.current_node,
        path_edges: Seq::empty(),
        path_nodes: Seq::empty(),
        status,
        reason,
        agent_message: None,
        next_node_message: None,
        supervisor_trace: Seq::empty(),
        round,
        max_rounds: instance.max_rounds,
        error: None,
    }
}

pub fn make_standing_report(
    instance: &WorkflowInstance,
    status: WorkflowStatus,
    reason: &str,
    round: u32,
) -> (r: WorkflowReport)
    ensures
        r@ == standing_report(instance@, status, reason@, round),
{
    let r = WorkflowReport {
        workflow_id: instance.definition.id.clone(),
        workflow_name: instance.definition.name.clone(),
        from_node: instance.current_node.clone(),
        edge: None,
        to_node: instance.current_node.clone(),
        path_edges: Vec::new(),
        path_nodes: Vec::new(),
        status,
        reason: reason.to_owned(),
        agent_message: None,
        next_node_message: None,
        supervisor_trace: Vec::new(),
        round,
        max_rounds: instance.max_rounds,
        error: None,
    };
    assert(texts(r.path_edges@) =~= Seq::<Seq<char>>::empty());
    assert(texts(r.path_nodes@) =~= Seq::<Seq<char>>::empty());
    assert(trace_views(r.supervisor_trace@) =~= Seq::<TraceView>::empty());
    r
}

// ----------------------------------------------------------------------- start

/// A workflow at its beginning.
pub open spec fn started(
    definition: DefinitionView,
    context: JsonView,
    max_rounds: GoalMaxRounds,
    now: i64,
) -> InstanceView {
    InstanceView {
        definition,
        context,
        current_node: definition.initial_node,
        incoming_edge: None,
        node_message: None,
        status: WorkflowStatus::Active,
        pause_reason: None,
        ask_user_for_help: None,
        max_rounds,
        last_report: None,
        updated_at: now,
    }
}

/// What keeps a workflow from starting: what is wrong with its definition, an
/// agent that is not there, a context that is no object.
pub open spec fn start_error(
    definition: DefinitionView,
    validation: Option<Seq<char>>,
    agents: Seq<(Seq<char>, AgentView)>,
    context: JsonView,
) -> Option<ErrorView> {
    match validation {
        Some(e) => Some(ErrorView::Other(e)),
        None => match unknown_agent(definition.nodes, agents) {
            Some((node, agent)) => Some(unknown_agent_error(node, agent)),
            None => if context is Object {
                None
            } else {
                Some(ErrorView::Other("workflow context must be a JSON object"@))
            },
        },
    }
}

/// Starts a workflow at a time, given what is wrong with its definition, if
/// anything.
pub fn start_workflow_at(
    definition: WorkflowDefinition,
    validation: Option<String>,
    agents: &TextMap<AgentProfile>,
    context: JsonValue,
    max_rounds: GoalMaxRounds,
    now: i64,
) -> (r: Result<WorkflowInstance, AgentError>)
    ensures
        match start_error(
            definition@,
            option_text(validation),
            seen(agents@, agent_view()),
            context@,
        ) {
            Some(e) => r is Err && r->Err_0@ == e,
            None => r is Ok && r->Ok_0@ == started(definition@, context@, max_rounds, now),
        },
{
    match validation {
        Some(e) => return Err(AgentError::Other(e)),
        None => {},
    }
    match validate_workflow_agents(&definition, agents) {
        Err(e) => return Err(e),
        Ok(_) => {},
    }
    if !context.is_object() {
        return Err(AgentError::other("workflow context must be a JSON object"));
    }
    Ok(
        WorkflowInstance {
            current_node: definition.initial_node.clone(),
            definition,
            context,
            incoming_edge: None,
            node_message: None,
            status: WorkflowStatus::Active,
            pause_reason: None,
            ask_user_for_help: None,
            max_rounds,
            last_report: None,
            updated_at: now,
        },
    )
}

/// Starts a workflow now.
pub fn start_workflow(
    definition: WorkflowDefinition,
    validation: Option<String>,
    agents: &TextMap<AgentProfile>,
    context: JsonValue,
    max_rounds: GoalMaxRounds,
) -> (r: Result<WorkflowInstance, AgentError>)
    ensures
        match start_error(
            definition@,
            option_text(validation),
            seen(agents@, agent_view()),
            context@,
        ) {
            Some(e) => r is Err && r->Err_0@ == e,
            None => r is Ok && exists|now: i64|
                r->Ok_0@ == #[trigger] started(definition@, context@, max_rounds, now),
        },
{
    let now = current_time();
    let ghost d = definition@;
    let ghost c = context@;
    let r = start_workflow_at(definition, validation, agents, context, max_rounds, now);
    assert(r is Ok ==> r->Ok_0@ == started(d, c, max_rounds, now));
    r
}

// -------------------------------------------------------------- pause and resume

/// A workflow that the user paused.
pub open spec fn paused(instance: InstanceView, now: i64) -> InstanceView {
    InstanceView {
        status: WorkflowStatus::Paused,
        pause_reason: Some(WorkflowPauseReason::Manual),
        updated_at: now,
        last_report: Some(
            standing_report(
                instance,
                WorkflowStatus::Paused,
                "paused by user"@,
                match instance.last_report {
                    Some(r) => r.round,
                    None => 0,
                },
            ),
        ),
        ..instance
    }
}

/// The user pauses a workflow.
pub fn pause_workflow_at(instance: &mut WorkflowInstance, now: i64)
    ensures
        final(instance)@ == paused(old(instance)@, now),
{
    let round: u32 = match &instance.last_report {
        Some(r) => r.round,
        None => 0,
    };
    let report = make_standing_report(instance, WorkflowStatus::Paused, "paused by user", round);
    instance.status = WorkflowStatus::Paused;
    instance.pause_reason = Some(WorkflowPauseReason::Manual);
    instance.updated_at = now;
    instance.last_report = Some(report);
}

/// The user pauses a workflow now.
pub fn pause_workflow(instance: &mut WorkflowInstance)
    ensures
        exists|now: i64| final(instance)@ == #[trigger] paused(old(instance)@, now),
{
    let now = current_time();
    pause_workflow_at(instance, now);
    assert(instance@ == paused(old(instance)@, now));
}

/// What is told of a workflow that was interrupted.
pub open spec fn interruption_report(
    instance: InstanceView,
    round: u32,
    reason: Seq<char>,
) -> ReportView {
    ReportView {
        next_node_message: instance.node_message,
        ..standing_report(instance, WorkflowStatus::Paused, reason, round)
    }
}

/// A workflow that was interrupted.
pub open spec fn interrupted(
    instance: InstanceView,
    round: u32,
    reason: Seq<char>,
    now: i64,
) -> InstanceView {
    InstanceView {
        status: WorkflowStatus::Paused,
        pause_reason: Some(WorkflowPauseReason::Interrupted),
        updated_at: now,
        last_report: Some(interruption_report(instance, round, reason)),
        ..instance
    }
}

fn copy_report(report: &WorkflowReport) -> (r: WorkflowReport)
    requires
        report.supervisor_trace.len() == 0,
    ensures
        r@ == report@,
{
    let r = WorkflowReport {
        workflow_id: report.workflow_id.clone(),
        workflow_name: report.workflow_name.clone(),
        from_node: report.from_node.clone(),
        edge: copy_option_text(&report.edge),
        to_node: report.to_node.clone(),
        path_edges: copy_texts(&report.path_edges),
        path_nodes: copy_texts(&report.path_nodes),
        status: report.status,
        reason: report.reason.clone(),
        agent_message: copy_option_text(&report.agent_message),
        next_node_message: copy_option_text(&report.next_node_message),
        supervisor_trace: Vec::new(),
        round: report.round,
        max_rounds: report.max_rounds,
        error: copy_option_text(&report.error),
    };
    assert(trace_views(r.supervisor_trace@) =~= trace_views(report.supervisor_trace@));
    r
}

/// An interruption pauses a workflow that is active; another it leaves as it is.
pub fn interrupt_workflow_at(
    instance: &mut WorkflowInstance,
    round: u32,
    reason: &str,
    now: i64,
) -> (r: Option<WorkflowReport>)
    ensures
        if old(instance)@.status == WorkflowStatus::Active {
            &&& option_report(r) == Some(interruption_report(old(instance)@, round, reason@))
            &&& final(instance)@ == interrupted(old(instance)@, round, reason@, now)
        } else {
            r is None && final(instance)@ == old(instance)@
        },
{
    if instance.status != WorkflowStatus::Active {
        return None;
    }
    let mut report = make_standing_report(instance, WorkflowStatus::Paused, reason, round);
    report.next_node_message = copy_option_text(&instance.node_message);
    instance.status = WorkflowStatus::Paused;
    instance.pause_reason = Some(WorkflowPauseReason::Interrupted);
    instance.updated_at = now;
    assert(trace_views(report.supervisor_trace@).len() == report.supervisor_trace@.len());
    instance.last_report = Some(copy_report(&report));
    Some(report)
}

/// An interruption pauses a workflow that is active now.
pub fn pause_workflow_for_user_interruption(
    instance: &mut WorkflowInstance,
    round: u32,
    reason: &str,
) -> (r: Option<WorkflowReport>)
    ensures
        if old(instance)@.status == WorkflowStatus::Active {
            &&& option_report(r) == Some(interruption_report(old(instance)@, round, reason@))
            &&& exists|now: i64|
                final(instance)@ == #[trigger] interrupted(old(instance)@, round, reason@, now)
        } else {
            r is None && final(instance)@ == old(instance)@
        },
{
    let now = current_time();
    let r = interrupt_workflow_at(instance, round, reason, now);
    assert(old(instance)@.status == WorkflowStatus::Active ==> instance@ == interrupted(
        old(instance)@,
        round,
        reason@,
        now,
    ));
    r
}

/// Whether input of the user lets a workflow go on.
pub open spec fn waits_after_interruption(instance: InstanceView) -> bool {
    instance.status == WorkflowStatus::Paused && instance.pause_reason == Some(
        WorkflowPauseReason::Interrupted,
    )
}

/// What is told of a workflow that goes on after an interruption.
pub open spec fn resume_report(instance: InstanceView, round: u32) -> ReportView {
    ReportView {
        edge: Some("interrupted_resume"@),
        path_edges: Seq::empty().push("interrupted_resume"@),
        path_nodes: Seq::empty().push(instance.current_node),
        next_node_message: instance.node_message,
        ..standing_report(
            instance,
            WorkflowStatus::Active,
            "user input received; resuming workflow"@,
            round,
        )
    }
}

/// A workflow that goes on after an interruption.
pub open spec fn resumed(instance: InstanceView, round: u32, now: i64) -> InstanceView {
    InstanceView {
        status: WorkflowStatus::Active,
        pause_reason: None,
        updated_at: now,
        last_report: Some(resume_report(instance, round)),
        ..instance
    }
}

/// Input of the user lets a workflow go on that was interrupted; another it
/// leaves as it is.
pub fn resume_workflow_at(instance: &mut WorkflowInstance, round: u32, now: i64) -> (r: Option<
    WorkflowReport,
>)
    ensures
        if waits_after_interruption(old(instance)@) {
            &&& option_report(r) == Some(resume_report(old(instance)@, round))
            &&& final(instance)@ == resumed(old(instance)@, round, now)
        } else {
            r is None && final(instance)@ == old(instance)@
        },
{
    let interrupted = match instance.pause_reason {
        Some(WorkflowPauseReason::Interrupted) => true,
        _ => false,
    };
    if instance.status != WorkflowStatus::Paused || !interrupted {
        return None;
    }
    let mut report = make_standing_report(
        instance,
        WorkflowStatus::Active,
        "user input received; resuming workflow",
        round,
    );
    report.edge = Some("interrupted_resume".to_owned());
    report.path_edges.push("interrupted_resume".to_owned());
    report.path_nodes.push(instance.current_node.clone());
    report.next_node_message = copy_option_text(&instance.node_message);
    assert(texts(report.path_edges@) =~= Seq::empty().push("interrupted_resume"@));
    assert(texts(report.path_nodes@) =~= Seq::empty().push(instance.current_node@));
    assert(trace_views(report.supervisor_trace@).len() == report.supervisor_trace@.len());
    instance.status = WorkflowStatus::Active;
    instance.pause_reason = None;
    instance.updated_at = now;
    instance.last_report = Some(copy_report(&report));
    Some(report)
}

/// Input of the user lets a workflow go on now that was interrupted.
pub fn resume_workflow_from_user_interruption(instance: &mut WorkflowInstance, round: u32) -> (r:
    Option<WorkflowReport>)
    ensures
        if waits_after_interruption(old(instance)@) {
            &&& option_report(r) == Some(resume_report(old(instance)@, round))
            &&& exists|now: i64|
                final(instance)@ == #[trigger] resumed(old(instance)@, round, now)
        } else {
            r is None && final(instance)@ == old(instance)@
        },
{
    let now = current_time();
    let r = resume_workflow_at(instance, round, now);
    assert(waits_after_interruption(old(instance)@) ==> instance@ == resumed(
        old(instance)@,
        round,
        now,
    ));
    r
}

/// What is told of a workflow that failed.
pub open spec fn failure_report(
    instance: InstanceView,
    node: Seq<char>,
    round: u32,
    error: Seq<char>,
) -> ReportView {
    ReportView {
        from_node: node,
        to_node: node,
        error: Some(error),
        ..standing_report(instance, WorkflowStatus::Error, error, round)
    }
}

/// A workflow that failed.
pub open spec fn failed(
    instance: InstanceView,
    node: Seq<char>,
    round: u32,
    error: Seq<char>,
    now: i64,
) -> InstanceView {
    InstanceView {
        status: WorkflowStatus::Error,
        updated_at: now,
        last_report: Some(failure_report(instance, node, round, error)),
        ..instance
    }
}

/// A workflow fails.
pub fn fail_workflow_at(
    instance: &mut WorkflowInstance,
    node: &str,
    round: u32,
    error: &str,
    now: i64,
) -> (r: WorkflowReport)
    ensures
        r@ == failure_report(old(instance)@, node@, round, error@),
        final(instance)@ == failed(old(instance)@, node@, round, error@, now),
{
    let mut report = make_standing_report(instance, WorkflowStatus::Error, error, round);
    report.from_node = node.to_owned();
    report.to_node = node.to_owned();
    report.error = Some(error.to_owned());
    assert(trace_views(report.supervisor_trace@).len() == report.supervisor_trace@.len());
    instance.status = WorkflowStatus::Error;
    instance.updated_at = now;
    instance.last_report = Some(copy_report(&report));
    report
}

/// A workflow fails now.
pub fn workflow_error(instance: &mut WorkflowInstance, node: &str, round: u32, error: &str) -> (r:
    WorkflowReport)
    ensures
        r@ == failure_report(old(instance)@, node@, round, error@),
        exists|now: i64|
            final(instance)@ == #[trigger] failed(old(instance)@, node@, round, error@, now),
{
    let now = current_time();
    let r = fail_workflow_at(instance, node, round, error, now);
    assert(instance@ == failed(old(instance)@, node@, round, error@, now));
    r
}

// ------------------------------------------------------------------------ laws

/// A workflow that was interrupted and goes on stands where it stood: only what
/// was last reported, and when, has changed.
pub proof fn resuming_undoes_an_interruption(
    instance: InstanceView,
    round: u32,
    reason: Seq<char>,
    then: i64,
    later_round: u32,
    now: i64,
)
    requires
        instance.status == WorkflowStatus::Active,
        instance.pause_reason is None,
    ensures
        waits_after_interruption(interrupted(instance, round, reason, then)),
        ({
            let back = resumed(interrupted(instance, round, reason, then), later_round, now);
            back == InstanceView {
                last_report: back.last_report,
                updated_at: now,
                ..instance
            }
        }),
{
}

/// What the user paused, input of the user does not let go on.
pub proof fn a_manual_pause_holds(instance: InstanceView, now: i64)
    ensures
        !waits_after_interruption(paused(instance, now)),
        paused(instance, now).status != WorkflowStatus::Active,
{
}

/// Pausing, resuming and failing leave a workflow where it is: its definition,
/// its context, its node and its limit stay.
pub proof fn workflows_stay_where_they_are(
    instance: InstanceView,
    round: u32,
    text: Seq<char>,
    now: i64,
)
    ensures
        ({
            let p = paused(instance, now);
            let i = interrupted(instance, round, text, now);
            let r = resumed(instance, round, now);
            let f = failed(instance, instance.current_node, round, text, now);
            &&& p.definition == instance.definition && i.definition == instance.definition
            &&& r.definition == instance.definition && f.definition == instance.definition
            &&& p.context == instance.context && i.context == instance.context
            &&& r.context == instance.context && f.context == instance.context
            &&& p.current_node == instance.current_node && i.current_node == instance.current_node
            &&& r.current_node == instance.current_node && f.current_node == instance.current_node
            &&& p.max_rounds == instance.max_rounds && i.max_rounds == instance.max_rounds
            &&& r.max_rounds == instance.max_rounds && f.max_rounds == instance.max_rounds
        }),
{
}

// -------------------------------------------------------------------- its course

proof fn lemma_unknown_agent(nodes: Seq<NodeView>, agents: Seq<(Seq<char>, AgentView)>)
    ensures
        unknown_agent(nodes, agents) is None <==> forall|i: int|
            0 <= i < nodes.len() ==> (match named_text((#[trigger] nodes[i]).agent) {
                Some(a) => value_of(agents, a) is Some,
                None => true,
            }),
        unknown_agent(nodes, agents) matches Some((node, agent)) ==> value_of(agents, agent) is None
            && exists|i: int|
            0 <= i < nodes.len() && (#[trigger] nodes[i]).id == node && named_text(nodes[i].agent)
                == Some(agent),
    decreases nodes.len(),
{
    if nodes.len() > 0 {
        let rest = nodes.drop_first();
        lemma_unknown_agent(rest, agents);
        assert(forall|i: int| 0 <= i < rest.len() ==> rest[i] == #[trigger] nodes[i + 1]);
        assert forall|i: int| 1 <= i < nodes.len() implies nodes[i] == #[trigger] rest[i - 1] by {}
        if unknown_agent(nodes, agents) is None {
            assert forall|i: int| 0 <= i < nodes.len() implies (match named_text(
                (#[trigger] nodes[i]).agent,
            ) {
                Some(a) => value_of(agents, a) is Some,
                None => true,
            }) by {
                if i > 0 {
                    assert(nodes[i] == rest[i - 1]);
                }
            }
        } else {
            let (node, agent) = unknown_agent(nodes, agents)->0;
            if unknown_agent(rest, agents) is Some && unknown_agent(nodes, agents) == unknown_agent(
                rest,
                agents,
            ) {
                let k = choose|i: int|
                    0 <= i < rest.len() && (#[trigger] rest[i]).id == node && named_text(
                        rest[i].agent,
                    ) == Some(agent);
                assert(nodes[k + 1] == rest[k]);
            } else {
                assert(nodes[0].id == node);
            }
        }
    }
}

/// A workflow can be started exactly where its definition is valid, every agent that
/// a node names is there, and its context is an object.
pub proof fn what_a_workflow_needs_to_start(
    definition: DefinitionView,
    validation: Option<Seq<char>>,
    agents: Seq<(Seq<char>, AgentView)>,
    context: JsonView,
)
    ensures
        start_error(definition, validation, agents, context) is None <==> {
            &&& validation is None
            &&& forall|i: int|
                0 <= i < definition.nodes.len() ==> (match named_text(
                    (#[trigger] definition.nodes[i]).agent,
                ) {
                    Some(a) => value_of(agents, a) is Some,
                    None => true,
                })
            &&& context is Object
        },
        validation is Some ==> start_error(definition, validation, agents, context) == Some(
            ErrorView::Other(validation->0),
        ),
{
    lemma_unknown_agent(definition.nodes, agents);
}

/// An agent that is said to be unknown is one that a node names, and is not there.
pub proof fn unknown_agents_are_named_by_a_node(
    nodes: Seq<NodeView>,
    agents: Seq<(Seq<char>, AgentView)>,
)
    ensures
        unknown_agent(nodes, agents) matches Some((node, agent)) ==> value_of(agents, agent) is None
            && exists|i: int|
            0 <= i < nodes.len() && (#[trigger] nodes[i]).id == node && named_text(nodes[i].agent)
                == Some(agent),
{
    lemma_unknown_agent(nodes, agents);
}

/// A workflow starts at its first node, active, with nothing said or reported yet,
/// and with what it was given.
pub proof fn a_workflow_starts_afresh(
    definition: DefinitionView,
    context: JsonView,
    max_rounds: GoalMaxRounds,
    now: i64,
)
    ensures
        ({
            let w = started(definition, context, max_rounds, now);
            &&& w.definition == definition
            &&& w.context == context
            &&& w.max_rounds == max_rounds
            &&& w.current_node == definition.initial_node
            &&& w.status == WorkflowStatus::Active
            &&& w.pause_reason is None && w.ask_user_for_help is None
            &&& w.node_message is None && w.incoming_edge is None && w.last_report is None
            &&& w.updated_at == now
        }),
{
}

/// A node is run by the agent that it names, and by no other node's.
pub proof fn a_node_is_run_by_its_own_agent(nodes: Seq<NodeView>, i: int)
    requires
        0 <= i < nodes.len(),
        forall|j: int| 0 <= j < i ==> (#[trigger] nodes[j]).id != nodes[i].id,
    ensures
        agent_of_node(nodes, nodes[i].id) == nodes[i].agent,
    decreases nodes.len(),
{
    if i > 0 {
        let rest = nodes.drop_first();
        assert(rest[i - 1] == nodes[i]);
        assert forall|j: int| 0 <= j < i - 1 implies (#[trigger] rest[j]).id != rest[i - 1].id by {
            assert(rest[j] == nodes[j + 1]);
        }
        assert(nodes[0].id != nodes[i].id);
        a_node_is_run_by_its_own_agent(rest, i - 1);
    }
}

/// A node that is not part of a workflow has no agent.
pub proof fn a_missing_node_has_no_agent(nodes: Seq<NodeView>, id: Seq<char>)
    requires
        forall|j: int| 0 <= j < nodes.len() ==> (#[trigger] nodes[j]).id != id,
    ensures
        agent_of_node(nodes, id) is None,
    decreases nodes.len(),
{
    if nodes.len() > 0 {
        let rest = nodes.drop_first();
        assert forall|j: int| 0 <= j < rest.len() implies (#[trigger] rest[j]).id != id by {
            assert(rest[j] == nodes[j + 1]);
        }
        assert(nodes[0].id != id);
        a_missing_node_has_no_agent(rest, id);
    }
}

/// What a change does to a workflow beside its status: it is dated, and a report
/// about it says the new status and stands at `node`; nothing else changes.
pub open spec fn changed_to(
    before: InstanceView,
    after: InstanceView,
    status: WorkflowStatus,
    pause_reason: Option<WorkflowPauseReason>,
    node: Seq<char>,
    round: u32,
    now: i64,
) -> bool {
    &&& after.status == status
    &&& after.pause_reason == pause_reason
    &&& after.updated_at == now
    &&& after.definition == before.definition
    &&& after.context == before.context
    &&& after.current_node == before.current_node
    &&& after.incoming_edge == before.incoming_edge
    &&& after.node_message == before.node_message
    &&& after.ask_user_for_help == before.ask_user_for_help
    &&& after.max_rounds == before.max_rounds
    &&& after.last_report is Some
    &&& {
        let r = after.last_report->0;
        &&& r.status == status
        &&& r.workflow_id == before.definition.id
        &&& r.workflow_name == before.definition.name
        &&& r.from_node == node
        &&& r.to_node == node
        &&& r.round == round
        &&& r.max_rounds == before.max_rounds
    }
}

/// Pausing, interrupting, going on and failing change the status of a workflow, each
/// to its own, and report it; what the workflow is and where it stands stays.
pub proof fn changes_are_reported(
    instance: InstanceView,
    node: Seq<char>,
    round: u32,
    text: Seq<char>,
    now: i64,
)
    ensures
        changed_to(
            instance,
            paused(instance, now),
            WorkflowStatus::Paused,
            Some(WorkflowPauseReason::Manual),
            instance.current_node,
            match instance.last_report {
                Some(r) => r.round,
                None => 0,
            },
            now,
        ),
        changed_to(
            instance,
            interrupted(instance, round, text, now),
            WorkflowStatus::Paused,
            Some(WorkflowPauseReason::Interrupted),
            instance.current_node,
            round,
            now,
        ),
        changed_to(
            instance,
            resumed(instance, round, now),
            WorkflowStatus::Active,
            None,
            instance.current_node,
            round,
            now,
        ),
        changed_to(
            instance,
            failed(instance, node, round, text, now),
            WorkflowStatus::Error,
            instance.pause_reason,
            node,
            round,
            now,
        ),
        interrupted(instance, round, text, now).last_report->0.reason == text,
        interrupted(instance, round, text, now).last_report->0.next_node_message
            == instance.node_message,
        resumed(instance, round, now).last_report->0.next_node_message == instance.node_message,
        failed(instance, node, round, text, now).last_report->0.error == Some(text),
        failed(instance, node, round, text, now).last_report->0.reason == text,
        paused(instance, now).last_report->0.error is None,
        interrupted(instance, round, text, now).last_report->0.error is None,
        resumed(instance, round, now).last_report->0.error is None,
{
}

/// Only a workflow that was interrupted goes on by itself when the user speaks.
pub proof fn only_interrupted_workflows_wait(instance: InstanceView)
    ensures
        waits_after_interruption(instance) <==> instance.status == WorkflowStatus::Paused
            && instance.pause_reason == Some(WorkflowPauseReason::Interrupted),
        instance.status == WorkflowStatus::Active ==> !waits_after_interruption(instance),
        instance.pause_reason == Some(WorkflowPauseReason::Manual) ==> !waits_after_interruption(
            instance,
        ),
{
}

} // verus!
