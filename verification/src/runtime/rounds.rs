//! What a workflow does between the turns of an agent.
use vstd::prelude::*;
use vstd::string::*;

use crate::json::{
    field, member, set_field_is_read_back, with_field, JsonMap, JsonValue, JsonView,
};
use crate::message::{option_text, Content, ContentView};
use crate::profile::{effort_text, ReasoningEffort};
use crate::runtime::options::StreamOptions;
use crate::runtime::turn::Evaluation;
use crate::workflow::{
    failed, failure_report, interrupted, interruption_report, make_standing_report, option_report,
    pause_workflow_for_user_interruption, standing_report, workflow_error,
    workflow_round_allows_continue, GoalMaxRounds, InstanceView, ReportView, WorkflowInstance,
    WorkflowReport, WorkflowStatus,
};

verus! {

broadcast use vstd::string::group_string_axioms;

/// What came of a round: no workflow, an end by the user, a report, or a report
/// with what the agent is told to go on.
#[derive(Debug)]
pub enum WorkflowRoundOutcome {
    NoWorkflow,
    Cancelled,
    Report(WorkflowReport),
    Continue { report: WorkflowReport, message: String },
}

pub enum OutcomeView {
    NoWorkflow,
    Cancelled,
    Report(ReportView),
    Continue(ReportView, Seq<char>),
}

impl View for WorkflowRoundOutcome {
    type V = OutcomeView;

    open spec fn view(&self) -> OutcomeView {
        match self {
            WorkflowRoundOutcome::NoWorkflow => OutcomeView::NoWorkflow,
            WorkflowRoundOutcome::Cancelled => OutcomeView::Cancelled,
            WorkflowRoundOutcome::Report(r) => OutcomeView::Report(r@),
            WorkflowRoundOutcome::Continue { report, message } => OutcomeView::Continue(
                report@,
                message@,
            ),
        }
    }
}

/// Whether the supervisor is asked: only where a workflow is active.
pub fn supervisor_decides(instance: &Option<WorkflowInstance>) -> (r: bool)
    ensures
        r == asks_supervisor(option_instance(*instance)),
{
    match instance {
        Some(i) => i.status == WorkflowStatus::Active,
        None => false,
    }
}

/// What a decision that was applied leads to: the agent goes on where it is told
/// something and a round more is allowed.
pub open spec fn decided(
    report: ReportView,
    message: Option<Seq<char>>,
    max_rounds: GoalMaxRounds,
    completed: u32,
) -> OutcomeView {
    match message {
        None => OutcomeView::Report(report),
        Some(m) => match max_rounds {
            GoalMaxRounds::Limited(max) => if completed < max {
                OutcomeView::Continue(report, m)
            } else {
                OutcomeView::Report(report)
            },
            GoalMaxRounds::Unlimited => OutcomeView::Continue(report, m),
        },
    }
}

/// What a decision that was applied leads to.
pub fn round_after_decision(
    report: WorkflowReport,
    agent_message: Option<String>,
    max_rounds: &GoalMaxRounds,
    completed_continuations: u32,
) -> (r: WorkflowRoundOutcome)
    ensures
        r@ == decided(report@, option_text(agent_message), *max_rounds, completed_continuations),
{
    match agent_message {
        None => WorkflowRoundOutcome::Report(report),
        Some(message) => if workflow_round_allows_continue(max_rounds, completed_continuations) {
            WorkflowRoundOutcome::Continue { report, message }
        } else {
            WorkflowRoundOutcome::Report(report)
        },
    }
}

/// What a supervisor that failed, or whose decision was refused, leads to.
pub fn round_after_failure(
    instance: &mut WorkflowInstance,
    from_node: &str,
    completed_continuations: u32,
    error: &str,
) -> (r: WorkflowRoundOutcome)
    ensures
        r@ == OutcomeView::Report(
            failure_report(old(instance)@, from_node@, completed_continuations, error@),
        ),
        exists|now: i64|
            final(instance)@ == #[trigger] failed(
                old(instance)@,
                from_node@,
                completed_continuations,
                error@,
                now,
            ),
{
    WorkflowRoundOutcome::Report(
        workflow_error(instance, from_node, completed_continuations, error),
    )
}

pub open spec fn option_instance(instance: Option<WorkflowInstance>) -> Option<InstanceView> {
    match instance {
        Some(i) => Some(i@),
        None => None,
    }
}

/// Whether an interruption has paused a workflow as it should: an active one is
/// paused now and reported, else nothing changes.
pub open spec fn pauses(
    before: Option<InstanceView>,
    after: Option<InstanceView>,
    report: Option<ReportView>,
    round: u32,
    reason: Seq<char>,
) -> bool {
    if before is Some && before->0.status == WorkflowStatus::Active {
        &&& report == Some(interruption_report(before->0, round, reason))
        &&& after is Some
        &&& exists|now: i64| after->0 == #[trigger] interrupted(before->0, round, reason, now)
    } else {
        report is None && after == before
    }
}

/// An interruption pauses the workflow of a thread, where it has one.
pub fn interrupt_thread(instance: &mut Option<WorkflowInstance>, round: u32, reason: &str) -> (r:
    Option<WorkflowReport>)
    ensures
        pauses(
            option_instance(*old(instance)),
            option_instance(*final(instance)),
            option_report(r),
            round,
            reason@,
        ),
{
    let mut taken: Option<WorkflowInstance> = None;
    std::mem::swap(&mut taken, instance);
    match taken {
        None => None,
        Some(i) => {
            let mut current = i;
            let report = pause_workflow_for_user_interruption(&mut current, round, reason);
            *instance = Some(current);
            report
        },
    }
}

/// What a supervisor that the user stopped leads to, given the workflow as it is
/// then: an active one is paused.
pub fn round_after_cancellation(instance: &mut Option<WorkflowInstance>, completed_continuations: u32)
    -> (r: WorkflowRoundOutcome)
    ensures
        match r@ {
            OutcomeView::Report(report) => pauses(
                option_instance(*old(instance)),
                option_instance(*final(instance)),
                Some(report),
                completed_continuations,
                "interrupted by user"@,
            ),
            OutcomeView::Cancelled => pauses(
                option_instance(*old(instance)),
                option_instance(*final(instance)),
                None,
                completed_continuations,
                "interrupted by user"@,
            ),
            _ => false,
        },
{
    match interrupt_thread(instance, completed_continuations, "interrupted by user") {
        Some(report) => WorkflowRoundOutcome::Report(report),
        None => WorkflowRoundOutcome::Cancelled,
    }
}

// ------------------------------------------------------------------- the whole round

/// What applying a decision came to: the workflow as applying left it, and what
/// is told of it and of the agent, or why the decision was refused.
#[derive(Debug)]
pub struct AppliedDecision {
    pub instance: WorkflowInstance,
    pub result: Result<(WorkflowReport, Option<String>), String>,
}

/// What came of asking the supervisor.
#[derive(Debug)]
pub enum SupervisorNodeOutcome {
    /// It decided, and the decision was applied.
    Decision(AppliedDecision),
    /// The user stopped it; the workflow as it is then.
    Cancelled(Option<WorkflowInstance>),
    /// It failed.
    Failed(String),
}

/// What a round comes to, and the workflow that is to be written.
#[derive(Debug)]
pub struct RoundEvaluation {
    pub outcome: WorkflowRoundOutcome,
    pub written: Option<WorkflowInstance>,
}

/// Whether the supervisor is asked.
pub open spec fn asks_supervisor(instance: Option<InstanceView>) -> bool {
    instance is Some && instance->0.status == WorkflowStatus::Active
}

/// Whether an evaluation is what follows from what came of the supervisor that
/// was asked about `instance`.
pub open spec fn evaluates(
    r: RoundEvaluation,
    instance: InstanceView,
    supervised: SupervisorNodeOutcome,
    completed: u32,
) -> bool {
    match supervised {
        SupervisorNodeOutcome::Decision(applied) => match applied.result {
            Ok((report, message)) => {
                &&& r.outcome@ == decided(
                    report@,
                    option_text(message),
                    applied.instance.max_rounds,
                    completed,
                )
                &&& option_instance(r.written) == Some(applied.instance@)
            },
            Err(error) => {
                &&& r.outcome@ == OutcomeView::Report(
                    failure_report(applied.instance@, instance.current_node, completed, error@),
                )
                &&& r.written is Some
                &&& exists|now: i64|
                    r.written->0@ == #[trigger] failed(
                        applied.instance@,
                        instance.current_node,
                        completed,
                        error@,
                        now,
                    )
            },
        },
        SupervisorNodeOutcome::Failed(error) => {
            &&& r.outcome@ == OutcomeView::Report(
                failure_report(instance, instance.current_node, completed, error@),
            )
            &&& r.written is Some
            &&& exists|now: i64|
                r.written->0@ == #[trigger] failed(
                    instance,
                    instance.current_node,
                    completed,
                    error@,
                    now,
                )
        },
        SupervisorNodeOutcome::Cancelled(current) => if asks_supervisor(option_instance(current)) {
            &&& r.outcome@ is Report
            &&& pauses(
                option_instance(current),
                option_instance(r.written),
                Some(r.outcome@->Report_0),
                completed,
                "interrupted by user"@,
            )
        } else {
            r.outcome@ == OutcomeView::Cancelled && r.written is None
        },
    }
}

/// What a round comes to, given the workflow of the thread, and what came of the
/// supervisor where it was asked about an active one.
pub fn evaluate_workflow_after_round(
    instance: Option<WorkflowInstance>,
    supervised: Option<SupervisorNodeOutcome>,
    completed_continuations: u32,
) -> (r: RoundEvaluation)
    requires
        asks_supervisor(option_instance(instance)) ==> supervised is Some,
    ensures
        if asks_supervisor(option_instance(instance)) {
            evaluates(r, instance->0@, supervised->0, completed_continuations)
        } else {
            r.outcome@ == OutcomeView::NoWorkflow && r.written is None
        },
{
    let mut instance = match instance {
        Some(i) => i,
        None => return RoundEvaluation { outcome: WorkflowRoundOutcome::NoWorkflow, written: None },
    };
    if instance.status != WorkflowStatus::Active {
        return RoundEvaluation { outcome: WorkflowRoundOutcome::NoWorkflow, written: None };
    }
    let from_node = instance.current_node.clone();
    match supervised {
        Some(SupervisorNodeOutcome::Decision(applied)) => {
            let mut left = applied.instance;
            match applied.result {
                Ok((report, message)) => {
                    let outcome = round_after_decision(
                        report,
                        message,
                        &left.max_rounds,
                        completed_continuations,
                    );
                    RoundEvaluation { outcome, written: Some(left) }
                },
                Err(error) => {
                    let outcome = round_after_failure(
                        &mut left,
                        &from_node,
                        completed_continuations,
                        &error,
                    );
                    RoundEvaluation { outcome, written: Some(left) }
                },
            }
        },
        Some(SupervisorNodeOutcome::Failed(error)) => {
            let outcome = round_after_failure(
                &mut instance,
                &from_node,
                completed_continuations,
                &error,
            );
            RoundEvaluation { outcome, written: Some(instance) }
        },
        Some(SupervisorNodeOutcome::Cancelled(current)) => {
            let mut current = current;
            match round_after_cancellation(&mut current, completed_continuations) {
                WorkflowRoundOutcome::Report(report) => RoundEvaluation {
                    outcome: WorkflowRoundOutcome::Report(report),
                    written: current,
                },
                other => RoundEvaluation { outcome: other, written: None },
            }
        },
        None => RoundEvaluation { outcome: WorkflowRoundOutcome::NoWorkflow, written: None },
    }
}

/// What a round comes to, as the course of the turn sees it.
pub open spec fn evaluation_of(outcome: OutcomeView) -> Evaluation {
    match outcome {
        OutcomeView::NoWorkflow => Evaluation::NoWorkflow,
        OutcomeView::Cancelled => Evaluation::Cancelled,
        OutcomeView::Report(_) => Evaluation::Report,
        OutcomeView::Continue(_, _) => Evaluation::Continue,
    }
}

impl WorkflowRoundOutcome {
    /// What the round comes to, as the course of the turn sees it.
    pub fn evaluation(&self) -> (r: Evaluation)
        ensures
            r == evaluation_of(self@),
    {
        match self {
            WorkflowRoundOutcome::NoWorkflow => Evaluation::NoWorkflow,
            WorkflowRoundOutcome::Cancelled => Evaluation::Cancelled,
            WorkflowRoundOutcome::Report(_) => Evaluation::Report,
            WorkflowRoundOutcome::Continue { .. } => Evaluation::Continue,
        }
    }
}

// --------------------------------------------------------------- at the beginning

pub open spec fn put_text(
    fields: Seq<(Seq<char>, JsonView)>,
    key: Seq<char>,
    value: Option<Seq<char>>,
) -> Seq<(Seq<char>, JsonView)> {
    match value {
        Some(s) => with_field(fields, key, JsonView::Text(s)),
        None => fields,
    }
}

pub open spec fn option_effort(effort: Option<ReasoningEffort>) -> Option<Seq<char>> {
    match effort {
        Some(e) => Some(effort_text(e)),
        None => None,
    }
}

/// The context of a workflow with what is known of the session.
pub open spec fn session_context(context: JsonView, opts: StreamOptions) -> JsonView {
    match context {
        JsonView::Object(f) => {
            let f = put_text(f, "session_model_profile_id"@, option_text(opts.model_profile_id));
            let f = put_text(f, "session_agent_id"@, option_text(opts.agent_id));
            let f = put_text(
                f,
                "session_reasoning_effort"@,
                option_effort(opts.reasoning_effort),
            );
            let f = put_text(f, "session_platform"@, option_text(opts.platform));
            let f = put_text(f, "session_chat_type"@, option_text(opts.chat_type));
            let f = put_text(f, "session_sender_user_id"@, option_text(opts.sender_user_id));
            JsonView::Object(
                put_text(f, "session_sender_username"@, option_text(opts.sender_username)),
            )
        },
        _ => context,
    }
}

fn put(map: &mut JsonMap, key: &str, value: &Option<String>)
    ensures
        final(map)@ == put_text(old(map)@, key@, option_text(*value)),
{
    match value {
        Some(s) => map.insert(key, JsonValue::text(s)),
        None => {},
    }
}

/// The context of a workflow with what is known of the session.
pub fn enrich_workflow_context(context: JsonValue, opts: &StreamOptions) -> (r: JsonValue)
    ensures
        r@ == session_context(context@, *opts),
{
    match context {
        JsonValue::Object(m) => {
            let mut map = m;
            put(&mut map, "session_model_profile_id", &opts.model_profile_id);
            put(&mut map, "session_agent_id", &opts.agent_id);
            match opts.reasoning_effort {
                Some(e) => map.insert("session_reasoning_effort", JsonValue::text(e.as_str())),
                None => {},
            }
            put(&mut map, "session_platform", &opts.platform);
            put(&mut map, "session_chat_type", &opts.chat_type);
            put(&mut map, "session_sender_user_id", &opts.sender_user_id);
            put(&mut map, "session_sender_username", &opts.sender_username);
            JsonValue::object(map)
        },
        other => other,
    }
}

/// What a caller of a workflow is given, and with what the agent then runs.
#[derive(Debug)]
pub enum WorkflowReply {
    Cancelled,
    Nothing,
    Report(WorkflowReport),
    ReportThenRun { report: WorkflowReport, content: Content },
}

pub enum ReplyView {
    Cancelled,
    Nothing,
    Report(ReportView),
    ReportThenRun(ReportView, ContentView),
}

impl View for WorkflowReply {
    type V = ReplyView;

    open spec fn view(&self) -> ReplyView {
        match self {
            WorkflowReply::Cancelled => ReplyView::Cancelled,
            WorkflowReply::Nothing => ReplyView::Nothing,
            WorkflowReply::Report(r) => ReplyView::Report(r@),
            WorkflowReply::ReportThenRun { report, content } => ReplyView::ReportThenRun(
                report@,
                content@,
            ),
        }
    }
}

/// What the start of a workflow leads to.
pub open spec fn start_reply(outcome: OutcomeView, instance: InstanceView) -> ReplyView {
    match outcome {
        OutcomeView::Cancelled => ReplyView::Cancelled,
        OutcomeView::NoWorkflow => ReplyView::Report(
            standing_report(
                instance,
                instance.status,
                "workflow did not produce a supervisor decision"@,
                0,
            ),
        ),
        OutcomeView::Report(r) => ReplyView::Report(r),
        OutcomeView::Continue(r, m) => ReplyView::ReportThenRun(r, ContentView::Text(m)),
    }
}

/// What the start of a workflow leads to.
pub fn reply_to_start(outcome: WorkflowRoundOutcome, instance: &WorkflowInstance) -> (r: WorkflowReply)
    ensures
        r@ == start_reply(outcome@, instance@),
{
    match outcome {
        WorkflowRoundOutcome::Cancelled => WorkflowReply::Cancelled,
        WorkflowRoundOutcome::NoWorkflow => WorkflowReply::Report(
            make_standing_report(
                instance,
                instance.status,
                "workflow did not produce a supervisor decision",
                0,
            ),
        ),
        WorkflowRoundOutcome::Report(report) => WorkflowReply::Report(report),
        WorkflowRoundOutcome::Continue { report, message } => WorkflowReply::ReportThenRun {
            report,
            content: Content::text(&message),
        },
    }
}

// ------------------------------------------------------------- in an active one

/// What a message of the user to an active workflow leads to.
pub open spec fn active_reply(outcome: OutcomeView) -> ReplyView {
    match outcome {
        OutcomeView::Cancelled => ReplyView::Cancelled,
        OutcomeView::NoWorkflow => ReplyView::Nothing,
        OutcomeView::Report(r) => ReplyView::Report(r),
        OutcomeView::Continue(r, m) => ReplyView::ReportThenRun(r, ContentView::Text(m)),
    }
}

/// What a message of the user to an active workflow leads to.
pub fn reply_to_message(outcome: WorkflowRoundOutcome) -> (r: WorkflowReply)
    ensures
        r@ == active_reply(outcome@),
{
    match outcome {
        WorkflowRoundOutcome::Cancelled => WorkflowReply::Cancelled,
        WorkflowRoundOutcome::NoWorkflow => WorkflowReply::Nothing,
        WorkflowRoundOutcome::Report(report) => WorkflowReply::Report(report),
        WorkflowRoundOutcome::Continue { report, message } => WorkflowReply::ReportThenRun {
            report,
            content: Content::text(&message),
        },
    }
}

/// The round that a message of the user belongs to: that of the last report.
pub fn message_round(instance: &WorkflowInstance) -> (r: u32)
    ensures
        r == match instance@.last_report {
            Some(report) => report.round,
            None => 0,
        },
{
    match &instance.last_report {
        Some(report) => report.round,
        None => 0,
    }
}

/// The options with which an agent runs that the supervisor tells what to do: the
/// supervisor is the sender, and nothing of the user's message goes along.
pub fn supervised_options(opts: StreamOptions) -> (r: StreamOptions)
    ensures
        r.internal_supervisor_message,
        option_text(r.sender_username) == Some("supervisor"@),
        option_text(r.sender_user_id) == Some("supervisor"@),
        r.message_id is None,
        r.im_attachments is None,
        r.im_documents is None,
        r.model_profile_id == opts.model_profile_id,
        r.reasoning_effort == opts.reasoning_effort,
        r.agent_id == opts.agent_id,
        r.skill_injections == opts.skill_injections,
        r.chat_type == opts.chat_type,
        r.platform == opts.platform,
        r.supervisor_run == opts.supervisor_run,
        r.async_agent == opts.async_agent,
{
    StreamOptions {
        internal_supervisor_message: true,
        sender_username: Some("supervisor".to_owned()),
        sender_user_id: Some("supervisor".to_owned()),
        message_id: None,
        im_attachments: None,
        im_documents: None,
        ..opts
    }
}

/// An agent goes on only where it is told something, and no more often than the
/// limit says.
pub proof fn rounds_stay_within_the_limit(
    report: ReportView,
    message: Option<Seq<char>>,
    max: u32,
    completed: u32,
)
    ensures
        decided(report, message, GoalMaxRounds::Limited(max), completed) is Continue <==> message is Some
            && completed < max,
        decided(report, message, GoalMaxRounds::Unlimited, completed) is Continue <==> message is Some,
{
}

/// An agent goes on only for a decision that was applied, with what the decision
/// tells it, and only where a round more is allowed.
pub proof fn only_applied_decisions_go_on(
    r: RoundEvaluation,
    instance: InstanceView,
    supervised: SupervisorNodeOutcome,
    completed: u32,
)
    requires
        evaluates(r, instance, supervised, completed),
        r.outcome@ is Continue,
    ensures
        supervised is Decision,
        supervised->Decision_0.result is Ok,
        option_text(supervised->Decision_0.result->Ok_0.1) == Some(r.outcome@->Continue_1),
        match supervised->Decision_0.instance.max_rounds {
            GoalMaxRounds::Limited(max) => completed < max,
            GoalMaxRounds::Unlimited => true,
        },
{
}

/// What a supervisor decided is reported as it was, and the agent is told what the
/// supervisor said to it, nothing else.
pub proof fn decisions_are_passed_on(
    report: ReportView,
    message: Option<Seq<char>>,
    max_rounds: GoalMaxRounds,
    completed: u32,
)
    ensures
        match decided(report, message, max_rounds, completed) {
            OutcomeView::Report(r) => r == report,
            OutcomeView::Continue(r, m) => r == report && message == Some(m),
            _ => false,
        },
        message is None ==> decided(report, message, max_rounds, completed) == OutcomeView::Report(
            report,
        ),
{
}

/// What the supervisor of an active workflow leaves: an applied decision is kept as
/// it was applied; a decision that could not be applied and a supervisor that failed
/// leave the workflow failed; one that the user stopped leaves it paused. Each is
/// reported.
pub proof fn what_a_supervisor_leaves(
    r: RoundEvaluation,
    instance: InstanceView,
    supervised: SupervisorNodeOutcome,
    completed: u32,
)
    requires
        evaluates(r, instance, supervised, completed),
    ensures
        match supervised {
            SupervisorNodeOutcome::Decision(applied) => match applied.result {
                Ok((report, _)) => {
                    &&& r.written is Some && r.written->0@ == applied.instance@
                    &&& r.outcome@ == OutcomeView::Report(report@) || (r.outcome@ is Continue
                        && r.outcome@->Continue_0 == report@)
                },
                Err(error) => {
                    &&& r.written is Some
                    &&& r.written->0@.status == WorkflowStatus::Error
                    &&& r.written->0@.context == applied.instance@.context
                    &&& r.outcome@ is Report
                    &&& r.outcome@->Report_0.error == Some(error@)
                    &&& r.written->0@.last_report == Some(r.outcome@->Report_0)
                },
            },
            SupervisorNodeOutcome::Failed(error) => {
                &&& r.written is Some
                &&& r.written->0@.status == WorkflowStatus::Error
                &&& r.written->0@.context == instance.context
                &&& r.outcome@ is Report
                &&& r.outcome@->Report_0.error == Some(error@)
                &&& r.written->0@.last_report == Some(r.outcome@->Report_0)
            },
            SupervisorNodeOutcome::Cancelled(current) => if current is Some
                && current->0@.status == WorkflowStatus::Active {
                &&& r.written is Some
                &&& r.written->0@.status == WorkflowStatus::Paused
                &&& r.written->0@.current_node == current->0@.current_node
                &&& r.outcome@ is Report
                &&& r.written->0@.last_report == Some(r.outcome@->Report_0)
            } else {
                r.written is None && r.outcome@ == OutcomeView::Cancelled
            },
        },
{
}

/// Interrupting an active workflow pauses it where it stands, with a report; any
/// other is left as it is, and so is the lack of one.
pub proof fn interruptions_pause_active_workflows(
    before: Option<InstanceView>,
    after: Option<InstanceView>,
    report: Option<ReportView>,
    round: u32,
    reason: Seq<char>,
)
    requires
        pauses(before, after, report, round, reason),
    ensures
        before is Some && before->0.status == WorkflowStatus::Active ==> {
            &&& after is Some
            &&& after->0.status == WorkflowStatus::Paused
            &&& after->0.current_node == before->0.current_node
            &&& after->0.context == before->0.context
            &&& report is Some
            &&& after->0.last_report == report
            &&& report->0.reason == reason
            &&& report->0.round == round
        },
        !(before is Some && before->0.status == WorkflowStatus::Active) ==> after == before
            && report is None,
{
}

proof fn lemma_put_text(
    fields: Seq<(Seq<char>, JsonView)>,
    key: Seq<char>,
    value: Option<Seq<char>>,
    other: Seq<char>,
)
    ensures
        field(put_text(fields, key, value), key) == (match value {
            Some(s) => Some(JsonView::Text(s)),
            None => field(fields, key),
        }),
        other != key ==> field(put_text(fields, key, value), other) == field(fields, other),
{
    if value is Some {
        set_field_is_read_back(fields, key, JsonView::Text(value->0), other);
    }
}

/// The keys under which a workflow finds what is known of its session.
pub open spec fn session_keys() -> Seq<Seq<char>> {
    seq![
        "session_model_profile_id"@,
        "session_agent_id"@,
        "session_reasoning_effort"@,
        "session_platform"@,
        "session_chat_type"@,
        "session_sender_user_id"@,
        "session_sender_username"@,
    ]
}

/// What is known of the session, in the order of its keys.
pub open spec fn session_values(opts: StreamOptions) -> Seq<Option<Seq<char>>> {
    seq![
        option_text(opts.model_profile_id),
        option_text(opts.agent_id),
        match opts.reasoning_effort {
            Some(e) => Some(effort_text(e)),
            None => None,
        },
        option_text(opts.platform),
        option_text(opts.chat_type),
        option_text(opts.sender_user_id),
        option_text(opts.sender_username),
    ]
}

proof fn lemma_session_keys()
    ensures
        ({
            let k = session_keys();
            &&& k[0].len() == 24 && k[1].len() == 16 && k[2].len() == 24 && k[3].len() == 16
            &&& k[4].len() == 17 && k[5].len() == 22 && k[6].len() == 23
            &&& k[0][8] != k[2][8] && k[1][8] != k[3][8]
        }),
{
    reveal_strlit("session_model_profile_id");
    reveal_strlit("session_agent_id");
    reveal_strlit("session_reasoning_effort");
    reveal_strlit("session_platform");
    reveal_strlit("session_chat_type");
    reveal_strlit("session_sender_user_id");
    reveal_strlit("session_sender_username");
}

/// A workflow whose context is an object finds there all that is known of its
/// session, and what it held under other keys; what is not known is not made up.
pub proof fn a_workflow_knows_its_session(context: JsonView, opts: StreamOptions, other: Seq<char>)
    requires
        context is Object,
    ensures
        session_context(context, opts) is Object,
        forall|i: int|
            0 <= i < 7 ==> member(session_context(context, opts), #[trigger] session_keys()[i])
                == (match session_values(opts)[i] {
                Some(s) => Some(JsonView::Text(s)),
                None => member(context, session_keys()[i]),
            }),
        !session_keys().contains(other) ==> member(session_context(context, opts), other) == member(
            context,
            other,
        ),
{
    lemma_session_keys();
    let k = session_keys();
    let v = session_values(opts);
    let f0 = context->Object_0;
    let f1 = put_text(f0, k[0], v[0]);
    let f2 = put_text(f1, k[1], v[1]);
    let f3 = put_text(f2, k[2], v[2]);
    let f4 = put_text(f3, k[3], v[3]);
    let f5 = put_text(f4, k[4], v[4]);
    let f6 = put_text(f5, k[5], v[5]);
    let f7 = put_text(f6, k[6], v[6]);
    assert(session_context(context, opts) == JsonView::Object(f7));
    assert forall|q: Seq<char>|
        #![trigger field(f7, q)]
        field(f7, q) == (if q == k[6] && v[6] is Some {
            Some(JsonView::Text(v[6]->0))
        } else if q == k[5] && v[5] is Some {
            Some(JsonView::Text(v[5]->0))
        } else if q == k[4] && v[4] is Some {
            Some(JsonView::Text(v[4]->0))
        } else if q == k[3] && v[3] is Some {
            Some(JsonView::Text(v[3]->0))
        } else if q == k[2] && v[2] is Some {
            Some(JsonView::Text(v[2]->0))
        } else if q == k[1] && v[1] is Some {
            Some(JsonView::Text(v[1]->0))
        } else if q == k[0] && v[0] is Some {
            Some(JsonView::Text(v[0]->0))
        } else {
            field(f0, q)
        }) by {
        lemma_put_text(f0, k[0], v[0], q);
        lemma_put_text(f1, k[1], v[1], q);
        lemma_put_text(f2, k[2], v[2], q);
        lemma_put_text(f3, k[3], v[3], q);
        lemma_put_text(f4, k[4], v[4], q);
        lemma_put_text(f5, k[5], v[5], q);
        lemma_put_text(f6, k[6], v[6], q);
    }
    if !k.contains(other) {
        assert(k[0] != other && k[1] != other && k[2] != other && k[3] != other);
        assert(k[4] != other && k[5] != other && k[6] != other);
    }
}

/// A context that is no object is left as it is.
pub proof fn other_contexts_are_left(context: JsonView, opts: StreamOptions)
    requires
        !(context is Object),
    ensures
        session_context(context, opts) == context,
{
}

/// What came of a round is what the user is shown: every report, and where the
/// agent is to go on it is told what the supervisor said.
pub proof fn users_are_shown_what_came_of_a_round(outcome: OutcomeView, instance: InstanceView)
    ensures
        outcome is Cancelled ==> start_reply(outcome, instance) is Cancelled && active_reply(
            outcome,
        ) is Cancelled,
        outcome is Report ==> start_reply(outcome, instance) == ReplyView::Report(
            outcome->Report_0,
        ) && active_reply(outcome) == ReplyView::Report(outcome->Report_0),
        outcome is Continue ==> start_reply(outcome, instance) == ReplyView::ReportThenRun(
            outcome->Continue_0,
            ContentView::Text(outcome->Continue_1),
        ) && active_reply(outcome) == ReplyView::ReportThenRun(
            outcome->Continue_0,
            ContentView::Text(outcome->Continue_1),
        ),
        outcome is NoWorkflow ==> active_reply(outcome) is Nothing && start_reply(outcome, instance)
            is Report && start_reply(outcome, instance)->Report_0.workflow_id
            == instance.definition.id && start_reply(outcome, instance)->Report_0.status
            == instance.status,
{
}

/// Whether the turn goes on is what came of the round.
pub proof fn evaluations_are_what_came_of_the_round(outcome: OutcomeView)
    ensures
        (evaluation_of(outcome) is Continue) == (outcome is Continue),
        (evaluation_of(outcome) is Report) == (outcome is Report),
        (evaluation_of(outcome) is Cancelled) == (outcome is Cancelled),
        (evaluation_of(outcome) is NoWorkflow) == (outcome is NoWorkflow),
{
}

/// A supervisor is asked where there is an active workflow, and only there.
pub proof fn only_active_workflows_are_supervised(instance: Option<InstanceView>)
    ensures
        instance is None ==> !asks_supervisor(instance),
        instance matches Some(i) ==> asks_supervisor(instance) == (i.status
            == WorkflowStatus::Active),
{
}

} // verus!
