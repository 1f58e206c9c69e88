use bot_core::error::AgentError;
use bot_core::json::{JsonMap, JsonValue};
use bot_core::message::{copy_messages, Content, Message, Role};
use bot_core::profile::{AgentModelBindings, AgentProfile, ReasoningEffort};
use bot_core::runtime::options::{
    async_agent_enabled, metadata_flag_enabled, user_message_metadata, StreamOptions,
};
use bot_core::runtime::acp::AcpEvent;
use bot_core::runtime::acp_turn::{AcpAction, AcpInput, AcpPhase, AcpTurn};
use bot_core::runtime::preparation::{
    preparation_outcome, PrepAction, PrepEvent, PrepFacts, PrepPhase, RoundPrep,
};
use bot_core::runtime::background::ToolTaskRecord;
use bot_core::runtime::round::RoundDraft;
use bot_core::runtime::round_run::{
    pause_for_cancellation, pause_for_interruption, NextSource, RoundEvent, RoundMove, RoundRun,
};
use bot_core::runtime::subagent_turn::{
    SubAgentAction, SubAgentInput, SubAgentPhase, SubAgentTurn,
};
use bot_core::runtime::rounds::{
    enrich_workflow_context, evaluate_workflow_after_round, message_round, reply_to_message,
    reply_to_start, round_after_cancellation, round_after_decision, round_after_failure,
    supervised_options, supervisor_decides, AppliedDecision, SupervisorNodeOutcome, WorkflowReply,
    WorkflowRoundOutcome,
};
use bot_core::runtime::supervisor::{
    attempt_end, attempt_error, hook_context_message, supervisor_retry_feedback,
    supervisor_thread, timeout_error, verdict_of, AttemptEnd, AttemptStep, SupervisorAttempt,
    SupervisorEvent, SupervisorPrompt, SupervisorRun, SupervisorStep, Verdict,
    SUPERVISOR_DECISION_MAX_ATTEMPTS,
};
use bot_core::runtime::supervisor_node::{
    NodeAction, NodeEnd, NodeEvent, NodeMove, NodePhase, SupervisorNode,
};
use bot_core::runtime::turn::{
    Completion, Evaluation, NextContent, TurnAction, TurnControl, TurnInput, TurnPhase, TurnYield,
};
use bot_core::runtime::turn_input::{
    check_budget, check_compression, check_media, current_user_message, last_assistant_message,
    let_pass, prompt_hook_due, prompt_may_pass, reload_failed, request_context_percent,
    round_message, session_hook_due, session_may_start, stop_hook_message, stop_hook_payload,
    supervisor_todo, BudgetStep, HookReply, PromptParts,
};
use bot_core::runtime::pinned::SkillPromptToolAvailability;
use bot_core::runtime::workflow_turn::{
    WorkflowAction, WorkflowEntry, WorkflowInput, WorkflowPhase, WorkflowRun, WorkflowTurn,
};
use bot_core::text_map::TextMap;
use bot_core::workflow::{
    fail_workflow_at, interrupt_workflow_at, make_standing_report, pause_workflow_at,
    resume_workflow_at, start_workflow, start_workflow_at, validate_workflow_agents,
    workflow_node_agent, GoalMaxRounds, SupervisorTraceEvent, WorkflowDefinition,
    WorkflowInstance, WorkflowNode, WorkflowPauseReason, WorkflowStatus,
};

fn some(text: &str) -> Option<String> {
    Some(text.to_string())
}

fn definition(agent: Option<&str>) -> WorkflowDefinition {
    WorkflowDefinition {
        id: "goal".to_string(),
        name: "Goal".to_string(),
        initial_node: "work".to_string(),
        nodes: vec![WorkflowNode { id: "work".to_string(), agent: agent.map(str::to_string) }],
    }
}

fn agents(ids: &[&str]) -> TextMap<AgentProfile> {
    let mut map = TextMap::new();
    for id in ids {
        map.insert(
            id.to_string(),
            AgentProfile {
                id: id.to_string(),
                name: id.to_string(),
                description: String::new(),
                model: None,
                base_url: None,
                models: AgentModelBindings { primary: None, helper: None, vision: None },
                tools: vec![],
                delegates: vec![],
                max_turns: None,
                persistent_sessions: false,
                system_prompt: String::new(),
            },
        );
    }
    map
}

fn context() -> JsonValue {
    JsonValue::object(JsonMap::new().with("goal", JsonValue::text("ship")))
}

fn instance() -> WorkflowInstance {
    start_workflow_at(
        definition(None),
        None,
        &agents(&[]),
        context(),
        GoalMaxRounds::Limited(2),
        100,
    )
    .unwrap()
}

fn options() -> StreamOptions {
    StreamOptions {
        model_profile_id: None,
        reasoning_effort: None,
        agent_id: None,
        skill_injections: vec![],
        sender_user_id: some("user-1"),
        sender_username: some("Alice"),
        message_id: some("message-1"),
        chat_type: some("p2p"),
        platform: some("feishu"),
        supervisor_run: false,
        internal_supervisor_message: false,
        im_attachments: some("[]"),
        im_documents: None,
        async_agent: false,
    }
}

// -------------------------------------------------------------------- workflows

#[test]
fn a_workflow_starts_at_its_first_node() {
    let started = instance();
    assert_eq!(started.current_node, "work");
    assert_eq!(started.status, WorkflowStatus::Active);
    assert_eq!(started.updated_at, 100);
    assert!(started.last_report.is_none());
    let error = start_workflow(
        definition(None),
        some("no edges"),
        &agents(&[]),
        context(),
        GoalMaxRounds::Unlimited,
    )
    .unwrap_err();
    assert_eq!(error, AgentError::other("no edges"));
    let error = start_workflow(
        definition(None),
        None,
        &agents(&[]),
        JsonValue::text("goal"),
        GoalMaxRounds::Unlimited,
    )
    .unwrap_err();
    assert_eq!(error.message(), "workflow context must be a JSON object");
}

#[test]
fn a_workflow_needs_its_agents() {
    let wanted = definition(Some("coder"));
    assert!(validate_workflow_agents(&wanted, &agents(&["coder"])).is_ok());
    let error = validate_workflow_agents(&wanted, &agents(&["other"])).unwrap_err();
    assert!(error.message().contains("coder"));
    assert_eq!(wanted.node_agent("work"), some("coder"));
    assert_eq!(wanted.node_agent("missing"), None);
    let mut running = instance();
    assert_eq!(workflow_node_agent(&running), None);
    running.definition = wanted;
    assert_eq!(workflow_node_agent(&running), some("coder"));
}

#[test]
fn resuming_undoes_an_interruption() {
    let mut running = instance();
    let report = interrupt_workflow_at(&mut running, 1, "interrupted by user", 200).unwrap();
    assert_eq!(report.status, WorkflowStatus::Paused);
    assert_eq!(report.reason, "interrupted by user");
    assert_eq!(running.pause_reason, Some(WorkflowPauseReason::Interrupted));
    assert!(interrupt_workflow_at(&mut running, 1, "again", 201).is_none());
    let report = resume_workflow_at(&mut running, 1, 300).unwrap();
    assert_eq!(report.edge, some("interrupted_resume"));
    assert_eq!(running.status, WorkflowStatus::Active);
    assert_eq!(running.pause_reason, None);
    assert!(resume_workflow_at(&mut running, 1, 301).is_none());
}

#[test]
fn a_manual_pause_holds() {
    let mut running = instance();
    pause_workflow_at(&mut running, 200);
    assert_eq!(running.pause_reason, Some(WorkflowPauseReason::Manual));
    assert_eq!(running.last_report.as_ref().unwrap().reason, "paused by user");
    assert!(resume_workflow_at(&mut running, 0, 300).is_none());
    assert_eq!(running.status, WorkflowStatus::Paused);
}

#[test]
fn a_failed_workflow_says_why() {
    let mut running = instance();
    let report = fail_workflow_at(&mut running, "work", 2, "no decision", 200);
    assert_eq!(report.error, some("no decision"));
    assert_eq!(report.round, 2);
    assert_eq!(running.status, WorkflowStatus::Error);
    assert!(!supervisor_decides(&Some(running)));
    assert!(supervisor_decides(&Some(instance())));
    assert!(!supervisor_decides(&None));
}

// ----------------------------------------------------------------------- rounds

#[test]
fn rounds_stay_within_the_limit() {
    let report = || make_standing_report(&instance(), WorkflowStatus::Active, "go on", 0);
    assert!(matches!(
        round_after_decision(report(), some("go on"), &GoalMaxRounds::Limited(2), 1),
        WorkflowRoundOutcome::Continue { ref message, .. } if message == "go on"
    ));
    assert!(matches!(
        round_after_decision(report(), some("go on"), &GoalMaxRounds::Limited(2), 2),
        WorkflowRoundOutcome::Report(_)
    ));
    assert!(matches!(
        round_after_decision(report(), None, &GoalMaxRounds::Unlimited, 0),
        WorkflowRoundOutcome::Report(_)
    ));
}

#[test]
fn a_round_can_fail_or_be_cancelled() {
    let mut running = instance();
    assert!(matches!(
        round_after_failure(&mut running, "work", 0, "timeout"),
        WorkflowRoundOutcome::Report(ref report) if report.reason == "timeout"
    ));
    let mut running = Some(instance());
    assert!(matches!(
        round_after_cancellation(&mut running, 0),
        WorkflowRoundOutcome::Report(_)
    ));
    assert_eq!(running.unwrap().status, WorkflowStatus::Paused);
    assert!(matches!(round_after_cancellation(&mut None, 0), WorkflowRoundOutcome::Cancelled));
}

fn active_at(node: &str) -> WorkflowInstance {
    let mut running = instance();
    running.current_node = node.to_string();
    running
}

#[test]
fn what_a_round_comes_to() {
    let report = || make_standing_report(&instance(), WorkflowStatus::Active, "moved", 1);
    let none = evaluate_workflow_after_round(None, None, 0);
    assert!(matches!(none.outcome, WorkflowRoundOutcome::NoWorkflow));
    assert!(none.written.is_none());
    let mut paused = instance();
    pause_workflow_at(&mut paused, 1);
    let resting = evaluate_workflow_after_round(Some(paused), None, 0);
    assert!(matches!(resting.outcome, WorkflowRoundOutcome::NoWorkflow));
    assert_eq!(resting.outcome.evaluation(), Evaluation::NoWorkflow);

    let moved = |message: Option<String>| {
        Some(SupervisorNodeOutcome::Decision(AppliedDecision {
            instance: active_at("review"),
            result: Ok((report(), message)),
        }))
    };
    let on = evaluate_workflow_after_round(Some(instance()), moved(some("go on")), 1);
    assert_eq!(on.outcome.evaluation(), Evaluation::Continue);
    assert!(matches!(
        on.outcome,
        WorkflowRoundOutcome::Continue { ref message, .. } if message == "go on"
    ));
    assert_eq!(on.written.unwrap().current_node, "review");
    let spent = evaluate_workflow_after_round(Some(instance()), moved(some("go on")), 2);
    assert_eq!(spent.outcome.evaluation(), Evaluation::Report);
    let told = evaluate_workflow_after_round(Some(instance()), moved(None), 0);
    assert_eq!(told.outcome.evaluation(), Evaluation::Report);
}

#[test]
fn what_a_round_comes_to_without_a_decision() {
    let refused = evaluate_workflow_after_round(
        Some(instance()),
        Some(SupervisorNodeOutcome::Decision(AppliedDecision {
            instance: active_at("review"),
            result: Err("unknown edge".to_string()),
        })),
        1,
    );
    match refused.outcome {
        WorkflowRoundOutcome::Report(report) => {
            assert_eq!(report.from_node, "work");
            assert_eq!(report.status, WorkflowStatus::Error);
            assert_eq!(report.error, some("unknown edge"));
            assert_eq!(report.round, 1);
        }
        other => panic!("expected a report, got {other:?}"),
    }
    assert_eq!(refused.written.unwrap().status, WorkflowStatus::Error);

    let failed = evaluate_workflow_after_round(
        Some(instance()),
        Some(SupervisorNodeOutcome::Failed("lost".to_string())),
        0,
    );
    assert!(matches!(
        failed.outcome,
        WorkflowRoundOutcome::Report(ref report) if report.reason == "lost"
    ));
    assert_eq!(failed.written.unwrap().status, WorkflowStatus::Error);

    let stopped = evaluate_workflow_after_round(
        Some(instance()),
        Some(SupervisorNodeOutcome::Cancelled(Some(instance()))),
        1,
    );
    assert!(matches!(
        stopped.outcome,
        WorkflowRoundOutcome::Report(ref report)
            if report.reason == "interrupted by user" && report.round == 1
    ));
    assert_eq!(stopped.written.unwrap().pause_reason, Some(WorkflowPauseReason::Interrupted));
    let gone = evaluate_workflow_after_round(
        Some(instance()),
        Some(SupervisorNodeOutcome::Cancelled(None)),
        1,
    );
    assert_eq!(gone.outcome.evaluation(), Evaluation::Cancelled);
    assert!(gone.written.is_none());
}

#[test]
fn a_workflow_knows_its_session() {
    let mut opts = options();
    opts.reasoning_effort = Some(ReasoningEffort::High);
    opts.agent_id = some("coder");
    let enriched = enrich_workflow_context(context(), &opts);
    assert_eq!(enriched.get_str("goal"), some("ship"));
    assert_eq!(enriched.get_str("session_agent_id"), some("coder"));
    assert_eq!(enriched.get_str("session_reasoning_effort"), some("high"));
    assert_eq!(enriched.get_str("session_platform"), some("feishu"));
    assert_eq!(enriched.get_str("session_model_profile_id"), None);
    assert_eq!(enrich_workflow_context(JsonValue::Null, &opts), JsonValue::Null);
}

#[test]
fn what_a_workflow_answers() {
    assert!(matches!(
        reply_to_start(WorkflowRoundOutcome::NoWorkflow, &instance()),
        WorkflowReply::Report(ref report)
            if report.reason == "workflow did not produce a supervisor decision"
    ));
    assert!(matches!(reply_to_message(WorkflowRoundOutcome::NoWorkflow), WorkflowReply::Nothing));
    assert!(matches!(
        reply_to_message(WorkflowRoundOutcome::Cancelled),
        WorkflowReply::Cancelled
    ));
    let mut running = instance();
    assert_eq!(message_round(&running), 0);
    fail_workflow_at(&mut running, "work", 5, "x", 0);
    assert_eq!(message_round(&running), 5);
    let opts = supervised_options(options());
    assert!(opts.internal_supervisor_message);
    assert_eq!(opts.sender_username, some("supervisor"));
    assert_eq!(opts.message_id, None);
    assert_eq!(opts.im_attachments, None);
    assert_eq!(opts.platform, some("feishu"));
}

// ------------------------------------------------------------------- supervisor

#[test]
fn a_result_is_told_with_the_arguments_of_its_call() {
    let mut attempt = SupervisorAttempt::new();
    attempt.observe(SupervisorEvent::Text("{".to_string()));
    attempt.observe(SupervisorEvent::ToolCall {
        id: "1".to_string(),
        name: "ls".to_string(),
        args: JsonValue::text("."),
    });
    let told = attempt
        .observe(SupervisorEvent::ToolCallResult {
            id: "1".to_string(),
            name: "ls".to_string(),
            result: "a".to_string(),
        })
        .unwrap();
    assert!(matches!(
        told,
        SupervisorTraceEvent::ToolResult { ref args, .. } if *args == JsonValue::text(".")
    ));
    assert!(attempt.observe(SupervisorEvent::Other).is_none());
    assert_eq!(attempt.output, "{");
    assert_eq!(attempt.trace.len(), 2);
}

fn said(output: &str) -> SupervisorAttempt {
    let mut attempt = SupervisorAttempt::new();
    attempt.observe(SupervisorEvent::Text(output.to_string()));
    attempt
}

fn shown() -> Result<String, String> {
    Ok("{}".to_string())
}

fn prompt() -> SupervisorPrompt {
    SupervisorPrompt {
        content: "decide".to_string(),
        estimated_tokens: 1,
        original_history_messages: 2,
        included_history_messages: 2,
    }
}

#[test]
fn attempts_stay_within_the_limit() {
    let mut run = SupervisorRun::new();
    for _ in 1..SUPERVISOR_DECISION_MAX_ATTEMPTS {
        assert!(matches!(
            run.judge(&said("raw"), Err("no edge".to_string()), Ok(()), shown()),
            SupervisorStep::Retry
        ));
    }
    match run.judge(&said("raw"), Ok(None), Err("no edge".to_string()), shown()) {
        SupervisorStep::Fail(error) => assert_eq!(
            error.message(),
            "supervisor decision remained invalid after 3 attempts: no edge"
        ),
        other => panic!("expected a failure, got {other:?}"),
    }
}

#[test]
fn a_decision_ends_the_attempts() {
    let prompt = prompt();
    let mut run = SupervisorRun::new();
    assert_eq!(run.content(&prompt), "decide");
    run.judge(&said("raw"), Err("no edge".to_string()), Ok(()), shown());
    assert_eq!(
        run.content(&prompt),
        format!("decide\n\n{}", supervisor_retry_feedback("no edge", "raw"))
    );
    assert_eq!(
        run.metadata(&prompt, 9, "t").get("supervisor_decision_attempt"),
        Some(&JsonValue::unsigned(2))
    );
    assert!(matches!(
        run.judge(&said("raw"), Ok(some("go")), Ok(()), shown()),
        SupervisorStep::Decide
    ));
    assert_eq!(run.trace.len(), 3);
    assert!(matches!(
        run.trace[0],
        SupervisorTraceEvent::Output { ref content }
            if content == "Invalid supervisor decision attempt 1/3: no edge"
    ));
    let mut run = SupervisorRun::new();
    match run.judge(&said("raw"), Ok(None), Ok(()), Err("bad".to_string())) {
        SupervisorStep::Fail(error) => assert_eq!(error.message(), "format supervisor JSON: bad"),
        other => panic!("expected a failure, got {other:?}"),
    }
}

#[test]
fn decisions_are_tried_before_they_count() {
    let refused = || Err("unknown edge".to_string());
    assert!(matches!(
        verdict_of(Err("no object".to_string()), Ok(()), shown()),
        Verdict::Invalid(ref e) if e == "no object"
    ));
    assert!(matches!(
        verdict_of(Err("no object".to_string()), refused(), shown()),
        Verdict::Invalid(ref e) if e == "no object"
    ));
    assert!(matches!(
        verdict_of(Ok(some("go")), refused(), shown()),
        Verdict::Invalid(ref e) if e == "unknown edge"
    ));
    assert!(matches!(
        verdict_of(Ok(None), Ok(()), Err("bad".to_string())),
        Verdict::Unprintable(ref e) if e == "bad"
    ));
    assert!(matches!(
        verdict_of(Ok(some("go")), Ok(()), shown()),
        Verdict::Valid { ref shown, ref agent_message }
            if shown == "{}" && *agent_message == some("go")
    ));
    let mut run = SupervisorRun::new();
    assert!(matches!(
        run.judge(&said("raw"), Ok(some("go")), refused(), shown()),
        SupervisorStep::Retry
    ));
    assert_eq!(run.attempt, 2);
    assert_eq!(run.feedback, Some(supervisor_retry_feedback("unknown edge", "raw")));
}

#[test]
fn supervisors_run_without_tools() {
    let run = SupervisorRun::new();
    let request = run.request(&prompt(), 9, "t");
    assert_eq!(request.content, "decide");
    assert_eq!(request.metadata.get_str("supervisor_run"), some("true"));
    assert_eq!(request.metadata.get_str("thread_id"), some("t"));
    assert!(request.tools.is_empty());
    assert!(!request.steer);
    assert!(!request.async_agent);
}

fn begin() -> NodeEvent {
    NodeEvent::Begin { cancelled: false, thread: "t".to_string() }
}

fn ended(end: AttemptEnd) -> NodeEvent {
    NodeEvent::Ended { end, trace_text: "[]".to_string() }
}

fn node_run(node: SupervisorNode, events: Vec<NodeEvent>) -> (SupervisorNode, NodeMove) {
    let mut node = node;
    let mut last = None;
    for event in events {
        let (next, made) = node.step(event);
        node = next;
        last = Some(made);
    }
    (node, last.unwrap())
}

#[test]
fn the_model_runs_three_times_at_most() {
    let mut node = SupervisorNode::new(prompt(), 9);
    for attempt in 1..=3 {
        let (next, made) = node_run(node, vec![begin()]);
        assert!(matches!(made.action, NodeAction::Ask(ref r) if r.tools.is_empty()));
        let (next, made) = node_run(
            next,
            vec![
                NodeEvent::Told(SupervisorEvent::Text("raw".to_string())),
                ended(AttemptEnd::Ended),
            ],
        );
        assert!(matches!(made.action, NodeAction::Judge(ref output) if output == "raw"));
        let (next, made) = node_run(
            next,
            vec![NodeEvent::Judged {
                parsed: Ok(None),
                tried: Err("unknown edge".to_string()),
                shown: shown(),
            }],
        );
        assert_eq!(made.told.len(), 1);
        if attempt < 3 {
            assert!(matches!(made.action, NodeAction::Retry));
            assert_eq!(next.phase, NodePhase::Starting);
        } else {
            assert!(matches!(
                made.action,
                NodeAction::Finish(NodeEnd::Failed(ref e)) if e.message()
                    == "supervisor decision remained invalid after 3 attempts: unknown edge"
            ));
            assert_eq!(next.phase, NodePhase::Over);
        }
        node = next;
    }
}

#[test]
fn only_tried_decisions_count() {
    let (node, made) = node_run(
        SupervisorNode::new(prompt(), 9),
        vec![begin(), NodeEvent::Told(SupervisorEvent::Thinking("hm".to_string()))],
    );
    assert!(matches!(made.action, NodeAction::Listen));
    assert!(matches!(made.told[0], SupervisorTraceEvent::Thinking { .. }));
    let (_, made) = node_run(
        node,
        vec![
            ended(AttemptEnd::Ended),
            NodeEvent::Judged { parsed: Ok(some("go")), tried: Ok(()), shown: shown() },
        ],
    );
    assert_eq!(made.told.len(), 2);
    match made.action {
        NodeAction::Finish(NodeEnd::Decided(trace)) => {
            assert_eq!(trace.len(), 3);
            assert!(matches!(
                trace[2],
                SupervisorTraceEvent::AgentMessage { ref content } if content == "go"
            ));
        }
        other => panic!("expected a decision, got {other:?}"),
    }
}

#[test]
fn only_the_user_stops_a_supervisor() {
    let stop = NodeEvent::Begin { cancelled: true, thread: "t".to_string() };
    let (_, made) = node_run(SupervisorNode::new(prompt(), 9), vec![stop]);
    assert!(matches!(made.action, NodeAction::Finish(NodeEnd::Cancelled)));
    let (_, made) =
        node_run(SupervisorNode::new(prompt(), 9), vec![begin(), ended(AttemptEnd::Cancelled)]);
    assert!(matches!(made.action, NodeAction::Finish(NodeEnd::Cancelled)));
    let (_, made) =
        node_run(SupervisorNode::new(prompt(), 9), vec![begin(), ended(AttemptEnd::TimedOut)]);
    assert!(matches!(
        made.action,
        NodeAction::Finish(NodeEnd::Failed(ref e)) if e.message()
            == "supervisor evaluation timed out after 180 seconds"
    ));
}

#[test]
fn attempts_end_in_four_ways() {
    assert!(matches!(attempt_end(&AttemptEnd::Cancelled, "[]"), AttemptStep::Cancelled));
    assert!(matches!(attempt_end(&AttemptEnd::Ended, "[]"), AttemptStep::Judge));
    match attempt_end(&AttemptEnd::Failed("lost".to_string()), "[]") {
        AttemptStep::Fail(e) => assert_eq!(e.message(), "lost\n\nsupervisor trace: []"),
        other => panic!("expected a failure, got {other:?}"),
    }
    match attempt_end(&AttemptEnd::TimedOut, "[]") {
        AttemptStep::Fail(e) => {
            assert_eq!(e.message(), "supervisor evaluation timed out after 180 seconds")
        }
        other => panic!("expected a failure, got {other:?}"),
    }
}

#[test]
fn supervisors_have_threads_of_their_own() {
    let thread = supervisor_thread("t");
    assert!(thread.starts_with("supervisor:t:"));
    assert_ne!(thread, supervisor_thread("t"));
    assert_eq!(
        timeout_error().message(),
        "supervisor evaluation timed out after 180 seconds"
    );
    assert_eq!(attempt_error("lost", "[]").message(), "lost\n\nsupervisor trace: []");
    assert_eq!(hook_context_message("Stop", "more").role, Role::System);
}

// ------------------------------------------------------------------------ turns

fn run(mut control: TurnControl, inputs: &[TurnInput]) -> (TurnControl, Vec<TurnAction>) {
    let mut actions = vec![];
    for input in inputs {
        let made = control.step(*input);
        control = made.control;
        actions.extend(made.actions);
    }
    (control, actions)
}

fn start() -> [TurnInput; 3] {
    [TurnInput::Begin, TurnInput::Resumed(false), TurnInput::Prepared(true)]
}

#[test]
fn a_plain_turn_is_saved_and_ends() {
    let (control, actions) = run(TurnControl::new(false, false), &start());
    assert_eq!(control.phase, TurnPhase::Streaming);
    assert!(actions.contains(&TurnAction::StartRun));
    let (control, actions) = run(
        control,
        &[TurnInput::Progress, TurnInput::History, TurnInput::Done, TurnInput::Steer(false)],
    );
    assert!(actions.contains(&TurnAction::Save));
    let (control, _) = run(control, &[TurnInput::Evaluated(Evaluation::NoWorkflow)]);
    let (control, actions) = run(control, &[TurnInput::StopHook(false), TurnInput::Steer(false)]);
    assert_eq!(control.phase, TurnPhase::Finished);
    assert_eq!(actions.last(), Some(&TurnAction::Yield(TurnYield::Done)));
    let (after, actions) = run(control, &[TurnInput::Begin]);
    assert_eq!(after, control);
    assert!(actions.is_empty());
}

#[test]
fn a_cancelled_turn_pauses_its_workflow() {
    let (control, _) = run(TurnControl::new(false, false), &start());
    let (control, actions) = run(control, &[TurnInput::Cancelled]);
    assert_eq!(control.phase, TurnPhase::AwaitCancelPause);
    assert!(actions.contains(&TurnAction::PauseCancelled(0)));
    let (control, actions) = run(control, &[TurnInput::Paused(false)]);
    assert_eq!(control.phase, TurnPhase::Finished);
    assert!(actions.contains(&TurnAction::SaveCancelled));
    assert!(!actions.contains(&TurnAction::EvaluateWorkflow(0)));
}

#[test]
fn steering_starts_another_round() {
    let (control, _) = run(TurnControl::new(false, false), &start());
    let (control, _) = run(control, &[TurnInput::History, TurnInput::Done]);
    let (control, actions) = run(control, &[TurnInput::Steer(true)]);
    assert_eq!(control.phase, TurnPhase::RoundStart);
    assert!(actions.contains(&TurnAction::Next(NextContent::Steer)));
}

#[test]
fn the_supervisor_starts_another_round() {
    let (control, _) = run(TurnControl::new(false, false), &start());
    let (control, _) =
        run(control, &[TurnInput::History, TurnInput::Done, TurnInput::Steer(false)]);
    assert_eq!(control.phase, TurnPhase::AwaitEvaluation);
    let (control, actions) = run(
        control,
        &[TurnInput::SupervisorProgress, TurnInput::Evaluated(Evaluation::Continue)],
    );
    assert_eq!(control.supervisor_round, 1);
    assert!(control.from_supervisor);
    assert!(actions.contains(&TurnAction::Next(NextContent::Supervisor)));
    let (_, actions) = run(
        control,
        &[TurnInput::Begin, TurnInput::Prepared(false), TurnInput::Cancelled],
    );
    assert!(actions.contains(&TurnAction::PauseCancelled(1)));
}

#[test]
fn supervisor_runs_do_not_recurse() {
    let (control, _) =
        run(TurnControl::new(true, false), &[TurnInput::Begin, TurnInput::Prepared(false)]);
    assert_eq!(control.phase, TurnPhase::Streaming);
    let (_, actions) =
        run(control, &[TurnInput::History, TurnInput::Done, TurnInput::Steer(false)]);
    assert!(!actions.contains(&TurnAction::EvaluateWorkflow(0)));
}

#[test]
fn background_tasks_are_waited_for() {
    let (control, _) = run(TurnControl::new(false, true), &start());
    let (control, _) =
        run(control, &[TurnInput::History, TurnInput::Done, TurnInput::Steer(false)]);
    assert_eq!(control.phase, TurnPhase::AwaitBackgroundCount);
    let (control, actions) = run(control, &[TurnInput::BackgroundCount(true)]);
    assert!(actions.contains(&TurnAction::Yield(TurnYield::BackgroundTasksWaiting)));
    let (control, actions) = run(control, &[TurnInput::Completed(Completion::New)]);
    assert_eq!(control.phase, TurnPhase::AwaitSteerAfterCompletion);
    assert!(actions.contains(&TurnAction::Yield(TurnYield::TaskCompleted)));
}

#[test]
fn a_request_that_cannot_be_made_is_kept() {
    let (control, _) =
        run(TurnControl::new(false, false), &[TurnInput::Begin, TurnInput::Resumed(false)]);
    let (over, actions) = run(control, &[TurnInput::OverBudget]);
    assert_eq!(over.phase, TurnPhase::Finished);
    assert!(actions.contains(&TurnAction::SaveFailedTurn));
    let (failed, actions) = run(control, &[TurnInput::PrepareFailed]);
    assert_eq!(failed.phase, TurnPhase::Finished);
    assert!(actions.contains(&TurnAction::Yield(TurnYield::Error)));
}

// ------------------------------------------------------------------------ input

#[test]
fn continuations_are_not_the_users() {
    let opts = options();
    let own = round_message(&opts, false, false);
    assert_eq!(own.message_id, some("message-1"));
    let supervised = round_message(&opts, true, false);
    assert_eq!(supervised.message_id, None);
    assert_eq!(supervised.im_attachments, None);
    assert_eq!(own.request_metadata("thread").get_str("thread_id"), some("thread"));
    assert!(own.message_metadata().is_some());
    assert!(user_message_metadata(&opts).is_some());
}

fn parts() -> PromptParts {
    PromptParts {
        system_prompt: "system".to_string(),
        environment_prompt: "environment".to_string(),
        has_agent_md: false,
        has_soul_md: false,
        skill_injections: vec![],
        pinned_skill_summaries: vec![],
        context_tokens: 128_000,
        tools: SkillPromptToolAvailability::all(),
        async_agent: false,
        sender_prompt: some("sender"),
        todo_prompt: some("todo"),
        active_supervisor: false,
    }
}

#[test]
fn the_agents_prompt_comes_first() {
    let (history, todo) = parts().build_history(vec![Message::user("before")]);
    assert_eq!(history[0].content, Content::text("system"));
    assert_eq!(todo, None);
    assert!(history.iter().any(|m| m.content == Content::text("environment")));
    assert!(history.iter().any(|m| m.content == Content::text("sender")));
    assert_eq!(history.last().unwrap().content, Content::text("todo"));
    let supervised = PromptParts { active_supervisor: true, ..parts() };
    let (history, todo) = supervised.build_history(vec![]);
    assert_eq!(todo, some("todo"));
    assert!(!history.iter().any(|m| m.content == Content::text("todo")));
}

fn reply(blocked: bool, reason: Option<&str>) -> HookReply {
    HookReply {
        blocked,
        continue_flow: None,
        reason: reason.map(str::to_string),
        additional_context: vec!["note".to_string()],
    }
}

#[test]
fn hooks_can_stop_a_round() {
    let mut history = vec![];
    assert!(let_pass(&mut history, "Stop", reply(false, None), "stopped").is_ok());
    assert_eq!(history.len(), 1);
    let error = let_pass(&mut history, "Stop", reply(true, None), "stopped").unwrap_err();
    assert_eq!(error.message(), "stopped");
    assert!(session_may_start(&mut history, reply(true, Some("busy")))
        .unwrap_err()
        .message()
        .contains("busy"));
    assert!(prompt_may_pass(&mut history, reply(false, None)).is_ok());
    assert!(session_hook_due(0, false));
    assert!(!session_hook_due(1, true));
    assert!(prompt_hook_due(false, false));
    assert!(!prompt_hook_due(false, true));
}

#[test]
fn requests_stay_within_their_budget() {
    assert!(matches!(check_budget(10, 10, true), BudgetStep::Send));
    assert!(matches!(check_budget(11, 10, true), BudgetStep::Compress));
    assert!(matches!(check_budget(11, 10, false), BudgetStep::Refuse(_)));
    assert_eq!(check_compression(Ok(3), 11, 10), Ok(3));
    assert!(check_compression(Ok(0), 11, 10).is_err());
    assert!(check_compression(Err("x".to_string()), 11, 10).is_err());
    assert_eq!(request_context_percent(&None), 80);
    assert!(reload_failed("gone").message().contains("gone"));
}

#[test]
fn images_need_a_model_that_sees() {
    let opts = options();
    let message = round_message(&opts, false, false);
    let content = Content::text("hello");
    assert!(check_media(&content, &message, true, "m").is_ok());
    let seen = Content::parts(vec![bot_core::message::ContentPart::image_url("u")]);
    assert!(check_media(&seen, &message, true, "m").is_ok());
    let user = current_user_message(&content, &some("Alice"), &None);
    assert_eq!(user.role, Role::User);
    assert_eq!(user.name, some("Alice"));
}

#[test]
fn the_stop_hook_hears_the_last_answer() {
    let history = vec![Message::assistant("first"), Message::user("x"), Message::assistant("last")];
    assert_eq!(last_assistant_message(&history), "last");
    assert_eq!(last_assistant_message(&vec![]), "");
    assert_eq!(
        stop_hook_payload("last").get_str("last_assistant_message"),
        some("last")
    );
    assert!(stop_hook_message(&reply(true, Some("more"))).is_some());
    assert_eq!(stop_hook_message(&reply(false, None)), None);
    assert_eq!(supervisor_todo(true, None, some("a")), some("a"));
    assert_eq!(supervisor_todo(false, some("b"), some("a")), None);
}

#[test]
fn flags_are_read() {
    let metadata = JsonValue::object(JsonMap::new().with("supervisor_run", JsonValue::text("true")));
    assert!(metadata_flag_enabled(Some(&metadata), "supervisor_run"));
    assert!(!metadata_flag_enabled(Some(&metadata), "other"));
    assert!(!metadata_flag_enabled(None, "supervisor_run"));
    assert!(async_agent_enabled(&some("1")));
    assert!(!async_agent_enabled(&some("0")));
}

// ----------------------------------------------------------------------- drafts

fn draft(chat_type: &str, from_supervisor: bool) -> RoundDraft {
    let mut opts = options();
    opts.chat_type = some(chat_type);
    opts.sender_username = some(" Alexandrina ");
    RoundDraft::new(
        "thread",
        Content::text("hello"),
        &opts,
        from_supervisor,
        false,
        vec![Message::user("before")],
        JsonValue::Null,
        parts(),
    )
}

#[test]
fn a_round_is_put_together() {
    let round = draft("group", false);
    assert_eq!(round.content, Content::text("Alexandrina:\nhello"));
    assert_eq!(round.user_name, some("Alexandrin"));
    assert_eq!(round.hook_start, round.skip_count());
    let start = round.start();
    assert_eq!(start.user_name, some("Alexandrin"));
    assert_eq!(start.metadata.as_ref().unwrap().get_str("thread_id"), some("thread"));
    assert_eq!(start.history.len(), round.skip_count());
    assert_eq!(round.recorder().base_messages.len(), round.skip_count() + 1);
    assert_eq!(round.user_message().name, some("Alexandrin"));
    let supervised = draft("p2p", true);
    assert_eq!(supervised.user_name, some("supervisor"));
    assert_eq!(supervised.content, Content::text("hello"));
    assert!(supervised.check_media(false, "m").is_ok());
    let error = draft("p2p", false).check_media(false, "m").unwrap_err();
    assert!(error.message().contains("does not support image/document inputs"));
}

#[test]
fn compressing_keeps_what_hooks_added() {
    let mut round = draft("p2p", false);
    round.on_session_hook(reply(false, None)).unwrap();
    round.on_prompt_hook(reply(false, None)).unwrap();
    assert_eq!(round.skip_count(), round.hook_start + 2);
    let added: Vec<_> =
        round.history[round.hook_start..].iter().map(|m| m.content.text_content()).collect();
    round.rebuild(vec![]);
    let kept: Vec<_> =
        round.history[round.hook_start..].iter().map(|m| m.content.text_content()).collect();
    assert_eq!(added, kept);
    assert!(!round.history.iter().any(|m| m.content == Content::text("before")));
    let error = round.on_prompt_hook(reply(true, None)).unwrap_err();
    assert_eq!(error.message(), "user prompt blocked by hook");
}

// ------------------------------------------------------------------ preparation

fn prep(session_hook: bool, prompt_hook: bool) -> RoundPrep {
    RoundPrep::new(
        draft("p2p", false),
        PrepFacts {
            session_hook,
            prompt_hook,
            supports_images: true,
            profile_id: "m".to_string(),
            budget: 100,
            auto_compress: true,
        },
    )
}

#[test]
fn hooks_come_first() {
    let (prep, action) = prep(true, true).step(PrepEvent::Begin);
    assert!(matches!(action, PrepAction::RunSessionHook));
    let (prep, action) = prep.step(PrepEvent::Hooked(reply(false, None)));
    assert!(matches!(action, PrepAction::RunPromptHook));
    let before = prep.draft.skip_count();
    let (prep, action) = prep.step(PrepEvent::Hooked(reply(false, None)));
    assert!(matches!(action, PrepAction::Measure));
    assert_eq!(prep.draft.skip_count(), before + 1);
    let (prep, action) = prep.step(PrepEvent::Measured(Some(100)));
    assert_eq!(prep.phase, PrepPhase::Over);
    assert_eq!(preparation_outcome(&action), Some(TurnInput::Prepared(true)));
}

#[test]
fn only_long_messages_are_kept() {
    let (asked, _) = prep(false, true).step(PrepEvent::Begin);
    let (over, action) = asked.step(PrepEvent::Hooked(reply(true, Some("no"))));
    assert_eq!(over.phase, PrepPhase::Over);
    assert_eq!(preparation_outcome(&action), Some(TurnInput::PrepareFailed));
    match action {
        PrepAction::Refuse { error, keep } => {
            assert_eq!(error.message(), "no");
            assert!(!keep);
        }
        other => panic!("expected a refusal, got {other:?}"),
    }
    let mut blind = prep(false, false);
    blind.facts.supports_images = false;
    let (_, action) = blind.step(PrepEvent::Begin);
    assert!(matches!(action, PrepAction::Refuse { keep: false, .. }));
    let mut full = prep(false, false);
    full.facts.auto_compress = false;
    let (full, _) = full.step(PrepEvent::Begin);
    let (_, action) = full.step(PrepEvent::Measured(Some(101)));
    assert_eq!(preparation_outcome(&action), Some(TurnInput::OverBudget));
}

#[test]
fn preparing_compresses_until_the_request_fits() {
    let (prep, _) = prep(true, false).step(PrepEvent::Begin);
    let (prep, _) = prep.step(PrepEvent::Hooked(reply(false, None)));
    let (prep, action) = prep.step(PrepEvent::Measured(Some(101)));
    assert!(matches!(action, PrepAction::Compact));
    assert_eq!(prep.phase, PrepPhase::Compacting(101));
    let (prep, action) = prep.step(PrepEvent::Compacted(Ok(2)));
    assert!(matches!(action, PrepAction::Reload));
    let (prep, action) = prep.step(PrepEvent::Reloaded(Ok(vec![])));
    assert!(matches!(action, PrepAction::Measure));
    assert!(!prep.draft.history.iter().any(|m| m.content == Content::text("before")));
    assert_eq!(prep.draft.skip_count(), prep.draft.hook_start + 1);
    let (prep, action) = prep.step(PrepEvent::Measured(Some(50)));
    assert!(matches!(action, PrepAction::Send { measured: true }));
    assert_eq!(prep.phase, PrepPhase::Over);
}

#[test]
fn a_memory_that_cannot_shrink_fails_the_round() {
    let full = || {
        let (prep, _) = prep(false, false).step(PrepEvent::Begin);
        prep.step(PrepEvent::Measured(Some(101))).0
    };
    let said = |action: PrepAction| match action {
        PrepAction::Refuse { error, keep: true } => error.message().clone(),
        other => panic!("expected a refusal, got {other:?}"),
    };
    let (_, action) = full().step(PrepEvent::Compacted(Ok(0)));
    assert!(said(action).contains("no complete older exchange"));
    let (_, action) = full().step(PrepEvent::Compacted(Err("lost".to_string())));
    assert!(said(action).ends_with("lost"));
    let (reloading, _) = full().step(PrepEvent::Compacted(Ok(1)));
    let (_, action) = reloading.step(PrepEvent::Reloaded(Err("gone".to_string())));
    assert_eq!(said(action), "reload memory after pre-request compression: gone");
    let (unmeasured, _) = prep(false, false).step(PrepEvent::Begin);
    let (_, action) = unmeasured.step(PrepEvent::Measured(None));
    assert_eq!(preparation_outcome(&action), Some(TurnInput::Prepared(false)));
}

// ---------------------------------------------------------------- turns over ACP

fn acp_turn() -> AcpTurn {
    AcpTurn::new(
        "s".to_string(),
        "hello".to_string(),
        vec![Message::user("before")],
        "system".to_string(),
        "environment".to_string(),
        None,
        JsonValue::Null,
        100,
    )
}

#[test]
fn a_turn_ends_with_an_answer() {
    let (turn, action) = acp_turn().step(AcpInput::Measured(100));
    assert!(matches!(action, AcpAction::Run));
    let (turn, action) = turn.step(AcpInput::Event(AcpEvent::Text(" hi ".to_string())));
    assert!(matches!(action, AcpAction::Listen));
    let mut history: Vec<_> = turn.start.history.iter().map(Message::copy).collect();
    history.push(Message::assistant("hi"));
    let (turn, _) = turn.step(AcpInput::Event(AcpEvent::History(history, JsonValue::Null)));
    let (turn, action) = turn.step(AcpInput::Event(AcpEvent::Done));
    assert_eq!(turn.phase, AcpPhase::Over);
    match action {
        AcpAction::Finish { record, answer } => {
            assert_eq!(answer, Ok("hi".to_string()));
            assert_eq!(record.messages.unwrap().len(), 1);
        }
        other => panic!("expected an answer, got {other:?}"),
    }
    let (running, _) = acp_turn().step(AcpInput::Measured(1));
    let (_, action) = running.step(AcpInput::Ended);
    assert!(matches!(action, AcpAction::Finish { answer: Err(_), .. }));
    let (running, _) = acp_turn().step(AcpInput::Measured(1));
    let (_, action) = running.step(AcpInput::Event(AcpEvent::Error("x".to_string())));
    assert!(matches!(action, AcpAction::Fail(said) if said.ends_with("session s: x")));
}

#[test]
fn the_agent_runs_within_its_budget() {
    let (turn, action) = acp_turn().step(AcpInput::Measured(101));
    assert!(matches!(action, AcpAction::Compact));
    let (turn, action) = turn.step(AcpInput::Compacted(Ok(0)));
    assert!(matches!(action, AcpAction::Reload));
    let (turn, action) = turn.step(AcpInput::Reloaded(Ok(vec![])));
    assert!(matches!(action, AcpAction::Measure));
    assert_eq!(turn.start.history.len(), 2);
    let (full, _) = acp_turn().step(AcpInput::Measured(101));
    let (_, action) = full.step(AcpInput::Compacted(Err("lost".to_string())));
    assert!(matches!(action, AcpAction::Fail(said) if said.contains("(101 > 100)")));
    let (full, _) = acp_turn().step(AcpInput::Measured(101));
    let (reloading, _) = full.step(AcpInput::Compacted(Ok(1)));
    let (_, action) = reloading.step(AcpInput::Reloaded(Err("gone".to_string())));
    assert!(matches!(action, AcpAction::Fail(said) if said == "gone"));
}

// -------------------------------------------------------------------- sub-agents

fn work(mut turn: SubAgentTurn, inputs: &[SubAgentInput]) -> (SubAgentTurn, Vec<SubAgentAction>) {
    let mut actions = vec![];
    for input in inputs {
        let made = turn.step(*input);
        turn = made.turn;
        actions.extend(made.actions);
    }
    (turn, actions)
}

#[test]
fn a_task_ends_with_its_result() {
    let (turn, actions) = work(
        SubAgentTurn::new(true),
        &[
            SubAgentInput::Begin,
            SubAgentInput::StartHooked,
            SubAgentInput::Loaded { described: true },
            SubAgentInput::Text,
            SubAgentInput::History,
            SubAgentInput::Done,
            SubAgentInput::StopHooked { wants_more: false },
        ],
    );
    assert_eq!(turn.phase, SubAgentPhase::Over);
    assert_eq!(
        actions,
        vec![
            SubAgentAction::LockSession,
            SubAgentAction::RunStartHook,
            SubAgentAction::ShowStart,
            SubAgentAction::LoadSession,
            SubAgentAction::SaveDescription,
            SubAgentAction::RunAgent,
            SubAgentAction::Show,
            SubAgentAction::Save,
            SubAgentAction::Save,
            SubAgentAction::RunStopHook,
            SubAgentAction::ShowDone,
            SubAgentAction::GiveResult,
        ]
    );
    let (_, more) = work(turn, &[SubAgentInput::Text, SubAgentInput::Ended]);
    assert!(more.is_empty());
    let (_, actions) = work(
        SubAgentTurn::new(true),
        &[SubAgentInput::Begin, SubAgentInput::StartHooked, SubAgentInput::NotLoaded],
    );
    assert!(actions.ends_with(&[SubAgentAction::ShowError, SubAgentAction::GiveResult]));
}

#[test]
fn an_agent_runs_twice_at_most() {
    let (turn, actions) = work(
        SubAgentTurn::new(false),
        &[
            SubAgentInput::Begin,
            SubAgentInput::StartHooked,
            SubAgentInput::StateUpdate,
            SubAgentInput::Done,
            SubAgentInput::StopHooked { wants_more: true },
            SubAgentInput::Done,
            SubAgentInput::StopHooked { wants_more: true },
        ],
    );
    assert_eq!(turn.phase, SubAgentPhase::Over);
    assert_eq!(actions.iter().filter(|a| **a == SubAgentAction::RunAgent).count(), 2);
    assert!(!actions.contains(&SubAgentAction::Save));
    assert!(actions.contains(&SubAgentAction::Keep));
    let (turn, actions) = work(
        SubAgentTurn { phase: SubAgentPhase::StopHook, persistent: true, stop_hook_active: false },
        &[SubAgentInput::StopHooked { wants_more: true }, SubAgentInput::Reloaded],
    );
    assert_eq!(turn.phase, SubAgentPhase::Running);
    assert_eq!(actions, vec![SubAgentAction::LoadSession, SubAgentAction::RunAgent]);
    let (_, actions) = work(turn, &[SubAgentInput::Failed]);
    assert_eq!(
        actions,
        vec![SubAgentAction::Save, SubAgentAction::ShowError, SubAgentAction::GiveResult]
    );
}

// --------------------------------------------------------------- workflow turns

fn walk(mut turn: WorkflowTurn, inputs: &[WorkflowInput]) -> (WorkflowTurn, Vec<WorkflowAction>) {
    let mut actions = vec![];
    for input in inputs {
        let made = turn.step(*input);
        turn = made.turn;
        actions.extend(made.actions);
    }
    (turn, actions)
}

#[test]
fn the_supervisor_comes_first() {
    let (turn, actions) = walk(
        WorkflowTurn::new(WorkflowEntry::Message, false),
        &[
            WorkflowInput::Begin,
            WorkflowInput::Active(true),
            WorkflowInput::Appended(true),
            WorkflowInput::Loaded(true),
        ],
    );
    assert_eq!(actions.first(), Some(&WorkflowAction::RegisterSteer));
    assert_eq!(actions.last(), Some(&WorkflowAction::Evaluate));
    assert!(turn.asked);
    let (over, actions) = walk(turn, &[WorkflowInput::Evaluated(Evaluation::Continue)]);
    assert_eq!(over.phase, WorkflowPhase::Over);
    assert_eq!(actions.last(), Some(&WorkflowAction::Run(WorkflowRun::NextTask)));
    let (_, actions) = walk(
        turn,
        &[WorkflowInput::Evaluated(Evaluation::Report), WorkflowInput::Steer(true)],
    );
    assert_eq!(actions.last(), Some(&WorkflowAction::Run(WorkflowRun::Steer)));
}

#[test]
fn a_message_without_a_workflow_is_a_plain_turn() {
    let (turn, actions) = walk(
        WorkflowTurn::new(WorkflowEntry::Message, false),
        &[WorkflowInput::Begin, WorkflowInput::Active(false)],
    );
    assert_eq!(turn.phase, WorkflowPhase::Over);
    assert_eq!(actions.last(), Some(&WorkflowAction::Run(WorkflowRun::Message)));
    let (_, actions) = walk(turn, &[WorkflowInput::Begin]);
    assert!(actions.is_empty());
}

#[test]
fn a_workflow_that_cannot_start_is_an_error() {
    let fresh = WorkflowTurn::new(WorkflowEntry::Start, false);
    let (turn, actions) = walk(fresh, &[WorkflowInput::Begin, WorkflowInput::Started(false)]);
    assert_eq!(turn.phase, WorkflowPhase::Over);
    assert_eq!(actions.last(), Some(&WorkflowAction::YieldError));
    let (_, actions) = walk(
        fresh,
        &[
            WorkflowInput::Begin,
            WorkflowInput::Started(true),
            WorkflowInput::Loaded(true),
            WorkflowInput::Progress,
            WorkflowInput::Evaluated(Evaluation::NoWorkflow),
        ],
    );
    assert!(actions.contains(&WorkflowAction::YieldProgress));
    assert_eq!(actions.last(), Some(&WorkflowAction::YieldNoDecision));
}

// -------------------------------------------------------------- what a round keeps

/// A round about `content` that streams, in a thread with nothing in memory.
fn streaming(content: &str) -> (TurnControl, RoundRun) {
    let round = RoundDraft::new(
        "thread",
        Content::text(content),
        &StreamOptions { sender_username: None, ..options() },
        false,
        false,
        vec![],
        JsonValue::text("at first"),
        parts(),
    );
    let (control, _) = run(TurnControl::new(false, false), &start());
    (control, round.run())
}

fn text(content: &str) -> RoundEvent {
    RoundEvent::Text(content.to_string())
}

/// Takes events in, without a workflow to put into the state.
fn stream(control: TurnControl, round: &mut RoundRun, events: Vec<RoundEvent>) -> RoundMove {
    let mut control = control;
    let mut last = None;
    for event in events {
        assert_eq!(round.to_merge(&control, &event), None);
        let made = round.step(control, event, None);
        control = made.control;
        last = Some(made);
    }
    last.unwrap()
}

#[test]
fn cancelled_stream_persists_partial_assistant_text() {
    let (control, mut round) = streaming("start");
    let made = stream(
        control,
        &mut round,
        vec![text("partial answer"), RoundEvent::Cancelled, RoundEvent::Paused(None)],
    );
    assert_eq!(
        made.actions,
        vec![TurnAction::SaveCancelled, TurnAction::Yield(TurnYield::Done)]
    );
    let record = made.record.unwrap();
    let messages = record.messages.unwrap();
    assert_eq!(messages.len(), 2);
    assert_eq!(messages[0].role, Role::User);
    assert_eq!(messages[0].content, Content::text("start"));
    assert_eq!(messages[1].role, Role::Assistant);
    assert_eq!(messages[1].content, Content::text("partial answer"));
    assert_eq!(record.user_state, Some(JsonValue::text("at first")));
}

#[test]
fn cancelled_stream_pauses_active_supervisor_without_evaluation() {
    let (control, mut round) = streaming("start");
    let made = stream(control, &mut round, vec![text("partial answer"), RoundEvent::Cancelled]);
    assert_eq!(made.reason, some("interrupted by user"));
    assert!(made.actions.contains(&TurnAction::PauseCancelled(0)));
    let mut workflow = Some(instance());
    let report = pause_for_cancellation(&mut workflow, &made.control);
    let paused = RoundEvent::Paused(report);
    assert_eq!(
        round.to_merge(&made.control, &paused),
        Some(JsonValue::text("at first"))
    );
    let made = round.step(made.control, paused, Some(JsonValue::text("with the workflow")));
    let report = made.report.unwrap();
    assert_eq!(report.status, WorkflowStatus::Paused);
    assert_eq!(report.reason, "interrupted by user");
    assert_eq!(report.round, 0);
    assert!(made.actions.contains(&TurnAction::Yield(TurnYield::Report)));
    assert!(!made.actions.contains(&TurnAction::EvaluateWorkflow(0)));
    assert_eq!(made.control.phase, TurnPhase::Finished);
    assert_eq!(
        made.record.unwrap().user_state,
        Some(JsonValue::text("with the workflow"))
    );
    let instance = workflow.unwrap();
    assert_eq!(instance.status, WorkflowStatus::Paused);
    assert_eq!(instance.pause_reason, Some(WorkflowPauseReason::Interrupted));
}

#[test]
fn a_cancelled_round_keeps_its_history_where_one_came() {
    let (control, mut round) = streaming("start");
    let history = vec![Message::user("start"), Message::assistant("whole")];
    let mut messages = copy_messages(&round.recorder.base_messages);
    messages.pop();
    messages.extend(history);
    let made = stream(
        control,
        &mut round,
        vec![
            text("part"),
            RoundEvent::History { messages, state: JsonValue::text("later") },
            RoundEvent::Cancelled,
            RoundEvent::Paused(None),
        ],
    );
    let record = made.record.unwrap();
    let messages = record.messages.unwrap();
    assert_eq!(messages.len(), 2);
    assert_eq!(messages[1].content, Content::text("whole"));
    assert_eq!(record.user_state, Some(JsonValue::text("later")));
    assert_eq!(round.history, None);
    assert_eq!(round.state, None);
}

#[test]
fn a_complete_round_is_written_with_the_times_of_its_tools() {
    let (control, mut round) = streaming("start");
    let mut answer = Message::assistant("answer of the tool");
    answer.tool_call_id = some("1");
    let mut messages = copy_messages(&round.recorder.base_messages);
    messages.push(answer);
    let made = stream(
        control,
        &mut round,
        vec![
            RoundEvent::ToolCallResult {
                id: "1".to_string(),
                name: "ls".to_string(),
                args: JsonValue::Null,
                result: "a".to_string(),
                success: true,
                elapsed_ms: 7,
            },
            RoundEvent::History { messages, state: JsonValue::Null },
            RoundEvent::Done,
        ],
    );
    assert!(made.actions.contains(&TurnAction::Save));
    assert_eq!(made.answered.unwrap().len(), round.skip_count + 2);
    let messages = made.record.unwrap().messages.unwrap();
    assert_eq!(messages.len(), 2);
    assert_eq!(
        messages[1].metadata.as_ref().unwrap().get("tool_elapsed_ms"),
        Some(&JsonValue::unsigned(7))
    );
}

#[test]
fn failing_writes_no_unfinished_answer() {
    for event in [RoundEvent::Failed, RoundEvent::Ended] {
        let (control, mut round) = streaming("start");
        let made = stream(control, &mut round, vec![text("part"), event]);
        assert!(made.actions.contains(&TurnAction::Save));
        let record = made.record.unwrap();
        assert_eq!(record.messages, None);
        assert_eq!(record.user_state, None);
    }
}

#[test]
fn states_are_written_with_the_workflow_that_changed() {
    let (control, mut round) = streaming("start");
    let update = RoundEvent::StateUpdate(JsonValue::text("first"));
    let made = stream(control, &mut round, vec![update]);
    assert_eq!(made.state, Some(JsonValue::text("first")));
    let interrupted = RoundEvent::UserInterrupted("wait".to_string());
    let made = stream(made.control, &mut round, vec![interrupted]);
    assert_eq!(made.reason, some("wait"));
    assert_eq!(made.actions, vec![TurnAction::PauseInterrupted(0)]);
    let mut workflow = Some(instance());
    let paused =
        RoundEvent::Paused(pause_for_interruption(&mut workflow, &made.control, "wait"));
    assert_eq!(workflow.unwrap().last_report.unwrap().reason, "wait");
    assert_eq!(round.to_merge(&made.control, &paused), Some(JsonValue::text("first")));
    let made = round.step(made.control, paused, Some(JsonValue::text("paused")));
    assert_eq!(made.control.phase, TurnPhase::Streaming);
    assert_eq!(round.state, Some(JsonValue::text("paused")));
    let update = RoundEvent::StateUpdate(JsonValue::text("second"));
    assert_eq!(round.to_merge(&made.control, &update), Some(JsonValue::text("second")));
    let made = round.step(made.control, update, Some(JsonValue::text("second, paused")));
    assert_eq!(made.state, Some(JsonValue::text("second, paused")));
    let history = RoundEvent::History { messages: vec![], state: JsonValue::text("third") };
    let made = round.step(made.control, history, Some(JsonValue::text("third, paused")));
    assert_eq!(
        round.to_merge(&made.control, &RoundEvent::Done),
        Some(JsonValue::text("third, paused"))
    );
    let made = round.step(made.control, RoundEvent::Done, Some(JsonValue::text("at the end")));
    assert_eq!(made.record.unwrap().user_state, Some(JsonValue::text("at the end")));
}

#[test]
fn a_question_leaves_a_state_that_did_not_come() {
    let (control, mut round) = streaming("start");
    let made = stream(control, &mut round, vec![RoundEvent::QuestionRequested]);
    assert_eq!(made.actions, vec![TurnAction::PauseForInput(0)]);
    let report = make_standing_report(&instance(), WorkflowStatus::Paused, "asked", 0);
    let made = stream(made.control, &mut round, vec![RoundEvent::Paused(Some(report))]);
    assert!(made.control.workflow_changed);
    assert_eq!(round.state, None);
    let made = stream(
        made.control,
        &mut round,
        vec![RoundEvent::QuestionResolved, RoundEvent::Resumed(None)],
    );
    assert_eq!(made.control.phase, TurnPhase::Streaming);
    assert!(made.report.is_none());
}

#[test]
fn an_internal_run_is_kept_at_once() {
    let (control, _) =
        run(TurnControl::new(true, false), &[TurnInput::Begin, TurnInput::Prepared(false)]);
    let (_, mut round) = streaming("start");
    let made = stream(control, &mut round, vec![text("part"), RoundEvent::Cancelled]);
    assert_eq!(made.reason, None);
    assert_eq!(made.control.phase, TurnPhase::Finished);
    assert_eq!(made.record.unwrap().messages.unwrap().len(), 2);
}

#[test]
fn what_the_next_round_says() {
    let task = ToolTaskRecord {
        task_id: "task".to_string(),
        thread_id: "thread".to_string(),
        tool_name: "bash".to_string(),
        args: JsonValue::Null,
        status: "completed".to_string(),
        elapsed_ms: Some(1),
        success: Some(true),
        result_preview: some("ok"),
        recent_output: vec![],
        message: None,
    };
    let finished = NextSource::TaskCompletion(task);
    assert_eq!(finished.kind(), NextContent::TaskCompletion);
    assert!(finished.content().text_content().contains("bash"));
    let steer = NextSource::Steer(Content::text("left"));
    assert_eq!(steer.kind(), NextContent::Steer);
    assert_eq!(steer.content(), Content::text("left"));
    let told = NextSource::Supervisor("go on".to_string());
    assert_eq!(told.kind(), NextContent::Supervisor);
    assert_eq!(told.content(), Content::text("go on"));
    assert_eq!(
        NextSource::StopHook(reply(true, Some("more"))).content(),
        Content::text("more")
    );
    let plain = NextSource::StopHook(reply(true, None));
    assert_eq!(plain.kind(), NextContent::StopHook);
    assert_eq!(
        plain.content(),
        Content::text("Continue the response according to the Stop hook.")
    );
}
