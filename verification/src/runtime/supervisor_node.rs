//! The course of a supervisor from its first attempt to its decision.
//!
//! Whoever drives it runs the model, tells how the run went, and says what came
//! of reading the answer and of trying it on a copy of the workflow.
use vstd::prelude::*;
use vstd::string::*;

use crate::error::{AgentError, ErrorView};
use crate::runtime::supervisor::{
    after_end, after_verdict, attempt_end, attempt_request, attempts_are_told_what_was_wrong,
    attempts_leave_what_they_did, closing_events, concluded, copy_event, judged, observed,
    progress_of, rejections_tell_why, AttemptEnd, AttemptStep, AttemptStepView,
    AttemptView, RequestView, RunView, SupervisorAttempt, SupervisorEvent, SupervisorPrompt,
    SupervisorRequest, SupervisorRun, SupervisorStep, SupervisorStepView,
    SUPERVISOR_DECISION_MAX_ATTEMPTS,
};
use crate::text::occurs;
use crate::workflow::{trace_views, SupervisorTraceEvent, TraceView};

verus! {

broadcast use vstd::string::group_string_axioms;

/// Where a supervisor stands.
#[derive(Debug, Clone, Copy, PartialEq, Eq, Structural)]
pub enum NodePhase {
    /// An attempt is about to begin.
    Starting,
    /// The model runs.
    Running,
    /// The answer is looked at.
    Judging,
    /// The supervisor is done.
    Over,
}

/// A supervisor that is asked about a workflow.
#[derive(Debug)]
pub struct SupervisorNode {
    pub phase: NodePhase,
    pub prompt: SupervisorPrompt,
    pub budget: u32,
    pub run: SupervisorRun,
    pub attempt: SupervisorAttempt,
}

pub struct NodeView {
    pub phase: NodePhase,
    pub prompt: SupervisorPrompt,
    pub budget: u32,
    pub run: RunView,
    pub attempt: AttemptView,
}

impl View for SupervisorNode {
    type V = NodeView;

    open spec fn view(&self) -> NodeView {
        NodeView {
            phase: self.phase,
            prompt: self.prompt,
            budget: self.budget,
            run: self.run@,
            attempt: self.attempt@,
        }
    }
}

/// What happens to a supervisor.
#[derive(Debug)]
pub enum NodeEvent {
    /// An attempt begins in a thread of its own, unless the user has stopped it
    /// all.
    Begin { cancelled: bool, thread: String },
    /// The model does something.
    Told(SupervisorEvent),
    /// The attempt ends; its trace as text.
    Ended { end: AttemptEnd, trace_text: String },
    /// The answer was looked at: what its decision tells the agent, whether a copy
    /// of the workflow takes it, and how it is shown.
    Judged {
        parsed: Result<Option<String>, String>,
        tried: Result<(), String>,
        shown: Result<String, String>,
    },
}

/// How a supervisor ends.
#[derive(Debug)]
pub enum NodeEnd {
    Cancelled,
    Failed(AgentError),
    /// With the decision last looked at, and all that was done for it.
    Decided(Vec<SupervisorTraceEvent>),
}

pub enum NodeEndView {
    Cancelled,
    Failed(ErrorView),
    Decided(Seq<TraceView>),
}

impl View for NodeEnd {
    type V = NodeEndView;

    open spec fn view(&self) -> NodeEndView {
        match self {
            NodeEnd::Cancelled => NodeEndView::Cancelled,
            NodeEnd::Failed(e) => NodeEndView::Failed(e@),
            NodeEnd::Decided(trace) => NodeEndView::Decided(trace_views(trace@)),
        }
    }
}

/// What to do.
#[derive(Debug)]
pub enum NodeAction {
    /// Run the model.
    Ask(SupervisorRequest),
    /// Wait for what the model does next.
    Listen,
    /// Look at this answer: read it, and try its decision on a copy of the
    /// workflow.
    Judge(String),
    /// Begin another attempt.
    Retry,
    Finish(NodeEnd),
}

pub enum NodeActionView {
    Ask(RequestView),
    Listen,
    Judge(Seq<char>),
    Retry,
    Finish(NodeEndView),
}

impl View for NodeAction {
    type V = NodeActionView;

    open spec fn view(&self) -> NodeActionView {
        match self {
            NodeAction::Ask(r) => NodeActionView::Ask(r@),
            NodeAction::Listen => NodeActionView::Listen,
            NodeAction::Judge(output) => NodeActionView::Judge(output@),
            NodeAction::Retry => NodeActionView::Retry,
            NodeAction::Finish(end) => NodeActionView::Finish(end@),
        }
    }
}

/// What to do, and what is told of the step.
#[derive(Debug)]
pub struct NodeMove {
    pub action: NodeAction,
    pub told: Vec<SupervisorTraceEvent>,
}

pub struct NodeMade {
    pub action: NodeActionView,
    pub told: Seq<TraceView>,
}

impl View for NodeMove {
    type V = NodeMade;

    open spec fn view(&self) -> NodeMade {
        NodeMade { action: self.action@, told: trace_views(self.told@) }
    }
}

/// Whether an event belongs to a phase.
pub open spec fn fits(phase: NodePhase, event: NodeEvent) -> bool {
    match phase {
        NodePhase::Starting => event is Begin,
        NodePhase::Running => event is Told || event is Ended,
        NodePhase::Judging => event is Judged,
        NodePhase::Over => false,
    }
}

pub open spec fn empty_attempt() -> AttemptView {
    AttemptView { output: Seq::empty(), trace: Seq::empty(), tool_args: Seq::empty() }
}

pub open spec fn over(v: NodeView, end: NodeEndView, told: Seq<TraceView>) -> (NodeView, NodeMade) {
    (
        NodeView { phase: NodePhase::Over, ..v },
        NodeMade { action: NodeActionView::Finish(end), told },
    )
}

/// What an event leads to.
pub open spec fn node_step(v: NodeView, event: NodeEvent) -> (NodeView, NodeMade) {
    match event {
        NodeEvent::Begin { cancelled, thread } => if cancelled {
            over(v, NodeEndView::Cancelled, Seq::empty())
        } else {
            (
                NodeView { phase: NodePhase::Running, attempt: empty_attempt(), ..v },
                NodeMade {
                    action: NodeActionView::Ask(
                        attempt_request(v.run, v.prompt, v.budget, thread@),
                    ),
                    told: Seq::empty(),
                },
            )
        },
        NodeEvent::Told(e) => (
            NodeView { attempt: observed(v.attempt, e), ..v },
            NodeMade {
                action: NodeActionView::Listen,
                told: match progress_of(v.attempt, e) {
                    Some(t) => Seq::empty().push(t),
                    None => Seq::empty(),
                },
            },
        ),
        NodeEvent::Ended { end, trace_text } => match after_end(end, trace_text@) {
            AttemptStepView::Cancelled => over(v, NodeEndView::Cancelled, Seq::empty()),
            AttemptStepView::Fail(e) => over(v, NodeEndView::Failed(e), Seq::empty()),
            AttemptStepView::Judge => (
                NodeView { phase: NodePhase::Judging, ..v },
                NodeMade { action: NodeActionView::Judge(v.attempt.output), told: Seq::empty() },
            ),
        },
        NodeEvent::Judged { parsed, tried, shown } => {
            let verdict = judged(parsed, tried, shown);
            let told = closing_events(v.run.attempt, verdict);
            let after = NodeView {
                run: concluded(v.run, v.attempt.trace, v.attempt.output, verdict),
                ..v
            };
            match after_verdict(v.run.attempt, verdict) {
                SupervisorStepView::Retry => (
                    NodeView { phase: NodePhase::Starting, ..after },
                    NodeMade { action: NodeActionView::Retry, told },
                ),
                SupervisorStepView::Decide => over(
                    after,
                    NodeEndView::Decided(after.run.trace),
                    told,
                ),
                SupervisorStepView::Fail(e) => over(after, NodeEndView::Failed(e), told),
            }
        },
    }
}

/// A copy of what was told from `from` on.
fn told_since(trace: &Vec<SupervisorTraceEvent>, from: usize) -> (r: Vec<SupervisorTraceEvent>)
    requires
        from <= trace.len(),
    ensures
        trace_views(r@) == trace_views(trace@).skip(from as int),
{
    let ghost all = trace_views(trace@);
    let mut out: Vec<SupervisorTraceEvent> = Vec::new();
    let mut i: usize = from;
    while i < trace.len()
        invariant
            from <= i <= trace.len(),
            all == trace_views(trace@),
            out.len() == i - from,
            forall|j: int| 0 <= j < out.len() ==> (#[trigger] out@[j])@ == all[j + from],
        decreases trace.len() - i,
    {
        assert(all[i as int] == trace@[i as int]@);
        out.push(copy_event(&trace[i]));
        i += 1;
    }
    assert(trace_views(out@) =~= all.skip(from as int));
    out
}

fn silent(action: NodeAction) -> (r: NodeMove)
    ensures
        r@ == (NodeMade { action: action@, told: Seq::empty() }),
{
    let told: Vec<SupervisorTraceEvent> = Vec::new();
    assert(trace_views(told@) =~= Seq::<TraceView>::empty());
    NodeMove { action, told }
}

impl SupervisorNode {
    /// The attempts stay within their limit.
    pub open spec fn wf(&self) -> bool {
        1 <= self.run.attempt <= SUPERVISOR_DECISION_MAX_ATTEMPTS
    }

    /// A supervisor before its first attempt.
    pub fn new(prompt: SupervisorPrompt, budget: u32) -> (r: SupervisorNode)
        ensures
            r.wf(),
            r@ == (NodeView {
                phase: NodePhase::Starting,
                prompt,
                budget,
                run: RunView {
                    attempt: 1,
                    feedback: None,
                    trace: Seq::empty(),
                    last_error: None,
                },
                attempt: empty_attempt(),
            }),
    {
        SupervisorNode {
            phase: NodePhase::Starting,
            prompt,
            budget,
            run: SupervisorRun::new(),
            attempt: SupervisorAttempt::new(),
        }
    }

    fn judge(
        self,
        parsed: Result<Option<String>, String>,
        tried: Result<(), String>,
        shown: Result<String, String>,
    ) -> (r: (SupervisorNode, NodeMove))
        requires
            self.wf(),
        ensures
            r.0.wf(),
            (r.0@, r.1@) == node_step(self@, (NodeEvent::Judged { parsed, tried, shown })),
    {
        let mut node = self;
        let ghost verdict = judged(parsed, tried, shown);
        let ghost before = node.run@.trace + node.attempt@.trace;
        let ghost closing = closing_events(node.run@.attempt, verdict);
        let earlier: usize = node.run.trace.len();
        assert(node.run@.trace.len() == earlier);
        let step = node.run.judge(&node.attempt, parsed, tried, shown);
        proof {
            assert(trace_views(node.run.trace@) == before + closing);
            assert(trace_views(node.run.trace@).len() == node.run.trace.len());
            assert(before.len() == earlier + node.attempt.trace.len());
        }
        let told = told_since(&node.run.trace, earlier + node.attempt.trace.len());
        proof {
            assert((before + closing).skip(before.len() as int) =~= closing);
        }
        match step {
            SupervisorStep::Retry => {
                node.phase = NodePhase::Starting;
                (node, NodeMove { action: NodeAction::Retry, told })
            },
            SupervisorStep::Decide => {
                node.phase = NodePhase::Over;
                let trace = told_since(&node.run.trace, 0);
                assert(node.run@.trace.skip(0) =~= node.run@.trace);
                (node, NodeMove { action: NodeAction::Finish(NodeEnd::Decided(trace)), told })
            },
            SupervisorStep::Fail(e) => {
                node.phase = NodePhase::Over;
                (node, NodeMove { action: NodeAction::Finish(NodeEnd::Failed(e)), told })
            },
        }
    }

    /// Takes one step: what `event` leads to in this state.
    pub fn step(self, event: NodeEvent) -> (r: (SupervisorNode, NodeMove))
        requires
            self.wf(),
            fits(self.phase, event),
        ensures
            r.0.wf(),
            (r.0@, r.1@) == node_step(self@, event),
    {
        let mut node = self;
        match event {
            NodeEvent::Begin { cancelled, thread } => if cancelled {
                node.phase = NodePhase::Over;
                (node, silent(NodeAction::Finish(NodeEnd::Cancelled)))
            } else {
                let request = node.run.request(&node.prompt, node.budget, &thread);
                node.phase = NodePhase::Running;
                node.attempt = SupervisorAttempt::new();
                (node, silent(NodeAction::Ask(request)))
            },
            NodeEvent::Told(e) => {
                let told = node.attempt.observe(e);
                match told {
                    Some(t) => {
                        let mut all: Vec<SupervisorTraceEvent> = Vec::new();
                        let ghost view = t@;
                        all.push(t);
                        assert(trace_views(all@) =~= Seq::empty().push(view));
                        (node, NodeMove { action: NodeAction::Listen, told: all })
                    },
                    None => (node, silent(NodeAction::Listen)),
                }
            },
            NodeEvent::Ended { end, trace_text } => match attempt_end(&end, &trace_text) {
                AttemptStep::Cancelled => {
                    node.phase = NodePhase::Over;
                    (node, silent(NodeAction::Finish(NodeEnd::Cancelled)))
                },
                AttemptStep::Fail(e) => {
                    node.phase = NodePhase::Over;
                    (node, silent(NodeAction::Finish(NodeEnd::Failed(e))))
                },
                AttemptStep::Judge => {
                    node.phase = NodePhase::Judging;
                    let output = node.attempt.output.clone();
                    (node, silent(NodeAction::Judge(output)))
                },
            },
            NodeEvent::Judged { parsed, tried, shown } => node.judge(parsed, tried, shown),
        }
    }
}

// ------------------------------------------------------------------------ laws

/// How often the model can still be run.
pub open spec fn runs_left(v: NodeView) -> int {
    match v.phase {
        NodePhase::Starting => SUPERVISOR_DECISION_MAX_ATTEMPTS + 1 - v.run.attempt,
        NodePhase::Running | NodePhase::Judging => SUPERVISOR_DECISION_MAX_ATTEMPTS - v.run.attempt,
        NodePhase::Over => 0,
    }
}

/// A supervisor runs the model three times at most: it can do so three times at
/// its beginning, each run leaves one less, and nothing leaves more.
pub proof fn the_model_runs_three_times_at_most(v: NodeView, event: NodeEvent)
    requires
        1 <= v.run.attempt <= SUPERVISOR_DECISION_MAX_ATTEMPTS,
        fits(v.phase, event),
    ensures
        v.phase == NodePhase::Starting && v.run.attempt == 1 ==> runs_left(v) == 3,
        0 <= runs_left(node_step(v, event).0),
        runs_left(node_step(v, event).0) + (if node_step(v, event).1.action is Ask {
            1int
        } else {
            0
        }) <= runs_left(v),
{
}

/// Whenever the model is run, it may call no tool, and nothing steers it or runs
/// on behind it.
pub proof fn the_model_runs_without_tools(v: NodeView, event: NodeEvent)
    requires
        fits(v.phase, event),
        node_step(v, event).1.action is Ask,
    ensures
        ({
            let request = node_step(v, event).1.action->Ask_0;
            &&& request.tools.len() == 0
            &&& !request.steer
            &&& !request.async_agent
        }),
{
}

/// A supervisor has decided only once its answer was read as a decision that a
/// copy of the workflow takes; and then, if it can be shown, it has.
pub proof fn only_tried_decisions_count(v: NodeView, event: NodeEvent)
    requires
        fits(v.phase, event),
    ensures
        (node_step(v, event).1.action matches NodeActionView::Finish(end) && end is Decided)
            <==> (event matches NodeEvent::Judged { parsed, tried, shown } && parsed is Ok
            && tried is Ok && shown is Ok),
{
}

/// The model is run again only after an answer that was no decision or that the
/// copy of the workflow refused.
pub proof fn only_rejected_answers_are_asked_for_again(v: NodeView, event: NodeEvent)
    requires
        1 <= v.run.attempt <= SUPERVISOR_DECISION_MAX_ATTEMPTS,
        fits(v.phase, event),
    ensures
        node_step(v, event).1.action is Retry <==> (event matches NodeEvent::Judged {
            parsed,
            tried,
            shown,
        } && (parsed is Err || tried is Err) && v.run.attempt < SUPERVISOR_DECISION_MAX_ATTEMPTS),
        v.phase != NodePhase::Starting && node_step(v, event).0.phase == NodePhase::Starting
            ==> node_step(v, event).1.action is Retry,
{
}

/// A supervisor ends as stopped exactly where the user stopped it, before or
/// during an attempt.
pub proof fn only_the_user_stops_a_supervisor(v: NodeView, event: NodeEvent)
    requires
        fits(v.phase, event),
    ensures
        (node_step(v, event).1.action matches NodeActionView::Finish(end) && end is Cancelled) <==> (
        match event {
            NodeEvent::Begin { cancelled, .. } => cancelled,
            NodeEvent::Ended { end, .. } => end is Cancelled,
            _ => false,
        }),
{
}

/// An attempt begins with nothing collected, and with the prompt and what was wrong
/// with the attempt before it; its answer is all that the model said.
pub proof fn an_answer_is_all_that_was_said(v: NodeView, event: NodeEvent)
    requires
        fits(v.phase, event),
    ensures
        event matches NodeEvent::Begin { cancelled, thread } ==> !cancelled ==> {
            let (after, made) = node_step(v, event);
            &&& after.phase == NodePhase::Running
            &&& after.attempt.output.len() == 0 && after.attempt.trace.len() == 0
            &&& made.action is Ask
            &&& v.prompt.content@.is_prefix_of(made.action->Ask_0.content)
            &&& v.run.feedback matches Some(f) ==> occurs(made.action->Ask_0.content, f)
        },
        event matches NodeEvent::Told(SupervisorEvent::Text(t)) ==> node_step(
            v,
            event,
        ).0.attempt.output == v.attempt.output + t@,
        event matches NodeEvent::Told(e) ==> node_step(v, event).1.action is Listen && (node_step(
            v,
            event,
        ).1.told.len() > 0 <==> !(e is Other)),
        event matches NodeEvent::Ended { end, .. } ==> end is Ended ==> node_step(v, event).1.action
            == NodeActionView::Judge(v.attempt.output),
        event matches NodeEvent::Ended { end, .. } ==> (end is Failed || end is TimedOut)
            ==> node_step(v, event).1.action is Finish && node_step(
            v,
            event,
        ).1.action->Finish_0 is Failed,
{
    if event is Begin {
        attempts_are_told_what_was_wrong(v.run, v.prompt.content@);
    }
}

/// A decision is handed out with all that was done for it, in every attempt.
pub proof fn decisions_come_with_all_that_was_done(v: NodeView, event: NodeEvent)
    requires
        fits(v.phase, event),
        node_step(v, event).1.action is Finish,
        node_step(v, event).1.action->Finish_0 is Decided,
    ensures
        (v.run.trace + v.attempt.trace).is_prefix_of(
            node_step(v, event).1.action->Finish_0->Decided_0,
        ),
{
    match event {
        NodeEvent::Judged { parsed, tried, shown } => {
            attempts_leave_what_they_did(
                v.run,
                v.attempt.trace,
                v.attempt.output,
                judged(parsed, tried, shown),
            );
        },
        _ => {},
    }
}

/// A rejected answer is asked for again with what was wrong with it.
pub proof fn rejected_answers_are_explained(v: NodeView, event: NodeEvent)
    requires
        1 <= v.run.attempt <= SUPERVISOR_DECISION_MAX_ATTEMPTS,
        fits(v.phase, event),
        node_step(v, event).1.action is Retry,
    ensures
        ({
            let after = node_step(v, event).0;
            let error = if event->parsed is Err {
                event->parsed->Err_0@
            } else {
                event->tried->Err_0@
            };
            &&& after.run.attempt == v.run.attempt + 1
            &&& after.run.feedback is Some
            &&& occurs(after.run.feedback->0, error)
        }),
{
    match event {
        NodeEvent::Judged { parsed, tried, shown } => {
            let error = if parsed is Err {
                parsed->Err_0@
            } else {
                tried->Err_0@
            };
            attempts_leave_what_they_did(
                v.run,
                v.attempt.trace,
                v.attempt.output,
                judged(parsed, tried, shown),
            );
            rejections_tell_why(error, v.attempt.output);
        },
        _ => {},
    }
}

} // verus!
