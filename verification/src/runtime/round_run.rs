//! What a round keeps while the model answers, and what is written of it.
//!
//! The course of a turn says when something is kept, merged or saved; here is
//! what it is.
use vstd::prelude::*;
use vstd::string::*;

use crate::json::{JsonValue, JsonView};
use crate::message::{
    copy_messages, message_views, option_text, Content, ContentView, Message, MessageView, Role,
};
use crate::runtime::background::{
    an_agent_is_told_what_came_of_a_task, args_preview, background_task_completion_content,
    completion_text, ToolTaskRecord,
};
use crate::runtime::memory::{
    all_timed, fresh_messages, history_view, persist_turn, records_hold_what_is_new,
    records_keep_what_was_said, timed, turn_record, RecordView, TurnRecord,
};
use crate::runtime::options::option_value;
use crate::runtime::recorder::{
    a_finished_call_is_recorded, called, cancelled_history, cancelling_keeps_the_text, extended,
    finished, position, started, PartialTurnRecorder, RecorderView,
};
use crate::runtime::round::RoundDraft;
use crate::runtime::rounds::{interrupt_thread, option_instance, pauses};
use crate::runtime::turn::{
    after_save, answer_step, complete_round, does, finish, question_step, save_cancelled, say,
    start_step, stop_hook, streaming_step, supervise, turn_step, workflow_round, workflow_step,
    NextContent, TurnAction, TurnControl, TurnInput, TurnPhase, TurnYield,
};
use crate::runtime::turn_input::{reason_or, HookReply};
use crate::text::occurs;
use crate::text_map::{lemma_set_value_is_there, value_of, with_value, TextMap};
use crate::workflow::{
    option_report, waits_after_interruption, InstanceView, ReportView, WorkflowInstance,
    WorkflowPauseReason, WorkflowReport, WorkflowStatus,
};

verus! {

broadcast use vstd::string::group_string_axioms;

// ------------------------------------------------------------------------ data

/// What a round has at hand: the user state that it began with, the history and
/// the state that came since, the record of the unfinished answer, how long its
/// tools took, and how many messages of a history are not new.
#[derive(Debug)]
pub struct RoundRun {
    pub initial_state: JsonValue,
    pub history: Option<Vec<Message>>,
    pub state: Option<JsonValue>,
    pub recorder: PartialTurnRecorder,
    pub elapsed: TextMap<u64>,
    pub skip_count: usize,
}

pub struct RoundRunView {
    pub initial_state: JsonView,
    pub history: Option<Seq<MessageView>>,
    pub state: Option<JsonView>,
    pub recorder: RecorderView,
    pub elapsed: Seq<(Seq<char>, u64)>,
    pub skip_count: nat,
}

impl View for RoundRun {
    type V = RoundRunView;

    open spec fn view(&self) -> RoundRunView {
        RoundRunView {
            initial_state: self.initial_state@,
            history: history_view(self.history),
            state: option_value(self.state),
            recorder: self.recorder@,
            elapsed: self.elapsed@,
            skip_count: self.skip_count as nat,
        }
    }
}

/// The state at hand: the last that came in, else the one at the start.
pub open spec fn state_at_hand(run: RoundRunView) -> JsonView {
    match run.state {
        Some(s) => s,
        None => run.initial_state,
    }
}

/// What is kept of a cancelled round: its history, else what the record of the
/// unfinished answer comes to.
pub open spec fn history_at_hand(run: RoundRunView) -> Option<Seq<MessageView>> {
    match run.history {
        Some(h) => Some(h),
        None => cancelled_history(run.recorder),
    }
}

/// What is written of a round that ended by itself.
pub open spec fn saved_record(run: RoundRunView) -> RecordView {
    turn_record(run.history, run.state, run.skip_count as int, run.elapsed)
}

/// What is written of a round that was cancelled.
pub open spec fn cancelled_record(run: RoundRunView) -> RecordView {
    turn_record(
        history_at_hand(run),
        Some(state_at_hand(run)),
        run.skip_count as int,
        run.elapsed,
    )
}

/// A round once it is written: its history and state are gone.
pub open spec fn written(run: RoundRunView) -> RoundRunView {
    RoundRunView { history: None, state: None, ..run }
}

impl RoundRun {
    /// A round whose run starts.
    pub fn new(initial_state: JsonValue, recorder: PartialTurnRecorder, skip_count: usize) -> (r:
        RoundRun)
        ensures
            r@ == (RoundRunView {
                initial_state: initial_state@,
                history: None,
                state: None,
                recorder: recorder@,
                elapsed: Seq::empty(),
                skip_count: skip_count as nat,
            }),
    {
        RoundRun {
            initial_state,
            history: None,
            state: None,
            recorder,
            elapsed: TextMap::new(),
            skip_count,
        }
    }

    /// The history and the state of the round came in.
    pub fn on_history(&mut self, messages: Vec<Message>, state: JsonValue)
        ensures
            final(self)@ == (RoundRunView {
                history: Some(message_views(messages@)),
                state: Some(state@),
                ..old(self)@
            }),
    {
        self.history = Some(messages);
        self.state = Some(state);
    }

    /// A new state came in.
    pub fn on_state_update(&mut self, state: JsonValue)
        ensures
            final(self)@ == (RoundRunView { state: Some(state@), ..old(self)@ }),
    {
        self.state = Some(state);
    }

    /// A tool has answered: the time it took is kept for its message.
    pub fn on_tool_result(
        &mut self,
        id: String,
        name: String,
        args: JsonValue,
        result: String,
        success: bool,
        elapsed_ms: u64,
    )
        ensures
            final(self)@ == (RoundRunView {
                elapsed: with_value(old(self)@.elapsed, id@, elapsed_ms),
                recorder: RecorderView {
                    tools: finished(
                        old(self)@.recorder.tools,
                        id@,
                        name@,
                        args@,
                        result@,
                        success,
                        elapsed_ms,
                    ),
                    ..old(self)@.recorder
                },
                ..old(self)@
            }),
    {
        self.elapsed.insert(id.clone(), elapsed_ms);
        self.recorder.on_tool_result(id, name, args, result, success, elapsed_ms);
    }

    /// The workflow was paused and put into the state at hand, which is then
    /// `merged`; where that could not be done, the state at hand is kept.
    pub fn on_paused(&mut self, merged: Option<JsonValue>)
        ensures
            final(self)@ == (RoundRunView {
                state: Some(
                    match merged {
                        Some(m) => m@,
                        None => state_at_hand(old(self)@),
                    },
                ),
                ..old(self)@
            }),
    {
        match merged {
            Some(m) => {
                self.state = Some(m);
            },
            None => match &self.state {
                Some(_) => {},
                None => {
                    self.state = Some(self.initial_state.copy());
                },
            },
        }
    }

    /// The workflow was put into the state that came in, where one came, which is
    /// then `merged`.
    pub fn on_merged(&mut self, merged: Option<JsonValue>)
        ensures
            final(self)@ == (RoundRunView {
                state: match (old(self)@.state, merged) {
                    (Some(_), Some(m)) => Some(m@),
                    _ => old(self)@.state,
                },
                ..old(self)@
            }),
    {
        if self.state.is_some() && merged.is_some() {
            self.state = merged;
        }
    }

    /// What is written of a round that ended by itself.
    pub fn save(&mut self) -> (r: TurnRecord)
        ensures
            r@ == saved_record(old(self)@),
            final(self)@ == written(old(self)@),
    {
        let history = self.history.take();
        let state = self.state.take();
        persist_turn(history, state, self.skip_count, &self.elapsed)
    }

    /// What is written of a round that was cancelled.
    pub fn save_cancelled(&mut self) -> (r: TurnRecord)
        ensures
            r@ == cancelled_record(old(self)@),
            final(self)@ == written(old(self)@),
    {
        let history = match self.history.take() {
            Some(h) => Some(h),
            None => self.recorder.synthesize_history(),
        };
        let state = match self.state.take() {
            Some(s) => s,
            None => self.initial_state.copy(),
        };
        persist_turn(history, Some(state), self.skip_count, &self.elapsed)
    }
}

// ---------------------------------------------------------------------- events

/// What happens while the model answers, and what came of a change of the
/// workflow, with the report of it.
#[derive(Debug)]
pub enum RoundEvent {
    /// The model's run was cancelled.
    Cancelled,
    /// The user interrupted the model's run, for a reason.
    UserInterrupted(String),
    /// The history and user state of the round.
    History { messages: Vec<Message>, state: JsonValue },
    /// A new user state.
    StateUpdate(JsonValue),
    Text(String),
    Thinking(String),
    ToolCallStart { id: String, name: String },
    ToolCallArgumentsDelta { id: String, delta: String },
    ToolCall { id: String, name: String, args: JsonValue },
    ToolCallResult {
        id: String,
        name: String,
        args: JsonValue,
        result: String,
        success: bool,
        elapsed_ms: u64,
    },
    /// The user is asked a question.
    QuestionRequested,
    /// The user answered a question.
    QuestionResolved,
    /// The model's run is complete.
    Done,
    /// The model's run failed.
    Failed,
    /// The model's run ended without saying so.
    Ended,
    /// Any other event of the model's run.
    Other,
    /// A background task finished: whether it is of this thread and nobody was
    /// told of it before.
    TaskCompleted(bool),
    /// An event of a background task: whether it is of this thread.
    SideEvent(bool),
    /// The workflow was paused, or there was nothing to pause.
    Paused(Option<WorkflowReport>),
    /// The workflow was resumed, or there was nothing to resume.
    Resumed(Option<WorkflowReport>),
}

/// What an event is to the course of the turn.
pub open spec fn input_of(event: RoundEvent) -> TurnInput {
    match event {
        RoundEvent::Cancelled => TurnInput::Cancelled,
        RoundEvent::UserInterrupted(_) => TurnInput::UserInterrupted,
        RoundEvent::History { .. } => TurnInput::History,
        RoundEvent::StateUpdate(_) => TurnInput::StateUpdate,
        RoundEvent::Text(_)
        | RoundEvent::Thinking(_)
        | RoundEvent::ToolCallStart { .. }
        | RoundEvent::ToolCallArgumentsDelta { .. }
        | RoundEvent::ToolCall { .. } => TurnInput::Progress,
        RoundEvent::ToolCallResult { .. } => TurnInput::ToolResult,
        RoundEvent::QuestionRequested => TurnInput::QuestionRequested,
        RoundEvent::QuestionResolved => TurnInput::QuestionResolved,
        RoundEvent::Done => TurnInput::Done,
        RoundEvent::Failed => TurnInput::Failed,
        RoundEvent::Ended => TurnInput::Ended,
        RoundEvent::Other => TurnInput::Other,
        RoundEvent::TaskCompleted(new) => TurnInput::TaskCompleted(new),
        RoundEvent::SideEvent(mine) => TurnInput::SideEvent(mine),
        RoundEvent::Paused(report) => TurnInput::Paused(report is Some),
        RoundEvent::Resumed(report) => TurnInput::Resumed(report is Some),
    }
}

/// The record of the unfinished answer after an event.
pub open spec fn recorded(r: RecorderView, event: RoundEvent) -> RecorderView {
    match event {
        RoundEvent::Text(t) => RecorderView { text: r.text + t@, ..r },
        RoundEvent::Thinking(t) => RecorderView { reasoning: Some(t@), ..r },
        RoundEvent::ToolCallStart { id, name } => RecorderView {
            tools: started(r.tools, id@, name@),
            ..r
        },
        RoundEvent::ToolCallArgumentsDelta { id, delta } => RecorderView {
            tools: extended(r.tools, id@, delta@),
            ..r
        },
        RoundEvent::ToolCall { id, name, args } => RecorderView {
            tools: called(r.tools, id@, name@, args@),
            ..r
        },
        RoundEvent::ToolCallResult { id, name, args, result, success, elapsed_ms } => RecorderView {
            tools: finished(r.tools, id@, name@, args@, result@, success, elapsed_ms),
            ..r
        },
        _ => r,
    }
}

/// The state into which the workflow is to be put before an event is taken in.
pub open spec fn state_to_merge(c: TurnControl, run: RoundRunView, event: RoundEvent) -> Option<
    JsonView,
> {
    match c.phase {
        TurnPhase::Streaming => if !c.workflow_changed {
            None
        } else {
            match event {
                RoundEvent::History { state, .. } => Some(state@),
                RoundEvent::StateUpdate(state) => Some(state@),
                RoundEvent::Done => run.state,
                _ => None,
            }
        },
        TurnPhase::AwaitCancelPause | TurnPhase::AwaitInterruptPause => match event {
            RoundEvent::Paused(Some(_)) => Some(state_at_hand(run)),
            _ => None,
        },
        TurnPhase::AwaitInputPause => match event {
            RoundEvent::Paused(Some(_)) => run.state,
            _ => None,
        },
        TurnPhase::AwaitInputResume => match event {
            RoundEvent::Resumed(Some(_)) => run.state,
            _ => None,
        },
        _ => None,
    }
}

/// `state`, or what it came to where the workflow was put into it.
pub open spec fn settled(state: JsonView, to_merge: Option<JsonView>, merged: Option<JsonView>) ->
    JsonView {
    match (to_merge, merged) {
        (Some(_), Some(m)) => m,
        _ => state,
    }
}

/// The round once an event is taken in, and before anything is written.
pub open spec fn taken_in(
    c: TurnControl,
    run: RoundRunView,
    event: RoundEvent,
    merged: Option<JsonView>,
) -> RoundRunView {
    let to_merge = state_to_merge(c, run, event);
    match c.phase {
        TurnPhase::Streaming => match event {
            RoundEvent::History { messages, state } => RoundRunView {
                history: Some(message_views(messages@)),
                state: Some(settled(state@, to_merge, merged)),
                ..run
            },
            RoundEvent::StateUpdate(state) => RoundRunView {
                state: Some(settled(state@, to_merge, merged)),
                ..run
            },
            RoundEvent::Done => RoundRunView {
                state: match run.state {
                    Some(s) => Some(settled(s, to_merge, merged)),
                    None => None,
                },
                ..run
            },
            RoundEvent::ToolCallResult { id, elapsed_ms, .. } => RoundRunView {
                elapsed: with_value(run.elapsed, id@, elapsed_ms),
                recorder: recorded(run.recorder, event),
                ..run
            },
            _ => RoundRunView { recorder: recorded(run.recorder, event), ..run },
        },
        TurnPhase::AwaitCancelPause | TurnPhase::AwaitInterruptPause => if to_merge is Some {
            RoundRunView { state: Some(settled(state_at_hand(run), to_merge, merged)), ..run }
        } else {
            run
        },
        _ => match to_merge {
            Some(s) => RoundRunView { state: Some(settled(s, to_merge, merged)), ..run },
            None => run,
        },
    }
}

/// Whether a round is written, and how.
#[derive(Debug, Clone, Copy, PartialEq, Eq, Structural)]
pub enum Saving {
    Nothing,
    /// As far as it went, if it went to its end or failed.
    Whole,
    /// With what is known of an answer that was cut off.
    Cancelled,
}

/// How an event lets the round be written.
pub open spec fn saving(c: TurnControl, event: RoundEvent) -> Saving {
    match c.phase {
        TurnPhase::Streaming => match event {
            RoundEvent::Done | RoundEvent::Failed | RoundEvent::Ended => Saving::Whole,
            RoundEvent::Cancelled => if c.supervisor_run {
                Saving::Cancelled
            } else {
                Saving::Nothing
            },
            _ => Saving::Nothing,
        },
        TurnPhase::AwaitCancelPause => match event {
            RoundEvent::Paused(_) => Saving::Cancelled,
            _ => Saving::Nothing,
        },
        _ => Saving::Nothing,
    }
}

/// Why the workflow is to be paused.
pub open spec fn pause_reason(c: TurnControl, event: RoundEvent) -> Option<Seq<char>> {
    if c.phase == TurnPhase::Streaming && !c.supervisor_run {
        match event {
            RoundEvent::Cancelled => Some("interrupted by user"@),
            RoundEvent::UserInterrupted(reason) => Some(reason@),
            _ => None,
        }
    } else {
        None
    }
}

/// The report that is told of a change of the workflow.
pub open spec fn report_of(event: RoundEvent) -> Option<ReportView> {
    match event {
        RoundEvent::Paused(report) => option_report(report),
        RoundEvent::Resumed(report) => option_report(report),
        _ => None,
    }
}

/// The course after an event and what to do, with what the actions are about.
#[derive(Debug)]
pub struct RoundMove {
    pub control: TurnControl,
    pub actions: Vec<TurnAction>,
    /// What is to be written of the round.
    pub record: Option<TurnRecord>,
    /// The state that is to be written at once.
    pub state: Option<JsonValue>,
    /// Why the workflow is to be paused.
    pub reason: Option<String>,
    /// What is told of the change of the workflow.
    pub report: Option<WorkflowReport>,
    /// What the supervisor and the stop hook look at once the round is complete.
    pub answered: Option<Vec<Message>>,
}

pub struct RoundMade {
    pub control: TurnControl,
    pub actions: Seq<TurnAction>,
    pub record: Option<RecordView>,
    pub state: Option<JsonView>,
    pub reason: Option<Seq<char>>,
    pub report: Option<ReportView>,
    pub answered: Option<Seq<MessageView>>,
}

pub open spec fn option_record(record: Option<TurnRecord>) -> Option<RecordView> {
    match record {
        Some(r) => Some(r@),
        None => None,
    }
}

impl View for RoundMove {
    type V = RoundMade;

    open spec fn view(&self) -> RoundMade {
        RoundMade {
            control: self.control,
            actions: self.actions@,
            record: option_record(self.record),
            state: option_value(self.state),
            reason: option_text(self.reason),
            report: option_report(self.report),
            answered: history_view(self.answered),
        }
    }
}

/// What an event leads to: the course of the turn, what is then at hand, and
/// what is to be written and told.
pub open spec fn round_step(
    c: TurnControl,
    run: RoundRunView,
    event: RoundEvent,
    merged: Option<JsonView>,
) -> (RoundRunView, RoundMade) {
    let next = turn_step(c, input_of(event));
    let now = taken_in(c, run, event, merged);
    (
        if saving(c, event) == Saving::Nothing {
            now
        } else {
            written(now)
        },
        RoundMade {
            control: next.control,
            actions: next.actions,
            record: match saving(c, event) {
                Saving::Nothing => None,
                Saving::Whole => Some(saved_record(now)),
                Saving::Cancelled => Some(cancelled_record(now)),
            },
            state: if c.phase == TurnPhase::Streaming && event is StateUpdate {
                now.state
            } else {
                None
            },
            reason: pause_reason(c, event),
            report: report_of(event),
            answered: if c.phase == TurnPhase::Streaming && event is Done {
                match now.history {
                    Some(h) => Some(h),
                    None => Some(Seq::empty()),
                }
            } else {
                None
            },
        },
    )
}

impl RoundEvent {
    /// What the event is to the course of the turn.
    pub fn input(&self) -> (r: TurnInput)
        ensures
            r == input_of(*self),
    {
        match self {
            RoundEvent::Cancelled => TurnInput::Cancelled,
            RoundEvent::UserInterrupted(_) => TurnInput::UserInterrupted,
            RoundEvent::History { .. } => TurnInput::History,
            RoundEvent::StateUpdate(_) => TurnInput::StateUpdate,
            RoundEvent::Text(_)
            | RoundEvent::Thinking(_)
            | RoundEvent::ToolCallStart { .. }
            | RoundEvent::ToolCallArgumentsDelta { .. }
            | RoundEvent::ToolCall { .. } => TurnInput::Progress,
            RoundEvent::ToolCallResult { .. } => TurnInput::ToolResult,
            RoundEvent::QuestionRequested => TurnInput::QuestionRequested,
            RoundEvent::QuestionResolved => TurnInput::QuestionResolved,
            RoundEvent::Done => TurnInput::Done,
            RoundEvent::Failed => TurnInput::Failed,
            RoundEvent::Ended => TurnInput::Ended,
            RoundEvent::Other => TurnInput::Other,
            RoundEvent::TaskCompleted(new) => TurnInput::TaskCompleted(*new),
            RoundEvent::SideEvent(mine) => TurnInput::SideEvent(*mine),
            RoundEvent::Paused(report) => TurnInput::Paused(report.is_some()),
            RoundEvent::Resumed(report) => TurnInput::Resumed(report.is_some()),
        }
    }

    fn saving(&self, c: &TurnControl) -> (r: Saving)
        ensures
            r == saving(*c, *self),
    {
        match c.phase {
            TurnPhase::Streaming => match self {
                RoundEvent::Done | RoundEvent::Failed | RoundEvent::Ended => Saving::Whole,
                RoundEvent::Cancelled => if c.supervisor_run {
                    Saving::Cancelled
                } else {
                    Saving::Nothing
                },
                _ => Saving::Nothing,
            },
            TurnPhase::AwaitCancelPause => match self {
                RoundEvent::Paused(_) => Saving::Cancelled,
                _ => Saving::Nothing,
            },
            _ => Saving::Nothing,
        }
    }

    fn pause_reason(&self, c: &TurnControl) -> (r: Option<String>)
        ensures
            option_text(r) == pause_reason(*c, *self),
    {
        if c.phase == TurnPhase::Streaming && !c.supervisor_run {
            match self {
                RoundEvent::Cancelled => Some("interrupted by user".to_owned()),
                RoundEvent::UserInterrupted(reason) => Some(reason.clone()),
                _ => None,
            }
        } else {
            None
        }
    }
}

fn copy_state(state: &Option<JsonValue>) -> (r: Option<JsonValue>)
    ensures
        option_value(r) == option_value(*state),
{
    match state {
        Some(s) => Some(s.copy()),
        None => None,
    }
}

impl RoundRun {
    fn at_hand(&self) -> (r: JsonValue)
        ensures
            r@ == state_at_hand(self@),
    {
        match &self.state {
            Some(s) => s.copy(),
            None => self.initial_state.copy(),
        }
    }

    /// The state into which the workflow is to be put before the event is taken
    /// in.
    pub fn to_merge(&self, control: &TurnControl, event: &RoundEvent) -> (r: Option<JsonValue>)
        ensures
            option_value(r) == state_to_merge(*control, self@, *event),
    {
        match control.phase {
            TurnPhase::Streaming => if !control.workflow_changed {
                None
            } else {
                match event {
                    RoundEvent::History { state, .. } => Some(state.copy()),
                    RoundEvent::StateUpdate(state) => Some(state.copy()),
                    RoundEvent::Done => copy_state(&self.state),
                    _ => None,
                }
            },
            TurnPhase::AwaitCancelPause | TurnPhase::AwaitInterruptPause => match event {
                RoundEvent::Paused(Some(_)) => Some(self.at_hand()),
                _ => None,
            },
            TurnPhase::AwaitInputPause => match event {
                RoundEvent::Paused(Some(_)) => copy_state(&self.state),
                _ => None,
            },
            TurnPhase::AwaitInputResume => match event {
                RoundEvent::Resumed(Some(_)) => copy_state(&self.state),
                _ => None,
            },
            _ => None,
        }
    }

    fn stream(&mut self, control: &TurnControl, event: RoundEvent, merged: Option<JsonValue>)
        requires
            control.phase == TurnPhase::Streaming,
        ensures
            final(self)@ == taken_in(*control, old(self)@, event, option_value(merged)),
    {
        match event {
            RoundEvent::History { messages, state } => {
                let kept = match merged {
                    Some(m) => if control.workflow_changed {
                        m
                    } else {
                        state
                    },
                    None => state,
                };
                self.on_history(messages, kept);
            },
            RoundEvent::StateUpdate(state) => {
                let kept = match merged {
                    Some(m) => if control.workflow_changed {
                        m
                    } else {
                        state
                    },
                    None => state,
                };
                self.on_state_update(kept);
            },
            RoundEvent::Done => if control.workflow_changed {
                self.on_merged(merged);
            },
            RoundEvent::Text(t) => self.recorder.on_text(&t),
            RoundEvent::Thinking(t) => self.recorder.on_thinking(t),
            RoundEvent::ToolCallStart { id, name } => self.recorder.on_tool_start(id, name),
            RoundEvent::ToolCallArgumentsDelta { id, delta } => {
                self.recorder.on_tool_arguments_delta(&id, &delta)
            },
            RoundEvent::ToolCall { id, name, args } => self.recorder.on_tool_call(id, name, args),
            RoundEvent::ToolCallResult { id, name, args, result, success, elapsed_ms } => {
                self.on_tool_result(id, name, args, result, success, elapsed_ms)
            },
            _ => {},
        }
    }

    fn take_in(&mut self, control: &TurnControl, event: RoundEvent, merged: Option<JsonValue>) -> (r:
        Option<WorkflowReport>)
        ensures
            final(self)@ == taken_in(*control, old(self)@, event, option_value(merged)),
            option_report(r) == report_of(event),
    {
        match event {
            RoundEvent::Paused(report) => {
                if report.is_some() {
                    match control.phase {
                        TurnPhase::AwaitCancelPause | TurnPhase::AwaitInterruptPause => {
                            self.on_paused(merged)
                        },
                        TurnPhase::AwaitInputPause => self.on_merged(merged),
                        _ => {},
                    }
                }
                report
            },
            RoundEvent::Resumed(report) => {
                if report.is_some() && control.phase == TurnPhase::AwaitInputResume {
                    self.on_merged(merged);
                }
                report
            },
            other => {
                if control.phase == TurnPhase::Streaming {
                    self.stream(control, other, merged);
                }
                None
            },
        }
    }

    /// Takes an event in: `merged` is what the state to merge came to once the
    /// workflow was put into it.
    pub fn step(&mut self, control: TurnControl, event: RoundEvent, merged: Option<JsonValue>) -> (r:
        RoundMove)
        ensures
            (final(self)@, r@) == round_step(control, old(self)@, event, option_value(merged)),
    {
        let made = control.step(event.input());
        let saving = event.saving(&control);
        let reason = event.pause_reason(&control);
        let streaming = control.phase == TurnPhase::Streaming;
        let updates = streaming && matches!(event, RoundEvent::StateUpdate(_));
        let completes = streaming && matches!(event, RoundEvent::Done);
        let report = self.take_in(&control, event, merged);
        let state = if updates {
            copy_state(&self.state)
        } else {
            None
        };
        let answered = if completes {
            match &self.history {
                Some(h) => Some(copy_messages(h)),
                None => {
                    assert(message_views(Seq::<Message>::empty()) =~= Seq::<MessageView>::empty());
                    Some(Vec::new())
                },
            }
        } else {
            None
        };
        let record = match saving {
            Saving::Nothing => None,
            Saving::Whole => Some(self.save()),
            Saving::Cancelled => Some(self.save_cancelled()),
        };
        RoundMove {
            control: made.control,
            actions: made.actions,
            record,
            state,
            reason,
            report,
            answered,
        }
    }
}

// -------------------------------------------------------------------- workflow

/// Pauses the workflow of a turn that was cancelled.
pub fn pause_for_cancellation(instance: &mut Option<WorkflowInstance>, control: &TurnControl) -> (r:
    Option<WorkflowReport>)
    ensures
        pauses(
            option_instance(*old(instance)),
            option_instance(*final(instance)),
            option_report(r),
            control.supervisor_round,
            "interrupted by user"@,
        ),
{
    interrupt_thread(instance, control.supervisor_round, "interrupted by user")
}

/// Pauses the workflow of a turn that the user interrupted.
pub fn pause_for_interruption(
    instance: &mut Option<WorkflowInstance>,
    control: &TurnControl,
    reason: &str,
) -> (r: Option<WorkflowReport>)
    ensures
        pauses(
            option_instance(*old(instance)),
            option_instance(*final(instance)),
            option_report(r),
            control.supervisor_round,
            reason@,
        ),
{
    interrupt_thread(instance, control.supervisor_round, reason)
}

// -------------------------------------------------------------- the next round

/// What the next round is about: steering input, a task that finished in the
/// background, what the supervisor tells the agent, or what the stop hook says.
#[derive(Debug)]
pub enum NextSource {
    Steer(Content),
    TaskCompletion(ToolTaskRecord),
    Supervisor(String),
    StopHook(HookReply),
}

/// What the next round says.
pub open spec fn next_said(source: NextSource) -> ContentView {
    match source {
        NextSource::Steer(content) => content@,
        NextSource::TaskCompletion(task) => ContentView::Text(
            completion_text(task, args_preview(task.args@)),
        ),
        NextSource::Supervisor(message) => ContentView::Text(message@),
        NextSource::StopHook(reply) => ContentView::Text(
            reason_or(reply, "Continue the response according to the Stop hook."@),
        ),
    }
}

pub open spec fn next_kind(source: NextSource) -> NextContent {
    match source {
        NextSource::Steer(_) => NextContent::Steer,
        NextSource::TaskCompletion(_) => NextContent::TaskCompletion,
        NextSource::Supervisor(_) => NextContent::Supervisor,
        NextSource::StopHook(_) => NextContent::StopHook,
    }
}

impl NextSource {
    /// What the next round is to the course of the turn.
    pub fn kind(&self) -> (r: NextContent)
        ensures
            r == next_kind(*self),
    {
        match self {
            NextSource::Steer(_) => NextContent::Steer,
            NextSource::TaskCompletion(_) => NextContent::TaskCompletion,
            NextSource::Supervisor(_) => NextContent::Supervisor,
            NextSource::StopHook(_) => NextContent::StopHook,
        }
    }

    /// What the next round says.
    pub fn content(self) -> (r: Content)
        ensures
            r@ == next_said(self),
    {
        match self {
            NextSource::Steer(content) => content,
            NextSource::TaskCompletion(task) => background_task_completion_content(&task),
            NextSource::Supervisor(message) => Content::Text(message),
            NextSource::StopHook(reply) => match reply.reason {
                Some(reason) => Content::Text(reason),
                None => Content::text("Continue the response according to the Stop hook."),
            },
        }
    }
}

// ------------------------------------------------------------------------ laws

/// The phases in which the model's run goes on.
pub open spec fn runs(phase: TurnPhase) -> bool {
    match phase {
        TurnPhase::Streaming
        | TurnPhase::AwaitCancelPause
        | TurnPhase::AwaitInterruptPause
        | TurnPhase::AwaitInputPause
        | TurnPhase::AwaitInputResume => true,
        _ => false,
    }
}

/// The course of the turn and what is at hand agree on whether a state came in.
pub open spec fn agree(c: TurnControl, run: RoundRunView) -> bool {
    runs(c.phase) ==> c.has_state == (run.state is Some)
}

/// Whether nothing is written.
spec fn saves_nothing(actions: Seq<TurnAction>) -> bool {
    forall|i: int|
        0 <= i < actions.len() ==> (#[trigger] actions[i]) != TurnAction::Save && actions[i]
            != TurnAction::SaveCancelled
}

proof fn lemma_nothing_after_saving(c: TurnControl)
    ensures
        saves_nothing(after_save(c).actions),
{
    reveal(after_save);
    reveal(supervise);
    reveal(stop_hook);
    reveal(finish);
}

proof fn lemma_completed_course(c: TurnControl)
    ensures
        does(complete_round(c).actions, TurnAction::Save),
        !does(complete_round(c).actions, TurnAction::SaveCancelled),
{
    reveal(complete_round);
    let saved = TurnControl { has_state: false, saved: true, ..c };
    lemma_nothing_after_saving(saved);
    let a = complete_round(c).actions;
    let n: int = if c.workflow_changed {
        if c.has_state {
            2
        } else {
            1
        }
    } else {
        0
    };
    assert(a[n] == TurnAction::Save);
    assert forall|i: int| 0 <= i < a.len() implies (#[trigger] a[i])
        != TurnAction::SaveCancelled by {
        if i > n && c.supervisor_run {
            assert(a[i] == after_save(saved).actions[i - n - 1]);
        }
    }
}

proof fn lemma_answer_course(c: TurnControl, input: TurnInput)
    ensures
        saves_nothing(answer_step(c, input).actions),
{
    reveal(answer_step);
}

proof fn lemma_streaming_course(c: TurnControl, event: RoundEvent)
    requires
        c.phase == TurnPhase::Streaming,
    ensures
        does(streaming_step(c, input_of(event)).actions, TurnAction::Save) == (saving(c, event)
            == Saving::Whole),
        does(streaming_step(c, input_of(event)).actions, TurnAction::SaveCancelled) == (saving(
            c,
            event,
        ) == Saving::Cancelled),
{
    reveal(streaming_step);
    let a = streaming_step(c, input_of(event)).actions;
    lemma_answer_course(c, input_of(event));
    match event {
        RoundEvent::Done => {
            lemma_completed_course(c);
        },
        RoundEvent::Failed | RoundEvent::Ended => {
            assert(a[0] == TurnAction::Save);
        },
        RoundEvent::Cancelled => {
            reveal(save_cancelled);
            if c.supervisor_run {
                assert(a[1] == TurnAction::SaveCancelled);
            }
        },
        _ => {},
    }
}

proof fn lemma_workflow_course(c: TurnControl, event: RoundEvent)
    requires
        runs(c.phase),
        c.phase != TurnPhase::Streaming,
    ensures
        !does(workflow_step(c, input_of(event)).actions, TurnAction::Save),
        does(workflow_step(c, input_of(event)).actions, TurnAction::SaveCancelled) == (saving(
            c,
            event,
        ) == Saving::Cancelled),
{
    reveal(workflow_step);
    reveal(question_step);
    reveal(save_cancelled);
    let a = workflow_step(c, input_of(event)).actions;
    if saving(c, event) == Saving::Cancelled {
        if report_of(event) is Some {
            assert(a[3] == TurnAction::SaveCancelled);
        } else {
            assert(a[0] == TurnAction::SaveCancelled);
        }
    }
}

proof fn lemma_course(c: TurnControl, event: RoundEvent)
    requires
        runs(c.phase),
    ensures
        does(turn_step(c, input_of(event)).actions, TurnAction::Save) == (saving(c, event)
            == Saving::Whole),
        does(turn_step(c, input_of(event)).actions, TurnAction::SaveCancelled) == (saving(c, event)
            == Saving::Cancelled),
{
    if c.phase == TurnPhase::Streaming {
        lemma_streaming_course(c, event);
    } else {
        lemma_workflow_course(c, event);
    }
}

/// Something is written of a round exactly where its course says so, and an
/// answer that was cut off only where the course says that too.
pub proof fn what_is_saved_is_what_the_course_asks_for(
    c: TurnControl,
    run: RoundRunView,
    event: RoundEvent,
    merged: Option<JsonView>,
)
    requires
        runs(c.phase),
    ensures
        ({
            let now = taken_in(c, run, event, merged);
            let made = round_step(c, run, event, merged).1;
            &&& does(made.actions, TurnAction::Save) ==> made.record == Some(saved_record(now))
            &&& does(made.actions, TurnAction::SaveCancelled) ==> made.record == Some(
                cancelled_record(now),
            )
            &&& made.record is Some ==> does(made.actions, TurnAction::Save) || does(
                made.actions,
                TurnAction::SaveCancelled,
            )
        }),
{
    lemma_course(c, event);
}

/// The course of a turn and what is at hand agree on whether a state came in:
/// they do when the run starts, and every event leaves it so.
pub proof fn events_keep_the_agreement(
    c: TurnControl,
    run: RoundRunView,
    event: RoundEvent,
    merged: Option<JsonView>,
)
    requires
        agree(c, run),
    ensures
        runs(c.phase) ==> agree(
            round_step(c, run, event, merged).1.control,
            round_step(c, run, event, merged).0,
        ),
        c.phase == TurnPhase::Preparing && run.state is None ==> agree(
            turn_step(c, TurnInput::Prepared(true)).control,
            run,
        ) && agree(turn_step(c, TurnInput::Prepared(false)).control, run),
{
    if c.phase == TurnPhase::Preparing {
        reveal(start_step);
    } else if c.phase == TurnPhase::Streaming {
        lemma_streaming_flag(c, event);
    } else if runs(c.phase) {
        lemma_workflow_flag(c, event);
    }
}

proof fn lemma_answer_flag(c: TurnControl, input: TurnInput)
    ensures
        answer_step(c, input).control.phase == TurnPhase::Streaming,
        answer_step(c, input).control.has_state == (c.has_state || input == TurnInput::History
            || input == TurnInput::StateUpdate),
{
    reveal(answer_step);
}

proof fn lemma_streaming_flag(c: TurnControl, event: RoundEvent)
    requires
        c.phase == TurnPhase::Streaming,
    ensures
        ({
            let next = streaming_step(c, input_of(event)).control;
            if saving(c, event) == Saving::Nothing {
                next.has_state == (c.has_state || event is History || event is StateUpdate)
            } else {
                !runs(next.phase)
            }
        }),
{
    reveal(streaming_step);
    lemma_completed_phase(c);
    lemma_answer_flag(c, input_of(event));
    if event is Cancelled {
        reveal(save_cancelled);
    }
}

proof fn lemma_workflow_flag(c: TurnControl, event: RoundEvent)
    requires
        runs(c.phase),
        c.phase != TurnPhase::Streaming,
    ensures
        ({
            let next = workflow_step(c, input_of(event)).control;
            if saving(c, event) == Saving::Nothing {
                next.has_state == (c.has_state || (c.phase == TurnPhase::AwaitInterruptPause
                    && event is Paused && report_of(event) is Some))
            } else {
                !runs(next.phase)
            }
        }),
{
    reveal(workflow_step);
    reveal(question_step);
    reveal(save_cancelled);
}

proof fn lemma_completed_phase(c: TurnControl)
    ensures
        !runs(complete_round(c).control.phase),
{
    reveal(complete_round);
    reveal(after_save);
    reveal(supervise);
    reveal(stop_hook);
    reveal(finish);
}

/// Whether the course asks for the workflow to be put into a state.
pub open spec fn merges(actions: Seq<TurnAction>) -> bool {
    does(actions, TurnAction::MergeWorkflow) || does(actions, TurnAction::MergeIncoming)
}

/// The workflow is put into a state exactly where the course asks for it.
pub proof fn what_is_merged_is_what_the_course_asks_for(
    c: TurnControl,
    run: RoundRunView,
    event: RoundEvent,
)
    requires
        runs(c.phase),
        agree(c, run),
    ensures
        merges(turn_step(c, input_of(event)).actions) == (state_to_merge(c, run, event) is Some),
{
    let a = turn_step(c, input_of(event)).actions;
    if c.phase == TurnPhase::Streaming {
        reveal(streaming_step);
        if event is Done {
            lemma_completed_merges(c);
        } else {
            reveal(answer_step);
            reveal(save_cancelled);
            if c.workflow_changed && (event is History || event is StateUpdate) {
                assert(a[1] == TurnAction::MergeIncoming);
            }
        }
    } else {
        reveal(workflow_step);
        reveal(question_step);
        reveal(save_cancelled);
        if state_to_merge(c, run, event) is Some {
            if c.phase == TurnPhase::AwaitCancelPause || c.phase
                == TurnPhase::AwaitInterruptPause {
                assert(a[1] == TurnAction::MergeWorkflow);
            } else {
                assert(a[0] == TurnAction::MergeWorkflow);
            }
        }
    }
}

proof fn lemma_nothing_merged_after_saving(c: TurnControl)
    ensures
        !merges(after_save(c).actions),
{
    reveal(after_save);
    reveal(supervise);
    reveal(stop_hook);
    reveal(finish);
}

proof fn lemma_completed_merges(c: TurnControl)
    ensures
        merges(complete_round(c).actions) == (c.workflow_changed && c.has_state),
{
    reveal(complete_round);
    let saved = TurnControl { has_state: false, saved: true, ..c };
    lemma_nothing_merged_after_saving(saved);
    let a = complete_round(c).actions;
    let n: int = if c.workflow_changed {
        if c.has_state {
            2
        } else {
            1
        }
    } else {
        0
    };
    if n == 2 {
        assert(a[1] == TurnAction::MergeWorkflow);
    } else {
        assert forall|i: int| 0 <= i < a.len() implies (#[trigger] a[i])
            != TurnAction::MergeWorkflow && a[i] != TurnAction::MergeIncoming by {
            if i > n && c.supervisor_run {
                let later = after_save(saved).actions;
                assert(a[i] == later[i - n - 1]);
            }
        }
    }
}

/// Whether a round is the run of a draft: it began with the draft's state, and
/// with what the draft says behind its history.
pub open spec fn run_of(run: RoundRunView, draft: RoundDraft) -> bool {
    &&& run.initial_state == draft.user_state@
    &&& run.recorder.base == message_views(draft.history@).push(draft.said())
    &&& run.skip_count == draft.history@.len()
}

/// Whatever happens, a round stays the run of what it was drafted as.
pub proof fn events_keep_the_draft(
    draft: RoundDraft,
    c: TurnControl,
    run: RoundRunView,
    event: RoundEvent,
    merged: Option<JsonView>,
)
    requires
        run_of(run, draft),
    ensures
        run_of(round_step(c, run, event, merged).0, draft),
{
}

/// What the assistant says is recorded while the model answers, and nothing that
/// happens later takes it back.
pub proof fn what_was_said_stays_recorded(
    c: TurnControl,
    run: RoundRunView,
    event: RoundEvent,
    merged: Option<JsonView>,
)
    ensures
        ({
            let after = round_step(c, run, event, merged).0;
            &&& run.recorder.text.is_prefix_of(after.recorder.text)
            &&& c.phase == TurnPhase::Streaming && event is Text ==> after.recorder.text
                == run.recorder.text + event->Text_0@
        }),
{
    let after = round_step(c, run, event, merged).0;
    assert(run.recorder.text =~= after.recorder.text.subrange(
        0,
        run.recorder.text.len() as int,
    ));
}

/// What is written of a round that was cut off before its history came: what the
/// user said, and what the assistant had said of its answer.
proof fn lemma_cut_off(draft: RoundDraft, run: RoundRunView)
    requires
        run_of(run, draft),
        run.history is None,
    ensures
        keeps_what_was_said(cancelled_record(run), draft, run.recorder),
{
    let before = message_views(draft.history@);
    let all = cancelled_history(run.recorder)->0;
    let fresh = fresh_messages(all, run.skip_count as int);
    assert(all[before.len() as int] == draft.said());
    assert(fresh[0] == all[before.len() as int]);
    records_keep_what_was_said(fresh, run.elapsed);
    assert(all_timed(fresh, run.elapsed)[0] == timed(fresh[0], run.elapsed));
    if run.recorder.text.len() > 0 {
        cancelling_keeps_the_text(run.recorder);
        assert(fresh.len() == 2);
        assert(fresh[1] == all[before.len() as int + 1]);
        assert(all_timed(fresh, run.elapsed)[1] == timed(fresh[1], run.elapsed));
    }
}

/// Whether what is written holds what the user said, and behind it what the
/// assistant had said, where it had said something.
pub open spec fn keeps_what_was_said(
    record: RecordView,
    draft: RoundDraft,
    recorder: RecorderView,
) -> bool {
    &&& record.messages is Some
    &&& record.messages->0.len() >= 1
    &&& record.messages->0[0] == draft.said()
    &&& recorder.text.len() > 0 ==> {
        &&& record.messages->0.len() == 2
        &&& record.messages->0[1].role == Role::Assistant
        &&& record.messages->0[1].content is Text
        &&& recorder.text.is_prefix_of(record.messages->0[1].content->Text_0)
    }
}

/// A turn that is cancelled while the model answers keeps what the user said and
/// the answer as far as it went. Its workflow is to be paused in the round at
/// hand, with the reason that the user interrupted; the report of the pause is
/// told. All is written before the end is told, which comes last; and nobody asks
/// the supervisor.
pub proof fn a_cancelled_turn_keeps_what_was_said(
    draft: RoundDraft,
    c: TurnControl,
    run: RoundRunView,
    report: Option<WorkflowReport>,
    merged: Option<JsonView>,
)
    requires
        run_of(run, draft),
        run.history is None,
        c.phase == TurnPhase::Streaming,
        !c.supervisor_run,
    ensures
        ({
            let (waiting, first) = round_step(c, run, RoundEvent::Cancelled, None);
            let (left, last) = round_step(
                first.control,
                waiting,
                RoundEvent::Paused(report),
                merged,
            );
            let n = last.actions.len() as int;
            &&& first.actions == seq![
                TurnAction::CancelBackgroundTasks,
                TurnAction::PauseCancelled(c.supervisor_round),
            ]
            &&& first.reason == Some("interrupted by user"@)
            &&& first.record is None
            &&& last.record is Some
            &&& keeps_what_was_said(last.record->0, draft, run.recorder)
            &&& last.record->0.user_state == Some(
                match (report, merged) {
                    (Some(_), Some(m)) => m,
                    _ => state_at_hand(run),
                },
            )
            &&& last.report == option_report(report)
            &&& report is Some ==> does(last.actions, say(TurnYield::Report))
            &&& n >= 2
            &&& last.actions[n - 2] == TurnAction::SaveCancelled
            &&& last.actions[n - 1] == say(TurnYield::Done)
            &&& last.control.phase == TurnPhase::Finished
            &&& forall|i: int|
                0 <= i < n ==> workflow_round(#[trigger] last.actions[i]) is None
        }),
{
    lemma_cancel_steps(c, report is Some);
    let (waiting, first) = round_step(c, run, RoundEvent::Cancelled, None);
    let (left, last) = round_step(first.control, waiting, RoundEvent::Paused(report), merged);
    let now = taken_in(first.control, waiting, RoundEvent::Paused(report), merged);
    assert(waiting == run);
    lemma_cut_off(draft, now);
    if report is Some {
        assert(last.actions[2] == say(TurnYield::Report));
    }
}

proof fn lemma_cancel_steps(c: TurnControl, paused: bool)
    requires
        c.phase == TurnPhase::Streaming,
        !c.supervisor_run,
    ensures
        ({
            let first = turn_step(c, TurnInput::Cancelled);
            let last = turn_step(first.control, TurnInput::Paused(paused));
            &&& first.control == TurnControl { phase: TurnPhase::AwaitCancelPause, ..c }
            &&& first.actions == seq![
                TurnAction::CancelBackgroundTasks,
                TurnAction::PauseCancelled(c.supervisor_round),
            ]
            &&& last.control.phase == TurnPhase::Finished
            &&& last.actions == if paused {
                seq![
                    TurnAction::EnsureState,
                    TurnAction::MergeWorkflow,
                    say(TurnYield::Report),
                    TurnAction::SaveCancelled,
                    say(TurnYield::Done),
                ]
            } else {
                seq![TurnAction::SaveCancelled, say(TurnYield::Done)]
            }
        }),
{
    reveal(streaming_step);
    reveal(workflow_step);
    reveal(save_cancelled);
    let first = turn_step(c, TurnInput::Cancelled);
    let last = turn_step(first.control, TurnInput::Paused(paused));
    if paused {
        assert(last.actions =~= seq![
            TurnAction::EnsureState,
            TurnAction::MergeWorkflow,
            say(TurnYield::Report),
            TurnAction::SaveCancelled,
            say(TurnYield::Done),
        ]);
    }
}

/// An internal run of the supervisor that is cancelled keeps what was said in
/// the same way, at once and without touching a workflow.
pub proof fn a_cancelled_internal_run_keeps_what_was_said(
    draft: RoundDraft,
    c: TurnControl,
    run: RoundRunView,
)
    requires
        run_of(run, draft),
        run.history is None,
        c.phase == TurnPhase::Streaming,
        c.supervisor_run,
    ensures
        ({
            let made = round_step(c, run, RoundEvent::Cancelled, None).1;
            &&& made.record is Some
            &&& keeps_what_was_said(made.record->0, draft, run.recorder)
            &&& made.record->0.user_state == Some(state_at_hand(run))
            &&& made.reason is None
            &&& made.actions == seq![
                TurnAction::CancelBackgroundTasks,
                TurnAction::SaveCancelled,
                say(TurnYield::Done),
            ]
            &&& made.control.phase == TurnPhase::Finished
        }),
{
    reveal(streaming_step);
    reveal(save_cancelled);
    lemma_cut_off(draft, run);
}

/// A workflow that was active when its turn was cancelled is paused as one that
/// was interrupted, so that the user's next message lets it go on; the report says
/// so, for the round at hand.
pub proof fn a_cancelled_turn_pauses_its_workflow(
    c: TurnControl,
    before: InstanceView,
    after: Option<InstanceView>,
    report: Option<ReportView>,
)
    requires
        before.status == WorkflowStatus::Active,
        pauses(Some(before), after, report, c.supervisor_round, "interrupted by user"@),
    ensures
        after is Some,
        after->0.status == WorkflowStatus::Paused,
        after->0.pause_reason == Some(WorkflowPauseReason::Interrupted),
        waits_after_interruption(after->0),
        report is Some,
        report->0.reason == "interrupted by user"@,
        report->0.round == c.supervisor_round,
        report->0.status == WorkflowStatus::Paused,
{
}

/// A round that fails, or ends without saying so, writes no unfinished answer:
/// where no history came, no message is written, and the state only where one
/// came.
pub proof fn failing_writes_no_unfinished_answer(
    c: TurnControl,
    run: RoundRunView,
    merged: Option<JsonView>,
)
    requires
        run.history is None,
        c.phase == TurnPhase::Streaming,
    ensures
        round_step(c, run, RoundEvent::Failed, merged).1.record == Some(
            RecordView { messages: None, user_state: run.state },
        ),
        round_step(c, run, RoundEvent::Ended, merged).1.record == Some(
            RecordView { messages: None, user_state: run.state },
        ),
{
}

/// A round that is complete is written with all that is new in it and with the state
/// as it is then, and all of it is looked at by the supervisor and the stop hook.
pub proof fn a_complete_round_is_written(
    c: TurnControl,
    run: RoundRunView,
    before: Seq<MessageView>,
    new: Seq<MessageView>,
    merged: Option<JsonView>,
)
    requires
        c.phase == TurnPhase::Streaming,
        run.history == Some(before + new),
        run.skip_count == before.len(),
    ensures
        ({
            let (after, made) = round_step(c, run, RoundEvent::Done, merged);
            &&& made.record is Some
            &&& made.answered == Some(before + new)
            &&& new.len() > 0 ==> made.record->0.messages is Some
                && made.record->0.messages->0.len() == new.len()
            &&& new.len() == 0 ==> made.record->0.messages is None
            &&& forall|i: int|
                0 <= i < new.len() ==> (#[trigger] made.record->0.messages->0[i]).content
                    == new[i].content
            &&& !c.workflow_changed || merged is None ==> made.record->0.user_state == run.state
            &&& c.workflow_changed && merged is Some && run.state is Some
                ==> made.record->0.user_state == merged
            &&& after.history is None && after.state is None
        }),
{
    let now = taken_in(c, run, RoundEvent::Done, merged);
    records_hold_what_is_new(before, new, now.state, now.elapsed);
}

/// What the model's run tells of its history and of the state is kept, the last of
/// each; a new state is written at once.
pub proof fn what_is_told_last_is_kept(c: TurnControl, run: RoundRunView, event: RoundEvent)
    requires
        c.phase == TurnPhase::Streaming,
    ensures
        ({
            let (after, made) = round_step(c, run, event, None);
            &&& event matches RoundEvent::History { messages, state } ==> after.history == Some(
                message_views(messages@),
            ) && after.state == Some(state@)
            &&& event matches RoundEvent::StateUpdate(state) ==> after.state == Some(state@)
                && made.state == Some(state@) && after.history == run.history
            &&& event matches RoundEvent::Thinking(t) ==> after.recorder.reasoning == Some(t@)
            &&& event matches RoundEvent::UserInterrupted(reason) ==> !c.supervisor_run
                ==> made.reason == Some(reason@)
            &&& !(event is History) && !(event is Done) && !(event is Failed) && !(event is Ended)
                && !(event is Cancelled) ==> after.history == run.history
        }),
{
}

/// A call that is over is recorded with its result, and how long it took is noted.
pub proof fn finished_calls_are_recorded(
    c: TurnControl,
    run: RoundRunView,
    event: RoundEvent,
    merged: Option<JsonView>,
)
    requires
        c.phase == TurnPhase::Streaming,
        event is ToolCallResult,
    ensures
        ({
            let after = round_step(c, run, event, merged).0;
            let k = position(after.recorder.tools, event->ToolCallResult_id@);
            &&& value_of(after.elapsed, event->ToolCallResult_id@) == Some(event->elapsed_ms)
            &&& k is Some
            &&& after.recorder.tools[k->0].result == Some(event->result@)
            &&& after.recorder.tools[k->0].name == event->ToolCallResult_name@
            &&& after.recorder.tools[k->0].success == Some(event->success)
            &&& after.recorder.text == run.recorder.text
        }),
{
    match event {
        RoundEvent::ToolCallResult { id, name, args, result, success, elapsed_ms } => {
            lemma_set_value_is_there(run.elapsed, id@, elapsed_ms);
            a_finished_call_is_recorded(
                run.recorder.tools,
                id@,
                name@,
                args@,
                result@,
                success,
                elapsed_ms,
            );
        },
        _ => {},
    }
}

/// The next round says what it was asked for: what the user said meanwhile, what came
/// of a task, what the supervisor said, or why the stop hook wants more.
pub proof fn the_next_round_says_what_it_was_asked_for(source: NextSource)
    ensures
        source matches NextSource::Steer(content) ==> next_said(source) == content@ && next_kind(
            source,
        ) is Steer,
        source matches NextSource::TaskCompletion(task) ==> next_said(source) is Text && occurs(
            next_said(source)->Text_0,
            task.task_id@,
        ) && next_kind(source) is TaskCompletion,
        source matches NextSource::Supervisor(message) ==> next_said(source) == ContentView::Text(
            message@,
        ) && next_kind(source) is Supervisor,
        source matches NextSource::StopHook(reply) ==> next_kind(source) is StopHook && (
        reply.reason is Some ==> next_said(source) == ContentView::Text(reply.reason->0@)),
{
    if source is TaskCompletion {
        let task = source->TaskCompletion_0;
        an_agent_is_told_what_came_of_a_task(task, args_preview(task.args@));
    }
}

/// The course of a turn hears of each event as what it is.
pub proof fn a_turn_hears_what_happens(event: RoundEvent)
    ensures
        (event is Cancelled) == (input_of(event) is Cancelled),
        (event is UserInterrupted) == (input_of(event) is UserInterrupted),
        (event is History) == (input_of(event) is History),
        (event is StateUpdate) == (input_of(event) is StateUpdate),
        (event is ToolCallResult) == (input_of(event) is ToolResult),
        (event is QuestionRequested) == (input_of(event) is QuestionRequested),
        (event is QuestionResolved) == (input_of(event) is QuestionResolved),
        (event is Done) == (input_of(event) is Done),
        (event is Failed) == (input_of(event) is Failed),
        (event is Ended) == (input_of(event) is Ended),
        event matches RoundEvent::TaskCompleted(new) ==> input_of(event) == TurnInput::TaskCompleted(
            new,
        ),
        event matches RoundEvent::Paused(report) ==> input_of(event) == TurnInput::Paused(
            report is Some,
        ),
        event matches RoundEvent::Resumed(report) ==> input_of(event) == TurnInput::Resumed(
            report is Some,
        ),
        event matches RoundEvent::SideEvent(mine) ==> input_of(event) == TurnInput::SideEvent(mine),
{
}

} // verus!
