//! Answering a message over ACP: in which order it is done.
use vstd::prelude::*;
use vstd::string::*;

use crate::json::{no_fields, JsonValue, JsonView};
use crate::message::{message_views, option_text, Message, MessageView};
use crate::runtime::acp::{
    acp_compression_failed, acp_history, acp_loop_start, acp_thread, heard, AcpEvent, AcpRunView,
    AcpStep, LocalAcpRun,
};
use crate::runtime::memory::{fresh_messages, TurnRecord};
use crate::runtime::snapshot::LoopStart;
use crate::runtime::subagent::starts;
use crate::text::{decimal, trimmed};

verus! {

broadcast use vstd::string::group_string_axioms;

/// How far the answer is.
#[derive(Debug, Clone, Copy, PartialEq, Eq, Structural)]
pub enum AcpPhase {
    /// The size of the request is being estimated.
    Measuring,
    /// The memory is being compressed for a request of the given size.
    Compacting(u32),
    /// The memory is being read again.
    Reloading,
    /// The agent runs.
    Running,
    Over,
}

/// What came of what was asked for.
#[derive(Debug)]
pub enum AcpInput {
    /// The size of the request; zero where it cannot be estimated.
    Measured(u32),
    /// How many messages were compressed.
    Compacted(Result<u64, String>),
    /// What is remembered now.
    Reloaded(Result<Vec<Message>, String>),
    /// An event of the run.
    Event(AcpEvent),
    /// The run ended without saying so.
    Ended,
}

/// What is to be done next.
#[derive(Debug)]
#[allow(inconsistent_fields)]
pub enum AcpAction {
    Measure,
    Compact,
    Reload,
    /// The agent is run with what the turn starts with.
    Run,
    /// The run goes on.
    Listen,
    /// The record is written, and the session is answered.
    Finish { record: TurnRecord, answer: Result<String, String> },
    /// The session is told what went wrong.
    Fail(String),
}

/// A message that is answered.
#[derive(Debug)]
pub struct AcpTurn {
    pub session_id: String,
    pub message: String,
    pub system_prompt: String,
    pub environment_prompt: String,
    pub todo_prompt: Option<String>,
    pub user_state: JsonValue,
    pub budget: u32,
    pub phase: AcpPhase,
    pub start: LoopStart,
    pub run: LocalAcpRun,
}

/// What changes while a message is answered.
pub struct AcpTurnView {
    pub phase: AcpPhase,
    pub history: Seq<MessageView>,
    pub run: AcpRunView,
}

impl View for AcpTurn {
    type V = AcpTurnView;

    open spec fn view(&self) -> AcpTurnView {
        AcpTurnView {
            phase: self.phase,
            history: message_views(self.start.history@),
            run: self.run@,
        }
    }
}

/// Whether an input is an answer to what was asked for.
pub open spec fn answers(phase: AcpPhase, input: AcpInput) -> bool {
    match phase {
        AcpPhase::Measuring => input is Measured,
        AcpPhase::Compacting(_) => input is Compacted,
        AcpPhase::Reloading => input is Reloaded,
        AcpPhase::Running => input is Event || input is Ended,
        AcpPhase::Over => false,
    }
}

/// The answer after an input.
pub open spec fn moved(turn: AcpTurn, input: AcpInput) -> AcpTurnView {
    let v = turn@;
    match input {
        AcpInput::Measured(size) => if size <= turn.budget {
            AcpTurnView { phase: AcpPhase::Running, ..v }
        } else {
            AcpTurnView { phase: AcpPhase::Compacting(size), ..v }
        },
        AcpInput::Compacted(count) => if count is Ok {
            AcpTurnView { phase: AcpPhase::Reloading, ..v }
        } else {
            AcpTurnView { phase: AcpPhase::Over, ..v }
        },
        AcpInput::Reloaded(Ok(remembered)) => AcpTurnView {
            phase: AcpPhase::Measuring,
            history: turn.history_for(message_views(remembered@)),
            ..v
        },
        AcpInput::Reloaded(Err(_)) => AcpTurnView { phase: AcpPhase::Over, ..v },
        AcpInput::Event(event) => AcpTurnView {
            phase: if event is Done || event is Error {
                AcpPhase::Over
            } else {
                AcpPhase::Running
            },
            run: heard(v.run, event),
            ..v
        },
        AcpInput::Ended => AcpTurnView { phase: AcpPhase::Over, ..v },
    }
}

/// Whether a run is ended as it should be: what is new of its history is
/// written with its state, and the session is answered what was said.
pub open spec fn ends_run(
    record: TurnRecord,
    answer: Result<String, String>,
    run: AcpRunView,
    skip: nat,
) -> bool {
    &&& crate::runtime::options::option_value(record.user_state) == run.raw_user_state
    &&& match run.raw_history {
        Some(all) => {
            let fresh = fresh_messages(all, skip as int);
            if fresh.len() == 0 {
                record.messages is None
            } else {
                record.messages is Some && message_views(record.messages->0@) == fresh
            }
        },
        None => record.messages is None,
    }
    &&& if trimmed(run.text).len() == 0 {
        &&& answer is Err
        &&& answer->Err_0@ == "local ACP agent produced no text for session "@ + run.session_id
    } else {
        answer is Ok && answer->Ok_0@ == trimmed(run.text)
    }
}

/// Whether an action is the one that an input calls for.
pub open spec fn called_for(turn: AcpTurn, input: AcpInput, action: AcpAction) -> bool {
    match input {
        AcpInput::Measured(size) => if size <= turn.budget {
            action is Run
        } else {
            action is Compact
        },
        AcpInput::Compacted(Ok(_)) => action is Reload,
        AcpInput::Compacted(Err(e)) => {
            &&& action is Fail
            &&& action->Fail_0@ == "ACP request exceeds context budget ("@ + decimal(
                turn.phase->Compacting_0 as nat,
            ) + " > "@ + decimal(turn.budget as nat) + ") and compression failed: "@ + e@
        },
        AcpInput::Reloaded(Ok(_)) => action is Measure,
        AcpInput::Reloaded(Err(e)) => action is Fail && action->Fail_0@ == e@,
        AcpInput::Event(AcpEvent::Error(e)) => {
            &&& action is Fail
            &&& action->Fail_0@ == "local ACP agent failed for session "@ + turn.run@.session_id
                + ": "@ + e@
        },
        AcpInput::Event(AcpEvent::Done) | AcpInput::Ended => {
            &&& action is Finish
            &&& ends_run(action->record, action->answer, turn.run@, turn.start.history@.len())
        },
        AcpInput::Event(_) => action is Listen,
    }
}

impl AcpTurn {
    /// What the agent is told before the message.
    pub open spec fn history_for(&self, remembered: Seq<MessageView>) -> Seq<MessageView> {
        acp_history(
            remembered,
            self.system_prompt@,
            self.environment_prompt@,
            option_text(self.todo_prompt),
        )
    }

    /// What the agent is run with belongs to the message and its session.
    pub open spec fn wf(&self) -> bool {
        &&& starts(
            self.start,
            self.message@,
            message_views(self.start.history@),
            JsonView::Object(
                no_fields().push(("thread_id"@, JsonView::Text(acp_thread(self.session_id@)))),
            ),
            Some(self.user_state@),
        )
        &&& self.run@.session_id == self.session_id@
    }

    /// Whether two turns differ in how far they are alone.
    pub open spec fn alike(&self, other: AcpTurn) -> bool {
        *self == (AcpTurn {
            phase: self.phase,
            start: self.start,
            run: self.run,
            ..other
        })
    }

    /// Begins the answer to a message, with what is remembered.
    pub fn new(
        session_id: String,
        message: String,
        remembered: Vec<Message>,
        system_prompt: String,
        environment_prompt: String,
        todo_prompt: Option<String>,
        user_state: JsonValue,
        budget: u32,
    ) -> (r: AcpTurn)
        ensures
            r.wf(),
            r.session_id@ == session_id@,
            r.message@ == message@,
            r.system_prompt@ == system_prompt@,
            r.environment_prompt@ == environment_prompt@,
            option_text(r.todo_prompt) == option_text(todo_prompt),
            r.user_state@ == user_state@,
            r.budget == budget,
            r@ == (AcpTurnView {
                phase: AcpPhase::Measuring,
                history: r.history_for(message_views(remembered@)),
                run: AcpRunView {
                    session_id: session_id@,
                    text: Seq::empty(),
                    raw_history: None,
                    raw_user_state: None,
                },
            }),
    {
        let start = acp_loop_start(
            &session_id,
            &message,
            remembered,
            &system_prompt,
            &environment_prompt,
            &todo_prompt,
            &user_state,
        );
        let run = LocalAcpRun::new(&session_id);
        AcpTurn {
            session_id,
            message,
            system_prompt,
            environment_prompt,
            todo_prompt,
            user_state,
            budget,
            phase: AcpPhase::Measuring,
            start,
            run,
        }
    }

    fn finish(self) -> (r: (AcpTurn, AcpAction))
        requires
            self.wf(),
        ensures
            r.0.wf(),
            r.0.alike(self),
            r.0@ == (AcpTurnView { phase: AcpPhase::Over, ..self@ }),
            r.1 is Finish,
            ends_run(r.1->record, r.1->answer, self.run@, self.start.history@.len()),
    {
        let mut turn = self;
        turn.phase = AcpPhase::Over;
        let skip: usize = turn.start.history.len();
        let (record, answer) = turn.run.copy().finish(skip);
        (turn, AcpAction::Finish { record, answer })
    }

    /// Goes one step further: what came of what was asked for is taken in, and
    /// what is to be done next is said.
    pub fn step(self, input: AcpInput) -> (r: (AcpTurn, AcpAction))
        requires
            self.wf(),
            answers(self.phase, input),
        ensures
            r.0.wf(),
            r.0.alike(self),
            r.0@ == moved(self, input),
            called_for(self, input, r.1),
    {
        let mut turn = self;
        let ghost given = input;
        match input {
            AcpInput::Measured(size) => {
                if size <= turn.budget {
                    turn.phase = AcpPhase::Running;
                    (turn, AcpAction::Run)
                } else {
                    turn.phase = AcpPhase::Compacting(size);
                    (turn, AcpAction::Compact)
                }
            },
            AcpInput::Compacted(Ok(_)) => {
                turn.phase = AcpPhase::Reloading;
                (turn, AcpAction::Reload)
            },
            AcpInput::Compacted(Err(e)) => {
                let size: u32 = match turn.phase {
                    AcpPhase::Compacting(n) => n,
                    _ => 0,
                };
                let said = acp_compression_failed(size, turn.budget, &e);
                turn.phase = AcpPhase::Over;
                (turn, AcpAction::Fail(said))
            },
            AcpInput::Reloaded(Ok(remembered)) => {
                turn.start = acp_loop_start(
                    &turn.session_id,
                    &turn.message,
                    remembered,
                    &turn.system_prompt,
                    &turn.environment_prompt,
                    &turn.todo_prompt,
                    &turn.user_state,
                );
                turn.phase = AcpPhase::Measuring;
                (turn, AcpAction::Measure)
            },
            AcpInput::Reloaded(Err(e)) => {
                turn.phase = AcpPhase::Over;
                (turn, AcpAction::Fail(e))
            },
            AcpInput::Event(event) => match turn.run.on_event(event) {
                AcpStep::Continue => (turn, AcpAction::Listen),
                AcpStep::Finish => turn.finish(),
                AcpStep::Fail(said) => {
                    turn.phase = AcpPhase::Over;
                    (turn, AcpAction::Fail(said))
                },
            },
            AcpInput::Ended => turn.finish(),
        }
    }
}

// ------------------------------------------------------------------------ laws

/// The agent runs only with a request that fits into its context.
pub proof fn the_agent_runs_within_its_budget(turn: AcpTurn, input: AcpInput, action: AcpAction)
    requires
        answers(turn.phase, input),
        called_for(turn, input, action),
        action is Run,
    ensures
        turn.phase is Measuring,
        input->Measured_0 <= turn.budget,
        moved(turn, input).phase is Running,
{
}

/// A turn is over exactly when the session was answered or told what went
/// wrong.
pub proof fn a_turn_ends_with_an_answer(turn: AcpTurn, input: AcpInput, action: AcpAction)
    requires
        answers(turn.phase, input),
        called_for(turn, input, action),
    ensures
        moved(turn, input).phase is Over <==> action is Finish || action is Fail,
{
}

/// A request that fits is run, and one that does not waits for the memory to be
/// compressed and read again; what is told to the agent changes only then.
pub proof fn a_request_that_fits_is_run(turn: AcpTurn, input: AcpInput, action: AcpAction)
    requires
        answers(turn.phase, input),
        called_for(turn, input, action),
    ensures
        input matches AcpInput::Measured(size) ==> (action is Run <==> size <= turn.budget) && (
        action is Compact <==> size > turn.budget),
        input matches AcpInput::Compacted(count) ==> (action is Reload <==> count is Ok) && (
        action is Fail <==> count is Err),
        input matches AcpInput::Reloaded(read) ==> (action is Measure <==> read is Ok) && (
        action is Fail <==> read is Err),
        input matches AcpInput::Reloaded(Ok(read)) ==> moved(turn, input).history
            == turn.history_for(message_views(read@)),
        !(input is Reloaded) ==> moved(turn, input).history == turn@.history,
{
}

/// Where a run ends, what is new of it is recorded, with the state as it is then; the
/// answer is what the agent said, without white space round it.
pub proof fn an_answer_is_what_the_agent_said(
    record: TurnRecord,
    answer: Result<String, String>,
    run: AcpRunView,
    before: Seq<MessageView>,
    new: Seq<MessageView>,
)
    requires
        ends_run(record, answer, run, before.len()),
        run.raw_history == Some(before + new),
    ensures
        new.len() > 0 ==> record.messages is Some && message_views(record.messages->0@) == new,
        new.len() == 0 ==> record.messages is None,
        crate::runtime::options::option_value(record.user_state) == run.raw_user_state,
        trimmed(run.text).len() > 0 ==> answer is Ok && answer->Ok_0@ == trimmed(run.text),
        trimmed(run.text).len() == 0 ==> answer is Err,
{
    if new.len() > 0 {
        assert((before + new).skip(before.len() as int) =~= new);
    }
}

} // verus!
