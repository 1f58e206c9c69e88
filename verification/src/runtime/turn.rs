//! The course of a conversation turn.
//!
//! A turn is a sequence of rounds. Each round prepares a request, streams the
//! model's answer, saves what came of it, and then looks for a reason to go on:
//! steering input, a finished background task, the workflow's supervisor or a
//! stop hook. The machine here decides what to do next; whoever drives it
//! performs the actions and hands back what came of them.
use vstd::prelude::*;

verus! {

/// Where a turn stands.
#[derive(Debug, Clone, Copy, PartialEq, Eq, Structural)]
pub enum TurnPhase {
    /// A round is about to begin.
    RoundStart,
    /// Waits for the answer whether an interrupted workflow was resumed.
    AwaitResume,
    /// The request of the round is being put together.
    Preparing,
    /// The model's answer streams in.
    Streaming,
    /// The turn was cancelled; waits for the workflow to be paused.
    AwaitCancelPause,
    /// The user interrupted; waits for the workflow to be paused.
    AwaitInterruptPause,
    /// A question was asked; waits for the workflow to be paused.
    AwaitInputPause,
    /// A question was answered; waits for the workflow to be resumed.
    AwaitInputResume,
    /// The round is saved; waits for steering input.
    AwaitSteerAfterSave,
    /// Waits for the number of background tasks still running.
    AwaitBackgroundCount,
    /// Looks for a finished background task.
    AwaitCompleted,
    /// A finished task was announced; waits for the steering input made of it.
    AwaitSteerAfterCompletion,
    /// Waits for steering input between background tasks.
    AwaitSteerInBackground,
    /// Looks for a finished task that nobody was told of.
    AwaitPending,
    /// Waits to learn whether a background task still runs.
    AwaitRunning,
    /// Sleeps until something happens.
    Waiting,
    /// Waits for the workflow's supervisor.
    AwaitEvaluation,
    /// Waits for the stop hook.
    AwaitStopHook,
    /// Waits for steering input a last time.
    AwaitFinalSteer,
    /// The turn is over.
    Finished,
}

/// What happened, or what came of an action.
#[derive(Debug, Clone, Copy, PartialEq, Eq, Structural)]
pub enum TurnInput {
    /// Begin the round.
    Begin,
    /// Whether an interrupted workflow was resumed, with a report.
    Resumed(bool),
    /// The request could not be put together.
    PrepareFailed,
    /// The request does not fit into the context.
    OverBudget,
    /// The request is ready, with a snapshot of it or without.
    Prepared(bool),
    /// The model's run was cancelled.
    Cancelled,
    /// The user interrupted the model's run.
    UserInterrupted,
    /// Whether a workflow was paused, with a report.
    Paused(bool),
    /// The history and user state of the round.
    History,
    /// A new user state.
    StateUpdate,
    /// Text, reasoning or the course of a tool call.
    Progress,
    /// The result of a tool call.
    ToolResult,
    /// The user is asked a question.
    QuestionRequested,
    /// The user answered a question.
    QuestionResolved,
    /// The model's run is complete.
    Done,
    /// The model's run failed.
    Failed,
    /// Any other event of the model's run.
    Other,
    /// The model's run ended without saying so.
    Ended,
    /// A background task finished during the run: whether it is of this thread
    /// and nobody was told of it before.
    TaskCompleted(bool),
    /// An event of a background task during the run: whether it is of this
    /// thread.
    SideEvent(bool),
    /// Whether there was steering input.
    Steer(bool),
    /// Whether background tasks run.
    BackgroundCount(bool),
    /// A finished task: none, one that others were told of, or a new one.
    Completed(Completion),
    /// Whether there was a finished task that nobody was told of.
    Pending(bool),
    /// Whether a background task still runs.
    Running(bool),
    /// Woken up by cancellation.
    WokenByCancel,
    /// Woken up by steering input.
    WokenBySteer,
    /// Woken up by the end of a task.
    WokenByTask(Completion),
    /// Woken up because no task can finish any more.
    WokenByClose,
    /// Woken up by an event of a background task: whether it is of this thread.
    WokenBySideEvent(bool),
    /// The supervisor tells how it gets on.
    SupervisorProgress,
    /// What the supervisor decided.
    Evaluated(Evaluation),
    /// Whether the stop hook asks to go on.
    StopHook(bool),
}

/// A finished background task, as the turn sees it.
#[derive(Debug, Clone, Copy, PartialEq, Eq, Structural)]
pub enum Completion {
    /// None, or one of another thread.
    Nothing,
    /// One that others were told of.
    AlreadyTold,
    /// One that nobody was told of.
    New,
}

/// What a supervisor's evaluation of the workflow came to.
#[derive(Debug, Clone, Copy, PartialEq, Eq, Structural)]
pub enum Evaluation {
    Cancelled,
    NoWorkflow,
    Report,
    Continue,
}

/// What the reader of the turn is told.
#[derive(Debug, Clone, Copy, PartialEq, Eq, Structural)]
pub enum TurnYield {
    /// The event just received.
    Forward,
    /// The workflow report just received.
    Report,
    /// What goes to the model.
    Snapshot,
    /// The user state at the start of the round.
    InitialState,
    /// The error just received or made.
    Error,
    Cancelled,
    Done,
    TaskCompleted,
    SteerInjected,
    BackgroundTasksWaiting,
    SupervisorProgress,
}

/// What the next round says to the model.
#[derive(Debug, Clone, Copy, PartialEq, Eq, Structural)]
pub enum NextContent {
    Steer,
    TaskCompletion,
    Supervisor,
    StopHook,
}

/// What to do.
#[derive(Debug, Clone, Copy, PartialEq, Eq, Structural)]
pub enum TurnAction {
    Yield(TurnYield),
    /// Resume the workflow if it was paused by an interruption, in the round.
    ResumeInterrupted(u32),
    /// Put the request of the round together.
    Prepare,
    /// Keep the user's message of a turn that could not run.
    SaveFailedTurn,
    /// Start the model's run.
    StartRun,
    /// Stop the background tasks of the thread.
    CancelBackgroundTasks,
    /// Pause the active workflow because the turn was cancelled in the round.
    PauseCancelled(u32),
    /// Pause the active workflow because the user interrupted in the round.
    PauseInterrupted(u32),
    /// Pause the active workflow in the round until the user has answered.
    PauseForInput(u32),
    /// Resume the workflow that waits for the user, in the round.
    ResumeFromInput(u32),
    /// Take the user state at the start of the round where none came since.
    EnsureState,
    /// Read the workflow instance again.
    RefreshWorkflow,
    /// Put the workflow instance into the user state at hand.
    MergeWorkflow,
    /// Put the workflow instance into the user state just received.
    MergeIncoming,
    /// Keep the history and user state just received.
    KeepHistory,
    /// Keep the user state just received.
    KeepState,
    /// Save the user state just received and hand it on.
    SaveState,
    /// Note what the event says in the record of the unfinished answer.
    Record,
    /// Note how long the tool call took.
    RecordElapsed,
    /// Save the round.
    Save,
    /// Save the round, with the record of the unfinished answer where there is
    /// no history, and the user state at its start where none came since.
    SaveCancelled,
    /// Put the finished task among the steering input.
    PushSteer,
    /// Take the steering input out.
    DrainSteer,
    /// Hand on what background tasks have told.
    DrainSideEvents,
    CountBackground,
    PollCompleted,
    ClaimPending,
    CheckRunning,
    Wait,
    /// Let the supervisor look at the round.
    EvaluateWorkflow(u32),
    RunStopHook,
    /// Take this as what the next round says.
    Next(NextContent),
}

/// The state of a turn.
#[derive(Debug, Clone, Copy, PartialEq, Eq, Structural)]
pub struct TurnControl {
    pub phase: TurnPhase,
    /// The turn is an internal run of the supervisor.
    pub supervisor_run: bool,
    /// Background tasks may outlive a round and start the next.
    pub async_agent: bool,
    pub supervisor_round: u32,
    pub from_supervisor: bool,
    pub from_background: bool,
    pub stop_hook_active: bool,
    pub resume_checked: bool,
    pub question_requested: bool,
    pub interrupted: bool,
    /// The workflow was paused or resumed in this round.
    pub workflow_changed: bool,
    /// A user state came in this round.
    pub has_state: bool,
    /// The round was saved.
    pub saved: bool,
}

/// A turn before its first round.
pub open spec fn new_turn(supervisor_run: bool, async_agent: bool) -> TurnControl {
    TurnControl {
        phase: TurnPhase::RoundStart,
        supervisor_run,
        async_agent,
        supervisor_round: 0,
        from_supervisor: false,
        from_background: false,
        stop_hook_active: false,
        resume_checked: false,
        question_requested: false,
        interrupted: false,
        workflow_changed: false,
        has_state: false,
        saved: false,
    }
}

/// A state and what to do in it.
pub struct TurnStep {
    pub control: TurnControl,
    pub actions: Seq<TurnAction>,
}

pub open spec fn at(c: TurnControl, phase: TurnPhase) -> TurnControl {
    TurnControl { phase, ..c }
}

pub open spec fn say(y: TurnYield) -> TurnAction {
    TurnAction::Yield(y)
}

/// What to do first, and then what `next` does.
pub open spec fn first(actions: Seq<TurnAction>, next: TurnStep) -> TurnStep {
    TurnStep { control: next.control, actions: actions + next.actions }
}

pub open spec fn go(c: TurnControl, phase: TurnPhase, actions: Seq<TurnAction>) -> TurnStep {
    TurnStep { control: at(c, phase), actions }
}

/// The next round is about steering input or a finished task.
pub open spec fn next_from_outside(c: TurnControl, content: NextContent) -> TurnStep {
    TurnStep {
        control: TurnControl {
            phase: TurnPhase::RoundStart,
            from_supervisor: false,
            from_background: true,
            ..c
        },
        actions: seq![TurnAction::Next(content)],
    }
}

pub open spec fn next_round_number(n: u32) -> u32 {
    if n == u32::MAX {
        n
    } else {
        (n + 1) as u32
    }
}

/// The next round is one that the supervisor or the stop hook asks for.
pub open spec fn next_from_supervisor(c: TurnControl, content: NextContent) -> TurnStep {
    TurnStep {
        control: TurnControl {
            phase: TurnPhase::RoundStart,
            supervisor_round: next_round_number(c.supervisor_round),
            from_supervisor: true,
            stop_hook_active: c.stop_hook_active || content == NextContent::StopHook,
            ..c
        },
        actions: seq![TurnAction::Next(content)],
    }
}

/// The end of the turn, once a last look at the steering input found nothing.
#[verifier::opaque]
pub open spec fn finish(c: TurnControl) -> TurnStep {
    if c.supervisor_run {
        go(c, TurnPhase::Finished, seq![say(TurnYield::Done)])
    } else {
        go(c, TurnPhase::AwaitFinalSteer, seq![TurnAction::DrainSteer])
    }
}

/// The stop hook may ask to go on, once in a turn.
#[verifier::opaque]
pub open spec fn stop_hook(c: TurnControl) -> TurnStep {
    if c.stop_hook_active {
        finish(c)
    } else {
        go(c, TurnPhase::AwaitStopHook, seq![TurnAction::RunStopHook])
    }
}

/// The supervisor looks at a round that ran to its end undisturbed.
#[verifier::opaque]
pub open spec fn supervise(c: TurnControl) -> TurnStep {
    if !c.supervisor_run && !c.question_requested && !c.interrupted {
        go(c, TurnPhase::AwaitEvaluation, seq![TurnAction::EvaluateWorkflow(c.supervisor_round)])
    } else {
        stop_hook(c)
    }
}

/// Once more round the background tasks.
#[verifier::opaque]
pub open spec fn poll_background(c: TurnControl) -> TurnStep {
    go(
        c,
        TurnPhase::AwaitCompleted,
        seq![TurnAction::DrainSideEvents, TurnAction::PollCompleted],
    )
}

/// After the round is saved and no steering input is left.
#[verifier::opaque]
pub open spec fn after_save(c: TurnControl) -> TurnStep {
    if c.async_agent {
        go(c, TurnPhase::AwaitBackgroundCount, seq![TurnAction::CountBackground])
    } else {
        supervise(c)
    }
}

/// A finished task is announced; the next round is about it.
#[verifier::opaque]
pub open spec fn announce_completion(c: TurnControl) -> TurnStep {
    if c.supervisor_run {
        first(
            seq![say(TurnYield::TaskCompleted)],
            next_from_outside(c, NextContent::TaskCompletion),
        )
    } else {
        go(
            c,
            TurnPhase::AwaitSteerAfterCompletion,
            seq![TurnAction::PushSteer, say(TurnYield::TaskCompleted), TurnAction::DrainSteer],
        )
    }
}

/// No finished task is at hand.
#[verifier::opaque]
pub open spec fn no_completion(c: TurnControl) -> TurnStep {
    if c.supervisor_run {
        go(
            c,
            TurnPhase::AwaitPending,
            seq![TurnAction::DrainSideEvents, TurnAction::ClaimPending],
        )
    } else {
        go(
            c,
            TurnPhase::AwaitSteerInBackground,
            seq![TurnAction::DrainSideEvents, TurnAction::DrainSteer],
        )
    }
}

/// Steering input is handed on and makes the next round.
#[verifier::opaque]
pub open spec fn inject_steer(c: TurnControl) -> TurnStep {
    first(seq![say(TurnYield::SteerInjected)], next_from_outside(c, NextContent::Steer))
}

/// Sleeps while a background task runs; without one the supervisor's turn comes.
#[verifier::opaque]
pub open spec fn wait_or_supervise(c: TurnControl, running: bool) -> TurnStep {
    if running {
        go(c, TurnPhase::Waiting, seq![TurnAction::Wait])
    } else {
        supervise(c)
    }
}

/// Announces a task that nobody was told of; without one asks whether any runs.
#[verifier::opaque]
pub open spec fn announce_or_check(c: TurnControl, some: bool) -> TurnStep {
    if some {
        announce_completion(c)
    } else {
        go(c, TurnPhase::AwaitRunning, seq![TurnAction::CheckRunning])
    }
}

/// What merging the workflow into what just came in takes.
pub open spec fn merge_incoming(c: TurnControl) -> Seq<TurnAction> {
    if c.workflow_changed {
        seq![TurnAction::RefreshWorkflow, TurnAction::MergeIncoming]
    } else {
        seq![]
    }
}

/// The round is complete: it is saved, and then comes the search for a next.
#[verifier::opaque]
pub open spec fn complete_round(c: TurnControl) -> TurnStep {
    let merge = if c.workflow_changed {
        if c.has_state {
            seq![TurnAction::RefreshWorkflow, TurnAction::MergeWorkflow]
        } else {
            seq![TurnAction::RefreshWorkflow]
        }
    } else {
        seq![]
    };
    let saved = TurnControl { has_state: false, saved: true, ..c };
    let next = if c.supervisor_run {
        after_save(saved)
    } else {
        go(saved, TurnPhase::AwaitSteerAfterSave, seq![TurnAction::DrainSteer])
    };
    first(merge + seq![TurnAction::Save], next)
}

/// A cancelled round is saved as far as it got, and the turn is over.
#[verifier::opaque]
pub open spec fn save_cancelled(c: TurnControl) -> TurnStep {
    TurnStep {
        control: TurnControl { phase: TurnPhase::Finished, has_state: false, saved: true, ..c },
        actions: seq![TurnAction::SaveCancelled, say(TurnYield::Done)],
    }
}

/// What the report of a changed workflow takes while a question is open.
#[verifier::opaque]
pub open spec fn question_step(c: TurnControl, changed: bool) -> TurnStep {
    let actions = if changed {
        if c.has_state {
            seq![TurnAction::MergeWorkflow, say(TurnYield::Report), say(TurnYield::Forward)]
        } else {
            seq![say(TurnYield::Report), say(TurnYield::Forward)]
        }
    } else {
        seq![say(TurnYield::Forward)]
    };
    TurnStep {
        control: TurnControl {
            phase: TurnPhase::Streaming,
            workflow_changed: c.workflow_changed || changed,
            ..c
        },
        actions,
    }
}

/// What an event that only adds to the model's answer leads to.
#[verifier::opaque]
pub open spec fn answer_step(c: TurnControl, input: TurnInput) -> TurnStep {
    match input {
        TurnInput::TaskCompleted(new) => if new {
            if c.supervisor_run {
                go(c, TurnPhase::Streaming, seq![say(TurnYield::TaskCompleted)])
            } else {
                go(
                    c,
                    TurnPhase::Streaming,
                    seq![TurnAction::PushSteer, say(TurnYield::TaskCompleted)],
                )
            }
        } else {
            go(c, TurnPhase::Streaming, seq![])
        },
        TurnInput::SideEvent(mine) => if mine {
            go(c, TurnPhase::Streaming, seq![say(TurnYield::Forward)])
        } else {
            go(c, TurnPhase::Streaming, seq![])
        },
        TurnInput::History => go(
            TurnControl { has_state: true, ..c },
            TurnPhase::Streaming,
            merge_incoming(c) + seq![TurnAction::KeepHistory],
        ),
        TurnInput::StateUpdate => go(
            TurnControl { has_state: true, ..c },
            TurnPhase::Streaming,
            merge_incoming(c) + seq![TurnAction::KeepState, TurnAction::SaveState],
        ),
        TurnInput::Progress => go(
            c,
            TurnPhase::Streaming,
            seq![TurnAction::Record, say(TurnYield::Forward)],
        ),
        TurnInput::ToolResult => go(
            c,
            TurnPhase::Streaming,
            seq![TurnAction::RecordElapsed, TurnAction::Record, say(TurnYield::Forward)],
        ),
        TurnInput::Other => go(c, TurnPhase::Streaming, seq![say(TurnYield::Forward)]),
        _ => go(c, TurnPhase::Streaming, seq![]),
    }
}

/// What an event of the model's run leads to.
#[verifier::opaque]
pub open spec fn streaming_step(c: TurnControl, input: TurnInput) -> TurnStep {
    match input {
        TurnInput::Cancelled => if c.supervisor_run {
            first(seq![TurnAction::CancelBackgroundTasks], save_cancelled(c))
        } else {
            go(
                c,
                TurnPhase::AwaitCancelPause,
                seq![
                    TurnAction::CancelBackgroundTasks,
                    TurnAction::PauseCancelled(c.supervisor_round),
                ],
            )
        },
        TurnInput::UserInterrupted => if c.supervisor_run {
            go(c, TurnPhase::Streaming, seq![])
        } else {
            go(
                TurnControl { interrupted: true, ..c },
                TurnPhase::AwaitInterruptPause,
                seq![TurnAction::PauseInterrupted(c.supervisor_round)],
            )
        },
        TurnInput::QuestionRequested => if c.supervisor_run {
            go(c, TurnPhase::Streaming, seq![say(TurnYield::Forward)])
        } else {
            go(
                TurnControl { question_requested: true, ..c },
                TurnPhase::AwaitInputPause,
                seq![TurnAction::PauseForInput(c.supervisor_round)],
            )
        },
        TurnInput::QuestionResolved => if c.supervisor_run {
            go(c, TurnPhase::Streaming, seq![say(TurnYield::Forward)])
        } else {
            go(c, TurnPhase::AwaitInputResume, seq![TurnAction::ResumeFromInput(c.supervisor_round)])
        },
        TurnInput::Done => complete_round(c),
        TurnInput::Failed => TurnStep {
            control: TurnControl { phase: TurnPhase::Finished, has_state: false, saved: true, ..c },
            actions: seq![TurnAction::Save, say(TurnYield::Error)],
        },
        TurnInput::Ended => TurnStep {
            control: TurnControl { phase: TurnPhase::Finished, has_state: false, saved: true, ..c },
            actions: seq![TurnAction::Save],
        },
        _ => answer_step(c, input),
    }
}

/// What a wake-up leads to.
#[verifier::opaque]
pub open spec fn waiting_step(c: TurnControl, input: TurnInput) -> TurnStep {
    match input {
        TurnInput::WokenByCancel => go(
            c,
            TurnPhase::Finished,
            seq![
                TurnAction::CancelBackgroundTasks,
                say(TurnYield::Cancelled),
                say(TurnYield::Done),
            ],
        ),
        TurnInput::WokenBySteer => poll_background(c),
        TurnInput::WokenByTask(Completion::New) => announce_completion(c),
        TurnInput::WokenByTask(_) => poll_background(c),
        TurnInput::WokenByClose => supervise(c),
        TurnInput::WokenBySideEvent(mine) => if mine {
            first(seq![say(TurnYield::Forward)], poll_background(c))
        } else {
            poll_background(c)
        },
        _ => TurnStep { control: c, actions: Seq::empty() },
    }
}

/// What the supervisor's answer leads to.
#[verifier::opaque]
pub open spec fn evaluation_step(c: TurnControl, input: TurnInput) -> TurnStep {
    match input {
        TurnInput::SupervisorProgress => TurnStep {
            control: c,
            actions: seq![say(TurnYield::SupervisorProgress)],
        },
        TurnInput::Evaluated(Evaluation::Cancelled) => go(
            c,
            TurnPhase::Finished,
            seq![say(TurnYield::Cancelled), say(TurnYield::Done)],
        ),
        TurnInput::Evaluated(Evaluation::NoWorkflow) => stop_hook(c),
        TurnInput::Evaluated(Evaluation::Report) => first(
            seq![say(TurnYield::Report)],
            stop_hook(c),
        ),
        TurnInput::Evaluated(Evaluation::Continue) => first(
            seq![say(TurnYield::Report)],
            next_from_supervisor(c, NextContent::Supervisor),
        ),
        _ => TurnStep { control: c, actions: Seq::empty() },
    }
}

/// The steps up to the start of the model's run.
#[verifier::opaque]
pub open spec fn start_step(c: TurnControl, input: TurnInput) -> TurnStep {
    match c.phase {
        TurnPhase::RoundStart => match input {
            TurnInput::Begin => if !c.resume_checked && !c.supervisor_run {
                go(
                    TurnControl { resume_checked: true, ..c },
                    TurnPhase::AwaitResume,
                    seq![TurnAction::ResumeInterrupted(c.supervisor_round)],
                )
            } else {
                go(c, TurnPhase::Preparing, seq![TurnAction::Prepare])
            },
            _ => TurnStep { control: c, actions: Seq::empty() },
        },
        TurnPhase::AwaitResume => match input {
            TurnInput::Resumed(resumed) => if resumed {
                go(c, TurnPhase::Preparing, seq![say(TurnYield::Report), TurnAction::Prepare])
            } else {
                go(c, TurnPhase::Preparing, seq![TurnAction::Prepare])
            },
            _ => TurnStep { control: c, actions: Seq::empty() },
        },
        TurnPhase::Preparing => match input {
            TurnInput::PrepareFailed => go(
                c,
                TurnPhase::Finished,
                seq![say(TurnYield::Error)],
            ),
            TurnInput::OverBudget => go(
                c,
                TurnPhase::Finished,
                seq![TurnAction::SaveFailedTurn, say(TurnYield::Error)],
            ),
            TurnInput::Prepared(snapshot) => TurnStep {
                control: TurnControl {
                    phase: TurnPhase::Streaming,
                    from_background: false,
                    question_requested: false,
                    interrupted: false,
                    workflow_changed: false,
                    has_state: false,
                    saved: false,
                    ..c
                },
                actions: if snapshot {
                    seq![say(TurnYield::Snapshot), say(TurnYield::InitialState), TurnAction::StartRun]
                } else {
                    seq![say(TurnYield::InitialState), TurnAction::StartRun]
                },
            },
            _ => TurnStep { control: c, actions: Seq::empty() },
        },
        _ => TurnStep { control: c, actions: Seq::empty() },
    }
}

/// The steps that wait for the workflow to be paused or resumed.
#[verifier::opaque]
pub open spec fn workflow_step(c: TurnControl, input: TurnInput) -> TurnStep {
    match c.phase {
        TurnPhase::AwaitCancelPause => match input {
            TurnInput::Paused(paused) => if paused {
                first(
                    seq![TurnAction::EnsureState, TurnAction::MergeWorkflow, say(TurnYield::Report)],
                    save_cancelled(TurnControl { workflow_changed: true, ..c }),
                )
            } else {
                save_cancelled(c)
            },
            _ => TurnStep { control: c, actions: Seq::empty() },
        },
        TurnPhase::AwaitInterruptPause => match input {
            TurnInput::Paused(paused) => if paused {
                go(
                    TurnControl { workflow_changed: true, has_state: true, ..c },
                    TurnPhase::Streaming,
                    seq![TurnAction::EnsureState, TurnAction::MergeWorkflow, say(TurnYield::Report)],
                )
            } else {
                go(c, TurnPhase::Streaming, seq![])
            },
            _ => TurnStep { control: c, actions: Seq::empty() },
        },
        TurnPhase::AwaitInputPause => match input {
            TurnInput::Paused(paused) => question_step(c, paused),
            _ => TurnStep { control: c, actions: Seq::empty() },
        },
        TurnPhase::AwaitInputResume => match input {
            TurnInput::Resumed(resumed) => question_step(c, resumed),
            _ => TurnStep { control: c, actions: Seq::empty() },
        },
        _ => TurnStep { control: c, actions: Seq::empty() },
    }
}

/// The steps from a saved round to a finished background task.
#[verifier::opaque]
pub open spec fn completion_step(c: TurnControl, input: TurnInput) -> TurnStep {
    match c.phase {
        TurnPhase::AwaitSteerAfterSave => match input {
            TurnInput::Steer(some) => if some {
                inject_steer(c)
            } else {
                after_save(c)
            },
            _ => TurnStep { control: c, actions: Seq::empty() },
        },
        TurnPhase::AwaitBackgroundCount => match input {
            TurnInput::BackgroundCount(some) => if some {
                first(seq![say(TurnYield::BackgroundTasksWaiting)], poll_background(c))
            } else {
                poll_background(c)
            },
            _ => TurnStep { control: c, actions: Seq::empty() },
        },
        TurnPhase::AwaitCompleted => match input {
            TurnInput::Completed(completion) => match completion {
                Completion::Nothing => no_completion(c),
                Completion::AlreadyTold => poll_background(c),
                Completion::New => announce_completion(c),
            },
            _ => TurnStep { control: c, actions: Seq::empty() },
        },
        TurnPhase::AwaitSteerAfterCompletion => match input {
            TurnInput::Steer(some) => if some {
                inject_steer(c)
            } else {
                poll_background(c)
            },
            _ => TurnStep { control: c, actions: Seq::empty() },
        },
        _ => TurnStep { control: c, actions: Seq::empty() },
    }
}

/// The steps that look after background tasks that still run.
#[verifier::opaque]
pub open spec fn background_step(c: TurnControl, input: TurnInput) -> TurnStep {
    match c.phase {
        TurnPhase::AwaitSteerInBackground => match input {
            TurnInput::Steer(some) => if some {
                inject_steer(c)
            } else {
                go(c, TurnPhase::AwaitPending, seq![TurnAction::ClaimPending])
            },
            _ => TurnStep { control: c, actions: Seq::empty() },
        },
        TurnPhase::AwaitPending => match input {
            TurnInput::Pending(some) => announce_or_check(c, some),
            _ => TurnStep { control: c, actions: Seq::empty() },
        },
        TurnPhase::AwaitRunning => match input {
            TurnInput::Running(running) => wait_or_supervise(c, running),
            _ => TurnStep { control: c, actions: Seq::empty() },
        },
        _ => TurnStep { control: c, actions: Seq::empty() },
    }
}

/// The steps at the end of a turn.
#[verifier::opaque]
pub open spec fn end_step(c: TurnControl, input: TurnInput) -> TurnStep {
    match c.phase {
        TurnPhase::AwaitStopHook => match input {
            TurnInput::StopHook(blocked) => if blocked {
                next_from_supervisor(c, NextContent::StopHook)
            } else {
                finish(c)
            },
            _ => TurnStep { control: c, actions: Seq::empty() },
        },
        TurnPhase::AwaitFinalSteer => match input {
            TurnInput::Steer(some) => if some {
                inject_steer(c)
            } else {
                go(c, TurnPhase::Finished, seq![say(TurnYield::Done)])
            },
            _ => TurnStep { control: c, actions: Seq::empty() },
        },
        _ => TurnStep { control: c, actions: Seq::empty() },
    }
}

/// What an input leads to. An input that does not belong to the phase changes
/// nothing.
pub open spec fn turn_step(c: TurnControl, input: TurnInput) -> TurnStep {
    match c.phase {
        TurnPhase::RoundStart | TurnPhase::AwaitResume | TurnPhase::Preparing => start_step(
            c,
            input,
        ),
        TurnPhase::Streaming => streaming_step(c, input),
        TurnPhase::AwaitCancelPause
        | TurnPhase::AwaitInterruptPause
        | TurnPhase::AwaitInputPause
        | TurnPhase::AwaitInputResume => workflow_step(c, input),
        TurnPhase::AwaitSteerAfterSave
        | TurnPhase::AwaitBackgroundCount
        | TurnPhase::AwaitCompleted
        | TurnPhase::AwaitSteerAfterCompletion => completion_step(c, input),
        TurnPhase::AwaitSteerInBackground
        | TurnPhase::AwaitPending
        | TurnPhase::AwaitRunning => background_step(c, input),
        TurnPhase::Waiting => waiting_step(c, input),
        TurnPhase::AwaitEvaluation => evaluation_step(c, input),
        TurnPhase::AwaitStopHook | TurnPhase::AwaitFinalSteer | TurnPhase::Finished => end_step(
            c,
            input,
        ),
    }
}

// ---------------------------------------------------------------- executable

/// The state after a step, and what to do.
#[derive(Debug)]
pub struct TurnMove {
    pub control: TurnControl,
    pub actions: Vec<TurnAction>,
}

impl View for TurnMove {
    type V = TurnStep;

    open spec fn view(&self) -> TurnStep {
        TurnStep { control: self.control, actions: self.actions@ }
    }
}

fn acts0() -> (r: Vec<TurnAction>)
    ensures
        r@ == Seq::<TurnAction>::empty(),
{
    Vec::new()
}

fn acts1(a: TurnAction) -> (r: Vec<TurnAction>)
    ensures
        r@ == seq![a],
{
    let mut r: Vec<TurnAction> = Vec::new();
    r.push(a);
    r
}

fn acts2(a: TurnAction, b: TurnAction) -> (r: Vec<TurnAction>)
    ensures
        r@ == seq![a, b],
{
    let mut r = acts1(a);
    r.push(b);
    r
}

fn acts3(a: TurnAction, b: TurnAction, c: TurnAction) -> (r: Vec<TurnAction>)
    ensures
        r@ == seq![a, b, c],
{
    let mut r = acts2(a, b);
    r.push(c);
    r
}

fn mv(control: TurnControl, actions: Vec<TurnAction>) -> (r: TurnMove)
    ensures
        r@ == (TurnStep { control, actions: actions@ }),
{
    TurnMove { control, actions }
}

fn mv_to(c: TurnControl, phase: TurnPhase, actions: Vec<TurnAction>) -> (r: TurnMove)
    ensures
        r@ == go(c, phase, actions@),
{
    TurnMove { control: TurnControl { phase, ..c }, actions }
}

fn mv_first(actions: Vec<TurnAction>, next: TurnMove) -> (r: TurnMove)
    ensures
        r@ == first(actions@, next@),
{
    let mut actions = actions;
    let mut rest = next.actions;
    actions.append(&mut rest);
    TurnMove { control: next.control, actions }
}

fn mv_next_outside(c: TurnControl, content: NextContent) -> (r: TurnMove)
    ensures
        r@ == next_from_outside(c, content),
{
    mv(
        TurnControl {
            phase: TurnPhase::RoundStart,
            from_supervisor: false,
            from_background: true,
            ..c
        },
        acts1(TurnAction::Next(content)),
    )
}

fn mv_next_supervisor(c: TurnControl, content: NextContent) -> (r: TurnMove)
    ensures
        r@ == next_from_supervisor(c, content),
{
    mv(
        TurnControl {
            phase: TurnPhase::RoundStart,
            supervisor_round: c.supervisor_round.saturating_add(1),
            from_supervisor: true,
            stop_hook_active: c.stop_hook_active || content == NextContent::StopHook,
            ..c
        },
        acts1(TurnAction::Next(content)),
    )
}

fn mv_finish(c: TurnControl) -> (r: TurnMove)
    ensures
        r@ == finish(c),
{
    reveal(finish);
    if c.supervisor_run {
        mv_to(c, TurnPhase::Finished, acts1(TurnAction::Yield(TurnYield::Done)))
    } else {
        mv_to(c, TurnPhase::AwaitFinalSteer, acts1(TurnAction::DrainSteer))
    }
}

fn mv_stop_hook(c: TurnControl) -> (r: TurnMove)
    ensures
        r@ == stop_hook(c),
{
    reveal(stop_hook);
    if c.stop_hook_active {
        mv_finish(c)
    } else {
        mv_to(c, TurnPhase::AwaitStopHook, acts1(TurnAction::RunStopHook))
    }
}

fn mv_supervise(c: TurnControl) -> (r: TurnMove)
    ensures
        r@ == supervise(c),
{
    reveal(supervise);
    if !c.supervisor_run && !c.question_requested && !c.interrupted {
        mv_to(c, TurnPhase::AwaitEvaluation, acts1(TurnAction::EvaluateWorkflow(c.supervisor_round)))
    } else {
        mv_stop_hook(c)
    }
}

fn mv_poll(c: TurnControl) -> (r: TurnMove)
    ensures
        r@ == poll_background(c),
{
    reveal(poll_background);
    mv_to(
        c,
        TurnPhase::AwaitCompleted,
        acts2(TurnAction::DrainSideEvents, TurnAction::PollCompleted),
    )
}

fn mv_after_save(c: TurnControl) -> (r: TurnMove)
    ensures
        r@ == after_save(c),
{
    reveal(after_save);
    if c.async_agent {
        mv_to(c, TurnPhase::AwaitBackgroundCount, acts1(TurnAction::CountBackground))
    } else {
        mv_supervise(c)
    }
}

fn mv_announce(c: TurnControl) -> (r: TurnMove)
    ensures
        r@ == announce_completion(c),
{
    reveal(announce_completion);
    if c.supervisor_run {
        mv_first(
            acts1(TurnAction::Yield(TurnYield::TaskCompleted)),
            mv_next_outside(c, NextContent::TaskCompletion),
        )
    } else {
        mv_to(
            c,
            TurnPhase::AwaitSteerAfterCompletion,
            acts3(TurnAction::PushSteer, TurnAction::Yield(TurnYield::TaskCompleted), TurnAction::DrainSteer),
        )
    }
}

fn mv_no_completion(c: TurnControl) -> (r: TurnMove)
    ensures
        r@ == no_completion(c),
{
    reveal(no_completion);
    if c.supervisor_run {
        mv_to(
            c,
            TurnPhase::AwaitPending,
            acts2(TurnAction::DrainSideEvents, TurnAction::ClaimPending),
        )
    } else {
        mv_to(
            c,
            TurnPhase::AwaitSteerInBackground,
            acts2(TurnAction::DrainSideEvents, TurnAction::DrainSteer),
        )
    }
}

fn mv_inject(c: TurnControl) -> (r: TurnMove)
    ensures
        r@ == inject_steer(c),
{
    reveal(inject_steer);
    mv_first(
        acts1(TurnAction::Yield(TurnYield::SteerInjected)),
        mv_next_outside(c, NextContent::Steer),
    )
}

fn mv_wait(c: TurnControl, running: bool) -> (r: TurnMove)
    ensures
        r@ == wait_or_supervise(c, running),
{
    reveal(wait_or_supervise);
    if running {
        mv_to(c, TurnPhase::Waiting, acts1(TurnAction::Wait))
    } else {
        mv_supervise(c)
    }
}

fn mv_check(c: TurnControl, some: bool) -> (r: TurnMove)
    ensures
        r@ == announce_or_check(c, some),
{
    reveal(announce_or_check);
    if some {
        mv_announce(c)
    } else {
        mv_to(c, TurnPhase::AwaitRunning, acts1(TurnAction::CheckRunning))
    }
}

fn merge_actions(c: TurnControl) -> (r: Vec<TurnAction>)
    ensures
        r@ == merge_incoming(c),
{
    if c.workflow_changed {
        acts2(TurnAction::RefreshWorkflow, TurnAction::MergeIncoming)
    } else {
        acts0()
    }
}

fn mv_complete(c: TurnControl) -> (r: TurnMove)
    ensures
        r@ == complete_round(c),
{
    reveal(complete_round);
    let mut actions: Vec<TurnAction> = if c.workflow_changed {
        if c.has_state {
            acts2(TurnAction::RefreshWorkflow, TurnAction::MergeWorkflow)
        } else {
            acts1(TurnAction::RefreshWorkflow)
        }
    } else {
        acts0()
    };
    let ghost merge = actions@;
    actions.push(TurnAction::Save);
    assert(actions@ =~= merge + seq![TurnAction::Save]);
    let saved = TurnControl { has_state: false, saved: true, ..c };
    let next = if c.supervisor_run {
        mv_after_save(saved)
    } else {
        mv_to(saved, TurnPhase::AwaitSteerAfterSave, acts1(TurnAction::DrainSteer))
    };
    mv_first(actions, next)
}

fn mv_save_cancelled(c: TurnControl) -> (r: TurnMove)
    ensures
        r@ == save_cancelled(c),
{
    reveal(save_cancelled);
    mv(
        TurnControl { phase: TurnPhase::Finished, has_state: false, saved: true, ..c },
        acts2(TurnAction::SaveCancelled, TurnAction::Yield(TurnYield::Done)),
    )
}

fn mv_question(c: TurnControl, changed: bool) -> (r: TurnMove)
    ensures
        r@ == question_step(c, changed),
{
    reveal(question_step);
    let actions: Vec<TurnAction> = if changed {
        if c.has_state {
            acts3(TurnAction::MergeWorkflow, TurnAction::Yield(TurnYield::Report), TurnAction::Yield(TurnYield::Forward))
        } else {
            acts2(TurnAction::Yield(TurnYield::Report), TurnAction::Yield(TurnYield::Forward))
        }
    } else {
        acts1(TurnAction::Yield(TurnYield::Forward))
    };
    mv(
        TurnControl {
            phase: TurnPhase::Streaming,
            workflow_changed: c.workflow_changed || changed,
            ..c
        },
        actions,
    )
}

fn answer_move(c: TurnControl, input: TurnInput) -> (r: TurnMove)
    ensures
        r@ == answer_step(c, input),
{
    reveal(answer_step);
    let stay = TurnPhase::Streaming;
    match input {
        TurnInput::TaskCompleted(new) => if new {
            if c.supervisor_run {
                mv_to(c, stay, acts1(TurnAction::Yield(TurnYield::TaskCompleted)))
            } else {
                mv_to(
                    c,
                    stay,
                    acts2(TurnAction::PushSteer, TurnAction::Yield(TurnYield::TaskCompleted)),
                )
            }
        } else {
            mv_to(c, stay, acts0())
        },
        TurnInput::SideEvent(mine) => if mine {
            mv_to(c, stay, acts1(TurnAction::Yield(TurnYield::Forward)))
        } else {
            mv_to(c, stay, acts0())
        },
        TurnInput::History => {
            let mut actions = merge_actions(c);
            actions.push(TurnAction::KeepHistory);
            assert(actions@ =~= merge_incoming(c) + seq![TurnAction::KeepHistory]);
            mv_to(TurnControl { has_state: true, ..c }, stay, actions)
        },
        TurnInput::StateUpdate => {
            let mut actions = merge_actions(c);
            actions.push(TurnAction::KeepState);
            actions.push(TurnAction::SaveState);
            assert(actions@ =~= merge_incoming(c) + seq![
                TurnAction::KeepState,
                TurnAction::SaveState,
            ]);
            mv_to(TurnControl { has_state: true, ..c }, stay, actions)
        },
        TurnInput::Progress => mv_to(
            c,
            stay,
            acts2(TurnAction::Record, TurnAction::Yield(TurnYield::Forward)),
        ),
        TurnInput::ToolResult => mv_to(
            c,
            stay,
            acts3(TurnAction::RecordElapsed, TurnAction::Record, TurnAction::Yield(TurnYield::Forward)),
        ),
        TurnInput::Other => mv_to(c, stay, acts1(TurnAction::Yield(TurnYield::Forward))),
        _ => mv_to(c, stay, acts0()),
    }
}

fn streaming_move(c: TurnControl, input: TurnInput) -> (r: TurnMove)
    ensures
        r@ == streaming_step(c, input),
{
    reveal(streaming_step);
    let stay = TurnPhase::Streaming;
    match input {
        TurnInput::Cancelled => if c.supervisor_run {
            mv_first(acts1(TurnAction::CancelBackgroundTasks), mv_save_cancelled(c))
        } else {
            mv_to(
                c,
                TurnPhase::AwaitCancelPause,
                acts2(
                    TurnAction::CancelBackgroundTasks,
                    TurnAction::PauseCancelled(c.supervisor_round),
                ),
            )
        },
        TurnInput::UserInterrupted => if c.supervisor_run {
            mv_to(c, stay, acts0())
        } else {
            mv_to(
                TurnControl { interrupted: true, ..c },
                TurnPhase::AwaitInterruptPause,
                acts1(TurnAction::PauseInterrupted(c.supervisor_round)),
            )
        },
        TurnInput::QuestionRequested => if c.supervisor_run {
            mv_to(c, stay, acts1(TurnAction::Yield(TurnYield::Forward)))
        } else {
            mv_to(
                TurnControl { question_requested: true, ..c },
                TurnPhase::AwaitInputPause,
                acts1(TurnAction::PauseForInput(c.supervisor_round)),
            )
        },
        TurnInput::QuestionResolved => if c.supervisor_run {
            mv_to(c, stay, acts1(TurnAction::Yield(TurnYield::Forward)))
        } else {
            mv_to(c, TurnPhase::AwaitInputResume, acts1(TurnAction::ResumeFromInput(c.supervisor_round)))
        },
        TurnInput::Done => mv_complete(c),
        TurnInput::Failed => mv(
            TurnControl { phase: TurnPhase::Finished, has_state: false, saved: true, ..c },
            acts2(TurnAction::Save, TurnAction::Yield(TurnYield::Error)),
        ),
        TurnInput::Ended => mv(
            TurnControl { phase: TurnPhase::Finished, has_state: false, saved: true, ..c },
            acts1(TurnAction::Save),
        ),
        _ => answer_move(c, input),
    }
}

fn waiting_move(c: TurnControl, input: TurnInput) -> (r: TurnMove)
    ensures
        r@ == waiting_step(c, input),
{
    reveal(waiting_step);
    match input {
        TurnInput::WokenByCancel => mv_to(
            c,
            TurnPhase::Finished,
            acts3(TurnAction::CancelBackgroundTasks, TurnAction::Yield(TurnYield::Cancelled), TurnAction::Yield(TurnYield::Done)),
        ),
        TurnInput::WokenBySteer => mv_poll(c),
        TurnInput::WokenByTask(Completion::New) => mv_announce(c),
        TurnInput::WokenByTask(_) => mv_poll(c),
        TurnInput::WokenByClose => mv_supervise(c),
        TurnInput::WokenBySideEvent(mine) => if mine {
            mv_first(acts1(TurnAction::Yield(TurnYield::Forward)), mv_poll(c))
        } else {
            mv_poll(c)
        },
        _ => mv(c, acts0()),
    }
}

fn evaluation_move(c: TurnControl, input: TurnInput) -> (r: TurnMove)
    ensures
        r@ == evaluation_step(c, input),
{
    reveal(evaluation_step);
    match input {
        TurnInput::SupervisorProgress => mv(
            c,
            acts1(TurnAction::Yield(TurnYield::SupervisorProgress)),
        ),
        TurnInput::Evaluated(Evaluation::Cancelled) => mv_to(
            c,
            TurnPhase::Finished,
            acts2(TurnAction::Yield(TurnYield::Cancelled), TurnAction::Yield(TurnYield::Done)),
        ),
        TurnInput::Evaluated(Evaluation::NoWorkflow) => mv_stop_hook(c),
        TurnInput::Evaluated(Evaluation::Report) => mv_first(
            acts1(TurnAction::Yield(TurnYield::Report)),
            mv_stop_hook(c),
        ),
        TurnInput::Evaluated(Evaluation::Continue) => mv_first(
            acts1(TurnAction::Yield(TurnYield::Report)),
            mv_next_supervisor(c, NextContent::Supervisor),
        ),
        _ => mv(c, acts0()),
    }
}

impl TurnControl {
    /// A turn before its first round.
    pub fn new(supervisor_run: bool, async_agent: bool) -> (r: TurnControl)
        ensures
            r == new_turn(supervisor_run, async_agent),
    {
        TurnControl {
            phase: TurnPhase::RoundStart,
            supervisor_run,
            async_agent,
            supervisor_round: 0,
            from_supervisor: false,
            from_background: false,
            stop_hook_active: false,
            resume_checked: false,
            question_requested: false,
            interrupted: false,
            workflow_changed: false,
            has_state: false,
            saved: false,
        }
    }

    /// Takes one step: what `input` leads to in this state.
    pub fn step(self, input: TurnInput) -> (r: TurnMove)
        ensures
            r@ == turn_step(self, input),
    {
        match self.phase {
            TurnPhase::RoundStart | TurnPhase::AwaitResume | TurnPhase::Preparing => start_move(
                self,
                input,
            ),
            TurnPhase::Streaming => streaming_move(self, input),
            TurnPhase::AwaitCancelPause
            | TurnPhase::AwaitInterruptPause
            | TurnPhase::AwaitInputPause
            | TurnPhase::AwaitInputResume => workflow_move(self, input),
            TurnPhase::AwaitSteerAfterSave
            | TurnPhase::AwaitBackgroundCount
            | TurnPhase::AwaitCompleted
            | TurnPhase::AwaitSteerAfterCompletion => completion_move(self, input),
            TurnPhase::AwaitSteerInBackground
            | TurnPhase::AwaitPending
            | TurnPhase::AwaitRunning => background_move(self, input),
            TurnPhase::Waiting => waiting_move(self, input),
            TurnPhase::AwaitEvaluation => evaluation_move(self, input),
            TurnPhase::AwaitStopHook | TurnPhase::AwaitFinalSteer | TurnPhase::Finished => end_move(
                self,
                input,
            ),
        }
    }
}

fn start_move(c: TurnControl, input: TurnInput) -> (r: TurnMove)
    ensures
        r@ == start_step(c, input),
{
    reveal(start_step);
    match c.phase {
        TurnPhase::RoundStart => match input {
            TurnInput::Begin => if !c.resume_checked && !c.supervisor_run {
                mv_to(
                    TurnControl { resume_checked: true, ..c },
                    TurnPhase::AwaitResume,
                    acts1(TurnAction::ResumeInterrupted(c.supervisor_round)),
                )
            } else {
                mv_to(c, TurnPhase::Preparing, acts1(TurnAction::Prepare))
            },
            _ => mv(c, acts0()),
        },
        TurnPhase::AwaitResume => match input {
            TurnInput::Resumed(resumed) => if resumed {
                mv_to(
                    c,
                    TurnPhase::Preparing,
                    acts2(TurnAction::Yield(TurnYield::Report), TurnAction::Prepare),
                )
            } else {
                mv_to(c, TurnPhase::Preparing, acts1(TurnAction::Prepare))
            },
            _ => mv(c, acts0()),
        },
        TurnPhase::Preparing => match input {
            TurnInput::PrepareFailed => mv_to(
                c,
                TurnPhase::Finished,
                acts1(TurnAction::Yield(TurnYield::Error)),
            ),
            TurnInput::OverBudget => mv_to(
                c,
                TurnPhase::Finished,
                acts2(TurnAction::SaveFailedTurn, TurnAction::Yield(TurnYield::Error)),
            ),
            TurnInput::Prepared(snapshot) => {
                let control = TurnControl {
                    phase: TurnPhase::Streaming,
                    from_background: false,
                    question_requested: false,
                    interrupted: false,
                    workflow_changed: false,
                    has_state: false,
                    saved: false,
                    ..c
                };
                if snapshot {
                    mv(
                        control,
                        acts3(TurnAction::Yield(TurnYield::Snapshot), TurnAction::Yield(TurnYield::InitialState), TurnAction::StartRun),
                    )
                } else {
                    mv(
                        control,
                        acts2(TurnAction::Yield(TurnYield::InitialState), TurnAction::StartRun),
                    )
                }
            },
            _ => mv(c, acts0()),
        },
        _ => mv(c, acts0()),
    }
}

fn workflow_move(c: TurnControl, input: TurnInput) -> (r: TurnMove)
    ensures
        r@ == workflow_step(c, input),
{
    reveal(workflow_step);
    match c.phase {
        TurnPhase::AwaitCancelPause => match input {
            TurnInput::Paused(paused) => if paused {
                mv_first(
                    acts3(TurnAction::EnsureState, TurnAction::MergeWorkflow, TurnAction::Yield(TurnYield::Report)),
                    mv_save_cancelled(TurnControl { workflow_changed: true, ..c }),
                )
            } else {
                mv_save_cancelled(c)
            },
            _ => mv(c, acts0()),
        },
        TurnPhase::AwaitInterruptPause => match input {
            TurnInput::Paused(paused) => if paused {
                mv_to(
                    TurnControl { workflow_changed: true, has_state: true, ..c },
                    TurnPhase::Streaming,
                    acts3(TurnAction::EnsureState, TurnAction::MergeWorkflow, TurnAction::Yield(TurnYield::Report)),
                )
            } else {
                mv_to(c, TurnPhase::Streaming, acts0())
            },
            _ => mv(c, acts0()),
        },
        TurnPhase::AwaitInputPause => match input {
            TurnInput::Paused(paused) => mv_question(c, paused),
            _ => mv(c, acts0()),
        },
        TurnPhase::AwaitInputResume => match input {
            TurnInput::Resumed(resumed) => mv_question(c, resumed),
            _ => mv(c, acts0()),
        },
        _ => mv(c, acts0()),
    }
}

fn completion_move(c: TurnControl, input: TurnInput) -> (r: TurnMove)
    ensures
        r@ == completion_step(c, input),
{
    reveal(completion_step);
    match c.phase {
        TurnPhase::AwaitSteerAfterSave => match input {
            TurnInput::Steer(some) => if some {
                mv_inject(c)
            } else {
                mv_after_save(c)
            },
            _ => mv(c, acts0()),
        },
        TurnPhase::AwaitBackgroundCount => match input {
            TurnInput::BackgroundCount(some) => if some {
                mv_first(acts1(TurnAction::Yield(TurnYield::BackgroundTasksWaiting)), mv_poll(c))
            } else {
                mv_poll(c)
            },
            _ => mv(c, acts0()),
        },
        TurnPhase::AwaitCompleted => match input {
            TurnInput::Completed(completion) => match completion {
                Completion::Nothing => mv_no_completion(c),
                Completion::AlreadyTold => mv_poll(c),
                Completion::New => mv_announce(c),
            },
            _ => mv(c, acts0()),
        },
        TurnPhase::AwaitSteerAfterCompletion => match input {
            TurnInput::Steer(some) => if some {
                mv_inject(c)
            } else {
                mv_poll(c)
            },
            _ => mv(c, acts0()),
        },
        _ => mv(c, acts0()),
    }
}

fn background_move(c: TurnControl, input: TurnInput) -> (r: TurnMove)
    ensures
        r@ == background_step(c, input),
{
    reveal(background_step);
    match c.phase {
        TurnPhase::AwaitSteerInBackground => match input {
            TurnInput::Steer(some) => if some {
                mv_inject(c)
            } else {
                mv_to(c, TurnPhase::AwaitPending, acts1(TurnAction::ClaimPending))
            },
            _ => mv(c, acts0()),
        },
        TurnPhase::AwaitPending => match input {
            TurnInput::Pending(some) => mv_check(c, some),
            _ => mv(c, acts0()),
        },
        TurnPhase::AwaitRunning => match input {
            TurnInput::Running(running) => mv_wait(c, running),
            _ => mv(c, acts0()),
        },
        _ => mv(c, acts0()),
    }
}

fn end_move(c: TurnControl, input: TurnInput) -> (r: TurnMove)
    ensures
        r@ == end_step(c, input),
{
    reveal(end_step);
    match c.phase {
        TurnPhase::AwaitStopHook => match input {
            TurnInput::StopHook(blocked) => if blocked {
                mv_next_supervisor(c, NextContent::StopHook)
            } else {
                mv_finish(c)
            },
            _ => mv(c, acts0()),
        },
        TurnPhase::AwaitFinalSteer => match input {
            TurnInput::Steer(some) => if some {
                mv_inject(c)
            } else {
                mv_to(c, TurnPhase::Finished, acts1(TurnAction::Yield(TurnYield::Done)))
            },
            _ => mv(c, acts0()),
        },
        _ => mv(c, acts0()),
    }
}

// ---------------------------------------------------------------------- laws

/// The phases that come after a round was saved.
pub open spec fn after_saving(phase: TurnPhase) -> bool {
    match phase {
        TurnPhase::AwaitSteerAfterSave
        | TurnPhase::AwaitBackgroundCount
        | TurnPhase::AwaitCompleted
        | TurnPhase::AwaitSteerAfterCompletion
        | TurnPhase::AwaitSteerInBackground
        | TurnPhase::AwaitPending
        | TurnPhase::AwaitRunning
        | TurnPhase::Waiting
        | TurnPhase::AwaitEvaluation
        | TurnPhase::AwaitStopHook
        | TurnPhase::AwaitFinalSteer => true,
        _ => false,
    }
}

/// What holds of every state that a turn can reach.
pub open spec fn turn_wf(c: TurnControl) -> bool {
    &&& after_saving(c.phase) ==> c.saved
    &&& c.supervisor_run ==> match c.phase {
        TurnPhase::AwaitResume
        | TurnPhase::AwaitCancelPause
        | TurnPhase::AwaitInterruptPause
        | TurnPhase::AwaitInputPause
        | TurnPhase::AwaitInputResume
        | TurnPhase::AwaitSteerAfterSave
        | TurnPhase::AwaitSteerAfterCompletion
        | TurnPhase::AwaitSteerInBackground
        | TurnPhase::AwaitEvaluation
        | TurnPhase::AwaitFinalSteer => false,
        _ => true,
    }
    &&& c.phase == TurnPhase::AwaitStopHook ==> !c.stop_hook_active
    &&& c.phase == TurnPhase::AwaitEvaluation ==> !c.question_requested && !c.interrupted
}

/// Whether `actions` hold `wanted`.
pub open spec fn does(actions: Seq<TurnAction>, wanted: TurnAction) -> bool {
    exists|i: int| 0 <= i < actions.len() && #[trigger] actions[i] == wanted
}

/// What an action of a step from `c` to `after` says about the two; `last` is
/// whether it is the last action of the step.
pub open spec fn action_ok(
    c: TurnControl,
    after: TurnControl,
    action: TurnAction,
    last: bool,
) -> bool {
    match action {
        TurnAction::Yield(TurnYield::Done) => last && after.saved && after.phase
            == TurnPhase::Finished,
        TurnAction::Yield(TurnYield::Error) => last && after.phase == TurnPhase::Finished,
        TurnAction::EvaluateWorkflow(round) => !c.supervisor_run && !c.question_requested
            && !c.interrupted && after.saved && round == c.supervisor_round,
        TurnAction::ResumeInterrupted(round) => !c.supervisor_run && !c.resume_checked
            && after.resume_checked && round == c.supervisor_round,
        TurnAction::PauseCancelled(round)
        | TurnAction::PauseInterrupted(round)
        | TurnAction::PauseForInput(round)
        | TurnAction::ResumeFromInput(round) => !c.supervisor_run && round == c.supervisor_round,
        TurnAction::DrainSteer | TurnAction::PushSteer => !c.supervisor_run,
        TurnAction::RunStopHook => !c.stop_hook_active,
        TurnAction::Next(NextContent::StopHook) => last && !c.stop_hook_active
            && after.stop_hook_active && after.supervisor_round == next_round_number(
            c.supervisor_round,
        ),
        TurnAction::Next(NextContent::Supervisor) => last && after.supervisor_round
            == next_round_number(c.supervisor_round),
        _ => true,
    }
}

/// What holds of every step from `c`.
pub open spec fn step_ok(c: TurnControl, r: TurnStep) -> bool {
    &&& turn_wf(r.control)
    &&& r.control.supervisor_run == c.supervisor_run
    &&& r.control.async_agent == c.async_agent
    &&& c.stop_hook_active ==> r.control.stop_hook_active
    &&& c.resume_checked ==> r.control.resume_checked
    &&& r.control.supervisor_round != c.supervisor_round ==> r.actions.len() > 0 && (
    r.actions.last() == TurnAction::Next(NextContent::Supervisor) || r.actions.last()
        == TurnAction::Next(NextContent::StopHook))
    &&& forall|i: int|
        0 <= i < r.actions.len() ==> action_ok(
            c,
            r.control,
            #[trigger] r.actions[i],
            i == r.actions.len() - 1,
        )
}

proof fn lemma_later_steps_ok(c: TurnControl)
    requires
        c.saved,
    ensures
        step_ok(c, finish(c)),
        step_ok(c, stop_hook(c)),
        step_ok(c, poll_background(c)),
        step_ok(c, announce_completion(c)),
        step_ok(c, no_completion(c)),
        !c.supervisor_run ==> step_ok(c, inject_steer(c)),
{
    reveal(finish);
    reveal(stop_hook);
    reveal(poll_background);
    reveal(announce_completion);
    reveal(no_completion);
    reveal(inject_steer);
}

proof fn lemma_supervise_ok(c: TurnControl)
    requires
        c.saved,
    ensures
        step_ok(c, supervise(c)),
        step_ok(c, after_save(c)),
{
    reveal(supervise);
    reveal(after_save);
    lemma_later_steps_ok(c);
}

/// Actions before a good step that say nothing of the turn's end leave it good.
proof fn lemma_first_ok(c: TurnControl, actions: Seq<TurnAction>, next: TurnStep)
    requires
        step_ok(c, next),
        next.actions.len() > 0,
        forall|i: int|
            0 <= i < actions.len() ==> action_ok(c, next.control, #[trigger] actions[i], false),
    ensures
        step_ok(c, first(actions, next)),
{
    let r = first(actions, next);
    assert forall|i: int| 0 <= i < r.actions.len() implies action_ok(
        c,
        r.control,
        #[trigger] r.actions[i],
        i == r.actions.len() - 1,
    ) by {
        if i >= actions.len() {
            assert(r.actions[i] == next.actions[i - actions.len()]);
        }
    }
    assert(r.actions.last() == next.actions.last());
}

proof fn lemma_complete_ok(c: TurnControl)
    requires
        turn_wf(c),
    ensures
        step_ok(c, complete_round(c)),
{
    reveal(complete_round);
    let saved = TurnControl { has_state: false, saved: true, ..c };
    lemma_supervise_ok(saved);
    let next = if c.supervisor_run {
        after_save(saved)
    } else {
        go(saved, TurnPhase::AwaitSteerAfterSave, seq![TurnAction::DrainSteer])
    };
    let r = complete_round(c);
    let n = r.actions.len() - next.actions.len();
    assert forall|i: int| 0 <= i < r.actions.len() implies action_ok(
        c,
        r.control,
        #[trigger] r.actions[i],
        i == r.actions.len() - 1,
    ) by {
        if i >= n {
            assert(r.actions[i] == next.actions[i - n]);
        }
    }
    if next.actions.len() > 0 {
        assert(r.actions.last() == next.actions.last());
    }
}

proof fn lemma_start_ok(c: TurnControl, input: TurnInput)
    requires
        turn_wf(c),
        c.phase == TurnPhase::RoundStart || c.phase == TurnPhase::AwaitResume || c.phase
            == TurnPhase::Preparing,
    ensures
        step_ok(c, start_step(c, input)),
{
    reveal(start_step);
}

proof fn lemma_workflow_ok(c: TurnControl, input: TurnInput)
    requires
        turn_wf(c),
        !after_saving(c.phase),
    ensures
        step_ok(c, workflow_step(c, input)),
{
    reveal(workflow_step);
    reveal(save_cancelled);
    reveal(question_step);
}

/// An action that says nothing of the turn's course.
spec fn plain(a: TurnAction) -> bool {
    match a {
        TurnAction::Yield(TurnYield::Forward) => true,
        TurnAction::Yield(TurnYield::TaskCompleted) => true,
        TurnAction::RefreshWorkflow => true,
        TurnAction::MergeIncoming => true,
        TurnAction::KeepHistory => true,
        TurnAction::KeepState => true,
        TurnAction::SaveState => true,
        TurnAction::Record => true,
        TurnAction::RecordElapsed => true,
        _ => false,
    }
}

/// The control of an answer's event.
proof fn lemma_answer_control(c: TurnControl, input: TurnInput)
    requires
        c.phase == TurnPhase::Streaming,
    ensures
        answer_step(c, input).control == c || answer_step(c, input).control == (TurnControl {
            has_state: true,
            ..c
        }),
{
    reveal(answer_step);
}

/// The actions of an answer's event.
proof fn lemma_answer_action(c: TurnControl, input: TurnInput, i: int)
    requires
        0 <= i < answer_step(c, input).actions.len(),
    ensures
        plain(answer_step(c, input).actions[i]) || (answer_step(c, input).actions[i]
            == TurnAction::PushSteer && !c.supervisor_run),
{
    reveal(answer_step);
    match input {
        TurnInput::TaskCompleted(_) => {},
        TurnInput::SideEvent(_) => {},
        TurnInput::History => {},
        TurnInput::StateUpdate => {},
        TurnInput::Progress => {},
        TurnInput::ToolResult => {},
        _ => {},
    }
}

proof fn lemma_answer_ok(c: TurnControl, input: TurnInput)
    requires
        turn_wf(c),
        c.phase == TurnPhase::Streaming,
    ensures
        step_ok(c, answer_step(c, input)),
        saved_before(answer_step(c, input).actions, say(TurnYield::Done)),
        saved_before(answer_step(c, input).actions, say(TurnYield::Error)),
{
    let r = answer_step(c, input);
    lemma_answer_control(c, input);
    assert forall|i: int| 0 <= i < r.actions.len() implies action_ok(
        c,
        r.control,
        #[trigger] r.actions[i],
        i == r.actions.len() - 1,
    ) && r.actions[i] != say(TurnYield::Done) && r.actions[i] != say(TurnYield::Error) by {
        lemma_answer_action(c, input, i);
    }
}

/// What is proved of a step of the model's run.
spec fn run_ok(c: TurnControl, r: TurnStep) -> bool {
    &&& step_ok(c, r)
    &&& saved_before(r.actions, say(TurnYield::Done))
    &&& saved_before(r.actions, say(TurnYield::Error))
}

proof fn lemma_cancelled_ok(c: TurnControl)
    requires
        turn_wf(c),
        c.phase == TurnPhase::Streaming,
    ensures
        run_ok(c, streaming_step(c, TurnInput::Cancelled)),
{
    reveal(streaming_step);
    reveal(save_cancelled);
    let r = streaming_step(c, TurnInput::Cancelled);
    if c.supervisor_run {
        assert(r.actions[1] == TurnAction::SaveCancelled);
    }
}

proof fn lemma_interrupted_ok(c: TurnControl)
    requires
        turn_wf(c),
        c.phase == TurnPhase::Streaming,
    ensures
        run_ok(c, streaming_step(c, TurnInput::UserInterrupted)),
{
    reveal(streaming_step);
}

proof fn lemma_questions_ok(c: TurnControl)
    requires
        turn_wf(c),
        c.phase == TurnPhase::Streaming,
    ensures
        run_ok(c, streaming_step(c, TurnInput::QuestionRequested)),
        run_ok(c, streaming_step(c, TurnInput::QuestionResolved)),
{
    reveal(streaming_step);
}

proof fn lemma_broken_ok(c: TurnControl)
    requires
        turn_wf(c),
        c.phase == TurnPhase::Streaming,
    ensures
        run_ok(c, streaming_step(c, TurnInput::Failed)),
        run_ok(c, streaming_step(c, TurnInput::Ended)),
{
    reveal(streaming_step);
    let r = streaming_step(c, TurnInput::Failed);
    assert(r.actions[0] == TurnAction::Save);
}

proof fn lemma_streaming_delegates(c: TurnControl, input: TurnInput)
    ensures
        match input {
            TurnInput::Cancelled
            | TurnInput::UserInterrupted
            | TurnInput::QuestionRequested
            | TurnInput::QuestionResolved
            | TurnInput::Failed
            | TurnInput::Ended => true,
            TurnInput::Done => streaming_step(c, input) == complete_round(c),
            _ => streaming_step(c, input) == answer_step(c, input),
        },
{
    reveal(streaming_step);
}

proof fn lemma_streaming_ok(c: TurnControl, input: TurnInput)
    requires
        turn_wf(c),
        c.phase == TurnPhase::Streaming,
    ensures
        run_ok(c, streaming_step(c, input)),
{
    lemma_streaming_delegates(c, input);
    match input {
        TurnInput::Done => {
            lemma_complete_ok(c);
            lemma_complete_saves(c);
        },
        TurnInput::Cancelled => {
            lemma_cancelled_ok(c);
        },
        TurnInput::Failed | TurnInput::Ended => {
            lemma_broken_ok(c);
        },
        TurnInput::UserInterrupted => {
            lemma_interrupted_ok(c);
        },
        TurnInput::QuestionRequested | TurnInput::QuestionResolved => {
            lemma_questions_ok(c);
        },
        _ => {
            lemma_answer_ok(c, input);
        },
    }
}

proof fn lemma_completion_ok(c: TurnControl, input: TurnInput)
    requires
        turn_wf(c),
        c.saved,
    ensures
        step_ok(c, completion_step(c, input)),
{
    reveal(completion_step);
    reveal(poll_background);
    lemma_later_steps_ok(c);
    lemma_supervise_ok(c);
}

proof fn lemma_background_ok(c: TurnControl, input: TurnInput)
    requires
        turn_wf(c),
        c.saved,
    ensures
        step_ok(c, background_step(c, input)),
{
    reveal(background_step);
    reveal(wait_or_supervise);
    reveal(announce_or_check);
    lemma_later_steps_ok(c);
    lemma_supervise_ok(c);
}

proof fn lemma_waiting_ok(c: TurnControl, input: TurnInput)
    requires
        turn_wf(c),
        c.saved,
    ensures
        step_ok(c, waiting_step(c, input)),
{
    reveal(waiting_step);
    reveal(poll_background);
    lemma_later_steps_ok(c);
    lemma_supervise_ok(c);
}

proof fn lemma_evaluation_ok(c: TurnControl, input: TurnInput)
    requires
        turn_wf(c),
        c.saved,
    ensures
        step_ok(c, evaluation_step(c, input)),
{
    reveal(evaluation_step);
    lemma_later_steps_ok(c);
    reveal(stop_hook);
    reveal(finish);
    lemma_first_ok(c, seq![say(TurnYield::Report)], stop_hook(c));
}

proof fn lemma_end_ok(c: TurnControl, input: TurnInput)
    requires
        turn_wf(c),
        c.saved || c.phase == TurnPhase::Finished,
    ensures
        step_ok(c, end_step(c, input)),
{
    reveal(end_step);
    if c.saved {
        lemma_later_steps_ok(c);
    }
}

proof fn lemma_step_ok(c: TurnControl, input: TurnInput)
    requires
        turn_wf(c),
    ensures
        step_ok(c, turn_step(c, input)),
{
    match c.phase {
        TurnPhase::RoundStart | TurnPhase::AwaitResume | TurnPhase::Preparing => {
            lemma_start_ok(c, input);
        },
        TurnPhase::Streaming => {
            lemma_streaming_ok(c, input);
        },
        TurnPhase::AwaitCancelPause
        | TurnPhase::AwaitInterruptPause
        | TurnPhase::AwaitInputPause
        | TurnPhase::AwaitInputResume => {
            lemma_workflow_ok(c, input);
        },
        TurnPhase::AwaitSteerAfterSave
        | TurnPhase::AwaitBackgroundCount
        | TurnPhase::AwaitCompleted
        | TurnPhase::AwaitSteerAfterCompletion => {
            lemma_completion_ok(c, input);
        },
        TurnPhase::AwaitSteerInBackground | TurnPhase::AwaitPending | TurnPhase::AwaitRunning => {
            lemma_background_ok(c, input);
        },
        TurnPhase::Waiting => {
            lemma_waiting_ok(c, input);
        },
        TurnPhase::AwaitEvaluation => {
            lemma_evaluation_ok(c, input);
        },
        TurnPhase::AwaitStopHook | TurnPhase::AwaitFinalSteer | TurnPhase::Finished => {
            lemma_end_ok(c, input);
        },
    }
}

/// A turn starts in a good state, and every step keeps it good.
pub proof fn steps_keep_turn_good(c: TurnControl, input: TurnInput, s: bool, a: bool)
    requires
        turn_wf(c),
    ensures
        turn_wf(turn_step(c, input).control),
        turn_step(c, input).control.supervisor_run == c.supervisor_run,
        turn_step(c, input).control.async_agent == c.async_agent,
        turn_wf(new_turn(s, a)),
{
    lemma_step_ok(c, input);
}

/// `wanted` stands in `actions` only behind one of the two saving actions.
pub open spec fn saved_before(actions: Seq<TurnAction>, wanted: TurnAction) -> bool {
    forall|i: int|
        0 <= i < actions.len() && #[trigger] actions[i] == wanted ==> exists|j: int|
            0 <= j < i && (#[trigger] actions[j] == TurnAction::Save || actions[j]
                == TurnAction::SaveCancelled)
}

proof fn lemma_complete_saves(c: TurnControl)
    requires
        turn_wf(c),
    ensures
        saved_before(complete_round(c).actions, say(TurnYield::Done)),
        saved_before(complete_round(c).actions, say(TurnYield::Error)),
{
    reveal(complete_round);
    let a = complete_round(c).actions;
    let n: int = if c.workflow_changed {
        if c.has_state {
            2
        } else {
            1
        }
    } else {
        0
    };
    assert(a[n] == TurnAction::Save);
}

/// The end of a turn is told only once its round is saved: either it was saved
/// in an earlier step, or the saving comes first in the same step. The error of
/// a run is told only behind the saving too.
pub proof fn saving_comes_before_the_end(c: TurnControl, input: TurnInput)
    requires
        turn_wf(c),
    ensures
        !c.saved ==> saved_before(turn_step(c, input).actions, say(TurnYield::Done)),
        c.phase == TurnPhase::Streaming ==> saved_before(
            turn_step(c, input).actions,
            say(TurnYield::Error),
        ),
        does(turn_step(c, input).actions, say(TurnYield::Done)) ==> turn_step(
            c,
            input,
        ).control.saved,
{
    lemma_step_ok(c, input);
    let a = turn_step(c, input).actions;
    if c.phase == TurnPhase::Streaming {
        lemma_streaming_ok(c, input);
    } else if c.phase == TurnPhase::AwaitCancelPause {
        reveal(workflow_step);
        reveal(save_cancelled);
        if input == TurnInput::Paused(true) {
            assert(a[3] == TurnAction::SaveCancelled);
        } else if input == TurnInput::Paused(false) {
            assert(a[0] == TurnAction::SaveCancelled);
        }
    } else if c.phase == TurnPhase::RoundStart || c.phase == TurnPhase::AwaitResume || c.phase
        == TurnPhase::Preparing {
        reveal(start_step);
    } else if c.phase == TurnPhase::Finished {
        reveal(end_step);
    } else if !after_saving(c.phase) {
        reveal(workflow_step);
        reveal(question_step);
    }
}

/// The round for which an action asks the supervisor or changes the workflow.
pub open spec fn workflow_round(action: TurnAction) -> Option<u32> {
    match action {
        TurnAction::EvaluateWorkflow(round)
        | TurnAction::ResumeInterrupted(round)
        | TurnAction::PauseCancelled(round)
        | TurnAction::PauseInterrupted(round)
        | TurnAction::PauseForInput(round)
        | TurnAction::ResumeFromInput(round) => Some(round),
        _ => None,
    }
}

/// The supervisor is asked and the workflow changed for the round at hand.
pub proof fn workflows_change_in_the_round_at_hand(c: TurnControl, input: TurnInput, i: int)
    requires
        turn_wf(c),
        0 <= i < turn_step(c, input).actions.len(),
    ensures
        match workflow_round(turn_step(c, input).actions[i]) {
            Some(round) => round == c.supervisor_round,
            None => true,
        },
{
    lemma_step_ok(c, input);
}

/// An internal run of the supervisor never asks the supervisor, never touches
/// the workflow's state, and takes no steering input.
pub proof fn supervisor_runs_do_not_recurse(c: TurnControl, input: TurnInput)
    requires
        turn_wf(c),
        c.supervisor_run,
    ensures
        forall|i: int|
            0 <= i < turn_step(c, input).actions.len() ==> workflow_round(
                #[trigger] turn_step(c, input).actions[i],
            ) is None,
        !does(turn_step(c, input).actions, TurnAction::DrainSteer),
        !does(turn_step(c, input).actions, TurnAction::PushSteer),
{
    lemma_step_ok(c, input);
}

/// The supervisor is asked only about a round in which the user was not asked
/// anything and did not interrupt, and only once the round is saved.
pub proof fn only_undisturbed_rounds_are_evaluated(c: TurnControl, input: TurnInput, round: u32)
    requires
        turn_wf(c),
        does(turn_step(c, input).actions, TurnAction::EvaluateWorkflow(round)),
    ensures
        !c.supervisor_run,
        !c.question_requested,
        !c.interrupted,
        turn_step(c, input).control.saved,
{
    lemma_step_ok(c, input);
}

/// The stop hook runs only until it has asked to go on once, and the check for
/// an interrupted workflow is made once in a turn.
pub proof fn hooks_run_at_most_once(c: TurnControl, input: TurnInput)
    requires
        turn_wf(c),
    ensures
        c.stop_hook_active ==> turn_step(c, input).control.stop_hook_active && !does(
            turn_step(c, input).actions,
            TurnAction::RunStopHook,
        ),
        does(turn_step(c, input).actions, TurnAction::Next(NextContent::StopHook)) ==> turn_step(
            c,
            input,
        ).control.stop_hook_active && !c.stop_hook_active,
        c.resume_checked ==> turn_step(c, input).control.resume_checked && !does(
            turn_step(c, input).actions,
            TurnAction::ResumeInterrupted(c.supervisor_round),
        ),
        does(
            turn_step(c, input).actions,
            TurnAction::ResumeInterrupted(c.supervisor_round),
        ) ==> turn_step(c, input).control.resume_checked,
{
    lemma_step_ok(c, input);
}

/// The end of a turn, or its error, is told last and only when the turn is
/// over; a turn that is over does nothing more.
pub proof fn a_finished_turn_is_over(c: TurnControl, input: TurnInput)
    requires
        turn_wf(c),
    ensures
        c.phase == TurnPhase::Finished ==> turn_step(c, input).control == c && turn_step(
            c,
            input,
        ).actions.len() == 0,
        turn_step(c, input).control.phase != TurnPhase::Finished ==> !does(
            turn_step(c, input).actions,
            say(TurnYield::Done),
        ) && !does(turn_step(c, input).actions, say(TurnYield::Error)),
        forall|i: int|
            0 <= i < turn_step(c, input).actions.len() - 1 ==> #[trigger] turn_step(
                c,
                input,
            ).actions[i] != say(TurnYield::Done),
{
    reveal(end_step);
    lemma_step_ok(c, input);
}

/// The round number goes up by one with each round that the supervisor or the
/// stop hook asks for, and otherwise stays.
pub proof fn rounds_count_continuations(c: TurnControl, input: TurnInput)
    requires
        turn_wf(c),
    ensures
        does(turn_step(c, input).actions, TurnAction::Next(NextContent::Supervisor)) || does(
            turn_step(c, input).actions,
            TurnAction::Next(NextContent::StopHook),
        ) ==> turn_step(c, input).control.supervisor_round == next_round_number(c.supervisor_round),
        turn_step(c, input).control.supervisor_round != c.supervisor_round ==> does(
            turn_step(c, input).actions,
            TurnAction::Next(NextContent::Supervisor),
        ) || does(turn_step(c, input).actions, TurnAction::Next(NextContent::StopHook)),
{
    lemma_step_ok(c, input);
    let a = turn_step(c, input).actions;
    if a.len() > 0 {
        assert(a[a.len() - 1] == a.last());
    }
}

} // verus!
