//! What a turn promises, whatever happens in it.
use vstd::prelude::*;

use crate::runtime::turn::{
    after_save, announce_completion, announce_or_check, answer_step, background_step,
    complete_round, completion_step, does, end_step, evaluation_step, finish, inject_steer,
    new_turn, next_round_number, no_completion, poll_background, question_step, save_cancelled,
    say, start_step, stop_hook, streaming_step, supervise, turn_step, wait_or_supervise,
    waiting_step, workflow_step, Completion, Evaluation, NextContent, TurnAction, TurnControl,
    TurnInput, TurnPhase, TurnStep, TurnYield,
};

verus! {

// ----------------------------------------------------------------- background tasks

/// The phases in which a turn looks after background tasks.
pub open spec fn looks_after_tasks(phase: TurnPhase) -> bool {
    match phase {
        TurnPhase::AwaitBackgroundCount
        | TurnPhase::AwaitCompleted
        | TurnPhase::AwaitSteerAfterCompletion
        | TurnPhase::AwaitSteerInBackground
        | TurnPhase::AwaitPending
        | TurnPhase::AwaitRunning
        | TurnPhase::Waiting => true,
        _ => false,
    }
}

/// The phases in which a turn comes to its end.
pub open spec fn ends_soon(phase: TurnPhase) -> bool {
    match phase {
        TurnPhase::AwaitEvaluation
        | TurnPhase::AwaitStopHook
        | TurnPhase::AwaitFinalSteer
        | TurnPhase::Finished => true,
        _ => false,
    }
}

/// While a background task runs, a turn that looks after such tasks waits.
pub proof fn a_running_task_is_waited_for(c: TurnControl)
    requires
        c.phase == TurnPhase::AwaitRunning,
    ensures
        turn_step(c, TurnInput::Running(true)).control.phase == TurnPhase::Waiting,
        turn_step(c, TurnInput::Running(true)).actions == seq![TurnAction::Wait],
        turn_step(c, TurnInput::Running(true)).control == (TurnControl {
            phase: TurnPhase::Waiting,
            ..c
        }),
{
    reveal(background_step);
    reveal(wait_or_supervise);
}

proof fn lemma_later_phases(c: TurnControl)
    ensures
        ends_soon(supervise(c).control.phase),
        ends_soon(stop_hook(c).control.phase),
        ends_soon(finish(c).control.phase),
        looks_after_tasks(poll_background(c).control.phase),
        looks_after_tasks(no_completion(c).control.phase),
        looks_after_tasks(announce_completion(c).control.phase)
            || announce_completion(c).control.phase == TurnPhase::RoundStart,
        inject_steer(c).control.phase == TurnPhase::RoundStart,
        c.async_agent ==> looks_after_tasks(after_save(c).control.phase),
{
    reveal(supervise);
    reveal(stop_hook);
    reveal(finish);
    reveal(poll_background);
    reveal(no_completion);
    reveal(announce_completion);
    reveal(inject_steer);
    reveal(after_save);
}

/// A turn whose tasks may outlive a round leaves them for the supervisor, the stop
/// hook or its end only once it was told that none runs any more, that none can
/// finish any more, or that it is cancelled; from elsewhere it gets there only
/// where the model's run was cut off or never started.
pub proof fn no_background_task_is_left_behind(c: TurnControl, input: TurnInput)
    requires
        c.async_agent,
        !ends_soon(c.phase),
        ends_soon(turn_step(c, input).control.phase),
    ensures
        match c.phase {
            TurnPhase::AwaitRunning => input == TurnInput::Running(false),
            TurnPhase::Waiting => input == TurnInput::WokenByClose || input
                == TurnInput::WokenByCancel,
            TurnPhase::Streaming => input == TurnInput::Cancelled || input == TurnInput::Failed
                || input == TurnInput::Ended,
            TurnPhase::AwaitCancelPause => input is Paused,
            TurnPhase::Preparing => input == TurnInput::PrepareFailed || input
                == TurnInput::OverBudget,
            _ => false,
        },
{
    match c.phase {
        TurnPhase::RoundStart | TurnPhase::AwaitResume | TurnPhase::Preparing => {
            lemma_start_leads(c, input);
        },
        TurnPhase::Streaming => {
            lemma_streaming_leads(c, input);
        },
        TurnPhase::AwaitSteerAfterSave
        | TurnPhase::AwaitBackgroundCount
        | TurnPhase::AwaitCompleted
        | TurnPhase::AwaitSteerAfterCompletion => {
            lemma_completion_leads(c, input);
        },
        TurnPhase::AwaitSteerInBackground | TurnPhase::AwaitPending | TurnPhase::AwaitRunning => {
            lemma_background_leads(c, input);
        },
        TurnPhase::Waiting => {
            reveal(waiting_step);
            lemma_later_phases(c);
        },
        _ => {
            lemma_workflow_leads(c, input);
        },
    }
}

proof fn lemma_start_leads(c: TurnControl, input: TurnInput)
    requires
        !ends_soon(c.phase),
        ends_soon(start_step(c, input).control.phase),
    ensures
        c.phase == TurnPhase::Preparing,
        input == TurnInput::PrepareFailed || input == TurnInput::OverBudget,
{
    reveal(start_step);
}

proof fn lemma_streaming_leads(c: TurnControl, input: TurnInput)
    requires
        c.async_agent,
        ends_soon(streaming_step(c, input).control.phase),
    ensures
        input == TurnInput::Cancelled || input == TurnInput::Failed || input == TurnInput::Ended,
{
    reveal(streaming_step);
    if input == TurnInput::Done {
        let saved = TurnControl { has_state: false, saved: true, ..c };
        reveal(complete_round);
        lemma_later_phases(saved);
    } else {
        lemma_answers_go_on(c, input);
    }
}

proof fn lemma_answers_go_on(c: TurnControl, input: TurnInput)
    ensures
        answer_step(c, input).control.phase == TurnPhase::Streaming,
{
    reveal(answer_step);
}

proof fn lemma_completion_leads(c: TurnControl, input: TurnInput)
    requires
        c.async_agent,
        !ends_soon(c.phase),
    ensures
        !ends_soon(completion_step(c, input).control.phase),
{
    reveal(completion_step);
    lemma_later_phases(c);
}

proof fn lemma_background_leads(c: TurnControl, input: TurnInput)
    requires
        !ends_soon(c.phase),
        ends_soon(background_step(c, input).control.phase),
    ensures
        c.phase == TurnPhase::AwaitRunning,
        input == TurnInput::Running(false),
{
    reveal(background_step);
    reveal(wait_or_supervise);
    reveal(announce_or_check);
    lemma_later_phases(c);
}

proof fn lemma_workflow_leads(c: TurnControl, input: TurnInput)
    requires
        !ends_soon(c.phase),
        ends_soon(workflow_step(c, input).control.phase),
    ensures
        c.phase == TurnPhase::AwaitCancelPause,
        input is Paused,
{
    reveal(workflow_step);
    reveal(question_step);
}

/// After the round of such a turn is complete, its tasks are looked after.
pub proof fn tasks_are_looked_after(c: TurnControl)
    requires
        c.async_agent,
        c.phase == TurnPhase::AwaitSteerAfterSave,
    ensures
        looks_after_tasks(turn_step(c, TurnInput::Steer(false)).control.phase),
        does(turn_step(c, TurnInput::Steer(false)).actions, TurnAction::CountBackground),
{
    reveal(completion_step);
    reveal(after_save);
    assert(turn_step(c, TurnInput::Steer(false)).actions[0] == TurnAction::CountBackground);
}

/// Whether an input says that a background task has finished of which nobody was
/// told.
pub open spec fn finds_finished_task(phase: TurnPhase, input: TurnInput) -> bool {
    match phase {
        TurnPhase::Streaming => input == TurnInput::TaskCompleted(true),
        TurnPhase::AwaitCompleted => input == TurnInput::Completed(Completion::New),
        TurnPhase::AwaitPending => input == TurnInput::Pending(true),
        TurnPhase::Waiting => input == TurnInput::WokenByTask(Completion::New),
        _ => false,
    }
}

/// A background task that has finished is announced, whenever that is learnt. It
/// reaches the agent too: it is put among the steering input; or, where a turn takes
/// none and the model does not answer, the next round is about it.
pub proof fn finished_tasks_are_announced(c: TurnControl, input: TurnInput)
    requires
        finds_finished_task(c.phase, input),
    ensures
        ({
            let r = turn_step(c, input);
            &&& does(r.actions, say(TurnYield::TaskCompleted))
            &&& !c.supervisor_run ==> does(r.actions, TurnAction::PushSteer)
            &&& c.supervisor_run && c.phase != TurnPhase::Streaming ==> does(
                r.actions,
                TurnAction::Next(NextContent::TaskCompletion),
            ) && r.control.phase == TurnPhase::RoundStart
            &&& !c.supervisor_run && c.phase != TurnPhase::Streaming ==> does(
                r.actions,
                TurnAction::DrainSteer,
            ) && r.control.phase == TurnPhase::AwaitSteerAfterCompletion
            &&& c.phase == TurnPhase::Streaming ==> r.control.phase == TurnPhase::Streaming
        }),
{
    let a = turn_step(c, input).actions;
    if c.phase == TurnPhase::Streaming {
        reveal(streaming_step);
        reveal(answer_step);
        if c.supervisor_run {
            assert(a[0] == say(TurnYield::TaskCompleted));
        } else {
            assert(a[0] == TurnAction::PushSteer && a[1] == say(TurnYield::TaskCompleted));
        }
    } else {
        reveal(completion_step);
        reveal(background_step);
        reveal(announce_or_check);
        reveal(waiting_step);
        reveal(announce_completion);
        if c.supervisor_run {
            assert(a[0] == say(TurnYield::TaskCompleted));
            assert(a[1] == TurnAction::Next(NextContent::TaskCompletion));
        } else {
            assert(a[0] == TurnAction::PushSteer && a[1] == say(TurnYield::TaskCompleted));
            assert(a[2] == TurnAction::DrainSteer);
        }
    }
}

/// Before a turn asks whether a task still runs, it has looked for one that has
/// finished, for steering input where it takes any, and for one of which nobody was
/// told: each search that finds nothing leads to the next.
pub proof fn every_search_leads_to_the_next(c: TurnControl)
    ensures
        c.phase == TurnPhase::AwaitBackgroundCount ==> does(
            turn_step(c, TurnInput::BackgroundCount(false)).actions,
            TurnAction::PollCompleted,
        ) && does(
            turn_step(c, TurnInput::BackgroundCount(true)).actions,
            TurnAction::PollCompleted,
        ) && does(
            turn_step(c, TurnInput::BackgroundCount(true)).actions,
            say(TurnYield::BackgroundTasksWaiting),
        ),
        c.phase == TurnPhase::AwaitCompleted && !c.supervisor_run ==> does(
            turn_step(c, TurnInput::Completed(Completion::Nothing)).actions,
            TurnAction::DrainSteer,
        ) && turn_step(c, TurnInput::Completed(Completion::Nothing)).control.phase
            == TurnPhase::AwaitSteerInBackground,
        c.phase == TurnPhase::AwaitCompleted && c.supervisor_run ==> does(
            turn_step(c, TurnInput::Completed(Completion::Nothing)).actions,
            TurnAction::ClaimPending,
        ) && turn_step(c, TurnInput::Completed(Completion::Nothing)).control.phase
            == TurnPhase::AwaitPending,
        c.phase == TurnPhase::AwaitSteerInBackground ==> does(
            turn_step(c, TurnInput::Steer(false)).actions,
            TurnAction::ClaimPending,
        ) && turn_step(c, TurnInput::Steer(false)).control.phase == TurnPhase::AwaitPending,
        c.phase == TurnPhase::AwaitPending ==> does(
            turn_step(c, TurnInput::Pending(false)).actions,
            TurnAction::CheckRunning,
        ) && turn_step(c, TurnInput::Pending(false)).control.phase == TurnPhase::AwaitRunning,
{
    reveal(completion_step);
    reveal(background_step);
    reveal(announce_or_check);
    reveal(poll_background);
    reveal(no_completion);
    if c.phase == TurnPhase::AwaitBackgroundCount {
        assert(turn_step(c, TurnInput::BackgroundCount(false)).actions[1]
            == TurnAction::PollCompleted);
        let a = turn_step(c, TurnInput::BackgroundCount(true)).actions;
        assert(a[0] == say(TurnYield::BackgroundTasksWaiting) && a[2]
            == TurnAction::PollCompleted);
    } else if c.phase == TurnPhase::AwaitCompleted {
        let a = turn_step(c, TurnInput::Completed(Completion::Nothing)).actions;
        assert(a[1] == TurnAction::DrainSteer || a[1] == TurnAction::ClaimPending);
    } else if c.phase == TurnPhase::AwaitSteerInBackground {
        assert(turn_step(c, TurnInput::Steer(false)).actions[0] == TurnAction::ClaimPending);
    } else if c.phase == TurnPhase::AwaitPending {
        assert(turn_step(c, TurnInput::Pending(false)).actions[0] == TurnAction::CheckRunning);
    }
}

/// A turn that is woken up looks for finished tasks again, unless it was cancelled,
/// a task finished or none can any more; a cancelled one stops its tasks and says
/// that it was cancelled before it says that it is done.
pub proof fn what_wakes_a_turn(c: TurnControl, mine: bool)
    requires
        c.phase == TurnPhase::Waiting,
    ensures
        does(turn_step(c, TurnInput::WokenBySteer).actions, TurnAction::PollCompleted),
        does(turn_step(c, TurnInput::WokenBySideEvent(mine)).actions, TurnAction::PollCompleted),
        mine == does(turn_step(c, TurnInput::WokenBySideEvent(mine)).actions, say(
            TurnYield::Forward,
        )),
        does(
            turn_step(c, TurnInput::WokenByTask(Completion::AlreadyTold)).actions,
            TurnAction::PollCompleted,
        ),
        turn_step(c, TurnInput::WokenByCancel).actions == seq![
            TurnAction::CancelBackgroundTasks,
            say(TurnYield::Cancelled),
            say(TurnYield::Done),
        ],
        turn_step(c, TurnInput::WokenByCancel).control.phase == TurnPhase::Finished,
{
    reveal(waiting_step);
    reveal(poll_background);
    assert(turn_step(c, TurnInput::WokenBySteer).actions[1] == TurnAction::PollCompleted);
    assert(turn_step(c, TurnInput::WokenByTask(Completion::AlreadyTold)).actions[1]
        == TurnAction::PollCompleted);
    let a = turn_step(c, TurnInput::WokenBySideEvent(mine)).actions;
    if mine {
        assert(a[0] == say(TurnYield::Forward) && a[2] == TurnAction::PollCompleted);
    } else {
        assert(a[1] == TurnAction::PollCompleted);
    }
}

// ------------------------------------------------------------------------- steering

/// The phases in which a turn waits for steering input.
pub open spec fn takes_steering(phase: TurnPhase) -> bool {
    match phase {
        TurnPhase::AwaitSteerAfterSave
        | TurnPhase::AwaitSteerAfterCompletion
        | TurnPhase::AwaitSteerInBackground
        | TurnPhase::AwaitFinalSteer => true,
        _ => false,
    }
}

/// Steering input is never lost: wherever a turn finds some, it tells of it, and the
/// next round is about it. That round is not one of the supervisor.
pub proof fn steering_makes_the_next_round(c: TurnControl)
    requires
        takes_steering(c.phase),
    ensures
        ({
            let r = turn_step(c, TurnInput::Steer(true));
            &&& does(r.actions, say(TurnYield::SteerInjected))
            &&& does(r.actions, TurnAction::Next(NextContent::Steer))
            &&& !does(r.actions, say(TurnYield::Done))
            &&& r.control.phase == TurnPhase::RoundStart
            &&& !r.control.from_supervisor
            &&& r.control.from_background
            &&& r.control.supervisor_round == c.supervisor_round
        }),
{
    reveal(completion_step);
    reveal(background_step);
    reveal(end_step);
    reveal(inject_steer);
    let a = turn_step(c, TurnInput::Steer(true)).actions;
    assert(a[0] == say(TurnYield::SteerInjected) && a[1] == TurnAction::Next(NextContent::Steer));
    assert(a.len() == 2);
}

/// A turn that takes steering input looks for it once a round is saved and again
/// before it ends.
pub proof fn steering_is_looked_for_before_the_end(c: TurnControl)
    requires
        !c.supervisor_run,
    ensures
        c.phase == TurnPhase::Streaming ==> turn_step(c, TurnInput::Done).control.phase
            == TurnPhase::AwaitSteerAfterSave && does(
            turn_step(c, TurnInput::Done).actions,
            TurnAction::DrainSteer,
        ),
        c.phase == TurnPhase::AwaitStopHook ==> turn_step(
            c,
            TurnInput::StopHook(false),
        ).control.phase == TurnPhase::AwaitFinalSteer && does(
            turn_step(c, TurnInput::StopHook(false)).actions,
            TurnAction::DrainSteer,
        ),
        c.phase == TurnPhase::AwaitFinalSteer ==> turn_step(c, TurnInput::Steer(false)).actions
            == seq![say(TurnYield::Done)],
{
    if c.phase == TurnPhase::Streaming {
        reveal(streaming_step);
        reveal(complete_round);
        let a = turn_step(c, TurnInput::Done).actions;
        assert(a[a.len() - 1] == TurnAction::DrainSteer);
    } else {
        reveal(end_step);
        reveal(finish);
        if c.phase == TurnPhase::AwaitStopHook {
            assert(turn_step(c, TurnInput::StopHook(false)).actions[0] == TurnAction::DrainSteer);
        }
    }
}

// ----------------------------------------------------------------- the model's answer

/// What the model does while it answers is handed on as it comes, and noted for
/// the case that the answer is cut off; a tool's result with the time it took. The
/// turn goes on listening.
pub proof fn what_the_model_says_is_handed_on(c: TurnControl, input: TurnInput)
    requires
        c.phase == TurnPhase::Streaming,
        input == TurnInput::Progress || input == TurnInput::ToolResult || input
            == TurnInput::Other || input == TurnInput::SideEvent(true),
    ensures
        ({
            let r = turn_step(c, input);
            &&& does(r.actions, say(TurnYield::Forward))
            &&& input == TurnInput::Progress || input == TurnInput::ToolResult ==> does(
                r.actions,
                TurnAction::Record,
            )
            &&& input == TurnInput::ToolResult ==> does(r.actions, TurnAction::RecordElapsed)
            &&& r.control == c
        }),
{
    reveal(streaming_step);
    reveal(answer_step);
    let a = turn_step(c, input).actions;
    assert(a[a.len() - 1] == say(TurnYield::Forward));
    if input == TurnInput::Progress {
        assert(a[0] == TurnAction::Record);
    } else if input == TurnInput::ToolResult {
        assert(a[0] == TurnAction::RecordElapsed && a[1] == TurnAction::Record);
    }
}

/// The history and the states that the model's run hands out are kept, and each
/// new state is written at once.
pub proof fn what_the_run_leaves_is_kept(c: TurnControl)
    requires
        c.phase == TurnPhase::Streaming,
    ensures
        does(turn_step(c, TurnInput::History).actions, TurnAction::KeepHistory),
        turn_step(c, TurnInput::History).control == (TurnControl { has_state: true, ..c }),
        does(turn_step(c, TurnInput::StateUpdate).actions, TurnAction::KeepState),
        does(turn_step(c, TurnInput::StateUpdate).actions, TurnAction::SaveState),
        turn_step(c, TurnInput::StateUpdate).control == (TurnControl { has_state: true, ..c }),
{
    reveal(streaming_step);
    reveal(answer_step);
    let a = turn_step(c, TurnInput::History).actions;
    assert(a[a.len() - 1] == TurnAction::KeepHistory);
    let b = turn_step(c, TurnInput::StateUpdate).actions;
    assert(b[b.len() - 2] == TurnAction::KeepState && b[b.len() - 1] == TurnAction::SaveState);
}

/// However the model's run ends, the round is saved: as it is where the run was
/// complete, failed or ended, and with its unfinished answer where it was cancelled.
/// An error is told, and ends the turn.
pub proof fn every_end_of_a_run_saves_the_round(c: TurnControl)
    requires
        c.phase == TurnPhase::Streaming,
    ensures
        does(turn_step(c, TurnInput::Done).actions, TurnAction::Save),
        does(turn_step(c, TurnInput::Failed).actions, TurnAction::Save),
        does(turn_step(c, TurnInput::Failed).actions, say(TurnYield::Error)),
        turn_step(c, TurnInput::Failed).control.phase == TurnPhase::Finished,
        does(turn_step(c, TurnInput::Ended).actions, TurnAction::Save),
        turn_step(c, TurnInput::Ended).control.phase == TurnPhase::Finished,
        does(turn_step(c, TurnInput::Cancelled).actions, TurnAction::CancelBackgroundTasks),
        c.supervisor_run ==> does(
            turn_step(c, TurnInput::Cancelled).actions,
            TurnAction::SaveCancelled,
        ),
        !c.supervisor_run ==> turn_step(c, TurnInput::Cancelled).control.phase
            == TurnPhase::AwaitCancelPause,
{
    reveal(streaming_step);
    reveal(save_cancelled);
    assert(turn_step(c, TurnInput::Failed).actions[0] == TurnAction::Save);
    assert(turn_step(c, TurnInput::Failed).actions[1] == say(TurnYield::Error));
    assert(turn_step(c, TurnInput::Ended).actions[0] == TurnAction::Save);
    let a = turn_step(c, TurnInput::Cancelled).actions;
    assert(a[0] == TurnAction::CancelBackgroundTasks);
    if c.supervisor_run {
        assert(a[1] == TurnAction::SaveCancelled);
    }
    lemma_done_saves(c);
}

proof fn lemma_done_saves(c: TurnControl)
    requires
        c.phase == TurnPhase::Streaming,
    ensures
        does(turn_step(c, TurnInput::Done).actions, TurnAction::Save),
{
    reveal(streaming_step);
    reveal(complete_round);
    let a = turn_step(c, TurnInput::Done).actions;
    let n: int = if c.workflow_changed {
        if c.has_state {
            2
        } else {
            1
        }
    } else {
        0
    };
    assert(a[n] == TurnAction::Save);
}

/// A question to the user pauses the workflow and its answer lets it go on; both
/// are handed on, and where the workflow changed, that is told. An interruption
/// pauses it too; the model's run goes on.
pub proof fn questions_and_interruptions_reach_the_workflow(c: TurnControl, changed: bool)
    requires
        !c.supervisor_run,
    ensures
        c.phase == TurnPhase::Streaming ==> {
            &&& turn_step(c, TurnInput::QuestionRequested).actions == seq![
                TurnAction::PauseForInput(c.supervisor_round),
            ]
            &&& turn_step(c, TurnInput::QuestionRequested).control.question_requested
            &&& turn_step(c, TurnInput::QuestionResolved).actions == seq![
                TurnAction::ResumeFromInput(c.supervisor_round),
            ]
            &&& turn_step(c, TurnInput::UserInterrupted).actions == seq![
                TurnAction::PauseInterrupted(c.supervisor_round),
            ]
            &&& turn_step(c, TurnInput::UserInterrupted).control.interrupted
        },
        c.phase == TurnPhase::AwaitInputPause ==> {
            let r = turn_step(c, TurnInput::Paused(changed));
            &&& does(r.actions, say(TurnYield::Forward))
            &&& changed == does(r.actions, say(TurnYield::Report))
            &&& r.control.phase == TurnPhase::Streaming
            &&& changed ==> r.control.workflow_changed
        },
        c.phase == TurnPhase::AwaitInputResume ==> {
            let r = turn_step(c, TurnInput::Resumed(changed));
            &&& does(r.actions, say(TurnYield::Forward))
            &&& changed == does(r.actions, say(TurnYield::Report))
            &&& r.control.phase == TurnPhase::Streaming
            &&& changed ==> r.control.workflow_changed
        },
        c.phase == TurnPhase::AwaitInterruptPause ==> {
            let r = turn_step(c, TurnInput::Paused(changed));
            &&& changed == does(r.actions, say(TurnYield::Report))
            &&& changed == does(r.actions, TurnAction::MergeWorkflow)
            &&& r.control.phase == TurnPhase::Streaming
            &&& changed ==> r.control.workflow_changed && r.control.has_state
        },
{
    reveal(streaming_step);
    reveal(workflow_step);
    reveal(question_step);
    if c.phase == TurnPhase::AwaitInputPause {
        let a = turn_step(c, TurnInput::Paused(changed)).actions;
        assert(a[a.len() - 1] == say(TurnYield::Forward));
        if changed {
            assert(a[a.len() - 2] == say(TurnYield::Report));
        }
    } else if c.phase == TurnPhase::AwaitInputResume {
        let a = turn_step(c, TurnInput::Resumed(changed)).actions;
        assert(a[a.len() - 1] == say(TurnYield::Forward));
        if changed {
            assert(a[a.len() - 2] == say(TurnYield::Report));
        }
    } else if c.phase == TurnPhase::AwaitInterruptPause && changed {
        let a = turn_step(c, TurnInput::Paused(changed)).actions;
        assert(a[1] == TurnAction::MergeWorkflow && a[2] == say(TurnYield::Report));
    }
}

// ------------------------------------------------------------------- further rounds

/// The round that the supervisor or the stop hook asks for is run: what the
/// supervisor decided is told, the next round says what it was given, it counts as
/// one of the supervisor, and it is one more.
pub proof fn whoever_asks_for_a_round_gets_one(c: TurnControl)
    ensures
        c.phase == TurnPhase::AwaitEvaluation ==> {
            let r = turn_step(c, TurnInput::Evaluated(Evaluation::Continue));
            &&& r.actions == seq![
                say(TurnYield::Report),
                TurnAction::Next(NextContent::Supervisor),
            ]
            &&& r.control.phase == TurnPhase::RoundStart
            &&& r.control.from_supervisor
            &&& r.control.supervisor_round == next_round_number(c.supervisor_round)
        },
        c.phase == TurnPhase::AwaitStopHook ==> {
            let r = turn_step(c, TurnInput::StopHook(true));
            &&& r.actions == seq![TurnAction::Next(NextContent::StopHook)]
            &&& r.control.phase == TurnPhase::RoundStart
            &&& r.control.from_supervisor
            &&& r.control.stop_hook_active
            &&& r.control.supervisor_round == next_round_number(c.supervisor_round)
        },
        c.supervisor_round < u32::MAX ==> next_round_number(c.supervisor_round)
            == c.supervisor_round + 1,
{
    reveal(evaluation_step);
    reveal(end_step);
    let a = turn_step(c, TurnInput::Evaluated(Evaluation::Continue)).actions;
    if c.phase == TurnPhase::AwaitEvaluation {
        assert(a =~= seq![say(TurnYield::Report), TurnAction::Next(NextContent::Supervisor)]);
    }
}

/// A report of the supervisor is told and starts no round; a stopped supervisor
/// ends the turn, which says so.
pub proof fn what_an_evaluation_tells(c: TurnControl)
    requires
        c.phase == TurnPhase::AwaitEvaluation,
    ensures
        does(turn_step(c, TurnInput::Evaluated(Evaluation::Report)).actions, say(
            TurnYield::Report,
        )),
        ends_soon(turn_step(c, TurnInput::Evaluated(Evaluation::Report)).control.phase),
        ends_soon(turn_step(c, TurnInput::Evaluated(Evaluation::NoWorkflow)).control.phase),
        turn_step(c, TurnInput::Evaluated(Evaluation::Cancelled)).actions == seq![
            say(TurnYield::Cancelled),
            say(TurnYield::Done),
        ],
        turn_step(c, TurnInput::Evaluated(Evaluation::Cancelled)).control.phase
            == TurnPhase::Finished,
        turn_step(c, TurnInput::SupervisorProgress).actions == seq![
            say(TurnYield::SupervisorProgress),
        ],
        turn_step(c, TurnInput::SupervisorProgress).control == c,
{
    reveal(evaluation_step);
    lemma_later_phases(c);
    assert(turn_step(c, TurnInput::Evaluated(Evaluation::Report)).actions[0] == say(
        TurnYield::Report,
    ));
}

/// Whether `r` asks the supervisor about the round at hand.
pub open spec fn asks_now(c: TurnControl, r: TurnStep) -> bool {
    does(r.actions, TurnAction::EvaluateWorkflow(c.supervisor_round)) && r.control.phase
        == TurnPhase::AwaitEvaluation
}

/// A round in which the user was not asked anything and did not interrupt is looked
/// at by the supervisor: at once where no task may outlive it, else once no task
/// runs any more or can finish.
pub proof fn undisturbed_rounds_are_evaluated(c: TurnControl)
    requires
        !c.supervisor_run,
        !c.question_requested,
        !c.interrupted,
    ensures
        c.phase == TurnPhase::AwaitSteerAfterSave && !c.async_agent ==> asks_now(
            c,
            turn_step(c, TurnInput::Steer(false)),
        ),
        c.phase == TurnPhase::AwaitRunning ==> asks_now(c, turn_step(c, TurnInput::Running(false))),
        c.phase == TurnPhase::Waiting ==> asks_now(c, turn_step(c, TurnInput::WokenByClose)),
{
    reveal(completion_step);
    reveal(after_save);
    reveal(background_step);
    reveal(wait_or_supervise);
    reveal(waiting_step);
    reveal(supervise);
    assert(supervise(c).actions[0] == TurnAction::EvaluateWorkflow(c.supervisor_round));
}

/// The stop hook is run before a turn ends, unless it has had its round: after an
/// evaluation that starts none, and where nothing is evaluated.
pub proof fn the_stop_hook_is_asked_before_the_end(c: TurnControl)
    requires
        !c.stop_hook_active,
    ensures
        c.phase == TurnPhase::AwaitEvaluation ==> does(
            turn_step(c, TurnInput::Evaluated(Evaluation::NoWorkflow)).actions,
            TurnAction::RunStopHook,
        ) && does(
            turn_step(c, TurnInput::Evaluated(Evaluation::Report)).actions,
            TurnAction::RunStopHook,
        ),
        c.phase == TurnPhase::AwaitSteerAfterSave && !c.async_agent && (c.supervisor_run
            || c.question_requested || c.interrupted) ==> does(
            turn_step(c, TurnInput::Steer(false)).actions,
            TurnAction::RunStopHook,
        ),
        c.phase == TurnPhase::AwaitRunning && (c.supervisor_run || c.question_requested
            || c.interrupted) ==> does(
            turn_step(c, TurnInput::Running(false)).actions,
            TurnAction::RunStopHook,
        ),
{
    reveal(evaluation_step);
    reveal(completion_step);
    reveal(after_save);
    reveal(background_step);
    reveal(wait_or_supervise);
    reveal(supervise);
    reveal(stop_hook);
    assert(stop_hook(c).actions[0] == TurnAction::RunStopHook);
    if c.phase == TurnPhase::AwaitEvaluation {
        assert(turn_step(c, TurnInput::Evaluated(Evaluation::Report)).actions[1]
            == TurnAction::RunStopHook);
    }
}

// -------------------------------------------------------------------------- beginning

/// Every round is prepared and then run. In the first round of a turn of the user a
/// workflow that was interrupted may go on first, which is told.
pub proof fn rounds_are_prepared_and_run(c: TurnControl, flag: bool)
    ensures
        c.phase == TurnPhase::RoundStart && (c.resume_checked || c.supervisor_run) ==> turn_step(
            c,
            TurnInput::Begin,
        ).actions == seq![TurnAction::Prepare],
        c.phase == TurnPhase::RoundStart && !c.resume_checked && !c.supervisor_run ==> turn_step(
            c,
            TurnInput::Begin,
        ).actions == seq![TurnAction::ResumeInterrupted(c.supervisor_round)] && turn_step(
            c,
            TurnInput::Begin,
        ).control.phase == TurnPhase::AwaitResume,
        c.phase == TurnPhase::AwaitResume ==> {
            let r = turn_step(c, TurnInput::Resumed(flag));
            &&& does(r.actions, TurnAction::Prepare)
            &&& flag == does(r.actions, say(TurnYield::Report))
            &&& r.control.phase == TurnPhase::Preparing
        },
        c.phase == TurnPhase::Preparing ==> {
            let r = turn_step(c, TurnInput::Prepared(flag));
            &&& does(r.actions, TurnAction::StartRun)
            &&& does(r.actions, say(TurnYield::InitialState))
            &&& flag == does(r.actions, say(TurnYield::Snapshot))
            &&& r.control.phase == TurnPhase::Streaming
            &&& !r.control.question_requested && !r.control.interrupted
            &&& !r.control.workflow_changed && !r.control.has_state && !r.control.saved
        },
        c.phase == TurnPhase::Preparing ==> turn_step(c, TurnInput::PrepareFailed).actions
            == seq![say(TurnYield::Error)] && turn_step(c, TurnInput::OverBudget).actions == seq![
            TurnAction::SaveFailedTurn,
            say(TurnYield::Error),
        ],
{
    reveal(start_step);
    if c.phase == TurnPhase::AwaitResume {
        let a = turn_step(c, TurnInput::Resumed(flag)).actions;
        assert(a[a.len() - 1] == TurnAction::Prepare);
        if flag {
            assert(a[0] == say(TurnYield::Report));
        }
    } else if c.phase == TurnPhase::Preparing {
        let a = turn_step(c, TurnInput::Prepared(flag)).actions;
        assert(a[a.len() - 1] == TurnAction::StartRun);
        assert(a[a.len() - 2] == say(TurnYield::InitialState));
        if flag {
            assert(a[0] == say(TurnYield::Snapshot));
        }
    }
}

/// A turn starts as the user's: with its first round, in which nothing happened yet.
pub proof fn a_turn_starts_as_the_users(supervisor_run: bool, async_agent: bool)
    ensures
        ({
            let c = new_turn(supervisor_run, async_agent);
            &&& c.phase == TurnPhase::RoundStart
            &&& c.supervisor_run == supervisor_run
            &&& c.async_agent == async_agent
            &&& c.supervisor_round == 0
            &&& !c.from_supervisor && !c.from_background
            &&& !c.stop_hook_active && !c.resume_checked
            &&& !c.question_requested && !c.interrupted && !c.workflow_changed
            &&& !c.has_state && !c.saved
        }),
{
}

} // verus!
