//! A task that another agent works on: in which order it is done.
use vstd::prelude::*;

verus! {

/// How far a task is.
#[derive(Debug, Clone, Copy, PartialEq, Eq, Structural)]
pub enum SubAgentPhase {
    Begin,
    /// The hook for the start of the task is being asked.
    StartHook,
    /// The session is being loaded.
    Loading,
    /// The other agent runs.
    Running,
    /// The hook for the end of the task is being asked.
    StopHook,
    /// The session is being loaded for one more pass.
    Reloading,
    Over,
}

/// What happens to a task.
#[derive(Debug, Clone, Copy, PartialEq, Eq, Structural)]
pub enum SubAgentInput {
    Begin,
    /// The hook for the start has answered.
    StartHooked,
    /// The session was loaded, and whether the machine was described in it for
    /// the first time.
    Loaded { described: bool },
    /// The session could not be loaded.
    NotLoaded,
    /// The history and the state of the run.
    History,
    /// A new state.
    StateUpdate,
    Text,
    /// What the caller sees as it is: reasoning, or the course of a tool call.
    Relayed,
    /// An approval or a question, on its way.
    Marker,
    /// Any other event of the run.
    Other,
    /// The other agent is done.
    Done,
    /// The hook for the end has answered, and whether it wants more.
    StopHooked { wants_more: bool },
    /// The session was loaded again, as far as it could be.
    Reloaded,
    /// The run failed.
    Failed,
    /// The run ended without saying so.
    Ended,
}

/// What is done about a task.
#[derive(Debug, Clone, Copy, PartialEq, Eq, Structural)]
pub enum SubAgentAction {
    /// The session is kept from other tasks until this one is over.
    LockSession,
    RunStartHook,
    /// The caller sees that the task starts.
    ShowStart,
    LoadSession,
    /// The description of the machine is written to the session.
    SaveDescription,
    /// The other agent is run.
    RunAgent,
    /// What is new is written to the session.
    Save,
    /// What is new is kept until the task is over.
    Keep,
    /// The caller sees what happened.
    Show,
    RunStopHook,
    /// The caller sees what went wrong.
    ShowError,
    /// The caller sees that the task is done.
    ShowDone,
    /// The caller is told what came of the task.
    GiveResult,
}

/// A task while it is worked on.
#[derive(Debug, Clone, Copy, PartialEq, Eq, Structural)]
pub struct SubAgentTurn {
    pub phase: SubAgentPhase,
    /// Whether the session goes on after the task.
    pub persistent: bool,
    /// Whether the hook for the end has had one more pass.
    pub stop_hook_active: bool,
}

/// A task after a step, and what is done in it, in this order.
#[derive(Debug)]
pub struct SubAgentMade {
    pub turn: SubAgentTurn,
    pub actions: Vec<SubAgentAction>,
}

// -------------------------------------------------------------- specification

pub open spec fn saved_or_kept(turn: SubAgentTurn) -> SubAgentAction {
    if turn.persistent {
        SubAgentAction::Save
    } else {
        SubAgentAction::Keep
    }
}

/// What a session that goes on has written before anything else is done.
pub open spec fn saved_first(turn: SubAgentTurn, rest: Seq<SubAgentAction>) -> Seq<
    SubAgentAction,
> {
    if turn.persistent {
        seq![SubAgentAction::Save] + rest
    } else {
        rest
    }
}

pub open spec fn done_well() -> Seq<SubAgentAction> {
    seq![SubAgentAction::ShowDone, SubAgentAction::GiveResult]
}

pub open spec fn done_badly() -> Seq<SubAgentAction> {
    seq![SubAgentAction::ShowError, SubAgentAction::GiveResult]
}

pub open spec fn at(turn: SubAgentTurn, phase: SubAgentPhase) -> SubAgentTurn {
    SubAgentTurn { phase, ..turn }
}

/// What follows while the other agent runs.
pub open spec fn in_run(turn: SubAgentTurn, input: SubAgentInput) -> (
    SubAgentTurn,
    Seq<SubAgentAction>,
) {
    match input {
        SubAgentInput::History | SubAgentInput::StateUpdate => (turn, seq![saved_or_kept(turn)]),
        SubAgentInput::Text | SubAgentInput::Relayed | SubAgentInput::Marker => (
            turn,
            seq![SubAgentAction::Show],
        ),
        SubAgentInput::Done => (
            at(turn, SubAgentPhase::StopHook),
            saved_first(turn, seq![SubAgentAction::RunStopHook]),
        ),
        SubAgentInput::Failed => (
            at(turn, SubAgentPhase::Over),
            saved_first(turn, done_badly()),
        ),
        SubAgentInput::Ended => (at(turn, SubAgentPhase::Over), done_well()),
        _ => (turn, Seq::empty()),
    }
}

/// One step of a task. What does not belong to its phase changes nothing.
pub open spec fn next(turn: SubAgentTurn, input: SubAgentInput) -> (
    SubAgentTurn,
    Seq<SubAgentAction>,
) {
    match (turn.phase, input) {
        (SubAgentPhase::Begin, SubAgentInput::Begin) => (
            at(turn, SubAgentPhase::StartHook),
            if turn.persistent {
                seq![SubAgentAction::LockSession, SubAgentAction::RunStartHook]
            } else {
                seq![SubAgentAction::RunStartHook]
            },
        ),
        (SubAgentPhase::StartHook, SubAgentInput::StartHooked) => if turn.persistent {
            (
                at(turn, SubAgentPhase::Loading),
                seq![SubAgentAction::ShowStart, SubAgentAction::LoadSession],
            )
        } else {
            (
                at(turn, SubAgentPhase::Running),
                seq![SubAgentAction::ShowStart, SubAgentAction::RunAgent],
            )
        },
        (SubAgentPhase::Loading, SubAgentInput::Loaded { described }) => (
            at(turn, SubAgentPhase::Running),
            if described {
                seq![SubAgentAction::SaveDescription, SubAgentAction::RunAgent]
            } else {
                seq![SubAgentAction::RunAgent]
            },
        ),
        (SubAgentPhase::Loading, SubAgentInput::NotLoaded) => (
            at(turn, SubAgentPhase::Over),
            done_badly(),
        ),
        (SubAgentPhase::Running, _) => in_run(turn, input),
        (SubAgentPhase::StopHook, SubAgentInput::StopHooked { wants_more }) => if wants_more
            && !turn.stop_hook_active {
            let again = SubAgentTurn { stop_hook_active: true, ..turn };
            if turn.persistent {
                (at(again, SubAgentPhase::Reloading), seq![SubAgentAction::LoadSession])
            } else {
                (at(again, SubAgentPhase::Running), seq![SubAgentAction::RunAgent])
            }
        } else {
            (at(turn, SubAgentPhase::Over), done_well())
        },
        (SubAgentPhase::Reloading, SubAgentInput::Reloaded) => (
            at(turn, SubAgentPhase::Running),
            seq![SubAgentAction::RunAgent],
        ),
        _ => (turn, Seq::empty()),
    }
}

// ----------------------------------------------------------------------- steps

fn made(turn: SubAgentTurn, phase: SubAgentPhase, actions: Vec<SubAgentAction>) -> (r: SubAgentMade)
    ensures
        r.turn == at(turn, phase),
        r.actions@ == actions@,
{
    SubAgentMade { turn: SubAgentTurn { phase, ..turn }, actions }
}

impl SubAgentTurn {
    pub fn new(persistent: bool) -> (r: SubAgentTurn)
        ensures
            r == (SubAgentTurn {
                phase: SubAgentPhase::Begin,
                persistent,
                stop_hook_active: false,
            }),
    {
        SubAgentTurn { phase: SubAgentPhase::Begin, persistent, stop_hook_active: false }
    }

    fn run_step(self, input: SubAgentInput) -> (r: SubAgentMade)
        requires
            self.phase is Running,
        ensures
            (r.turn, r.actions@) == in_run(self, input),
    {
        let mut actions: Vec<SubAgentAction> = Vec::new();
        let mut phase = SubAgentPhase::Running;
        match input {
            SubAgentInput::History | SubAgentInput::StateUpdate => {
                actions.push(
                    if self.persistent {
                        SubAgentAction::Save
                    } else {
                        SubAgentAction::Keep
                    },
                );
            },
            SubAgentInput::Text | SubAgentInput::Relayed | SubAgentInput::Marker => {
                actions.push(SubAgentAction::Show);
            },
            SubAgentInput::Done => {
                if self.persistent {
                    actions.push(SubAgentAction::Save);
                }
                actions.push(SubAgentAction::RunStopHook);
                phase = SubAgentPhase::StopHook;
            },
            SubAgentInput::Failed => {
                if self.persistent {
                    actions.push(SubAgentAction::Save);
                }
                actions.push(SubAgentAction::ShowError);
                actions.push(SubAgentAction::GiveResult);
                phase = SubAgentPhase::Over;
            },
            SubAgentInput::Ended => {
                actions.push(SubAgentAction::ShowDone);
                actions.push(SubAgentAction::GiveResult);
                phase = SubAgentPhase::Over;
            },
            _ => {},
        }
        let r = made(self, phase, actions);
        assert(r.actions@ =~= in_run(self, input).1);
        r
    }

    /// Goes one step further: what happened is taken in, and what is to be done
    /// about it is said.
    pub fn step(self, input: SubAgentInput) -> (r: SubAgentMade)
        ensures
            (r.turn, r.actions@) == next(self, input),
    {
        let ghost goal = next(self, input).1;
        let mut actions: Vec<SubAgentAction> = Vec::new();
        let r = match (self.phase, input) {
            (SubAgentPhase::Begin, SubAgentInput::Begin) => {
                if self.persistent {
                    actions.push(SubAgentAction::LockSession);
                }
                actions.push(SubAgentAction::RunStartHook);
                made(self, SubAgentPhase::StartHook, actions)
            },
            (SubAgentPhase::StartHook, SubAgentInput::StartHooked) => {
                actions.push(SubAgentAction::ShowStart);
                if self.persistent {
                    actions.push(SubAgentAction::LoadSession);
                    made(self, SubAgentPhase::Loading, actions)
                } else {
                    actions.push(SubAgentAction::RunAgent);
                    made(self, SubAgentPhase::Running, actions)
                }
            },
            (SubAgentPhase::Loading, SubAgentInput::Loaded { described }) => {
                if described {
                    actions.push(SubAgentAction::SaveDescription);
                }
                actions.push(SubAgentAction::RunAgent);
                made(self, SubAgentPhase::Running, actions)
            },
            (SubAgentPhase::Loading, SubAgentInput::NotLoaded) => {
                actions.push(SubAgentAction::ShowError);
                actions.push(SubAgentAction::GiveResult);
                made(self, SubAgentPhase::Over, actions)
            },
            (SubAgentPhase::Running, _) => self.run_step(input),
            (SubAgentPhase::StopHook, SubAgentInput::StopHooked { wants_more }) => {
                if wants_more && !self.stop_hook_active {
                    let again = SubAgentTurn { stop_hook_active: true, ..self };
                    if self.persistent {
                        actions.push(SubAgentAction::LoadSession);
                        made(again, SubAgentPhase::Reloading, actions)
                    } else {
                        actions.push(SubAgentAction::RunAgent);
                        made(again, SubAgentPhase::Running, actions)
                    }
                } else {
                    actions.push(SubAgentAction::ShowDone);
                    actions.push(SubAgentAction::GiveResult);
                    made(self, SubAgentPhase::Over, actions)
                }
            },
            (SubAgentPhase::Reloading, SubAgentInput::Reloaded) => {
                actions.push(SubAgentAction::RunAgent);
                made(self, SubAgentPhase::Running, actions)
            },
            _ => made(self, self.phase, actions),
        };
        assert(r.actions@ =~= goal);
        r
    }
}

// ------------------------------------------------------------------------ laws

/// The caller is told what came of a task once, and as the last of it: a task is
/// over exactly when that was done, and then nothing more is.
pub proof fn a_task_ends_with_its_result(turn: SubAgentTurn, input: SubAgentInput)
    ensures
        ({
            let (after, actions) = next(turn, input);
            &&& turn.phase is Over ==> after == turn && actions.len() == 0
            &&& !(turn.phase is Over) ==> (after.phase is Over <==> actions.contains(
                SubAgentAction::GiveResult,
            ))
            &&& actions.contains(SubAgentAction::GiveResult) ==> actions.last()
                == SubAgentAction::GiveResult
        }),
{
    let (after, actions) = next(turn, input);
    if !(turn.phase is Over) && after.phase is Over {
        assert(actions[actions.len() - 1] == SubAgentAction::GiveResult);
    }
    if actions.contains(SubAgentAction::GiveResult) {
        let i = choose|i: int|
            0 <= i < actions.len() && actions[i] == SubAgentAction::GiveResult;
        assert(actions[i] == SubAgentAction::GiveResult);
    }
}

/// How often the other agent can still be run.
pub open spec fn runs_left(turn: SubAgentTurn) -> nat {
    match turn.phase {
        SubAgentPhase::Begin | SubAgentPhase::StartHook | SubAgentPhase::Loading => if turn.stop_hook_active {
            1
        } else {
            2
        },
        SubAgentPhase::Running | SubAgentPhase::StopHook => if turn.stop_hook_active {
            0
        } else {
            1
        },
        SubAgentPhase::Reloading => 1,
        SubAgentPhase::Over => 0,
    }
}

/// The other agent is run twice at most: for the task, and for one more pass
/// where the hook wants it.
pub proof fn an_agent_runs_twice_at_most(turn: SubAgentTurn, input: SubAgentInput)
    requires
        turn.phase is Reloading ==> turn.stop_hook_active,
    ensures
        runs_left(SubAgentTurn {
            phase: SubAgentPhase::Begin,
            persistent: turn.persistent,
            stop_hook_active: false,
        }) == 2,
        ({
            let (after, actions) = next(turn, input);
            &&& after.phase is Reloading ==> after.stop_hook_active
            &&& runs_left(after) <= runs_left(turn)
            &&& actions.contains(SubAgentAction::RunAgent) ==> runs_left(after) < runs_left(turn)
        }),
{
    let (after, actions) = next(turn, input);
    if actions.contains(SubAgentAction::RunAgent) {
        let i = choose|i: int| 0 <= i < actions.len() && actions[i] == SubAgentAction::RunAgent;
        assert(actions[i] == SubAgentAction::RunAgent);
    }
}

/// Of a session that lasts for one task only nothing is written or read.
pub proof fn passing_sessions_leave_nothing(turn: SubAgentTurn, input: SubAgentInput)
    requires
        !turn.persistent,
        !(turn.phase is Loading),
        !(turn.phase is Reloading),
    ensures
        ({
            let (after, actions) = next(turn, input);
            &&& !after.persistent
            &&& !(after.phase is Loading) && !(after.phase is Reloading)
            &&& !actions.contains(SubAgentAction::Save)
            &&& !actions.contains(SubAgentAction::SaveDescription)
            &&& !actions.contains(SubAgentAction::LoadSession)
        }),
{
}

/// A session that goes on is kept from others and loaded before the agent runs; one
/// that does not is run as it is. The caller sees the start in either case.
pub proof fn sessions_are_loaded_before_they_run(turn: SubAgentTurn)
    ensures
        turn.phase is Begin ==> {
            let (after, actions) = next(turn, SubAgentInput::Begin);
            &&& actions.contains(SubAgentAction::RunStartHook)
            &&& actions.contains(SubAgentAction::LockSession) == turn.persistent
            &&& after.phase is StartHook
        },
        turn.phase is StartHook ==> {
            let (after, actions) = next(turn, SubAgentInput::StartHooked);
            &&& actions.contains(SubAgentAction::ShowStart)
            &&& actions.contains(SubAgentAction::LoadSession) == turn.persistent
            &&& actions.contains(SubAgentAction::RunAgent) == !turn.persistent
        },
        turn.phase is Loading ==> {
            &&& forall|described: bool| #[trigger]
                next(turn, SubAgentInput::Loaded { described }).1.contains(
                    SubAgentAction::SaveDescription,
                ) == described
            &&& forall|described: bool| #[trigger]
                next(turn, SubAgentInput::Loaded { described }).1.contains(
                    SubAgentAction::RunAgent,
                )
            &&& next(turn, SubAgentInput::NotLoaded).1.contains(SubAgentAction::ShowError)
            &&& next(turn, SubAgentInput::NotLoaded).0.phase is Over
        },
{
    let a = next(turn, SubAgentInput::Begin).1;
    let b = next(turn, SubAgentInput::StartHooked).1;
    if turn.phase is Begin {
        assert(a[a.len() - 1] == SubAgentAction::RunStartHook);
        if turn.persistent {
            assert(a[0] == SubAgentAction::LockSession);
        }
    }
    if turn.phase is StartHook {
        assert(b[0] == SubAgentAction::ShowStart);
        if turn.persistent {
            assert(b[1] == SubAgentAction::LoadSession);
        } else {
            assert(b[1] == SubAgentAction::RunAgent);
        }
    }
    if turn.phase is Loading {
        let yes = next(turn, SubAgentInput::Loaded { described: true }).1;
        let no = next(turn, SubAgentInput::Loaded { described: false }).1;
        assert(yes[0] == SubAgentAction::SaveDescription && yes[1] == SubAgentAction::RunAgent);
        assert(no[0] == SubAgentAction::RunAgent);
        let bad = next(turn, SubAgentInput::NotLoaded).1;
        assert(bad[0] == SubAgentAction::ShowError);
        assert forall|described: bool| #[trigger]
            next(turn, SubAgentInput::Loaded { described }).1.contains(SubAgentAction::RunAgent) by {
            if described {
            } else {
            }
        }
    }
}

/// While the agent runs, its words and the course of its tools are shown; what is
/// new in a session that goes on is saved, also where the run ends or fails; and the
/// hook for the end is asked when the agent is done.
pub proof fn a_run_is_shown_and_saved(turn: SubAgentTurn)
    requires
        turn.phase is Running,
    ensures
        next(turn, SubAgentInput::Text).1.contains(SubAgentAction::Show),
        next(turn, SubAgentInput::Relayed).1.contains(SubAgentAction::Show),
        next(turn, SubAgentInput::Marker).1.contains(SubAgentAction::Show),
        next(turn, SubAgentInput::History).1.contains(SubAgentAction::Save) == turn.persistent,
        next(turn, SubAgentInput::StateUpdate).1.contains(SubAgentAction::Save) == turn.persistent,
        next(turn, SubAgentInput::History).1.contains(SubAgentAction::Keep) == !turn.persistent,
        next(turn, SubAgentInput::StateUpdate).1.contains(SubAgentAction::Keep) == !turn.persistent,
        next(turn, SubAgentInput::Done).1.contains(SubAgentAction::Save) == turn.persistent,
        next(turn, SubAgentInput::Done).1.contains(SubAgentAction::RunStopHook),
        next(turn, SubAgentInput::Failed).1.contains(SubAgentAction::Save) == turn.persistent,
        next(turn, SubAgentInput::Failed).1.contains(SubAgentAction::ShowError),
        next(turn, SubAgentInput::Ended).1.contains(SubAgentAction::ShowDone),
{
    assert(next(turn, SubAgentInput::Text).1[0] == SubAgentAction::Show);
    assert(next(turn, SubAgentInput::Relayed).1[0] == SubAgentAction::Show);
    assert(next(turn, SubAgentInput::Marker).1[0] == SubAgentAction::Show);
    assert(next(turn, SubAgentInput::History).1[0] == saved_or_kept(turn));
    assert(next(turn, SubAgentInput::StateUpdate).1[0] == saved_or_kept(turn));
    let d = next(turn, SubAgentInput::Done).1;
    let f = next(turn, SubAgentInput::Failed).1;
    assert(d[d.len() - 1] == SubAgentAction::RunStopHook);
    assert(f[f.len() - 2] == SubAgentAction::ShowError);
    if turn.persistent {
        assert(d[0] == SubAgentAction::Save && f[0] == SubAgentAction::Save);
    }
    assert(next(turn, SubAgentInput::Ended).1[0] == SubAgentAction::ShowDone);
}

/// A hook for the end that wants more has the agent run once more, in a session that
/// is loaded again where it goes on; else the task is done, and the caller sees it.
pub proof fn the_hook_for_the_end_has_its_way_once(turn: SubAgentTurn, wants_more: bool)
    ensures
        turn.phase is StopHook ==> {
            let (after, actions) = next(turn, SubAgentInput::StopHooked { wants_more });
            if wants_more && !turn.stop_hook_active {
                &&& after.stop_hook_active
                &&& actions.contains(SubAgentAction::LoadSession) == turn.persistent
                &&& actions.contains(SubAgentAction::RunAgent) == !turn.persistent
            } else {
                after.phase is Over && actions.contains(SubAgentAction::ShowDone)
            }
        },
        turn.phase is Reloading ==> next(turn, SubAgentInput::Reloaded).1.contains(
            SubAgentAction::RunAgent,
        ),
{
    let a = next(turn, SubAgentInput::StopHooked { wants_more }).1;
    if turn.phase is StopHook {
        if wants_more && !turn.stop_hook_active {
            assert(a[0] == SubAgentAction::LoadSession || a[0] == SubAgentAction::RunAgent);
        } else {
            assert(a[0] == SubAgentAction::ShowDone);
        }
    }
    if turn.phase is Reloading {
        assert(next(turn, SubAgentInput::Reloaded).1[0] == SubAgentAction::RunAgent);
    }
}

} // verus!
