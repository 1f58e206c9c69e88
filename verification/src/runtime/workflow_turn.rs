//! The turns that begin with a workflow: one that starts it, and one that says
//! something while it runs.
use vstd::prelude::*;

use crate::runtime::turn::Evaluation;

verus! {

/// What a turn begins with.
#[derive(Debug, Clone, Copy, PartialEq, Eq, Structural)]
pub enum WorkflowEntry {
    /// A workflow is to be started.
    Start,
    /// The user says something while a workflow may run.
    Message,
}

/// What the turn waits for.
#[derive(Debug, Clone, Copy, PartialEq, Eq, Structural)]
pub enum WorkflowPhase {
    /// Nothing was done yet.
    Fresh,
    /// The workflow is being started, or looked up.
    AwaitWorkflow,
    /// What the user says is being kept.
    AwaitAppend,
    /// What was said before is being read.
    AwaitContext,
    /// The supervisor decides.
    AwaitEvaluation,
    /// The steering input is being taken out.
    AwaitSteer,
    Over,
}

/// What happened.
#[derive(Debug, Clone, Copy, PartialEq, Eq, Structural)]
pub enum WorkflowInput {
    Begin,
    /// Whether the workflow could be started.
    Started(bool),
    /// Whether a workflow runs.
    Active(bool),
    /// Whether what the user says could be kept.
    Appended(bool),
    /// Whether what was said before could be read.
    Loaded(bool),
    /// The supervisor tells how it gets on.
    Progress,
    /// What the supervisor decided.
    Evaluated(Evaluation),
    /// Whether there was steering input.
    Steer(bool),
}

/// What a run of the agent is about.
#[derive(Debug, Clone, Copy, PartialEq, Eq, Structural)]
pub enum WorkflowRun {
    /// What the user says.
    Message,
    /// What the supervisor says at the start of a workflow.
    FirstTask,
    /// What the supervisor says, as an internal run of it.
    NextTask,
    /// The steering input.
    Steer,
}

/// What is to be done.
#[derive(Debug, Clone, Copy, PartialEq, Eq, Structural)]
pub enum WorkflowAction {
    /// Take steering input from now on.
    RegisterSteer,
    /// Start the workflow with what is known of the session.
    StartWorkflow,
    /// Look the workflow up.
    FindWorkflow,
    /// Keep what the user says.
    AppendMessage,
    LoadContext,
    /// Let the supervisor decide.
    Evaluate,
    /// Take the steering input out.
    DrainSteer,
    YieldError,
    YieldProgress,
    YieldCancelled,
    YieldDone,
    YieldReport,
    /// Say that the supervisor decided nothing.
    YieldNoDecision,
    YieldSteerInjected,
    Run(WorkflowRun),
}

/// How far a turn is.
#[derive(Debug, Clone, Copy, PartialEq, Eq, Structural)]
pub struct WorkflowTurn {
    pub phase: WorkflowPhase,
    pub entry: WorkflowEntry,
    /// The turn is an internal run of the supervisor.
    pub supervisor_run: bool,
    /// The supervisor was asked.
    pub asked: bool,
}

/// A turn after a step, and what to do.
pub struct WorkflowStep {
    pub turn: WorkflowTurn,
    pub actions: Seq<WorkflowAction>,
}

pub open spec fn to(t: WorkflowTurn, phase: WorkflowPhase, actions: Seq<WorkflowAction>) -> WorkflowStep {
    WorkflowStep { turn: WorkflowTurn { phase, ..t }, actions }
}

pub open spec fn unmoved(t: WorkflowTurn) -> WorkflowStep {
    WorkflowStep { turn: t, actions: Seq::empty() }
}

pub open spec fn act1(a: WorkflowAction) -> Seq<WorkflowAction> {
    Seq::empty().push(a)
}

pub open spec fn act2(a: WorkflowAction, b: WorkflowAction) -> Seq<WorkflowAction> {
    Seq::empty().push(a).push(b)
}

/// What follows from what the supervisor decided.
pub open spec fn decided_step(t: WorkflowTurn, evaluation: Evaluation) -> WorkflowStep {
    match evaluation {
        Evaluation::Cancelled => to(
            t,
            WorkflowPhase::Over,
            act2(WorkflowAction::YieldCancelled, WorkflowAction::YieldDone),
        ),
        Evaluation::NoWorkflow => to(
            t,
            WorkflowPhase::Over,
            if t.entry == WorkflowEntry::Start {
                act1(WorkflowAction::YieldNoDecision)
            } else {
                Seq::empty()
            },
        ),
        Evaluation::Report => if t.entry == WorkflowEntry::Start || t.supervisor_run {
            to(t, WorkflowPhase::Over, act1(WorkflowAction::YieldReport))
        } else {
            to(
                t,
                WorkflowPhase::AwaitSteer,
                act2(WorkflowAction::YieldReport, WorkflowAction::DrainSteer),
            )
        },
        Evaluation::Continue => to(
            t,
            WorkflowPhase::Over,
            act2(
                WorkflowAction::YieldReport,
                WorkflowAction::Run(
                    if t.entry == WorkflowEntry::Start {
                        WorkflowRun::FirstTask
                    } else {
                        WorkflowRun::NextTask
                    },
                ),
            ),
        ),
    }
}

/// What an input leads to. One that does not belong to the phase changes
/// nothing.
pub open spec fn workflow_turn_step(t: WorkflowTurn, input: WorkflowInput) -> WorkflowStep {
    match (t.phase, input) {
        (WorkflowPhase::Fresh, WorkflowInput::Begin) => match t.entry {
            WorkflowEntry::Start => to(
                t,
                WorkflowPhase::AwaitWorkflow,
                act1(WorkflowAction::StartWorkflow),
            ),
            WorkflowEntry::Message => to(
                t,
                WorkflowPhase::AwaitWorkflow,
                if t.supervisor_run {
                    act1(WorkflowAction::FindWorkflow)
                } else {
                    act2(WorkflowAction::RegisterSteer, WorkflowAction::FindWorkflow)
                },
            ),
        },
        (WorkflowPhase::AwaitWorkflow, WorkflowInput::Started(ok)) if t.entry
            == WorkflowEntry::Start => if ok {
            to(t, WorkflowPhase::AwaitContext, act1(WorkflowAction::LoadContext))
        } else {
            to(t, WorkflowPhase::Over, act1(WorkflowAction::YieldError))
        },
        (WorkflowPhase::AwaitWorkflow, WorkflowInput::Active(active)) if t.entry
            == WorkflowEntry::Message => if active {
            to(t, WorkflowPhase::AwaitAppend, act1(WorkflowAction::AppendMessage))
        } else {
            to(t, WorkflowPhase::Over, act1(WorkflowAction::Run(WorkflowRun::Message)))
        },
        (WorkflowPhase::AwaitAppend, WorkflowInput::Appended(ok)) => if ok {
            to(t, WorkflowPhase::AwaitContext, act1(WorkflowAction::LoadContext))
        } else {
            to(t, WorkflowPhase::Over, act1(WorkflowAction::YieldError))
        },
        (WorkflowPhase::AwaitContext, WorkflowInput::Loaded(ok)) => if ok {
            to(
                WorkflowTurn { asked: true, ..t },
                WorkflowPhase::AwaitEvaluation,
                act1(WorkflowAction::Evaluate),
            )
        } else {
            to(t, WorkflowPhase::Over, act1(WorkflowAction::YieldError))
        },
        (WorkflowPhase::AwaitEvaluation, WorkflowInput::Progress) => WorkflowStep {
            turn: t,
            actions: act1(WorkflowAction::YieldProgress),
        },
        (WorkflowPhase::AwaitEvaluation, WorkflowInput::Evaluated(evaluation)) => decided_step(
            t,
            evaluation,
        ),
        (WorkflowPhase::AwaitSteer, WorkflowInput::Steer(some)) => to(
            t,
            WorkflowPhase::Over,
            if some {
                act2(
                    WorkflowAction::YieldSteerInjected,
                    WorkflowAction::Run(WorkflowRun::Steer),
                )
            } else {
                Seq::empty()
            },
        ),
        _ => unmoved(t),
    }
}

// ------------------------------------------------------------------ executable

/// A turn after a step, and what to do.
#[derive(Debug)]
pub struct WorkflowMove {
    pub turn: WorkflowTurn,
    pub actions: Vec<WorkflowAction>,
}

impl View for WorkflowMove {
    type V = WorkflowStep;

    open spec fn view(&self) -> WorkflowStep {
        WorkflowStep { turn: self.turn, actions: self.actions@ }
    }
}

fn move_to(t: WorkflowTurn, phase: WorkflowPhase, actions: Vec<WorkflowAction>) -> (r: WorkflowMove)
    ensures
        r@ == to(t, phase, actions@),
{
    WorkflowMove { turn: WorkflowTurn { phase, ..t }, actions }
}

fn no_action() -> (r: Vec<WorkflowAction>)
    ensures
        r@ == Seq::<WorkflowAction>::empty(),
{
    Vec::new()
}

fn one_action(a: WorkflowAction) -> (r: Vec<WorkflowAction>)
    ensures
        r@ == act1(a),
{
    let mut v: Vec<WorkflowAction> = Vec::new();
    v.push(a);
    v
}

fn two_actions(a: WorkflowAction, b: WorkflowAction) -> (r: Vec<WorkflowAction>)
    ensures
        r@ == act2(a, b),
{
    let mut v: Vec<WorkflowAction> = Vec::new();
    v.push(a);
    v.push(b);
    v
}

impl WorkflowTurn {
    /// A turn before its first step.
    pub fn new(entry: WorkflowEntry, supervisor_run: bool) -> (r: WorkflowTurn)
        ensures
            r == (WorkflowTurn {
                phase: WorkflowPhase::Fresh,
                entry,
                supervisor_run,
                asked: false,
            }),
    {
        WorkflowTurn { phase: WorkflowPhase::Fresh, entry, supervisor_run, asked: false }
    }

    fn decide(self, evaluation: Evaluation) -> (r: WorkflowMove)
        ensures
            r@ == decided_step(self, evaluation),
    {
        let starts = matches!(self.entry, WorkflowEntry::Start);
        match evaluation {
            Evaluation::Cancelled => move_to(
                self,
                WorkflowPhase::Over,
                two_actions(WorkflowAction::YieldCancelled, WorkflowAction::YieldDone),
            ),
            Evaluation::NoWorkflow => if starts {
                move_to(self, WorkflowPhase::Over, one_action(WorkflowAction::YieldNoDecision))
            } else {
                move_to(self, WorkflowPhase::Over, no_action())
            },
            Evaluation::Report => if starts || self.supervisor_run {
                move_to(self, WorkflowPhase::Over, one_action(WorkflowAction::YieldReport))
            } else {
                move_to(
                    self,
                    WorkflowPhase::AwaitSteer,
                    two_actions(WorkflowAction::YieldReport, WorkflowAction::DrainSteer),
                )
            },
            Evaluation::Continue => {
                let run = if starts {
                    WorkflowRun::FirstTask
                } else {
                    WorkflowRun::NextTask
                };
                move_to(
                    self,
                    WorkflowPhase::Over,
                    two_actions(WorkflowAction::YieldReport, WorkflowAction::Run(run)),
                )
            },
        }
    }

    /// Takes one step: what `input` leads to.
    pub fn step(self, input: WorkflowInput) -> (r: WorkflowMove)
        ensures
            r@ == workflow_turn_step(self, input),
    {
        match (self.phase, input) {
            (WorkflowPhase::Fresh, WorkflowInput::Begin) => match self.entry {
                WorkflowEntry::Start => move_to(
                    self,
                    WorkflowPhase::AwaitWorkflow,
                    one_action(WorkflowAction::StartWorkflow),
                ),
                WorkflowEntry::Message => if self.supervisor_run {
                    move_to(
                        self,
                        WorkflowPhase::AwaitWorkflow,
                        one_action(WorkflowAction::FindWorkflow),
                    )
                } else {
                    move_to(
                        self,
                        WorkflowPhase::AwaitWorkflow,
                        two_actions(WorkflowAction::RegisterSteer, WorkflowAction::FindWorkflow),
                    )
                },
            },
            (WorkflowPhase::AwaitWorkflow, WorkflowInput::Started(ok)) => match self.entry {
                WorkflowEntry::Start => self.go_on(
                    ok,
                    WorkflowPhase::AwaitContext,
                    WorkflowAction::LoadContext,
                ),
                WorkflowEntry::Message => WorkflowMove { turn: self, actions: no_action() },
            },
            (WorkflowPhase::AwaitWorkflow, WorkflowInput::Active(active)) => match self.entry {
                WorkflowEntry::Start => WorkflowMove { turn: self, actions: no_action() },
                WorkflowEntry::Message => if active {
                    move_to(
                        self,
                        WorkflowPhase::AwaitAppend,
                        one_action(WorkflowAction::AppendMessage),
                    )
                } else {
                    move_to(
                        self,
                        WorkflowPhase::Over,
                        one_action(WorkflowAction::Run(WorkflowRun::Message)),
                    )
                },
            },
            (WorkflowPhase::AwaitAppend, WorkflowInput::Appended(ok)) => self.go_on(
                ok,
                WorkflowPhase::AwaitContext,
                WorkflowAction::LoadContext,
            ),
            (WorkflowPhase::AwaitContext, WorkflowInput::Loaded(ok)) => if ok {
                let asked = WorkflowTurn { asked: true, ..self };
                move_to(
                    asked,
                    WorkflowPhase::AwaitEvaluation,
                    one_action(WorkflowAction::Evaluate),
                )
            } else {
                move_to(self, WorkflowPhase::Over, one_action(WorkflowAction::YieldError))
            },
            (WorkflowPhase::AwaitEvaluation, WorkflowInput::Progress) => WorkflowMove {
                turn: self,
                actions: one_action(WorkflowAction::YieldProgress),
            },
            (WorkflowPhase::AwaitEvaluation, WorkflowInput::Evaluated(evaluation)) => self.decide(
                evaluation,
            ),
            (WorkflowPhase::AwaitSteer, WorkflowInput::Steer(some)) => if some {
                move_to(
                    self,
                    WorkflowPhase::Over,
                    two_actions(
                        WorkflowAction::YieldSteerInjected,
                        WorkflowAction::Run(WorkflowRun::Steer),
                    ),
                )
            } else {
                move_to(self, WorkflowPhase::Over, no_action())
            },
            _ => WorkflowMove { turn: self, actions: no_action() },
        }
    }

    fn go_on(self, ok: bool, phase: WorkflowPhase, action: WorkflowAction) -> (r: WorkflowMove)
        ensures
            r@ == (if ok {
                to(self, phase, act1(action))
            } else {
                to(self, WorkflowPhase::Over, act1(WorkflowAction::YieldError))
            }),
    {
        if ok {
            move_to(self, phase, one_action(action))
        } else {
            move_to(self, WorkflowPhase::Over, one_action(WorkflowAction::YieldError))
        }
    }
}

// ------------------------------------------------------------------------ laws

/// A state that a turn can be in.
pub open spec fn sound_turn(t: WorkflowTurn) -> bool {
    &&& (t.phase is AwaitEvaluation || t.phase is AwaitSteer) ==> t.asked
    &&& (t.phase is Fresh || t.phase is AwaitWorkflow || t.phase is AwaitAppend
        || t.phase is AwaitContext) ==> !t.asked
    &&& t.phase is AwaitSteer ==> t.entry == WorkflowEntry::Message && !t.supervisor_run
}

/// Every step leads from a state that a turn can be in to another.
pub proof fn steps_keep_turns_sound(t: WorkflowTurn, input: WorkflowInput)
    requires
        sound_turn(t),
    ensures
        sound_turn(workflow_turn_step(t, input).turn),
{
}

/// While a workflow runs, the supervisor is the first that is asked: the agent
/// runs only after the supervisor was, or where no workflow runs.
pub proof fn the_supervisor_comes_first(t: WorkflowTurn, input: WorkflowInput, run: WorkflowRun)
    requires
        sound_turn(t),
        workflow_turn_step(t, input).actions.contains(WorkflowAction::Run(run)),
    ensures
        t.asked || (run == WorkflowRun::Message && input == WorkflowInput::Active(false)),
{
    let actions = workflow_turn_step(t, input).actions;
    let i = choose|i: int| 0 <= i < actions.len() && actions[i] == WorkflowAction::Run(run);
    assert(actions[i] == WorkflowAction::Run(run));
}

/// What the user sends while the supervisor decides is not lost: where the
/// decision ends the work, the steering input is taken out, and what there is
/// becomes a run of its own.
pub proof fn steering_is_not_lost(t: WorkflowTurn)
    requires
        t.phase is AwaitEvaluation,
        t.entry == WorkflowEntry::Message,
        !t.supervisor_run,
    ensures
        ({
            let told = workflow_turn_step(t, WorkflowInput::Evaluated(Evaluation::Report));
            &&& told.actions.last() == WorkflowAction::DrainSteer
            &&& workflow_turn_step(told.turn, WorkflowInput::Steer(true)).actions.last()
                == WorkflowAction::Run(WorkflowRun::Steer)
        }),
{
}

/// A turn runs the agent at most once, and is over then.
pub proof fn a_run_ends_the_turn(t: WorkflowTurn, input: WorkflowInput, run: WorkflowRun)
    requires
        workflow_turn_step(t, input).actions.contains(WorkflowAction::Run(run)),
    ensures
        workflow_turn_step(t, input).turn.phase is Over,
{
    let actions = workflow_turn_step(t, input).actions;
    let i = choose|i: int| 0 <= i < actions.len() && actions[i] == WorkflowAction::Run(run);
    assert(actions[i] == WorkflowAction::Run(run));
}

/// A turn that is over stays over and does nothing more.
pub proof fn an_ended_turn_does_nothing(t: WorkflowTurn, input: WorkflowInput)
    requires
        t.phase is Over,
    ensures
        workflow_turn_step(t, input) == unmoved(t),
{
}

/// What the user says while a workflow runs is kept, and the supervisor is asked, with
/// all that was said before; without a workflow the agent answers it.
pub proof fn messages_reach_the_supervisor(t: WorkflowTurn)
    requires
        t.entry == WorkflowEntry::Message,
    ensures
        t.phase is Fresh ==> {
            let a = workflow_turn_step(t, WorkflowInput::Begin).actions;
            &&& a.last() == WorkflowAction::FindWorkflow
            &&& a.contains(WorkflowAction::RegisterSteer) == !t.supervisor_run
        },
        t.phase is AwaitWorkflow ==> {
            &&& workflow_turn_step(t, WorkflowInput::Active(true)).actions.contains(
                WorkflowAction::AppendMessage,
            )
            &&& workflow_turn_step(t, WorkflowInput::Active(false)).actions.contains(
                WorkflowAction::Run(WorkflowRun::Message),
            )
        },
        t.phase is AwaitAppend ==> {
            &&& workflow_turn_step(t, WorkflowInput::Appended(true)).actions.contains(
                WorkflowAction::LoadContext,
            )
            &&& workflow_turn_step(t, WorkflowInput::Appended(false)).actions.contains(
                WorkflowAction::YieldError,
            )
        },
        t.phase is AwaitContext ==> {
            &&& workflow_turn_step(t, WorkflowInput::Loaded(true)).actions.contains(
                WorkflowAction::Evaluate,
            )
            &&& workflow_turn_step(t, WorkflowInput::Loaded(false)).actions.contains(
                WorkflowAction::YieldError,
            )
        },
{
    if t.phase is Fresh {
        let a = workflow_turn_step(t, WorkflowInput::Begin).actions;
        if !t.supervisor_run {
            assert(a[0] == WorkflowAction::RegisterSteer);
        }
    }
    if t.phase is AwaitWorkflow {
        assert(workflow_turn_step(t, WorkflowInput::Active(true)).actions[0]
            == WorkflowAction::AppendMessage);
        assert(workflow_turn_step(t, WorkflowInput::Active(false)).actions[0]
            == WorkflowAction::Run(WorkflowRun::Message));
    }
    if t.phase is AwaitAppend {
        assert(workflow_turn_step(t, WorkflowInput::Appended(true)).actions[0]
            == WorkflowAction::LoadContext);
        assert(workflow_turn_step(t, WorkflowInput::Appended(false)).actions[0]
            == WorkflowAction::YieldError);
    }
    if t.phase is AwaitContext {
        assert(workflow_turn_step(t, WorkflowInput::Loaded(true)).actions[0]
            == WorkflowAction::Evaluate);
        assert(workflow_turn_step(t, WorkflowInput::Loaded(false)).actions[0]
            == WorkflowAction::YieldError);
    }
}

/// A workflow that is started is supervised at once; one that could not be started is
/// told of as an error.
pub proof fn started_workflows_are_supervised(t: WorkflowTurn)
    requires
        t.entry == WorkflowEntry::Start,
    ensures
        t.phase is Fresh ==> workflow_turn_step(t, WorkflowInput::Begin).actions.contains(
            WorkflowAction::StartWorkflow,
        ),
        t.phase is AwaitWorkflow ==> {
            &&& workflow_turn_step(t, WorkflowInput::Started(true)).actions.contains(
                WorkflowAction::LoadContext,
            )
            &&& workflow_turn_step(t, WorkflowInput::Started(false)).actions.contains(
                WorkflowAction::YieldError,
            )
        },
        t.phase is AwaitContext ==> workflow_turn_step(
            t,
            WorkflowInput::Loaded(true),
        ).actions.contains(WorkflowAction::Evaluate),
{
    if t.phase is Fresh {
        assert(workflow_turn_step(t, WorkflowInput::Begin).actions[0]
            == WorkflowAction::StartWorkflow);
    }
    if t.phase is AwaitWorkflow {
        assert(workflow_turn_step(t, WorkflowInput::Started(true)).actions[0]
            == WorkflowAction::LoadContext);
        assert(workflow_turn_step(t, WorkflowInput::Started(false)).actions[0]
            == WorkflowAction::YieldError);
    }
    if t.phase is AwaitContext {
        assert(workflow_turn_step(t, WorkflowInput::Loaded(true)).actions[0]
            == WorkflowAction::Evaluate);
    }
}

/// What the supervisor decided is told: a report where there is one, the end where the
/// user stopped it; where the agent is to go on, it is run with what the supervisor
/// said.
pub proof fn decisions_are_told(t: WorkflowTurn)
    requires
        t.phase is AwaitEvaluation,
    ensures
        workflow_turn_step(t, WorkflowInput::Progress).actions.contains(
            WorkflowAction::YieldProgress,
        ),
        workflow_turn_step(t, WorkflowInput::Progress).turn == t,
        workflow_turn_step(t, WorkflowInput::Evaluated(Evaluation::Report)).actions.contains(
            WorkflowAction::YieldReport,
        ),
        workflow_turn_step(t, WorkflowInput::Evaluated(Evaluation::Cancelled)).actions.contains(
            WorkflowAction::YieldCancelled,
        ),
        ({
            let a = workflow_turn_step(t, WorkflowInput::Evaluated(Evaluation::Continue)).actions;
            &&& a.contains(WorkflowAction::YieldReport)
            &&& a.contains(WorkflowAction::Run(WorkflowRun::FirstTask)) == (t.entry
                == WorkflowEntry::Start)
            &&& a.contains(WorkflowAction::Run(WorkflowRun::NextTask)) == (t.entry
                == WorkflowEntry::Message)
        }),
        workflow_turn_step(t, WorkflowInput::Evaluated(Evaluation::NoWorkflow)).actions.contains(
            WorkflowAction::YieldNoDecision,
        ) == (t.entry == WorkflowEntry::Start),
{
    assert(workflow_turn_step(t, WorkflowInput::Progress).actions[0]
        == WorkflowAction::YieldProgress);
    assert(workflow_turn_step(t, WorkflowInput::Evaluated(Evaluation::Report)).actions[0]
        == WorkflowAction::YieldReport);
    assert(workflow_turn_step(t, WorkflowInput::Evaluated(Evaluation::Cancelled)).actions[0]
        == WorkflowAction::YieldCancelled);
    let a = workflow_turn_step(t, WorkflowInput::Evaluated(Evaluation::Continue)).actions;
    assert(a[0] == WorkflowAction::YieldReport);
    assert(a[1] == WorkflowAction::Run(WorkflowRun::FirstTask) || a[1] == WorkflowAction::Run(
        WorkflowRun::NextTask,
    ));
    let n = workflow_turn_step(t, WorkflowInput::Evaluated(Evaluation::NoWorkflow)).actions;
    if t.entry == WorkflowEntry::Start {
        assert(n[0] == WorkflowAction::YieldNoDecision);
    }
}

} // verus!
