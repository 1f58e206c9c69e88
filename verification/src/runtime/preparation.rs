//! Preparing a round: in which order its request is put together.
use vstd::prelude::*;
use vstd::string::*;

use crate::error::{AgentError, ErrorView};
use crate::message::{message_views, Message, MessageView};
use crate::runtime::round::RoundDraft;
use crate::runtime::turn::TurnInput;
use crate::runtime::turn_input::{
    brings_media, check_budget, check_compression, hook_messages, over_budget, reason_or,
    reload_failed, stops, turn_history, what_hooks_add_is_told, BudgetStep, HookReply,
};
use crate::text::{decimal, occurs, texts};

verus! {

broadcast use vstd::string::group_string_axioms;

// ----------------------------------------------------------------------- model

/// What a round is prepared for.
#[derive(Debug)]
pub struct PrepFacts {
    /// Whether the hook for the start of a session is asked.
    pub session_hook: bool,
    /// Whether the hook for a message of the user is asked.
    pub prompt_hook: bool,
    pub supports_images: bool,
    pub profile_id: String,
    /// How many tokens a request may have.
    pub budget: u32,
    pub auto_compress: bool,
}

/// How far the preparation is.
#[derive(Debug, Clone, Copy, PartialEq, Eq, Structural)]
pub enum PrepPhase {
    Begin,
    /// The hook for the start of a session is being asked.
    SessionHook,
    /// The hook for a message of the user is being asked.
    PromptHook,
    /// The size of the request is being estimated.
    Measuring,
    /// The memory is being compressed for a request of the given size.
    Compacting(u32),
    /// The memory is being read again.
    Reloading,
    Over,
}

/// What came of what was asked for.
#[derive(Debug)]
pub enum PrepEvent {
    Begin,
    Hooked(HookReply),
    /// The size of the request, where it can be estimated.
    Measured(Option<u32>),
    /// How many messages were compressed.
    Compacted(Result<u64, String>),
    /// What is remembered now.
    Reloaded(Result<Vec<Message>, String>),
}

/// What is to be done next.
#[derive(Debug)]
#[allow(inconsistent_fields)]
pub enum PrepAction {
    RunSessionHook,
    RunPromptHook,
    Measure,
    Compact,
    Reload,
    /// The request goes to the model, and its size is shown where it is known.
    Send { measured: bool },
    /// The round fails. Where it is kept, so is the message of the user.
    Refuse { error: AgentError, keep: bool },
}

pub enum PrepActionView {
    RunSessionHook,
    RunPromptHook,
    Measure,
    Compact,
    Reload,
    Send { measured: bool },
    Refuse { error: ErrorView, keep: bool },
}

impl View for PrepAction {
    type V = PrepActionView;

    open spec fn view(&self) -> PrepActionView {
        match self {
            PrepAction::RunSessionHook => PrepActionView::RunSessionHook,
            PrepAction::RunPromptHook => PrepActionView::RunPromptHook,
            PrepAction::Measure => PrepActionView::Measure,
            PrepAction::Compact => PrepActionView::Compact,
            PrepAction::Reload => PrepActionView::Reload,
            PrepAction::Send { measured } => PrepActionView::Send { measured: *measured },
            PrepAction::Refuse { error, keep } => PrepActionView::Refuse {
                error: error@,
                keep: *keep,
            },
        }
    }
}

/// A round while it is prepared.
#[derive(Debug)]
pub struct RoundPrep {
    pub draft: RoundDraft,
    pub facts: PrepFacts,
    pub phase: PrepPhase,
}

/// What changes while a round is prepared.
pub struct PrepView {
    pub phase: PrepPhase,
    pub history: Seq<MessageView>,
    pub hook_start: nat,
}

impl View for RoundPrep {
    type V = PrepView;

    open spec fn view(&self) -> PrepView {
        PrepView {
            phase: self.phase,
            history: message_views(self.draft.history@),
            hook_start: self.draft.hook_start as nat,
        }
    }
}

// -------------------------------------------------------------- specification

/// Whether an event is an answer to what was asked for.
pub open spec fn fits(phase: PrepPhase, event: PrepEvent) -> bool {
    match phase {
        PrepPhase::Begin => event is Begin,
        PrepPhase::SessionHook | PrepPhase::PromptHook => event is Hooked,
        PrepPhase::Measuring => event is Measured,
        PrepPhase::Compacting(_) => event is Compacted,
        PrepPhase::Reloading => event is Reloaded,
        PrepPhase::Over => false,
    }
}

pub open spec fn refused(error: ErrorView, keep: bool) -> (PrepPhase, PrepActionView) {
    (PrepPhase::Over, PrepActionView::Refuse { error, keep })
}

/// Behind the hooks: the request is measured, unless the model cannot read it.
pub open spec fn behind_hooks(draft: RoundDraft, facts: PrepFacts) -> (PrepPhase, PrepActionView) {
    if brings_media(draft.content@, draft.message@) && !facts.supports_images {
        refused(
            ErrorView::Other(
                "current model profile `"@ + facts.profile_id@
                    + "` does not support image/document inputs; switch REMI_MODEL_PROFILE to a multimodal model"@,
            ),
            false,
        )
    } else {
        (PrepPhase::Measuring, PrepActionView::Measure)
    }
}

/// Behind the hook for the start of a session.
pub open spec fn behind_session(draft: RoundDraft, facts: PrepFacts) -> (
    PrepPhase,
    PrepActionView,
) {
    if facts.prompt_hook {
        (PrepPhase::PromptHook, PrepActionView::RunPromptHook)
    } else {
        behind_hooks(draft, facts)
    }
}

/// The first that is done.
pub open spec fn at_first(draft: RoundDraft, facts: PrepFacts) -> (PrepPhase, PrepActionView) {
    if facts.session_hook {
        (PrepPhase::SessionHook, PrepActionView::RunSessionHook)
    } else {
        behind_session(draft, facts)
    }
}

/// What follows from the size of the request.
pub open spec fn sized(facts: PrepFacts, size: Option<u32>) -> (PrepPhase, PrepActionView) {
    match size {
        None => (PrepPhase::Over, PrepActionView::Send { measured: false }),
        Some(n) => if n <= facts.budget {
            (PrepPhase::Over, PrepActionView::Send { measured: true })
        } else if facts.auto_compress {
            (PrepPhase::Compacting(n), PrepActionView::Compact)
        } else {
            refused(over_budget(n, facts.budget, "automatic compression is disabled"@), true)
        },
    }
}

/// What follows from the memory having been compressed, or not.
pub open spec fn compacted(facts: PrepFacts, size: u32, count: Result<u64, String>) -> (
    PrepPhase,
    PrepActionView,
) {
    match count {
        Ok(n) => if n > 0 {
            (PrepPhase::Reloading, PrepActionView::Reload)
        } else {
            refused(
                over_budget(
                    size,
                    facts.budget,
                    "no complete older exchange is eligible for compression"@,
                ),
                true,
            )
        },
        Err(e) => refused(
            ErrorView::Other(
                "pre-request memory compression failed while reducing "@ + decimal(size as nat)
                    + " estimated tokens to the "@ + decimal(facts.budget as nat)
                    + " token limit: "@ + e@,
            ),
            true,
        ),
    }
}

/// One step of the preparation.
pub open spec fn prepared(prep: RoundPrep, event: PrepEvent) -> (PrepView, PrepActionView) {
    let v = prep@;
    match (prep.phase, event) {
        (PrepPhase::Begin, _) => {
            let (phase, action) = at_first(prep.draft, prep.facts);
            (PrepView { phase, ..v }, action)
        },
        (PrepPhase::SessionHook, PrepEvent::Hooked(reply)) => if stops(reply) {
            let (phase, action) = refused(
                ErrorView::Other(reason_or(reply, "session start blocked by hook"@)),
                false,
            );
            (PrepView { phase, ..v }, action)
        } else {
            let (phase, action) = behind_session(prep.draft, prep.facts);
            let added = hook_messages("SessionStart"@, texts(reply.additional_context@));
            (PrepView { phase, history: v.history + added, ..v }, action)
        },
        (PrepPhase::PromptHook, PrepEvent::Hooked(reply)) => if stops(reply) {
            let (phase, action) = refused(
                ErrorView::Other(reason_or(reply, "user prompt blocked by hook"@)),
                false,
            );
            (PrepView { phase, ..v }, action)
        } else {
            let (phase, action) = behind_hooks(prep.draft, prep.facts);
            let added = hook_messages("UserPromptSubmit"@, texts(reply.additional_context@));
            (PrepView { phase, history: v.history + added, ..v }, action)
        },
        (PrepPhase::Measuring, PrepEvent::Measured(size)) => {
            let (phase, action) = sized(prep.facts, size);
            (PrepView { phase, ..v }, action)
        },
        (PrepPhase::Compacting(size), PrepEvent::Compacted(count)) => {
            let (phase, action) = compacted(prep.facts, size, count);
            (PrepView { phase, ..v }, action)
        },
        (PrepPhase::Reloading, PrepEvent::Reloaded(Ok(remembered))) => {
            let start = turn_history(message_views(remembered@), prep.draft.parts);
            (
                PrepView {
                    phase: PrepPhase::Measuring,
                    history: start + prep.draft.hooked(),
                    hook_start: start.len(),
                },
                PrepActionView::Measure,
            )
        },
        (PrepPhase::Reloading, PrepEvent::Reloaded(Err(e))) => {
            let (phase, action) = refused(
                ErrorView::Other("reload memory after pre-request compression: "@ + e@),
                true,
            );
            (PrepView { phase, ..v }, action)
        },
        _ => (v, PrepActionView::Measure),
    }
}

// ----------------------------------------------------------------------- steps

fn refuse(error: AgentError, keep: bool) -> (r: (PrepPhase, PrepAction))
    ensures
        (r.0, r.1@) == refused(error@, keep),
{
    (PrepPhase::Over, PrepAction::Refuse { error, keep })
}

impl RoundPrep {
    pub fn new(draft: RoundDraft, facts: PrepFacts) -> (r: RoundPrep)
        ensures
            r == (RoundPrep { draft, facts, phase: PrepPhase::Begin }),
    {
        RoundPrep { draft, facts, phase: PrepPhase::Begin }
    }

    fn go_behind_hooks(&self) -> (r: (PrepPhase, PrepAction))
        ensures
            (r.0, r.1@) == behind_hooks(self.draft, self.facts),
    {
        match self.draft.check_media(self.facts.supports_images, &self.facts.profile_id) {
            Ok(_) => (PrepPhase::Measuring, PrepAction::Measure),
            Err(e) => refuse(e, false),
        }
    }

    fn go_behind_session(&self) -> (r: (PrepPhase, PrepAction))
        ensures
            (r.0, r.1@) == behind_session(self.draft, self.facts),
    {
        if self.facts.prompt_hook {
            (PrepPhase::PromptHook, PrepAction::RunPromptHook)
        } else {
            self.go_behind_hooks()
        }
    }

    fn go(&self) -> (r: (PrepPhase, PrepAction))
        ensures
            (r.0, r.1@) == at_first(self.draft, self.facts),
    {
        if self.facts.session_hook {
            (PrepPhase::SessionHook, PrepAction::RunSessionHook)
        } else {
            self.go_behind_session()
        }
    }

    fn on_size(&self, size: Option<u32>) -> (r: (PrepPhase, PrepAction))
        ensures
            (r.0, r.1@) == sized(self.facts, size),
    {
        let n: u32 = match size {
            Some(n) => n,
            None => return (PrepPhase::Over, PrepAction::Send { measured: false }),
        };
        match check_budget(n, self.facts.budget, self.facts.auto_compress) {
            BudgetStep::Send => (PrepPhase::Over, PrepAction::Send { measured: true }),
            BudgetStep::Compress => (PrepPhase::Compacting(n), PrepAction::Compact),
            BudgetStep::Refuse(e) => refuse(e, true),
        }
    }

    fn on_compacted(&self, size: u32, count: Result<u64, String>) -> (r: (PrepPhase, PrepAction))
        ensures
            (r.0, r.1@) == compacted(self.facts, size, count),
    {
        match check_compression(count, size, self.facts.budget) {
            Ok(_) => (PrepPhase::Reloading, PrepAction::Reload),
            Err(e) => refuse(e, true),
        }
    }

    /// Goes one step further: what came of what was asked for is taken in, and
    /// what is to be done next is said.
    pub fn step(self, event: PrepEvent) -> (r: (RoundPrep, PrepAction))
        requires
            self.draft.wf(),
            fits(self.phase, event),
        ensures
            r.0.draft.wf(),
            r.0.facts == self.facts,
            r.0.draft == (RoundDraft {
                history: r.0.draft.history,
                hook_start: r.0.draft.hook_start,
                ..self.draft
            }),
            (r.0@, r.1@) == prepared(self, event),
    {
        let mut prep = self;
        let (phase, action) = match (prep.phase, event) {
            (PrepPhase::Begin, _) => prep.go(),
            (PrepPhase::SessionHook, PrepEvent::Hooked(reply)) => {
                match prep.draft.on_session_hook(reply) {
                    Ok(_) => prep.go_behind_session(),
                    Err(e) => refuse(e, false),
                }
            },
            (PrepPhase::PromptHook, PrepEvent::Hooked(reply)) => {
                match prep.draft.on_prompt_hook(reply) {
                    Ok(_) => prep.go_behind_hooks(),
                    Err(e) => refuse(e, false),
                }
            },
            (PrepPhase::Measuring, PrepEvent::Measured(size)) => prep.on_size(size),
            (PrepPhase::Compacting(size), PrepEvent::Compacted(count)) => prep.on_compacted(
                size,
                count,
            ),
            (PrepPhase::Reloading, PrepEvent::Reloaded(Ok(remembered))) => {
                prep.draft.rebuild(remembered);
                (PrepPhase::Measuring, PrepAction::Measure)
            },
            (PrepPhase::Reloading, PrepEvent::Reloaded(Err(e))) => refuse(reload_failed(&e), true),
            (phase, _) => (phase, PrepAction::Measure),
        };
        prep.phase = phase;
        (prep, action)
    }
}

/// What an action means for the turn: none while the preparation goes on.
pub open spec fn outcome_of(action: PrepActionView) -> Option<TurnInput> {
    match action {
        PrepActionView::Send { measured } => Some(TurnInput::Prepared(measured)),
        PrepActionView::Refuse { keep: false, .. } => Some(TurnInput::PrepareFailed),
        PrepActionView::Refuse { keep: true, .. } => Some(TurnInput::OverBudget),
        _ => None,
    }
}

/// What an action means for the turn.
pub fn preparation_outcome(action: &PrepAction) -> (r: Option<TurnInput>)
    ensures
        r == outcome_of(action@),
{
    match action {
        PrepAction::Send { measured } => Some(TurnInput::Prepared(*measured)),
        PrepAction::Refuse { keep, .. } => if *keep {
            Some(TurnInput::OverBudget)
        } else {
            Some(TurnInput::PrepareFailed)
        },
        _ => None,
    }
}

// ------------------------------------------------------------------------ laws

/// What goes to the model fits into its context, as far as its size is known,
/// and is sent only once it was measured.
pub proof fn what_is_sent_fits(prep: RoundPrep, event: PrepEvent)
    requires
        fits(prep.phase, event),
        prepared(prep, event).1 is Send,
    ensures
        prep.phase is Measuring,
        event matches PrepEvent::Measured(Some(n)) ==> n <= prep.facts.budget,
        prepared(prep, event).0.history == prep@.history,
{
}

/// How far the preparation is, by what may still be asked of hooks.
pub open spec fn hooks_left(phase: PrepPhase) -> nat {
    match phase {
        PrepPhase::Begin => 3,
        PrepPhase::SessionHook => 2,
        PrepPhase::PromptHook => 1,
        _ => 0,
    }
}

/// Each hook is asked once at most, the one for the session first, and none
/// after the request was measured.
pub proof fn hooks_come_first(prep: RoundPrep, event: PrepEvent)
    requires
        fits(prep.phase, event),
    ensures
        prepared(prep, event).1 is RunSessionHook ==> prep.phase is Begin,
        prepared(prep, event).1 is RunPromptHook ==> prep.phase is Begin || prep.phase
            is SessionHook,
        hooks_left(prep.phase) > 0 ==> hooks_left(prepared(prep, event).0.phase) < hooks_left(
            prep.phase,
        ),
        hooks_left(prep.phase) == 0 ==> hooks_left(prepared(prep, event).0.phase) == 0,
{
}

/// A message that a hook or the model turned away is not kept; one that was too
/// long is.
pub proof fn only_long_messages_are_kept(prep: RoundPrep, event: PrepEvent)
    requires
        fits(prep.phase, event),
        prepared(prep, event).1 is Refuse,
    ensures
        prepared(prep, event).1->keep == (hooks_left(prep.phase) == 0),
{
}

/// What the hooks added stays behind all that is remembered, to the end of the
/// preparation.
pub proof fn preparing_keeps_what_hooks_added(prep: RoundPrep, event: PrepEvent)
    requires
        prep.draft.wf(),
        fits(prep.phase, event),
    ensures
        prep.draft.hooked().is_prefix_of(
            prepared(prep, event).0.history.skip(prepared(prep, event).0.hook_start as int),
        ),
{
    let before = prep.draft.hooked();
    let next = prepared(prep, event).0;
    let after = next.history.skip(next.hook_start as int);
    assert(before =~= after.subrange(0, before.len() as int));
}

/// A request that fits is sent, and so is one that cannot be measured; one that does
/// not fit waits for the memory to be compressed, or is refused where that is off.
pub proof fn a_request_within_its_budget_is_sent(prep: RoundPrep, size: Option<u32>)
    requires
        prep.phase is Measuring,
    ensures
        ({
            let (after, action) = prepared(prep, PrepEvent::Measured(size));
            &&& size is None ==> action == PrepActionView::Send { measured: false }
            &&& size matches Some(n) ==> {
                &&& n <= prep.facts.budget ==> action == PrepActionView::Send { measured: true }
                &&& n > prep.facts.budget && prep.facts.auto_compress ==> action is Compact
                    && after.phase == PrepPhase::Compacting(n)
                &&& n > prep.facts.budget && !prep.facts.auto_compress ==> action is Refuse
            }
            &&& after.history == prep@.history
        }),
{
}

/// Where compressing the memory took anything in, the memory is read again and the
/// request measured anew; else the request is refused.
pub proof fn compressed_memory_is_measured_again(prep: RoundPrep, event: PrepEvent)
    ensures
        prep.phase is Compacting && event is Compacted ==> {
            let (after, action) = prepared(prep, event);
            let count = event->Compacted_0;
            if count is Ok && count->Ok_0 > 0 {
                action is Reload && after.phase is Reloading
            } else {
                action is Refuse && after.phase is Over
            }
        },
        prep.phase is Reloading && event is Reloaded ==> {
            let (after, action) = prepared(prep, event);
            let read = event->Reloaded_0;
            if read is Ok {
                &&& action is Measure
                &&& after.phase is Measuring
                &&& after.history.take(after.hook_start as int) == turn_history(
                    message_views(read->Ok_0@),
                    prep.draft.parts,
                )
                &&& after.history.skip(after.hook_start as int) == prep.draft.hooked()
            } else {
                action is Refuse && after.phase is Over
            }
        },
{
    if prep.phase is Reloading && event is Reloaded && event->Reloaded_0 is Ok {
        let start = turn_history(message_views(event->Reloaded_0->Ok_0@), prep.draft.parts);
        let all = start + prep.draft.hooked();
        assert(all.take(start.len() as int) =~= start);
        assert(all.skip(start.len() as int) =~= prep.draft.hooked());
    }
}

/// The hooks are asked that are due, the one for the session first; what they add is
/// told behind what was told before, and where one stops the round it is refused.
pub proof fn hooks_are_asked_where_they_are_due(prep: RoundPrep, event: PrepEvent)
    requires
        fits(prep.phase, event),
    ensures
        prep.phase is Begin && prep.facts.session_hook ==> prepared(prep, event).1
            is RunSessionHook,
        prep.phase is Begin && !prep.facts.session_hook && prep.facts.prompt_hook ==> prepared(
            prep,
            event,
        ).1 is RunPromptHook,
        prep.phase is Begin && !prep.facts.session_hook && !prep.facts.prompt_hook ==> prepared(
            prep,
            event,
        ).1 is Refuse || prepared(prep, event).1 is Measure,
        prep.phase is SessionHook || prep.phase is PromptHook ==> {
            let reply = event->Hooked_0;
            let (after, action) = prepared(prep, event);
            if reply.blocked || reply.continue_flow == Some(false) {
                &&& action is Refuse
                &&& reply.reason matches Some(r) ==> action->error == ErrorView::Other(r@)
            } else {
                &&& prep.phase is SessionHook && prep.facts.prompt_hook ==> action is RunPromptHook
                &&& prep@.history.is_prefix_of(after.history)
                &&& after.history.len() == prep@.history.len() + reply.additional_context@.len()
                &&& forall|i: int|
                    0 <= i < reply.additional_context@.len() ==> {
                        let told = after.history[prep@.history.len() + i];
                        &&& told.content is Text
                        &&& occurs(
                            told.content->Text_0,
                            (#[trigger] reply.additional_context@[i])@,
                        )
                    }
            }
        },
{
    if prep.phase is SessionHook || prep.phase is PromptHook {
        let reply = event->Hooked_0;
        let name = if prep.phase is SessionHook {
            "SessionStart"@
        } else {
            "UserPromptSubmit"@
        };
        let added = hook_messages(name, texts(reply.additional_context@));
        if !stops(reply) {
            let after = prepared(prep, event).0;
            assert(after.history == prep@.history + added);
            assert(prep@.history =~= after.history.subrange(0, prep@.history.len() as int));
            assert forall|i: int| 0 <= i < reply.additional_context@.len() implies {
                let told = after.history[prep@.history.len() + i];
                &&& told.content is Text
                &&& occurs(told.content->Text_0, (#[trigger] reply.additional_context@[i])@)
            } by {
                what_hooks_add_is_told(name, texts(reply.additional_context@), i);
                assert(texts(reply.additional_context@)[i] == reply.additional_context@[i]@);
                assert(after.history[prep@.history.len() + i] == added[i]);
            }
        }
    }
}

/// Media are refused where the model takes none, and only there.
pub proof fn media_are_refused_where_they_cannot_be_seen(prep: RoundPrep, event: PrepEvent)
    requires
        prep.phase is Begin,
        !prep.facts.session_hook,
        !prep.facts.prompt_hook,
    ensures
        prepared(prep, event).1 is Refuse <==> !prep.facts.supports_images && brings_media(
            prep.draft.content@,
            prep.draft.message@,
        ),
{
}

/// The turn goes on with a request that was sent; one that was refused ends the
/// round, and is kept where it was too long.
pub proof fn what_a_turn_hears_of_its_request(action: PrepActionView)
    ensures
        action matches PrepActionView::Send { measured } ==> outcome_of(action) == Some(
            TurnInput::Prepared(measured),
        ),
        action matches PrepActionView::Refuse { keep, .. } ==> outcome_of(action) == Some(
            if keep {
                TurnInput::OverBudget
            } else {
                TurnInput::PrepareFailed
            },
        ),
        !(action is Send) && !(action is Refuse) ==> outcome_of(action) is None,
{
}

} // verus!
