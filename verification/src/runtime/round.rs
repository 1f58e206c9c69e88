//! A round of a turn, from what is known to what the model's run starts with.
use vstd::prelude::*;
use vstd::string::*;

use crate::error::{AgentError, ErrorView};
use crate::json::{JsonValue, JsonView};
use crate::message::{
    copy_messages, message_views, option_text, Content, Message, MessageView,
};
use crate::runtime::effective::{named, named_text};
use crate::runtime::options::{option_value, StreamOptions};
use crate::runtime::prompting::{
    all_marked_read, apply_skill_injections, document_views, group_prefix,
    prepend_group_sender_username, sender_prompt, single_chat_sender_system_prompt, spoken,
    truncate_user_name,
};
use crate::runtime::recorder::{PartialTurnRecorder, RecorderView};
use crate::runtime::round_run::{RoundRun, RoundRunView};
use crate::runtime::snapshot::LoopStart;
use crate::runtime::turn_input::{
    brings_media, check_media, current_user_message, hook_messages, loop_start, noted,
    prompt_may_pass, reason_or, request_fields, round_message, round_of, session_may_start, stops,
    turn_history, user_message, HookReply, PromptParts, RoundMessage, RoundView,
};
use crate::text::{first_chars, texts, trimmed, trimming_is_idempotent};

verus! {

broadcast use vstd::string::group_string_axioms;

/// How much of a sender's name the model is told.
pub const USER_NAME_CHARS: usize = 10;

/// A round before it goes to the model.
#[derive(Debug)]
pub struct RoundDraft {
    pub thread_id: String,
    pub message: RoundMessage,
    /// What the round says.
    pub content: Content,
    /// Who says it, as the model is told.
    pub user_name: Option<String>,
    pub parts: PromptParts,
    pub user_state: JsonValue,
    /// All that the model is told before.
    pub history: Vec<Message>,
    /// Where in the history the messages of the hooks begin.
    pub hook_start: usize,
    /// What is still to do, where the supervisor is to be told.
    pub supervisor_todo: Option<String>,
}

/// What the model is told besides what was said, with the prompt for the sender.
pub open spec fn addressed(parts: PromptParts, given: PromptParts, prompt: Option<Seq<char>>) -> bool {
    &&& option_text(parts.sender_prompt) == prompt
    &&& parts == (PromptParts { sender_prompt: parts.sender_prompt, ..given })
}

/// The name of a sender as the model is told it.
pub open spec fn told_name(m: RoundView) -> Option<Seq<char>> {
    match named_text(named_text(m.sender_username)) {
        Some(n) => Some(first_chars(n, USER_NAME_CHARS as int)),
        None => None,
    }
}

impl RoundDraft {
    /// The messages of the hooks stand at the end of the history.
    pub open spec fn wf(&self) -> bool {
        &&& self.hook_start <= self.history@.len()
        &&& self.parts.skill_injections@.len() + 5 <= usize::MAX
        &&& self.parts.pinned_skill_summaries@.len() <= u32::MAX
    }

    /// What the hooks added.
    pub open spec fn hooked(&self) -> Seq<MessageView> {
        message_views(self.history@).skip(self.hook_start as int)
    }

    /// Puts a round together: what it says, who says it and what the model is
    /// told before.
    pub fn new(
        thread_id: &str,
        next_content: Content,
        opts: &StreamOptions,
        from_supervisor: bool,
        from_background: bool,
        remembered: Vec<Message>,
        user_state: JsonValue,
        parts: PromptParts,
    ) -> (r: RoundDraft)
        requires
            parts.skill_injections.len() + 5 <= usize::MAX,
            parts.pinned_skill_summaries.len() <= u32::MAX,
        ensures
            r.wf(),
            r.thread_id@ == thread_id@,
            r.message@ == round_of(*opts, from_supervisor, from_background),
            r.content@ == spoken(
                next_content@,
                group_prefix(r.message@.chat_type, named_text(r.message@.sender_username)),
            ),
            option_text(r.user_name) == told_name(r.message@),
            addressed(
                r.parts,
                parts,
                sender_prompt(
                    r.message@.chat_type,
                    named_text(r.message@.sender_username),
                    r.message@.sender_user_id,
                ),
            ),
            r.user_state@ == all_marked_read(
                user_state@,
                document_views(parts.skill_injections@),
            ),
            message_views(r.history@) == turn_history(message_views(remembered@), r.parts),
            r.hook_start == r.history@.len(),
            option_text(r.supervisor_todo) == (if parts.active_supervisor {
                option_text(parts.todo_prompt)
            } else {
                None
            }),
    {
        let message = round_message(opts, from_supervisor, from_background);
        let mut user_state = user_state;
        apply_skill_injections(&mut user_state, &parts.skill_injections);
        let requested = named(&message.sender_username);
        let user_name = truncate_user_name(&requested, USER_NAME_CHARS);
        let prompt = single_chat_sender_system_prompt(
            &message.chat_type,
            &requested,
            &message.sender_user_id,
        );
        let parts = PromptParts { sender_prompt: prompt, ..parts };
        let (history, supervisor_todo) = parts.build_history(remembered);
        let content = prepend_group_sender_username(next_content, &message.chat_type, &requested);
        let hook_start: usize = history.len();
        RoundDraft {
            thread_id: thread_id.to_owned(),
            message,
            content,
            user_name,
            parts,
            user_state,
            history,
            hook_start,
            supervisor_todo,
        }
    }

    /// Takes in what the hook for the start of a session says.
    pub fn on_session_hook(&mut self, reply: HookReply) -> (r: Result<(), AgentError>)
        requires
            old(self).wf(),
        ensures
            final(self).wf(),
            *final(self) == (RoundDraft { history: final(self).history, ..*old(self) }),
            if stops(reply) {
                &&& r is Err
                &&& r->Err_0@ == ErrorView::Other(
                    reason_or(reply, "session start blocked by hook"@),
                )
                &&& message_views(final(self).history@) == message_views(old(self).history@)
            } else {
                &&& r is Ok
                &&& message_views(final(self).history@) == message_views(old(self).history@)
                    + hook_messages("SessionStart"@, texts(reply.additional_context@))
            },
    {
        let ghost before = message_views(self.history@);
        let r = session_may_start(&mut self.history, reply);
        assert(message_views(self.history@).len() == self.history@.len());
        assert(before.len() <= message_views(self.history@).len());
        r
    }

    /// Takes in what the hook for a message of the user says.
    pub fn on_prompt_hook(&mut self, reply: HookReply) -> (r: Result<(), AgentError>)
        requires
            old(self).wf(),
        ensures
            final(self).wf(),
            *final(self) == (RoundDraft { history: final(self).history, ..*old(self) }),
            if stops(reply) {
                &&& r is Err
                &&& r->Err_0@ == ErrorView::Other(reason_or(reply, "user prompt blocked by hook"@))
                &&& message_views(final(self).history@) == message_views(old(self).history@)
            } else {
                &&& r is Ok
                &&& message_views(final(self).history@) == message_views(old(self).history@)
                    + hook_messages("UserPromptSubmit"@, texts(reply.additional_context@))
            },
    {
        let ghost before = message_views(self.history@);
        let r = prompt_may_pass(&mut self.history, reply);
        assert(message_views(self.history@).len() == self.history@.len());
        assert(before.len() <= message_views(self.history@).len());
        r
    }

    /// Fails where the round brings more than text and the model reads text only.
    pub fn check_media(&self, supports_images: bool, profile_id: &str) -> (r: Result<
        (),
        AgentError,
    >)
        ensures
            if brings_media(self.content@, self.message@) && !supports_images {
                &&& r is Err
                &&& r->Err_0@ == ErrorView::Other(
                    "current model profile `"@ + profile_id@
                        + "` does not support image/document inputs; switch REMI_MODEL_PROFILE to a multimodal model"@,
                )
            } else {
                r is Ok
            },
    {
        check_media(&self.content, &self.message, supports_images, profile_id)
    }

    /// The message of the round as it is kept.
    pub open spec fn said(&self) -> MessageView {
        user_message(self.content@, option_text(self.user_name), noted(self.message@))
    }

    /// The message of the round as it is kept.
    pub fn user_message(&self) -> (r: Message)
        ensures
            r@ == self.said(),
    {
        current_user_message(&self.content, &self.user_name, &self.message.message_metadata())
    }

    /// The record of an answer that is not finished yet.
    pub fn recorder(&self) -> (r: PartialTurnRecorder)
        ensures
            r@ == (RecorderView {
                base: message_views(self.history@).push(self.said()),
                text: Seq::empty(),
                reasoning: None,
                tools: Seq::empty(),
            }),
    {
        let mut base = copy_messages(&self.history);
        let ghost before = message_views(base@);
        base.push(self.user_message());
        assert(message_views(base@) =~= before.push(self.said()));
        PartialTurnRecorder::new(base)
    }

    /// How many messages of the history are not new when the round is saved.
    pub fn skip_count(&self) -> (r: usize)
        ensures
            r == self.history@.len(),
    {
        self.history.len()
    }

    /// What the round has at hand when the model's run starts.
    pub fn run(&self) -> (r: RoundRun)
        ensures
            r@ == (RoundRunView {
                initial_state: self.user_state@,
                history: None,
                state: None,
                recorder: RecorderView {
                    base: message_views(self.history@).push(self.said()),
                    text: Seq::empty(),
                    reasoning: None,
                    tools: Seq::empty(),
                },
                elapsed: Seq::empty(),
                skip_count: self.history@.len(),
            }),
    {
        RoundRun::new(self.user_state.copy(), self.recorder(), self.skip_count())
    }

    /// What the model's run starts with.
    pub fn start(&self) -> (r: LoopStart)
        ensures
            r.content@ == self.content@,
            message_views(r.history@) == message_views(self.history@),
            option_value(r.metadata) == Some(
                JsonView::Object(request_fields(self.thread_id@, self.message@)),
            ),
            option_value(r.message_metadata) == noted(self.message@),
            option_value(r.user_state) == Some(self.user_state@),
            option_text(r.user_name) == option_text(self.user_name),
    {
        loop_start(
            &self.content,
            copy_messages(&self.history),
            &self.message.request_metadata(&self.thread_id),
            &self.message.message_metadata(),
            &self.user_state,
            &self.user_name,
        )
    }

    /// Puts the history together again from what is remembered once the memory
    /// was compressed; what the hooks added stays behind it.
    pub fn rebuild(&mut self, remembered: Vec<Message>)
        requires
            old(self).wf(),
        ensures
            final(self).wf(),
            *final(self) == (RoundDraft {
                history: final(self).history,
                hook_start: final(self).hook_start,
                ..*old(self)
            }),
            message_views(final(self).history@) == turn_history(
                message_views(remembered@),
                old(self).parts,
            ) + old(self).hooked(),
            final(self).hook_start == turn_history(
                message_views(remembered@),
                old(self).parts,
            ).len(),
    {
        let ghost all = message_views(self.history@);
        let ghost from = self.hook_start as int;
        let (rebuilt, _) = self.parts.build_history(remembered);
        let mut history = rebuilt;
        let ghost start = message_views(history@);
        let hook_start: usize = history.len();
        let mut i: usize = self.hook_start;
        assert(all.subrange(from, from) =~= Seq::<MessageView>::empty());
        assert(start + Seq::<MessageView>::empty() =~= start);
        while i < self.history.len()
            invariant
                self.hook_start <= i <= self.history.len(),
                from == self.hook_start,
                all == message_views(self.history@),
                message_views(history@) == start + all.subrange(from, i as int),
            decreases self.history.len() - i,
        {
            let ghost before = message_views(history@);
            let message = self.history[i].copy();
            let ghost view = message@;
            assert(view == all[i as int]);
            history.push(message);
            assert(message_views(history@) =~= before.push(view));
            assert(all.subrange(from, i + 1) =~= all.subrange(from, i as int).push(view));
            assert(message_views(history@) =~= start + all.subrange(from, i + 1));
            i += 1;
        }
        assert(all.subrange(from, i as int) =~= all.skip(from));
        self.history = history;
        self.hook_start = hook_start;
    }
}

/// What the hooks added to a round is still there after the memory was
/// compressed, whatever is remembered.
pub proof fn compressing_keeps_what_hooks_added(
    before: RoundDraft,
    after: RoundDraft,
    remembered: Seq<MessageView>,
)
    requires
        message_views(after.history@) == turn_history(remembered, before.parts) + before.hooked(),
        after.hook_start == turn_history(remembered, before.parts).len(),
    ensures
        after.hooked() == before.hooked(),
{
    assert(after.hooked() =~= before.hooked());
}

/// A round without a sender has no name, and of a sender no more than the
/// beginning of the name is told.
pub proof fn names_are_short(m: RoundView)
    ensures
        told_name(m) matches Some(n) ==> n.len() <= USER_NAME_CHARS,
        m.sender_username is None ==> told_name(m) is None,
{
}

/// The model is told the name of who speaks as it begins, without white space round
/// it, where there is more to it than that.
pub proof fn a_sender_is_called_by_name(m: RoundView)
    ensures
        m.sender_username matches Some(n) ==> {
            &&& trimmed(n).len() == 0 ==> told_name(m) is None
            &&& trimmed(n).len() > 0 ==> told_name(m) is Some && told_name(m)->0.is_prefix_of(
                trimmed(n),
            ) && (trimmed(n).len() <= USER_NAME_CHARS ==> told_name(m)->0 == trimmed(n))
        },
{
    if m.sender_username is Some {
        let n = m.sender_username->0;
        trimming_is_idempotent(n);
        if trimmed(n).len() > 0 {
            let t = told_name(m)->0;
            assert(t =~= trimmed(n).subrange(0, t.len() as int));
        }
    }
}

/// What a round says is said as the user, whole, under the user's name, and noted as
/// what it is.
pub proof fn a_round_says_what_it_was_given(draft: RoundDraft)
    ensures
        draft.said().role == crate::message::Role::User,
        draft.said().content == draft.content@,
        draft.said().name == option_text(draft.user_name),
        draft.said().metadata == noted(draft.message@),
{
}

} // verus!
