//! What a round of a turn sends to the model.
use vstd::prelude::*;
use vstd::string::*;

use crate::error::{AgentError, ErrorView};
use crate::json::{field, lemma_field_push, no_fields, JsonMap, JsonValue, JsonView};
use crate::message::{
    a_prompt_displaces_nothing, content_text, copy_option_text, insert_system, lemma_prompt_keeps,
    message_views, option_text, plain_message, with_system_at, Content, ContentView, Message,
    MessageView, Role,
};
use crate::order::{lemma_subsequence_of_itself, subsequence};
use crate::runtime::background::{insert_async_tool_system_prompt, ASYNC_TOOL_SYSTEM_PROMPT};
use crate::runtime::budget::DEFAULT_AUTO_COMPRESS_CONTEXT_PERCENT;
use crate::runtime::effective::{named, named_text, EffectiveAgentProfile};
use crate::runtime::lowering::auto_compress_context_percent;
use crate::runtime::options::{
    lemma_text_fields, option_value, text_value, with_text, with_text_field, StreamOptions,
};
use crate::runtime::pinned::{
    insert_pinned_skill_prompt, pinned_prompt, with_prompt_at, SkillPromptToolAvailability,
};
use crate::runtime::prompting::{
    document_views, insert_single_chat_sender_system_prompt, insert_skill_injection_prompts,
    route_thread_todo_prompt, sender_prompt, with_injections, with_todo,
};
use crate::runtime::snapshot::LoopStart;
use crate::runtime::supervisor::hook_context_message;
use crate::skill::types::{summary_views, SkillDocument, SkillSummary};
use crate::text::{decimal, decimal_text, lemma_occurs_in_both, occurs, texts, trimmed};

verus! {

broadcast use vstd::string::group_string_axioms;

// ---------------------------------------------------------------------- sender

/// Who a round's message comes from, and what came with it. A round that nobody
/// sent a message for has its own sender, or none.
#[derive(Debug)]
pub struct RoundMessage {
    pub sender_username: Option<String>,
    pub sender_user_id: Option<String>,
    pub message_id: Option<String>,
    pub im_attachments: Option<String>,
    pub im_documents: Option<String>,
    pub chat_type: Option<String>,
    pub platform: Option<String>,
    pub supervisor_run: bool,
    pub internal_supervisor_message: bool,
    pub background_task: bool,
}

pub struct RoundView {
    pub sender_username: Option<Seq<char>>,
    pub sender_user_id: Option<Seq<char>>,
    pub message_id: Option<Seq<char>>,
    pub im_attachments: Option<Seq<char>>,
    pub im_documents: Option<Seq<char>>,
    pub chat_type: Option<Seq<char>>,
    pub platform: Option<Seq<char>>,
    pub supervisor_run: bool,
    pub internal_supervisor_message: bool,
    pub background_task: bool,
}

impl View for RoundMessage {
    type V = RoundView;

    open spec fn view(&self) -> RoundView {
        RoundView {
            sender_username: option_text(self.sender_username),
            sender_user_id: option_text(self.sender_user_id),
            message_id: option_text(self.message_id),
            im_attachments: option_text(self.im_attachments),
            im_documents: option_text(self.im_documents),
            chat_type: option_text(self.chat_type),
            platform: option_text(self.platform),
            supervisor_run: self.supervisor_run,
            internal_supervisor_message: self.internal_supervisor_message,
            background_task: self.background_task,
        }
    }
}

/// Who a round's message comes from.
pub open spec fn round_of(opts: StreamOptions, from_supervisor: bool, from_background: bool) -> RoundView {
    let own = RoundView {
        sender_username: option_text(opts.sender_username),
        sender_user_id: option_text(opts.sender_user_id),
        message_id: option_text(opts.message_id),
        im_attachments: option_text(opts.im_attachments),
        im_documents: option_text(opts.im_documents),
        chat_type: option_text(opts.chat_type),
        platform: option_text(opts.platform),
        supervisor_run: opts.supervisor_run,
        internal_supervisor_message: opts.internal_supervisor_message,
        background_task: from_background,
    };
    if from_supervisor || from_background {
        let sender = if from_supervisor {
            Some("supervisor"@)
        } else {
            None
        };
        RoundView {
            sender_username: sender,
            sender_user_id: sender,
            message_id: None,
            im_attachments: None,
            im_documents: None,
            ..own
        }
    } else {
        own
    }
}

/// Who a round's message comes from: the one who asked in the first round, the
/// supervisor in those that it asks for, and nobody in those that a background
/// task asks for.
pub fn round_message(opts: &StreamOptions, from_supervisor: bool, from_background: bool) -> (r:
    RoundMessage)
    ensures
        r@ == round_of(*opts, from_supervisor, from_background),
{
    let others = from_supervisor || from_background;
    let sender_username = if from_supervisor {
        Some("supervisor".to_owned())
    } else if from_background {
        None
    } else {
        copy_option_text(&opts.sender_username)
    };
    let sender_user_id = if from_supervisor {
        Some("supervisor".to_owned())
    } else if from_background {
        None
    } else {
        copy_option_text(&opts.sender_user_id)
    };
    RoundMessage {
        sender_username,
        sender_user_id,
        message_id: if others {
            None
        } else {
            copy_option_text(&opts.message_id)
        },
        im_attachments: if others {
            None
        } else {
            copy_option_text(&opts.im_attachments)
        },
        im_documents: if others {
            None
        } else {
            copy_option_text(&opts.im_documents)
        },
        chat_type: copy_option_text(&opts.chat_type),
        platform: copy_option_text(&opts.platform),
        supervisor_run: opts.supervisor_run,
        internal_supervisor_message: opts.internal_supervisor_message,
        background_task: from_background,
    }
}

/// `fields` with one more that says yes, where `yes`.
pub open spec fn with_yes(fields: Seq<(Seq<char>, JsonView)>, key: Seq<char>, yes: bool) -> Seq<
    (Seq<char>, JsonView),
> {
    if yes {
        fields.push((key, JsonView::Bool(true)))
    } else {
        fields
    }
}

fn mark_yes(map: JsonMap, key: &str, yes: bool) -> (r: JsonMap)
    ensures
        r@ == with_yes(map@, key@, yes),
{
    if yes {
        map.with(key, JsonValue::Bool(true))
    } else {
        map
    }
}

/// What a request carries for the tools.
pub open spec fn request_fields(thread: Seq<char>, m: RoundView) -> Seq<(Seq<char>, JsonView)> {
    let f = no_fields().push(("thread_id"@, JsonView::Text(thread)));
    let f = with_text_field(f, "chat_type"@, m.chat_type);
    let f = with_text_field(f, "platform"@, m.platform);
    let f = with_text_field(
        f,
        "supervisor_run"@,
        if m.supervisor_run {
            Some("true"@)
        } else {
            None
        },
    );
    let f = with_text_field(f, "sender_user_id"@, m.sender_user_id);
    let f = with_text_field(f, "sender_username"@, named_text(m.sender_username));
    let f = with_text_field(f, "message_id"@, m.message_id);
    let f = with_text_field(f, "im_attachments"@, m.im_attachments);
    with_text_field(f, "im_documents"@, m.im_documents)
}

/// What is noted with the message.
pub open spec fn message_fields(m: RoundView) -> Seq<(Seq<char>, JsonView)> {
    let f = with_yes(no_fields(), "internal_supervisor_message"@, m.internal_supervisor_message);
    let f = with_yes(f, "background_tool_task"@, m.background_task);
    let f = with_text_field(f, "sender_user_id"@, m.sender_user_id);
    let f = with_text_field(f, "sender_username"@, named_text(m.sender_username));
    let f = with_text_field(f, "message_id"@, m.message_id);
    let f = with_text_field(f, "chat_type"@, m.chat_type);
    let f = with_text_field(f, "platform"@, m.platform);
    let f = with_text_field(f, "im_attachments"@, m.im_attachments);
    with_text_field(f, "im_documents"@, m.im_documents)
}

/// What is noted with the message, where there is anything.
pub open spec fn noted(m: RoundView) -> Option<JsonView> {
    if message_fields(m).len() == 0 {
        None
    } else {
        Some(JsonView::Object(message_fields(m)))
    }
}

impl RoundMessage {
    /// What a request carries for the tools.
    pub fn request_metadata(&self, thread_id: &str) -> (r: JsonValue)
        ensures
            r@ == JsonView::Object(request_fields(thread_id@, self@)),
    {
        let supervisor = if self.supervisor_run {
            Some("true".to_owned())
        } else {
            None
        };
        let map = JsonMap::new().with("thread_id", JsonValue::text(thread_id));
        let map = with_text(map, "chat_type", &self.chat_type);
        let map = with_text(map, "platform", &self.platform);
        let map = with_text(map, "supervisor_run", &supervisor);
        let map = with_text(map, "sender_user_id", &self.sender_user_id);
        let map = with_text(map, "sender_username", &named(&self.sender_username));
        let map = with_text(map, "message_id", &self.message_id);
        let map = with_text(map, "im_attachments", &self.im_attachments);
        let map = with_text(map, "im_documents", &self.im_documents);
        JsonValue::object(map)
    }

    /// What is noted with the message, where there is anything.
    pub fn message_metadata(&self) -> (r: Option<JsonValue>)
        ensures
            option_value(r) == noted(self@),
    {
        let map = mark_yes(
            JsonMap::new(),
            "internal_supervisor_message",
            self.internal_supervisor_message,
        );
        let map = mark_yes(map, "background_tool_task", self.background_task);
        let map = with_text(map, "sender_user_id", &self.sender_user_id);
        let map = with_text(map, "sender_username", &named(&self.sender_username));
        let map = with_text(map, "message_id", &self.message_id);
        let map = with_text(map, "chat_type", &self.chat_type);
        let map = with_text(map, "platform", &self.platform);
        let map = with_text(map, "im_attachments", &self.im_attachments);
        let map = with_text(map, "im_documents", &self.im_documents);
        if map.is_empty() {
            None
        } else {
            Some(JsonValue::object(map))
        }
    }
}

/// A round that nobody sent a message for does not pass for one that the user
/// sent: it names no message and carries no attachments.
pub proof fn continuations_are_not_the_users(opts: StreamOptions, from_supervisor: bool)
    ensures
        ({
            let m = round_of(opts, from_supervisor, !from_supervisor);
            &&& m.message_id is None
            &&& m.im_attachments is None
            &&& m.im_documents is None
            &&& m.sender_user_id == (if from_supervisor {
                Some("supervisor"@)
            } else {
                None
            })
        }),
{
}

// --------------------------------------------------------------------- history

/// What a round tells the model besides what was said.
#[derive(Debug)]
pub struct PromptParts {
    pub system_prompt: String,
    pub environment_prompt: String,
    pub has_agent_md: bool,
    pub has_soul_md: bool,
    pub skill_injections: Vec<SkillDocument>,
    pub pinned_skill_summaries: Vec<SkillSummary>,
    pub context_tokens: u32,
    pub tools: SkillPromptToolAvailability,
    pub async_agent: bool,
    pub sender_prompt: Option<String>,
    pub todo_prompt: Option<String>,
    pub active_supervisor: bool,
}

/// How many messages stand before those of the skills.
pub open spec fn header_count(parts: PromptParts) -> int {
    2 + if parts.has_agent_md {
        1int
    } else {
        0int
    } + if parts.has_soul_md {
        1int
    } else {
        0int
    }
}

/// The history with what is said of the agent and of the machine.
pub open spec fn with_header(remembered: Seq<MessageView>, parts: PromptParts) -> Seq<MessageView> {
    with_system_at(
        with_system_at(remembered, 0, parts.system_prompt@),
        1,
        parts.environment_prompt@,
    )
}

/// The history with what is said of skills and of background work.
pub open spec fn with_skills(history: Seq<MessageView>, parts: PromptParts) -> Seq<MessageView> {
    let at = header_count(parts);
    let h = with_injections(history, at, document_views(parts.skill_injections@), parts.tools);
    let h = with_prompt_at(
        h,
        at,
        pinned_prompt(
            summary_views(parts.pinned_skill_summaries@),
            parts.context_tokens,
            parts.tools,
        ),
    );
    if parts.async_agent {
        let pinned = if parts.pinned_skill_summaries@.len() > 0 {
            1int
        } else {
            0int
        };
        with_system_at(
            h,
            at + parts.skill_injections@.len() + pinned,
            ASYNC_TOOL_SYSTEM_PROMPT@,
        )
    } else {
        h
    }
}

/// All that the model is told before the message of the round.
pub open spec fn turn_history(remembered: Seq<MessageView>, parts: PromptParts) -> Seq<MessageView> {
    let h = with_skills(with_header(remembered, parts), parts);
    let h = with_prompt_at(h, header_count(parts), option_text(parts.sender_prompt));
    if parts.active_supervisor {
        h
    } else {
        with_todo(h, option_text(parts.todo_prompt))
    }
}

impl PromptParts {
    fn header_count(&self) -> (r: usize)
        ensures
            r == header_count(*self),
            2 <= r <= 4,
    {
        let mut n: usize = 2;
        if self.has_agent_md {
            n += 1;
        }
        if self.has_soul_md {
            n += 1;
        }
        n
    }

    /// All that the model is told before the message of the round, and what is
    /// left for the supervisor to tell.
    pub fn build_history(&self, remembered: Vec<Message>) -> (r: (Vec<Message>, Option<String>))
        requires
            self.skill_injections.len() + 5 <= usize::MAX,
            self.pinned_skill_summaries.len() <= u32::MAX,
        ensures
            message_views(r.0@) == turn_history(message_views(remembered@), *self),
            option_text(r.1) == (if self.active_supervisor {
                option_text(self.todo_prompt)
            } else {
                None
            }),
    {
        let mut history = remembered;
        insert_system(&mut history, 0, &self.system_prompt);
        insert_system(&mut history, 1, &self.environment_prompt);
        let at: usize = self.header_count();
        insert_skill_injection_prompts(&mut history, at, &self.skill_injections, self.tools);
        insert_pinned_skill_prompt(
            &mut history,
            at,
            &self.pinned_skill_summaries,
            self.context_tokens,
            self.tools,
        );
        if self.async_agent {
            let pinned: usize = if self.pinned_skill_summaries.len() > 0 {
                1
            } else {
                0
            };
            insert_async_tool_system_prompt(
                &mut history,
                at + self.skill_injections.len() + pinned,
            );
        }
        insert_single_chat_sender_system_prompt(
            &mut history,
            at,
            copy_option_text(&self.sender_prompt),
        );
        let left = route_thread_todo_prompt(
            &mut history,
            copy_option_text(&self.todo_prompt),
            self.active_supervisor,
        );
        (history, left)
    }
}

/// A history that begins with the given two messages.
#[verifier::opaque]
pub open spec fn begins_with(history: Seq<MessageView>, a: MessageView, b: MessageView) -> bool {
    history.len() >= 2 && history[0] == a && history[1] == b
}

proof fn lemma_inserting_keeps_the_start(
    history: Seq<MessageView>,
    a: MessageView,
    b: MessageView,
    at: int,
    prompt: Seq<char>,
)
    requires
        begins_with(history, a, b),
        at >= 2,
    ensures
        begins_with(with_system_at(history, at, prompt), a, b),
{
    reveal(begins_with);
}

proof fn lemma_injecting_keeps_the_start(
    history: Seq<MessageView>,
    a: MessageView,
    b: MessageView,
    at: int,
    skills: Seq<crate::skill::types::DocumentView>,
    t: SkillPromptToolAvailability,
)
    requires
        begins_with(history, a, b),
        at >= 2,
    ensures
        begins_with(with_injections(history, at, skills, t), a, b),
    decreases skills.len(),
{
    if skills.len() > 0 {
        lemma_injecting_keeps_the_start(history, a, b, at, skills.drop_last(), t);
        lemma_inserting_keeps_the_start(
            with_injections(history, at, skills.drop_last(), t),
            a,
            b,
            at + skills.len() - 1,
            crate::runtime::prompting::injection_prompt(skills.last(), t),
        );
    }
}

proof fn lemma_prompting_keeps_the_start(
    history: Seq<MessageView>,
    a: MessageView,
    b: MessageView,
    at: int,
    prompt: Option<Seq<char>>,
)
    requires
        begins_with(history, a, b),
        at >= 2,
    ensures
        begins_with(with_prompt_at(history, at, prompt), a, b),
{
    reveal(begins_with);
}

proof fn lemma_header_is_the_start(remembered: Seq<MessageView>, parts: PromptParts)
    ensures
        begins_with(
            with_header(remembered, parts),
            plain_message(Role::System, parts.system_prompt@),
            plain_message(Role::System, parts.environment_prompt@),
        ),
{
    reveal(begins_with);
}

proof fn lemma_skills_keep_the_start(
    history: Seq<MessageView>,
    a: MessageView,
    b: MessageView,
    parts: PromptParts,
)
    requires
        begins_with(history, a, b),
    ensures
        begins_with(with_skills(history, parts), a, b),
{
    let at = header_count(parts);
    let skills = document_views(parts.skill_injections@);
    let pinned = pinned_prompt(
        summary_views(parts.pinned_skill_summaries@),
        parts.context_tokens,
        parts.tools,
    );
    lemma_injecting_keeps_the_start(history, a, b, at, skills, parts.tools);
    let injected = with_injections(history, at, skills, parts.tools);
    lemma_prompting_keeps_the_start(injected, a, b, at, pinned);
    let told = with_prompt_at(injected, at, pinned);
    let more = if parts.pinned_skill_summaries@.len() > 0 {
        1int
    } else {
        0int
    };
    lemma_inserting_keeps_the_start(
        told,
        a,
        b,
        at + parts.skill_injections@.len() + more,
        ASYNC_TOOL_SYSTEM_PROMPT@,
    );
}

proof fn lemma_todo_keeps_the_start(
    history: Seq<MessageView>,
    a: MessageView,
    b: MessageView,
    todo: Option<Seq<char>>,
)
    requires
        begins_with(history, a, b),
    ensures
        begins_with(with_todo(history, todo), a, b),
{
    reveal(begins_with);
}

/// Whatever a round tells the model, it first says who the agent is and where
/// it works.
pub proof fn the_agents_prompt_comes_first(remembered: Seq<MessageView>, parts: PromptParts)
    ensures
        begins_with(
            turn_history(remembered, parts),
            plain_message(Role::System, parts.system_prompt@),
            plain_message(Role::System, parts.environment_prompt@),
        ),
{
    let a = plain_message(Role::System, parts.system_prompt@);
    let b = plain_message(Role::System, parts.environment_prompt@);
    let header = with_header(remembered, parts);
    lemma_header_is_the_start(remembered, parts);
    lemma_skills_keep_the_start(header, a, b, parts);
    let skilled = with_skills(header, parts);
    let sender = option_text(parts.sender_prompt);
    lemma_prompting_keeps_the_start(skilled, a, b, header_count(parts), sender);
    let addressed = with_prompt_at(skilled, header_count(parts), sender);
    lemma_todo_keeps_the_start(addressed, a, b, option_text(parts.todo_prompt));
}

// ----------------------------------------------------------------------- hooks

/// What a hook says to what is about to happen.
#[derive(Debug)]
pub struct HookReply {
    pub blocked: bool,
    pub continue_flow: Option<bool>,
    pub reason: Option<String>,
    pub additional_context: Vec<String>,
}

/// Whether a hook stands in the way.
pub open spec fn stops(reply: HookReply) -> bool {
    reply.blocked || reply.continue_flow == Some(false)
}

/// What a hook gives as its reason.
pub open spec fn reason_or(reply: HookReply, other: Seq<char>) -> Seq<char> {
    match reply.reason {
        Some(r) => r@,
        None => other,
    }
}

/// A message that a hook adds.
pub open spec fn hook_message(event: Seq<char>, content: Seq<char>) -> MessageView {
    plain_message(Role::System, "Hook "@ + event + " provided additional context:\n"@ + content)
}

pub open spec fn hook_messages(event: Seq<char>, contexts: Seq<Seq<char>>) -> Seq<MessageView> {
    contexts.map_values(|c: Seq<char>| hook_message(event, c))
}

/// Lets what is about to happen go on, with what a hook adds to the history, or
/// fails with the reason that the hook gives.
pub fn let_pass(
    history: &mut Vec<Message>,
    event: &str,
    reply: HookReply,
    default_reason: &str,
) -> (r: Result<(), AgentError>)
    ensures
        if stops(reply) {
            &&& r is Err
            &&& r->Err_0@ == ErrorView::Other(reason_or(reply, default_reason@))
            &&& message_views(final(history)@) == message_views(old(history)@)
        } else {
            &&& r is Ok
            &&& message_views(final(history)@) == message_views(old(history)@) + hook_messages(
                event@,
                texts(reply.additional_context@),
            )
        },
{
    if reply.blocked || matches!(reply.continue_flow, Some(false)) {
        let reason = match reply.reason {
            Some(r) => r,
            None => default_reason.to_owned(),
        };
        return Err(AgentError::other(&reason));
    }
    let ghost start = message_views(history@);
    let ghost all = texts(reply.additional_context@);
    let mut i: usize = 0;
    assert(start + hook_messages(event@, all.take(0)) =~= start);
    while i < reply.additional_context.len()
        invariant
            i <= reply.additional_context.len(),
            all == texts(reply.additional_context@),
            message_views(history@) == start + hook_messages(event@, all.take(i as int)),
        decreases reply.additional_context.len() - i,
    {
        let ghost before = message_views(history@);
        let message = hook_context_message(event, &reply.additional_context[i]);
        let ghost view = message@;
        history.push(message);
        assert(message_views(history@) =~= before.push(view));
        assert(all[i as int] == reply.additional_context@[i as int]@);
        assert(hook_messages(event@, all.take(i + 1)) =~= hook_messages(
            event@,
            all.take(i as int),
        ).push(hook_message(event@, all[i as int])));
        assert(start + hook_messages(event@, all.take(i + 1)) =~= message_views(history@));
        i += 1;
    }
    assert(all.take(i as int) =~= all);
    Ok(())
}

/// Whether the hook for the start of a session is asked: in the first round of
/// a turn.
pub fn session_hook_due(supervisor_round: u32, from_supervisor: bool) -> (r: bool)
    ensures
        r == (supervisor_round == 0 && !from_supervisor),
{
    supervisor_round == 0 && !from_supervisor
}

/// Whether the hook for a message of the user is asked: where the user sent
/// one.
pub fn prompt_hook_due(from_supervisor: bool, from_background: bool) -> (r: bool)
    ensures
        r == (!from_supervisor && !from_background),
{
    !from_supervisor && !from_background
}

/// Asks the hook for the start of a session.
pub fn session_may_start(history: &mut Vec<Message>, reply: HookReply) -> (r: Result<(), AgentError>)
    ensures
        if stops(reply) {
            &&& r is Err
            &&& r->Err_0@ == ErrorView::Other(reason_or(reply, "session start blocked by hook"@))
            &&& message_views(final(history)@) == message_views(old(history)@)
        } else {
            &&& r is Ok
            &&& message_views(final(history)@) == message_views(old(history)@) + hook_messages(
                "SessionStart"@,
                texts(reply.additional_context@),
            )
        },
{
    let_pass(history, "SessionStart", reply, "session start blocked by hook")
}

/// Asks the hook for a message of the user.
pub fn prompt_may_pass(history: &mut Vec<Message>, reply: HookReply) -> (r: Result<(), AgentError>)
    ensures
        if stops(reply) {
            &&& r is Err
            &&& r->Err_0@ == ErrorView::Other(reason_or(reply, "user prompt blocked by hook"@))
            &&& message_views(final(history)@) == message_views(old(history)@)
        } else {
            &&& r is Ok
            &&& message_views(final(history)@) == message_views(old(history)@) + hook_messages(
                "UserPromptSubmit"@,
                texts(reply.additional_context@),
            )
        },
{
    let_pass(history, "UserPromptSubmit", reply, "user prompt blocked by hook")
}

// ---------------------------------------------------------------------- checks

/// Fails where the workflow asks for an agent that there is not.
pub fn check_workflow_agent(effective: &EffectiveAgentProfile, has_workflow_agent: bool) -> (r:
    Result<(), AgentError>)
    ensures
        match effective.invalid_session_agent {
            Some(id) if has_workflow_agent => {
                &&& r is Err
                &&& r->Err_0@ == ErrorView::Other(
                    "active workflow node references unknown agent `"@ + id@ + "`"@,
                )
            },
            _ => r is Ok,
        },
{
    if has_workflow_agent {
        if let Some(id) = &effective.invalid_session_agent {
            let mut m = "active workflow node references unknown agent `".to_owned();
            m.push_str(id);
            m.push_str("`");
            return Err(AgentError::other(&m));
        }
    }
    Ok(())
}

/// Whether a message brings more than text.
pub open spec fn brings_media(content: ContentView, m: RoundView) -> bool {
    content is Parts || m.im_attachments is Some || m.im_documents is Some
}

/// Fails where a message brings more than text and the model reads text only.
pub fn check_media(
    content: &Content,
    message: &RoundMessage,
    supports_images: bool,
    profile_id: &str,
) -> (r: Result<(), AgentError>)
    ensures
        if brings_media(content@, message@) && !supports_images {
            &&& r is Err
            &&& r->Err_0@ == ErrorView::Other(
                "current model profile `"@ + profile_id@
                    + "` does not support image/document inputs; switch REMI_MODEL_PROFILE to a multimodal model"@,
            )
        } else {
            r is Ok
        },
{
    let media = content.is_multimodal() || message.im_attachments.is_some()
        || message.im_documents.is_some();
    if media && !supports_images {
        let mut m = "current model profile `".to_owned();
        m.push_str(profile_id);
        m.push_str(
            "` does not support image/document inputs; switch REMI_MODEL_PROFILE to a multimodal model",
        );
        Err(AgentError::other(&m))
    } else {
        Ok(())
    }
}

// --------------------------------------------------------------------- request

/// The message of a round as it is kept.
pub open spec fn user_message(content: ContentView, name: Option<Seq<char>>, metadata: Option<JsonView>) -> MessageView {
    MessageView {
        role: Role::User,
        content,
        tool_calls: None,
        tool_call_id: None,
        name,
        reasoning_content: None,
        metadata,
    }
}

/// The message of a round as it is kept.
pub fn current_user_message(
    content: &Content,
    user_name: &Option<String>,
    metadata: &Option<JsonValue>,
) -> (r: Message)
    ensures
        r@ == user_message(content@, option_text(*user_name), option_value(*metadata)),
{
    let metadata = match metadata {
        Some(m) => Some(m.copy()),
        None => None,
    };
    Message {
        role: Role::User,
        content: content.copy(),
        tool_calls: None,
        tool_call_id: None,
        name: copy_option_text(user_name),
        reasoning_content: None,
        metadata,
    }
}

/// What the model's run starts with.
pub fn loop_start(
    content: &Content,
    history: Vec<Message>,
    metadata: &JsonValue,
    message_metadata: &Option<JsonValue>,
    user_state: &JsonValue,
    user_name: &Option<String>,
) -> (r: LoopStart)
    ensures
        r.content@ == content@,
        r.history == history,
        option_value(r.metadata) == Some(metadata@),
        option_value(r.message_metadata) == option_value(*message_metadata),
        option_value(r.user_state) == Some(user_state@),
        option_text(r.user_name) == option_text(*user_name),
{
    let message_metadata = match message_metadata {
        Some(m) => Some(m.copy()),
        None => None,
    };
    LoopStart {
        content: content.copy(),
        history,
        metadata: Some(metadata.copy()),
        message_metadata,
        user_state: Some(user_state.copy()),
        user_name: copy_option_text(user_name),
    }
}

/// How full the context of a request may be: what is set, where that can be
/// read.
pub fn request_context_percent(variable: &Option<String>) -> (r: usize)
    ensures
        1 <= r <= 100,
        variable is None ==> r == DEFAULT_AUTO_COMPRESS_CONTEXT_PERCENT,
        variable matches Some(v) ==> {
            let raw = crate::runtime::lowering::setting(Some(v@));
            match raw {
                Some(s) => match crate::runtime::lowering::counted(s) {
                    Some(n) => r == (if 1 <= n <= 100 {
                        n
                    } else {
                        DEFAULT_AUTO_COMPRESS_CONTEXT_PERCENT as nat
                    }),
                    None => r == DEFAULT_AUTO_COMPRESS_CONTEXT_PERCENT,
                },
                None => r == DEFAULT_AUTO_COMPRESS_CONTEXT_PERCENT,
            }
        },
{
    match auto_compress_context_percent(variable) {
        Ok(n) => n,
        Err(_) => DEFAULT_AUTO_COMPRESS_CONTEXT_PERCENT,
    }
}

/// What is done with a request of the given size.
#[derive(Debug)]
pub enum BudgetStep {
    /// It is sent.
    Send,
    /// The memory is compressed first.
    Compress,
    /// It is not sent.
    Refuse(AgentError),
}

pub open spec fn over_budget(estimated: u32, budget: u32, why: Seq<char>) -> ErrorView {
    ErrorView::Other(
        "model request exceeds context budget: estimated "@ + decimal(estimated as nat)
            + " tokens, limit "@ + decimal(budget as nat) + " tokens; "@ + why,
    )
}

fn describe_over_budget(estimated: u32, budget: u32, why: &str) -> (r: AgentError)
    ensures
        r@ == over_budget(estimated, budget, why@),
{
    let mut m = "model request exceeds context budget: estimated ".to_owned();
    m.push_str(&decimal_text(estimated as u64));
    m.push_str(" tokens, limit ");
    m.push_str(&decimal_text(budget as u64));
    m.push_str(" tokens; ");
    m.push_str(why);
    AgentError::other(&m)
}

/// What is done with a request of the given size.
pub fn check_budget(estimated: u32, budget: u32, auto_compress: bool) -> (r: BudgetStep)
    ensures
        if estimated <= budget {
            r is Send
        } else if auto_compress {
            r is Compress
        } else {
            &&& r is Refuse
            &&& r->Refuse_0@ == over_budget(
                estimated,
                budget,
                "automatic compression is disabled"@,
            )
        },
{
    if estimated <= budget {
        BudgetStep::Send
    } else if auto_compress {
        BudgetStep::Compress
    } else {
        BudgetStep::Refuse(
            describe_over_budget(estimated, budget, "automatic compression is disabled"),
        )
    }
}

/// Whether the memory was compressed: where nothing could be, the request
/// fails.
pub fn check_compression(compacted: Result<u64, String>, estimated: u32, budget: u32) -> (r: Result<
    u64,
    AgentError,
>)
    ensures
        match compacted {
            Ok(n) => if n > 0 {
                r == Ok::<u64, AgentError>(n)
            } else {
                &&& r is Err
                &&& r->Err_0@ == over_budget(
                    estimated,
                    budget,
                    "no complete older exchange is eligible for compression"@,
                )
            },
            Err(e) => {
                &&& r is Err
                &&& r->Err_0@ == ErrorView::Other(
                    "pre-request memory compression failed while reducing "@ + decimal(
                        estimated as nat,
                    ) + " estimated tokens to the "@ + decimal(budget as nat)
                        + " token limit: "@ + e@,
                )
            },
        },
{
    match compacted {
        Ok(n) => if n > 0 {
            Ok(n)
        } else {
            Err(
                describe_over_budget(
                    estimated,
                    budget,
                    "no complete older exchange is eligible for compression",
                ),
            )
        },
        Err(e) => {
            let mut m = "pre-request memory compression failed while reducing ".to_owned();
            m.push_str(&decimal_text(estimated as u64));
            m.push_str(" estimated tokens to the ");
            m.push_str(&decimal_text(budget as u64));
            m.push_str(" token limit: ");
            m.push_str(&e);
            Err(AgentError::other(&m))
        },
    }
}

/// What is said when the memory cannot be read after it was compressed.
pub fn reload_failed(error: &str) -> (r: AgentError)
    ensures
        r@ == ErrorView::Other("reload memory after pre-request compression: "@ + error@),
{
    let mut m = "reload memory after pre-request compression: ".to_owned();
    m.push_str(error);
    AgentError::other(&m)
}

// ------------------------------------------------------------------------- end

/// What the assistant said last.
pub open spec fn last_said(history: Seq<MessageView>) -> Seq<char>
    decreases history.len(),
{
    if history.len() == 0 {
        Seq::empty()
    } else if history.last().role == Role::Assistant {
        content_text(history.last().content)
    } else {
        last_said(history.drop_last())
    }
}

/// What the assistant said last.
pub fn last_assistant_message(history: &Vec<Message>) -> (r: String)
    ensures
        r@ == last_said(message_views(history@)),
{
    let ghost all = message_views(history@);
    let mut i: usize = history.len();
    assert(all.take(i as int) =~= all);
    while i > 0
        invariant
            i <= history.len(),
            all == message_views(history@),
            last_said(all) == last_said(all.take(i as int)),
        decreases i,
    {
        assert(all.take(i as int).drop_last() =~= all.take(i - 1));
        assert(all.take(i as int).last() == history@[i - 1]@);
        if let Role::Assistant = history[i - 1].role {
            return history[i - 1].content.text_content();
        }
        i -= 1;
    }
    let none = String::new();
    assert(none@ =~= Seq::<char>::empty());
    none
}

/// What is asked of the hooks when an agent wants to stop.
pub fn stop_hook_payload(last_message: &str) -> (r: JsonValue)
    ensures
        r@ == JsonView::Object(
            no_fields().push(("stop_hook_active"@, JsonView::Bool(false))).push(
                ("last_assistant_message"@, JsonView::Text(last_message@)),
            ),
        ),
{
    JsonValue::object(
        JsonMap::new().with("stop_hook_active", JsonValue::Bool(false)).with(
            "last_assistant_message",
            JsonValue::text(last_message),
        ),
    )
}

/// What the agent is told where the hooks want more of it.
pub fn stop_hook_message(reply: &HookReply) -> (r: Option<String>)
    ensures
        option_text(r) == (if stops(*reply) {
            Some(reason_or(*reply, "Continue the response according to the Stop hook."@))
        } else {
            None
        }),
{
    if reply.blocked || matches!(reply.continue_flow, Some(false)) {
        match &reply.reason {
            Some(r) => Some(r.clone()),
            None => Some("Continue the response according to the Stop hook.".to_owned()),
        }
    } else {
        None
    }
}

/// What the supervisor is told of what is still to do: what the round left,
/// else what there was before it.
pub fn supervisor_todo(active_supervisor: bool, latest: Option<String>, initial: Option<String>) -> (r:
    Option<String>)
    ensures
        r == (if !active_supervisor {
            None
        } else if latest is Some {
            latest
        } else {
            initial
        }),
{
    if !active_supervisor {
        None
    } else {
        match latest {
            Some(l) => Some(l),
            None => initial,
        }
    }
}

// --------------------------------------------------------- what the model is told

/// Whether `big` holds all of `small` in its order and all messages of `kept`, and
/// has `n` messages.
spec fn grown(
    small: Seq<MessageView>,
    kept: Seq<MessageView>,
    big: Seq<MessageView>,
    n: int,
) -> bool {
    &&& subsequence(small, big)
    &&& big.len() == n
    &&& forall|i: int| 0 <= i < kept.len() ==> big.contains(#[trigger] kept[i])
}

proof fn lemma_grown_by_prompt(
    small: Seq<MessageView>,
    kept: Seq<MessageView>,
    big: Seq<MessageView>,
    n: int,
    at: int,
    prompt: Seq<char>,
)
    requires
        grown(small, kept, big, n),
        at >= 0,
    ensures
        grown(
            small,
            kept.push(plain_message(Role::System, prompt)),
            with_system_at(big, at, prompt),
            n + 1,
        ),
{
    lemma_prompt_keeps(small, big, at, prompt);
    a_prompt_displaces_nothing(big, at, prompt);
    let x = plain_message(Role::System, prompt);
    let r = with_system_at(big, at, prompt);
    assert forall|i: int| 0 <= i < kept.push(x).len() implies r.contains(
        #[trigger] kept.push(x)[i],
    ) by {
        if i < kept.len() {
            assert(big.contains(kept[i]));
        }
    }
}

/// The messages that tell of loaded skills.
pub open spec fn skill_messages(
    skills: Seq<crate::skill::types::DocumentView>,
    t: SkillPromptToolAvailability,
) -> Seq<MessageView> {
    skills.map_values(
        |d: crate::skill::types::DocumentView|
            plain_message(Role::System, crate::runtime::prompting::injection_prompt(d, t)),
    )
}

proof fn lemma_grown_by_skills(
    small: Seq<MessageView>,
    kept: Seq<MessageView>,
    big: Seq<MessageView>,
    n: int,
    at: int,
    skills: Seq<crate::skill::types::DocumentView>,
    t: SkillPromptToolAvailability,
)
    requires
        grown(small, kept, big, n),
        at >= 0,
    ensures
        grown(
            small,
            kept + skill_messages(skills, t),
            with_injections(big, at, skills, t),
            n + skills.len(),
        ),
    decreases skills.len(),
{
    if skills.len() > 0 {
        let head = skills.drop_last();
        let prompt = crate::runtime::prompting::injection_prompt(skills.last(), t);
        lemma_grown_by_skills(small, kept, big, n, at, head, t);
        lemma_grown_by_prompt(
            small,
            kept + skill_messages(head, t),
            with_injections(big, at, head, t),
            n + head.len(),
            at + skills.len() - 1,
            prompt,
        );
        assert((kept + skill_messages(head, t)).push(plain_message(Role::System, prompt))
            =~= kept + skill_messages(skills, t));
    } else {
        assert(kept + skill_messages(skills, t) =~= kept);
    }
}

/// The messages of a prompt that may be missing.
pub open spec fn maybe_message(prompt: Option<Seq<char>>) -> Seq<MessageView> {
    match prompt {
        Some(p) => seq![plain_message(Role::System, p)],
        None => Seq::empty(),
    }
}

proof fn lemma_grown_by_maybe(
    small: Seq<MessageView>,
    kept: Seq<MessageView>,
    big: Seq<MessageView>,
    n: int,
    at: int,
    prompt: Option<Seq<char>>,
)
    requires
        grown(small, kept, big, n),
        at >= 0,
    ensures
        grown(
            small,
            kept + maybe_message(prompt),
            with_prompt_at(big, at, prompt),
            n + maybe_message(prompt).len(),
        ),
{
    match prompt {
        Some(p) => {
            lemma_grown_by_prompt(small, kept, big, n, at, p);
            assert(kept.push(plain_message(Role::System, p)) =~= kept + maybe_message(prompt));
        },
        None => {
            assert(kept + maybe_message(prompt) =~= kept);
        },
    }
}

/// All that a round tells the model besides what the thread remembers.
pub open spec fn told_besides(parts: PromptParts) -> Seq<MessageView> {
    seq![
        plain_message(Role::System, parts.system_prompt@),
        plain_message(Role::System, parts.environment_prompt@),
    ] + skill_messages(document_views(parts.skill_injections@), parts.tools) + maybe_message(
        pinned_prompt(
            summary_views(parts.pinned_skill_summaries@),
            parts.context_tokens,
            parts.tools,
        ),
    ) + (if parts.async_agent {
        seq![plain_message(Role::System, ASYNC_TOOL_SYSTEM_PROMPT@)]
    } else {
        Seq::empty()
    }) + maybe_message(option_text(parts.sender_prompt)) + (if parts.active_supervisor {
        Seq::empty()
    } else {
        maybe_message(option_text(parts.todo_prompt))
    })
}

/// The model is told all that the thread remembers, in its order, and besides it
/// every prompt of the round, each once, and nothing else.
pub proof fn the_model_is_told_what_is_remembered(
    remembered: Seq<MessageView>,
    parts: PromptParts,
)
    ensures
        ({
            let r = turn_history(remembered, parts);
            &&& subsequence(remembered, r)
            &&& r.len() == remembered.len() + told_besides(parts).len()
            &&& forall|i: int|
                0 <= i < told_besides(parts).len() ==> r.contains(#[trigger] told_besides(parts)[i])
        }),
{
    let at = header_count(parts);
    let none: Seq<MessageView> = Seq::empty();
    let a = plain_message(Role::System, parts.system_prompt@);
    let b = plain_message(Role::System, parts.environment_prompt@);
    let n = remembered.len() as int;
    lemma_subsequence_of_itself(remembered);
    assert(grown(remembered, none, remembered, n));
    lemma_grown_by_prompt(remembered, none, remembered, n, 0, parts.system_prompt@);
    let h0 = with_system_at(remembered, 0, parts.system_prompt@);
    lemma_grown_by_prompt(remembered, none.push(a), h0, n + 1, 1, parts.environment_prompt@);
    let h1 = with_header(remembered, parts);
    let k1 = seq![a, b];
    assert(none.push(a).push(b) =~= k1);
    let skills = document_views(parts.skill_injections@);
    lemma_grown_by_skills(remembered, k1, h1, n + 2, at, skills, parts.tools);
    let h2 = with_injections(h1, at, skills, parts.tools);
    let k2 = k1 + skill_messages(skills, parts.tools);
    let pinned = pinned_prompt(
        summary_views(parts.pinned_skill_summaries@),
        parts.context_tokens,
        parts.tools,
    );
    let n2 = n + 2 + skills.len();
    lemma_grown_by_maybe(remembered, k2, h2, n2, at, pinned);
    let h3 = with_prompt_at(h2, at, pinned);
    let k3 = k2 + maybe_message(pinned);
    let n3 = n2 + maybe_message(pinned).len();
    let h4 = with_skills(h1, parts);
    let async_part: Seq<MessageView> = if parts.async_agent {
        seq![plain_message(Role::System, ASYNC_TOOL_SYSTEM_PROMPT@)]
    } else {
        Seq::empty()
    };
    let k4 = k3 + async_part;
    let n4 = n3 + async_part.len();
    if parts.async_agent {
        let more = if parts.pinned_skill_summaries@.len() > 0 {
            1int
        } else {
            0int
        };
        lemma_grown_by_prompt(
            remembered,
            k3,
            h3,
            n3,
            at + parts.skill_injections@.len() + more,
            ASYNC_TOOL_SYSTEM_PROMPT@,
        );
        assert(k3.push(plain_message(Role::System, ASYNC_TOOL_SYSTEM_PROMPT@)) =~= k4);
    } else {
        assert(k4 =~= k3);
    }
    assert(grown(remembered, k4, h4, n4));
    let sender = option_text(parts.sender_prompt);
    lemma_grown_by_maybe(remembered, k4, h4, n4, at, sender);
    let h5 = with_prompt_at(h4, at, sender);
    let k5 = k4 + maybe_message(sender);
    let n5 = n4 + maybe_message(sender).len();
    let todo = option_text(parts.todo_prompt);
    if !parts.active_supervisor {
        lemma_grown_by_maybe(remembered, k5, h5, n5, h5.len() as int, todo);
        if todo is Some {
            assert(h5.insert(h5.len() as int, plain_message(Role::System, todo->0)) =~= h5.push(
                plain_message(Role::System, todo->0),
            ));
        }
        assert(k5 + maybe_message(todo) =~= told_besides(parts));
    } else {
        assert(k5 + Seq::<MessageView>::empty() =~= k5);
        assert(told_besides(parts) =~= k5);
    }
}

// ------------------------------------------------------------------- what is noted

proof fn lemma_yes_fields(fields: Seq<(Seq<char>, JsonView)>, key: Seq<char>, yes: bool)
    requires
        field(fields, key) is None,
    ensures
        forall|q: Seq<char>| #[trigger]
            field(with_yes(fields, key, yes), q) == (if q == key && yes {
                Some(JsonView::Bool(true))
            } else {
                field(fields, q)
            }),
{
    assert forall|q: Seq<char>| #[trigger]
        field(with_yes(fields, key, yes), q) == (if q == key && yes {
            Some(JsonView::Bool(true))
        } else {
            field(fields, q)
        }) by {
        if yes {
            lemma_field_push(fields, (key, JsonView::Bool(true)), q);
        }
    }
}

spec fn keys_apart() -> bool {
    &&& "thread_id"@ != "chat_type"@
    &&& "supervisor_run"@ != "sender_user_id"@
    &&& "supervisor_run"@ != "im_attachments"@
    &&& "sender_user_id"@ != "im_attachments"@
    &&& "thread_id"@.len() == 9
    &&& "chat_type"@.len() == 9
    &&& "platform"@.len() == 8
    &&& "supervisor_run"@.len() == 14
    &&& "sender_user_id"@.len() == 14
    &&& "sender_username"@.len() == 15
    &&& "message_id"@.len() == 10
    &&& "im_attachments"@.len() == 14
    &&& "im_documents"@.len() == 12
    &&& "internal_supervisor_message"@.len() == 27
    &&& "background_tool_task"@.len() == 20
}

proof fn lemma_keys_apart()
    ensures
        keys_apart(),
{
    reveal_strlit("thread_id");
    reveal_strlit("chat_type");
    reveal_strlit("platform");
    reveal_strlit("supervisor_run");
    reveal_strlit("sender_user_id");
    reveal_strlit("sender_username");
    reveal_strlit("message_id");
    reveal_strlit("im_attachments");
    reveal_strlit("im_documents");
    reveal_strlit("internal_supervisor_message");
    reveal_strlit("background_tool_task");
    assert("thread_id"@.len() == 9);
    assert("chat_type"@.len() == 9);
    assert("platform"@.len() == 8);
    assert("supervisor_run"@.len() == 14);
    assert("sender_user_id"@.len() == 14);
    assert("sender_username"@.len() == 15);
    assert("message_id"@.len() == 10);
    assert("im_attachments"@.len() == 14);
    assert("im_documents"@.len() == 12);
    assert("internal_supervisor_message"@.len() == 27);
    assert("background_tool_task"@.len() == 20);
    assert("thread_id"@[0] != "chat_type"@[0]);
    assert("supervisor_run"@[1] != "sender_user_id"@[1]);
    assert("supervisor_run"@[0] != "im_attachments"@[0]);
    assert("sender_user_id"@[0] != "im_attachments"@[0]);
}

/// A request tells its thread, whether a supervisor made it, who speaks, by which
/// name, where, in which message, and with what; what is not known is left out.
pub proof fn what_a_request_tells(thread: Seq<char>, m: RoundView)
    ensures
        ({
            let f = request_fields(thread, m);
            &&& field(f, "thread_id"@) == Some(JsonView::Text(thread))
            &&& field(f, "chat_type"@) == text_value(m.chat_type)
            &&& field(f, "platform"@) == text_value(m.platform)
            &&& field(f, "supervisor_run"@) == (if m.supervisor_run {
                Some(JsonView::Text("true"@))
            } else {
                None
            })
            &&& field(f, "sender_user_id"@) == text_value(m.sender_user_id)
            &&& field(f, "message_id"@) == text_value(m.message_id)
            &&& field(f, "im_attachments"@) == text_value(m.im_attachments)
            &&& field(f, "im_documents"@) == text_value(m.im_documents)
            &&& m.sender_username matches Some(n) ==> field(f, "sender_username"@) == (if trimmed(
                n,
            ).len() == 0 {
                None
            } else {
                Some(JsonView::Text(trimmed(n)))
            })
        }),
{
    lemma_keys_apart();
    let t = if m.supervisor_run {
        Some("true"@)
    } else {
        None
    };
    let f0 = no_fields().push(("thread_id"@, JsonView::Text(thread)));
    assert forall|q: Seq<char>| #[trigger]
        field(f0, q) == (if q == "thread_id"@ {
            Some(JsonView::Text(thread))
        } else {
            None
        }) by {
        lemma_field_push(no_fields(), ("thread_id"@, JsonView::Text(thread)), q);
    }
    let f1 = with_text_field(f0, "chat_type"@, m.chat_type);
    let f2 = with_text_field(f1, "platform"@, m.platform);
    let f3 = with_text_field(f2, "supervisor_run"@, t);
    let f4 = with_text_field(f3, "sender_user_id"@, m.sender_user_id);
    let f5 = with_text_field(f4, "sender_username"@, named_text(m.sender_username));
    let f6 = with_text_field(f5, "message_id"@, m.message_id);
    let f7 = with_text_field(f6, "im_attachments"@, m.im_attachments);
    lemma_text_fields(f0, "chat_type"@, m.chat_type);
    lemma_text_fields(f1, "platform"@, m.platform);
    lemma_text_fields(f2, "supervisor_run"@, t);
    lemma_text_fields(f3, "sender_user_id"@, m.sender_user_id);
    lemma_text_fields(f4, "sender_username"@, named_text(m.sender_username));
    lemma_text_fields(f5, "message_id"@, m.message_id);
    lemma_text_fields(f6, "im_attachments"@, m.im_attachments);
    lemma_text_fields(f7, "im_documents"@, m.im_documents);
}

/// A message that is kept tells who said it, by which name, where and with what, and
/// is marked where a supervisor or a finished task said it.
pub proof fn what_a_message_tells(m: RoundView)
    ensures
        ({
            let f = message_fields(m);
            &&& field(f, "internal_supervisor_message"@) == (if m.internal_supervisor_message {
                Some(JsonView::Bool(true))
            } else {
                None
            })
            &&& field(f, "background_tool_task"@) == (if m.background_task {
                Some(JsonView::Bool(true))
            } else {
                None
            })
            &&& field(f, "sender_user_id"@) == text_value(m.sender_user_id)
            &&& field(f, "message_id"@) == text_value(m.message_id)
            &&& field(f, "chat_type"@) == text_value(m.chat_type)
            &&& field(f, "platform"@) == text_value(m.platform)
            &&& field(f, "im_attachments"@) == text_value(m.im_attachments)
            &&& field(f, "im_documents"@) == text_value(m.im_documents)
            &&& m.sender_username matches Some(n) ==> field(f, "sender_username"@) == (if trimmed(
                n,
            ).len() == 0 {
                None
            } else {
                Some(JsonView::Text(trimmed(n)))
            })
            &&& noted(m) is Some ==> noted(m) == Some(JsonView::Object(f))
            &&& noted(m) is None ==> f.len() == 0
        }),
{
    lemma_keys_apart();
    let f0 = with_yes(no_fields(), "internal_supervisor_message"@, m.internal_supervisor_message);
    let f1 = with_yes(f0, "background_tool_task"@, m.background_task);
    let f2 = with_text_field(f1, "sender_user_id"@, m.sender_user_id);
    let f3 = with_text_field(f2, "sender_username"@, named_text(m.sender_username));
    let f4 = with_text_field(f3, "message_id"@, m.message_id);
    let f5 = with_text_field(f4, "chat_type"@, m.chat_type);
    let f6 = with_text_field(f5, "platform"@, m.platform);
    let f7 = with_text_field(f6, "im_attachments"@, m.im_attachments);
    lemma_yes_fields(
        no_fields(),
        "internal_supervisor_message"@,
        m.internal_supervisor_message,
    );
    lemma_yes_fields(f0, "background_tool_task"@, m.background_task);
    lemma_text_fields(f1, "sender_user_id"@, m.sender_user_id);
    lemma_text_fields(f2, "sender_username"@, named_text(m.sender_username));
    lemma_text_fields(f3, "message_id"@, m.message_id);
    lemma_text_fields(f4, "chat_type"@, m.chat_type);
    lemma_text_fields(f5, "platform"@, m.platform);
    lemma_text_fields(f6, "im_attachments"@, m.im_attachments);
    lemma_text_fields(f7, "im_documents"@, m.im_documents);
}

/// A round that the user asked for tells what the options say of the user.
pub proof fn a_users_round_is_the_users(opts: StreamOptions)
    ensures
        ({
            let m = round_of(opts, false, false);
            &&& m.sender_username == option_text(opts.sender_username)
            &&& m.sender_user_id == option_text(opts.sender_user_id)
            &&& m.message_id == option_text(opts.message_id)
            &&& m.im_attachments == option_text(opts.im_attachments)
            &&& m.im_documents == option_text(opts.im_documents)
            &&& m.chat_type == option_text(opts.chat_type)
            &&& m.platform == option_text(opts.platform)
            &&& m.internal_supervisor_message == opts.internal_supervisor_message
            &&& !m.background_task
        }),
        forall|from_supervisor: bool, from_background: bool|
            (#[trigger] round_of(opts, from_supervisor, from_background)).background_task
                == from_background,
        forall|from_supervisor: bool, from_background: bool|
            (#[trigger] round_of(opts, from_supervisor, from_background)).chat_type == option_text(
                opts.chat_type,
            ),
{
}

/// What hooks add is told after what was told before, one message for each, in
/// their order, and each holds what the hook said.
pub proof fn what_hooks_add_is_told(event: Seq<char>, contexts: Seq<Seq<char>>, i: int)
    requires
        0 <= i < contexts.len(),
    ensures
        hook_messages(event, contexts).len() == contexts.len(),
        hook_messages(event, contexts)[i].role == Role::System,
        hook_messages(event, contexts)[i].content is Text,
        occurs(hook_messages(event, contexts)[i].content->Text_0, contexts[i]),
        occurs(hook_messages(event, contexts)[i].content->Text_0, event),
{
    let c = contexts[i];
    let a = "Hook "@ + event;
    let b = " provided additional context:\n"@;
    lemma_occurs_in_both("Hook "@, event, event);
    lemma_occurs_in_both(a, b, event);
    lemma_occurs_in_both(a + b, c, event);
    lemma_occurs_in_both(a + b, c, c);
}

/// What was said last is what the last message of an assistant says.
pub proof fn what_was_said_last(history: Seq<MessageView>, i: int)
    requires
        0 <= i < history.len(),
        history[i].role == Role::Assistant,
        forall|j: int| i < j < history.len() ==> (#[trigger] history[j]).role != Role::Assistant,
    ensures
        last_said(history) == content_text(history[i].content),
    decreases history.len(),
{
    if i < history.len() - 1 {
        let head = history.drop_last();
        assert(history[history.len() - 1].role != Role::Assistant);
        assert(head[i] == history[i]);
        what_was_said_last(head, i);
    }
}

/// A hook stops what it was asked about where it blocks, or says not to go on; and
/// the reason is its own where it gives one.
pub proof fn a_hook_stops_what_it_blocks(reply: HookReply, other: Seq<char>)
    ensures
        reply.blocked ==> stops(reply),
        reply.continue_flow == Some(false) ==> stops(reply),
        !reply.blocked && reply.continue_flow != Some(false) ==> !stops(reply),
        reply.reason matches Some(r) ==> reason_or(reply, other) == r@,
        reply.reason is None ==> reason_or(reply, other) == other,
{
}

/// A user's message is what the user said, as the user, under the user's name.
pub proof fn a_users_message_is_what_was_said(
    content: ContentView,
    name: Option<Seq<char>>,
    metadata: Option<JsonView>,
)
    ensures
        ({
            let m = user_message(content, name, metadata);
            &&& m.role == Role::User
            &&& m.content == content
            &&& m.name == name
            &&& m.metadata == metadata
            &&& m.tool_calls is None && m.tool_call_id is None && m.reasoning_content is None
        }),
{
}

/// A message brings media where it has parts, or anything came with it.
pub proof fn what_brings_media(content: ContentView, m: RoundView)
    ensures
        content is Parts ==> brings_media(content, m),
        m.im_attachments is Some ==> brings_media(content, m),
        m.im_documents is Some ==> brings_media(content, m),
        content is Text && m.im_attachments is None && m.im_documents is None ==> !brings_media(
            content,
            m,
        ),
{
}

/// Who speaks is told right behind the prompts that come first: the agent's, the
/// environment's, and those of the files that go with them.
pub proof fn the_sender_is_told_behind_the_header(
    remembered: Seq<MessageView>,
    parts: PromptParts,
)
    requires
        parts.sender_prompt is Some,
        remembered.len() >= 2,
    ensures
        ({
            let at = 2 + (if parts.has_agent_md {
                1int
            } else {
                0int
            }) + (if parts.has_soul_md {
                1int
            } else {
                0int
            });
            turn_history(remembered, parts)[at] == plain_message(
                Role::System,
                parts.sender_prompt->0@,
            )
        }),
{
    let h = with_skills(with_header(remembered, parts), parts);
    the_skills_displace_nothing(remembered, parts);
    a_prompt_displaces_nothing(h, header_count(parts), parts.sender_prompt->0@);
}

proof fn the_skills_displace_nothing(remembered: Seq<MessageView>, parts: PromptParts)
    ensures
        with_skills(with_header(remembered, parts), parts).len() >= remembered.len() + 2,
{
    let h0 = with_header(remembered, parts);
    assert(h0.len() == remembered.len() + 2);
    let at = header_count(parts);
    let docs = document_views(parts.skill_injections@);
    lemma_injections_len(h0, at, docs, parts.tools);
}

proof fn lemma_injections_len(
    history: Seq<MessageView>,
    index: int,
    skills: Seq<crate::skill::types::DocumentView>,
    t: SkillPromptToolAvailability,
)
    requires
        index >= 0,
    ensures
        with_injections(history, index, skills, t).len() == history.len() + skills.len(),
    decreases skills.len(),
{
    if skills.len() > 0 {
        lemma_injections_len(history, index, skills.drop_last(), t);
    }
}

} // verus!
