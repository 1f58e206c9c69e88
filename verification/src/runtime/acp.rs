//! An agent that answers over ACP.
use vstd::prelude::*;
use vstd::string::*;

use crate::error::{AgentError, ErrorView};
use crate::json::{no_fields, JsonMap, JsonValue, JsonView};
use crate::message::{
    copy_messages, insert_system, message_views, option_text, with_system_at, Content, ContentView,
    Message, MessageView,
};
use crate::profile::ModelProfileConfig;
use crate::runtime::memory::{all_timed, fresh_messages, history_view, persist_turn, TurnRecord};
use crate::runtime::options::option_value;
use crate::runtime::prompting::{append_thread_todo_system_prompt, with_todo};
use crate::runtime::snapshot::{
    history_size, input_segments, model_input_snapshot_from_loop_input, total_tokens, LoopStart,
};
use crate::runtime::subagent::{a_session_remembers_what_was_said, opened_history, starts};
use crate::text::{decimal, decimal_text, trim, trimmed};
use crate::text_map::TextMap;

verus! {

broadcast use vstd::string::group_string_axioms;

pub open spec fn acp_thread(session: Seq<char>) -> Seq<char> {
    "acp:"@ + session
}

/// The thread of a session.
pub fn local_acp_thread_id(session_id: &str) -> (r: String)
    ensures
        r@ == acp_thread(session_id@),
{
    let mut t = "acp:".to_owned();
    t.push_str(session_id);
    t
}

/// Each session has a thread of its own.
pub proof fn sessions_have_their_own_threads(a: Seq<char>, b: Seq<char>)
    ensures
        acp_thread(a) == acp_thread(b) <==> a == b,
{
    if acp_thread(a) == acp_thread(b) {
        let n = "acp:"@.len() as int;
        assert(acp_thread(a).skip(n) =~= a);
        assert(acp_thread(b).skip(n) =~= b);
    }
}

/// What the agent of a session is told before a message.
pub open spec fn acp_history(
    remembered: Seq<MessageView>,
    system: Seq<char>,
    environment: Seq<char>,
    todo: Option<Seq<char>>,
) -> Seq<MessageView> {
    with_todo(with_system_at(with_system_at(remembered, 0, system), 1, environment), todo)
}

/// What the run for a message starts with.
pub fn acp_loop_start(
    session_id: &str,
    message: &str,
    remembered: Vec<Message>,
    system_prompt: &str,
    environment_prompt: &str,
    todo_prompt: &Option<String>,
    user_state: &JsonValue,
) -> (r: LoopStart)
    ensures
        starts(
            r,
            message@,
            acp_history(
                message_views(remembered@),
                system_prompt@,
                environment_prompt@,
                option_text(*todo_prompt),
            ),
            JsonView::Object(
                no_fields().push(("thread_id"@, JsonView::Text(acp_thread(session_id@)))),
            ),
            Some(user_state@),
        ),
{
    let mut history = remembered;
    insert_system(&mut history, 0, system_prompt);
    insert_system(&mut history, 1, environment_prompt);
    append_thread_todo_system_prompt(&mut history, todo_prompt);
    let thread_id = local_acp_thread_id(session_id);
    LoopStart {
        content: Content::text(message),
        history,
        metadata: Some(
            JsonValue::object(JsonMap::new().with("thread_id", JsonValue::text(&thread_id))),
        ),
        message_metadata: None,
        user_state: Some(user_state.copy()),
        user_name: None,
    }
}

/// What is said when a request is too large and cannot be made smaller.
pub fn acp_compression_failed(estimated: u32, budget: u32, error: &str) -> (r: String)
    ensures
        r@ == "ACP request exceeds context budget ("@ + decimal(estimated as nat) + " > "@
            + decimal(budget as nat) + ") and compression failed: "@ + error@,
{
    let mut m = "ACP request exceeds context budget (".to_owned();
    m.push_str(&decimal_text(estimated as u64));
    m.push_str(" > ");
    m.push_str(&decimal_text(budget as u64));
    m.push_str(") and compression failed: ");
    m.push_str(error);
    m
}

/// How large the request for a message is, where that is more than the budget.
pub fn acp_excess(
    session_id: &str,
    start: &LoopStart,
    profile: &ModelProfileConfig,
    budget: u32,
) -> (r: Option<u32>)
    requires
        history_size(message_views(start.history@)) + 4 < u64::MAX,
    ensures
        match r {
            None => total_tokens(input_segments(*start)) <= budget,
            Some(n) => n > budget && n == total_tokens(input_segments(*start)),
        },
{
    let thread_id = local_acp_thread_id(session_id);
    match model_input_snapshot_from_loop_input(
        Some(start),
        &thread_id,
        &None,
        &profile.id,
        &profile.model,
    ) {
        Some(snapshot) => {
            let estimated: u32 = snapshot.totals.estimated_tokens;
            if estimated <= budget {
                None
            } else {
                Some(estimated)
            }
        },
        None => None,
    }
}

/// An event of the run for a message.
#[derive(Debug)]
pub enum AcpEvent {
    Text(String),
    History(Vec<Message>, JsonValue),
    StateUpdate(JsonValue),
    Done,
    Error(String),
    Other,
}

/// The run for a message: what was said, and what is to be kept.
#[derive(Debug)]
pub struct LocalAcpRun {
    pub session_id: String,
    pub text: String,
    pub raw_history: Option<Vec<Message>>,
    pub raw_user_state: Option<JsonValue>,
}

pub struct AcpRunView {
    pub session_id: Seq<char>,
    pub text: Seq<char>,
    pub raw_history: Option<Seq<MessageView>>,
    pub raw_user_state: Option<JsonView>,
}

impl View for LocalAcpRun {
    type V = AcpRunView;

    open spec fn view(&self) -> AcpRunView {
        AcpRunView {
            session_id: self.session_id@,
            text: self.text@,
            raw_history: history_view(self.raw_history),
            raw_user_state: option_value(self.raw_user_state),
        }
    }
}

/// Whether the run goes on after an event.
#[derive(Debug)]
pub enum AcpStep {
    Continue,
    Finish,
    Fail(String),
}

/// The run after an event.
pub open spec fn heard(run: AcpRunView, event: AcpEvent) -> AcpRunView {
    match event {
        AcpEvent::Text(delta) => AcpRunView { text: run.text + delta@, ..run },
        AcpEvent::History(messages, state) => AcpRunView {
            raw_history: Some(message_views(messages@)),
            raw_user_state: Some(state@),
            ..run
        },
        AcpEvent::StateUpdate(state) => AcpRunView { raw_user_state: Some(state@), ..run },
        _ => run,
    }
}

impl LocalAcpRun {
    pub fn new(session_id: &str) -> (r: LocalAcpRun)
        ensures
            r@ == (AcpRunView {
                session_id: session_id@,
                text: Seq::empty(),
                raw_history: None,
                raw_user_state: None,
            }),
    {
        let r = LocalAcpRun {
            session_id: session_id.to_owned(),
            text: String::new(),
            raw_history: None,
            raw_user_state: None,
        };
        assert(r@.text =~= Seq::<char>::empty());
        r
    }

    /// Takes in an event.
    pub fn on_event(&mut self, event: AcpEvent) -> (r: AcpStep)
        ensures
            final(self)@ == heard(old(self)@, event),
            match event {
                AcpEvent::Done => r is Finish,
                AcpEvent::Error(e) => r is Fail && r->Fail_0@
                    == "local ACP agent failed for session "@ + old(self)@.session_id + ": "@ + e@,
                _ => r is Continue,
            },
    {
        match event {
            AcpEvent::Text(delta) => {
                self.text.push_str(&delta);
                AcpStep::Continue
            },
            AcpEvent::History(messages, state) => {
                self.raw_history = Some(messages);
                self.raw_user_state = Some(state);
                AcpStep::Continue
            },
            AcpEvent::StateUpdate(state) => {
                self.raw_user_state = Some(state);
                AcpStep::Continue
            },
            AcpEvent::Done => AcpStep::Finish,
            AcpEvent::Error(e) => {
                let mut m = "local ACP agent failed for session ".to_owned();
                m.push_str(&self.session_id);
                m.push_str(": ");
                m.push_str(&e);
                AcpStep::Fail(m)
            },
            AcpEvent::Other => AcpStep::Continue,
        }
    }

    /// The run as it is.
    pub fn copy(&self) -> (r: LocalAcpRun)
        ensures
            r@ == self@,
    {
        LocalAcpRun {
            session_id: self.session_id.clone(),
            text: self.text.clone(),
            raw_history: match &self.raw_history {
                Some(h) => Some(copy_messages(h)),
                None => None,
            },
            raw_user_state: match &self.raw_user_state {
                Some(s) => Some(s.copy()),
                None => None,
            },
        }
    }

    /// Ends the run: what is to be written of it, and what the session is
    /// answered.
    pub fn finish(self, skip_count: usize) -> (r: (TurnRecord, Result<String, String>))
        ensures
            option_value(r.0.user_state) == self@.raw_user_state,
            match self@.raw_history {
                Some(all) => {
                    let fresh = fresh_messages(all, skip_count as int);
                    if fresh.len() == 0 {
                        r.0.messages is None
                    } else {
                        &&& r.0.messages is Some
                        &&& message_views(r.0.messages->0@) == fresh
                    }
                },
                None => r.0.messages is None,
            },
            if trimmed(self@.text).len() == 0 {
                &&& r.1 is Err
                &&& r.1->Err_0@ == "local ACP agent produced no text for session "@
                    + self@.session_id
            } else {
                r.1 is Ok && r.1->Ok_0@ == trimmed(self@.text)
            },
    {
        let answer = self.answer();
        let no_times: TextMap<u64> = TextMap::new();
        proof {
            if let Some(all) = self@.raw_history {
                lemma_nothing_is_timed(fresh_messages(all, skip_count as int), no_times@);
            }
        }
        let record = persist_turn(self.raw_history, self.raw_user_state, skip_count, &no_times);
        (record, answer)
    }

    /// What the session is answered.
    pub fn answer(&self) -> (r: Result<String, String>)
        ensures
            if trimmed(self@.text).len() == 0 {
                &&& r is Err
                &&& r->Err_0@ == "local ACP agent produced no text for session "@
                    + self@.session_id
            } else {
                r is Ok && r->Ok_0@ == trimmed(self@.text)
            },
    {
        let text = trim(&self.text);
        if text.unicode_len() == 0 {
            let mut m = "local ACP agent produced no text for session ".to_owned();
            m.push_str(&self.session_id);
            Err(m)
        } else {
            Ok(text)
        }
    }
}

proof fn lemma_nothing_is_timed(messages: Seq<MessageView>, times: Seq<(Seq<char>, u64)>)
    requires
        times.len() == 0,
    ensures
        all_timed(messages, times) == messages,
{
    assert(all_timed(messages, times) =~= messages);
}

/// What is said once a channel was taken off its session, or had none.
pub fn acp_unbind_channel(removed: bool) -> (r: &'static str)
    ensures
        r@ == (if removed {
            "ACP 绑定已解除。"@
        } else {
            "当前频道没有绑定 ACP session。"@
        }),
{
    if removed {
        "ACP 绑定已解除。"
    } else {
        "当前频道没有绑定 ACP session。"
    }
}

/// An error of the agent behind ACP.
pub fn acp_error(error: &str) -> (r: AgentError)
    ensures
        r@ == ErrorView::Tool("codex"@, error@),
{
    AgentError::tool("codex", error)
}

/// A session is told its prompts, all that it remembers, and what is still to do.
pub proof fn a_session_is_told_what_it_remembers(
    remembered: Seq<MessageView>,
    system: Seq<char>,
    environment: Seq<char>,
    todo: Option<Seq<char>>,
)
    ensures
        ({
            let r = acp_history(remembered, system, environment, todo);
            &&& r[0].content == ContentView::Text(system)
            &&& r[1].content == ContentView::Text(environment)
            &&& r.subrange(2, remembered.len() as int + 2) == remembered
            &&& todo matches Some(t) ==> r.len() == remembered.len() + 3 && r.last().content
                == ContentView::Text(t)
            &&& todo is None ==> r.len() == remembered.len() + 2
        }),
{
    a_session_remembers_what_was_said(system, environment, remembered);
    let h = opened_history(system, environment, remembered);
    let r = acp_history(remembered, system, environment, todo);
    assert(h.skip(2) == remembered);
    assert forall|i: int| 0 <= i < remembered.len() implies r[i + 2] == remembered[i] by {
        assert(h.skip(2)[i] == h[i + 2]);
    }
    assert(r.subrange(2, remembered.len() as int + 2) =~= remembered);
}

/// What a session hears of its run is kept: its words one after the other, the last
/// history, and the last state; and nothing that it heard before is lost by it.
pub proof fn what_is_heard_is_kept(run: AcpRunView, event: AcpEvent)
    ensures
        heard(run, event).session_id == run.session_id,
        event matches AcpEvent::Text(t) ==> heard(run, event).text == run.text + t@,
        !(event is Text) ==> heard(run, event).text == run.text,
        event matches AcpEvent::History(m, s) ==> heard(run, event).raw_history == Some(
            message_views(m@),
        ) && heard(run, event).raw_user_state == Some(s@),
        !(event is History) ==> heard(run, event).raw_history == run.raw_history,
        event matches AcpEvent::StateUpdate(s) ==> heard(run, event).raw_user_state == Some(s@),
        !(event is History) && !(event is StateUpdate) ==> heard(run, event).raw_user_state
            == run.raw_user_state,
{
}

} // verus!
