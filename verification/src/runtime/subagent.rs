//! A task that is handed to another agent.
use vstd::prelude::*;
use vstd::string::*;

use crate::error::{AgentError, ErrorView};
use crate::json::{
    as_text, field, fields_are_read_back, json_pretty_text, member, no_fields, render_json_pretty,
    set_field_is_read_back, with_field, JsonMap, JsonValue, JsonView,
};
use crate::message::{
    insert_system, message_views, option_text, with_system_at, Content, ContentView, Message,
    MessageView, Role,
};
use crate::outside::fresh_id;
use crate::runtime::delegates::RemiSubAgentTool;
use crate::runtime::memory::{history_view, persist_turn, turn_record, TurnRecord};
use crate::runtime::options::option_value;
use crate::runtime::snapshot::LoopStart;
use crate::sandbox::bash::name_char;
use crate::text::{
    chars_of, cut_within, is_ascii_alphanumeric, is_blank, occurs, occurs_at, texts, trim, trimmed,
    utf8_len,
};
use crate::text_map::TextMap;

verus! {

broadcast use vstd::string::group_string_axioms;

// ------------------------------------------------------------------- arguments

/// The task that a call names.
pub open spec fn task_text(arguments: JsonView) -> Seq<char> {
    match as_text(member(arguments, "task"@)) {
        Some(t) => t,
        None => Seq::empty(),
    }
}

/// The session that a call names, or what is wrong with its name.
pub open spec fn session_named(arguments: JsonView) -> Result<Option<Seq<char>>, Seq<char>> {
    match as_text(member(arguments, "named"@)) {
        Some(t) if trimmed(t).len() > 0 => {
            let named = trimmed(t);
            if utf8_len(named) > 64 {
                Err("named sub-agent session must be at most 64 characters"@)
            } else if exists|i: int| 0 <= i < named.len() && !name_char(#[trigger] named[i]) {
                Err(
                    "named sub-agent session may only contain ASCII letters, numbers, '-' and '_'"@,
                )
            } else {
                Ok(Some(named))
            }
        },
        _ => Ok(None),
    }
}

fn all_name_chars(s: &str) -> (r: bool)
    ensures
        r == !(exists|i: int| 0 <= i < s@.len() && !name_char(#[trigger] s@[i])),
{
    let chars = chars_of(s);
    let mut i: usize = 0;
    while i < chars.len()
        invariant
            i <= chars.len(),
            chars@ == s@,
            forall|j: int| 0 <= j < i ==> name_char(#[trigger] s@[j]),
        decreases chars.len() - i,
    {
        let c = chars[i];
        if !(is_ascii_alphanumeric(c) || c == '-' || c == '_') {
            assert(!name_char(s@[i as int]));
            return false;
        }
        i += 1;
    }
    true
}

/// What went wrong before a task was handed over.
pub open spec fn refusal(message: Seq<char>) -> ErrorView {
    ErrorView::Tool("sub-agent"@, message)
}

/// What a call comes to before the other agent has started.
pub open spec fn checked(arguments: JsonView, persistent_sessions: bool) -> Result<
    Option<Seq<char>>,
    Seq<char>,
> {
    if trimmed(task_text(arguments)).len() == 0 {
        Err("missing task"@)
    } else {
        match session_named(arguments) {
            Err(e) => Err(e),
            Ok(Some(_)) if !persistent_sessions => Err(
                "named sub-agent sessions are not enabled for this agent profile"@,
            ),
            Ok(named) => Ok(named),
        }
    }
}

/// The session of the given name, or one of its own.
pub open spec fn sub_thread(agent: Seq<char>, named: Option<Seq<char>>, id: Seq<char>) -> Seq<char> {
    match named {
        Some(n) => "subagent:"@ + agent + ":"@ + n,
        None => "subagent:"@ + id,
    }
}

/// A task that was handed over: to whom, and how it is called.
#[derive(Debug)]
pub struct SubAgentSession {
    pub thread_id: String,
    pub run_id: String,
    pub agent_name: String,
    pub title: Option<String>,
    pub task: String,
    /// Whether the session goes on after the task.
    pub persistent: bool,
    pub system_prompt: String,
}

impl RemiSubAgentTool {
    /// The title of a task.
    pub fn title_from_args(arguments: &JsonValue) -> (r: Option<String>)
        ensures
            option_text(r) == as_text(member(arguments@, "task"@)),
    {
        arguments.get_str("task")
    }

    /// The session that a call names.
    pub fn named_from_args(arguments: &JsonValue) -> (r: Result<Option<String>, AgentError>)
        ensures
            match session_named(arguments@) {
                Ok(named) => r is Ok && option_text(r->Ok_0) == named,
                Err(message) => r is Err && r->Err_0@ == refusal(message),
            },
    {
        let named = match arguments.get_str("named") {
            Some(t) => trim(&t),
            None => return Ok(None),
        };
        if named.unicode_len() == 0 {
            return Ok(None);
        }
        if cut_within(&named, 64).is_some() {
            return Err(
                AgentError::tool(
                    "sub-agent",
                    "named sub-agent session must be at most 64 characters",
                ),
            );
        }
        if !all_name_chars(&named) {
            return Err(
                AgentError::tool(
                    "sub-agent",
                    "named sub-agent session may only contain ASCII letters, numbers, '-' and '_'",
                ),
            );
        }
        Ok(Some(named))
    }

    /// Hands a task over.
    pub fn begin(&self, arguments: &JsonValue) -> (r: Result<SubAgentSession, AgentError>)
        ensures
            match checked(arguments@, self.persistent_sessions) {
                Err(message) => r is Err && r->Err_0@ == refusal(message),
                Ok(named) => {
                    &&& r is Ok
                    &&& r->Ok_0.task@ == task_text(arguments@)
                    &&& option_text(r->Ok_0.title) == as_text(member(arguments@, "task"@))
                    &&& r->Ok_0.agent_name@ == self.agent_name@
                    &&& r->Ok_0.persistent == (named is Some)
                    &&& r->Ok_0.system_prompt@ == self.system_prompt@
                    &&& r->Ok_0.run_id@.len() == 36
                    &&& exists|id: Seq<char>|
                        id.len() == 36 && r->Ok_0.thread_id@ == #[trigger] sub_thread(
                            self.agent_name@,
                            named,
                            id,
                        )
                },
            },
    {
        let task = match arguments.get_str("task") {
            Some(t) => t,
            None => String::new(),
        };
        assert(task@ =~= task_text(arguments@));
        if is_blank(&task) {
            return Err(AgentError::tool("sub-agent", "missing task"));
        }
        let named = match RemiSubAgentTool::named_from_args(arguments) {
            Ok(named) => named,
            Err(e) => return Err(e),
        };
        if named.is_some() && !self.persistent_sessions {
            return Err(
                AgentError::tool(
                    "sub-agent",
                    "named sub-agent sessions are not enabled for this agent profile",
                ),
            );
        }
        let title = RemiSubAgentTool::title_from_args(arguments);
        let persistent = named.is_some();
        let id = fresh_id();
        let mut thread_id = "subagent:".to_owned();
        match &named {
            Some(n) => {
                thread_id.push_str(&self.agent_name);
                thread_id.push_str(":");
                thread_id.push_str(n);
            },
            None => thread_id.push_str(&id),
        }
        assert(thread_id@ == sub_thread(self.agent_name@, option_text(named), id@));
        Ok(
            SubAgentSession {
                thread_id,
                run_id: fresh_id(),
                agent_name: self.agent_name.clone(),
                title,
                task,
                persistent,
                system_prompt: self.system_prompt.clone(),
            },
        )
    }
}

/// A named session is the same one whenever it is named, and no two are one:
/// the thread tells the agent and the name.
pub proof fn named_sessions_are_told_apart(
    a: Seq<char>,
    b: Seq<char>,
    m: Seq<char>,
    n: Seq<char>,
    id: Seq<char>,
    other_id: Seq<char>,
)
    requires
        forall|i: int| 0 <= i < m.len() ==> name_char(#[trigger] m[i]),
        forall|i: int| 0 <= i < n.len() ==> name_char(#[trigger] n[i]),
    ensures
        sub_thread(a, Some(m), id) == sub_thread(b, Some(n), other_id) <==> a == b && m == n,
{
    reveal_strlit(":");
    let s = sub_thread(a, Some(m), id);
    let t = sub_thread(b, Some(n), other_id);
    if s == t {
        let head = "subagent:"@.len() as int;
        assert(s.len() == head + a.len() + 1 + m.len());
        assert(t.len() == head + b.len() + 1 + n.len());
        assert(s[head + a.len()] == ':');
        assert(t[head + b.len()] == ':');
        if m.len() < n.len() {
            assert(t[head + a.len()] == n[head + a.len() - (head + b.len() + 1)]);
            assert(name_char(n[a.len() - b.len() - 1]));
            assert(false);
        }
        if n.len() < m.len() {
            assert(s[head + b.len()] == m[head + b.len() - (head + a.len() + 1)]);
            assert(name_char(m[b.len() - a.len() - 1]));
            assert(false);
        }
        assert forall|i: int| 0 <= i < a.len() implies a[i] == b[i] by {
            assert(s[head + i] == a[i]);
            assert(t[head + i] == b[i]);
        }
        assert(a =~= b);
        assert forall|i: int| 0 <= i < m.len() implies m[i] == n[i] by {
            assert(s[head + a.len() + 1 + i] == m[i]);
            assert(t[head + b.len() + 1 + i] == n[i]);
        }
        assert(m =~= n);
    }
}

// -------------------------------------------------------------------- metadata

/// What the other agent's requests carry.
pub open spec fn sub_metadata(
    parent: Option<JsonView>,
    parent_thread: Seq<char>,
    sub_thread: Seq<char>,
) -> JsonView {
    let fields = match parent {
        Some(JsonView::Object(fields)) => fields,
        _ => no_fields(),
    };
    let fields = with_field(fields, "thread_id"@, JsonView::Text(sub_thread));
    let fields = if field(fields, "parent_thread_id"@) is Some {
        fields
    } else {
        with_field(fields, "parent_thread_id"@, JsonView::Text(parent_thread))
    };
    JsonView::Object(with_field(fields, "subagent_run"@, JsonView::Text("true"@)))
}

/// What the other agent's requests carry: what those of the caller do, with the
/// thread of the task and the thread that it first came from.
pub fn subagent_metadata(
    metadata: Option<&JsonValue>,
    parent_thread_id: &str,
    sub_thread_id: &str,
) -> (r: JsonValue)
    ensures
        r@ == sub_metadata(
            match metadata {
                Some(m) => Some(m@),
                None => None,
            },
            parent_thread_id@,
            sub_thread_id@,
        ),
{
    let mut map = match metadata {
        Some(JsonValue::Object(map)) => map.copy(),
        _ => JsonMap::new(),
    };
    map.insert("thread_id", JsonValue::text(sub_thread_id));
    if !map.contains_key("parent_thread_id") {
        map.insert("parent_thread_id", JsonValue::text(parent_thread_id));
    }
    map.insert("subagent_run", JsonValue::text("true"));
    JsonValue::object(map)
}

// ---------------------------------------------------------------------- output

/// What a task came to, as the caller is told.
pub open spec fn result_value(
    thread: Seq<char>,
    run: Seq<char>,
    agent: Seq<char>,
    success: bool,
    final_output: Seq<char>,
    error: Option<Seq<char>>,
) -> JsonView {
    JsonView::Object(
        no_fields().push(("sub_session_id"@, JsonView::Text(thread))).push(
            ("sub_run_id"@, JsonView::Text(run)),
        ).push(("agent"@, JsonView::Text(agent))).push(("success"@, JsonView::Bool(success))).push(
            ("final_output"@, JsonView::Text(final_output)),
        ).push(
            (
                "error"@,
                match error {
                    Some(e) => JsonView::Text(e),
                    None => JsonView::Null,
                },
            ),
        ),
    )
}

/// What a task came to, as the caller is told.
pub fn format_subagent_tool_result(
    sub_thread_id: &str,
    sub_run_id: &str,
    agent_name: &str,
    success: bool,
    final_output: &str,
    error: Option<&str>,
) -> (r: String)
    ensures
        r@ == json_pretty_text(
            result_value(
                sub_thread_id@,
                sub_run_id@,
                agent_name@,
                success,
                final_output@,
                match error {
                    Some(e) => Some(e@),
                    None => None,
                },
            ),
        ),
{
    let error_value = match error {
        Some(e) => JsonValue::text(e),
        None => JsonValue::Null,
    };
    render_json_pretty(
        &JsonValue::object(
            JsonMap::new().with("sub_session_id", JsonValue::text(sub_thread_id)).with(
                "sub_run_id",
                JsonValue::text(sub_run_id),
            ).with("agent", JsonValue::text(agent_name)).with(
                "success",
                JsonValue::Bool(success),
            ).with("final_output", JsonValue::text(final_output)).with("error", error_value),
        ),
    )
}

/// What the caller sees of a task while it runs.
#[derive(Debug)]
#[allow(inconsistent_fields)]
pub enum ProtocolEvent {
    RunStart { thread_id: String, run_id: String },
    Delta { content: String },
    ThinkingEnd { content: String },
    ToolCallStart { id: String, name: String },
    ToolCallDelta { id: String, arguments_delta: String },
    ToolResult { id: String, name: String, result: String },
    Error { message: String },
    /// An event of the given type with a value.
    Custom { event_type: String, extra: JsonValue },
    Done,
}

/// What is said of a task that is done.
pub open spec fn done_event(event: ProtocolEvent, final_output: Option<Seq<char>>) -> bool {
    match final_output {
        Some(output) => {
            &&& event is Custom
            &&& event->event_type@ == "sub_session_done"@
            &&& event->extra@ == JsonView::Object(
                no_fields().push(("final_output"@, JsonView::Text(output))),
            )
        },
        None => event is Done,
    }
}

/// What is said of a task that is done.
pub fn sub_session_done_event(final_output: Option<String>) -> (r: ProtocolEvent)
    ensures
        done_event(r, option_text(final_output)),
{
    match final_output {
        Some(output) => ProtocolEvent::Custom {
            event_type: "sub_session_done".to_owned(),
            extra: JsonValue::object(
                JsonMap::new().with("final_output", JsonValue::text(&output)),
            ),
        },
        None => ProtocolEvent::Done,
    }
}

/// What the other agent says last, where that is something.
pub open spec fn said_last(final_output: Seq<char>) -> Option<Seq<char>> {
    if trimmed(final_output).len() == 0 {
        None
    } else {
        Some(final_output)
    }
}

/// What the other agent does, as far as a caller sees it as it is.
#[derive(Debug)]
#[allow(inconsistent_fields)]
pub enum RelayedEvent {
    Thinking { content: String },
    ToolCall { id: String, name: String },
    ToolCallArgumentsDelta { id: String, delta: String },
    ToolCallResult { id: String, name: String, result: String },
}

/// What the caller sees of what the other agent does.
pub fn relay(event: RelayedEvent) -> (r: ProtocolEvent)
    ensures
        match event {
            RelayedEvent::Thinking { content } => r == (ProtocolEvent::ThinkingEnd { content }),
            RelayedEvent::ToolCall { id, name } => r == (ProtocolEvent::ToolCallStart { id, name }),
            RelayedEvent::ToolCallArgumentsDelta { id, delta } => r
                == (ProtocolEvent::ToolCallDelta { id, arguments_delta: delta }),
            RelayedEvent::ToolCallResult { id, name, result } => r
                == (ProtocolEvent::ToolResult { id, name, result }),
        },
{
    match event {
        RelayedEvent::Thinking { content } => ProtocolEvent::ThinkingEnd { content },
        RelayedEvent::ToolCall { id, name } => ProtocolEvent::ToolCallStart { id, name },
        RelayedEvent::ToolCallArgumentsDelta { id, delta } => ProtocolEvent::ToolCallDelta {
            id,
            arguments_delta: delta,
        },
        RelayedEvent::ToolCallResult { id, name, result } => ProtocolEvent::ToolResult {
            id,
            name,
            result,
        },
    }
}

/// The last that a caller hears of a task: an event, and the result.
#[derive(Debug)]
pub struct SubAgentEnd {
    pub event: ProtocolEvent,
    pub result: String,
}

// --------------------------------------------------------------------- opening

/// The task with what the hooks add to it.
pub open spec fn task_with_contexts(task: Seq<char>, contexts: Seq<Seq<char>>) -> Seq<char>
    decreases contexts.len(),
{
    if contexts.len() == 0 {
        task
    } else {
        task_with_contexts(task, contexts.drop_last()) + "\n\n"@
            + "Hook SubagentStart provided additional context:\n"@ + contexts.last()
    }
}

/// The history that a session starts with: what the agent is told, what it is
/// told of the machine, and what was said before.
pub open spec fn opened_history(
    system: Seq<char>,
    environment: Seq<char>,
    before: Seq<MessageView>,
) -> Seq<MessageView> {
    with_system_at(with_system_at(before, 0, system), 1, environment)
}

/// Whether what a loop starts with is the given text, history and values.
pub open spec fn starts(
    start: LoopStart,
    text: Seq<char>,
    history: Seq<MessageView>,
    metadata: JsonView,
    state: Option<JsonView>,
) -> bool {
    &&& start.content@ == ContentView::Text(text)
    &&& message_views(start.history@) == history
    &&& option_value(start.metadata) == Some(metadata)
    &&& start.message_metadata is None
    &&& start.user_name is None
    &&& option_value(start.user_state) == state
}

/// What a session keeps between tasks.
#[derive(Debug)]
pub struct LoadedSession {
    /// What was said before.
    pub history: Vec<Message>,
    pub user_state: JsonValue,
    /// What the agent is told of the machine.
    pub environment_prompt: String,
}

impl SubAgentSession {
    /// The task with what the hooks add to it.
    pub fn task_with_contexts(&self, contexts: &Vec<String>) -> (r: String)
        ensures
            r@ == task_with_contexts(self.task@, texts(contexts@)),
    {
        let ghost all = texts(contexts@);
        let mut task = self.task.clone();
        let mut i: usize = 0;
        assert(all.take(0) =~= Seq::empty());
        while i < contexts.len()
            invariant
                i <= contexts.len(),
                all == texts(contexts@),
                task@ == task_with_contexts(self.task@, all.take(i as int)),
            decreases contexts.len() - i,
        {
            assert(all.take(i + 1).drop_last() =~= all.take(i as int));
            task.push_str("\n\n");
            task.push_str("Hook SubagentStart provided additional context:\n");
            task.push_str(&contexts[i]);
            i += 1;
        }
        assert(all.take(i as int) =~= all);
        task
    }

    /// The first that a caller sees of a task.
    pub fn run_start(&self) -> (r: ProtocolEvent)
        ensures
            r is RunStart,
            r->thread_id@ == self.thread_id@,
            r->run_id@ == self.run_id@,
    {
        ProtocolEvent::RunStart {
            thread_id: self.thread_id.clone(),
            run_id: self.run_id.clone(),
        }
    }

    /// What a session that lasts only for its task starts with.
    pub fn open_fresh(
        &self,
        task: &str,
        metadata: &JsonValue,
        user_state: JsonValue,
        environment_prompt: &str,
    ) -> (r: LoopStart)
        ensures
            starts(
                r,
                task@,
                opened_history(self.system_prompt@, environment_prompt@, Seq::empty()),
                metadata@,
                Some(user_state@),
            ),
    {
        self.open_loaded(
            task,
            metadata,
            LoadedSession {
                history: Vec::new(),
                user_state,
                environment_prompt: environment_prompt.to_owned(),
            },
        )
    }

    /// What a session that goes on starts with.
    pub fn open_loaded(&self, task: &str, metadata: &JsonValue, loaded: LoadedSession) -> (r:
        LoopStart)
        ensures
            starts(
                r,
                task@,
                opened_history(
                    self.system_prompt@,
                    loaded.environment_prompt@,
                    message_views(loaded.history@),
                ),
                metadata@,
                Some(loaded.user_state@),
            ),
            loaded.history@.len() == 0 ==> message_views(loaded.history@) == Seq::<
                MessageView,
            >::empty(),
    {
        assert(loaded.history@.len() == 0 ==> message_views(loaded.history@) =~= Seq::<
            MessageView,
        >::empty());
        let mut history = loaded.history;
        insert_system(&mut history, 0, &self.system_prompt);
        insert_system(&mut history, 1, &loaded.environment_prompt);
        LoopStart {
            content: Content::text(task),
            history,
            metadata: Some(metadata.copy()),
            message_metadata: None,
            user_state: Some(loaded.user_state),
            user_name: None,
        }
    }

    fn end(&self, success: bool, output: &str, error: Option<&str>, event: ProtocolEvent) -> (r:
        SubAgentEnd)
        ensures
            r.event == event,
            r.result@ == json_pretty_text(
                result_value(
                    self.thread_id@,
                    self.run_id@,
                    self.agent_name@,
                    success,
                    output@,
                    match error {
                        Some(e) => Some(e@),
                        None => None,
                    },
                ),
            ),
    {
        SubAgentEnd {
            event,
            result: format_subagent_tool_result(
                &self.thread_id,
                &self.run_id,
                &self.agent_name,
                success,
                output,
                error,
            ),
        }
    }

    /// The last of a task whose session could not be loaded.
    pub fn load_failed(&self, error: &str) -> (r: SubAgentEnd)
        ensures
            r.event is Error,
            r.event->message@ == "failed to load sub-agent session: "@ + error@,
            r.result@ == json_pretty_text(
                result_value(
                    self.thread_id@,
                    self.run_id@,
                    self.agent_name@,
                    false,
                    ""@,
                    Some(error@),
                ),
            ),
    {
        let mut message = "failed to load sub-agent session: ".to_owned();
        message.push_str(error);
        self.end(false, "", Some(error), ProtocolEvent::Error { message })
    }
}

// ------------------------------------------------------------------------- run

/// A task that runs.
#[derive(Debug)]
pub struct SubAgentRun {
    pub session: SubAgentSession,
    pub final_output: String,
    pub skip_count: usize,
    pub raw_history: Option<Vec<Message>>,
    pub raw_user_state: Option<JsonValue>,
    pub stop_hook_active: bool,
}

pub struct RunView {
    pub final_output: Seq<char>,
    pub skip_count: nat,
    pub raw_history: Option<Seq<MessageView>>,
    pub raw_user_state: Option<JsonView>,
    pub stop_hook_active: bool,
}

impl View for SubAgentRun {
    type V = RunView;

    open spec fn view(&self) -> RunView {
        RunView {
            final_output: self.final_output@,
            skip_count: self.skip_count as nat,
            raw_history: history_view(self.raw_history),
            raw_user_state: option_value(self.raw_user_state),
            stop_hook_active: self.stop_hook_active,
        }
    }
}

/// Whether what is to be written are the messages behind the first `skip` of a
/// history, and a state.
pub open spec fn writes(
    record: TurnRecord,
    history: Option<Seq<MessageView>>,
    state: Option<JsonView>,
    skip: nat,
) -> bool {
    record@ == turn_record(history, state, skip as int, Seq::empty())
}

/// What a hook says when an agent wants to stop.
#[derive(Debug)]
pub struct StopHookReply {
    pub blocked: bool,
    pub continue_flow: Option<bool>,
    pub reason: Option<String>,
}

/// Whether a hook wants more.
pub open spec fn wants_more(reply: StopHookReply) -> bool {
    reply.blocked || reply.continue_flow == Some(false)
}

/// Whether a task goes on for what a hook says.
pub open spec fn may_go_on(run: RunView, reply: StopHookReply) -> bool {
    wants_more(reply) && !run.stop_hook_active
}

/// How a task goes on after it was done once.
#[derive(Debug)]
pub enum StopStep {
    /// The session is to be loaded again, and this is said next.
    Reload(String),
    /// The loop starts anew.
    Restart(LoopStart),
    Finish(SubAgentEnd),
}

/// What is said when a hook wants more.
pub open spec fn one_more_pass(reply: StopHookReply) -> Seq<char> {
    match reply.reason {
        Some(r) => r@,
        None => "Run one more focused pass inside the subagent."@,
    }
}

/// What is asked of the hooks when the other agent wants to stop.
pub open spec fn stop_payload(session: SubAgentSession, run: RunView) -> JsonView {
    JsonView::Object(
        no_fields().push(("agent_id"@, JsonView::Text(session.thread_id@))).push(
            ("agent_type"@, JsonView::Text(session.agent_name@)),
        ).push(("agent_transcript_path"@, JsonView::Null)).push(
            ("stop_hook_active"@, JsonView::Bool(run.stop_hook_active)),
        ).push(("last_assistant_message"@, JsonView::Text(run.final_output))),
    )
}

/// What is asked of the hooks when the other agent starts.
pub open spec fn start_payload(session: SubAgentSession) -> JsonView {
    JsonView::Object(
        no_fields().push(("agent_id"@, JsonView::Text(session.thread_id@))).push(
            ("agent_type"@, JsonView::Text(session.agent_name@)),
        ).push(("agent_transcript_path"@, JsonView::Null)),
    )
}

impl SubAgentSession {
    /// What is asked of the hooks when the other agent starts.
    pub fn start_hook_payload(&self) -> (r: JsonValue)
        ensures
            r@ == start_payload(*self),
    {
        JsonValue::object(
            JsonMap::new().with("agent_id", JsonValue::text(&self.thread_id)).with(
                "agent_type",
                JsonValue::text(&self.agent_name),
            ).with("agent_transcript_path", JsonValue::Null),
        )
    }
}

/// The last of a task that went well.
pub open spec fn ends_well(end: SubAgentEnd, session: SubAgentSession, output: Seq<char>) -> bool {
    &&& done_event(end.event, said_last(output))
    &&& end.result@ == json_pretty_text(
        result_value(
            session.thread_id@,
            session.run_id@,
            session.agent_name@,
            true,
            output,
            None,
        ),
    )
}

impl SubAgentRun {
    /// A task that has just started, with a history of `skip_count` messages.
    pub fn new(session: SubAgentSession, skip_count: usize) -> (r: SubAgentRun)
        ensures
            r.session == session,
            r@ == (RunView {
                final_output: Seq::empty(),
                skip_count: skip_count as nat,
                raw_history: None,
                raw_user_state: None,
                stop_hook_active: false,
            }),
    {
        let r = SubAgentRun {
            session,
            final_output: String::new(),
            skip_count,
            raw_history: None,
            raw_user_state: None,
            stop_hook_active: false,
        };
        assert(r@.final_output =~= Seq::<char>::empty());
        r
    }

    fn record(&self, history: Option<Vec<Message>>, user_state: Option<JsonValue>) -> (r: TurnRecord)
        ensures
            writes(
                r,
                history_view(history),
                option_value(user_state),
                self.skip_count as nat,
            ),
    {
        let none: TextMap<u64> = TextMap::new();
        persist_turn(history, user_state, self.skip_count, &none)
    }

    /// The history has grown: in a session that goes on, what is new of it is
    /// written; else it is kept.
    pub fn on_history(&mut self, messages: Vec<Message>, user_state: JsonValue) -> (r: Option<
        TurnRecord,
    >)
        ensures
            final(self).session == old(self).session,
            if old(self).session.persistent {
                &&& r is Some
                &&& writes(
                    r->0,
                    Some(message_views(messages@)),
                    Some(user_state@),
                    old(self)@.skip_count,
                )
                &&& final(self)@ == (RunView {
                    skip_count: messages@.len(),
                    ..old(self)@
                })
            } else {
                &&& r is None
                &&& final(self)@ == (RunView {
                    raw_history: Some(message_views(messages@)),
                    raw_user_state: Some(user_state@),
                    ..old(self)@
                })
            },
    {
        if self.session.persistent {
            let next: usize = messages.len();
            let record = self.record(Some(messages), Some(user_state));
            self.skip_count = next;
            Some(record)
        } else {
            self.raw_history = Some(messages);
            self.raw_user_state = Some(user_state);
            None
        }
    }

    /// The state has changed.
    pub fn on_state(&mut self, user_state: JsonValue) -> (r: Option<TurnRecord>)
        ensures
            final(self).session == old(self).session,
            if old(self).session.persistent {
                &&& r is Some
                &&& writes(r->0, None, Some(user_state@), old(self)@.skip_count)
                &&& final(self)@ == old(self)@
            } else {
                &&& r is None
                &&& final(self)@ == (RunView {
                    raw_user_state: Some(user_state@),
                    ..old(self)@
                })
            },
    {
        if self.session.persistent {
            Some(self.record(None, Some(user_state)))
        } else {
            self.raw_user_state = Some(user_state);
            None
        }
    }

    /// The other agent said more.
    pub fn on_text(&mut self, content: String) -> (r: ProtocolEvent)
        ensures
            final(self).session == old(self).session,
            final(self)@ == (RunView {
                final_output: old(self)@.final_output + content@,
                ..old(self)@
            }),
            r is Delta,
            r->Delta_content@ == content@,
    {
        self.final_output.push_str(&content);
        ProtocolEvent::Delta { content }
    }

    /// The other agent is done: what is to be written, and what the hooks are
    /// asked.
    pub fn on_done(&mut self) -> (r: (Option<TurnRecord>, JsonValue))
        ensures
            final(self).session == old(self).session,
            r.1@ == stop_payload(old(self).session, old(self)@),
            if old(self).session.persistent {
                &&& r.0 is Some
                &&& writes(
                    r.0->0,
                    old(self)@.raw_history,
                    old(self)@.raw_user_state,
                    old(self)@.skip_count,
                )
                &&& final(self)@ == (RunView {
                    raw_history: None,
                    raw_user_state: None,
                    ..old(self)@
                })
            } else {
                r.0 is None && final(self)@ == old(self)@
            },
    {
        let payload = JsonValue::object(
            JsonMap::new().with("agent_id", JsonValue::text(&self.session.thread_id)).with(
                "agent_type",
                JsonValue::text(&self.session.agent_name),
            ).with("agent_transcript_path", JsonValue::Null).with(
                "stop_hook_active",
                JsonValue::Bool(self.stop_hook_active),
            ).with("last_assistant_message", JsonValue::text(&self.final_output)),
        );
        if self.session.persistent {
            let history = self.raw_history.take();
            let user_state = self.raw_user_state.take();
            (Some(self.record(history, user_state)), payload)
        } else {
            (None, payload)
        }
    }

    /// What follows from what the hooks say: one more pass where they want it
    /// for the first time, else the end.
    pub fn on_stop_hook(&mut self, reply: StopHookReply, metadata: &JsonValue) -> (r: StopStep)
        ensures
            final(self).session == old(self).session,
            if may_go_on(old(self)@, reply) {
                &&& final(self)@.stop_hook_active
                &&& final(self)@.raw_user_state is None
                &&& final(self)@.final_output == old(self)@.final_output
                &&& if old(self).session.persistent {
                    &&& r is Reload
                    &&& r->Reload_0@ == one_more_pass(reply)
                    &&& final(self)@.skip_count == old(self)@.skip_count
                    &&& final(self)@.raw_history == old(self)@.raw_history
                } else {
                    &&& r is Restart
                    &&& final(self)@.raw_history is None
                    &&& starts(
                        r->Restart_0,
                        one_more_pass(reply),
                        match old(self)@.raw_history {
                            Some(h) => h,
                            None => Seq::empty(),
                        },
                        metadata@,
                        None,
                    )
                    &&& final(self)@.skip_count == match old(self)@.raw_history {
                        Some(h) => h.len(),
                        None => old(self)@.skip_count,
                    }
                }
            } else {
                &&& final(self)@ == old(self)@
                &&& r is Finish
                &&& ends_well(r->Finish_0, old(self).session, old(self)@.final_output)
            },
    {
        let more = reply.blocked || matches!(reply.continue_flow, Some(false));
        if !more || self.stop_hook_active {
            return StopStep::Finish(self.on_end());
        }
        let message = match reply.reason {
            Some(r) => r,
            None => "Run one more focused pass inside the subagent.".to_owned(),
        };
        self.stop_hook_active = true;
        self.raw_user_state = None;
        if self.session.persistent {
            return StopStep::Reload(message);
        }
        let history = match self.raw_history.take() {
            Some(h) => {
                self.skip_count = h.len();
                h
            },
            None => Vec::new(),
        };
        assert(message_views(Seq::<Message>::empty()) =~= Seq::<MessageView>::empty());
        StopStep::Restart(
            LoopStart {
                content: Content::text(&message),
                history,
                metadata: Some(metadata.copy()),
                message_metadata: None,
                user_state: None,
                user_name: None,
            },
        )
    }

    /// The session was loaded again for one more pass, as far as it could be.
    pub fn on_reload(&mut self, message: &str, metadata: &JsonValue, loaded: Option<LoadedSession>) -> (r:
        LoopStart)
        ensures
            final(self).session == old(self).session,
            match loaded {
                Some(l) => {
                    let history = opened_history(
                        old(self).session.system_prompt@,
                        l.environment_prompt@,
                        message_views(l.history@),
                    );
                    &&& starts(r, message@, history, metadata@, Some(l.user_state@))
                    &&& final(self)@ == (RunView { skip_count: history.len(), ..old(self)@ })
                },
                None => {
                    &&& starts(r, message@, Seq::empty(), metadata@, None)
                    &&& final(self)@ == old(self)@
                },
            },
    {
        match loaded {
            Some(l) => {
                let start = self.session.open_loaded(message, metadata, l);
                assert(message_views(start.history@).len() == start.history@.len());
                self.skip_count = start.history.len();
                start
            },
            None => {
                assert(message_views(Seq::<Message>::empty()) =~= Seq::<MessageView>::empty());
                LoopStart {
                    content: Content::text(message),
                    history: Vec::new(),
                    metadata: Some(metadata.copy()),
                    message_metadata: None,
                    user_state: None,
                    user_name: None,
                }
            },
        }
    }

    /// The last of a task that went well.
    pub fn on_end(&self) -> (r: SubAgentEnd)
        ensures
            ends_well(r, self.session, self@.final_output),
    {
        let output = if is_blank(&self.final_output) {
            None
        } else {
            Some(self.final_output.clone())
        };
        self.session.end(true, &self.final_output, None, sub_session_done_event(output))
    }

    /// The last of a task that failed: what is to be written, and what the
    /// caller hears.
    pub fn on_error(&mut self, message: &str) -> (r: (Option<TurnRecord>, SubAgentEnd))
        ensures
            final(self).session == old(self).session,
            r.1.event is Error,
            r.1.event->message@ == message@,
            r.1.result@ == json_pretty_text(
                result_value(
                    old(self).session.thread_id@,
                    old(self).session.run_id@,
                    old(self).session.agent_name@,
                    false,
                    ""@,
                    Some(message@),
                ),
            ),
            if old(self).session.persistent {
                &&& r.0 is Some
                &&& writes(
                    r.0->0,
                    old(self)@.raw_history,
                    old(self)@.raw_user_state,
                    old(self)@.skip_count,
                )
                &&& final(self)@ == (RunView {
                    raw_history: None,
                    raw_user_state: None,
                    ..old(self)@
                })
            } else {
                r.0 is None && final(self)@ == old(self)@
            },
    {
        let record = if self.session.persistent {
            let history = self.raw_history.take();
            let user_state = self.raw_user_state.take();
            Some(self.record(history, user_state))
        } else {
            None
        };
        let end = self.session.end(
            false,
            "",
            Some(message),
            ProtocolEvent::Error { message: message.to_owned() },
        );
        (record, end)
    }
}

/// The hooks get one more pass out of an agent at most: once they had it, the
/// agent's next stop is the end, whatever they say.
pub proof fn one_more_pass_at_most(run: RunView, first: StopHookReply, second: StopHookReply)
    ensures
        may_go_on(run, first) ==> !may_go_on(RunView { stop_hook_active: true, ..run }, second),
{
}

/// A session starts with what the agent is told, what it is told of the machine,
/// and behind that exactly what was said before.
pub proof fn a_session_remembers_what_was_said(
    system: Seq<char>,
    environment: Seq<char>,
    before: Seq<MessageView>,
)
    ensures
        ({
            let r = opened_history(system, environment, before);
            &&& r.len() == before.len() + 2
            &&& r[0].role == Role::System && r[0].content == ContentView::Text(system)
            &&& r[1].role == Role::System && r[1].content == ContentView::Text(environment)
            &&& r.skip(2) == before
        }),
{
    let r = opened_history(system, environment, before);
    assert(r.skip(2) =~= before);
}

/// The task that an agent is given begins with what the caller said, and holds
/// all that the hooks add.
pub proof fn a_task_holds_what_was_asked(task: Seq<char>, contexts: Seq<Seq<char>>)
    ensures
        task.is_prefix_of(task_with_contexts(task, contexts)),
        contexts.len() == 0 ==> task_with_contexts(task, contexts) == task,
        forall|i: int|
            0 <= i < contexts.len() ==> occurs(
                task_with_contexts(task, contexts),
                #[trigger] contexts[i],
            ),
    decreases contexts.len(),
{
    let all = task_with_contexts(task, contexts);
    if contexts.len() > 0 {
        let head = contexts.drop_last();
        let before = task_with_contexts(task, head);
        a_task_holds_what_was_asked(task, head);
        assert(task =~= all.subrange(0, task.len() as int)) by {
            assert(before.subrange(0, task.len() as int) == task);
            assert(all.subrange(0, task.len() as int) =~= before.subrange(0, task.len() as int));
        }
        assert forall|i: int| 0 <= i < contexts.len() implies occurs(
            all,
            #[trigger] contexts[i],
        ) by {
            if i < head.len() {
                assert(head[i] == contexts[i]);
                let k = choose|k: int| occurs_at(before, contexts[i], k);
                assert(all.subrange(k, k + contexts[i].len()) =~= before.subrange(
                    k,
                    k + contexts[i].len(),
                ));
                assert(occurs_at(all, contexts[i], k));
            } else {
                let k = all.len() - contexts[i].len();
                assert(all.subrange(k, k + contexts[i].len()) =~= contexts[i]);
                assert(occurs_at(all, contexts[i], k));
            }
        }
    } else {
        assert(task =~= task.subrange(0, task.len() as int));
    }
}

// ------------------------------------------------------------------- what it tells

/// A call is taken where it gives a task, and where it names a session the name is
/// one that may be used and sessions may be named; the session is the one it names.
pub proof fn what_a_call_needs(arguments: JsonView, persistent_sessions: bool)
    ensures
        ({
            let named = as_text(member(arguments, "named"@));
            let wants_name = named is Some && trimmed(named->0).len() > 0;
            let name = trimmed(named->0);
            let good_name = utf8_len(name) <= 64 && forall|i: int|
                0 <= i < name.len() ==> name_char(#[trigger] name[i]);
            let task = as_text(member(arguments, "task"@));
            let r = checked(arguments, persistent_sessions);
            &&& r is Ok <==> task is Some && trimmed(task->0).len() > 0 && (wants_name ==> good_name
                && persistent_sessions)
            &&& r is Ok ==> r->Ok_0 == (if wants_name {
                Some(name)
            } else {
                None
            })
        }),
{
    assert(trimmed(Seq::<char>::empty()).len() == 0);
    let name = trimmed(as_text(member(arguments, "named"@))->0);
    if !(forall|i: int| 0 <= i < name.len() ==> name_char(#[trigger] name[i])) {
        let k = choose|i: int| 0 <= i < name.len() && !name_char(#[trigger] name[i]);
        assert(!name_char(name[k]));
    }
}

/// A session that is not named is one of its own: its thread tells its id.
pub proof fn unnamed_sessions_are_their_own(agent: Seq<char>, a: Seq<char>, b: Seq<char>)
    ensures
        sub_thread(agent, None, a) == sub_thread(agent, None, b) <==> a == b,
        "subagent:"@.is_prefix_of(sub_thread(agent, None, a)),
{
    let p = "subagent:"@;
    assert(sub_thread(agent, None, a).skip(p.len() as int) =~= a);
    assert(sub_thread(agent, None, b).skip(p.len() as int) =~= b);
    assert(p =~= sub_thread(agent, None, a).subrange(0, p.len() as int));
}

/// The other agent is told its own thread, that it runs for another agent, and the
/// thread that the task first came from; and what the caller was told beside that.
pub proof fn the_other_agent_knows_its_place(
    parent: Option<JsonView>,
    parent_thread: Seq<char>,
    thread: Seq<char>,
    other: Seq<char>,
)
    ensures
        ({
            let m = sub_metadata(parent, parent_thread, thread);
            let before = match parent {
                Some(p) => member(p, "parent_thread_id"@),
                None => None,
            };
            &&& member(m, "thread_id"@) == Some(JsonView::Text(thread))
            &&& member(m, "subagent_run"@) == Some(JsonView::Text("true"@))
            &&& member(m, "parent_thread_id"@) == (match before {
                Some(v) => Some(v),
                None => Some(JsonView::Text(parent_thread)),
            })
            &&& other != "thread_id"@ && other != "subagent_run"@ && other != "parent_thread_id"@
                ==> member(m, other) == (match parent {
                Some(p) => member(p, other),
                None => None,
            })
        }),
{
    reveal_strlit("thread_id");
    reveal_strlit("parent_thread_id");
    reveal_strlit("subagent_run");
    let t = "thread_id"@;
    let p = "parent_thread_id"@;
    let u = "subagent_run"@;
    assert(t.len() != p.len() && t.len() != u.len() && p.len() != u.len());
    let f0 = match parent {
        Some(JsonView::Object(fields)) => fields,
        _ => no_fields(),
    };
    let f1 = with_field(f0, t, JsonView::Text(thread));
    let f2 = if field(f1, p) is Some {
        f1
    } else {
        with_field(f1, p, JsonView::Text(parent_thread))
    };
    set_field_is_read_back(f0, t, JsonView::Text(thread), p);
    set_field_is_read_back(f0, t, JsonView::Text(thread), other);
    set_field_is_read_back(f1, p, JsonView::Text(parent_thread), t);
    set_field_is_read_back(f1, p, JsonView::Text(parent_thread), other);
    set_field_is_read_back(f2, u, JsonView::Text("true"@), t);
    set_field_is_read_back(f2, u, JsonView::Text("true"@), p);
    set_field_is_read_back(f2, u, JsonView::Text("true"@), other);
}

/// The caller is told which session and run the result is of, whether the task went
/// well, what the other agent said last, and what went wrong.
pub proof fn a_result_tells_what_came_of_the_task(
    thread: Seq<char>,
    run: Seq<char>,
    agent: Seq<char>,
    success: bool,
    final_output: Seq<char>,
    error: Option<Seq<char>>,
)
    ensures
        ({
            let r = result_value(thread, run, agent, success, final_output, error);
            &&& member(r, "sub_session_id"@) == Some(JsonView::Text(thread))
            &&& member(r, "sub_run_id"@) == Some(JsonView::Text(run))
            &&& member(r, "agent"@) == Some(JsonView::Text(agent))
            &&& member(r, "success"@) == Some(JsonView::Bool(success))
            &&& member(r, "final_output"@) == Some(JsonView::Text(final_output))
            &&& member(r, "error"@) == Some(
                match error {
                    Some(e) => JsonView::Text(e),
                    None => JsonView::Null,
                },
            )
        }),
{
    reveal_strlit("sub_session_id");
    reveal_strlit("sub_run_id");
    reveal_strlit("agent");
    reveal_strlit("success");
    reveal_strlit("final_output");
    reveal_strlit("error");
    assert("agent"@[0] != "error"@[0]);
    let f = result_value(thread, run, agent, success, final_output, error)->Object_0;
    assert(f[0].0 == "sub_session_id"@ && f[1].0 == "sub_run_id"@ && f[2].0 == "agent"@);
    assert(f[3].0 == "success"@ && f[4].0 == "final_output"@ && f[5].0 == "error"@);
    assert(f[0].0.len() == 14 && f[1].0.len() == 10 && f[2].0.len() == 5 && f[3].0.len() == 7);
    assert(f[4].0.len() == 12 && f[5].0.len() == 5);
    fields_are_read_back(f, 0);
    fields_are_read_back(f, 1);
    fields_are_read_back(f, 2);
    fields_are_read_back(f, 3);
    fields_are_read_back(f, 4);
    fields_are_read_back(f, 5);
}

/// The hooks of a task are told which agent runs in which thread; the one for its
/// end also what was said last, and whether it had its way before.
pub proof fn hooks_are_told_of_the_task(session: SubAgentSession, run: RunView)
    ensures
        member(start_payload(session), "agent_id"@) == Some(JsonView::Text(session.thread_id@)),
        member(start_payload(session), "agent_type"@) == Some(JsonView::Text(session.agent_name@)),
        member(stop_payload(session, run), "agent_id"@) == Some(
            JsonView::Text(session.thread_id@),
        ),
        member(stop_payload(session, run), "agent_type"@) == Some(
            JsonView::Text(session.agent_name@),
        ),
        member(stop_payload(session, run), "stop_hook_active"@) == Some(
            JsonView::Bool(run.stop_hook_active),
        ),
        member(stop_payload(session, run), "last_assistant_message"@) == Some(
            JsonView::Text(run.final_output),
        ),
{
    reveal_strlit("agent_id");
    reveal_strlit("agent_type");
    reveal_strlit("agent_transcript_path");
    reveal_strlit("stop_hook_active");
    reveal_strlit("last_assistant_message");
    let a = start_payload(session)->Object_0;
    let b = stop_payload(session, run)->Object_0;
    assert(a[0].0 == "agent_id"@ && a[1].0 == "agent_type"@);
    assert(b[0].0 == "agent_id"@ && b[1].0 == "agent_type"@ && b[2].0 == "agent_transcript_path"@);
    assert(b[3].0 == "stop_hook_active"@ && b[4].0 == "last_assistant_message"@);
    fields_are_read_back(a, 0);
    fields_are_read_back(a, 1);
    fields_are_read_back(b, 0);
    fields_are_read_back(b, 1);
    fields_are_read_back(b, 3);
    fields_are_read_back(b, 4);
}

/// What was said last is shown where it is more than white space.
pub proof fn what_was_said_last_is_shown(event: ProtocolEvent, output: Seq<char>)
    requires
        done_event(event, said_last(output)),
    ensures
        trimmed(output).len() > 0 ==> event is Custom && member(event->extra@, "final_output"@)
            == Some(JsonView::Text(output)),
        trimmed(output).len() == 0 ==> event is Done,
{
    if trimmed(output).len() > 0 {
        fields_are_read_back(event->extra@->Object_0, 0);
    }
}

/// A hook that blocks, or says not to go on, gets one more pass with what it said,
/// unless it had one.
pub proof fn a_hook_gets_its_pass(run: RunView, reply: StopHookReply)
    ensures
        reply.blocked && !run.stop_hook_active ==> may_go_on(run, reply),
        reply.continue_flow == Some(false) && !run.stop_hook_active ==> may_go_on(run, reply),
        !reply.blocked && reply.continue_flow != Some(false) ==> !may_go_on(run, reply),
        run.stop_hook_active ==> !may_go_on(run, reply),
        reply.reason matches Some(r) ==> one_more_pass(reply) == r@,
{
}

} // verus!
