//! How a supervisor decides where a workflow goes.
use vstd::prelude::*;
use vstd::string::*;

use crate::error::{AgentError, ErrorView};
use crate::json::{
    fields_are_read_back, member, no_fields, JsonMap, JsonValue, JsonView, NumberView,
};
use crate::message::{option_text, plain_message, Message, Role};
use crate::outside::fresh_id;
use crate::text::{
    decimal, decimal_text, first_chars, lemma_occurs_in_both, occurs, take_chars, texts, trim,
    trimmed,
};
use crate::text_map::{
    lemma_seen_value_of, lemma_seen_with_value, lemma_set_value_is_there, seen, value_of,
    without_value, with_value, TextMap,
};
use crate::workflow::{trace_views, SupervisorTraceEvent, TraceView};

verus! {

broadcast use vstd::string::group_string_axioms;

/// How often a supervisor may try to decide.
pub const SUPERVISOR_DECISION_MAX_ATTEMPTS: usize = 3;

/// How long a supervisor may take to decide.
pub const SUPERVISOR_TIMEOUT_SECONDS: u64 = 180;

/// What a rejected answer is shown as: its beginning.
pub open spec fn shown_output(raw: Seq<char>) -> Seq<char> {
    let text = trimmed(raw);
    if text.len() > 4000 {
        first_chars(text, 4000) + "\n...[truncated]"@
    } else {
        text
    }
}

pub open spec fn feedback_text(error: Seq<char>, raw: Seq<char>) -> Seq<char> {
    "Your previous supervisor decision was invalid and was rejected before applying to the workflow.\nError: "@
        + error + "\n\nPrevious output:\n"@ + shown_output(raw)
        + "\n\nRegenerate the decision now. Return only one JSON object. Use only allowed edge ids or allowed target_node ids from the workflow payload. Use JSON null for absent optional fields, not the string \"null\"."@
}

/// What a supervisor is told whose answer was rejected.
pub fn supervisor_retry_feedback(error: &str, raw_output: &str) -> (r: String)
    ensures
        r@ == feedback_text(error@, raw_output@),
{
    let text = trim(raw_output);
    let mut raw = take_chars(&text, 4000);
    if text.as_str().unicode_len() > 4000 {
        raw.push_str("\n...[truncated]");
    }
    let mut out =
        "Your previous supervisor decision was invalid and was rejected before applying to the workflow.\nError: ".to_owned();
    out.push_str(error);
    out.push_str("\n\nPrevious output:\n");
    out.push_str(&raw);
    out.push_str(
        "\n\nRegenerate the decision now. Return only one JSON object. Use only allowed edge ids or allowed target_node ids from the workflow payload. Use JSON null for absent optional fields, not the string \"null\".",
    );
    out
}

/// What a hook adds to a conversation.
pub fn hook_context_message(event: &str, content: &str) -> (r: Message)
    ensures
        r@ == plain_message(
            Role::System,
            "Hook "@ + event@ + " provided additional context:\n"@ + content@,
        ),
{
    let mut text = "Hook ".to_owned();
    text.push_str(event);
    text.push_str(" provided additional context:\n");
    text.push_str(content);
    Message::system(&text)
}

// ------------------------------------------------------------------ one attempt

/// What a supervisor does while it decides.
#[derive(Debug)]
pub enum SupervisorEvent {
    Text(String),
    Thinking(String),
    ToolCallStart { id: String, name: String },
    ToolCallArgumentsDelta { id: String, delta: String },
    ToolCall { id: String, name: String, args: JsonValue },
    ToolCallResult { id: String, name: String, result: String },
    Other,
}

/// One attempt to decide: what was said, what was done, and the arguments of the
/// tools that have not answered yet.
#[derive(Debug)]
pub struct SupervisorAttempt {
    pub output: String,
    pub trace: Vec<SupervisorTraceEvent>,
    pub tool_args: TextMap<JsonValue>,
}

pub open spec fn json_view() -> spec_fn(JsonValue) -> JsonView {
    |v: JsonValue| v@
}

pub struct AttemptView {
    pub output: Seq<char>,
    pub trace: Seq<TraceView>,
    pub tool_args: Seq<(Seq<char>, JsonView)>,
}

impl View for SupervisorAttempt {
    type V = AttemptView;

    open spec fn view(&self) -> AttemptView {
        AttemptView {
            output: self.output@,
            trace: trace_views(self.trace@),
            tool_args: seen(self.tool_args@, json_view()),
        }
    }
}

/// What is told of an event while a supervisor decides.
pub open spec fn progress_of(a: AttemptView, event: SupervisorEvent) -> Option<TraceView> {
    match event {
        SupervisorEvent::Text(t) => Some(TraceView::OutputDelta(t@)),
        SupervisorEvent::Thinking(t) => Some(TraceView::Thinking(t@)),
        SupervisorEvent::ToolCallStart { id, name } => Some(TraceView::ToolCallStart(id@, name@)),
        SupervisorEvent::ToolCallArgumentsDelta { id, delta } => Some(
            TraceView::ToolCallArgumentsDelta(id@, delta@),
        ),
        SupervisorEvent::ToolCall { id, name, args } => Some(
            TraceView::ToolCall(id@, name@, args@),
        ),
        SupervisorEvent::ToolCallResult { id, name, result } => Some(
            TraceView::ToolResult(
                id@,
                name@,
                match value_of(a.tool_args, id@) {
                    Some(args) => args,
                    None => JsonView::Null,
                },
                result@,
            ),
        ),
        SupervisorEvent::Other => None,
    }
}

/// An attempt after an event: what is said is kept as the answer, what is done is
/// kept in the trace.
pub open spec fn observed(a: AttemptView, event: SupervisorEvent) -> AttemptView {
    let traced = AttemptView {
        trace: match progress_of(a, event) {
            Some(e) => a.trace.push(e),
            None => a.trace,
        },
        ..a
    };
    match event {
        SupervisorEvent::Text(t) => AttemptView { output: a.output + t@, ..a },
        SupervisorEvent::ToolCall { id, args, .. } => AttemptView {
            tool_args: with_value(a.tool_args, id@, args@),
            ..traced
        },
        SupervisorEvent::ToolCallResult { id, .. } => AttemptView {
            tool_args: without_value(a.tool_args, id@),
            ..traced
        },
        _ => traced,
    }
}

proof fn lemma_seen_without_value<V, W>(
    s: Seq<(Seq<char>, V)>,
    f: spec_fn(V) -> W,
    key: Seq<char>,
)
    ensures
        seen(without_value(s, key), f) == without_value(seen(s, f), key),
    decreases s.len(),
{
    if s.len() > 0 {
        assert(seen(s, f).drop_first() =~= seen(s.drop_first(), f));
        lemma_seen_without_value(s.drop_first(), f, key);
        assert(seen(without_value(s, key), f) =~= without_value(seen(s, f), key));
    }
}

pub(crate) fn copy_event(event: &SupervisorTraceEvent) -> (r: SupervisorTraceEvent)
    ensures
        r@ == event@,
{
    match event {
        SupervisorTraceEvent::OutputDelta { content } => SupervisorTraceEvent::OutputDelta {
            content: content.clone(),
        },
        SupervisorTraceEvent::Thinking { content } => SupervisorTraceEvent::Thinking {
            content: content.clone(),
        },
        SupervisorTraceEvent::ToolCallStart { id, name } => SupervisorTraceEvent::ToolCallStart {
            id: id.clone(),
            name: name.clone(),
        },
        SupervisorTraceEvent::ToolCallArgumentsDelta { id, delta } =>
            SupervisorTraceEvent::ToolCallArgumentsDelta { id: id.clone(), delta: delta.clone() },
        SupervisorTraceEvent::ToolCall { id, name, args } => SupervisorTraceEvent::ToolCall {
            id: id.clone(),
            name: name.clone(),
            args: args.copy(),
        },
        SupervisorTraceEvent::ToolResult { id, name, args, result } =>
            SupervisorTraceEvent::ToolResult {
                id: id.clone(),
                name: name.clone(),
                args: args.copy(),
                result: result.clone(),
            },
        SupervisorTraceEvent::Output { content } => SupervisorTraceEvent::Output {
            content: content.clone(),
        },
        SupervisorTraceEvent::AgentMessage { content } => SupervisorTraceEvent::AgentMessage {
            content: content.clone(),
        },
    }
}

proof fn lemma_push_trace(trace: Seq<SupervisorTraceEvent>, e: SupervisorTraceEvent)
    ensures
        trace_views(trace.push(e)) == trace_views(trace).push(e@),
{
    assert(trace_views(trace.push(e)) =~= trace_views(trace).push(e@));
}

pub open spec fn option_trace(e: Option<SupervisorTraceEvent>) -> Option<TraceView> {
    match e {
        Some(v) => Some(v@),
        None => None,
    }
}

impl SupervisorAttempt {
    pub fn new() -> (r: SupervisorAttempt)
        ensures
            r@ == (AttemptView {
                output: Seq::empty(),
                trace: Seq::empty(),
                tool_args: Seq::empty(),
            }),
    {
        let r = SupervisorAttempt {
            output: String::new(),
            trace: Vec::new(),
            tool_args: TextMap::new(),
        };
        assert(r@.trace =~= Seq::<TraceView>::empty());
        assert(r@.tool_args =~= Seq::<(Seq<char>, JsonView)>::empty());
        assert(r@.output =~= Seq::<char>::empty());
        r
    }

    fn note(&mut self, event: SupervisorTraceEvent) -> (r: Option<SupervisorTraceEvent>)
        ensures
            option_trace(r) == Some(event@),
            final(self)@ == (AttemptView { trace: old(self)@.trace.push(event@), ..old(self)@ }),
    {
        let told = copy_event(&event);
        proof {
            lemma_push_trace(self.trace@, event);
        }
        self.trace.push(event);
        Some(told)
    }

    /// Takes an event in, and says what is told of it.
    pub fn observe(&mut self, event: SupervisorEvent) -> (r: Option<SupervisorTraceEvent>)
        ensures
            option_trace(r) == progress_of(old(self)@, event),
            final(self)@ == observed(old(self)@, event),
    {
        match event {
            SupervisorEvent::Text(t) => {
                self.output.push_str(&t);
                Some(SupervisorTraceEvent::OutputDelta { content: t })
            },
            SupervisorEvent::Thinking(t) => self.note(SupervisorTraceEvent::Thinking { content: t }),
            SupervisorEvent::ToolCallStart { id, name } => self.note(
                SupervisorTraceEvent::ToolCallStart { id, name },
            ),
            SupervisorEvent::ToolCallArgumentsDelta { id, delta } => self.note(
                SupervisorTraceEvent::ToolCallArgumentsDelta { id, delta },
            ),
            SupervisorEvent::ToolCall { id, name, args } => {
                let kept = args.copy();
                proof {
                    lemma_seen_with_value(self.tool_args@, json_view(), id@, kept);
                }
                self.tool_args.insert(id.clone(), kept);
                self.note(SupervisorTraceEvent::ToolCall { id, name, args })
            },
            SupervisorEvent::ToolCallResult { id, name, result } => {
                proof {
                    lemma_seen_value_of(self.tool_args@, json_view(), id@);
                    lemma_seen_without_value(self.tool_args@, json_view(), id@);
                }
                let args = match self.tool_args.remove(&id) {
                    Some(a) => a,
                    None => JsonValue::Null,
                };
                self.note(SupervisorTraceEvent::ToolResult { id, name, args, result })
            },
            SupervisorEvent::Other => None,
        }
    }
}

/// The error of an attempt that failed, given the text of its trace.
pub fn attempt_error(error: &str, trace_text: &str) -> (r: AgentError)
    ensures
        r@ == ErrorView::Other(error@ + "\n\nsupervisor trace: "@ + trace_text@),
{
    let mut text = error.to_owned();
    text.push_str("\n\nsupervisor trace: ");
    text.push_str(trace_text);
    AgentError::Other(text)
}

/// The error of an attempt that took too long.
pub fn timeout_error() -> (r: AgentError)
    ensures
        r@ == ErrorView::Other("supervisor evaluation timed out after 180 seconds"@),
{
    AgentError::other("supervisor evaluation timed out after 180 seconds")
}

/// How an attempt ends.
#[derive(Debug)]
pub enum AttemptEnd {
    /// The user stopped it.
    Cancelled,
    /// The model failed, with this error.
    Failed(String),
    /// The model is done, or its run ended.
    Ended,
    /// It took too long.
    TimedOut,
}

/// What follows the end of an attempt: nothing more, an error, or a judgement on
/// what was said.
#[derive(Debug)]
pub enum AttemptStep {
    Cancelled,
    Fail(AgentError),
    Judge,
}

pub enum AttemptStepView {
    Cancelled,
    Fail(ErrorView),
    Judge,
}

impl View for AttemptStep {
    type V = AttemptStepView;

    open spec fn view(&self) -> AttemptStepView {
        match self {
            AttemptStep::Cancelled => AttemptStepView::Cancelled,
            AttemptStep::Fail(e) => AttemptStepView::Fail(e@),
            AttemptStep::Judge => AttemptStepView::Judge,
        }
    }
}

/// What follows the end of an attempt, given the text of its trace.
pub open spec fn after_end(end: AttemptEnd, trace_text: Seq<char>) -> AttemptStepView {
    match end {
        AttemptEnd::Cancelled => AttemptStepView::Cancelled,
        AttemptEnd::Failed(error) => AttemptStepView::Fail(
            ErrorView::Other(error@ + "\n\nsupervisor trace: "@ + trace_text),
        ),
        AttemptEnd::Ended => AttemptStepView::Judge,
        AttemptEnd::TimedOut => AttemptStepView::Fail(
            ErrorView::Other("supervisor evaluation timed out after 180 seconds"@),
        ),
    }
}

/// What follows the end of an attempt, given the text of its trace.
pub fn attempt_end(end: &AttemptEnd, trace_text: &str) -> (r: AttemptStep)
    ensures
        r@ == after_end(*end, trace_text@),
{
    match end {
        AttemptEnd::Cancelled => AttemptStep::Cancelled,
        AttemptEnd::Failed(error) => AttemptStep::Fail(attempt_error(error, trace_text)),
        AttemptEnd::Ended => AttemptStep::Judge,
        AttemptEnd::TimedOut => AttemptStep::Fail(timeout_error()),
    }
}

// ----------------------------------------------------------------- all attempts

/// What a supervisor is asked, and how much of the history fits into it.
#[derive(Debug)]
pub struct SupervisorPrompt {
    pub content: String,
    pub estimated_tokens: u32,
    pub original_history_messages: usize,
    pub included_history_messages: usize,
}

/// The attempts of a supervisor: which one it is at, what it was told of the one
/// before, what it did in all, and what was wrong last.
#[derive(Debug)]
pub struct SupervisorRun {
    pub attempt: usize,
    pub feedback: Option<String>,
    pub trace: Vec<SupervisorTraceEvent>,
    pub last_error: Option<String>,
}

pub struct RunView {
    pub attempt: usize,
    pub feedback: Option<Seq<char>>,
    pub trace: Seq<TraceView>,
    pub last_error: Option<Seq<char>>,
}

impl View for SupervisorRun {
    type V = RunView;

    open spec fn view(&self) -> RunView {
        RunView {
            attempt: self.attempt,
            feedback: option_text(self.feedback),
            trace: trace_views(self.trace@),
            last_error: option_text(self.last_error),
        }
    }
}

pub open spec fn number(n: int) -> JsonView {
    JsonView::Number(NumberView::Unsigned(n as u64))
}

/// What the attempt is asked.
pub open spec fn attempt_content(run: RunView, prompt: Seq<char>) -> Seq<char> {
    match run.feedback {
        Some(f) => prompt + "\n\n"@ + f,
        None => prompt,
    }
}

/// What is noted about the attempt.
pub open spec fn attempt_metadata(
    run: RunView,
    prompt: SupervisorPrompt,
    budget: u32,
    supervisor_thread: Seq<char>,
) -> JsonView {
    JsonView::Object(
        no_fields().push(("thread_id"@, JsonView::Text(supervisor_thread))).push(
            ("supervisor_run"@, JsonView::Text("true"@)),
        ).push(("supervisor_decision_attempt"@, number(run.attempt as int))).push(
            (
                "supervisor_decision_max_attempts"@,
                number(SUPERVISOR_DECISION_MAX_ATTEMPTS as int),
            ),
        ).push(
            ("supervisor_prompt_estimated_tokens"@, number(prompt.estimated_tokens as int)),
        ).push(("supervisor_prompt_budget_tokens"@, number(budget as int))).push(
            (
                "supervisor_history_original_messages"@,
                number(prompt.original_history_messages as int),
            ),
        ).push(
            (
                "supervisor_history_included_messages"@,
                number(prompt.included_history_messages as int),
            ),
        ),
    )
}

/// A thread for one attempt of the supervisor of another thread.
pub fn supervisor_thread(thread_id: &str) -> (r: String)
    ensures
        ("supervisor:"@ + thread_id@ + ":"@).is_prefix_of(r@),
        r@.len() == ("supervisor:"@ + thread_id@ + ":"@).len() + 36,
{
    let mut t = "supervisor:".to_owned();
    t.push_str(thread_id);
    t.push_str(":");
    let ghost head = t@;
    t.push_str(&fresh_id());
    assert(head =~= t@.subrange(0, head.len() as int));
    t
}

/// What came of an attempt: an answer that was rejected, or a decision as it is
/// shown, with what the agent is told.
#[derive(Debug)]
pub enum Verdict {
    Invalid(String),
    Unprintable(String),
    Valid { shown: String, agent_message: Option<String> },
}

/// What is made of an answer: `parsed` is what its decision tells the agent, or
/// why it is none; `tried` is whether a copy of the workflow takes the decision,
/// or why not; `shown` is the decision as it is shown, or why it cannot be.
pub open spec fn judged(
    parsed: Result<Option<String>, String>,
    tried: Result<(), String>,
    shown: Result<String, String>,
) -> Verdict {
    match parsed {
        Err(e) => Verdict::Invalid(e),
        Ok(agent_message) => match tried {
            Err(e) => Verdict::Invalid(e),
            Ok(_) => match shown {
                Err(e) => Verdict::Unprintable(e),
                Ok(shown) => Verdict::Valid { shown, agent_message },
            },
        },
    }
}

/// What is made of an answer: it counts only if it is a decision that a copy of
/// the workflow takes.
pub fn verdict_of(
    parsed: Result<Option<String>, String>,
    tried: Result<(), String>,
    shown: Result<String, String>,
) -> (r: Verdict)
    ensures
        r == judged(parsed, tried, shown),
{
    match parsed {
        Err(e) => Verdict::Invalid(e),
        Ok(agent_message) => match tried {
            Err(e) => Verdict::Invalid(e),
            Ok(_) => match shown {
                Err(e) => Verdict::Unprintable(e),
                Ok(shown) => Verdict::Valid { shown, agent_message },
            },
        },
    }
}

/// What follows an attempt: another one, a decision with all that was done for
/// it, or an error.
#[derive(Debug)]
pub enum SupervisorStep {
    Retry,
    Decide,
    Fail(AgentError),
}

pub enum SupervisorStepView {
    Retry,
    Decide,
    Fail(ErrorView),
}

impl View for SupervisorStep {
    type V = SupervisorStepView;

    open spec fn view(&self) -> SupervisorStepView {
        match self {
            SupervisorStep::Retry => SupervisorStepView::Retry,
            SupervisorStep::Decide => SupervisorStepView::Decide,
            SupervisorStep::Fail(e) => SupervisorStepView::Fail(e@),
        }
    }
}

/// What follows an attempt: a rejected answer is tried again, three times in all.
pub open spec fn after_verdict(attempt: usize, verdict: Verdict) -> SupervisorStepView {
    match verdict {
        Verdict::Valid { .. } => SupervisorStepView::Decide,
        Verdict::Unprintable(e) => SupervisorStepView::Fail(
            ErrorView::Other("format supervisor JSON: "@ + e@),
        ),
        Verdict::Invalid(e) => if attempt < SUPERVISOR_DECISION_MAX_ATTEMPTS {
            SupervisorStepView::Retry
        } else {
            SupervisorStepView::Fail(
                ErrorView::Other(
                    "supervisor decision remained invalid after 3 attempts: "@ + e@,
                ),
            )
        },
    }
}

/// What the model is run with for an attempt.
#[derive(Debug)]
pub struct SupervisorRequest {
    pub content: String,
    pub metadata: JsonValue,
    /// The tools that the model may call.
    pub tools: Vec<String>,
    /// Whether steering input reaches the run.
    pub steer: bool,
    /// Whether tools may run on in the background.
    pub async_agent: bool,
}

pub struct RequestView {
    pub content: Seq<char>,
    pub metadata: JsonView,
    pub tools: Seq<Seq<char>>,
    pub steer: bool,
    pub async_agent: bool,
}

impl View for SupervisorRequest {
    type V = RequestView;

    open spec fn view(&self) -> RequestView {
        RequestView {
            content: self.content@,
            metadata: self.metadata@,
            tools: texts(self.tools@),
            steer: self.steer,
            async_agent: self.async_agent,
        }
    }
}

/// What the model is run with for an attempt: it decides from the workflow and the
/// history alone, so it may call no tool, nothing steers it and nothing runs on
/// behind it.
pub open spec fn attempt_request(
    run: RunView,
    prompt: SupervisorPrompt,
    budget: u32,
    supervisor_thread: Seq<char>,
) -> RequestView {
    RequestView {
        content: attempt_content(run, prompt.content@),
        metadata: attempt_metadata(run, prompt, budget, supervisor_thread),
        tools: Seq::empty(),
        steer: false,
        async_agent: false,
    }
}

pub open spec fn rejection_text(attempt: usize, error: Seq<char>) -> Seq<char> {
    "Invalid supervisor decision attempt "@ + decimal(attempt as nat) + "/3: "@ + error
}

/// The events that an attempt ends with.
pub open spec fn closing_events(attempt: usize, verdict: Verdict) -> Seq<TraceView> {
    match verdict {
        Verdict::Invalid(e) => Seq::empty().push(
            TraceView::Output(rejection_text(attempt, e@)),
        ),
        Verdict::Unprintable(_) => Seq::empty(),
        Verdict::Valid { shown, agent_message } => {
            let first = Seq::empty().push(TraceView::Output(shown@));
            match agent_message {
                Some(m) => first.push(TraceView::AgentMessage(m@)),
                None => first,
            }
        },
    }
}

/// The run after an attempt.
pub open spec fn concluded(
    run: RunView,
    attempt_trace: Seq<TraceView>,
    output: Seq<char>,
    verdict: Verdict,
) -> RunView {
    let closed = RunView {
        trace: run.trace + attempt_trace + closing_events(run.attempt, verdict),
        ..run
    };
    match verdict {
        Verdict::Invalid(e) => RunView {
            attempt: if run.attempt < SUPERVISOR_DECISION_MAX_ATTEMPTS {
                (run.attempt + 1) as usize
            } else {
                run.attempt
            },
            feedback: Some(feedback_text(e@, output)),
            last_error: Some(e@),
            ..closed
        },
        _ => closed,
    }
}

fn append_trace(trace: &mut Vec<SupervisorTraceEvent>, more: &Vec<SupervisorTraceEvent>)
    ensures
        trace_views(final(trace)@) == trace_views(old(trace)@) + trace_views(more@),
{
    let ghost start = trace_views(trace@);
    let ghost all = trace_views(more@);
    let mut i: usize = 0;
    assert(start + all.take(0) =~= start);
    while i < more.len()
        invariant
            i <= more.len(),
            all == trace_views(more@),
            trace_views(trace@) == start + all.take(i as int),
        decreases more.len() - i,
    {
        let e = copy_event(&more[i]);
        proof {
            lemma_push_trace(trace@, e);
        }
        trace.push(e);
        i += 1;
        assert(start + all.take(i as int) =~= (start + all.take(i - 1)).push(all[i - 1]));
    }
    assert(all.take(i as int) =~= all);
}

impl SupervisorRun {
    pub fn new() -> (r: SupervisorRun)
        ensures
            r@ == (RunView {
                attempt: 1,
                feedback: None,
                trace: Seq::empty(),
                last_error: None,
            }),
    {
        let r = SupervisorRun { attempt: 1, feedback: None, trace: Vec::new(), last_error: None };
        assert(r@.trace =~= Seq::<TraceView>::empty());
        r
    }

    /// What the attempt is asked.
    pub fn content(&self, prompt: &SupervisorPrompt) -> (r: String)
        ensures
            r@ == attempt_content(self@, prompt.content@),
    {
        let mut text = prompt.content.clone();
        match &self.feedback {
            Some(f) => {
                text.push_str("\n\n");
                text.push_str(f);
            },
            None => {},
        }
        text
    }

    /// What is noted about the attempt.
    pub fn metadata(&self, prompt: &SupervisorPrompt, budget: u32, supervisor_thread: &str) -> (r:
        JsonValue)
        ensures
            r@ == attempt_metadata(self@, *prompt, budget, supervisor_thread@),
    {
        JsonValue::object(
            JsonMap::new().with("thread_id", JsonValue::text(supervisor_thread)).with(
                "supervisor_run",
                JsonValue::text("true"),
            ).with("supervisor_decision_attempt", JsonValue::unsigned(self.attempt as u64)).with(
                "supervisor_decision_max_attempts",
                JsonValue::unsigned(SUPERVISOR_DECISION_MAX_ATTEMPTS as u64),
            ).with(
                "supervisor_prompt_estimated_tokens",
                JsonValue::unsigned(prompt.estimated_tokens as u64),
            ).with("supervisor_prompt_budget_tokens", JsonValue::unsigned(budget as u64)).with(
                "supervisor_history_original_messages",
                JsonValue::unsigned(prompt.original_history_messages as u64),
            ).with(
                "supervisor_history_included_messages",
                JsonValue::unsigned(prompt.included_history_messages as u64),
            ),
        )
    }

    /// What the model is run with for the attempt.
    pub fn request(&self, prompt: &SupervisorPrompt, budget: u32, supervisor_thread: &str) -> (r:
        SupervisorRequest)
        ensures
            r@ == attempt_request(self@, *prompt, budget, supervisor_thread@),
            r.tools@.len() == 0 && !r.steer && !r.async_agent,
    {
        let r = SupervisorRequest {
            content: self.content(prompt),
            metadata: self.metadata(prompt, budget, supervisor_thread),
            tools: Vec::new(),
            steer: false,
            async_agent: false,
        };
        assert(texts(r.tools@) =~= Seq::<Seq<char>>::empty());
        r
    }

    /// Ends an attempt with what is made of its answer.
    pub fn judge(
        &mut self,
        attempt: &SupervisorAttempt,
        parsed: Result<Option<String>, String>,
        tried: Result<(), String>,
        shown: Result<String, String>,
    ) -> (r: SupervisorStep)
        requires
            1 <= old(self).attempt <= SUPERVISOR_DECISION_MAX_ATTEMPTS,
        ensures
            final(self)@ == concluded(
                old(self)@,
                attempt@.trace,
                attempt@.output,
                judged(parsed, tried, shown),
            ),
            1 <= final(self).attempt <= SUPERVISOR_DECISION_MAX_ATTEMPTS,
            r@ == after_verdict(old(self).attempt, judged(parsed, tried, shown)),
    {
        let verdict = verdict_of(parsed, tried, shown);
        self.conclude(&attempt.trace, &attempt.output, &verdict)
    }

    fn conclude(
        &mut self,
        attempt_trace: &Vec<SupervisorTraceEvent>,
        output: &str,
        verdict: &Verdict,
    ) -> (r: SupervisorStep)
        requires
            1 <= old(self).attempt <= SUPERVISOR_DECISION_MAX_ATTEMPTS,
        ensures
            final(self)@ == concluded(
                old(self)@,
                trace_views(attempt_trace@),
                output@,
                *verdict,
            ),
            1 <= final(self).attempt <= SUPERVISOR_DECISION_MAX_ATTEMPTS,
            r@ == after_verdict(old(self).attempt, *verdict),
    {
        let ghost before = self@;
        append_trace(&mut self.trace, attempt_trace);
        let ghost told = trace_views(self.trace@);
        match verdict {
            Verdict::Unprintable(e) => {
                assert(told + Seq::<TraceView>::empty() =~= told);
                let mut text = "format supervisor JSON: ".to_owned();
                text.push_str(e);
                SupervisorStep::Fail(AgentError::Other(text))
            },
            Verdict::Valid { shown, agent_message } => {
                let first = SupervisorTraceEvent::Output { content: shown.clone() };
                proof {
                    lemma_push_trace(self.trace@, first);
                }
                self.trace.push(first);
                match agent_message {
                    Some(m) => {
                        let second = SupervisorTraceEvent::AgentMessage { content: m.clone() };
                        proof {
                            lemma_push_trace(self.trace@, second);
                        }
                        self.trace.push(second);
                    },
                    None => {},
                }
                assert(trace_views(self.trace@) =~= told + closing_events(
                    before.attempt,
                    *verdict,
                ));
                SupervisorStep::Decide
            },
            Verdict::Invalid(e) => {
                let mut text = "Invalid supervisor decision attempt ".to_owned();
                text.push_str(&decimal_text(self.attempt as u64));
                text.push_str("/3: ");
                text.push_str(e);
                let event = SupervisorTraceEvent::Output { content: text };
                proof {
                    lemma_push_trace(self.trace@, event);
                }
                self.trace.push(event);
                assert(trace_views(self.trace@) =~= told + closing_events(
                    before.attempt,
                    *verdict,
                ));
                self.feedback = Some(supervisor_retry_feedback(e, output));
                self.last_error = Some(e.clone());
                if self.attempt < SUPERVISOR_DECISION_MAX_ATTEMPTS {
                    self.attempt = self.attempt + 1;
                    SupervisorStep::Retry
                } else {
                    let mut text =
                        "supervisor decision remained invalid after 3 attempts: ".to_owned();
                    text.push_str(e);
                    SupervisorStep::Fail(AgentError::Other(text))
                }
            },
        }
    }
}

/// The attempt that a run is at after rejected answers, from the first on.
pub open spec fn after_rejections(run: RunView, errors: Seq<Verdict>) -> RunView
    decreases errors.len(),
{
    if errors.len() == 0 {
        run
    } else {
        concluded(
            after_rejections(run, errors.drop_last()),
            Seq::empty(),
            Seq::empty(),
            errors.last(),
        )
    }
}

/// A supervisor never tries more often than it may: whatever is rejected, the
/// attempts stay within the limit, and each rejection but the last moves on.
pub proof fn attempts_stay_within_the_limit(run: RunView, errors: Seq<Verdict>)
    requires
        run.attempt == 1,
        forall|i: int| 0 <= i < errors.len() ==> (#[trigger] errors[i]) is Invalid,
    ensures
        1 <= after_rejections(run, errors).attempt <= SUPERVISOR_DECISION_MAX_ATTEMPTS,
        errors.len() < SUPERVISOR_DECISION_MAX_ATTEMPTS ==> after_rejections(run, errors).attempt
            == errors.len() + 1,
    decreases errors.len(),
{
    if errors.len() > 0 {
        let last = errors[errors.len() - 1];
        attempts_stay_within_the_limit(run, errors.drop_last());
    }
}

/// A supervisor has decided only once its answer was a decision that a copy of
/// the workflow took; it is asked again only after an answer that was none or that
/// the copy refused, and it fails for such an answer only in the last attempt.
pub proof fn decisions_are_tried_before_they_count(
    attempt: usize,
    parsed: Result<Option<String>, String>,
    tried: Result<(), String>,
    shown: Result<String, String>,
)
    requires
        1 <= attempt <= SUPERVISOR_DECISION_MAX_ATTEMPTS,
    ensures
        ({
            let step = after_verdict(attempt, judged(parsed, tried, shown));
            let rejected = parsed is Err || tried is Err;
            &&& step is Decide <==> parsed is Ok && tried is Ok && shown is Ok
            &&& step is Retry <==> rejected && attempt < SUPERVISOR_DECISION_MAX_ATTEMPTS
            &&& step is Fail <==> (rejected && attempt == SUPERVISOR_DECISION_MAX_ATTEMPTS) || (
            !rejected && shown is Err)
        }),
{
}

/// A supervisor whose answers are all rejected is told so after its third, and
/// not before: it fails exactly with the third rejection, for the reason of that
/// one.
pub proof fn three_rejections_end_a_run(run: RunView, errors: Seq<Verdict>)
    requires
        run.attempt == 1,
        0 < errors.len() <= SUPERVISOR_DECISION_MAX_ATTEMPTS,
        forall|i: int| 0 <= i < errors.len() ==> (#[trigger] errors[i]) is Invalid,
    ensures
        ({
            let before = after_rejections(run, errors.drop_last());
            let step = after_verdict(before.attempt, errors.last());
            if errors.len() < SUPERVISOR_DECISION_MAX_ATTEMPTS {
                step is Retry
            } else {
                step == SupervisorStepView::Fail(
                    ErrorView::Other(
                        "supervisor decision remained invalid after 3 attempts: "@
                            + errors.last()->Invalid_0@,
                    ),
                )
            }
        }),
{
    attempts_stay_within_the_limit(run, errors.drop_last());
    let last = errors[errors.len() - 1];
}

// --------------------------------------------------------------------- what is told

/// A rejected answer is shown from its beginning, whole where it is short; and the
/// model is told what was wrong with it.
pub proof fn rejections_tell_why(error: Seq<char>, raw: Seq<char>)
    ensures
        trimmed(raw).len() <= 4000 ==> shown_output(raw) == trimmed(raw),
        trimmed(raw).len() > 4000 ==> trimmed(raw).take(4000).is_prefix_of(shown_output(raw)),
        occurs(feedback_text(error, raw), error),
        occurs(feedback_text(error, raw), shown_output(raw)),
{
    let text = trimmed(raw);
    if text.len() > 4000 {
        assert(text.take(4000) =~= shown_output(raw).subrange(0, 4000));
    }
    let a = "Your previous supervisor decision was invalid and was rejected before applying to the workflow.\nError: "@;
    let b = "\n\nPrevious output:\n"@;
    let c = "\n\nRegenerate the decision now. Return only one JSON object. Use only allowed edge ids or allowed target_node ids from the workflow payload. Use JSON null for absent optional fields, not the string \"null\"."@;
    let s = shown_output(raw);
    lemma_occurs_in_both(a, error, error);
    lemma_occurs_in_both(a + error, b, error);
    lemma_occurs_in_both(a + error + b, s, error);
    lemma_occurs_in_both(a + error + b + s, c, error);
    lemma_occurs_in_both(a + error + b, s, s);
    lemma_occurs_in_both(a + error + b + s, c, s);
}

/// What the model says is collected, one piece behind the other; what it does beside
/// that is traced in its order; nothing collected or traced before is lost.
pub proof fn what_a_supervisor_does_is_collected(a: AttemptView, event: SupervisorEvent)
    ensures
        event matches SupervisorEvent::Text(t) ==> observed(a, event).output == a.output + t@
            && observed(a, event).trace == a.trace,
        !(event is Text) ==> observed(a, event).output == a.output,
        event is Other ==> observed(a, event).trace == a.trace,
        !(event is Text) && !(event is Other) ==> progress_of(a, event) is Some && observed(
            a,
            event,
        ).trace == a.trace.push(progress_of(a, event)->0),
        event matches SupervisorEvent::Thinking(t) ==> progress_of(a, event) == Some(
            TraceView::Thinking(t@),
        ),
        event matches SupervisorEvent::Text(t) ==> progress_of(a, event) == Some(
            TraceView::OutputDelta(t@),
        ),
{
}

/// The result of a call is told with the arguments that the call was made with.
pub proof fn results_are_told_with_their_arguments(
    a: AttemptView,
    id: String,
    name: String,
    args: JsonValue,
    result: String,
)
    ensures
        progress_of(
            observed(a, SupervisorEvent::ToolCall { id, name, args }),
            SupervisorEvent::ToolCallResult { id, name, result },
        ) == Some(TraceView::ToolResult(id@, name@, args@, result@)),
        progress_of(a, SupervisorEvent::ToolCall { id, name, args }) == Some(
            TraceView::ToolCall(id@, name@, args@),
        ),
{
    lemma_set_value_is_there(a.tool_args, id@, args@);
}

/// An attempt that the user stops is over; one that fails or takes too long fails;
/// any other is judged.
pub proof fn how_attempts_end(end: AttemptEnd, trace_text: Seq<char>)
    ensures
        after_end(end, trace_text) is Cancelled <==> end is Cancelled,
        after_end(end, trace_text) is Judge <==> end is Ended,
        after_end(end, trace_text) is Fail <==> end is Failed || end is TimedOut,
        end matches AttemptEnd::Failed(e) ==> after_end(end, trace_text)->Fail_0 is Other && occurs(
            after_end(end, trace_text)->Fail_0->Other_0,
            e@,
        ),
{
    if end is Failed {
        let e = end->Failed_0@;
        lemma_occurs_in_both(e, "\n\nsupervisor trace: "@, e);
        lemma_occurs_in_both(e + "\n\nsupervisor trace: "@, trace_text, e);
    }
}

/// An attempt is told the whole prompt, and what was wrong with the attempt before.
pub proof fn attempts_are_told_what_was_wrong(run: RunView, prompt: Seq<char>)
    ensures
        prompt.is_prefix_of(attempt_content(run, prompt)),
        run.feedback matches Some(f) ==> occurs(attempt_content(run, prompt), f),
        run.feedback is None ==> attempt_content(run, prompt) == prompt,
{
    let r = attempt_content(run, prompt);
    assert(prompt =~= r.subrange(0, prompt.len() as int));
    if run.feedback is Some {
        lemma_occurs_in_both(prompt + "\n\n"@, run.feedback->0, run.feedback->0);
    }
}

/// An attempt is marked as a supervisor's, in its own thread, with its number, and
/// with the sizes of its prompt.
pub proof fn attempts_are_marked(
    run: RunView,
    prompt: SupervisorPrompt,
    budget: u32,
    thread: Seq<char>,
)
    ensures
        ({
            let m = attempt_metadata(run, prompt, budget, thread);
            &&& member(m, "thread_id"@) == Some(JsonView::Text(thread))
            &&& member(m, "supervisor_run"@) == Some(JsonView::Text("true"@))
            &&& member(m, "supervisor_decision_attempt"@) == Some(number(run.attempt as int))
            &&& member(m, "supervisor_prompt_estimated_tokens"@) == Some(
                number(prompt.estimated_tokens as int),
            )
            &&& member(m, "supervisor_prompt_budget_tokens"@) == Some(number(budget as int))
            &&& member(m, "supervisor_history_original_messages"@) == Some(
                number(prompt.original_history_messages as int),
            )
            &&& member(m, "supervisor_history_included_messages"@) == Some(
                number(prompt.included_history_messages as int),
            )
        }),
        attempt_request(run, prompt, budget, thread).metadata == attempt_metadata(
            run,
            prompt,
            budget,
            thread,
        ),
        attempt_request(run, prompt, budget, thread).content == attempt_content(
            run,
            prompt.content@,
        ),
{
    reveal_strlit("thread_id");
    reveal_strlit("supervisor_run");
    reveal_strlit("supervisor_decision_attempt");
    reveal_strlit("supervisor_decision_max_attempts");
    reveal_strlit("supervisor_prompt_estimated_tokens");
    reveal_strlit("supervisor_prompt_budget_tokens");
    reveal_strlit("supervisor_history_original_messages");
    reveal_strlit("supervisor_history_included_messages");
    let f = attempt_metadata(run, prompt, budget, thread)->Object_0;
    assert(f[0].0 == "thread_id"@ && f[0].0.len() == 9);
    assert(f[1].0 == "supervisor_run"@ && f[1].0.len() == 14);
    assert(f[2].0 == "supervisor_decision_attempt"@ && f[2].0.len() == 27);
    assert(f[3].0 == "supervisor_decision_max_attempts"@ && f[3].0.len() == 32);
    assert(f[4].0 == "supervisor_prompt_estimated_tokens"@ && f[4].0.len() == 34);
    assert(f[5].0 == "supervisor_prompt_budget_tokens"@ && f[5].0.len() == 31);
    assert(f[6].0 == "supervisor_history_original_messages"@ && f[6].0.len() == 36);
    assert(f[7].0 == "supervisor_history_included_messages"@ && f[7].0.len() == 36);
    assert(f[6].0[19] != f[7].0[19]);
    fields_are_read_back(f, 0);
    fields_are_read_back(f, 1);
    fields_are_read_back(f, 2);
    fields_are_read_back(f, 4);
    fields_are_read_back(f, 5);
    fields_are_read_back(f, 6);
    fields_are_read_back(f, 7);
}

/// What was done in an attempt is added to what was done before, with how it was
/// judged; a rejected answer leaves what the next attempt is told, one that is taken
/// leaves what the agent is told.
pub proof fn attempts_leave_what_they_did(
    run: RunView,
    attempt_trace: Seq<TraceView>,
    output: Seq<char>,
    verdict: Verdict,
)
    ensures
        ({
            let r = concluded(run, attempt_trace, output, verdict);
            &&& (run.trace + attempt_trace).is_prefix_of(r.trace)
            &&& verdict matches Verdict::Invalid(e) ==> {
                &&& r.feedback == Some(feedback_text(e@, output))
                &&& r.last_error == Some(e@)
                &&& run.attempt < SUPERVISOR_DECISION_MAX_ATTEMPTS ==> r.attempt == run.attempt + 1
                &&& r.trace.last() is Output && occurs(r.trace.last()->Output_0, e@)
            }
            &&& verdict matches Verdict::Valid { shown, agent_message } ==> {
                &&& r.trace.contains(TraceView::Output(shown@))
                &&& agent_message matches Some(m) ==> r.trace.last() == TraceView::AgentMessage(m@)
                &&& r.attempt == run.attempt && r.feedback == run.feedback
            }
        }),
{
    let r = concluded(run, attempt_trace, output, verdict);
    let before = run.trace + attempt_trace;
    let n = before.len() as int;
    assert(before =~= r.trace.subrange(0, n));
    match verdict {
        Verdict::Invalid(e) => {
            let a = "Invalid supervisor decision attempt "@ + decimal(run.attempt as nat);
            lemma_occurs_in_both(a + "/3: "@, e@, e@);
            assert(r.trace.last() == TraceView::Output(rejection_text(run.attempt, e@)));
        },
        Verdict::Valid { shown, agent_message } => {
            assert(r.trace[n] == TraceView::Output(shown@));
        },
        _ => {},
    }
}

} // verus!
