//! How a sub-agent's questions travel to the one who can answer them.
//!
//! Requests for approval and questions to the user are sent as events of a
//! sub-session, with a prefix that tells what they are.
use vstd::prelude::*;
use vstd::string::*;

use crate::json::{
    fields_are_read_back, json_text, member, no_fields, parse_json, parsed_json, render_json,
    JsonMap, JsonValue, JsonView,
};
use crate::text::{str_eq, strip_prefix};

verus! {

broadcast use vstd::string::group_string_axioms;

pub const SUBAGENT_APPROVAL_MARKER_AGENT: &'static str = "__remi_tool_approval__";

pub const SUBAGENT_APPROVAL_REQUESTED_PREFIX: &'static str = "__remi_tool_approval_requested__:";

pub const SUBAGENT_APPROVAL_UPDATED_PREFIX: &'static str = "__remi_tool_approval_updated__:";

pub const SUBAGENT_APPROVAL_RESOLVED_PREFIX: &'static str = "__remi_tool_approval_resolved__:";

pub const USER_QUESTION_REQUESTED_PREFIX: &'static str = "__remi_user_question_requested__:";

pub const USER_QUESTION_UPDATED_PREFIX: &'static str = "__remi_user_question_updated__:";

pub const USER_QUESTION_RESOLVED_PREFIX: &'static str = "__remi_user_question_resolved__:";

/// What a marker tells.
#[derive(Debug, Clone, Copy, PartialEq, Eq, Structural)]
pub enum MarkerKind {
    ApprovalRequested,
    ApprovalUpdated,
    ApprovalResolved,
    QuestionRequested,
    QuestionUpdated,
    QuestionResolved,
}

pub open spec fn marker_prefix(kind: MarkerKind) -> Seq<char> {
    match kind {
        MarkerKind::ApprovalRequested => SUBAGENT_APPROVAL_REQUESTED_PREFIX@,
        MarkerKind::ApprovalUpdated => SUBAGENT_APPROVAL_UPDATED_PREFIX@,
        MarkerKind::ApprovalResolved => SUBAGENT_APPROVAL_RESOLVED_PREFIX@,
        MarkerKind::QuestionRequested => USER_QUESTION_REQUESTED_PREFIX@,
        MarkerKind::QuestionUpdated => USER_QUESTION_UPDATED_PREFIX@,
        MarkerKind::QuestionResolved => USER_QUESTION_RESOLVED_PREFIX@,
    }
}

fn prefix_of(kind: MarkerKind) -> (r: &'static str)
    ensures
        r@ == marker_prefix(kind),
{
    match kind {
        MarkerKind::ApprovalRequested => SUBAGENT_APPROVAL_REQUESTED_PREFIX,
        MarkerKind::ApprovalUpdated => SUBAGENT_APPROVAL_UPDATED_PREFIX,
        MarkerKind::ApprovalResolved => SUBAGENT_APPROVAL_RESOLVED_PREFIX,
        MarkerKind::QuestionRequested => USER_QUESTION_REQUESTED_PREFIX,
        MarkerKind::QuestionUpdated => USER_QUESTION_UPDATED_PREFIX,
        MarkerKind::QuestionResolved => USER_QUESTION_RESOLVED_PREFIX,
    }
}

/// An event of a sub-session that reports an error.
#[derive(Debug, Clone, PartialEq, Eq)]
pub struct SubSessionError {
    pub parent_tool_call_id: String,
    pub thread_id: String,
    pub run_id: String,
    pub agent_name: String,
    pub title: Option<String>,
    pub depth: u32,
    pub message: String,
}

/// Whether an event is the marker with the given text.
pub open spec fn marks(e: SubSessionError, thread: Seq<char>, run: Seq<char>, text: Seq<char>) -> bool {
    &&& e.parent_tool_call_id@.len() == 0
    &&& e.thread_id@ == thread
    &&& e.run_id@ == run
    &&& e.agent_name@ == SUBAGENT_APPROVAL_MARKER_AGENT@
    &&& e.title is None
    &&& e.depth == 0
    &&& e.message@ == text
}

/// The marker of a kind, with what it carries.
pub fn subagent_approval_marker(
    sub_thread_id: &str,
    sub_run_id: &str,
    kind: MarkerKind,
    payload: &str,
) -> (r: SubSessionError)
    ensures
        marks(r, sub_thread_id@, sub_run_id@, marker_prefix(kind) + payload@),
{
    let mut message = prefix_of(kind).to_owned();
    message.push_str(payload);
    SubSessionError {
        parent_tool_call_id: String::new(),
        thread_id: sub_thread_id.to_owned(),
        run_id: sub_run_id.to_owned(),
        agent_name: SUBAGENT_APPROVAL_MARKER_AGENT.to_owned(),
        title: None,
        depth: 0,
        message,
    }
}

/// A request with what came of it.
pub open spec fn resolved_value(request: JsonView, key: Seq<char>, outcome: JsonView) -> JsonView {
    JsonView::Object(no_fields().push(("request"@, request)).push((key, outcome)))
}

fn render_resolved(request: &JsonValue, key: &str, outcome: &JsonValue) -> (r: String)
    ensures
        r@ == json_text(resolved_value(request@, key@, outcome@)),
{
    render_json(
        &JsonValue::object(
            JsonMap::new().with("request", request.copy()).with(key, outcome.copy()),
        ),
    )
}

/// A tool waits for approval.
pub fn tool_approval_requested_marker(
    sub_thread_id: &str,
    sub_run_id: &str,
    request: &JsonValue,
) -> (r: SubSessionError)
    ensures
        marks(
            r,
            sub_thread_id@,
            sub_run_id@,
            SUBAGENT_APPROVAL_REQUESTED_PREFIX@ + json_text(request@),
        ),
{
    subagent_approval_marker(
        sub_thread_id,
        sub_run_id,
        MarkerKind::ApprovalRequested,
        &render_json(request),
    )
}

/// A tool that waits for approval has something new to say.
pub fn tool_approval_updated_marker(
    sub_thread_id: &str,
    sub_run_id: &str,
    request: &JsonValue,
) -> (r: SubSessionError)
    ensures
        marks(
            r,
            sub_thread_id@,
            sub_run_id@,
            SUBAGENT_APPROVAL_UPDATED_PREFIX@ + json_text(request@),
        ),
{
    subagent_approval_marker(
        sub_thread_id,
        sub_run_id,
        MarkerKind::ApprovalUpdated,
        &render_json(request),
    )
}

/// It was decided whether a tool may run.
pub fn tool_approval_resolved_marker(
    sub_thread_id: &str,
    sub_run_id: &str,
    request: &JsonValue,
    decision: &JsonValue,
) -> (r: SubSessionError)
    ensures
        marks(
            r,
            sub_thread_id@,
            sub_run_id@,
            SUBAGENT_APPROVAL_RESOLVED_PREFIX@ + json_text(
                resolved_value(request@, "decision"@, decision@),
            ),
        ),
{
    subagent_approval_marker(
        sub_thread_id,
        sub_run_id,
        MarkerKind::ApprovalResolved,
        &render_resolved(request, "decision", decision),
    )
}

/// A question to the user: its session, its run, and all of it as a value.
#[derive(Debug)]
pub struct UserQuestion {
    pub session_id: String,
    pub run_id: String,
    pub request: JsonValue,
}

/// The user is asked.
pub fn user_question_requested_marker(question: &UserQuestion) -> (r: SubSessionError)
    ensures
        marks(
            r,
            question.session_id@,
            question.run_id@,
            USER_QUESTION_REQUESTED_PREFIX@ + json_text(question.request@),
        ),
{
    subagent_approval_marker(
        &question.session_id,
        &question.run_id,
        MarkerKind::QuestionRequested,
        &render_json(&question.request),
    )
}

/// A question to the user has changed.
pub fn user_question_updated_marker(question: &UserQuestion) -> (r: SubSessionError)
    ensures
        marks(
            r,
            question.session_id@,
            question.run_id@,
            USER_QUESTION_UPDATED_PREFIX@ + json_text(question.request@),
        ),
{
    subagent_approval_marker(
        &question.session_id,
        &question.run_id,
        MarkerKind::QuestionUpdated,
        &render_json(&question.request),
    )
}

/// The user has answered.
pub fn user_question_resolved_marker(question: &UserQuestion, response: &JsonValue) -> (r:
    SubSessionError)
    ensures
        marks(
            r,
            question.session_id@,
            question.run_id@,
            USER_QUESTION_RESOLVED_PREFIX@ + json_text(
                resolved_value(question.request@, "response"@, response@),
            ),
        ),
{
    subagent_approval_marker(
        &question.session_id,
        &question.run_id,
        MarkerKind::QuestionResolved,
        &render_resolved(&question.request, "response", response),
    )
}

// --------------------------------------------------------------------- reading

/// What kind of marker a text is, and what it carries.
pub open spec fn unmarked(text: Seq<char>) -> Option<(MarkerKind, Seq<char>)> {
    if SUBAGENT_APPROVAL_REQUESTED_PREFIX@.is_prefix_of(text) {
        Some(
            (
                MarkerKind::ApprovalRequested,
                text.skip(SUBAGENT_APPROVAL_REQUESTED_PREFIX@.len() as int),
            ),
        )
    } else if SUBAGENT_APPROVAL_UPDATED_PREFIX@.is_prefix_of(text) {
        Some(
            (
                MarkerKind::ApprovalUpdated,
                text.skip(SUBAGENT_APPROVAL_UPDATED_PREFIX@.len() as int),
            ),
        )
    } else if SUBAGENT_APPROVAL_RESOLVED_PREFIX@.is_prefix_of(text) {
        Some(
            (
                MarkerKind::ApprovalResolved,
                text.skip(SUBAGENT_APPROVAL_RESOLVED_PREFIX@.len() as int),
            ),
        )
    } else if USER_QUESTION_REQUESTED_PREFIX@.is_prefix_of(text) {
        Some(
            (
                MarkerKind::QuestionRequested,
                text.skip(USER_QUESTION_REQUESTED_PREFIX@.len() as int),
            ),
        )
    } else if USER_QUESTION_UPDATED_PREFIX@.is_prefix_of(text) {
        Some(
            (
                MarkerKind::QuestionUpdated,
                text.skip(USER_QUESTION_UPDATED_PREFIX@.len() as int),
            ),
        )
    } else if USER_QUESTION_RESOLVED_PREFIX@.is_prefix_of(text) {
        Some(
            (
                MarkerKind::QuestionResolved,
                text.skip(USER_QUESTION_RESOLVED_PREFIX@.len() as int),
            ),
        )
    } else {
        None
    }
}

/// What kind of marker a text is, and what it carries.
pub fn read_marker(text: &str) -> (r: Option<(MarkerKind, String)>)
    ensures
        match r {
            Some((kind, payload)) => unmarked(text@) == Some((kind, payload@)),
            None => unmarked(text@) is None,
        },
{
    if let Some(payload) = strip_prefix(text, SUBAGENT_APPROVAL_REQUESTED_PREFIX) {
        return Some((MarkerKind::ApprovalRequested, payload));
    }
    if let Some(payload) = strip_prefix(text, SUBAGENT_APPROVAL_UPDATED_PREFIX) {
        return Some((MarkerKind::ApprovalUpdated, payload));
    }
    if let Some(payload) = strip_prefix(text, SUBAGENT_APPROVAL_RESOLVED_PREFIX) {
        return Some((MarkerKind::ApprovalResolved, payload));
    }
    if let Some(payload) = strip_prefix(text, USER_QUESTION_REQUESTED_PREFIX) {
        return Some((MarkerKind::QuestionRequested, payload));
    }
    if let Some(payload) = strip_prefix(text, USER_QUESTION_UPDATED_PREFIX) {
        return Some((MarkerKind::QuestionUpdated, payload));
    }
    if let Some(payload) = strip_prefix(text, USER_QUESTION_RESOLVED_PREFIX) {
        return Some((MarkerKind::QuestionResolved, payload));
    }
    None
}

/// What a marker brings: a request, with what came of it where that is known.
#[derive(Debug)]
pub struct MarkerEvent {
    pub kind: MarkerKind,
    pub request: JsonValue,
    pub outcome: Option<JsonValue>,
}

pub struct MarkerView {
    pub kind: MarkerKind,
    pub request: JsonView,
    pub outcome: Option<JsonView>,
}

impl View for MarkerEvent {
    type V = MarkerView;

    open spec fn view(&self) -> MarkerView {
        MarkerView {
            kind: self.kind,
            request: self.request@,
            outcome: match self.outcome {
                Some(o) => Some(o@),
                None => None,
            },
        }
    }
}

/// What a marker of a kind brings when it carries `value`.
pub open spec fn brought(kind: MarkerKind, value: JsonView) -> Option<MarkerView> {
    match kind {
        MarkerKind::ApprovalResolved | MarkerKind::QuestionResolved => {
            let key = if kind == MarkerKind::ApprovalResolved {
                "decision"@
            } else {
                "response"@
            };
            match (member(value, "request"@), member(value, key)) {
                (Some(request), Some(outcome)) => Some(
                    MarkerView { kind, request, outcome: Some(outcome) },
                ),
                _ => None,
            }
        },
        _ => Some(MarkerView { kind, request: value, outcome: None }),
    }
}

/// What a marker of a kind brings when it carries `value`.
pub fn read_marker_value(kind: MarkerKind, value: JsonValue) -> (r: Option<MarkerEvent>)
    ensures
        match r {
            Some(event) => brought(kind, value@) == Some(event@),
            None => brought(kind, value@) is None,
        },
{
    let key = match kind {
        MarkerKind::ApprovalResolved => "decision",
        MarkerKind::QuestionResolved => "response",
        _ => return Some(MarkerEvent { kind, request: value, outcome: None }),
    };
    match (value.get("request"), value.get(key)) {
        (Some(request), Some(outcome)) => Some(
            MarkerEvent { kind, request: request.copy(), outcome: Some(outcome.copy()) },
        ),
        _ => None,
    }
}

/// What an event of a sub-session brings, where it is a marker that can be read.
pub open spec fn event_of(agent_name: Seq<char>, message: Option<Seq<char>>) -> Option<MarkerView> {
    if agent_name != SUBAGENT_APPROVAL_MARKER_AGENT@ {
        None
    } else {
        match message {
            Some(text) => match unmarked(text) {
                Some((kind, payload)) => match parsed_json(payload) {
                    Ok(value) => brought(kind, value),
                    Err(_) => None,
                },
                None => None,
            },
            None => None,
        }
    }
}

/// What an event of a sub-session carries, where it is a marker with a payload
/// in JSON. `message` is that of an event that reports an error.
pub fn carried_by_marker(agent_name: &str, message: &Option<String>) -> (r: Option<MarkerEvent>)
    ensures
        match r {
            Some(event) => event_of(
                agent_name@,
                crate::message::option_text(*message),
            ) == Some(event@),
            None => event_of(agent_name@, crate::message::option_text(*message)) is None,
        },
{
    if !str_eq(agent_name, SUBAGENT_APPROVAL_MARKER_AGENT) {
        return None;
    }
    let text = match message {
        Some(text) => text,
        None => return None,
    };
    match read_marker(text) {
        Some((kind, payload)) => match parse_json(&payload) {
            Ok(value) => read_marker_value(kind, value),
            Err(_) => None,
        },
        None => None,
    }
}

/// Whether the values that a marker carries are what they should be: its
/// request a request, and its outcome, where it has one, a decision or response.
#[derive(Debug, Clone, Copy, PartialEq, Eq, Structural)]
pub struct MarkerFit {
    pub request: bool,
    pub outcome: bool,
}

/// What an event of a sub-session brings, given whether the values that it
/// carries are what they should be.
pub open spec fn event_from(
    agent_name: Seq<char>,
    message: Option<Seq<char>>,
    fit: MarkerFit,
) -> Option<MarkerView> {
    match event_of(agent_name, message) {
        Some(event) => if fit.request && (event.outcome is Some ==> fit.outcome) {
            Some(event)
        } else {
            None
        },
        None => None,
    }
}

/// What an event of a sub-session brings: the marker that it is, where the
/// values that the marker carries are what they should be.
pub fn cat_event_from_subagent_approval_marker(
    agent_name: &str,
    message: &Option<String>,
    fit: MarkerFit,
) -> (r: Option<MarkerEvent>)
    ensures
        match r {
            Some(event) => event_from(
                agent_name@,
                crate::message::option_text(*message),
                fit,
            ) == Some(event@),
            None => event_from(agent_name@, crate::message::option_text(*message), fit) is None,
        },
{
    match carried_by_marker(agent_name, message) {
        Some(event) => if fit.request && (event.outcome.is_none() || fit.outcome) {
            Some(event)
        } else {
            None
        },
        None => None,
    }
}

// ------------------------------------------------------------------------ laws

/// A text does not begin with a prefix that differs from its own somewhere.
proof fn lemma_other_prefix(mine: Seq<char>, other: Seq<char>, payload: Seq<char>, at: int)
    requires
        0 <= at < mine.len(),
        at < other.len(),
        mine[at] != other[at],
    ensures
        !other.is_prefix_of(mine + payload),
{
    if other.is_prefix_of(mine + payload) {
        assert((mine + payload).subrange(0, other.len() as int)[at] == other[at]);
        assert((mine + payload)[at] == mine[at]);
    }
}

/// A marker is read back as what it was made of: its kind and what it carries.
pub proof fn markers_are_read_back(kind: MarkerKind, payload: Seq<char>)
    ensures
        unmarked(marker_prefix(kind) + payload) == Some((kind, payload)),
{
    reveal_strlit("__remi_tool_approval_requested__:");
    reveal_strlit("__remi_tool_approval_updated__:");
    reveal_strlit("__remi_tool_approval_resolved__:");
    reveal_strlit("__remi_user_question_requested__:");
    reveal_strlit("__remi_user_question_updated__:");
    reveal_strlit("__remi_user_question_resolved__:");
    let text = marker_prefix(kind) + payload;
    let mine = marker_prefix(kind);
    assert(mine =~= text.subrange(0, mine.len() as int));
    assert(text.skip(mine.len() as int) =~= payload);
    let a = SUBAGENT_APPROVAL_REQUESTED_PREFIX@;
    let b = SUBAGENT_APPROVAL_UPDATED_PREFIX@;
    let c = SUBAGENT_APPROVAL_RESOLVED_PREFIX@;
    let d = USER_QUESTION_REQUESTED_PREFIX@;
    let e = USER_QUESTION_UPDATED_PREFIX@;
    assert(a[7] == 't' && b[7] == 't' && c[7] == 't' && d[7] == 'u' && e[7] == 'u');
    assert(a[21] == 'r' && b[21] == 'u' && c[21] == 'r');
    assert(a[23] == 'q' && c[23] == 's');
    assert(d[21] == 'r' && e[21] == 'u');
    assert(d[23] == 'q');
    match kind {
        MarkerKind::ApprovalRequested => {},
        MarkerKind::ApprovalUpdated => {
            lemma_other_prefix(mine, a, payload, 21);
        },
        MarkerKind::ApprovalResolved => {
            lemma_other_prefix(mine, a, payload, 23);
            lemma_other_prefix(mine, b, payload, 21);
        },
        MarkerKind::QuestionRequested => {
            lemma_other_prefix(mine, a, payload, 7);
            lemma_other_prefix(mine, b, payload, 7);
            lemma_other_prefix(mine, c, payload, 7);
        },
        MarkerKind::QuestionUpdated => {
            lemma_other_prefix(mine, a, payload, 7);
            lemma_other_prefix(mine, b, payload, 7);
            lemma_other_prefix(mine, c, payload, 7);
            lemma_other_prefix(mine, d, payload, 21);
        },
        MarkerKind::QuestionResolved => {
            assert(mine[7] == 'u' && mine[21] == 'r' && mine[23] == 's');
            lemma_other_prefix(mine, a, payload, 7);
            lemma_other_prefix(mine, b, payload, 7);
            lemma_other_prefix(mine, c, payload, 7);
            lemma_other_prefix(mine, d, payload, 23);
            lemma_other_prefix(mine, e, payload, 21);
        },
    }
}

/// A marker that asks for something brings the request; one that tells how it went
/// brings the request and the outcome that were put into it.
pub proof fn markers_bring_what_was_put_in(request: JsonView, outcome: JsonView)
    ensures
        brought(MarkerKind::ApprovalRequested, request) == Some(
            MarkerView { kind: MarkerKind::ApprovalRequested, request, outcome: None },
        ),
        brought(MarkerKind::ApprovalUpdated, request) == Some(
            MarkerView { kind: MarkerKind::ApprovalUpdated, request, outcome: None },
        ),
        brought(MarkerKind::QuestionRequested, request) == Some(
            MarkerView { kind: MarkerKind::QuestionRequested, request, outcome: None },
        ),
        brought(MarkerKind::QuestionUpdated, request) == Some(
            MarkerView { kind: MarkerKind::QuestionUpdated, request, outcome: None },
        ),
        brought(
            MarkerKind::ApprovalResolved,
            resolved_value(request, "decision"@, outcome),
        ) == Some(
            MarkerView { kind: MarkerKind::ApprovalResolved, request, outcome: Some(outcome) },
        ),
        brought(
            MarkerKind::QuestionResolved,
            resolved_value(request, "response"@, outcome),
        ) == Some(
            MarkerView { kind: MarkerKind::QuestionResolved, request, outcome: Some(outcome) },
        ),
{
    reveal_strlit("request");
    reveal_strlit("decision");
    reveal_strlit("response");
    let a = resolved_value(request, "decision"@, outcome)->Object_0;
    let b = resolved_value(request, "response"@, outcome)->Object_0;
    assert(a[0].0 == "request"@ && a[0].0.len() == 7);
    assert(b[0].0 == "request"@ && b[0].0.len() == 7);
    assert(a[1].0 == "decision"@ && a[1].0.len() == 8);
    assert(b[1].0 == "response"@ && b[1].0.len() == 8);
    fields_are_read_back(a, 0);
    fields_are_read_back(a, 1);
    fields_are_read_back(b, 0);
    fields_are_read_back(b, 1);
}

/// Only a marker of its own agent is read, and only where what it brings fits.
pub proof fn only_fitting_markers_are_read(
    agent_name: Seq<char>,
    message: Option<Seq<char>>,
    fit: MarkerFit,
)
    ensures
        agent_name != SUBAGENT_APPROVAL_MARKER_AGENT@ ==> event_from(agent_name, message, fit)
            is None,
        message is None ==> event_from(agent_name, message, fit) is None,
        !fit.request ==> event_from(agent_name, message, fit) is None,
        event_from(agent_name, message, fit) matches Some(e) ==> (e.outcome is Some ==> fit.outcome)
            && event_of(agent_name, message) == Some(e),
        fit.request && fit.outcome ==> event_from(agent_name, message, fit) == event_of(
            agent_name,
            message,
        ),
{
}

/// A marker that was written is read as the event that it tells of.
pub proof fn written_markers_are_events(kind: MarkerKind, payload: Seq<char>)
    ensures
        parsed_json(payload) matches Ok(value) ==> event_of(
            SUBAGENT_APPROVAL_MARKER_AGENT@,
            Some(marker_prefix(kind) + payload),
        ) == brought(kind, value),
{
    markers_are_read_back(kind, payload);
}

} // verus!
