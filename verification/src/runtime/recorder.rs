//! What is left of a turn that was cancelled.
use vstd::prelude::*;
use vstd::string::*;

use crate::json::{json_text, render_json, JsonValue, JsonView};
use crate::message::{
    copy_messages, copy_option_text, message_views, option_text, plain_message, ContentView,
    Message, MessageView, Role,
};
use crate::runtime::options::option_value;
use crate::text::{
    decimal, decimal_text, is_blank, lemma_occurs_in_both, occurs, str_eq, trimmed,
};

verus! {

broadcast use vstd::string::group_string_axioms;

/// What is known of a tool's call.
#[derive(Debug)]
pub struct PartialToolActivity {
    pub id: String,
    pub name: String,
    pub arguments_delta: String,
    pub arguments: Option<JsonValue>,
    pub result: Option<String>,
    pub success: Option<bool>,
    pub elapsed_ms: Option<u64>,
}

pub struct ActivityView {
    pub id: Seq<char>,
    pub name: Seq<char>,
    pub arguments_delta: Seq<char>,
    pub arguments: Option<JsonView>,
    pub result: Option<Seq<char>>,
    pub success: Option<bool>,
    pub elapsed_ms: Option<u64>,
}

impl View for PartialToolActivity {
    type V = ActivityView;

    open spec fn view(&self) -> ActivityView {
        ActivityView {
            id: self.id@,
            name: self.name@,
            arguments_delta: self.arguments_delta@,
            arguments: option_value(self.arguments),
            result: option_text(self.result),
            success: self.success,
            elapsed_ms: self.elapsed_ms,
        }
    }
}

pub open spec fn activity_views(tools: Seq<PartialToolActivity>) -> Seq<ActivityView> {
    tools.map_values(|t: PartialToolActivity| t@)
}

/// Where the first call with the given id stands.
pub open spec fn position(tools: Seq<ActivityView>, id: Seq<char>) -> Option<int>
    decreases tools.len(),
{
    if tools.len() == 0 {
        None
    } else if position(tools.drop_last(), id) is Some {
        position(tools.drop_last(), id)
    } else if tools.last().id == id {
        Some(tools.len() - 1)
    } else {
        None
    }
}

proof fn lemma_position(tools: Seq<ActivityView>, id: Seq<char>)
    ensures
        match position(tools, id) {
            Some(i) => {
                &&& 0 <= i < tools.len()
                &&& tools[i].id == id
                &&& forall|j: int| 0 <= j < i ==> (#[trigger] tools[j]).id != id
            },
            None => forall|j: int| 0 <= j < tools.len() ==> (#[trigger] tools[j]).id != id,
        },
    decreases tools.len(),
{
    if tools.len() > 0 {
        let head = tools.drop_last();
        lemma_position(head, id);
        assert forall|j: int| 0 <= j < tools.len() - 1 implies (#[trigger] tools[j]) == head[j] by {
        }
    }
}

/// A call of which only its id and its tool are known.
pub open spec fn new_activity(id: Seq<char>, name: Seq<char>) -> ActivityView {
    ActivityView {
        id,
        name,
        arguments_delta: Seq::empty(),
        arguments: None,
        result: None,
        success: None,
        elapsed_ms: None,
    }
}

/// The calls after one with the given id and name was announced.
pub open spec fn started(tools: Seq<ActivityView>, id: Seq<char>, name: Seq<char>) -> Seq<
    ActivityView,
> {
    match position(tools, id) {
        Some(i) => tools.update(i, ActivityView { name, ..tools[i] }),
        None => tools.push(new_activity(id, name)),
    }
}

/// The calls after more of the arguments of one came in.
pub open spec fn extended(tools: Seq<ActivityView>, id: Seq<char>, delta: Seq<char>) -> Seq<
    ActivityView,
> {
    match position(tools, id) {
        Some(i) => tools.update(
            i,
            ActivityView { arguments_delta: tools[i].arguments_delta + delta, ..tools[i] },
        ),
        None => tools,
    }
}

/// The calls after the arguments of one were complete.
pub open spec fn called(
    tools: Seq<ActivityView>,
    id: Seq<char>,
    name: Seq<char>,
    args: JsonView,
) -> Seq<ActivityView> {
    let all = started(tools, id, name);
    match position(all, id) {
        Some(i) => all.update(i, ActivityView { arguments: Some(args), ..all[i] }),
        None => all,
    }
}

/// The calls after one had its result.
pub open spec fn finished(
    tools: Seq<ActivityView>,
    id: Seq<char>,
    name: Seq<char>,
    args: JsonView,
    result: Seq<char>,
    success: bool,
    elapsed_ms: u64,
) -> Seq<ActivityView> {
    let all = called(tools, id, name, args);
    match position(all, id) {
        Some(i) => all.update(
            i,
            ActivityView {
                result: Some(result),
                success: Some(success),
                elapsed_ms: Some(elapsed_ms),
                ..all[i]
            },
        ),
        None => all,
    }
}

/// No two calls have the same id.
pub open spec fn distinct_calls(tools: Seq<ActivityView>) -> bool {
    forall|i: int, j: int|
        0 <= i < j < tools.len() ==> (#[trigger] tools[i]).id != (#[trigger] tools[j]).id
}

/// What has come of a turn so far.
#[derive(Debug)]
pub struct PartialTurnRecorder {
    pub base_messages: Vec<Message>,
    pub assistant_text: String,
    pub reasoning_content: Option<String>,
    pub tools: Vec<PartialToolActivity>,
}

pub struct RecorderView {
    pub base: Seq<MessageView>,
    pub text: Seq<char>,
    pub reasoning: Option<Seq<char>>,
    pub tools: Seq<ActivityView>,
}

impl View for PartialTurnRecorder {
    type V = RecorderView;

    open spec fn view(&self) -> RecorderView {
        RecorderView {
            base: message_views(self.base_messages@),
            text: self.assistant_text@,
            reasoning: option_text(self.reasoning_content),
            tools: activity_views(self.tools@),
        }
    }
}

pub open spec fn flag_text(b: bool) -> Seq<char> {
    if b {
        "true"@
    } else {
        "false"@
    }
}

/// The arguments of a call: those that are complete, else what came in of them.
pub open spec fn arguments_text(tool: ActivityView) -> Seq<char> {
    match tool.arguments {
        Some(value) => if json_text(value).len() > 0 {
            json_text(value)
        } else {
            tool.arguments_delta
        },
        None => tool.arguments_delta,
    }
}

/// The line that tells of a call.
pub open spec fn activity_line(tool: ActivityView) -> Seq<char> {
    let named = "\n- "@ + tool.name + " ("@ + tool.id + ")"@;
    let args = arguments_text(tool);
    let given = if trimmed(args).len() > 0 {
        named + " args: "@ + args
    } else {
        named
    };
    match (tool.result, tool.success, tool.elapsed_ms) {
        (Some(result), Some(success), Some(elapsed)) => given + " result: "@ + result
            + " success: "@ + flag_text(success) + " elapsed_ms: "@ + decimal(elapsed as nat),
        _ => given + " status: cancelled before completion"@,
    }
}

/// `text` with the lines of the calls behind it.
pub open spec fn with_activity(text: Seq<char>, tools: Seq<ActivityView>) -> Seq<char>
    decreases tools.len(),
{
    if tools.len() == 0 {
        text
    } else {
        with_activity(text, tools.drop_last()) + activity_line(tools.last())
    }
}

/// What the assistant is taken to have said.
pub open spec fn cancelled_text(r: RecorderView) -> Seq<char> {
    let said = if r.tools.len() > 0 {
        let head = if r.text.len() > 0 {
            r.text + "\n\n"@
        } else {
            r.text
        };
        with_activity(head + "[Cancelled tool activity]"@, r.tools)
    } else {
        r.text
    };
    if said.len() == 0 {
        "[Cancelled before assistant text was produced]"@
    } else {
        said
    }
}

/// The history that is kept of the turn.
pub open spec fn cancelled_history(r: RecorderView) -> Option<Seq<MessageView>> {
    if r.text.len() == 0 && r.reasoning is None && r.tools.len() == 0 {
        if r.base.len() > 0 {
            Some(r.base)
        } else {
            None
        }
    } else {
        Some(
            r.base.push(
                MessageView {
                    reasoning_content: r.reasoning,
                    ..plain_message(Role::Assistant, cancelled_text(r))
                },
            ),
        )
    }
}

fn render_activity(tool: &PartialToolActivity) -> (r: String)
    ensures
        r@ == activity_line(tool@),
{
    let mut line = "\n- ".to_owned();
    line.push_str(&tool.name);
    line.push_str(" (");
    line.push_str(&tool.id);
    line.push_str(")");
    let args = match &tool.arguments {
        Some(value) => {
            let text = render_json(value);
            if text.unicode_len() > 0 {
                text
            } else {
                tool.arguments_delta.clone()
            }
        },
        None => tool.arguments_delta.clone(),
    };
    if !is_blank(&args) {
        line.push_str(" args: ");
        line.push_str(&args);
    }
    match (&tool.result, tool.success, tool.elapsed_ms) {
        (Some(result), Some(success), Some(elapsed_ms)) => {
            line.push_str(" result: ");
            line.push_str(result);
            line.push_str(" success: ");
            line.push_str(if success { "true" } else { "false" });
            line.push_str(" elapsed_ms: ");
            line.push_str(&decimal_text(elapsed_ms));
        },
        _ => line.push_str(" status: cancelled before completion"),
    }
    line
}

impl PartialTurnRecorder {
    pub fn new(base_messages: Vec<Message>) -> (r: PartialTurnRecorder)
        ensures
            r@ == (RecorderView {
                base: message_views(base_messages@),
                text: Seq::empty(),
                reasoning: None,
                tools: Seq::empty(),
            }),
    {
        let r = PartialTurnRecorder {
            base_messages,
            assistant_text: String::new(),
            reasoning_content: None,
            tools: Vec::new(),
        };
        assert(r@.tools =~= Seq::<ActivityView>::empty());
        assert(r@.text =~= Seq::<char>::empty());
        r
    }

    /// The assistant said more.
    pub fn on_text(&mut self, text: &str)
        ensures
            final(self)@ == (RecorderView { text: old(self)@.text + text@, ..old(self)@ }),
    {
        self.assistant_text.push_str(text);
    }

    /// The assistant thought.
    pub fn on_thinking(&mut self, content: String)
        ensures
            final(self)@ == (RecorderView { reasoning: Some(content@), ..old(self)@ }),
    {
        self.reasoning_content = Some(content);
    }

    fn find(&self, id: &str) -> (r: Option<usize>)
        ensures
            match position(self@.tools, id@) {
                Some(i) => r == Some(i as usize) && 0 <= i < self.tools.len(),
                None => r is None,
            },
    {
        let ghost all = self@.tools;
        let mut i: usize = 0;
        while i < self.tools.len()
            invariant
                i <= self.tools.len(),
                all == activity_views(self.tools@),
                forall|j: int| 0 <= j < i ==> (#[trigger] all[j]).id != id@,
            decreases self.tools.len() - i,
        {
            assert(all[i as int] == self.tools@[i as int]@);
            if str_eq(&self.tools[i].id, id) {
                proof {
                    lemma_position(all, id@);
                    let found = position(all, id@);
                    if found is None {
                        assert(all[i as int].id != id@);
                    } else if found->0 < i {
                        assert(all[found->0].id != id@);
                    } else if found->0 > i {
                        assert(all[i as int].id != id@);
                    }
                }
                return Some(i);
            }
            i += 1;
        }
        proof {
            lemma_position(all, id@);
        }
        None
    }

    /// A tool is about to be called.
    pub fn on_tool_start(&mut self, id: String, name: String)
        ensures
            final(self)@ == (RecorderView {
                tools: started(old(self)@.tools, id@, name@),
                ..old(self)@
            }),
    {
        let ghost before = self@.tools;
        match self.find(&id) {
            Some(i) => {
                let ghost view = ActivityView { name: name@, ..before[i as int] };
                self.tools[i].name = name;
                assert(self@.tools =~= before.update(i as int, view));
            },
            None => {
                let tool = PartialToolActivity {
                    id,
                    name,
                    arguments_delta: String::new(),
                    arguments: None,
                    result: None,
                    success: None,
                    elapsed_ms: None,
                };
                assert(tool.arguments_delta@ =~= Seq::<char>::empty());
                let ghost view = tool@;
                self.tools.push(tool);
                assert(self@.tools =~= before.push(view));
            },
        }
    }

    /// More of a call's arguments came in.
    pub fn on_tool_arguments_delta(&mut self, id: &str, delta: &str)
        ensures
            final(self)@ == (RecorderView {
                tools: extended(old(self)@.tools, id@, delta@),
                ..old(self)@
            }),
    {
        let ghost before = self@.tools;
        match self.find(id) {
            Some(i) => {
                let ghost view = ActivityView {
                    arguments_delta: before[i as int].arguments_delta + delta@,
                    ..before[i as int]
                };
                let mut text = self.tools[i].arguments_delta.clone();
                text.push_str(delta);
                self.tools[i].arguments_delta = text;
                assert(self@.tools =~= before.update(i as int, view));
            },
            None => {},
        }
    }

    /// A tool was called.
    pub fn on_tool_call(&mut self, id: String, name: String, args: JsonValue)
        ensures
            final(self)@ == (RecorderView {
                tools: called(old(self)@.tools, id@, name@, args@),
                ..old(self)@
            }),
    {
        self.on_tool_start(id.clone(), name);
        let ghost before = self@.tools;
        match self.find(&id) {
            Some(i) => {
                let ghost view = ActivityView { arguments: Some(args@), ..before[i as int] };
                self.tools[i].arguments = Some(args);
                assert(self@.tools =~= before.update(i as int, view));
            },
            None => {},
        }
    }

    /// A tool has answered.
    pub fn on_tool_result(
        &mut self,
        id: String,
        name: String,
        args: JsonValue,
        result: String,
        success: bool,
        elapsed_ms: u64,
    )
        ensures
            final(self)@ == (RecorderView {
                tools: finished(
                    old(self)@.tools,
                    id@,
                    name@,
                    args@,
                    result@,
                    success,
                    elapsed_ms,
                ),
                ..old(self)@
            }),
    {
        self.on_tool_call(id.clone(), name, args);
        let ghost before = self@.tools;
        match self.find(&id) {
            Some(i) => {
                let ghost view = ActivityView {
                    result: Some(result@),
                    success: Some(success),
                    elapsed_ms: Some(elapsed_ms),
                    ..before[i as int]
                };
                self.tools[i].result = Some(result);
                self.tools[i].success = Some(success);
                self.tools[i].elapsed_ms = Some(elapsed_ms);
                assert(self@.tools =~= before.update(i as int, view));
            },
            None => {},
        }
    }

    /// The history that is kept of the turn.
    pub fn synthesize_history(&self) -> (r: Option<Vec<Message>>)
        ensures
            match r {
                Some(messages) => cancelled_history(self@) == Some(message_views(messages@)),
                None => cancelled_history(self@) is None,
            },
    {
        if self.assistant_text.unicode_len() == 0 && self.reasoning_content.is_none()
            && self.tools.len() == 0 {
            return if self.base_messages.len() > 0 {
                Some(copy_messages(&self.base_messages))
            } else {
                None
            };
        }
        let mut content = self.assistant_text.clone();
        if self.tools.len() > 0 {
            if content.unicode_len() > 0 {
                content.push_str("\n\n");
            }
            content.push_str("[Cancelled tool activity]");
            let ghost head = content@;
            let ghost all = self@.tools;
            let mut i: usize = 0;
            assert(all.take(0) =~= Seq::empty());
            while i < self.tools.len()
                invariant
                    i <= self.tools.len(),
                    all == activity_views(self.tools@),
                    content@ == with_activity(head, all.take(i as int)),
                decreases self.tools.len() - i,
            {
                assert(all.take(i + 1).drop_last() =~= all.take(i as int));
                assert(all[i as int] == self.tools@[i as int]@);
                content.push_str(&render_activity(&self.tools[i]));
                i += 1;
            }
            assert(all.take(i as int) =~= all);
        }
        if content.unicode_len() == 0 {
            content = "[Cancelled before assistant text was produced]".to_owned();
        }
        let mut message = Message::assistant(&content);
        message.reasoning_content = copy_option_text(&self.reasoning_content);
        let ghost view = message@;
        let mut messages = copy_messages(&self.base_messages);
        let ghost base = message_views(messages@);
        messages.push(message);
        assert(message_views(messages@) =~= base.push(view));
        Some(messages)
    }
}

/// Calls are told apart by their ids, whatever comes in.
pub proof fn calls_stay_distinct(
    tools: Seq<ActivityView>,
    id: Seq<char>,
    name: Seq<char>,
    delta: Seq<char>,
    args: JsonView,
    result: Seq<char>,
    success: bool,
    elapsed_ms: u64,
)
    requires
        distinct_calls(tools),
    ensures
        distinct_calls(started(tools, id, name)),
        distinct_calls(extended(tools, id, delta)),
        distinct_calls(called(tools, id, name, args)),
        distinct_calls(finished(tools, id, name, args, result, success, elapsed_ms)),
{
    lemma_position(tools, id);
    lemma_position(started(tools, id, name), id);
    lemma_position(called(tools, id, name, args), id);
}

/// A history that is kept starts with what the turn started with, and adds at
/// most one message: an assistant's, which calls no tool and answers no call.
pub proof fn cancelling_adds_one_plain_message(r: RecorderView)
    requires
        cancelled_history(r) is Some,
    ensures
        r.base.is_prefix_of(cancelled_history(r)->0),
        cancelled_history(r)->0.len() <= r.base.len() + 1,
        cancelled_history(r)->0.len() == r.base.len() + 1 ==> {
            let added = cancelled_history(r)->0.last();
            &&& added.role == Role::Assistant
            &&& added.tool_calls is None
            &&& added.tool_call_id is None
        },
{
    let all = cancelled_history(r)->0;
    assert(r.base =~= all.subrange(0, r.base.len() as int));
}

proof fn lemma_activity_prefix(text: Seq<char>, tools: Seq<ActivityView>)
    ensures
        text.len() <= with_activity(text, tools).len(),
        with_activity(text, tools).take(text.len() as int) =~= text,
    decreases tools.len(),
{
    if tools.len() > 0 {
        lemma_activity_prefix(text, tools.drop_last());
    }
}

/// What the assistant had said stands at the head of what is kept.
pub proof fn cancelling_keeps_the_text(r: RecorderView)
    requires
        r.text.len() > 0,
    ensures
        r.text.is_prefix_of(cancelled_text(r)),
{
    let all = cancelled_text(r);
    if r.tools.len() > 0 {
        let head = r.text + "\n\n"@ + "[Cancelled tool activity]"@;
        lemma_activity_prefix(head, r.tools);
        assert(head =~= all.take(head.len() as int));
        assert(head.take(r.text.len() as int) =~= r.text);
        assert(r.text =~= all.subrange(0, r.text.len() as int)) by {
            assert forall|i: int| 0 <= i < r.text.len() implies r.text[i] == all[i] by {
                assert(all.take(head.len() as int)[i] == all[i]);
                assert(head[i] == r.text[i]);
            }
        }
    } else {
        assert(r.text =~= all.subrange(0, r.text.len() as int));
    }
}

// ------------------------------------------------------------------ what is recorded

/// A call is found by its id: the first of that id, where there is one.
pub proof fn calls_are_found_by_their_id(tools: Seq<ActivityView>, id: Seq<char>)
    ensures
        match position(tools, id) {
            Some(i) => {
                &&& 0 <= i < tools.len()
                &&& tools[i].id == id
                &&& forall|j: int| 0 <= j < i ==> (#[trigger] tools[j]).id != id
            },
            None => forall|j: int| 0 <= j < tools.len() ==> (#[trigger] tools[j]).id != id,
        },
{
    lemma_position(tools, id);
}

proof fn lemma_updated(tools: Seq<ActivityView>, id: Seq<char>, i: int, v: ActivityView)
    requires
        position(tools, id) == Some(i),
        v.id == id,
    ensures
        position(tools.update(i, v), id) == Some(i),
{
    lemma_position(tools, id);
    let all = tools.update(i, v);
    lemma_position(all, id);
    assert(all[i].id == id);
    if position(all, id) is Some {
        let k = position(all, id)->0;
        if k < i {
            assert(all[k] == tools[k]);
        } else if k > i {
            assert(all[i].id != id);
        }
    }
}

proof fn lemma_pushed(tools: Seq<ActivityView>, id: Seq<char>, v: ActivityView)
    requires
        position(tools, id) is None,
        v.id == id,
    ensures
        position(tools.push(v), id) == Some(tools.len() as int),
{
    assert(tools.push(v).drop_last() =~= tools);
}

/// A call that starts is recorded under its id and name, at the end where it is new;
/// what was recorded of other calls, and of this one, stays.
pub proof fn a_started_call_is_recorded(tools: Seq<ActivityView>, id: Seq<char>, name: Seq<char>)
    ensures
        ({
            let r = started(tools, id, name);
            let k = position(r, id);
            &&& k is Some
            &&& r[k->0].id == id && r[k->0].name == name
            &&& position(tools, id) is None ==> r.drop_last() == tools && r[k->0].result is None
                && r[k->0].arguments is None
            &&& position(tools, id) matches Some(i) ==> {
                &&& r.len() == tools.len()
                &&& k == Some(i)
                &&& r[i].arguments == tools[i].arguments && r[i].result == tools[i].result
                &&& forall|j: int| 0 <= j < r.len() && j != i ==> #[trigger] r[j] == tools[j]
            }
        }),
{
    lemma_position(tools, id);
    match position(tools, id) {
        Some(i) => {
            lemma_updated(tools, id, i, ActivityView { name, ..tools[i] });
        },
        None => {
            lemma_pushed(tools, id, new_activity(id, name));
            assert(started(tools, id, name).drop_last() =~= tools);
        },
    }
}

/// What is added to the arguments of a call stands behind what was there; of a call
/// that is not known nothing is recorded.
pub proof fn added_arguments_are_recorded(
    tools: Seq<ActivityView>,
    id: Seq<char>,
    delta: Seq<char>,
)
    ensures
        ({
            let r = extended(tools, id, delta);
            &&& r.len() == tools.len()
            &&& position(tools, id) is None ==> r == tools
            &&& position(tools, id) matches Some(i) ==> {
                &&& r[i].arguments_delta == tools[i].arguments_delta + delta
                &&& r[i].id == id && r[i].name == tools[i].name
                &&& forall|j: int| 0 <= j < r.len() && j != i ==> #[trigger] r[j] == tools[j]
            }
        }),
{
    lemma_position(tools, id);
}

/// A call that is over is recorded with its arguments, its result, whether it went
/// well and how long it took; other calls stay as they are.
pub proof fn a_finished_call_is_recorded(
    tools: Seq<ActivityView>,
    id: Seq<char>,
    name: Seq<char>,
    args: JsonView,
    result: Seq<char>,
    success: bool,
    elapsed_ms: u64,
)
    ensures
        ({
            let r = finished(tools, id, name, args, result, success, elapsed_ms);
            let k = position(r, id);
            &&& k is Some
            &&& {
                let c = r[k->0];
                &&& c.id == id
                &&& c.name == name
                &&& c.arguments == Some(args)
                &&& c.result == Some(result)
                &&& c.success == Some(success)
                &&& c.elapsed_ms == Some(elapsed_ms)
            }
            &&& r.len() == if position(tools, id) is Some {
                tools.len()
            } else {
                tools.len() + 1
            }
            &&& forall|j: int|
                0 <= j < tools.len() && tools[j].id != id ==> #[trigger] r[j] == tools[j]
        }),
{
    let a = started(tools, id, name);
    a_started_call_is_recorded(tools, id, name);
    let i = position(a, id)->0;
    lemma_position(a, id);
    lemma_position(tools, id);
    let v = ActivityView { arguments: Some(args), ..a[i] };
    lemma_updated(a, id, i, v);
    let b = called(tools, id, name, args);
    assert(b == a.update(i, v));
    let w = ActivityView {
        result: Some(result),
        success: Some(success),
        elapsed_ms: Some(elapsed_ms),
        ..b[i]
    };
    lemma_updated(b, id, i, w);
    let r = finished(tools, id, name, args, result, success, elapsed_ms);
    assert(r == b.update(i, w));
    assert forall|j: int| 0 <= j < tools.len() && tools[j].id != id implies #[trigger] r[j]
        == tools[j] by {
        if position(tools, id) is None {
            assert(a.drop_last()[j] == a[j]);
        }
    }
}

/// A line about a call tells its name and id, its arguments where there are any, and
/// its result where it has one; one without is said to have been cut off.
pub proof fn lines_tell_of_their_call(tool: ActivityView)
    ensures
        occurs(activity_line(tool), tool.name),
        occurs(activity_line(tool), tool.id),
        trimmed(arguments_text(tool)).len() > 0 ==> occurs(
            activity_line(tool),
            arguments_text(tool),
        ),
        tool.result is Some && tool.success is Some && tool.elapsed_ms is Some ==> occurs(
            activity_line(tool),
            tool.result->0,
        ),
        tool.result is None ==> occurs(
            activity_line(tool),
            " status: cancelled before completion"@,
        ),
{
    let n0 = "\n- "@ + tool.name;
    let n1 = n0 + " ("@ + tool.id;
    let named = n1 + ")"@;
    let args = arguments_text(tool);
    let given = if trimmed(args).len() > 0 {
        named + " args: "@ + args
    } else {
        named
    };
    lemma_occurs_in_both("\n- "@, tool.name, tool.name);
    lemma_adds(n0, " ("@, tool.id, tool.name);
    lemma_adds(n0, " ("@, tool.id, tool.id);
    lemma_occurs_in_both(n1, ")"@, tool.name);
    lemma_occurs_in_both(n1, ")"@, tool.id);
    lemma_adds(named, " args: "@, args, tool.name);
    lemma_adds(named, " args: "@, args, tool.id);
    lemma_adds(named, " args: "@, args, args);
    if tool.result is Some && tool.success is Some && tool.elapsed_ms is Some {
        let r = tool.result->0;
        let n2 = given + " result: "@ + r;
        let f = flag_text(tool.success->0);
        let n3 = n2 + " success: "@ + f;
        let d = decimal(tool.elapsed_ms->0 as nat);
        assert(activity_line(tool) == n3 + " elapsed_ms: "@ + d);
        lemma_through(given, r, f, d, tool.name);
        lemma_through(given, r, f, d, tool.id);
        lemma_through(given, r, f, d, args);
        lemma_through(given, r, f, d, r);
    } else {
        let e = " status: cancelled before completion"@;
        assert(activity_line(tool) == given + e);
        lemma_occurs_in_both(given, e, tool.name);
        lemma_occurs_in_both(given, e, tool.id);
        lemma_occurs_in_both(given, e, args);
        lemma_occurs_in_both(given, e, e);
    }
}

proof fn lemma_adds(a: Seq<char>, b: Seq<char>, c: Seq<char>, x: Seq<char>)
    ensures
        occurs(a, x) ==> occurs(a + b + c, x),
        x == c ==> occurs(a + b + c, x),
{
    lemma_occurs_in_both(a, b, x);
    lemma_occurs_in_both(a + b, c, x);
}

proof fn lemma_through(given: Seq<char>, r: Seq<char>, f: Seq<char>, d: Seq<char>, x: Seq<char>)
    ensures
        occurs(given, x) || x == r ==> occurs(
            given + " result: "@ + r + " success: "@ + f + " elapsed_ms: "@ + d,
            x,
        ),
{
    lemma_adds(given, " result: "@, r, x);
    lemma_adds(given + " result: "@ + r, " success: "@, f, x);
    lemma_adds(given + " result: "@ + r + " success: "@ + f, " elapsed_ms: "@, d, x);
}

proof fn lemma_activity_lines(text: Seq<char>, tools: Seq<ActivityView>, i: int)
    requires
        0 <= i < tools.len(),
    ensures
        occurs(with_activity(text, tools), activity_line(tools[i])),
    decreases tools.len(),
{
    let head = with_activity(text, tools.drop_last());
    let x = activity_line(tools[i]);
    if i < tools.len() - 1 {
        lemma_activity_lines(text, tools.drop_last(), i);
    }
    lemma_occurs_in_both(head, activity_line(tools.last()), x);
}

/// What is kept of a turn that was cut off holds a line for each of its calls, and
/// the reasoning as it was.
pub proof fn cancelling_keeps_every_call(r: RecorderView, i: int)
    requires
        0 <= i < r.tools.len(),
    ensures
        occurs(cancelled_text(r), activity_line(r.tools[i])),
        cancelled_history(r) is Some,
        cancelled_history(r)->0.last().content == ContentView::Text(cancelled_text(r)),
        cancelled_history(r)->0.last().reasoning_content == r.reasoning,
{
    let head = if r.text.len() > 0 {
        r.text + "\n\n"@
    } else {
        r.text
    };
    reveal_strlit("[Cancelled tool activity]");
    let h = head + "[Cancelled tool activity]"@;
    lemma_activity_lines(h, r.tools, i);
    lemma_activity_prefix(h, r.tools);
    assert(with_activity(h, r.tools).len() > 0);
}

/// A turn of which nothing was heard leaves what was there before; every other
/// leaves a message.
pub proof fn only_silent_turns_leave_no_message(r: RecorderView)
    ensures
        r.text.len() == 0 && r.reasoning is None && r.tools.len() == 0 ==> cancelled_history(r)
            == (if r.base.len() > 0 {
            Some(r.base)
        } else {
            None
        }),
        r.text.len() > 0 || r.reasoning is Some || r.tools.len() > 0 ==> cancelled_history(r)
            is Some && cancelled_history(r)->0.len() == r.base.len() + 1,
{
}

/// The arguments of a call are told as it was made; while it is not made, as far as
/// they were heard.
pub proof fn arguments_are_told_as_they_are(tool: ActivityView)
    ensures
        tool.arguments matches Some(v) ==> json_text(v).len() > 0 ==> arguments_text(tool)
            == json_text(v),
        tool.arguments matches Some(v) ==> json_text(v).len() == 0 ==> arguments_text(tool)
            == tool.arguments_delta,
        tool.arguments is None ==> arguments_text(tool) == tool.arguments_delta,
        flag_text(true) == "true"@ && flag_text(false) == "false"@,
{
}

} // verus!
