//! Tools that go on running in the background.
use vstd::prelude::*;
use vstd::string::*;

use crate::json::{
    fields_are_read_back, json_text, member, no_fields, render_json, JsonMap, JsonValue, JsonView,
};
use crate::message::{insert_system, message_views, with_system_at, Content, ContentView, Message};
use crate::runtime::steer::{QueuedInput, QueuedView, SteerSource};
use crate::text::{
    decimal, decimal_text, first_chars, join, joined, lemma_occurs_in_both, occurs, str_eq,
    take_chars, texts, what_is_joined_is_there,
};

verus! {

broadcast use vstd::string::group_string_axioms;

pub const ASYNC_TOOL_SYSTEM_PROMPT: &'static str =
    "Async tool execution:\n- Tool calls can keep running in the background after the foreground observation window closes.\n- You are free to process other user request, any other tasks or patiently waiting by doing nothing.\n- Do not continuously poll background tasks. The system will automatically send a system message with the tool name, task_id, elapsed time, and result when the task finishes.\n- Use `tool_tasks` only when you need to inspect current status/recent output or cancel an existing background task.";

/// Tells an agent how background tools work.
pub fn insert_async_tool_system_prompt(history: &mut Vec<Message>, insertion_index: usize)
    ensures
        message_views(final(history)@) == with_system_at(
            message_views(old(history)@),
            insertion_index as int,
            ASYNC_TOOL_SYSTEM_PROMPT@,
        ),
{
    insert_system(history, insertion_index, ASYNC_TOOL_SYSTEM_PROMPT);
}

/// A tool that ran in the background.
#[derive(Debug)]
pub struct ToolTaskRecord {
    pub task_id: String,
    pub thread_id: String,
    pub tool_name: String,
    pub args: JsonValue,
    pub status: String,
    pub elapsed_ms: Option<u64>,
    pub success: Option<bool>,
    pub result_preview: Option<String>,
    pub recent_output: Vec<String>,
    pub message: Option<String>,
}

/// The beginning of the arguments of a tool.
pub open spec fn args_preview(args: JsonView) -> Seq<char> {
    first_chars(json_text(args), 50)
}

/// The beginning of the arguments of a tool.
pub fn background_task_args_preview(args: &JsonValue) -> (r: String)
    ensures
        r@ == args_preview(args@),
{
    take_chars(&render_json(args), 50)
}

pub open spec fn bool_text(b: bool) -> Seq<char> {
    if b {
        "true"@
    } else {
        "false"@
    }
}

/// What an agent is told of a tool that finished in the background, given the
/// beginning of its arguments.
pub open spec fn completion_text(task: ToolTaskRecord, args: Seq<char>) -> Seq<char> {
    let t = "Background tool task completed.\ntool: "@ + task.tool_name@ + "\ntask_id: "@
        + task.task_id@ + "\nstatus: "@ + task.status@ + "\nargs: "@ + args + "\nelapsed_ms: "@
        + decimal(
        match task.elapsed_ms {
            Some(n) => n as nat,
            None => 0,
        },
    ) + "\n"@;
    let t = match task.success {
        Some(b) => t + "success: "@ + bool_text(b) + "\n"@,
        None => t,
    };
    let t = match task.message {
        Some(m) => t + "message: "@ + m@ + "\n"@,
        None => t,
    };
    let t = if task.recent_output@.len() > 0 {
        t + "recent_output:\n"@ + joined(texts(task.recent_output@), "\n"@) + "\n"@
    } else {
        t
    };
    match task.result_preview {
        Some(r) => t + "result:\n"@ + r@,
        None => t,
    }
}

/// What an agent is told of a tool that finished in the background.
pub fn completion_message(task: &ToolTaskRecord, args: &str) -> (r: String)
    ensures
        r@ == completion_text(*task, args@),
{
    let mut t = "Background tool task completed.\ntool: ".to_owned();
    t.push_str(&task.tool_name);
    t.push_str("\ntask_id: ");
    t.push_str(&task.task_id);
    t.push_str("\nstatus: ");
    t.push_str(&task.status);
    t.push_str("\nargs: ");
    t.push_str(args);
    t.push_str("\nelapsed_ms: ");
    let elapsed: u64 = match task.elapsed_ms {
        Some(n) => n,
        None => 0,
    };
    t.push_str(&decimal_text(elapsed));
    t.push_str("\n");
    match task.success {
        Some(b) => {
            t.push_str("success: ");
            if b {
                t.push_str("true");
            } else {
                t.push_str("false");
            }
            t.push_str("\n");
        },
        None => {},
    }
    match &task.message {
        Some(m) => {
            t.push_str("message: ");
            t.push_str(m);
            t.push_str("\n");
        },
        None => {},
    }
    if task.recent_output.len() > 0 {
        t.push_str("recent_output:\n");
        t.push_str(&join(&task.recent_output, "\n"));
        t.push_str("\n");
    }
    match &task.result_preview {
        Some(r) => {
            t.push_str("result:\n");
            t.push_str(r);
        },
        None => {},
    }
    t
}

/// What an agent is told of a tool that finished in the background.
pub fn background_task_completion_content(task: &ToolTaskRecord) -> (r: Content)
    ensures
        r@ == ContentView::Text(completion_text(*task, args_preview(task.args@))),
{
    let args = background_task_args_preview(&task.args);
    Content::Text(completion_message(task, &args))
}

/// The input that a finished tool gives to a running turn, given the beginning of
/// its arguments.
pub open spec fn completion_input(task: ToolTaskRecord, args: Seq<char>) -> QueuedView {
    QueuedView {
        id: "tool-task-"@ + task.task_id@,
        content: ContentView::Text(completion_text(task, args)),
        preview: "Background task "@ + task.task_id@ + " ("@ + task.tool_name@ + ") completed"@,
        message_metadata: Some(
            JsonView::Object(
                no_fields().push(("background_tool_task"@, JsonView::Bool(true))).push(
                    ("task_id"@, JsonView::Text(task.task_id@)),
                ).push(("tool_name"@, JsonView::Text(task.tool_name@))).push(
                    ("status"@, JsonView::Text(task.status@)),
                ).push(("args"@, JsonView::Text(args))),
            ),
        ),
        user_name: None,
        source: SteerSource::BackgroundToolCompletion,
    }
}

/// The input that a finished tool gives to a running turn, given the beginning of
/// its arguments.
pub fn completion_input_with(task: &ToolTaskRecord, args: &str) -> (r: QueuedInput)
    ensures
        r@ == completion_input(*task, args@),
{
    let mut id = "tool-task-".to_owned();
    id.push_str(&task.task_id);
    let mut preview = "Background task ".to_owned();
    preview.push_str(&task.task_id);
    preview.push_str(" (");
    preview.push_str(&task.tool_name);
    preview.push_str(") completed");
    let map = JsonMap::new().with("background_tool_task", JsonValue::Bool(true)).with(
        "task_id",
        JsonValue::text(&task.task_id),
    ).with("tool_name", JsonValue::text(&task.tool_name)).with(
        "status",
        JsonValue::text(&task.status),
    ).with("args", JsonValue::text(args));
    QueuedInput {
        id,
        content: Content::Text(completion_message(task, args)),
        preview,
        message_metadata: Some(JsonValue::object(map)),
        user_name: None,
        source: SteerSource::BackgroundToolCompletion,
    }
}

/// The input that a finished tool gives to a running turn.
pub fn background_task_completion_steer_input(task: &ToolTaskRecord) -> (r: QueuedInput)
    ensures
        r@ == completion_input(*task, args_preview(task.args@)),
{
    let args = background_task_args_preview(&task.args);
    completion_input_with(task, &args)
}

/// Where the first task of a thread stands in a list.
pub open spec fn first_of_thread(tasks: Seq<ToolTaskRecord>, thread_id: Seq<char>) -> Option<int>
    decreases tasks.len(),
{
    if tasks.len() == 0 {
        None
    } else {
        match first_of_thread(tasks.drop_last(), thread_id) {
            Some(i) => Some(i),
            None => if tasks.last().thread_id@ == thread_id {
                Some(tasks.len() - 1)
            } else {
                None
            },
        }
    }
}

/// Where the first of the tasks that were received belongs to a thread; those
/// before it are passed over.
pub fn next_completed_task(tasks: &Vec<ToolTaskRecord>, thread_id: &str) -> (r: Option<usize>)
    ensures
        match r {
            Some(i) => first_of_thread(tasks@, thread_id@) == Some(i as int),
            None => first_of_thread(tasks@, thread_id@) is None,
        },
        r matches Some(i) ==> i < tasks.len() && tasks@[i as int].thread_id@ == thread_id@,
{
    let mut i: usize = 0;
    while i < tasks.len()
        invariant
            i <= tasks.len(),
            first_of_thread(tasks@.take(i as int), thread_id@) is None,
        decreases tasks.len() - i,
    {
        assert(tasks@.take(i + 1).drop_last() =~= tasks@.take(i as int));
        if str_eq(&tasks[i].thread_id, thread_id) {
            proof {
                lemma_first_stays(tasks@, thread_id@, i + 1);
            }
            return Some(i);
        }
        i += 1;
    }
    assert(tasks@.take(i as int) =~= tasks@);
    None
}

proof fn lemma_first_stays(tasks: Seq<ToolTaskRecord>, thread_id: Seq<char>, k: int)
    requires
        0 <= k <= tasks.len(),
        first_of_thread(tasks.take(k), thread_id) is Some,
    ensures
        first_of_thread(tasks, thread_id) == first_of_thread(tasks.take(k), thread_id),
    decreases tasks.len(),
{
    if k < tasks.len() {
        assert(tasks.drop_last().take(k) =~= tasks.take(k));
        lemma_first_stays(tasks.drop_last(), thread_id, k);
    } else {
        assert(tasks.take(k) =~= tasks);
    }
}

// ------------------------------------------------------------------------ its laws

/// The task of a thread that is told of next is the first of that thread; where
/// none is its own, none is told of.
pub proof fn the_first_task_of_a_thread_is_next(tasks: Seq<ToolTaskRecord>, thread_id: Seq<char>)
    ensures
        match first_of_thread(tasks, thread_id) {
            Some(i) => {
                &&& 0 <= i < tasks.len()
                &&& tasks[i].thread_id@ == thread_id
                &&& forall|j: int| 0 <= j < i ==> (#[trigger] tasks[j]).thread_id@ != thread_id
            },
            None => forall|j: int|
                0 <= j < tasks.len() ==> (#[trigger] tasks[j]).thread_id@ != thread_id,
        },
    decreases tasks.len(),
{
    if tasks.len() > 0 {
        let head = tasks.drop_last();
        the_first_task_of_a_thread_is_next(head, thread_id);
        assert(forall|j: int| 0 <= j < head.len() ==> head[j] == #[trigger] tasks[j]);
        assert(tasks.last() == tasks[tasks.len() - 1]);
    }
}

spec fn told_head(task: ToolTaskRecord, args: Seq<char>) -> Seq<char> {
    "Background tool task completed.\ntool: "@ + task.tool_name@ + "\ntask_id: "@ + task.task_id@
        + "\nstatus: "@ + task.status@ + "\nargs: "@ + args + "\nelapsed_ms: "@ + decimal(
        match task.elapsed_ms {
            Some(n) => n as nat,
            None => 0,
        },
    ) + "\n"@
}

spec fn told_success(t: Seq<char>, task: ToolTaskRecord) -> Seq<char> {
    match task.success {
        Some(b) => t + "success: "@ + bool_text(b) + "\n"@,
        None => t,
    }
}

spec fn told_message(t: Seq<char>, task: ToolTaskRecord) -> Seq<char> {
    match task.message {
        Some(m) => t + "message: "@ + m@ + "\n"@,
        None => t,
    }
}

spec fn told_output(t: Seq<char>, task: ToolTaskRecord) -> Seq<char> {
    if task.recent_output@.len() > 0 {
        t + "recent_output:\n"@ + joined(texts(task.recent_output@), "\n"@) + "\n"@
    } else {
        t
    }
}

spec fn told_result(t: Seq<char>, task: ToolTaskRecord) -> Seq<char> {
    match task.result_preview {
        Some(r) => t + "result:\n"@ + r@,
        None => t,
    }
}

proof fn lemma_told(task: ToolTaskRecord, args: Seq<char>)
    ensures
        completion_text(task, args) == told_result(
            told_output(told_message(told_success(told_head(task, args), task), task), task),
            task,
        ),
{
}

proof fn lemma_between(a: Seq<char>, b: Seq<char>, c: Seq<char>, d: Seq<char>, x: Seq<char>)
    ensures
        occurs(a, x) || occurs(b, x) || occurs(c, x) || occurs(d, x) ==> occurs(a + b + c + d, x),
{
    lemma_occurs_in_both(a, b, x);
    lemma_occurs_in_both(a + b, c, x);
    lemma_occurs_in_both(a + b + c, d, x);
}

proof fn lemma_told_result(t: Seq<char>, task: ToolTaskRecord, x: Seq<char>)
    ensures
        occurs(t, x) ==> occurs(told_result(t, task), x),
        task.result_preview matches Some(r) ==> occurs(told_result(t, task), r@),
{
    if task.result_preview is Some {
        let r = task.result_preview->0@;
        lemma_occurs_in_both(t, "result:\n"@, x);
        lemma_occurs_in_both(t + "result:\n"@, r, x);
        lemma_occurs_in_both(t + "result:\n"@, r, r);
    }
}

proof fn lemma_told_output(t: Seq<char>, task: ToolTaskRecord, x: Seq<char>)
    ensures
        occurs(t, x) ==> occurs(told_output(t, task), x),
        task.recent_output@.len() > 0 && occurs(joined(texts(task.recent_output@), "\n"@), x)
            ==> occurs(told_output(t, task), x),
{
    lemma_between(t, "recent_output:\n"@, joined(texts(task.recent_output@), "\n"@), "\n"@, x);
}

proof fn lemma_told_message(t: Seq<char>, task: ToolTaskRecord, x: Seq<char>)
    ensures
        occurs(t, x) ==> occurs(told_message(t, task), x),
        task.message matches Some(m) ==> occurs(told_message(t, task), m@),
{
    if task.message is Some {
        let m = task.message->0@;
        lemma_between(t, "message: "@, m, "\n"@, x);
        lemma_between(t, "message: "@, m, "\n"@, m);
        lemma_occurs_in_both(m, m, m);
    }
}

proof fn lemma_told_success(t: Seq<char>, task: ToolTaskRecord, x: Seq<char>)
    ensures
        occurs(t, x) ==> occurs(told_success(t, task), x),
        task.success matches Some(b) ==> occurs(
            told_success(t, task),
            "success: "@ + bool_text(b),
        ),
{
    if task.success is Some {
        let b = bool_text(task.success->0);
        let y = "success: "@ + b;
        lemma_between(t, "success: "@, b, "\n"@, x);
        assert(t + "success: "@ + b + "\n"@ =~= (t + y) + "\n"@);
        lemma_occurs_in_both(t, y, y);
        lemma_occurs_in_both(t + y, "\n"@, y);
    }
}

proof fn lemma_told_head(task: ToolTaskRecord, args: Seq<char>)
    ensures
        occurs(told_head(task, args), task.tool_name@),
        occurs(told_head(task, args), task.task_id@),
        occurs(told_head(task, args), task.status@),
        occurs(told_head(task, args), args),
{
    let n0 = "Background tool task completed.\ntool: "@;
    let n1 = n0 + task.tool_name@;
    let n2 = n1 + "\ntask_id: "@ + task.task_id@;
    let n3 = n2 + "\nstatus: "@ + task.status@;
    let n4 = n3 + "\nargs: "@ + args;
    let d = decimal(
        match task.elapsed_ms {
            Some(n) => n as nat,
            None => 0,
        },
    );
    assert(told_head(task, args) == n4 + "\nelapsed_ms: "@ + d + "\n"@);
    lemma_occurs_in_both(n0, task.tool_name@, task.tool_name@);
    lemma_occurs_in_both(n1, "\ntask_id: "@, task.tool_name@);
    lemma_occurs_in_both(n1 + "\ntask_id: "@, task.task_id@, task.tool_name@);
    lemma_step(n2, "\nstatus: "@, task.status@, task.tool_name@);
    lemma_step(n2, "\nstatus: "@, task.status@, task.task_id@);
    lemma_step(n2, "\nstatus: "@, task.status@, task.status@);
    lemma_step(n3, "\nargs: "@, args, task.tool_name@);
    lemma_step(n3, "\nargs: "@, args, task.task_id@);
    lemma_step(n3, "\nargs: "@, args, task.status@);
    lemma_step(n3, "\nargs: "@, args, args);
    lemma_between(n4, "\nelapsed_ms: "@, d, "\n"@, task.tool_name@);
    lemma_between(n4, "\nelapsed_ms: "@, d, "\n"@, task.task_id@);
    lemma_between(n4, "\nelapsed_ms: "@, d, "\n"@, task.status@);
    lemma_between(n4, "\nelapsed_ms: "@, d, "\n"@, args);
    lemma_step(n1, "\ntask_id: "@, task.task_id@, task.task_id@);
}

proof fn lemma_step(a: Seq<char>, b: Seq<char>, c: Seq<char>, x: Seq<char>)
    ensures
        occurs(a, x) ==> occurs(a + b + c, x),
        x == c ==> occurs(a + b + c, x),
{
    lemma_occurs_in_both(a, b, x);
    lemma_occurs_in_both(a + b, c, x);
}

proof fn lemma_rises(task: ToolTaskRecord, args: Seq<char>, x: Seq<char>)
    requires
        occurs(told_head(task, args), x),
    ensures
        occurs(completion_text(task, args), x),
{
    let t0 = told_head(task, args);
    let t1 = told_success(t0, task);
    let t2 = told_message(t1, task);
    let t3 = told_output(t2, task);
    lemma_told(task, args);
    lemma_told_success(t0, task, x);
    lemma_told_message(t1, task, x);
    lemma_told_output(t2, task, x);
    lemma_told_result(t3, task, x);
}

/// What an agent is told of a finished task: which task of which tool it was, with
/// what arguments, how it ended, what it said, and its result.
pub proof fn an_agent_is_told_what_came_of_a_task(task: ToolTaskRecord, args: Seq<char>)
    ensures
        occurs(completion_text(task, args), task.tool_name@),
        occurs(completion_text(task, args), task.task_id@),
        occurs(completion_text(task, args), task.status@),
        occurs(completion_text(task, args), args),
        task.message matches Some(m) ==> occurs(completion_text(task, args), m@),
        task.result_preview matches Some(r) ==> occurs(completion_text(task, args), r@),
        task.success matches Some(b) ==> occurs(
            completion_text(task, args),
            "success: "@ + bool_text(b),
        ),
        forall|i: int|
            0 <= i < task.recent_output@.len() ==> occurs(
                completion_text(task, args),
                (#[trigger] task.recent_output@[i])@,
            ),
{
    let t0 = told_head(task, args);
    let t1 = told_success(t0, task);
    let t2 = told_message(t1, task);
    let t3 = told_output(t2, task);
    lemma_told(task, args);
    lemma_told_head(task, args);
    lemma_rises(task, args, task.tool_name@);
    lemma_rises(task, args, task.task_id@);
    lemma_rises(task, args, task.status@);
    lemma_rises(task, args, args);
    if task.success is Some {
        let y = "success: "@ + bool_text(task.success->0);
        lemma_told_success(t0, task, y);
        lemma_told_message(t1, task, y);
        lemma_told_output(t2, task, y);
        lemma_told_result(t3, task, y);
    }
    if task.message is Some {
        let m = task.message->0@;
        lemma_told_message(t1, task, m);
        lemma_told_output(t2, task, m);
        lemma_told_result(t3, task, m);
    }
    lemma_told_result(t3, task, args);
    assert forall|i: int| 0 <= i < task.recent_output@.len() implies occurs(
        completion_text(task, args),
        (#[trigger] task.recent_output@[i])@,
    ) by {
        let x = task.recent_output@[i]@;
        what_is_joined_is_there(texts(task.recent_output@), "\n"@, i);
        assert(texts(task.recent_output@)[i] == x);
        lemma_told_output(t2, task, x);
        lemma_told_result(t3, task, x);
    }
}

/// A finished task is told of in words of its own, and marked as what it is; it does
/// not come from a user.
pub proof fn a_finished_task_is_marked(task: ToolTaskRecord, args: Seq<char>)
    ensures
        ({
            let q = completion_input(task, args);
            let m = q.message_metadata->0;
            &&& q.content == ContentView::Text(completion_text(task, args))
            &&& q.source == SteerSource::BackgroundToolCompletion
            &&& q.user_name is None
            &&& q.message_metadata is Some
            &&& member(m, "background_tool_task"@) == Some(JsonView::Bool(true))
            &&& member(m, "task_id"@) == Some(JsonView::Text(task.task_id@))
            &&& member(m, "tool_name"@) == Some(JsonView::Text(task.tool_name@))
            &&& member(m, "status"@) == Some(JsonView::Text(task.status@))
            &&& member(m, "args"@) == Some(JsonView::Text(args))
        }),
{
    reveal_strlit("background_tool_task");
    reveal_strlit("task_id");
    reveal_strlit("tool_name");
    reveal_strlit("status");
    reveal_strlit("args");
    let f = completion_input(task, args).message_metadata->0->Object_0;
    assert(f[0].0 == "background_tool_task"@ && f[1].0 == "task_id"@ && f[2].0 == "tool_name"@);
    assert(f[3].0 == "status"@ && f[4].0 == "args"@);
    fields_are_read_back(f, 0);
    fields_are_read_back(f, 1);
    fields_are_read_back(f, 2);
    fields_are_read_back(f, 3);
    fields_are_read_back(f, 4);
}

/// Tasks are told apart: two tasks make messages of different ids.
pub proof fn finished_tasks_are_told_apart(a: ToolTaskRecord, b: ToolTaskRecord, args: Seq<char>)
    requires
        a.task_id@ != b.task_id@,
    ensures
        completion_input(a, args).id != completion_input(b, args).id,
{
    let p = "tool-task-"@;
    assert((p + a.task_id@).skip(p.len() as int) =~= a.task_id@);
    assert((p + b.task_id@).skip(p.len() as int) =~= b.task_id@);
}

/// A preview of arguments is the beginning of their text.
pub proof fn previews_begin_like_the_arguments(args: JsonView)
    ensures
        args_preview(args).is_prefix_of(json_text(args)),
        args_preview(args).len() == if json_text(args).len() < 50 {
            json_text(args).len() as int
        } else {
            50
        },
{
    let t = json_text(args);
    assert(args_preview(args) =~= t.subrange(0, args_preview(args).len() as int));
}

/// A truth is told by its word.
pub proof fn truths_are_told_by_their_word(b: bool)
    ensures
        bool_text(true) == "true"@,
        bool_text(false) == "false"@,
        bool_text(b) == bool_text(!b) ==> false,
{
    reveal_strlit("true");
    reveal_strlit("false");
    assert("true"@.len() != "false"@.len());
}

} // verus!
