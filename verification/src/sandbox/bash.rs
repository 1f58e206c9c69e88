//! Commands that run in a sandbox, and what they have printed.
use vstd::prelude::*;
use vstd::string::*;

use crate::message::{copy_option_text, option_text};
use crate::order::{lemma_filter_last, lemma_filter_none};
use crate::outside::fresh_simple_id;
use crate::sandbox::config::{plain_error, SandboxError};
use crate::sandbox::shell::{marker_code, parse_marker_line};
use crate::text::{
    ascii_alphanumeric, byte_len, chars_of, chars_within, cut_within, cuts_at, is_ascii_alphanumeric,
    lemma_cuts_behind, lemma_utf8_len_concat, lemma_utf8_len_monotone, skip_chars, str_eq,
    text_range, trim, trimmed, utf8_len,
};

verus! {

broadcast use vstd::string::group_string_axioms;

/// How long a finished command can still be asked about, in milliseconds.
pub const BASH_TASK_RETAIN_MS: u64 = 1800000;

/// What has become of a command that is asked about.
#[derive(Debug, Clone, Copy, PartialEq, Eq, Structural)]
pub enum SandboxBashStatus {
    Completed,
    Running,
    Cancelled,
    NotFound,
}

/// What a command has printed since it was last asked about.
#[derive(Debug, Clone, PartialEq, Eq)]
pub struct SandboxBashOutput {
    pub stdout: String,
    pub stderr: String,
    pub exit_code: i32,
    pub timed_out: bool,
    pub status: SandboxBashStatus,
    pub pid: Option<String>,
    pub os_pid: Option<u32>,
    pub message: Option<String>,
}

pub struct OutputView {
    pub stdout: Seq<char>,
    pub stderr: Seq<char>,
    pub exit_code: i32,
    pub timed_out: bool,
    pub status: SandboxBashStatus,
    pub pid: Option<Seq<char>>,
    pub os_pid: Option<u32>,
    pub message: Option<Seq<char>>,
}

impl View for SandboxBashOutput {
    type V = OutputView;

    open spec fn view(&self) -> OutputView {
        OutputView {
            stdout: self.stdout@,
            stderr: self.stderr@,
            exit_code: self.exit_code,
            timed_out: self.timed_out,
            status: self.status,
            pid: option_text(self.pid),
            os_pid: self.os_pid,
            message: option_text(self.message),
        }
    }
}

#[derive(Debug, Clone, Copy, PartialEq, Eq, Structural)]
pub enum BashTaskStatus {
    Running,
    Completed,
    Cancelled,
}

/// A command, what it has printed, and how much of that was handed out.
#[derive(Debug)]
pub struct BashTaskState {
    pub pid: String,
    pub named: Option<String>,
    pub stdout: String,
    pub stderr: String,
    pub stdout_cursor: usize,
    pub stderr_cursor: usize,
    pub os_pid: Option<u32>,
    pub exit_code: Option<i32>,
    pub status: BashTaskStatus,
    pub message: Option<String>,
    /// When it ended, in milliseconds of a clock that only goes forward.
    pub finished_at: Option<u64>,
}

#[verifier::ext_equal]
pub struct TaskView {
    pub pid: Seq<char>,
    pub named: Option<Seq<char>>,
    pub stdout: Seq<char>,
    pub stderr: Seq<char>,
    pub stdout_cursor: nat,
    pub stderr_cursor: nat,
    pub os_pid: Option<u32>,
    pub exit_code: Option<i32>,
    pub status: BashTaskStatus,
    pub message: Option<Seq<char>>,
    pub finished_at: Option<u64>,
}

impl View for BashTaskState {
    type V = TaskView;

    open spec fn view(&self) -> TaskView {
        TaskView {
            pid: self.pid@,
            named: option_text(self.named),
            stdout: self.stdout@,
            stderr: self.stderr@,
            stdout_cursor: self.stdout_cursor as nat,
            stderr_cursor: self.stderr_cursor as nat,
            os_pid: self.os_pid,
            exit_code: self.exit_code,
            status: self.status,
            message: option_text(self.message),
            finished_at: self.finished_at,
        }
    }
}

pub open spec fn task_views(tasks: Seq<BashTaskState>) -> Seq<TaskView> {
    tasks.map_values(|t: BashTaskState| t@)
}

/// A command that has just been started.
pub open spec fn new_task(pid: Seq<char>, named: Option<Seq<char>>, os_pid: Option<u32>) -> TaskView {
    TaskView {
        pid,
        named,
        stdout: Seq::empty(),
        stderr: Seq::empty(),
        stdout_cursor: 0,
        stderr_cursor: 0,
        os_pid,
        exit_code: None,
        status: BashTaskStatus::Running,
        message: None,
        finished_at: None,
    }
}

// --------------------------------------------------------------------- output

/// What was printed and not handed out yet, where the first `cursor` bytes were
/// handed out.
pub open spec fn unseen(buffer: Seq<char>, cursor: nat) -> Seq<char> {
    buffer.skip(chars_within(buffer, cursor))
}

/// Hands out what was not handed out yet. The cursor counts bytes.
pub fn take_incremental(buffer: &str, cursor: &mut usize) -> (r: String)
    requires
        cuts_at(buffer@, *old(cursor) as nat),
    ensures
        r@ == unseen(buffer@, *old(cursor) as nat),
        *final(cursor) == utf8_len(buffer@),
{
    let from: usize = match cut_within(buffer, *cursor) {
        Some((k, _)) => k,
        None => buffer.unicode_len(),
    };
    *cursor = byte_len(buffer);
    skip_chars(buffer, from)
}

/// What is handed out next is what follows the part that was handed out, and
/// nothing follows all of it.
pub proof fn what_follows_is_handed_out(part: Seq<char>, more: Seq<char>)
    ensures
        cuts_at(part + more, utf8_len(part)),
        unseen(part + more, utf8_len(part)) == more,
        unseen(part, utf8_len(part)).len() == 0,
{
    lemma_cuts_behind(part, more);
    assert((part + more).skip(part.len() as int) =~= more);
    lemma_cuts_behind(part, Seq::empty());
    assert(part + Seq::<char>::empty() =~= part);
}

/// All that was handed out of a buffer that only grows, asked at each of the
/// given times.
pub open spec fn handed_out(buffers: Seq<Seq<char>>) -> Seq<char>
    decreases buffers.len(),
{
    if buffers.len() == 0 {
        Seq::empty()
    } else {
        let head = buffers.drop_last();
        let cursor = if head.len() == 0 {
            0
        } else {
            utf8_len(head.last())
        };
        handed_out(head) + unseen(buffers.last(), cursor)
    }
}

/// Of a buffer that only grows nothing is lost and nothing is handed out twice:
/// all that was handed out is what stands in the buffer.
pub proof fn nothing_is_lost_or_repeated(buffers: Seq<Seq<char>>)
    requires
        buffers.len() > 0,
        forall|i: int|
            0 <= i < buffers.len() - 1 ==> (#[trigger] buffers[i]).is_prefix_of(buffers[i + 1]),
    ensures
        handed_out(buffers) == buffers.last(),
    decreases buffers.len(),
{
    let head = buffers.drop_last();
    let last = buffers.last();
    if head.len() == 0 {
        assert(handed_out(head) =~= Seq::empty());
        what_follows_is_handed_out(Seq::empty(), last);
        assert(Seq::<char>::empty() + last =~= last);
    } else {
        assert forall|i: int| 0 <= i < head.len() - 1 implies (#[trigger] head[i]).is_prefix_of(
            head[i + 1],
        ) by {
            assert(buffers[i].is_prefix_of(buffers[i + 1]));
        }
        nothing_is_lost_or_repeated(head);
        let part = head.last();
        assert(buffers[head.len() - 1].is_prefix_of(buffers[head.len() as int]));
        let more = last.skip(part.len() as int);
        assert(last =~= part + more);
        what_follows_is_handed_out(part, more);
    }
}

/// The command after all that it printed was handed out.
pub open spec fn seen(task: TaskView) -> TaskView {
    TaskView {
        stdout_cursor: utf8_len(task.stdout),
        stderr_cursor: utf8_len(task.stderr),
        ..task
    }
}

/// Whether what was handed out ends between two characters. Of what a command
/// printed the last line end may be taken away after it was handed out.
pub open spec fn sound(task: TaskView) -> bool {
    &&& cuts_at(task.stdout, task.stdout_cursor)
    &&& cuts_at(task.stderr, task.stderr_cursor)
    &&& task.stderr_cursor <= utf8_len(task.stderr)
}

proof fn lemma_cut_in_longer(s: Seq<char>, more: Seq<char>, n: nat)
    requires
        cuts_at(s, n),
        n <= utf8_len(s),
    ensures
        cuts_at(s + more, n),
{
    let k = if utf8_len(s) <= n {
        s.len() as int
    } else {
        chars_within(s, n)
    };
    lemma_within_bounds(s, n);
    assert(s.take(s.len() as int) =~= s);
    let part = s.take(k);
    assert(s + more =~= part + (s.skip(k) + more));
    lemma_cuts_behind(part, s.skip(k) + more);
}

proof fn lemma_cut_in_shorter(s: Seq<char>, k: int, n: nat)
    requires
        cuts_at(s, n),
        0 <= k <= s.len(),
    ensures
        cuts_at(s.take(k), n),
{
    lemma_utf8_len_monotone(s, k);
    if utf8_len(s) > n && utf8_len(s.take(k)) > n {
        let i = chars_within(s, n);
        lemma_within_bounds(s, n);
        let part = s.take(i);
        if i <= k {
            assert(s.take(k) =~= part + s.take(k).skip(i));
            lemma_cuts_behind(part, s.take(k).skip(i));
        } else {
            lemma_utf8_len_monotone(part, k);
            assert(part.take(k) =~= s.take(k));
        }
    }
}

proof fn lemma_within_bounds(s: Seq<char>, n: nat)
    ensures
        0 <= chars_within(s, n) <= s.len(),
    decreases s.len(),
{
    if s.len() > 0 && utf8_len(s) > n {
        lemma_within_bounds(s.drop_last(), n);
    }
}

/// What is said of a command that still runs.
pub open spec fn running_output(task: TaskView, timed_out: bool) -> OutputView {
    OutputView {
        stdout: unseen(task.stdout, task.stdout_cursor),
        stderr: unseen(task.stderr, task.stderr_cursor),
        exit_code: -1i32,
        timed_out,
        status: SandboxBashStatus::Running,
        pid: Some(task.pid),
        os_pid: task.os_pid,
        message: None,
    }
}

/// What is said of a command that has ended.
pub open spec fn terminal_output(task: TaskView, status: SandboxBashStatus) -> OutputView {
    OutputView {
        stdout: unseen(task.stdout, task.stdout_cursor),
        stderr: unseen(task.stderr, task.stderr_cursor),
        exit_code: match task.exit_code {
            Some(code) => code,
            None => -1i32,
        },
        timed_out: false,
        status,
        pid: Some(task.pid),
        os_pid: task.os_pid,
        message: task.message,
    }
}

/// What is said of a command that is not known.
pub open spec fn missing_output(pid: Seq<char>) -> OutputView {
    OutputView {
        stdout: Seq::empty(),
        stderr: Seq::empty(),
        exit_code: -1i32,
        timed_out: false,
        status: SandboxBashStatus::NotFound,
        pid: Some(pid),
        os_pid: None,
        message: Some("bash task not found; it may have completed and expired"@),
    }
}

/// What is said of a command that is asked about.
pub open spec fn polled_output(task: TaskView) -> OutputView {
    match task.status {
        BashTaskStatus::Running => running_output(task, false),
        BashTaskStatus::Completed => terminal_output(task, SandboxBashStatus::Completed),
        BashTaskStatus::Cancelled => terminal_output(task, SandboxBashStatus::Cancelled),
    }
}

/// What is handed to the one who waits for a command, once it has ended.
pub open spec fn awaited_output(task: TaskView) -> Option<OutputView> {
    match task.status {
        BashTaskStatus::Running => None,
        BashTaskStatus::Completed => Some(
            OutputView {
                pid: None,
                os_pid: None,
                ..terminal_output(task, SandboxBashStatus::Completed)
            },
        ),
        BashTaskStatus::Cancelled => Some(terminal_output(task, SandboxBashStatus::Cancelled)),
    }
}

impl SandboxBashOutput {
    pub fn running(task: &mut BashTaskState, timed_out: bool) -> (r: SandboxBashOutput)
        requires
            sound(old(task)@),
        ensures
            r@ == running_output(old(task)@, timed_out),
            final(task)@ == seen(old(task)@),
    {
        let mut cursor: usize = task.stdout_cursor;
        let stdout = take_incremental(&task.stdout, &mut cursor);
        task.stdout_cursor = cursor;
        let mut cursor: usize = task.stderr_cursor;
        let stderr = take_incremental(&task.stderr, &mut cursor);
        task.stderr_cursor = cursor;
        SandboxBashOutput {
            stdout,
            stderr,
            exit_code: -1,
            timed_out,
            status: SandboxBashStatus::Running,
            pid: Some(task.pid.clone()),
            os_pid: task.os_pid,
            message: None,
        }
    }

    pub fn terminal(task: &mut BashTaskState, status: SandboxBashStatus) -> (r: SandboxBashOutput)
        requires
            sound(old(task)@),
        ensures
            r@ == terminal_output(old(task)@, status),
            final(task)@ == seen(old(task)@),
    {
        let mut cursor: usize = task.stdout_cursor;
        let stdout = take_incremental(&task.stdout, &mut cursor);
        task.stdout_cursor = cursor;
        let mut cursor: usize = task.stderr_cursor;
        let stderr = take_incremental(&task.stderr, &mut cursor);
        task.stderr_cursor = cursor;
        let exit_code: i32 = match task.exit_code {
            Some(code) => code,
            None => -1,
        };
        SandboxBashOutput {
            stdout,
            stderr,
            exit_code,
            timed_out: false,
            status,
            pid: Some(task.pid.clone()),
            os_pid: task.os_pid,
            message: copy_option_text(&task.message),
        }
    }

    pub fn not_found(pid: &str) -> (r: SandboxBashOutput)
        ensures
            r@ == missing_output(pid@),
    {
        let r = SandboxBashOutput {
            stdout: String::new(),
            stderr: String::new(),
            exit_code: -1,
            timed_out: false,
            status: SandboxBashStatus::NotFound,
            pid: Some(pid.to_owned()),
            os_pid: None,
            message: Some("bash task not found; it may have completed and expired".to_owned()),
        };
        assert(r@.stdout =~= Seq::<char>::empty());
        assert(r@.stderr =~= Seq::<char>::empty());
        r
    }
}

/// All that a command prints is handed out, and nothing twice: what was handed
/// out and what is handed out next make up all that was printed, and then
/// nothing is left.
pub proof fn output_is_shown_once(task: TaskView)
    requires
        sound(task),
    ensures
        task.stdout.take(chars_within(task.stdout, task.stdout_cursor)) + polled_output(task).stdout
            == task.stdout,
        task.stderr.take(chars_within(task.stderr, task.stderr_cursor)) + polled_output(task).stderr
            == task.stderr,
        polled_output(seen(task)).stdout.len() == 0,
        polled_output(seen(task)).stderr.len() == 0,
{
    let i = chars_within(task.stdout, task.stdout_cursor);
    let j = chars_within(task.stderr, task.stderr_cursor);
    lemma_within_bounds(task.stdout, task.stdout_cursor);
    lemma_within_bounds(task.stderr, task.stderr_cursor);
    assert(task.stdout.take(i) + task.stdout.skip(i) =~= task.stdout);
    assert(task.stderr.take(j) + task.stderr.skip(j) =~= task.stderr);
    what_follows_is_handed_out(task.stdout, Seq::empty());
    what_follows_is_handed_out(task.stderr, Seq::empty());
}

// --------------------------------------------------------------------- changes

/// A command that is stopped.
pub open spec fn cancelled(task: TaskView, now: u64) -> TaskView {
    if task.status == BashTaskStatus::Running {
        TaskView {
            status: BashTaskStatus::Cancelled,
            exit_code: Some(-1i32),
            message: Some("bash task cancelled"@),
            finished_at: Some(now),
            ..task
        }
    } else {
        task
    }
}

/// A command whose process has ended; a process that was killed has no code.
pub open spec fn exited(task: TaskView, code: Option<i32>, now: u64) -> TaskView {
    if task.status == BashTaskStatus::Running {
        TaskView {
            exit_code: Some(
                match code {
                    Some(c) => c,
                    None => -1i32,
                },
            ),
            status: BashTaskStatus::Completed,
            finished_at: Some(now),
            ..task
        }
    } else {
        task
    }
}

/// A command whose process can no longer be waited for.
pub open spec fn lost(task: TaskView, error: Seq<char>, now: u64) -> TaskView {
    if task.status == BashTaskStatus::Running {
        TaskView {
            exit_code: Some(-1i32),
            status: BashTaskStatus::Completed,
            message: Some("bash wait failed: "@ + error),
            finished_at: Some(now),
            ..task
        }
    } else {
        task
    }
}

/// A command that ran in a session, when the session is done with it.
pub open spec fn session_done(task: TaskView, result: Result<i32, Seq<char>>, now: u64) -> TaskView {
    match (task.status, result) {
        (BashTaskStatus::Running, Ok(code)) => exited(task, Some(code), now),
        (BashTaskStatus::Running, Err(error)) => TaskView {
            exit_code: Some(-1i32),
            status: BashTaskStatus::Completed,
            message: Some(error),
            finished_at: Some(now),
            ..task
        },
        _ => task,
    }
}

/// Whether a session is of no more use after a command.
pub open spec fn session_spent(task: TaskView, result: Result<i32, Seq<char>>) -> bool {
    match task.status {
        BashTaskStatus::Cancelled => true,
        BashTaskStatus::Running => result is Err,
        BashTaskStatus::Completed => false,
    }
}

/// A text without the line end behind it.
pub open spec fn without_newline(s: Seq<char>) -> Seq<char> {
    if s.len() > 0 && s.last() == '\n' {
        let t = s.drop_last();
        if t.len() > 0 && t.last() == '\r' {
            t.drop_last()
        } else {
            t
        }
    } else {
        s
    }
}

fn strip_newline(s: &str) -> (r: String)
    ensures
        r@ == without_newline(s@),
{
    let chars = chars_of(s);
    let mut end: usize = chars.len();
    if end > 0 && chars[end - 1] == '\n' {
        end -= 1;
        if end > 0 && chars[end - 1] == '\r' {
            end -= 1;
        }
    }
    let r = text_range(&chars, 0, end);
    assert(r@ =~= without_newline(s@));
    r
}

// -------------------------------------------------------------------- registry

/// Whether a command ended too long ago to be asked about.
pub open spec fn expired(task: TaskView, now: u64) -> bool {
    match task.finished_at {
        Some(at) => now - at >= BASH_TASK_RETAIN_MS,
        None => false,
    }
}

/// The commands that can still be asked about.
pub open spec fn pruned(tasks: Seq<TaskView>, now: u64) -> Seq<TaskView>
    decreases tasks.len(),
{
    if tasks.len() == 0 {
        tasks
    } else {
        let head = pruned(tasks.drop_last(), now);
        if expired(tasks.last(), now) {
            head
        } else {
            head.push(tasks.last())
        }
    }
}

/// Where a command stands in the list.
pub open spec fn task_at(tasks: Seq<TaskView>, pid: Seq<char>) -> Option<int>
    decreases tasks.len(),
{
    if tasks.len() == 0 {
        None
    } else if task_at(tasks.drop_last(), pid) is Some {
        task_at(tasks.drop_last(), pid)
    } else if tasks.last().pid == pid {
        Some(tasks.len() - 1)
    } else {
        None
    }
}

/// The list with one command changed.
pub open spec fn changed(
    tasks: Seq<TaskView>,
    pid: Seq<char>,
    change: spec_fn(TaskView) -> TaskView,
) -> Seq<TaskView> {
    match task_at(tasks, pid) {
        Some(i) => tasks.update(i, change(tasks[i])),
        None => tasks,
    }
}

/// The list with a new command in it.
pub open spec fn with_task(tasks: Seq<TaskView>, task: TaskView) -> Seq<TaskView> {
    match task_at(tasks, task.pid) {
        Some(i) => tasks.update(i, task),
        None => tasks.push(task),
    }
}

/// Whether a command runs in the session of the given name.
pub open spec fn runs_in(task: TaskView, named: Seq<char>) -> bool {
    task.status == BashTaskStatus::Running && task.named == Some(named)
}

/// Whether some command runs in the session of the given name.
pub open spec fn session_busy(tasks: Seq<TaskView>, named: Seq<char>) -> bool {
    exists|i: int| 0 <= i < tasks.len() && runs_in(#[trigger] tasks[i], named)
}

/// Every command has an id of its own, no session runs two at a time, and what
/// was handed out of each ends between two characters.
pub open spec fn orderly(tasks: Seq<TaskView>) -> bool {
    &&& forall|i: int| 0 <= i < tasks.len() ==> sound(#[trigger] tasks[i])
    &&& forall|i: int, j: int|
        0 <= i < j < tasks.len() ==> (#[trigger] tasks[i]).pid != (#[trigger] tasks[j]).pid
    &&& forall|i: int, j: int, named: Seq<char>|
        0 <= i < j < tasks.len() && #[trigger] runs_in(tasks[i], named) ==> !#[trigger] runs_in(
            tasks[j],
            named,
        )
}

/// Whether a command may print more: the end of what it printed was not taken
/// away behind what was handed out.
pub open spec fn may_print(tasks: Seq<TaskView>, pid: Seq<char>) -> bool {
    match task_at(tasks, pid) {
        Some(i) => tasks[i].stdout_cursor <= utf8_len(tasks[i].stdout),
        None => true,
    }
}

proof fn lemma_task_at(tasks: Seq<TaskView>, pid: Seq<char>)
    ensures
        match task_at(tasks, pid) {
            Some(i) => {
                &&& 0 <= i < tasks.len()
                &&& tasks[i].pid == pid
                &&& forall|j: int| 0 <= j < i ==> (#[trigger] tasks[j]).pid != pid
            },
            None => forall|j: int| 0 <= j < tasks.len() ==> (#[trigger] tasks[j]).pid != pid,
        },
    decreases tasks.len(),
{
    if tasks.len() > 0 {
        let head = tasks.drop_last();
        lemma_task_at(head, pid);
        assert forall|j: int| 0 <= j < tasks.len() - 1 implies (#[trigger] tasks[j]) == head[j] by {
        }
    }
}

proof fn lemma_pruned(tasks: Seq<TaskView>, now: u64)
    ensures
        forall|i: int|
            0 <= i < pruned(tasks, now).len() ==> {
                &&& tasks.contains(#[trigger] pruned(tasks, now)[i])
                &&& !expired(pruned(tasks, now)[i], now)
            },
        forall|i: int|
            0 <= i < tasks.len() && !expired(#[trigger] tasks[i], now) ==> pruned(
                tasks,
                now,
            ).contains(tasks[i]),
        orderly(tasks) ==> orderly(pruned(tasks, now)),
    decreases tasks.len(),
{
    if tasks.len() > 0 {
        let head = tasks.drop_last();
        let last = tasks.last();
        let p = pruned(head, now);
        let q = pruned(tasks, now);
        lemma_pruned(head, now);
        assert forall|i: int| 0 <= i < q.len() implies tasks.contains(#[trigger] q[i]) && !expired(
            q[i],
            now,
        ) by {
            if i < p.len() {
                assert(q[i] == p[i]);
                let k = choose|k: int| 0 <= k < head.len() && head[k] == p[i];
                assert(tasks[k] == q[i]);
            } else {
                assert(tasks[tasks.len() - 1] == q[i]);
            }
        }
        assert forall|i: int| 0 <= i < tasks.len() && !expired(#[trigger] tasks[i], now) implies
            q.contains(tasks[i]) by {
            if i < tasks.len() - 1 {
                assert(head[i] == tasks[i]);
                let k = choose|k: int| 0 <= k < p.len() && p[k] == head[i];
                assert(q[k] == tasks[i]);
            } else {
                assert(q[q.len() - 1] == tasks[i]);
            }
        }
        if orderly(tasks) {
            assert(orderly(head)) by {
                assert forall|i: int| 0 <= i < head.len() implies sound(#[trigger] head[i]) by {
                    assert(sound(tasks[i]));
                }
                assert forall|i: int, j: int| 0 <= i < j < head.len() implies (
                #[trigger] head[i]).pid != (#[trigger] head[j]).pid by {
                    assert(tasks[i].pid != tasks[j].pid);
                }
                assert forall|i: int, j: int, named: Seq<char>|
                    0 <= i < j < head.len() && #[trigger] runs_in(head[i], named) implies
                    !#[trigger] runs_in(head[j], named) by {
                    assert(runs_in(tasks[i], named));
                    assert(!runs_in(tasks[j], named));
                }
            }
            if !expired(last, now) {
                assert(sound(tasks[tasks.len() - 1]));
                assert forall|i: int| 0 <= i < q.len() implies sound(#[trigger] q[i]) by {
                    if i < p.len() {
                        assert(sound(p[i]));
                    }
                }
                assert forall|i: int, j: int| 0 <= i < j < q.len() implies (#[trigger] q[i]).pid
                    != (#[trigger] q[j]).pid by {
                    if j < p.len() {
                        assert(p[i].pid != p[j].pid);
                    } else {
                        let k = choose|k: int| 0 <= k < head.len() && head[k] == p[i];
                        assert(tasks[k].pid != tasks[tasks.len() - 1].pid);
                    }
                }
                assert forall|i: int, j: int, named: Seq<char>|
                    0 <= i < j < q.len() && #[trigger] runs_in(q[i], named) implies
                    !#[trigger] runs_in(q[j], named) by {
                    if j < p.len() {
                        assert(runs_in(p[i], named));
                        assert(!runs_in(p[j], named));
                    } else {
                        let k = choose|k: int| 0 <= k < head.len() && head[k] == p[i];
                        assert(runs_in(tasks[k], named));
                        assert(!runs_in(tasks[tasks.len() - 1], named));
                    }
                }
            }
        }
    }
}

/// A command can be asked about while it runs and for half an hour after, and
/// no longer.
pub proof fn finished_tasks_are_kept_a_while(tasks: Seq<TaskView>, now: u64)
    ensures
        forall|i: int|
            0 <= i < tasks.len() ==> (pruned(tasks, now).contains(#[trigger] tasks[i]) <==> !expired(
                tasks[i],
                now,
            )),
{
    lemma_pruned(tasks, now);
    assert forall|i: int| 0 <= i < tasks.len() implies (pruned(tasks, now).contains(
        #[trigger] tasks[i],
    ) <==> !expired(tasks[i], now)) by {
        if pruned(tasks, now).contains(tasks[i]) {
            let k = choose|k: int|
                0 <= k < pruned(tasks, now).len() && pruned(tasks, now)[k] == tasks[i];
            assert(!expired(pruned(tasks, now)[k], now));
        }
    }
}

proof fn lemma_changed_orderly(
    tasks: Seq<TaskView>,
    pid: Seq<char>,
    change: spec_fn(TaskView) -> TaskView,
)
    requires
        orderly(tasks),
        forall|t: TaskView|
            {
                &&& (#[trigger] change(t)).pid == t.pid
                &&& change(t).named == t.named
                &&& change(t).status == BashTaskStatus::Running ==> t.status
                    == BashTaskStatus::Running
            },
        task_at(tasks, pid) matches Some(i) ==> sound(tasks[i]) ==> sound(change(tasks[i])),
    ensures
        orderly(changed(tasks, pid, change)),
{
    lemma_task_at(tasks, pid);
    if let Some(k) = task_at(tasks, pid) {
        let all = changed(tasks, pid, change);
        assert(sound(tasks[k]));
        assert forall|i: int| 0 <= i < all.len() implies sound(#[trigger] all[i]) by {
            if i != k {
                assert(sound(tasks[i]));
            }
        }
        assert forall|i: int, j: int| 0 <= i < j < all.len() implies (#[trigger] all[i]).pid != (
        #[trigger] all[j]).pid by {
            assert(tasks[i].pid != tasks[j].pid);
        }
        assert forall|i: int, j: int, named: Seq<char>|
            0 <= i < j < all.len() && #[trigger] runs_in(all[i], named) implies !#[trigger] runs_in(
            all[j],
            named,
        ) by {
            assert(change(tasks[k]).named == tasks[k].named);
            assert(runs_in(tasks[i], named));
            assert(!runs_in(tasks[j], named));
        }
    }
}

/// The commands of a sandbox.
#[derive(Debug)]
pub struct BashTaskRegistry {
    pub tasks: Vec<BashTaskState>,
}

impl View for BashTaskRegistry {
    type V = Seq<TaskView>;

    open spec fn view(&self) -> Seq<TaskView> {
        task_views(self.tasks@)
    }
}

/// What is to be done to stop a command.
#[derive(Debug, Clone, PartialEq, Eq)]
pub enum CancelStep {
    /// There is no such command; this is said of it.
    NotFound(SandboxBashOutput),
    /// The process with this id is to be ended, where it has one.
    Terminate(Option<u32>),
}

impl BashTaskRegistry {
    pub fn new() -> (r: BashTaskRegistry)
        ensures
            r@ == Seq::<TaskView>::empty(),
            orderly(r@),
    {
        let r = BashTaskRegistry { tasks: Vec::new() };
        assert(r@ =~= Seq::<TaskView>::empty());
        r
    }

    fn find(&self, pid: &str) -> (r: Option<usize>)
        ensures
            match task_at(self@, pid@) {
                Some(i) => r == Some(i as usize) && 0 <= i < self.tasks.len(),
                None => r is None,
            },
    {
        let ghost all = self@;
        let mut i: usize = 0;
        while i < self.tasks.len()
            invariant
                i <= self.tasks.len(),
                all == task_views(self.tasks@),
                forall|j: int| 0 <= j < i ==> (#[trigger] all[j]).pid != pid@,
            decreases self.tasks.len() - i,
        {
            assert(all[i as int] == self.tasks@[i as int]@);
            if str_eq(&self.tasks[i].pid, pid) {
                proof {
                    lemma_task_at(all, pid@);
                    let found = task_at(all, pid@);
                    if found is None {
                        assert(all[i as int].pid != pid@);
                    } else if found->0 < i {
                        assert(all[found->0].pid != pid@);
                    } else if found->0 > i {
                        assert(all[i as int].pid != pid@);
                    }
                }
                return Some(i);
            }
            i += 1;
        }
        proof {
            lemma_task_at(all, pid@);
        }
        None
    }

    /// Forgets the commands that ended too long ago.
    pub fn prune(&mut self, now: u64)
        ensures
            final(self)@ == pruned(old(self)@, now),
            orderly(old(self)@) ==> orderly(final(self)@),
    {
        let ghost all = self@;
        let mut i: usize = 0;
        assert(all.take(0) =~= Seq::empty());
        assert(all.skip(0) =~= all);
        assert(Seq::<TaskView>::empty() + all =~= all);
        while i < self.tasks.len()
            invariant
                i <= self.tasks.len() <= all.len(),
                self@.take(i as int) == pruned(
                    all.take(all.len() - self.tasks.len() + i),
                    now,
                ),
                self@.skip(i as int) == all.skip(all.len() - self.tasks.len() + i),
            decreases self.tasks.len() - i,
        {
            let ghost before = self@;
            let ghost at = all.len() - self.tasks.len() + i;
            assert(all.take(at + 1).drop_last() =~= all.take(at));
            assert(before[i as int] == before.skip(i as int)[0]);
            assert(all[at] == all.skip(at)[0]);
            assert(before[i as int] == self.tasks@[i as int]@);
            let gone = match self.tasks[i].finished_at {
                Some(end) => now >= end && now - end >= BASH_TASK_RETAIN_MS,
                None => false,
            };
            if gone {
                self.tasks.remove(i);
                assert(self@ =~= before.remove(i as int));
                assert(self@.take(i as int) =~= before.take(i as int));
                assert(self@.skip(i as int) =~= before.skip(i as int).skip(1));
                assert(all.skip(at + 1) =~= all.skip(at).skip(1));
            } else {
                assert(before.take(i + 1) =~= before.take(i as int).push(before[i as int]));
                assert(before.skip(i + 1) =~= before.skip(i as int).skip(1));
                assert(all.skip(at + 1) =~= all.skip(at).skip(1));
                i += 1;
            }
        }
        assert(self@.take(i as int) =~= self@);
        assert(all.take(all.len() as int) =~= all);
        proof {
            lemma_pruned(all, now);
        }
    }

    /// A command that runs in the session of the given name, where one does.
    pub fn active_named_pid(&mut self, named: &str, now: u64) -> (r: Option<String>)
        ensures
            final(self)@ == pruned(old(self)@, now),
            orderly(old(self)@) ==> orderly(final(self)@),
            match r {
                Some(pid) => exists|i: int|
                    {
                        &&& 0 <= i < final(self)@.len()
                        &&& runs_in(#[trigger] final(self)@[i], named@)
                        &&& final(self)@[i].pid == pid@
                    },
                None => !session_busy(final(self)@, named@),
            },
    {
        self.prune(now);
        let ghost all = self@;
        let mut i: usize = 0;
        while i < self.tasks.len()
            invariant
                i <= self.tasks.len(),
                all == task_views(self.tasks@),
                all == self@,
                all == pruned(old(self)@, now),
                orderly(old(self)@) ==> orderly(all),
                forall|j: int| 0 <= j < i ==> !runs_in(#[trigger] all[j], named@),
            decreases self.tasks.len() - i,
        {
            assert(all[i as int] == self.tasks@[i as int]@);
            let task = &self.tasks[i];
            if let BashTaskStatus::Running = task.status {
                if let Some(name) = &task.named {
                    if str_eq(name, named) {
                        assert(runs_in(all[i as int], named@));
                        return Some(task.pid.clone());
                    }
                }
            }
            i += 1;
        }
        None
    }

    /// Notes a command that was started, under an id of its own.
    pub fn start_task(&mut self, named: Option<String>, os_pid: Option<u32>, now: u64) -> (r: String)
        requires
            orderly(old(self)@),
            named matches Some(n) ==> !session_busy(pruned(old(self)@, now), n@),
        ensures
            r@.len() == 37,
            "bash_"@.is_prefix_of(r@),
            final(self)@ == with_task(
                pruned(old(self)@, now),
                new_task(r@, option_text(named), os_pid),
            ),
            orderly(final(self)@),
    {
        self.prune(now);
        let ghost before = self@;
        let id = fresh_simple_id();
        let mut pid = "bash_".to_owned();
        pid.push_str(&id);
        proof {
            reveal_strlit("bash_");
            assert("bash_"@ =~= pid@.subrange(0, "bash_"@.len() as int));
        }
        let task = BashTaskState {
            pid: pid.clone(),
            named,
            stdout: String::new(),
            stderr: String::new(),
            stdout_cursor: 0,
            stderr_cursor: 0,
            os_pid,
            exit_code: None,
            status: BashTaskStatus::Running,
            message: None,
            finished_at: None,
        };
        let ghost view = task@;
        assert(view =~= new_task(pid@, option_text(named), os_pid));
        match self.find(&pid) {
            Some(i) => {
                self.tasks.set(i, task);
                assert(self@ =~= before.update(i as int, view));
            },
            None => {
                self.tasks.push(task);
                assert(self@ =~= before.push(view));
            },
        }
        proof {
            lemma_task_at(before, pid@);
            let all = self@;
            assert(sound(view)) by {
                assert(utf8_len(Seq::<char>::empty()) == 0);
            }
            assert forall|i: int| 0 <= i < all.len() implies sound(#[trigger] all[i]) by {
                if all[i] != view {
                    assert(sound(before[i]));
                }
            }
            assert forall|i: int, j: int| 0 <= i < j < all.len() implies (#[trigger] all[i]).pid != (
            #[trigger] all[j]).pid by {
                if j < before.len() {
                    assert(before[i].pid != before[j].pid);
                }
            }
            assert forall|i: int, j: int, n: Seq<char>|
                0 <= i < j < all.len() && #[trigger] runs_in(all[i], n) implies !#[trigger] runs_in(
                all[j],
                n,
            ) by {
                if runs_in(all[j], n) {
                    if all[i] == view && i < before.len() && before[i].pid == pid@ {
                        assert(j < before.len() && all[j] == before[j]);
                        assert(runs_in(before[j], n));
                        assert(session_busy(before, n));
                    } else {
                        assert(all[i] == before[i]);
                        assert(runs_in(before[i], n));
                        if j < before.len() && all[j] == before[j] {
                            assert(!runs_in(before[j], n));
                        } else {
                            assert(all[j] == view);
                            assert(session_busy(before, n));
                        }
                    }
                }
            }
        }
        pid
    }

    /// What is said of a command that is asked about.
    pub fn poll(&mut self, pid: &str, now: u64) -> (r: SandboxBashOutput)
        requires
            orderly(old(self)@),
        ensures
            final(self)@ == changed(pruned(old(self)@, now), pid@, |t: TaskView| seen(t)),
            match task_at(pruned(old(self)@, now), pid@) {
                Some(i) => r@ == polled_output(pruned(old(self)@, now)[i]),
                None => r@ == missing_output(pid@),
            },
            orderly(final(self)@),
    {
        self.prune(now);
        let ghost before = self@;
        proof {
            lemma_changed_orderly(before, pid@, |t: TaskView| seen(t));
        }
        match self.find(pid) {
            Some(i) => {
                let mut task = self.tasks.remove(i);
                let ghost view = task@;
                assert(view == before[i as int]);
                let r = match task.status {
                    BashTaskStatus::Running => SandboxBashOutput::running(&mut task, false),
                    BashTaskStatus::Completed => SandboxBashOutput::terminal(
                        &mut task,
                        SandboxBashStatus::Completed,
                    ),
                    BashTaskStatus::Cancelled => SandboxBashOutput::terminal(
                        &mut task,
                        SandboxBashStatus::Cancelled,
                    ),
                };
                self.tasks.insert(i, task);
                assert(self@ =~= before.update(i as int, seen(view)));
                r
            },
            None => SandboxBashOutput::not_found(pid),
        }
    }

    /// Stops a command: it counts as cancelled where it still ran.
    pub fn cancel(&mut self, pid: &str, now: u64) -> (r: CancelStep)
        ensures
            final(self)@ == changed(pruned(old(self)@, now), pid@, |t: TaskView| cancelled(t, now)),
            match task_at(pruned(old(self)@, now), pid@) {
                Some(i) => r == CancelStep::Terminate(pruned(old(self)@, now)[i].os_pid),
                None => r is NotFound && r->NotFound_0@ == missing_output(pid@),
            },
            orderly(old(self)@) ==> orderly(final(self)@),
    {
        self.prune(now);
        let ghost before = self@;
        proof {
            if orderly(before) {
                lemma_changed_orderly(before, pid@, |t: TaskView| cancelled(t, now));
            }
        }
        match self.find(pid) {
            Some(i) => {
                let mut task = self.tasks.remove(i);
                let ghost view = task@;
                assert(view == before[i as int]);
                if let BashTaskStatus::Running = task.status {
                    task.status = BashTaskStatus::Cancelled;
                    task.exit_code = Some(-1);
                    task.message = Some("bash task cancelled".to_owned());
                    task.finished_at = Some(now);
                }
                let os_pid = task.os_pid;
                self.tasks.insert(i, task);
                assert(self@ =~= before.update(i as int, cancelled(view, now)));
                CancelStep::Terminate(os_pid)
            },
            None => CancelStep::NotFound(SandboxBashOutput::not_found(pid)),
        }
    }

    /// What is said of a command once it was stopped.
    pub fn cancelled_task(&mut self, pid: &str) -> (r: SandboxBashOutput)
        requires
            orderly(old(self)@),
        ensures
            final(self)@ == changed(old(self)@, pid@, |t: TaskView| seen(t)),
            match task_at(old(self)@, pid@) {
                Some(i) => r@ == terminal_output(old(self)@[i], SandboxBashStatus::Cancelled),
                None => r@ == missing_output(pid@),
            },
            orderly(final(self)@),
    {
        let ghost before = self@;
        proof {
            lemma_changed_orderly(before, pid@, |t: TaskView| seen(t));
        }
        match self.find(pid) {
            Some(i) => {
                let mut task = self.tasks.remove(i);
                let ghost view = task@;
                assert(view == before[i as int]);
                let r = SandboxBashOutput::terminal(&mut task, SandboxBashStatus::Cancelled);
                self.tasks.insert(i, task);
                assert(self@ =~= before.update(i as int, seen(view)));
                r
            },
            None => SandboxBashOutput::not_found(pid),
        }
    }

    /// What is handed to the one who waits for a command: what it printed once
    /// it has ended; and where the time is up, what it printed so far, as of one
    /// that still runs.
    pub fn wait_for_task(&mut self, pid: &str, time_is_up: bool) -> (r: Option<SandboxBashOutput>)
        requires
            orderly(old(self)@),
        ensures
            match task_at(old(self)@, pid@) {
                Some(i) => {
                    let task = old(self)@[i];
                    if time_is_up {
                        &&& r is Some
                        &&& r->0@ == running_output(task, true)
                        &&& final(self)@ == old(self)@.update(i, seen(task))
                    } else {
                        match awaited_output(task) {
                            Some(output) => {
                                &&& r is Some
                                &&& r->0@ == output
                                &&& final(self)@ == old(self)@.update(i, seen(task))
                            },
                            None => r is None && final(self)@ == old(self)@,
                        }
                    }
                },
                None => {
                    &&& r is Some
                    &&& r->0@ == missing_output(pid@)
                    &&& final(self)@ == old(self)@
                },
            },
            orderly(final(self)@),
    {
        let ghost before = self@;
        proof {
            lemma_changed_orderly(before, pid@, |t: TaskView| seen(t));
        }
        let i: usize = match self.find(pid) {
            Some(i) => i,
            None => return Some(SandboxBashOutput::not_found(pid)),
        };
        let mut task = self.tasks.remove(i);
        let ghost view = task@;
        assert(view == before[i as int]);
        let r = if time_is_up {
            Some(SandboxBashOutput::running(&mut task, true))
        } else {
            match task.status {
                BashTaskStatus::Completed => {
                    let mut output = SandboxBashOutput::terminal(
                        &mut task,
                        SandboxBashStatus::Completed,
                    );
                    output.pid = None;
                    output.os_pid = None;
                    Some(output)
                },
                BashTaskStatus::Cancelled => Some(
                    SandboxBashOutput::terminal(&mut task, SandboxBashStatus::Cancelled),
                ),
                BashTaskStatus::Running => None,
            }
        };
        let ghost after = task@;
        self.tasks.insert(i, task);
        assert(self@ =~= before.update(i as int, after));
        assert(after == view ==> self@ =~= before);
        r
    }

    fn put_back(&mut self, i: usize, task: BashTaskState)
        requires
            i <= old(self).tasks.len(),
        ensures
            final(self)@ == old(self)@.insert(i as int, task@),
    {
        let ghost before = self@;
        let ghost view = task@;
        self.tasks.insert(i, task);
        assert(self@ =~= before.insert(i as int, view));
    }

    /// A command printed something.
    pub fn append_task_stdout(&mut self, pid: &str, chunk: &str)
        ensures
            final(self)@ == changed(
                old(self)@,
                pid@,
                |t: TaskView| TaskView { stdout: t.stdout + chunk@, ..t },
            ),
            orderly(old(self)@) && may_print(old(self)@, pid@) ==> orderly(final(self)@),
    {
        let ghost before = self@;
        proof {
            if orderly(before) && may_print(before, pid@) {
                lemma_task_at(before, pid@);
                if let Some(k) = task_at(before, pid@) {
                    assert(sound(before[k]));
                    lemma_cut_in_longer(before[k].stdout, chunk@, before[k].stdout_cursor);
                }
                lemma_changed_orderly(
                    before,
                    pid@,
                    |t: TaskView| TaskView { stdout: t.stdout + chunk@, ..t },
                );
            }
        }
        if let Some(i) = self.find(pid) {
            let mut task = self.tasks.remove(i);
            let ghost view = task@;
            assert(view == before[i as int]);
            task.stdout.push_str(chunk);
            let ghost after = task@;
            assert(after =~= TaskView { stdout: view.stdout + chunk@, ..view });
            self.put_back(i, task);
            assert(self@ =~= before.update(i as int, after));
        }
    }

    /// A command printed something as an error.
    pub fn append_task_stderr(&mut self, pid: &str, chunk: &str)
        ensures
            final(self)@ == changed(
                old(self)@,
                pid@,
                |t: TaskView| TaskView { stderr: t.stderr + chunk@, ..t },
            ),
            orderly(old(self)@) ==> orderly(final(self)@),
    {
        let ghost before = self@;
        proof {
            if orderly(before) {
                lemma_task_at(before, pid@);
                if let Some(k) = task_at(before, pid@) {
                    assert(sound(before[k]));
                    lemma_cut_in_longer(before[k].stderr, chunk@, before[k].stderr_cursor);
                    lemma_utf8_len_concat(before[k].stderr, chunk@);
                }
                lemma_changed_orderly(
                    before,
                    pid@,
                    |t: TaskView| TaskView { stderr: t.stderr + chunk@, ..t },
                );
            }
        }
        if let Some(i) = self.find(pid) {
            let mut task = self.tasks.remove(i);
            let ghost view = task@;
            assert(view == before[i as int]);
            task.stderr.push_str(chunk);
            let ghost after = task@;
            assert(after =~= TaskView { stderr: view.stderr + chunk@, ..view });
            self.put_back(i, task);
            assert(self@ =~= before.update(i as int, after));
        }
    }

    /// What a command prints can no longer be read.
    pub fn on_read_error(&mut self, pid: &str, error: &str)
        ensures
            final(self)@ == changed(
                old(self)@,
                pid@,
                |t: TaskView|
                    TaskView { stderr: t.stderr + ("\n[read error: "@ + error@ + "]"@), ..t },
            ),
            orderly(old(self)@) ==> orderly(final(self)@),
    {
        let mut line = "\n[read error: ".to_owned();
        line.push_str(error);
        line.push_str("]");
        self.append_task_stderr(pid, &line);
    }

    /// A line came from a session: the exit code where it ends the command,
    /// else more of what the command printed.
    pub fn on_session_line(&mut self, pid: &str, line: &str, marker: &str) -> (r: Option<i32>)
        ensures
            match marker_code(line@, marker@) {
                Some(code) => {
                    &&& r is Some
                    &&& r->0 == code
                    &&& final(self)@ == changed(
                        old(self)@,
                        pid@,
                        |t: TaskView| TaskView { stdout: without_newline(t.stdout), ..t },
                    )
                },
                None => {
                    &&& r is None
                    &&& final(self)@ == changed(
                        old(self)@,
                        pid@,
                        |t: TaskView| TaskView { stdout: t.stdout + line@, ..t },
                    )
                },
            },
            orderly(old(self)@) && may_print(old(self)@, pid@) ==> orderly(final(self)@),
    {
        match parse_marker_line(line, marker) {
            Some(code) => {
                let ghost before = self@;
                proof {
                    if orderly(before) {
                        lemma_task_at(before, pid@);
                        if let Some(k) = task_at(before, pid@) {
                            assert(sound(before[k]));
                            let all = before[k].stdout;
                            let left = without_newline(all);
                            assert(left =~= all.take(left.len() as int));
                            lemma_cut_in_shorter(all, left.len() as int, before[k].stdout_cursor);
                        }
                        lemma_changed_orderly(
                            before,
                            pid@,
                            |t: TaskView| TaskView { stdout: without_newline(t.stdout), ..t },
                        );
                    }
                }
                if let Some(i) = self.find(pid) {
                    let mut task = self.tasks.remove(i);
                    let ghost view = task@;
                    assert(view == before[i as int]);
                    task.stdout = strip_newline(&task.stdout);
                    let ghost after = task@;
                    assert(after =~= TaskView { stdout: without_newline(view.stdout), ..view });
                    self.put_back(i, task);
                    assert(self@ =~= before.update(i as int, after));
                }
                Some(code)
            },
            None => {
                self.append_task_stdout(pid, line);
                None
            },
        }
    }

    /// The process of a session that a command runs in is known.
    pub fn set_os_pid(&mut self, pid: &str, os_pid: Option<u32>)
        ensures
            final(self)@ == changed(old(self)@, pid@, |t: TaskView| TaskView { os_pid, ..t }),
            orderly(old(self)@) ==> orderly(final(self)@),
    {
        let ghost before = self@;
        proof {
            if orderly(before) {
                lemma_changed_orderly(before, pid@, |t: TaskView| TaskView { os_pid, ..t });
            }
        }
        if let Some(i) = self.find(pid) {
            let mut task = self.tasks.remove(i);
            let ghost view = task@;
            assert(view == before[i as int]);
            task.os_pid = os_pid;
            let ghost after = task@;
            assert(after =~= TaskView { os_pid, ..view });
            self.put_back(i, task);
            assert(self@ =~= before.update(i as int, after));
        }
    }

    /// The process of a command has ended.
    pub fn on_exit(&mut self, pid: &str, code: Option<i32>, now: u64)
        ensures
            final(self)@ == changed(old(self)@, pid@, |t: TaskView| exited(t, code, now)),
            orderly(old(self)@) ==> orderly(final(self)@),
    {
        let ghost before = self@;
        proof {
            if orderly(before) {
                lemma_changed_orderly(before, pid@, |t: TaskView| exited(t, code, now));
            }
        }
        if let Some(i) = self.find(pid) {
            let mut task = self.tasks.remove(i);
            let ghost view = task@;
            assert(view == before[i as int]);
            if let BashTaskStatus::Running = task.status {
                let c: i32 = match code {
                    Some(c) => c,
                    None => -1,
                };
                task.exit_code = Some(c);
                task.status = BashTaskStatus::Completed;
                task.finished_at = Some(now);
            }
            let ghost after = task@;
            assert(after =~= exited(view, code, now));
            self.put_back(i, task);
            assert(self@ =~= before.update(i as int, after));
        }
    }

    /// The process of a command can no longer be waited for.
    pub fn on_wait_error(&mut self, pid: &str, error: &str, now: u64)
        ensures
            final(self)@ == changed(old(self)@, pid@, |t: TaskView| lost(t, error@, now)),
            orderly(old(self)@) ==> orderly(final(self)@),
    {
        let ghost before = self@;
        proof {
            if orderly(before) {
                lemma_changed_orderly(before, pid@, |t: TaskView| lost(t, error@, now));
            }
        }
        if let Some(i) = self.find(pid) {
            let mut task = self.tasks.remove(i);
            let ghost view = task@;
            assert(view == before[i as int]);
            if let BashTaskStatus::Running = task.status {
                let mut m = "bash wait failed: ".to_owned();
                m.push_str(error);
                task.exit_code = Some(-1);
                task.status = BashTaskStatus::Completed;
                task.message = Some(m);
                task.finished_at = Some(now);
            }
            let ghost after = task@;
            assert(after =~= lost(view, error@, now));
            self.put_back(i, task);
            assert(self@ =~= before.update(i as int, after));
        }
    }

    /// A session is done with a command. Says whether the session is of no more
    /// use.
    pub fn on_session_done(&mut self, pid: &str, result: Result<i32, String>, now: u64) -> (r: bool)
        ensures
            final(self)@ == changed(
                old(self)@,
                pid@,
                |t: TaskView| session_done(t, code_or_error(result), now),
            ),
            orderly(old(self)@) ==> orderly(final(self)@),
            match task_at(old(self)@, pid@) {
                Some(i) => r == session_spent(old(self)@[i], code_or_error(result)),
                None => !r,
            },
    {
        let ghost before = self@;
        proof {
            if orderly(before) {
                lemma_changed_orderly(
                    before,
                    pid@,
                    |t: TaskView| session_done(t, code_or_error(result), now),
                );
            }
        }
        let i: usize = match self.find(pid) {
            Some(i) => i,
            None => return false,
        };
        let mut task = self.tasks.remove(i);
        let ghost view = task@;
        assert(view == before[i as int]);
        let ghost outcome = code_or_error(result);
        let spent = match task.status {
            BashTaskStatus::Cancelled => true,
            BashTaskStatus::Completed => false,
            BashTaskStatus::Running => match result {
                Ok(code) => {
                    task.exit_code = Some(code);
                    task.status = BashTaskStatus::Completed;
                    task.finished_at = Some(now);
                    false
                },
                Err(error) => {
                    task.exit_code = Some(-1);
                    task.status = BashTaskStatus::Completed;
                    task.message = Some(error);
                    task.finished_at = Some(now);
                    true
                },
            },
        };
        let ghost after = task@;
        assert(after =~= session_done(view, outcome, now));
        self.put_back(i, task);
        assert(self@ =~= before.update(i as int, after));
        spent
    }
}

pub open spec fn code_or_error(r: Result<i32, String>) -> Result<i32, Seq<char>> {
    match r {
        Ok(code) => Ok(code),
        Err(e) => Err(e@),
    }
}

/// What ended stays ended: no event makes a command run again, and none changes
/// how it came out.
pub proof fn ended_tasks_stay_ended(
    task: TaskView,
    code: Option<i32>,
    error: Seq<char>,
    result: Result<i32, Seq<char>>,
    now: u64,
)
    requires
        task.status != BashTaskStatus::Running,
    ensures
        cancelled(task, now) == task,
        exited(task, code, now) == task,
        lost(task, error, now) == task,
        session_done(task, result, now) == task,
{
}

// ----------------------------------------------------------------------- names

pub open spec fn name_char(c: char) -> bool {
    ascii_alphanumeric(c) || c == '-' || c == '_'
}

/// What a session may be called.
pub open spec fn session_name(name: Seq<char>) -> Result<Seq<char>, Seq<char>> {
    let named = trimmed(name);
    if named.len() == 0 {
        Err("named bash session may not be empty"@)
    } else if utf8_len(named) > 64 {
        Err("named bash session must be at most 64 characters"@)
    } else if exists|i: int| 0 <= i < named.len() && !name_char(#[trigger] named[i]) {
        Err("named bash session may only contain ASCII letters, numbers, '-' and '_'"@)
    } else {
        Ok(named)
    }
}

/// What a session may be called: up to 64 letters, digits, `-` and `_`.
pub fn validate_named(name: &str) -> (r: Result<String, SandboxError>)
    ensures
        match session_name(name@) {
            Ok(named) => r is Ok && r->Ok_0@ == named,
            Err(message) => r is Err && r->Err_0@ == plain_error(message),
        },
{
    let named = trim(name);
    if named.unicode_len() == 0 {
        return Err(SandboxError::plain("named bash session may not be empty"));
    }
    if cut_within(&named, 64).is_some() {
        return Err(SandboxError::plain("named bash session must be at most 64 characters"));
    }
    let chars = chars_of(&named);
    let mut i: usize = 0;
    while i < chars.len()
        invariant
            i <= chars.len(),
            chars@ == named@,
            named@ == trimmed(name@),
            named@.len() > 0,
            utf8_len(named@) <= 64,
            forall|j: int| 0 <= j < i ==> name_char(#[trigger] named@[j]),
        decreases chars.len() - i,
    {
        let c = chars[i];
        if !(is_ascii_alphanumeric(c) || c == '-' || c == '_') {
            assert(!name_char(named@[i as int]));
            return Err(
                SandboxError::plain(
                    "named bash session may only contain ASCII letters, numbers, '-' and '_'",
                ),
            );
        }
        i += 1;
    }
    Ok(named)
}

// ------------------------------------------------------------------- how tasks end

/// A task that runs ends as what happened to it: completed with the code that it gave,
/// cancelled where it was, completed with what went wrong where it was lost. What it
/// printed stays.
pub proof fn tasks_end_as_it_happened(
    task: TaskView,
    code: i32,
    error: Seq<char>,
    now: u64,
)
    requires
        task.status == BashTaskStatus::Running,
    ensures
        ({
            let e = exited(task, Some(code), now);
            let c = cancelled(task, now);
            let l = lost(task, error, now);
            let s = session_done(task, Ok(code), now);
            let f = session_done(task, Err(error), now);
            &&& e.status == BashTaskStatus::Completed && e.exit_code == Some(code)
            &&& c.status == BashTaskStatus::Cancelled && c.exit_code == Some(-1i32)
            &&& l.status == BashTaskStatus::Completed && l.exit_code == Some(-1i32)
            &&& l.message is Some && error.is_suffix_of(l.message->0)
            &&& s.status == BashTaskStatus::Completed && s.exit_code == Some(code)
            &&& f.status == BashTaskStatus::Completed && f.exit_code == Some(-1i32) && f.message
                == Some(error)
            &&& e.finished_at == Some(now) && c.finished_at == Some(now)
            &&& l.finished_at == Some(now) && s.finished_at == Some(now)
            &&& f.finished_at == Some(now)
            &&& e.stdout == task.stdout && c.stdout == task.stdout && l.stdout == task.stdout
            &&& s.stdout == task.stdout && f.stdout == task.stdout
            &&& e.stderr == task.stderr && c.stderr == task.stderr && l.stderr == task.stderr
            &&& e.pid == task.pid && c.pid == task.pid && l.pid == task.pid
            &&& s.pid == task.pid && f.pid == task.pid
        }),
        exited(task, None, now).exit_code == Some(-1i32),
{
    let m = "bash wait failed: "@ + error;
    assert(error =~= m.subrange(m.len() - error.len(), m.len() as int));
}

/// What is told of a task: whether it runs, was cancelled or is done, its code, and
/// what was not told before. One that is waited for is told of when it has ended.
pub proof fn tasks_are_told_of_as_they_are(task: TaskView)
    ensures
        ({
            let p = polled_output(task);
            &&& p.pid == Some(task.pid)
            &&& p.os_pid == task.os_pid
            &&& p.stdout == unseen(task.stdout, task.stdout_cursor)
            &&& p.stderr == unseen(task.stderr, task.stderr_cursor)
            &&& task.status == BashTaskStatus::Running ==> p.status == SandboxBashStatus::Running
            &&& task.status == BashTaskStatus::Completed ==> p.status
                == SandboxBashStatus::Completed && p.message == task.message
            &&& task.status == BashTaskStatus::Cancelled ==> p.status
                == SandboxBashStatus::Cancelled && p.message == task.message
            &&& task.status != BashTaskStatus::Running ==> p.exit_code == (match task.exit_code {
                Some(c) => c,
                None => -1i32,
            })
            &&& awaited_output(task) is None <==> task.status == BashTaskStatus::Running
            &&& awaited_output(task) matches Some(a) ==> a.status == p.status && a.exit_code
                == p.exit_code && a.stdout == p.stdout && a.stderr == p.stderr && a.message
                == p.message
        }),
        running_output(task, true).timed_out,
        running_output(task, true).status == SandboxBashStatus::Running,
        missing_output(task.pid).status == SandboxBashStatus::NotFound,
        missing_output(task.pid).pid == Some(task.pid),
{
}

/// Only tasks that ended long enough ago are forgotten.
pub proof fn only_expired_tasks_are_forgotten(tasks: Seq<TaskView>, now: u64)
    ensures
        pruned(tasks, now) == tasks.filter(
            |t: TaskView| t.finished_at is None || now - t.finished_at->0 < BASH_TASK_RETAIN_MS,
        ),
    decreases tasks.len(),
{
    let kept = |t: TaskView|
        t.finished_at is None || now - t.finished_at->0 < BASH_TASK_RETAIN_MS;
    if tasks.len() > 0 {
        only_expired_tasks_are_forgotten(tasks.drop_last(), now);
        lemma_filter_last(tasks, kept);
    } else {
        lemma_filter_none(tasks, kept);
        assert(pruned(tasks, now) =~= tasks.filter(kept));
    }
}

/// A task is found by its id: the first of that id, where there is one.
pub proof fn tasks_are_found_by_their_id(tasks: Seq<TaskView>, pid: Seq<char>)
    ensures
        match task_at(tasks, pid) {
            Some(i) => {
                &&& 0 <= i < tasks.len()
                &&& tasks[i].pid == pid
                &&& forall|j: int| 0 <= j < i ==> (#[trigger] tasks[j]).pid != pid
            },
            None => forall|j: int| 0 <= j < tasks.len() ==> (#[trigger] tasks[j]).pid != pid,
        },
    decreases tasks.len(),
{
    if tasks.len() > 0 {
        let head = tasks.drop_last();
        tasks_are_found_by_their_id(head, pid);
        assert(forall|j: int| 0 <= j < head.len() ==> head[j] == #[trigger] tasks[j]);
        assert(tasks.last() == tasks[tasks.len() - 1]);
    }
}

/// A change to a task changes that task and no other; a task that is put in is there,
/// and no other is lost.
pub proof fn only_the_task_meant_is_changed(
    tasks: Seq<TaskView>,
    pid: Seq<char>,
    change: spec_fn(TaskView) -> TaskView,
    task: TaskView,
)
    ensures
        ({
            let r = changed(tasks, pid, change);
            &&& r.len() == tasks.len()
            &&& forall|j: int|
                0 <= j < tasks.len() && tasks[j].pid != pid ==> #[trigger] r[j] == tasks[j]
            &&& task_at(tasks, pid) matches Some(i) ==> r[i] == change(tasks[i])
        }),
        ({
            let r = with_task(tasks, task);
            &&& r.contains(task)
            &&& tasks.len() <= r.len() <= tasks.len() + 1
            &&& forall|j: int|
                0 <= j < tasks.len() && tasks[j].pid != task.pid ==> #[trigger] r[j] == tasks[j]
        }),
{
    tasks_are_found_by_their_id(tasks, pid);
    tasks_are_found_by_their_id(tasks, task.pid);
    let r = with_task(tasks, task);
    match task_at(tasks, task.pid) {
        Some(i) => {
            assert(r[i] == task);
        },
        None => {
            assert(r[tasks.len() as int] == task);
        },
    }
}

/// A session may be named with up to sixty-four letters, digits, hyphens and
/// underscores; white space round the name does not count.
pub proof fn which_names_sessions_may_have(name: Seq<char>)
    ensures
        session_name(name) is Ok <==> 0 < trimmed(name).len() && utf8_len(trimmed(name)) <= 64
            && forall|i: int|
            0 <= i < trimmed(name).len() ==> ascii_alphanumeric(#[trigger] trimmed(name)[i])
                || trimmed(name)[i] == '-' || trimmed(name)[i] == '_',
        session_name(name) matches Ok(n) ==> n == trimmed(name),
{
    let t = trimmed(name);
    if !(forall|i: int|
        0 <= i < t.len() ==> ascii_alphanumeric(#[trigger] t[i]) || t[i] == '-' || t[i] == '_') {
        let k = choose|i: int|
            0 <= i < t.len() && !(ascii_alphanumeric(#[trigger] t[i]) || t[i] == '-' || t[i]
                == '_');
        assert(!name_char(t[k]));
    }
    if exists|i: int| 0 <= i < t.len() && !name_char(#[trigger] t[i]) {
        let k = choose|i: int| 0 <= i < t.len() && !name_char(#[trigger] t[i]);
        assert(!(ascii_alphanumeric(t[k]) || t[k] == '-' || t[k] == '_'));
    }
}

/// Only the end of a line is taken from it.
pub proof fn only_line_ends_are_cut(s: Seq<char>)
    ensures
        without_newline(s.push('\n')) == (if s.len() > 0 && s.last() == '\r' {
            s.drop_last()
        } else {
            s
        }),
        s.len() == 0 || s.last() != '\n' ==> without_newline(s) == s,
{
    assert(s.push('\n').drop_last() =~= s);
}

/// A session that was cancelled or failed is not used again; one whose task is done
/// is.
pub proof fn which_sessions_are_spent(task: TaskView, result: Result<i32, Seq<char>>)
    ensures
        task.status == BashTaskStatus::Cancelled ==> session_spent(task, result),
        task.status == BashTaskStatus::Running ==> session_spent(task, result) == (result is Err),
        task.status == BashTaskStatus::Completed ==> !session_spent(task, result),
        runs_in(task, task.named->0) && task.named is Some ==> task.status
            == BashTaskStatus::Running,
{
}

} // verus!
