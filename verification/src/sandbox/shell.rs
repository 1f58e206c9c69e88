//! How a shell is started.
use vstd::prelude::*;
use vstd::string::*;

use crate::message::option_text;
use crate::outside::fresh_simple_id;
use crate::paths::{file_name, file_name_text};
use crate::text::{
    ascii_digit, chars_of, decimal, digit_char, drop_trailing, is_blank, lemma_occurs_in_both,
    occurs, str_eq, strip_prefix, text_range, texts, trim_end, trim_end_text, trimmed,
};

verus! {

broadcast use vstd::string::group_string_axioms;

pub const ZSH_STARTUP: &'static str =
    "if [ -f \"$HOME/.zshrc\" ]; then . \"$HOME/.zshrc\"; fi\nprecmd_functions=()\npreexec_functions=()\nchpwd_functions=()\nperiodic_functions=()\nPROMPT=\nRPROMPT=\nunsetopt xtrace 2>/dev/null || true";

pub const BASH_STARTUP: &'static str =
    "if [ -f \"$HOME/.bashrc\" ]; then . \"$HOME/.bashrc\"; fi\nPROMPT_COMMAND=\ntrap - DEBUG 2>/dev/null || true\nset +x";

/// The name of a shell: the last part of its path.
pub open spec fn name_of_shell(shell: Seq<char>) -> Seq<char> {
    match file_name_text(shell) {
        Some(name) => name,
        None => shell,
    }
}

pub fn shell_name(shell: &str) -> (r: String)
    ensures
        r@ == name_of_shell(shell@),
{
    match file_name(shell) {
        Some(name) => name,
        None => shell.to_owned(),
    }
}

pub open spec fn known_shell(name: Seq<char>) -> bool {
    name == "bash"@ || name == "zsh"@
}

fn is_known_shell(name: &str) -> (r: bool)
    ensures
        r == known_shell(name@),
{
    str_eq(name, "bash") || str_eq(name, "zsh")
}

/// The shell of the user, by the variable `SHELL`: one that is known, else bash.
pub open spec fn shell_of(variable: Option<Seq<char>>) -> Seq<char> {
    match variable {
        Some(shell) if trimmed(shell).len() > 0 && known_shell(name_of_shell(shell)) => shell,
        _ => "bash"@,
    }
}

/// The shell of the user, by the variable `SHELL`.
pub fn user_shell(variable: &Option<String>) -> (r: String)
    ensures
        r@ == shell_of(option_text(*variable)),
{
    match variable {
        Some(shell) => if !is_blank(shell) && is_known_shell(&shell_name(shell)) {
            shell.clone()
        } else {
            "bash".to_owned()
        },
        None => "bash".to_owned(),
    }
}

/// What a shell is to run first.
pub open spec fn startup_of(shell: Seq<char>) -> Seq<char> {
    let name = name_of_shell(shell);
    if name == "zsh"@ {
        ZSH_STARTUP@
    } else if name == "bash"@ {
        BASH_STARTUP@
    } else {
        ""@
    }
}

/// What a shell is to run first.
pub fn shell_startup_script(shell: &str) -> (r: &'static str)
    ensures
        r@ == startup_of(shell@),
{
    let name = shell_name(shell);
    if str_eq(&name, "zsh") {
        ZSH_STARTUP
    } else if str_eq(&name, "bash") {
        BASH_STARTUP
    } else {
        ""
    }
}

/// The arguments with which a shell runs one command.
pub open spec fn command_args(shell: Seq<char>, command: Seq<char>) -> Seq<Seq<char>> {
    let script = startup_of(shell) + "\n"@ + command;
    if known_shell(name_of_shell(shell)) {
        Seq::empty().push("-l"@).push("-c"@).push(script)
    } else {
        Seq::empty().push("-c"@).push(script)
    }
}

/// The arguments with which a shell runs one command.
pub fn shell_command_args(shell: &str, command: &str) -> (r: Vec<String>)
    ensures
        texts(r@) == command_args(shell@, command@),
{
    let mut script = shell_startup_script(shell).to_owned();
    script.push_str("\n");
    script.push_str(command);
    let mut args: Vec<String> = Vec::new();
    if is_known_shell(&shell_name(shell)) {
        args.push("-l".to_owned());
    }
    args.push("-c".to_owned());
    args.push(script);
    assert(texts(args@) =~= command_args(shell@, command@));
    args
}

/// The arguments with which a shell stays open.
pub open spec fn session_args(shell: Seq<char>) -> Seq<Seq<char>> {
    if known_shell(name_of_shell(shell)) {
        Seq::empty().push("-l"@)
    } else {
        Seq::empty()
    }
}

/// The arguments with which a shell stays open.
pub fn shell_session_args(shell: &str) -> (r: Vec<String>)
    ensures
        texts(r@) == session_args(shell@),
{
    let mut args: Vec<String> = Vec::new();
    if is_known_shell(&shell_name(shell)) {
        args.push("-l".to_owned());
    }
    assert(texts(args@) =~= session_args(shell@));
    args
}

// --------------------------------------------------------------------- markers

/// The line that a session prints when a command is done.
pub open spec fn done_marker(id: Seq<char>) -> Seq<char> {
    "__REMI_BASH_DONE_"@ + id + "__"@
}

/// The line that a session prints when it is ready.
pub open spec fn ready_marker(id: Seq<char>) -> Seq<char> {
    "__REMI_BASH_READY_"@ + id + "__"@
}

/// A marker for the end of a command, unlike any other.
pub fn new_done_marker() -> (r: String)
    ensures
        exists|id: Seq<char>| id.len() == 32 && r@ == #[trigger] done_marker(id),
{
    let id = fresh_simple_id();
    let mut m = "__REMI_BASH_DONE_".to_owned();
    m.push_str(&id);
    m.push_str("__");
    assert(m@ == done_marker(id@));
    m
}

/// A marker for the start of a session, unlike any other.
pub fn new_ready_marker() -> (r: String)
    ensures
        exists|id: Seq<char>| id.len() == 32 && r@ == #[trigger] ready_marker(id),
{
    let id = fresh_simple_id();
    let mut m = "__REMI_BASH_READY_".to_owned();
    m.push_str(&id);
    m.push_str("__");
    assert(m@ == ready_marker(id@));
    m
}

/// What a session is told so that it runs `command` and prints the marker with
/// the exit code behind it.
pub open spec fn wrapped_command(command: Seq<char>, marker: Seq<char>) -> Seq<char> {
    command + " 2>&1\n__remi_status=$?\nprintf '\\n"@ + marker
        + ":%s\\n' \"$__remi_status\"\n"@
}

pub fn wrap_session_command(command: &str, marker: &str) -> (r: String)
    ensures
        r@ == wrapped_command(command@, marker@),
{
    let mut t = command.to_owned();
    t.push_str(" 2>&1\n__remi_status=$?\nprintf '\\n");
    t.push_str(marker);
    t.push_str(":%s\\n' \"$__remi_status\"\n");
    t
}

/// What a session is told so that it prints the marker once it is ready.
pub open spec fn startup_probe(shell: Seq<char>, marker: Seq<char>) -> Seq<char> {
    startup_of(shell) + "\nprintf '\\n"@ + marker + "\\n'\n"@
}

pub fn session_startup_probe(shell: &str, marker: &str) -> (r: String)
    ensures
        r@ == startup_probe(shell@, marker@),
{
    let mut t = shell_startup_script(shell).to_owned();
    t.push_str("\nprintf '\\n");
    t.push_str(marker);
    t.push_str("\\n'\n");
    t
}

/// Whether a line says that the session is ready.
pub fn is_ready_line(line: &str, marker: &str) -> (r: bool)
    ensures
        r == (trim_end_text(line@) == marker@),
{
    str_eq(&trim_end(line), marker)
}

// --------------------------------------------------------------------- numbers

pub open spec fn all_digits(s: Seq<char>) -> bool {
    forall|i: int| 0 <= i < s.len() ==> ascii_digit(#[trigger] s[i])
}

/// The number that digits stand for.
pub open spec fn digits_value(s: Seq<char>) -> nat
    decreases s.len(),
{
    if s.len() == 0 {
        0
    } else {
        10 * digits_value(s.drop_last()) + (s.last() as nat - '0' as nat) as nat
    }
}

/// The digits of a number, behind its sign.
pub open spec fn unsigned_part(s: Seq<char>) -> Seq<char> {
    if s.len() > 0 && (s[0] == '-' || s[0] == '+') {
        s.skip(1)
    } else {
        s
    }
}

/// The number that a text stands for: digits, with a sign before them or not,
/// as far as 32 bits hold it.
pub open spec fn number_of(s: Seq<char>) -> Option<int> {
    let digits = unsigned_part(s);
    let value = if s.len() > 0 && s[0] == '-' {
        -(digits_value(digits) as int)
    } else {
        digits_value(digits) as int
    };
    if digits.len() > 0 && all_digits(digits) && i32::MIN <= value <= i32::MAX {
        Some(value)
    } else {
        None
    }
}

proof fn lemma_digits_grow(s: Seq<char>, k: int)
    requires
        0 <= k <= s.len(),
        all_digits(s),
    ensures
        digits_value(s.take(k)) <= digits_value(s),
    decreases s.len(),
{
    if k < s.len() {
        let head = s.drop_last();
        assert(all_digits(head)) by {
            assert forall|i: int| 0 <= i < head.len() implies ascii_digit(#[trigger] head[i]) by {
                assert(s[i] == head[i]);
            }
        }
        lemma_digits_grow(head, k);
        assert(head.take(k) =~= s.take(k));
    } else {
        assert(s.take(k) =~= s);
    }
}

/// Reads a number of 32 bits.
pub fn parse_number(s: &str) -> (r: Option<i32>)
    ensures
        match r {
            Some(n) => number_of(s@) == Some(n as int),
            None => number_of(s@) is None,
        },
{
    let chars = chars_of(s);
    let negative = chars.len() > 0 && chars[0] == '-';
    let start: usize = if chars.len() > 0 && (chars[0] == '-' || chars[0] == '+') {
        1
    } else {
        0
    };
    let ghost digits = unsigned_part(s@);
    assert(digits =~= chars@.skip(start as int));
    if start == chars.len() {
        return None;
    }
    let mut value: i64 = 0;
    let mut i: usize = start;
    assert(digits.take(0) =~= Seq::empty());
    while i < chars.len()
        invariant
            start <= i <= chars.len(),
            chars@ == s@,
            digits == unsigned_part(s@),
            digits == chars@.skip(start as int),
            0 <= value <= 2147483648,
            value == digits_value(digits.take(i - start)),
            all_digits(digits.take(i - start)),
        decreases chars.len() - i,
    {
        let c = chars[i];
        assert(c == digits[i - start]);
        if c < '0' || c > '9' {
            assert(!ascii_digit(digits[i - start]));
            return None;
        }
        let ghost now = digits.take(i - start + 1);
        assert(now.drop_last() =~= digits.take(i - start));
        assert(all_digits(now)) by {
            assert forall|j: int| 0 <= j < now.len() implies ascii_digit(#[trigger] now[j]) by {
                if j < now.len() - 1 {
                    assert(digits.take(i - start)[j] == now[j]);
                }
            }
        }
        let next: i64 = value * 10 + (c as u32 - '0' as u32) as i64;
        if next > 2147483648 {
            proof {
                if all_digits(digits) {
                    lemma_digits_grow(digits, i - start + 1);
                }
            }
            return None;
        }
        value = next;
        i += 1;
    }
    assert(digits.take(i - start) =~= digits);
    if negative {
        Some((0 - value) as i32)
    } else if value > 2147483647 {
        None
    } else {
        Some(value as i32)
    }
}

pub open spec fn line_end() -> spec_fn(char) -> bool {
    |c: char| c == '\r' || c == '\n'
}

/// A line without what ends it.
pub open spec fn without_line_end(line: Seq<char>) -> Seq<char> {
    drop_trailing(line, line_end())
}

fn strip_line_end(line: &str) -> (r: String)
    ensures
        r@ == without_line_end(line@),
{
    let chars = chars_of(line);
    let mut end: usize = chars.len();
    assert(chars@.take(end as int) =~= line@);
    while end > 0 && (chars[end - 1] == '\r' || chars[end - 1] == '\n')
        invariant
            end <= chars.len(),
            chars@ == line@,
            drop_trailing(chars@.take(end as int), line_end()) == without_line_end(line@),
        decreases end,
    {
        assert(chars@.take(end as int).drop_last() =~= chars@.take(end - 1));
        end -= 1;
    }
    let r = text_range(&chars, 0, end);
    assert(chars@.subrange(0, end as int) =~= chars@.take(end as int));
    r
}

/// The exit code on the line that ends a command.
pub open spec fn marker_code(line: Seq<char>, marker: Seq<char>) -> Option<int> {
    let said = without_line_end(line);
    let head = marker + ":"@;
    if head.is_prefix_of(said) {
        number_of(said.skip(head.len() as int))
    } else {
        None
    }
}

/// The exit code on the line that ends a command.
pub fn parse_marker_line(line: &str, marker: &str) -> (r: Option<i32>)
    ensures
        match r {
            Some(n) => marker_code(line@, marker@) == Some(n as int),
            None => marker_code(line@, marker@) is None,
        },
{
    let said = strip_line_end(line);
    let mut head = marker.to_owned();
    head.push_str(":");
    match strip_prefix(&said, &head) {
        Some(rest) => parse_number(&rest),
        None => None,
    }
}

// ------------------------------------------------------------------------ its laws

/// A number that is written down is read back.
pub proof fn numbers_are_read_as_written(n: nat)
    ensures
        decimal(n).len() > 0,
        all_digits(decimal(n)),
        digits_value(decimal(n)) == n,
    decreases n,
{
    if n >= 10 {
        numbers_are_read_as_written(n / 10);
        let head = decimal(n / 10);
        let d = digit_char(n % 10);
        assert(decimal(n) == head.push(d));
        assert(decimal(n).drop_last() =~= head);
        assert(ascii_digit(d));
        assert forall|i: int| 0 <= i < decimal(n).len() implies ascii_digit(
            #[trigger] decimal(n)[i],
        ) by {
            if i < head.len() {
                assert(decimal(n)[i] == head[i]);
            }
        }
    } else {
        assert(decimal(n).drop_last() =~= Seq::<char>::empty());
        assert(digits_value(decimal(n).drop_last()) == 0);
        assert(ascii_digit(digit_char(n)));
    }
}

/// An exit status that a command prints behind its marker is read back; a line that
/// does not begin with the marker tells none.
pub proof fn an_exit_status_is_read_back(marker: Seq<char>, n: nat, line: Seq<char>)
    ensures
        n <= i32::MAX ==> marker_code(marker + ":"@ + decimal(n) + "\n"@, marker) == Some(n as int),
        n <= i32::MAX ==> marker_code(marker + ":"@ + decimal(n), marker) == Some(n as int),
        !(marker + ":"@).is_prefix_of(without_line_end(line)) ==> marker_code(line, marker) is None,
{
    reveal_strlit("\n");
    reveal_strlit(":");
    numbers_are_read_as_written(n);
    let head = marker + ":"@;
    let said = head + decimal(n);
    let full = said + "\n"@;
    assert(said.last() == decimal(n).last());
    assert(ascii_digit(decimal(n)[decimal(n).len() - 1]));
    assert(!line_end()(said.last()));
    assert(drop_trailing(said, line_end()) == said);
    assert(full.drop_last() =~= said);
    assert(full.last() == '\n');
    assert(line_end()(full.last()));
    assert(drop_trailing(full, line_end()) == drop_trailing(full.drop_last(), line_end()));
    assert(head =~= said.subrange(0, head.len() as int));
    assert(said.skip(head.len() as int) =~= decimal(n));
    assert(ascii_digit(decimal(n)[0]));
    assert(unsigned_part(decimal(n)) == decimal(n));
}

/// What is run is the command, behind what the shell starts with.
pub proof fn the_command_is_run(shell: Seq<char>, command: Seq<char>, marker: Seq<char>)
    ensures
        ({
            let args = command_args(shell, command);
            &&& args.len() >= 2
            &&& args[args.len() - 2] == "-c"@
            &&& command.is_suffix_of(args.last())
            &&& startup_of(shell).is_prefix_of(args.last())
            &&& args.contains("-l"@) ==> known_shell(name_of_shell(shell)) || args.last() == "-l"@
        }),
        command.is_prefix_of(wrapped_command(command, marker)),
        occurs(wrapped_command(command, marker), marker),
        occurs(startup_probe(shell, marker), marker),
{
    reveal_strlit("-c");
    reveal_strlit("-l");
    assert("-c"@[1] != "-l"@[1]);
    let args = command_args(shell, command);
    let script = args.last();
    let up = startup_of(shell) + "\n"@;
    assert(script == up + command);
    assert(command =~= script.subrange(script.len() - command.len(), script.len() as int));
    assert(startup_of(shell) =~= script.subrange(0, startup_of(shell).len() as int));
    if args.contains("-l"@) && !known_shell(name_of_shell(shell)) {
        let k = choose|k: int| 0 <= k < args.len() && args[k] == "-l"@;
        assert(args[0] == "-c"@);
    }
    let w = wrapped_command(command, marker);
    assert(command =~= w.subrange(0, command.len() as int));
    let a = command + " 2>&1\n__remi_status=$?\nprintf '\\n"@;
    lemma_occurs_in_both(a, marker, marker);
    lemma_occurs_in_both(a + marker, ":%s\\n' \"$__remi_status\"\n"@, marker);
    let b = startup_of(shell) + "\nprintf '\\n"@;
    lemma_occurs_in_both(b, marker, marker);
    lemma_occurs_in_both(b + marker, "\\n'\n"@, marker);
}

/// The shell of the user is used where it is one that is known.
pub proof fn known_shells_are_used(shell: Seq<char>)
    ensures
        trimmed(shell).len() > 0 && known_shell(name_of_shell(shell)) ==> shell_of(Some(shell))
            == shell,
        !known_shell(name_of_shell(shell)) ==> shell_of(Some(shell)) == "bash"@,
        shell_of(None) == "bash"@,
{
}

/// Commands are told apart by their markers.
pub proof fn markers_are_told_apart(a: Seq<char>, b: Seq<char>)
    ensures
        done_marker(a) == done_marker(b) <==> a == b,
        ready_marker(a) == ready_marker(b) <==> a == b,
{
    let p = "__REMI_BASH_DONE_"@;
    let q = "__REMI_BASH_READY_"@;
    let e = "__"@;
    assert(done_marker(a).subrange(p.len() as int, done_marker(a).len() - e.len()) =~= a);
    assert(done_marker(b).subrange(p.len() as int, done_marker(b).len() - e.len()) =~= b);
    assert(ready_marker(a).subrange(q.len() as int, ready_marker(a).len() - e.len()) =~= a);
    assert(ready_marker(b).subrange(q.len() as int, ready_marker(b).len() - e.len()) =~= b);
}

/// A session of a shell that is known is one of a user who logs in.
pub proof fn known_shells_log_in(shell: Seq<char>)
    ensures
        known_shell(name_of_shell(shell)) ==> session_args(shell) == seq!["-l"@],
        !known_shell(name_of_shell(shell)) ==> session_args(shell).len() == 0,
        name_of_shell(shell) == "zsh"@ ==> startup_of(shell) == ZSH_STARTUP@,
        name_of_shell(shell) == "bash"@ ==> startup_of(shell) == BASH_STARTUP@,
        known_shell("bash"@) && known_shell("zsh"@),
{
    reveal_strlit("zsh");
    reveal_strlit("bash");
    assert("zsh"@.len() != "bash"@.len());
    assert(Seq::<Seq<char>>::empty().push("-l"@) =~= seq!["-l"@]);
}

} // verus!
