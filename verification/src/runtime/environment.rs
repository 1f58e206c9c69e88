//! What a model is told of the machine that its tools work on.
use vstd::prelude::*;
use vstd::string::*;

use crate::json::{
    field, fields_are_read_back, lemma_field_push, no_fields, with_field, without_field, JsonMap, JsonNumber, JsonValue,
    JsonView, NumberView,
};
use crate::message::{insert_system, message_views, option_text, with_system_at, Message};
use crate::order::lemma_filter_last;
use crate::paths::{file_name, file_name_text};
use crate::sandbox::config::{SandboxConfig, SandboxView};
use crate::text::{
    ascii_lowercase_text, chars_of, contains_text, is_blank, is_white, lemma_occurs_in_both,
    occurs, pieces, split_on, str_eq, strip_prefix, text_range, to_ascii_lowercase, trim, trimmed,
    white_char,
};

verus! {

broadcast use vstd::string::group_string_axioms;

pub const ENVIRONMENT_CONTEXT_STATE_KEY: &'static str = "__environment_context";

/// The version of what is kept of the machine.
pub const ENVIRONMENT_CONTEXT_VERSION: u64 = 3;

// --------------------------------------------------------------------- values

/// The words of a text with one space between them.
pub open spec fn one_line(s: Seq<char>) -> Seq<char>
    decreases s.len(),
{
    if s.len() == 0 {
        s
    } else {
        let head = one_line(s.drop_last());
        if white_char(s.last()) {
            head
        } else if head.len() > 0 && s.len() > 1 && white_char(s[s.len() - 2]) {
            head.push(' ').push(s.last())
        } else {
            head.push(s.last())
        }
    }
}

/// A value on one line, with one space between its words.
pub fn sanitize_value(value: &str) -> (r: String)
    ensures
        r@ == one_line(value@),
{
    let chars = chars_of(value);
    let mut out: Vec<char> = Vec::new();
    let mut i: usize = 0;
    assert(chars@.take(0) =~= Seq::empty());
    while i < chars.len()
        invariant
            i <= chars.len(),
            chars@ == value@,
            out@ == one_line(chars@.take(i as int)),
        decreases chars.len() - i,
    {
        let ghost now = chars@.take(i + 1);
        assert(now.drop_last() =~= chars@.take(i as int));
        let c = chars[i];
        if !is_white(c) {
            if out.len() > 0 && i > 0 && is_white(chars[i - 1]) {
                out.push(' ');
            }
            out.push(c);
        }
        i += 1;
    }
    assert(chars@.take(i as int) =~= chars@);
    text_range(&out, 0, out.len())
}

/// A value takes one line, whatever is in it: its only white characters are
/// spaces, and none of them stands at an end or beside another.
pub proof fn values_take_one_line(s: Seq<char>)
    ensures
        ({
            let r = one_line(s);
            &&& forall|i: int| 0 <= i < r.len() && white_char(#[trigger] r[i]) ==> r[i] == ' '
            &&& r.len() > 0 ==> !white_char(r[0]) && !white_char(r.last())
            &&& forall|i: int|
                0 <= i < r.len() - 1 && white_char(#[trigger] r[i]) ==> !white_char(r[i + 1])
        }),
    decreases s.len(),
{
    if s.len() > 0 {
        values_take_one_line(s.drop_last());
        let head = one_line(s.drop_last());
        let r = one_line(s);
        assert forall|i: int| 0 <= i < r.len() && white_char(#[trigger] r[i]) implies r[i] == ' ' by {
            if i < head.len() {
                assert(r[i] == head[i]);
            }
        }
        assert forall|i: int| 0 <= i < r.len() - 1 && white_char(#[trigger] r[i]) implies !white_char(
            r[i + 1],
        ) by {
            if i < head.len() {
                assert(r[i] == head[i]);
                if i + 1 < head.len() {
                    assert(r[i + 1] == head[i + 1]);
                } else {
                    assert(!white_char(head[head.len() - 1]));
                }
            }
        }
    }
}

// --------------------------------------------------------------------- machine

/// The name of the shell, by the variable `SHELL`: one that is known, else bash.
pub open spec fn shell_called(variable: Option<Seq<char>>) -> Seq<char> {
    match variable {
        Some(shell) if trimmed(shell).len() > 0 => match file_name_text(shell) {
            Some(name) => if name == "bash"@ || name == "zsh"@ {
                name
            } else {
                "bash"@
            },
            None => "bash"@,
        },
        _ => "bash"@,
    }
}

/// The name of the shell, by the variable `SHELL`.
pub fn local_shell_name(variable: &Option<String>) -> (r: String)
    ensures
        r@ == shell_called(option_text(*variable)),
{
    if let Some(shell) = variable {
        if !is_blank(shell) {
            if let Some(name) = file_name(shell) {
                if str_eq(&name, "bash") || str_eq(&name, "zsh") {
                    return name;
                }
            }
        }
    }
    "bash".to_owned()
}

/// The name of a Linux system, with the version of WSL that it runs in.
pub open spec fn linux_name(pretty_name: Seq<char>, kernel: Option<Seq<char>>) -> Seq<char> {
    match kernel {
        Some(release) if release.len() > 0 => {
            let normalized = ascii_lowercase_text(release);
            if occurs(normalized, "wsl2"@) {
                pretty_name + " ("@ + "WSL2"@ + ", Linux "@ + release + ")"@
            } else if occurs(normalized, "microsoft"@) {
                pretty_name + " ("@ + "WSL1"@ + ", Linux "@ + release + ")"@
            } else {
                pretty_name
            }
        },
        _ => pretty_name,
    }
}

/// The name of a Linux system, with the version of WSL that it runs in.
pub fn format_linux_operating_system(pretty_name: &str, kernel_release: &Option<String>) -> (r: String)
    ensures
        r@ == linux_name(pretty_name@, option_text(*kernel_release)),
{
    let release = match kernel_release {
        Some(release) => release,
        None => return pretty_name.to_owned(),
    };
    if release.unicode_len() == 0 {
        return pretty_name.to_owned();
    }
    let normalized = to_ascii_lowercase(release);
    let wsl = if contains_text(&normalized, "wsl2") {
        "WSL2"
    } else if contains_text(&normalized, "microsoft") {
        "WSL1"
    } else {
        return pretty_name.to_owned();
    };
    let mut t = pretty_name.to_owned();
    t.push_str(" (");
    t.push_str(wsl);
    t.push_str(", Linux ");
    t.push_str(release);
    t.push_str(")");
    t
}

/// A value without the quotes around it, where it has both.
pub open spec fn unquoted(s: Seq<char>) -> Seq<char> {
    if s.len() >= 2 && s[0] == '"' && s.last() == '"' {
        s.subrange(1, s.len() - 1)
    } else {
        s
    }
}

/// The name of the system on a line of a release file, where the line gives one.
pub open spec fn pretty_name_on(line: Seq<char>) -> Option<Seq<char>> {
    if "PRETTY_NAME="@.is_prefix_of(line) {
        let value = unquoted(trimmed(line.skip("PRETTY_NAME="@.len() as int)));
        if value.len() > 0 {
            Some(value)
        } else {
            None
        }
    } else {
        None
    }
}

/// The name of the system in a release file: the one that is given first.
pub open spec fn pretty_name_in(lines: Seq<Seq<char>>) -> Option<Seq<char>>
    decreases lines.len(),
{
    if lines.len() == 0 {
        None
    } else if pretty_name_in(lines.drop_last()) is Some {
        pretty_name_in(lines.drop_last())
    } else {
        pretty_name_on(lines.last())
    }
}

fn read_pretty_name(line: &str) -> (r: Option<String>)
    ensures
        option_text(r) == pretty_name_on(line@),
{
    let rest = match strip_prefix(line, "PRETTY_NAME=") {
        Some(rest) => rest,
        None => return None,
    };
    let value = trim(&rest);
    let chars = chars_of(&value);
    let name = if chars.len() >= 2 && chars[0] == '"' && chars[chars.len() - 1] == '"' {
        text_range(&chars, 1, chars.len() - 1)
    } else {
        value
    };
    if name.unicode_len() > 0 {
        Some(name)
    } else {
        None
    }
}

/// The name of this Linux system, from the text of its release file and that of
/// its kernel's version, as far as they can be read.
pub open spec fn linux_system(release: Option<Seq<char>>, kernel: Option<Seq<char>>) -> Option<
    Seq<char>,
> {
    match release {
        Some(text) => match pretty_name_in(pieces(text, '\n')) {
            Some(name) => Some(
                linux_name(
                    name,
                    match kernel {
                        Some(k) => Some(one_line(k)),
                        None => None,
                    },
                ),
            ),
            None => None,
        },
        None => None,
    }
}

/// The name of this Linux system, from the text of its release file and that of
/// its kernel's version, as far as they can be read.
pub fn linux_pretty_name(os_release: &Option<String>, kernel_release: &Option<String>) -> (r: Option<
    String,
>)
    ensures
        option_text(r) == linux_system(option_text(*os_release), option_text(*kernel_release)),
{
    let text = match os_release {
        Some(text) => text,
        None => return None,
    };
    let lines = split_on(text, '\n');
    let ghost all = crate::text::texts(lines@);
    let mut i: usize = 0;
    assert(all.take(0) =~= Seq::empty());
    while i < lines.len()
        invariant
            i <= lines.len(),
            all == crate::text::texts(lines@),
            all == pieces(text@, '\n'),
            *os_release == Some(*text),
            pretty_name_in(all.take(i as int)) is None,
        decreases lines.len() - i,
    {
        assert(all.take(i + 1).drop_last() =~= all.take(i as int));
        assert(all.take(i + 1).last() == lines@[i as int]@);
        if let Some(name) = read_pretty_name(&lines[i]) {
            proof {
                lemma_name_found(all, i + 1);
            }
            let kernel = match kernel_release {
                Some(k) => Some(sanitize_value(k)),
                None => None,
            };
            return Some(format_linux_operating_system(&name, &kernel));
        }
        i += 1;
    }
    assert(all.take(i as int) =~= all);
    None
}

proof fn lemma_name_found(lines: Seq<Seq<char>>, k: int)
    requires
        0 <= k <= lines.len(),
        pretty_name_in(lines.take(k)) is Some,
    ensures
        pretty_name_in(lines) == pretty_name_in(lines.take(k)),
    decreases lines.len(),
{
    if k < lines.len() {
        assert(lines.drop_last().take(k) =~= lines.take(k));
        lemma_name_found(lines.drop_last(), k);
    } else {
        assert(lines.take(k) =~= lines);
    }
}

/// What is known of the system that this process runs on.
#[derive(Debug)]
pub struct HostFacts {
    /// What the system is called when the process is built.
    pub os: String,
    /// The text of `/etc/os-release`.
    pub os_release: Option<String>,
    /// The text of `/proc/sys/kernel/osrelease`.
    pub kernel_release: Option<String>,
    /// What `sw_vers` printed, or `ver`.
    pub version_output: Option<String>,
}

/// What a command printed of the version, where it printed something.
pub open spec fn version_text(output: Option<Seq<char>>) -> Option<Seq<char>> {
    match output {
        Some(o) if one_line(o).len() > 0 => Some(one_line(o)),
        _ => None,
    }
}

/// What a command printed of the version, where it printed something.
pub fn command_version(output: &Option<String>) -> (r: Option<String>)
    ensures
        option_text(r) == version_text(option_text(*output)),
{
    match output {
        Some(o) => {
            let value = sanitize_value(o);
            if value.unicode_len() > 0 {
                Some(value)
            } else {
                None
            }
        },
        None => None,
    }
}

/// The name of the system that this process runs on.
pub open spec fn system_name(host: HostFacts) -> Seq<char> {
    if host.os@ == "linux"@ {
        match linux_system(option_text(host.os_release), option_text(host.kernel_release)) {
            Some(name) => name,
            None => "Linux"@,
        }
    } else if host.os@ == "macos"@ {
        match version_text(option_text(host.version_output)) {
            Some(version) => "macOS "@ + version,
            None => "macOS"@,
        }
    } else if host.os@ == "windows"@ {
        match version_text(option_text(host.version_output)) {
            Some(version) => version,
            None => "Windows"@,
        }
    } else {
        host.os@
    }
}

/// The name of the system that this process runs on.
pub fn local_operating_system(host: &HostFacts) -> (r: String)
    ensures
        r@ == system_name(*host),
{
    if str_eq(&host.os, "linux") {
        match linux_pretty_name(&host.os_release, &host.kernel_release) {
            Some(name) => name,
            None => "Linux".to_owned(),
        }
    } else if str_eq(&host.os, "macos") {
        match command_version(&host.version_output) {
            Some(version) => {
                let mut t = "macOS ".to_owned();
                t.push_str(&version);
                t
            },
            None => "macOS".to_owned(),
        }
    } else if str_eq(&host.os, "windows") {
        match command_version(&host.version_output) {
            Some(version) => version,
            None => "Windows".to_owned(),
        }
    } else {
        host.os.clone()
    }
}

// ---------------------------------------------------------------------- source

/// Where the tools of an agent work.
#[derive(Debug)]
pub struct EnvironmentContextSource {
    pub operating_system: String,
    pub shell: String,
    pub local_shell_enabled: Option<bool>,
    pub current_directory: String,
}

pub struct SourceView {
    pub operating_system: Seq<char>,
    pub shell: Seq<char>,
    pub local_shell_enabled: Option<bool>,
    pub current_directory: Seq<char>,
}

impl View for EnvironmentContextSource {
    type V = SourceView;

    open spec fn view(&self) -> SourceView {
        SourceView {
            operating_system: self.operating_system@,
            shell: self.shell@,
            local_shell_enabled: self.local_shell_enabled,
            current_directory: self.current_directory@,
        }
    }
}

pub open spec fn local_source(host_dir: Seq<char>, shell_enabled: bool, host: HostFacts) -> SourceView {
    SourceView {
        operating_system: system_name(host),
        shell: if shell_enabled {
            Seq::empty()
        } else {
            "unavailable (shell execution disabled)"@
        },
        local_shell_enabled: Some(shell_enabled),
        current_directory: host_dir,
    }
}

/// Where the tools of an agent work, as they see it: in a container, the
/// container.
pub open spec fn source_of(config: SandboxView, host: HostFacts) -> SourceView {
    match config {
        SandboxView::Docker(d) => SourceView {
            operating_system: "Linux (Docker image: "@ + d.image + ")"@,
            shell: "bash"@,
            local_shell_enabled: None,
            current_directory: d.container_dir,
        },
        SandboxView::NoSandbox(dir) => local_source(dir, true, host),
        SandboxView::Disabled(dir) => local_source(dir, false, host),
    }
}

impl EnvironmentContextSource {
    /// The tools work on this machine.
    pub fn local(host_dir: &str, shell_enabled: bool, host: &HostFacts) -> (r:
        EnvironmentContextSource)
        ensures
            r@ == local_source(host_dir@, shell_enabled, *host),
    {
        let shell = if shell_enabled {
            String::new()
        } else {
            "unavailable (shell execution disabled)".to_owned()
        };
        assert(shell_enabled ==> shell@ =~= Seq::<char>::empty());
        EnvironmentContextSource {
            operating_system: local_operating_system(host),
            shell,
            local_shell_enabled: Some(shell_enabled),
            current_directory: host_dir.to_owned(),
        }
    }

    /// Where the tools of an agent in the given sandbox work.
    pub fn from_sandbox_config(config: &SandboxConfig, host: &HostFacts) -> (r:
        EnvironmentContextSource)
        ensures
            r@ == source_of(config@, *host),
    {
        match config {
            SandboxConfig::Docker(d) => {
                let mut os = "Linux (Docker image: ".to_owned();
                os.push_str(&d.image);
                os.push_str(")");
                EnvironmentContextSource {
                    operating_system: os,
                    shell: "bash".to_owned(),
                    local_shell_enabled: None,
                    current_directory: d.container_dir.clone(),
                }
            },
            SandboxConfig::NoSandbox { host_dir } => EnvironmentContextSource::local(
                host_dir,
                true,
                host,
            ),
            SandboxConfig::Disabled { host_dir } => EnvironmentContextSource::local(
                host_dir,
                false,
                host,
            ),
        }
    }

    /// What is kept of the machine, with the variable `SHELL` as it is now.
    pub fn capture(&self, shell_variable: &Option<String>) -> (r: EnvironmentContext)
        ensures
            r@ == captured(self@, option_text(*shell_variable)),
    {
        let shell = match self.local_shell_enabled {
            Some(true) => local_shell_name(shell_variable),
            _ => self.shell.clone(),
        };
        EnvironmentContext {
            version: ENVIRONMENT_CONTEXT_VERSION,
            operating_system: sanitize_value(&self.operating_system),
            shell: sanitize_value(&shell),
            current_directory: sanitize_value(&self.current_directory),
        }
    }
}

// --------------------------------------------------------------------- context

/// What is kept of the machine.
#[derive(Debug, Clone, PartialEq, Eq)]
pub struct EnvironmentContext {
    pub version: u64,
    pub operating_system: String,
    pub shell: String,
    pub current_directory: String,
}

pub struct ContextView {
    pub version: u64,
    pub operating_system: Seq<char>,
    pub shell: Seq<char>,
    pub current_directory: Seq<char>,
}

impl View for EnvironmentContext {
    type V = ContextView;

    open spec fn view(&self) -> ContextView {
        ContextView {
            version: self.version,
            operating_system: self.operating_system@,
            shell: self.shell@,
            current_directory: self.current_directory@,
        }
    }
}

pub open spec fn captured(source: SourceView, shell_variable: Option<Seq<char>>) -> ContextView {
    let shell = if source.local_shell_enabled == Some(true) {
        shell_called(shell_variable)
    } else {
        source.shell
    };
    ContextView {
        version: ENVIRONMENT_CONTEXT_VERSION,
        operating_system: one_line(source.operating_system),
        shell: one_line(shell),
        current_directory: one_line(source.current_directory),
    }
}

/// What the model is told.
pub open spec fn context_prompt(context: ContextView) -> Seq<char> {
    "## Environment Context\n\n- Operating system: "@ + context.operating_system + "\n- Shell: "@
        + context.shell + "\n- Current directory: "@ + context.current_directory
}

/// What the model is told.
pub fn render_environment_context(context: &EnvironmentContext) -> (r: String)
    ensures
        r@ == context_prompt(context@),
{
    let mut t = "## Environment Context\n\n- Operating system: ".to_owned();
    t.push_str(&context.operating_system);
    t.push_str("\n- Shell: ");
    t.push_str(&context.shell);
    t.push_str("\n- Current directory: ");
    t.push_str(&context.current_directory);
    t
}

/// How what is known of the machine is kept.
pub open spec fn context_value(context: ContextView) -> JsonView {
    JsonView::Object(
        no_fields().push(
            ("version"@, JsonView::Number(NumberView::Unsigned(context.version))),
        ).push(("operating_system"@, JsonView::Text(context.operating_system))).push(
            ("shell"@, JsonView::Text(context.shell)),
        ).push(("current_directory"@, JsonView::Text(context.current_directory))),
    )
}

/// What is kept of the machine in these values, where each is what it should be
/// and the version is the present one.
pub open spec fn context_of(
    version: Option<JsonView>,
    operating_system: Option<JsonView>,
    shell: Option<JsonView>,
    current_directory: Option<JsonView>,
) -> Option<ContextView> {
    match (version, operating_system, shell, current_directory) {
        (
            Some(JsonView::Number(NumberView::Unsigned(version))),
            Some(JsonView::Text(operating_system)),
            Some(JsonView::Text(shell)),
            Some(JsonView::Text(current_directory)),
        ) => if version == ENVIRONMENT_CONTEXT_VERSION {
            Some(ContextView { version, operating_system, shell, current_directory })
        } else {
            None
        },
        _ => None,
    }
}

/// What is kept of the machine: an object, or a list of its fields in order.
pub open spec fn context_in(value: JsonView) -> Option<ContextView> {
    match value {
        JsonView::Object(fields) => context_of(
            field(fields, "version"@),
            field(fields, "operating_system"@),
            field(fields, "shell"@),
            field(fields, "current_directory"@),
        ),
        JsonView::Array(items) => if items.len() == 4 {
            context_of(Some(items[0]), Some(items[1]), Some(items[2]), Some(items[3]))
        } else {
            None
        },
        _ => None,
    }
}

/// What is kept of the machine in a state.
pub open spec fn kept_context(state: JsonView) -> Option<ContextView> {
    match state {
        JsonView::Object(fields) => match field(fields, ENVIRONMENT_CONTEXT_STATE_KEY@) {
            Some(value) => context_in(value),
            None => None,
        },
        _ => None,
    }
}

pub open spec fn optional_view(value: Option<&JsonValue>) -> Option<JsonView> {
    match value {
        Some(v) => Some(v@),
        None => None,
    }
}

fn make_context(
    version: Option<&JsonValue>,
    operating_system: Option<&JsonValue>,
    shell: Option<&JsonValue>,
    current_directory: Option<&JsonValue>,
) -> (r: Option<EnvironmentContext>)
    ensures
        context_of(
            optional_view(version),
            optional_view(operating_system),
            optional_view(shell),
            optional_view(current_directory),
        ) == (match r {
            Some(context) => Some(context@),
            None => None,
        }),
{
    match (version, operating_system, shell, current_directory) {
        (
            Some(JsonValue::Number(JsonNumber::Unsigned(n))),
            Some(JsonValue::Text(system)),
            Some(JsonValue::Text(shell)),
            Some(JsonValue::Text(directory)),
        ) => if *n == ENVIRONMENT_CONTEXT_VERSION {
            Some(
                EnvironmentContext {
                    version: *n,
                    operating_system: system.clone(),
                    shell: shell.clone(),
                    current_directory: directory.clone(),
                },
            )
        } else {
            None
        },
        _ => None,
    }
}

fn read_context(value: &JsonValue) -> (r: Option<EnvironmentContext>)
    ensures
        match r {
            Some(context) => context_in(value@) == Some(context@),
            None => context_in(value@) is None,
        },
{
    match value {
        JsonValue::Object(map) => make_context(
            map.get("version"),
            map.get("operating_system"),
            map.get("shell"),
            map.get("current_directory"),
        ),
        JsonValue::Array(items) => if items.len() == 4 {
            make_context(Some(&items[0]), Some(&items[1]), Some(&items[2]), Some(&items[3]))
        } else {
            None
        },
        _ => None,
    }
}

fn write_context(context: &EnvironmentContext) -> (r: JsonValue)
    ensures
        r@ == context_value(context@),
{
    JsonValue::object(
        JsonMap::new().with("version", JsonValue::unsigned(context.version)).with(
            "operating_system",
            JsonValue::text(&context.operating_system),
        ).with("shell", JsonValue::text(&context.shell)).with(
            "current_directory",
            JsonValue::text(&context.current_directory),
        ),
    )
}

/// What the model is told of the machine, and whether that is new.
#[derive(Debug, Clone, PartialEq, Eq)]
pub struct EnsuredEnvironmentContext {
    pub prompt: String,
    pub initialized: bool,
}

/// The fields of a state.
pub open spec fn state_fields(state: JsonView) -> Seq<(Seq<char>, JsonView)> {
    match state {
        JsonView::Object(fields) => fields,
        _ => no_fields(),
    }
}

/// The state with what is known of the machine in it.
pub open spec fn with_context(state: JsonView, context: ContextView) -> JsonView {
    JsonView::Object(
        with_field(state_fields(state), ENVIRONMENT_CONTEXT_STATE_KEY@, context_value(context)),
    )
}

/// What the model is told of the machine: what was kept, else what is found
/// now, which is then kept.
pub fn ensure_environment_context(
    user_state: &mut JsonValue,
    source: &EnvironmentContextSource,
    shell_variable: &Option<String>,
) -> (r: EnsuredEnvironmentContext)
    ensures
        match kept_context(old(user_state)@) {
            Some(context) => {
                &&& !r.initialized
                &&& r.prompt@ == context_prompt(context)
                &&& final(user_state)@ == old(user_state)@
            },
            None => {
                let context = captured(source@, option_text(*shell_variable));
                &&& r.initialized
                &&& r.prompt@ == context_prompt(context)
                &&& final(user_state)@ == with_context(old(user_state)@, context)
            },
        },
{
    if let JsonValue::Object(map) = &*user_state {
        if let Some(value) = map.get(ENVIRONMENT_CONTEXT_STATE_KEY) {
            if let Some(context) = read_context(value) {
                return EnsuredEnvironmentContext {
                    prompt: render_environment_context(&context),
                    initialized: false,
                };
            }
        }
    }
    let context = source.capture(shell_variable);
    let mut map = match &*user_state {
        JsonValue::Object(map) => map.copy(),
        _ => JsonMap::new(),
    };
    map.insert(ENVIRONMENT_CONTEXT_STATE_KEY, write_context(&context));
    *user_state = JsonValue::object(map);
    EnsuredEnvironmentContext {
        prompt: render_environment_context(&context),
        initialized: true,
    }
}

/// Puts what the model is told of the machine into a history.
pub fn insert_environment_context_prompt(
    history: &mut Vec<Message>,
    insertion_index: usize,
    prompt: &str,
)
    ensures
        message_views(final(history)@) == with_system_at(
            message_views(old(history)@),
            insertion_index as int,
            prompt@,
        ),
{
    insert_system(history, insertion_index, prompt);
}

/// The state without what was kept of the machine.
pub open spec fn without_context(state: JsonView) -> JsonView {
    match state {
        JsonView::Object(fields) => JsonView::Object(
            without_field(fields, ENVIRONMENT_CONTEXT_STATE_KEY@),
        ),
        _ => state,
    }
}

/// Forgets what was kept of the machine.
pub fn remove_environment_context(user_state: &mut JsonValue)
    ensures
        final(user_state)@ == without_context(old(user_state)@),
{
    if let JsonValue::Object(map) = &*user_state {
        let mut map = map.copy();
        map.remove(ENVIRONMENT_CONTEXT_STATE_KEY);
        *user_state = JsonValue::object(map);
    }
}

// ------------------------------------------------------------------------ laws

proof fn lemma_written_is_read(context: ContextView)
    requires
        context.version == ENVIRONMENT_CONTEXT_VERSION,
    ensures
        context_in(context_value(context)) == Some(context),
{
    reveal_strlit("version");
    reveal_strlit("operating_system");
    reveal_strlit("shell");
    reveal_strlit("current_directory");
    assert("version"@.len() == 7);
    assert("operating_system"@.len() == 16);
    assert("shell"@.len() == 5);
    assert("current_directory"@.len() == 17);
    let version = ("version"@, JsonView::Number(NumberView::Unsigned(context.version)));
    let system = ("operating_system"@, JsonView::Text(context.operating_system));
    let shell = ("shell"@, JsonView::Text(context.shell));
    let directory = ("current_directory"@, JsonView::Text(context.current_directory));
    let a = no_fields().push(version);
    let b = a.push(system);
    let c = b.push(shell);
    assert forall|key: Seq<char>| #[trigger]
        field(c.push(directory), key) == (if key == version.0 {
            Some(version.1)
        } else if key == system.0 {
            Some(system.1)
        } else if key == shell.0 {
            Some(shell.1)
        } else if key == directory.0 {
            Some(directory.1)
        } else {
            None
        }) by {
        lemma_field_push(no_fields(), version, key);
        lemma_field_push(a, system, key);
        lemma_field_push(b, shell, key);
        lemma_field_push(c, directory, key);
    }
}

/// What a model is told of the machine is found once and then stays: asking
/// again finds what was kept, whatever has changed.
pub proof fn the_environment_is_frozen(
    state: JsonView,
    source: SourceView,
    shell_variable: Option<Seq<char>>,
)
    ensures
        kept_context(with_context(state, captured(source, shell_variable))) == Some(
            captured(source, shell_variable),
        ),
{
    let context = captured(source, shell_variable);
    lemma_written_is_read(context);
    crate::json::set_field_is_read_back(
        state_fields(state),
        ENVIRONMENT_CONTEXT_STATE_KEY@,
        context_value(context),
        ENVIRONMENT_CONTEXT_STATE_KEY@,
    );
}

/// What was kept can be forgotten: then it is found anew.
pub proof fn a_forgotten_environment_is_found_anew(state: JsonView)
    ensures
        kept_context(without_context(state)) is None,
{
    if let JsonView::Object(fields) = state {
        crate::json::removed_field_is_gone(
            fields,
            ENVIRONMENT_CONTEXT_STATE_KEY@,
            ENVIRONMENT_CONTEXT_STATE_KEY@,
        );
    }
}

/// Putting a value on one line changes its white space only.
pub proof fn one_line_keeps_the_words(s: Seq<char>)
    ensures
        one_line(s).filter(|c: char| !white_char(c)) == s.filter(|c: char| !white_char(c)),
    decreases s.len(),
{
    let dark = |c: char| !white_char(c);
    if s.len() > 0 {
        one_line_keeps_the_words(s.drop_last());
        lemma_filter_last(s, dark);
        let head = one_line(s.drop_last());
        let r = one_line(s);
        if !white_char(s.last()) {
            lemma_filter_last(r, dark);
            if head.len() > 0 && s.len() > 1 && white_char(s[s.len() - 2]) {
                assert(r.drop_last() =~= head.push(' '));
                lemma_filter_last(head.push(' '), dark);
                assert(head.push(' ').drop_last() =~= head);
                assert(white_char(' '));
            } else {
                assert(r.drop_last() =~= head);
            }
        }
    }
}

/// The agent is told the system, the shell and the directory that were found.
pub proof fn an_agent_is_told_where_it_runs(context: ContextView)
    ensures
        occurs(context_prompt(context), context.operating_system),
        occurs(context_prompt(context), context.shell),
        context.current_directory.is_suffix_of(context_prompt(context)),
{
    let p = context_prompt(context);
    let a = "## Environment Context\n\n- Operating system: "@;
    let b = a + context.operating_system;
    let c = b + "\n- Shell: "@ + context.shell;
    let dir = context.current_directory;
    lemma_occurs_in_both(a, context.operating_system, context.operating_system);
    lemma_occurs_in_both(b, "\n- Shell: "@, context.operating_system);
    lemma_occurs_in_both(b + "\n- Shell: "@, context.shell, context.operating_system);
    lemma_occurs_in_both(b + "\n- Shell: "@, context.shell, context.shell);
    lemma_occurs_in_both(c, "\n- Current directory: "@, context.operating_system);
    lemma_occurs_in_both(c, "\n- Current directory: "@, context.shell);
    lemma_occurs_in_both(c + "\n- Current directory: "@, dir, context.operating_system);
    lemma_occurs_in_both(c + "\n- Current directory: "@, dir, context.shell);
    assert(dir =~= p.subrange(p.len() - dir.len(), p.len() as int));
}

/// In a container the agent is told of the container and of its directory; elsewhere
/// of the machine, and of the shell where commands can be run.
pub proof fn agents_are_told_of_their_own_place(
    config: SandboxView,
    host: HostFacts,
    shell_variable: Option<Seq<char>>,
)
    ensures
        ({
            let s = source_of(config, host);
            let c = captured(s, shell_variable);
            &&& config matches SandboxView::Docker(d) ==> s.current_directory == d.container_dir
                && occurs(s.operating_system, d.image) && c.shell == one_line("bash"@)
            &&& config matches SandboxView::NoSandbox(dir) ==> s.current_directory == dir
                && s.operating_system == system_name(host) && c.shell == one_line(
                shell_called(shell_variable),
            )
            &&& config matches SandboxView::Disabled(dir) ==> s.current_directory == dir
                && s.operating_system == system_name(host) && c.shell == one_line(
                "unavailable (shell execution disabled)"@,
            )
            &&& c.current_directory == one_line(s.current_directory)
            &&& c.operating_system == one_line(s.operating_system)
        }),
{
    if config is Docker {
        let i = config->Docker_0.image;
        lemma_occurs_in_both("Linux (Docker image: "@, i, i);
        lemma_occurs_in_both("Linux (Docker image: "@ + i, ")"@, i);
    }
}

/// The system is called what its release file says, where it is a Linux that says so.
pub proof fn systems_are_called_by_their_name(host: HostFacts)
    ensures
        host.os@ == "linux"@ ==> system_name(host) == (match linux_system(
            option_text(host.os_release),
            option_text(host.kernel_release),
        ) {
            Some(name) => name,
            None => "Linux"@,
        }),
        host.os@ == "macos"@ ==> "macOS"@.is_prefix_of(system_name(host)),
        host.os@ != "linux"@ && host.os@ != "macos"@ && host.os@ != "windows"@ ==> system_name(host)
            == host.os@,
{
    reveal_strlit("linux");
    reveal_strlit("macos");
    reveal_strlit("macOS");
    reveal_strlit("macOS ");
    assert("linux"@[0] != "macos"@[0]);
    if host.os@ == "macos"@ {
        assert("macOS"@ =~= system_name(host).subrange(0, 5));
    }
}

/// The first line that gives a name gives the name; a machine within Windows is told
/// of with its kernel.
pub proof fn the_first_name_counts(lines: Seq<Seq<char>>, k: int)
    requires
        0 <= k < lines.len(),
        pretty_name_on(lines[k]) is Some,
        forall|j: int| 0 <= j < k ==> pretty_name_on(#[trigger] lines[j]) is None,
    ensures
        pretty_name_in(lines) == pretty_name_on(lines[k]),
    decreases lines.len(),
{
    let head = lines.drop_last();
    if k < lines.len() - 1 {
        assert(head[k] == lines[k]);
        assert forall|j: int| 0 <= j < k implies pretty_name_on(#[trigger] head[j]) is None by {
            assert(head[j] == lines[j]);
        }
        the_first_name_counts(head, k);
    } else {
        lemma_no_name(head);
    }
}

proof fn lemma_no_name(lines: Seq<Seq<char>>)
    requires
        forall|j: int| 0 <= j < lines.len() ==> pretty_name_on(#[trigger] lines[j]) is None,
    ensures
        pretty_name_in(lines) is None,
    decreases lines.len(),
{
    if lines.len() > 0 {
        let head = lines.drop_last();
        assert forall|j: int| 0 <= j < head.len() implies pretty_name_on(#[trigger] head[j])
            is None by {
            assert(head[j] == lines[j]);
        }
        assert(pretty_name_on(lines[lines.len() - 1]) is None);
        lemma_no_name(head);
    }
}

/// A Linux is called by its name; one within Windows also by its kernel. A system that
/// tells its version is called by it.
pub proof fn systems_tell_their_version(
    pretty_name: Seq<char>,
    kernel: Option<Seq<char>>,
    host: HostFacts,
)
    ensures
        pretty_name.is_prefix_of(linux_name(pretty_name, kernel)),
        kernel matches Some(k) ==> k.len() > 0 && (occurs(ascii_lowercase_text(k), "wsl2"@)
            || occurs(ascii_lowercase_text(k), "microsoft"@)) ==> occurs(
            linux_name(pretty_name, kernel),
            k,
        ),
        kernel is None ==> linux_name(pretty_name, kernel) == pretty_name,
        host.os@ == "windows"@ && version_text(option_text(host.version_output)) is Some
            ==> system_name(host) == version_text(option_text(host.version_output))->0,
        host.os@ == "macos"@ && version_text(option_text(host.version_output)) is Some
            ==> version_text(option_text(host.version_output))->0.is_suffix_of(system_name(host)),
        host.version_output matches Some(o) ==> one_line(o@).len() > 0 ==> version_text(
            option_text(host.version_output),
        ) == Some(one_line(o@)),
{
    reveal_strlit("linux");
    reveal_strlit("macos");
    reveal_strlit("windows");
    assert("linux"@[0] != "macos"@[0] && "linux"@.len() != "windows"@.len());
    assert("macos"@.len() != "windows"@.len());
    let n = linux_name(pretty_name, kernel);
    assert(pretty_name =~= n.subrange(0, pretty_name.len() as int));
    if kernel is Some {
        let k = kernel->0;
        let a = pretty_name + " ("@ + "WSL2"@ + ", Linux "@;
        let b = pretty_name + " ("@ + "WSL1"@ + ", Linux "@;
        lemma_occurs_in_both(a, k, k);
        lemma_occurs_in_both(a + k, ")"@, k);
        lemma_occurs_in_both(b, k, k);
        lemma_occurs_in_both(b + k, ")"@, k);
    }
    if host.os@ == "macos"@ && version_text(option_text(host.version_output)) is Some {
        let v = version_text(option_text(host.version_output))->0;
        let s = system_name(host);
        assert(v =~= s.subrange(s.len() - v.len(), s.len() as int));
    }
}

/// A value between quotes is read without them.
pub proof fn quotes_are_taken_off(s: Seq<char>)
    ensures
        unquoted(seq!['"'] + s + seq!['"']) == s,
        s.len() > 0 && s[0] != '"' ==> unquoted(s) == s,
        s.len() > 0 && s.last() != '"' ==> unquoted(s) == s,
{
    assert(unquoted(seq!['"'] + s + seq!['"']) =~= s);
}

/// The shell is called by its own name where it is one that is known.
pub proof fn known_shells_are_called_by_name(shell: Seq<char>)
    ensures
        trimmed(shell).len() > 0 && file_name_text(shell) == Some("zsh"@) ==> shell_called(
            Some(shell),
        ) == "zsh"@,
        shell_called(None) == "bash"@,
        shell_called(Some(shell)) == "bash"@ || shell_called(Some(shell)) == "zsh"@,
{
}

/// What was written by another version is not read.
pub proof fn other_versions_are_not_read(context: ContextView)
    ensures
        context.version != ENVIRONMENT_CONTEXT_VERSION ==> context_in(context_value(context)) is None,
        context.version == ENVIRONMENT_CONTEXT_VERSION ==> context_in(context_value(context))
            == Some(context),
{
    reveal_strlit("version");
    reveal_strlit("operating_system");
    reveal_strlit("shell");
    reveal_strlit("current_directory");
    let f = context_value(context)->Object_0;
    assert(f[0].0 == "version"@ && f[0].0.len() == 7);
    assert(f[1].0 == "operating_system"@ && f[1].0.len() == 16);
    assert(f[2].0 == "shell"@ && f[2].0.len() == 5);
    assert(f[3].0 == "current_directory"@ && f[3].0.len() == 17);
    fields_are_read_back(f, 0);
    fields_are_read_back(f, 1);
    fields_are_read_back(f, 2);
    fields_are_read_back(f, 3);
}

/// A line gives a name where it says so and the name is more than nothing.
pub proof fn names_are_given_by_their_line(value: Seq<char>, line: Seq<char>)
    ensures
        unquoted(trimmed(value)).len() > 0 ==> pretty_name_on("PRETTY_NAME="@ + value) == Some(
            unquoted(trimmed(value)),
        ),
        unquoted(trimmed(value)).len() == 0 ==> pretty_name_on("PRETTY_NAME="@ + value) is None,
        !"PRETTY_NAME="@.is_prefix_of(line) ==> pretty_name_on(line) is None,
{
    let key = "PRETTY_NAME="@;
    let all = key + value;
    assert(key =~= all.subrange(0, key.len() as int));
    assert(all.skip(key.len() as int) =~= value);
}

} // verus!
