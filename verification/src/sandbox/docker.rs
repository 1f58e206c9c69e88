//! How a container is brought up and used.
use vstd::prelude::*;
use vstd::string::*;

use crate::message::option_text;
use crate::sandbox::config::{DockerSandboxConfig, DockerView, SandboxError, SandboxErrorView};
use crate::sandbox::shell::{shell_startup_script, startup_of};
use crate::text::{str_eq, texts, trim, trimmed};

verus! {

broadcast use vstd::string::group_string_axioms;

// ------------------------------------------------------------------- arguments

pub open spec fn inspect_args(config: DockerView) -> Seq<Seq<char>> {
    Seq::empty().push("inspect"@).push("-f"@).push("{{.State.Running}}"@).push(
        config.container_name,
    )
}

pub open spec fn start_args(config: DockerView) -> Seq<Seq<char>> {
    Seq::empty().push("start"@).push(config.container_name)
}

/// `args`, followed by the user that a command runs as where one is set.
pub open spec fn as_user(args: Seq<Seq<char>>, config: DockerView) -> Seq<Seq<char>> {
    match config.user {
        Some(user) => args.push("-u"@).push(user),
        None => args,
    }
}

/// A container that sleeps, with the directory of this machine in the place of
/// the workspace.
pub open spec fn run_args(config: DockerView, host_dir: Seq<char>) -> Seq<Seq<char>> {
    as_user(
        Seq::empty().push("run"@).push("-d"@).push("--name"@).push(config.container_name),
        config,
    ).push("-v"@).push(host_dir + ":"@ + config.container_dir).push("-w"@).push(
        config.container_dir,
    ).push(config.image).push("sleep"@).push("infinity"@)
}

/// One command in the container.
pub open spec fn exec_args(config: DockerView, command: Seq<char>) -> Seq<Seq<char>> {
    as_user(Seq::empty().push("exec"@).push("-w"@).push(config.container_dir), config).push(
        config.container_name,
    ).push("bash"@).push("-l"@).push("-c"@).push(startup_of("bash"@) + "\n"@ + command)
}

/// A shell that stays open in the container.
pub open spec fn open_args(config: DockerView) -> Seq<Seq<char>> {
    as_user(
        Seq::empty().push("exec"@).push("-i"@).push("-w"@).push(config.container_dir),
        config,
    ).push(config.container_name).push("bash"@).push("-l"@).push("-c"@).push(
        "exec 2>&1; exec bash -l"@,
    )
}

fn push_arg(args: &mut Vec<String>, arg: &str)
    ensures
        texts(final(args)@) == texts(old(args)@).push(arg@),
{
    let ghost before = texts(args@);
    args.push(arg.to_owned());
    assert(texts(args@) =~= before.push(arg@));
}

fn no_args() -> (r: Vec<String>)
    ensures
        texts(r@) == Seq::<Seq<char>>::empty(),
{
    let r: Vec<String> = Vec::new();
    assert(texts(r@) =~= Seq::<Seq<char>>::empty());
    r
}

impl DockerSandboxConfig {
    pub fn inspect_args(&self) -> (r: Vec<String>)
        ensures
            texts(r@) == inspect_args(self@),
    {
        let mut args = no_args();
        push_arg(&mut args, "inspect");
        push_arg(&mut args, "-f");
        push_arg(&mut args, "{{.State.Running}}");
        push_arg(&mut args, &self.container_name);
        args
    }

    pub fn start_args(&self) -> (r: Vec<String>)
        ensures
            texts(r@) == start_args(self@),
    {
        let mut args = no_args();
        push_arg(&mut args, "start");
        push_arg(&mut args, &self.container_name);
        args
    }

    fn push_user(&self, args: &mut Vec<String>)
        ensures
            texts(final(args)@) == as_user(texts(old(args)@), self@),
    {
        match &self.user {
            Some(user) => {
                push_arg(args, "-u");
                push_arg(args, user);
            },
            None => {},
        }
    }

    pub fn run_args(&self, host_dir: &str) -> (r: Vec<String>)
        ensures
            texts(r@) == run_args(self@, host_dir@),
    {
        let mut mount = host_dir.to_owned();
        mount.push_str(":");
        mount.push_str(&self.container_dir);
        let mut args = no_args();
        push_arg(&mut args, "run");
        push_arg(&mut args, "-d");
        push_arg(&mut args, "--name");
        push_arg(&mut args, &self.container_name);
        self.push_user(&mut args);
        push_arg(&mut args, "-v");
        push_arg(&mut args, &mount);
        push_arg(&mut args, "-w");
        push_arg(&mut args, &self.container_dir);
        push_arg(&mut args, &self.image);
        push_arg(&mut args, "sleep");
        push_arg(&mut args, "infinity");
        args
    }

    pub fn exec_args(&self, command: &str) -> (r: Vec<String>)
        ensures
            texts(r@) == exec_args(self@, command@),
    {
        let mut script = shell_startup_script("bash").to_owned();
        script.push_str("\n");
        script.push_str(command);
        let mut args = no_args();
        push_arg(&mut args, "exec");
        push_arg(&mut args, "-w");
        push_arg(&mut args, &self.container_dir);
        self.push_user(&mut args);
        push_arg(&mut args, &self.container_name);
        push_arg(&mut args, "bash");
        push_arg(&mut args, "-l");
        push_arg(&mut args, "-c");
        push_arg(&mut args, &script);
        args
    }

    pub fn open_args(&self) -> (r: Vec<String>)
        ensures
            texts(r@) == open_args(self@),
    {
        let mut args = no_args();
        push_arg(&mut args, "exec");
        push_arg(&mut args, "-i");
        push_arg(&mut args, "-w");
        push_arg(&mut args, &self.container_dir);
        self.push_user(&mut args);
        push_arg(&mut args, &self.container_name);
        push_arg(&mut args, "bash");
        push_arg(&mut args, "-l");
        push_arg(&mut args, "-c");
        push_arg(&mut args, "exec 2>&1; exec bash -l");
        args
    }
}

// -------------------------------------------------------------------- start-up

/// What a command of docker printed, and whether it went well.
#[derive(Debug, Clone, PartialEq, Eq)]
pub struct CommandOutput {
    pub success: bool,
    pub stdout: String,
    pub stderr: String,
}

/// How far the container is.
#[derive(Debug, Clone, PartialEq, Eq)]
pub enum DockerState {
    /// The directory of this machine is being made.
    Creating,
    /// The links in that directory are being followed.
    Rooting,
    /// It is being looked up whether the container runs.
    Inspecting(String),
    /// The container is being started.
    Starting,
    /// The container is being made.
    Making,
    Over,
}

pub enum DockerStateView {
    Creating,
    Rooting,
    Inspecting(Seq<char>),
    Starting,
    Making,
    Over,
}

impl View for DockerState {
    type V = DockerStateView;

    open spec fn view(&self) -> DockerStateView {
        match self {
            DockerState::Creating => DockerStateView::Creating,
            DockerState::Rooting => DockerStateView::Rooting,
            DockerState::Inspecting(dir) => DockerStateView::Inspecting(dir@),
            DockerState::Starting => DockerStateView::Starting,
            DockerState::Making => DockerStateView::Making,
            DockerState::Over => DockerStateView::Over,
        }
    }
}

/// What came of a step.
#[derive(Debug)]
pub enum DockerEvent {
    Created(Result<(), String>),
    Canonical(Result<String, String>),
    Output(Result<CommandOutput, String>),
}

/// What is to be done next.
#[derive(Debug)]
pub enum DockerStep {
    CreateDir(String),
    Canonicalize(String),
    /// Run docker with these arguments.
    Docker(Vec<String>),
    /// The container runs.
    Ready,
    Failed(SandboxError),
}

pub enum DockerStepView {
    CreateDir(Seq<char>),
    Canonicalize(Seq<char>),
    Docker(Seq<Seq<char>>),
    Ready,
    Failed(SandboxErrorView),
}

impl View for DockerStep {
    type V = DockerStepView;

    open spec fn view(&self) -> DockerStepView {
        match self {
            DockerStep::CreateDir(p) => DockerStepView::CreateDir(p@),
            DockerStep::Canonicalize(p) => DockerStepView::Canonicalize(p@),
            DockerStep::Docker(args) => DockerStepView::Docker(texts(args@)),
            DockerStep::Ready => DockerStepView::Ready,
            DockerStep::Failed(e) => DockerStepView::Failed(e@),
        }
    }
}

/// Whether an event is one that the state waits for.
pub open spec fn expected(state: DockerStateView, event: DockerEvent) -> bool {
    match state {
        DockerStateView::Creating => event is Created,
        DockerStateView::Rooting => event is Canonical,
        DockerStateView::Inspecting(_) | DockerStateView::Starting | DockerStateView::Making => event
            is Output,
        DockerStateView::Over => false,
    }
}

pub open spec fn stopped(message: Seq<char>, cause: Option<Seq<char>>) -> (
    DockerStateView,
    DockerStepView,
) {
    (DockerStateView::Over, DockerStepView::Failed(SandboxErrorView { message, cause }))
}

/// What follows from what docker said to the command that was to bring the
/// container up.
pub open spec fn brought_up(
    output: Result<CommandOutput, String>,
    doing: Seq<char>,
    refused: Seq<char>,
) -> (DockerStateView, DockerStepView) {
    match output {
        Err(e) => stopped(doing, Some(e@)),
        Ok(o) => if o.success {
            (DockerStateView::Over, DockerStepView::Ready)
        } else {
            stopped(refused + trimmed(o.stderr@), None)
        },
    }
}

/// What follows from what came of a step.
pub open spec fn stepped(config: DockerView, state: DockerStateView, event: DockerEvent) -> (
    DockerStateView,
    DockerStepView,
) {
    match (state, event) {
        (DockerStateView::Creating, DockerEvent::Created(Err(e))) => stopped(
            "creating sandbox dir "@ + config.host_dir,
            Some(e@),
        ),
        (DockerStateView::Creating, DockerEvent::Created(Ok(_))) => (
            DockerStateView::Rooting,
            DockerStepView::Canonicalize(config.host_dir),
        ),
        (DockerStateView::Rooting, DockerEvent::Canonical(Err(e))) => stopped(
            "canonicalizing sandbox dir "@ + config.host_dir,
            Some(e@),
        ),
        (DockerStateView::Rooting, DockerEvent::Canonical(Ok(dir))) => (
            DockerStateView::Inspecting(dir@),
            DockerStepView::Docker(inspect_args(config)),
        ),
        (DockerStateView::Inspecting(dir), DockerEvent::Output(output)) => match output {
            Ok(o) if o.success => if trimmed(o.stdout@) == "true"@ {
                (DockerStateView::Over, DockerStepView::Ready)
            } else {
                (DockerStateView::Starting, DockerStepView::Docker(start_args(config)))
            },
            _ => (DockerStateView::Making, DockerStepView::Docker(run_args(config, dir))),
        },
        (DockerStateView::Starting, DockerEvent::Output(output)) => brought_up(
            output,
            "starting docker sandbox container"@,
            "docker start failed: "@,
        ),
        (DockerStateView::Making, DockerEvent::Output(output)) => brought_up(
            output,
            "creating docker sandbox container"@,
            "docker run failed: "@,
        ),
        _ => (state, DockerStepView::CreateDir(config.host_dir)),
    }
}

fn stop(message: &str, place: &str, cause: Option<String>) -> (r: (DockerState, DockerStep))
    ensures
        (r.0@, r.1@) == stopped(message@ + place@, option_text(cause)),
{
    let mut m = message.to_owned();
    m.push_str(place);
    (DockerState::Over, DockerStep::Failed(SandboxError { message: m, cause }))
}

fn bring_up(output: Result<CommandOutput, String>, doing: &str, refused: &str) -> (r: (
    DockerState,
    DockerStep,
))
    ensures
        (r.0@, r.1@) == brought_up(output, doing@, refused@),
{
    match output {
        Err(e) => (DockerState::Over, DockerStep::Failed(SandboxError::caused(doing, e))),
        Ok(o) => if o.success {
            (DockerState::Over, DockerStep::Ready)
        } else {
            stop(refused, &trim(&o.stderr), None)
        },
    }
}

impl DockerSandboxConfig {
    /// What is done first to have the container run.
    pub fn ensure_running(&self) -> (r: (DockerState, DockerStep))
        ensures
            r.0@ is Creating,
            r.1@ == DockerStepView::CreateDir(self@.host_dir),
    {
        (DockerState::Creating, DockerStep::CreateDir(self.host_dir.clone()))
    }

    /// What follows from what came of a step.
    pub fn advance(&self, state: DockerState, event: DockerEvent) -> (r: (DockerState, DockerStep))
        requires
            expected(state@, event),
        ensures
            (r.0@, r.1@) == stepped(self@, state@, event),
    {
        match (state, event) {
            (DockerState::Creating, DockerEvent::Created(Err(e))) => stop(
                "creating sandbox dir ",
                &self.host_dir,
                Some(e),
            ),
            (DockerState::Creating, DockerEvent::Created(Ok(_))) => (
                DockerState::Rooting,
                DockerStep::Canonicalize(self.host_dir.clone()),
            ),
            (DockerState::Rooting, DockerEvent::Canonical(Err(e))) => stop(
                "canonicalizing sandbox dir ",
                &self.host_dir,
                Some(e),
            ),
            (DockerState::Rooting, DockerEvent::Canonical(Ok(dir))) => (
                DockerState::Inspecting(dir),
                DockerStep::Docker(self.inspect_args()),
            ),
            (DockerState::Inspecting(dir), DockerEvent::Output(output)) => {
                if let Ok(o) = output {
                    if o.success {
                        return if str_eq(&trim(&o.stdout), "true") {
                            (DockerState::Over, DockerStep::Ready)
                        } else {
                            (DockerState::Starting, DockerStep::Docker(self.start_args()))
                        };
                    }
                }
                (DockerState::Making, DockerStep::Docker(self.run_args(&dir)))
            },
            (DockerState::Starting, DockerEvent::Output(output)) => bring_up(
                output,
                "starting docker sandbox container",
                "docker start failed: ",
            ),
            (DockerState::Making, DockerEvent::Output(output)) => bring_up(
                output,
                "creating docker sandbox container",
                "docker run failed: ",
            ),
            (state, _) => (state, DockerStep::CreateDir(self.host_dir.clone())),
        }
    }
}

/// How many steps are left at most.
pub open spec fn steps_left(state: DockerStateView) -> nat {
    match state {
        DockerStateView::Creating => 4,
        DockerStateView::Rooting => 3,
        DockerStateView::Inspecting(_) => 2,
        DockerStateView::Starting | DockerStateView::Making => 1,
        DockerStateView::Over => 0,
    }
}

/// Bringing the container up ends, whatever docker says; and it ends with a
/// container that runs or an error.
pub proof fn start_up_ends(config: DockerView, state: DockerStateView, event: DockerEvent)
    requires
        expected(state, event),
    ensures
        steps_left(stepped(config, state, event).0) < steps_left(state),
        stepped(config, state, event).0 is Over <==> (stepped(config, state, event).1 is Ready
            || stepped(config, state, event).1 is Failed),
{
}

/// A command is run in the container, in its directory, and as its user where one is
/// set; it is the last that docker is told.
pub proof fn commands_are_run_in_the_container(config: DockerView, command: Seq<char>)
    ensures
        ({
            let args = exec_args(config, command);
            &&& args[0] == "exec"@
            &&& args[1] == "-w"@ && args[2] == config.container_dir
            &&& config.user matches Some(u) ==> args[3] == "-u"@ && args[4] == u && args[5]
                == config.container_name
            &&& config.user is None ==> args[3] == config.container_name
            &&& args[args.len() - 2] == "-c"@
            &&& command.is_suffix_of(args.last())
        }),
        ({
            let args = open_args(config);
            &&& args[0] == "exec"@ && args[1] == "-i"@
            &&& args[2] == "-w"@ && args[3] == config.container_dir
            &&& config.user matches Some(u) ==> args[4] == "-u"@ && args[5] == u && args[6]
                == config.container_name
            &&& config.user is None ==> args[4] == config.container_name
        }),
{
    let last = exec_args(config, command).last();
    assert(command =~= last.subrange(last.len() - command.len(), last.len() as int));
}

/// A container is made under its name, from its image, with the directory of the
/// machine in place of its own.
pub proof fn containers_hold_the_workspace(config: DockerView, host_dir: Seq<char>)
    ensures
        ({
            let args = run_args(config, host_dir);
            let n = args.len() as int;
            &&& args[0] == "run"@
            &&& args[2] == "--name"@ && args[3] == config.container_name
            &&& args[n - 7] == "-v"@ && args[n - 6] == host_dir + ":"@ + config.container_dir
            &&& args[n - 5] == "-w"@ && args[n - 4] == config.container_dir
            &&& args[n - 3] == config.image
            &&& config.user matches Some(u) ==> args[4] == "-u"@ && args[5] == u
        }),
        start_args(config).last() == config.container_name,
        inspect_args(config).last() == config.container_name,
{
}

/// A container that runs is used, one that stands still is started, and one that is
/// not there is made; it is ready when docker says so, and else docker's words are
/// handed on.
pub proof fn containers_are_brought_up(
    config: DockerView,
    dir: Seq<char>,
    output: Result<CommandOutput, String>,
)
    ensures
        ({
            let (after, step) = stepped(
                config,
                DockerStateView::Inspecting(dir),
                DockerEvent::Output(output),
            );
            let found = output is Ok && output->Ok_0.success;
            let runs = found && trimmed(output->Ok_0.stdout@) == "true"@;
            &&& runs ==> step is Ready
            &&& found && !runs ==> step == DockerStepView::Docker(start_args(config))
            &&& !found ==> step == DockerStepView::Docker(run_args(config, dir))
        }),
        ({
            let step = stepped(config, DockerStateView::Starting, DockerEvent::Output(output)).1;
            &&& step is Ready <==> output is Ok && output->Ok_0.success
            &&& output is Ok && !output->Ok_0.success ==> step is Failed && trimmed(
                output->Ok_0.stderr@,
            ).is_suffix_of(step->Failed_0.message)
        }),
        ({
            let step = stepped(config, DockerStateView::Making, DockerEvent::Output(output)).1;
            &&& step is Ready <==> output is Ok && output->Ok_0.success
            &&& output is Ok && !output->Ok_0.success ==> step is Failed && trimmed(
                output->Ok_0.stderr@,
            ).is_suffix_of(step->Failed_0.message)
        }),
        stepped(config, DockerStateView::Creating, DockerEvent::Created(Ok(()))).1
            == DockerStepView::Canonicalize(config.host_dir),
{
    if output is Ok && !output->Ok_0.success {
        let e = trimmed(output->Ok_0.stderr@);
        let a = "docker start failed: "@ + e;
        let b = "docker run failed: "@ + e;
        assert(e =~= a.subrange(a.len() - e.len(), a.len() as int));
        assert(e =~= b.subrange(b.len() - e.len(), b.len() as int));
    }
}

} // verus!
