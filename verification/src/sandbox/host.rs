//! The sandboxes.
use vstd::prelude::*;
use vstd::string::*;

use crate::message::option_text;
use crate::sandbox::bash::{
    cancelled, changed, missing_output, orderly, polled_output, pruned, runs_in, seen, session_busy,
    session_name, task_at, validate_named, BashTaskRegistry, CancelStep, SandboxBashOutput,
    TaskView,
};
use crate::sandbox::config::{plain_error, DockerSandboxConfig, DockerView, SandboxError};
use crate::sandbox::docker::{commands_are_run_in_the_container, exec_args, open_args};
use crate::sandbox::resolve::{PathNeed, PathRequest, RequestView};
use crate::sandbox::shell::{
    command_args, session_args, shell_command_args, shell_of, shell_session_args,
    the_command_is_run, user_shell,
};
use crate::text::{is_blank, list_has, texts, trim, trimmed};

verus! {

broadcast use vstd::string::group_string_axioms;

// ----------------------------------------------------------------------- files

/// What is done with a file.
#[derive(Debug, Clone, Copy, PartialEq, Eq, Structural)]
pub enum FileAction {
    Read,
    Metadata,
    Write,
    Mkdir,
    Remove,
    List,
}

/// A file operation: the path that it needs, and what is said when it fails.
#[derive(Debug, Clone, PartialEq, Eq)]
pub struct FileRequest {
    pub place: PathRequest,
    pub failure: String,
}

pub struct FileView {
    pub place: RequestView,
    pub failure: Seq<char>,
}

impl View for FileRequest {
    type V = FileView;

    open spec fn view(&self) -> FileView {
        FileView { place: self.place@, failure: self.failure@ }
    }
}

/// What is said when a file operation on this machine fails.
pub open spec fn local_failure(action: FileAction) -> Seq<char> {
    match action {
        FileAction::Read => "reading local file"@,
        FileAction::Metadata => "reading local file metadata"@,
        FileAction::Write => "writing local file"@,
        FileAction::Mkdir => "creating local directory"@,
        FileAction::Remove => "removing local path"@,
        FileAction::List => "listing local directory"@,
    }
}

/// What is said when a file operation in a container's workspace fails.
pub open spec fn workspace_failure(action: FileAction) -> Seq<char> {
    match action {
        FileAction::Read => "reading sandbox file"@,
        FileAction::Metadata => "reading sandbox file metadata"@,
        FileAction::Write => "writing sandbox file"@,
        FileAction::Mkdir => "creating sandbox directory"@,
        FileAction::Remove => "removing sandbox path"@,
        FileAction::List => "listing sandbox directory"@,
    }
}

fn describe_local_failure(action: FileAction) -> (r: String)
    ensures
        r@ == local_failure(action),
{
    match action {
        FileAction::Read => "reading local file".to_owned(),
        FileAction::Metadata => "reading local file metadata".to_owned(),
        FileAction::Write => "writing local file".to_owned(),
        FileAction::Mkdir => "creating local directory".to_owned(),
        FileAction::Remove => "removing local path".to_owned(),
        FileAction::List => "listing local directory".to_owned(),
    }
}

fn describe_workspace_failure(action: FileAction) -> (r: String)
    ensures
        r@ == workspace_failure(action),
{
    match action {
        FileAction::Read => "reading sandbox file".to_owned(),
        FileAction::Metadata => "reading sandbox file metadata".to_owned(),
        FileAction::Write => "writing sandbox file".to_owned(),
        FileAction::Mkdir => "creating sandbox directory".to_owned(),
        FileAction::Remove => "removing sandbox path".to_owned(),
        FileAction::List => "listing sandbox directory".to_owned(),
    }
}

/// What a file operation needs of its path.
pub open spec fn need_of(action: FileAction, recursive: bool) -> PathNeed {
    match action {
        FileAction::Write => PathNeed::File,
        FileAction::Mkdir => PathNeed::Dir { recursive },
        _ => PathNeed::Existing,
    }
}

fn path_need(action: FileAction, recursive: bool) -> (r: PathNeed)
    ensures
        r == need_of(action, recursive),
{
    match action {
        FileAction::Write => PathNeed::File,
        FileAction::Mkdir => PathNeed::Dir { recursive },
        _ => PathNeed::Existing,
    }
}

// -------------------------------------------------------------------- commands

/// A program that is to be started.
#[derive(Debug, Clone, PartialEq, Eq)]
pub struct Launch {
    pub program: String,
    pub args: Vec<String>,
    /// The directory that it is started in, where one is set.
    pub dir: Option<String>,
}

pub struct LaunchView {
    pub program: Seq<char>,
    pub args: Seq<Seq<char>>,
    pub dir: Option<Seq<char>>,
}

impl View for Launch {
    type V = LaunchView;

    open spec fn view(&self) -> LaunchView {
        LaunchView {
            program: self.program@,
            args: texts(self.args@),
            dir: option_text(self.dir),
        }
    }
}

/// How a command is to be run.
#[derive(Debug, Clone, PartialEq, Eq)]
pub enum BashStart {
    /// By a program of its own.
    Once(Launch),
    /// In the session of this name, which is to be opened first where there is
    /// none.
    Session { name: String, open: Option<Launch> },
}

pub enum BashStartView {
    Once(LaunchView),
    Session { name: Seq<char>, open: Option<LaunchView> },
}

impl View for BashStart {
    type V = BashStartView;

    open spec fn view(&self) -> BashStartView {
        match self {
            BashStart::Once(launch) => BashStartView::Once(launch@),
            BashStart::Session { name, open } => BashStartView::Session {
                name: name@,
                open: match open {
                    Some(launch) => Some(launch@),
                    None => None,
                },
            },
        }
    }
}

/// The name of the session that a command is to run in, where it names one.
pub open spec fn asked_session(named: Option<Seq<char>>) -> Option<Seq<char>> {
    match named {
        Some(n) if trimmed(n).len() > 0 => Some(trimmed(n)),
        _ => None,
    }
}

/// What is said when a session is not free.
pub open spec fn busy_message(named: Seq<char>, pid: Seq<char>) -> Seq<char> {
    "named bash session `"@ + named + "` is still running task `"@ + pid
        + "`; poll or cancel that pid, wait for it to complete, or use a different named session"@
}

/// The sessions that are open, and the commands that were started.
#[derive(Debug)]
pub struct BashHost {
    pub sessions: Vec<String>,
    pub tasks: BashTaskRegistry,
}

impl BashHost {
    /// Every command has an id of its own, and no session runs two at a time.
    pub open spec fn wf(&self) -> bool {
        orderly(self.tasks@)
    }

    pub fn new() -> (r: BashHost)
        ensures
            r.wf(),
            r.sessions@.len() == 0,
            r.tasks@.len() == 0,
    {
        BashHost { sessions: Vec::new(), tasks: BashTaskRegistry::new() }
    }

    /// The name of the session that a command can run in now.
    pub fn claim(&mut self, named: &str, now: u64) -> (r: Result<String, SandboxError>)
        requires
            old(self).wf(),
        ensures
            final(self).wf(),
            final(self).sessions == old(self).sessions,
            match session_name(named@) {
                Err(message) => {
                    &&& r is Err
                    &&& r->Err_0@ == plain_error(message)
                    &&& final(self).tasks@ == old(self).tasks@
                },
                Ok(name) => {
                    &&& final(self).tasks@ == pruned(old(self).tasks@, now)
                    &&& session_busy(final(self).tasks@, name) ==> {
                        &&& r is Err
                        &&& exists|i: int|
                            {
                                &&& 0 <= i < final(self).tasks@.len()
                                &&& runs_in(#[trigger] final(self).tasks@[i], name)
                                &&& r->Err_0@ == plain_error(
                                    busy_message(name, final(self).tasks@[i].pid),
                                )
                            }
                    }
                    &&& !session_busy(final(self).tasks@, name) ==> r is Ok && r->Ok_0@ == name
                },
            },
    {
        let name = match validate_named(named) {
            Ok(name) => name,
            Err(e) => return Err(e),
        };
        match self.tasks.active_named_pid(&name, now) {
            Some(pid) => {
                let mut m = "named bash session `".to_owned();
                m.push_str(&name);
                m.push_str("` is still running task `");
                m.push_str(&pid);
                m.push_str(
                    "`; poll or cancel that pid, wait for it to complete, or use a different named session",
                );
                Err(SandboxError::plain(&m))
            },
            None => Ok(name),
        }
    }

    /// Whether the session of the given name is open.
    pub fn is_open(&self, name: &str) -> (r: bool)
        ensures
            r == texts(self.sessions@).contains(name@),
    {
        list_has(&self.sessions, name)
    }

    /// A session was opened.
    pub fn session_opened(&mut self, name: &str)
        ensures
            final(self).tasks == old(self).tasks,
            texts(final(self).sessions@) == (if texts(old(self).sessions@).contains(name@) {
                texts(old(self).sessions@)
            } else {
                texts(old(self).sessions@).push(name@)
            }),
    {
        let ghost before = texts(self.sessions@);
        if !list_has(&self.sessions, name) {
            self.sessions.push(name.to_owned());
            assert(texts(self.sessions@) =~= before.push(name@));
        }
    }

    /// A session is of no more use.
    pub fn session_closed(&mut self, name: &str)
        ensures
            final(self).tasks == old(self).tasks,
            texts(final(self).sessions@) == texts(old(self).sessions@).filter(
                |s: Seq<char>| s != name@,
            ),
    {
        let ghost all = texts(self.sessions@);
        let ghost keep = |s: Seq<char>| s != name@;
        let mut left: Vec<String> = Vec::new();
        let mut i: usize = 0;
        assert(all.take(0).filter(keep) =~= Seq::empty());
        assert(texts(left@) =~= Seq::<Seq<char>>::empty());
        while i < self.sessions.len()
            invariant
                i <= self.sessions.len(),
                all == texts(self.sessions@),
                keep == (|s: Seq<char>| s != name@),
                texts(left@) == all.take(i as int).filter(keep),
                self.tasks == old(self).tasks,
            decreases self.sessions.len() - i,
        {
            let ghost before = texts(left@);
            assert(all.take(i + 1) =~= all.take(i as int).push(all[i as int]));
            proof {
                all.take(i as int).lemma_filter_push(all[i as int], keep);
            }
            if !crate::text::str_eq(&self.sessions[i], name) {
                left.push(self.sessions[i].clone());
                assert(texts(left@) =~= before.push(all[i as int]));
            }
            i += 1;
        }
        assert(all.take(i as int) =~= all);
        self.sessions = left;
    }
}

// --------------------------------------------------------------------- sandbox

/// Where commands run and file operations take place.
pub trait Sandbox {
    spec fn kind_text(&self) -> Seq<char>;

    spec fn label_text(&self) -> Seq<char>;

    /// The path that a file operation needs.
    spec fn place(&self, action: FileAction, path: Seq<char>, recursive: bool) -> RequestView;

    spec fn failure(&self, action: FileAction) -> Seq<char>;

    spec fn one_command(&self, command: Seq<char>, shell: Option<Seq<char>>) -> LaunchView;

    spec fn session_launch(&self, shell: Option<Seq<char>>) -> LaunchView;

    spec fn host(&self) -> BashHost;

    /// Whether two sandboxes differ in what runs in them alone.
    spec fn alike(&self, other: &Self) -> bool;

    /// The name of this kind of sandbox.
    fn kind(&self) -> (r: &'static str)
        ensures
            r@ == self.kind_text(),
    ;

    /// The directory of the workspace as commands see it.
    fn workspace_root_label(&self) -> (r: String)
        ensures
            r@ == self.label_text(),
    ;

    fn read(&self, path: &str) -> (r: FileRequest)
        ensures
            r@ == (FileView {
                place: self.place(FileAction::Read, path@, false),
                failure: self.failure(FileAction::Read),
            }),
    ;

    fn metadata(&self, path: &str) -> (r: FileRequest)
        ensures
            r@ == (FileView {
                place: self.place(FileAction::Metadata, path@, false),
                failure: self.failure(FileAction::Metadata),
            }),
    ;

    fn write(&self, path: &str) -> (r: FileRequest)
        ensures
            r@ == (FileView {
                place: self.place(FileAction::Write, path@, false),
                failure: self.failure(FileAction::Write),
            }),
    ;

    /// The file in which a text is to be replaced, and what is said when it
    /// cannot be read.
    fn replace(&self, path: &str) -> (r: FileRequest)
        ensures
            r@ == (FileView {
                place: self.place(FileAction::Read, path@, false),
                failure: self.failure(FileAction::Read),
            }),
    ;

    fn mkdir(&self, path: &str, recursive: bool) -> (r: FileRequest)
        ensures
            r@ == (FileView {
                place: self.place(FileAction::Mkdir, path@, recursive),
                failure: self.failure(FileAction::Mkdir),
            }),
    ;

    fn remove(&self, path: &str) -> (r: FileRequest)
        ensures
            r@ == (FileView {
                place: self.place(FileAction::Remove, path@, false),
                failure: self.failure(FileAction::Remove),
            }),
    ;

    fn list(&self, path: &str) -> (r: FileRequest)
        ensures
            r@ == (FileView {
                place: self.place(FileAction::List, path@, false),
                failure: self.failure(FileAction::List),
            }),
    ;

    /// How a command is to be run: in the session that it names, where that is
    /// free, else by a program of its own.
    fn bash(
        &mut self,
        command: &str,
        named: &Option<String>,
        shell_variable: &Option<String>,
        now: u64,
    ) -> (r: Result<BashStart, SandboxError>)
        requires
            old(self).host().wf(),
        ensures
            final(self).host().wf(),
            final(self).alike(old(self)),
            final(self).host().sessions == old(self).host().sessions,
            match asked_session(option_text(*named)) {
                None => {
                    &&& final(self).host().tasks@ == old(self).host().tasks@
                    &&& r is Ok
                    &&& r->Ok_0@ == BashStartView::Once(
                        old(self).one_command(command@, option_text(*shell_variable)),
                    )
                },
                Some(n) => match session_name(n) {
                    Err(message) => {
                        &&& final(self).host().tasks@ == old(self).host().tasks@
                        &&& r is Err
                        &&& r->Err_0@ == plain_error(message)
                    },
                    Ok(name) => {
                        let tasks = pruned(old(self).host().tasks@, now);
                        &&& final(self).host().tasks@ == tasks
                        &&& session_busy(tasks, name) ==> {
                            &&& r is Err
                            &&& exists|i: int|
                                {
                                    &&& 0 <= i < tasks.len()
                                    &&& runs_in(#[trigger] tasks[i], name)
                                    &&& r->Err_0@ == plain_error(busy_message(name, tasks[i].pid))
                                }
                        }
                        &&& !session_busy(tasks, name) ==> {
                            &&& r is Ok
                            &&& r->Ok_0@ == BashStartView::Session {
                                name,
                                open: if texts(old(self).host().sessions@).contains(name) {
                                    None
                                } else {
                                    Some(
                                        old(self).session_launch(option_text(*shell_variable)),
                                    )
                                },
                            }
                        }
                    },
                },
            },
    ;

    /// What is said of a command that is asked about.
    fn bash_poll(&mut self, pid: &str, now: u64) -> (r: SandboxBashOutput)
        requires
            old(self).host().wf(),
        ensures
            final(self).host().wf(),
            final(self).alike(old(self)),
            final(self).host().sessions == old(self).host().sessions,
            final(self).host().tasks@ == changed(
                pruned(old(self).host().tasks@, now),
                pid@,
                |t: TaskView| seen(t),
            ),
            match task_at(pruned(old(self).host().tasks@, now), pid@) {
                Some(i) => r@ == polled_output(pruned(old(self).host().tasks@, now)[i]),
                None => r@ == missing_output(pid@),
            },
    ;

    /// What is to be done to stop a command.
    fn bash_cancel(&mut self, pid: &str, now: u64) -> (r: CancelStep)
        requires
            old(self).host().wf(),
        ensures
            final(self).host().wf(),
            final(self).alike(old(self)),
            final(self).host().sessions == old(self).host().sessions,
            final(self).host().tasks@ == changed(
                pruned(old(self).host().tasks@, now),
                pid@,
                |t: TaskView| cancelled(t, now),
            ),
            match task_at(pruned(old(self).host().tasks@, now), pid@) {
                Some(i) => r == CancelStep::Terminate(pruned(old(self).host().tasks@, now)[i].os_pid),
                None => r is NotFound && r->NotFound_0@ == missing_output(pid@),
            },
    ;
}

/// No sandbox: everything takes place on this machine.
#[derive(Debug)]
pub struct NoSandbox {
    pub root: String,
    pub bash: BashHost,
}

/// A container with the workspace in it.
#[derive(Debug)]
pub struct DockerSandbox {
    pub config: DockerSandboxConfig,
    pub bash: BashHost,
}

impl NoSandbox {
    /// Nothing has run yet in this directory.
    pub open spec fn fresh(self, root: Seq<char>) -> bool {
        &&& self.root@ == root
        &&& self.bash.wf()
        &&& self.bash.sessions@.len() == 0
        &&& self.bash.tasks@.len() == 0
    }

    pub fn new(root: String) -> (r: NoSandbox)
        ensures
            r.fresh(root@),
    {
        NoSandbox { root, bash: BashHost::new() }
    }

    fn request(&self, action: FileAction, path: &str, recursive: bool) -> (r: FileRequest)
        ensures
            r@ == (FileView {
                place: self.place(action, path@, recursive),
                failure: self.failure(action),
            }),
    {
        FileRequest {
            place: PathRequest {
                root: self.root.clone(),
                label: None,
                path: path.to_owned(),
                need: path_need(action, recursive),
            },
            failure: describe_local_failure(action),
        }
    }
}

impl DockerSandbox {
    /// Nothing has run yet in this container.
    pub open spec fn fresh(self, config: DockerView) -> bool {
        &&& self.config@ == config
        &&& self.bash.wf()
        &&& self.bash.sessions@.len() == 0
        &&& self.bash.tasks@.len() == 0
    }

    pub fn new(config: DockerSandboxConfig) -> (r: DockerSandbox)
        ensures
            r.fresh(config@),
    {
        DockerSandbox { config, bash: BashHost::new() }
    }

    fn request(&self, action: FileAction, path: &str, recursive: bool) -> (r: FileRequest)
        ensures
            r@ == (FileView {
                place: self.place(action, path@, recursive),
                failure: self.failure(action),
            }),
    {
        FileRequest {
            place: PathRequest {
                root: self.config.host_dir.clone(),
                label: Some(self.config.container_dir.clone()),
                path: path.to_owned(),
                need: path_need(action, recursive),
            },
            failure: describe_workspace_failure(action),
        }
    }
}

impl Sandbox for NoSandbox {
    open spec fn kind_text(&self) -> Seq<char> {
        "no_sandbox"@
    }

    open spec fn label_text(&self) -> Seq<char> {
        self.root@
    }

    open spec fn place(&self, action: FileAction, path: Seq<char>, recursive: bool) -> RequestView {
        RequestView { root: self.root@, label: None, path, need: need_of(action, recursive) }
    }

    open spec fn failure(&self, action: FileAction) -> Seq<char> {
        local_failure(action)
    }

    open spec fn one_command(&self, command: Seq<char>, shell: Option<Seq<char>>) -> LaunchView {
        LaunchView {
            program: shell_of(shell),
            args: command_args(shell_of(shell), command),
            dir: Some(self.root@),
        }
    }

    open spec fn session_launch(&self, shell: Option<Seq<char>>) -> LaunchView {
        LaunchView {
            program: shell_of(shell),
            args: session_args(shell_of(shell)),
            dir: Some(self.root@),
        }
    }

    open spec fn host(&self) -> BashHost {
        self.bash
    }

    open spec fn alike(&self, other: &NoSandbox) -> bool {
        self.root == other.root
    }

    fn kind(&self) -> (r: &'static str) {
        "no_sandbox"
    }

    fn workspace_root_label(&self) -> (r: String) {
        self.root.clone()
    }

    fn read(&self, path: &str) -> (r: FileRequest) {
        self.request(FileAction::Read, path, false)
    }

    fn metadata(&self, path: &str) -> (r: FileRequest) {
        self.request(FileAction::Metadata, path, false)
    }

    fn write(&self, path: &str) -> (r: FileRequest) {
        self.request(FileAction::Write, path, false)
    }

    fn replace(&self, path: &str) -> (r: FileRequest) {
        self.request(FileAction::Read, path, false)
    }

    fn mkdir(&self, path: &str, recursive: bool) -> (r: FileRequest) {
        self.request(FileAction::Mkdir, path, recursive)
    }

    fn remove(&self, path: &str) -> (r: FileRequest) {
        self.request(FileAction::Remove, path, false)
    }

    fn list(&self, path: &str) -> (r: FileRequest) {
        self.request(FileAction::List, path, false)
    }

    fn bash(
        &mut self,
        command: &str,
        named: &Option<String>,
        shell_variable: &Option<String>,
        now: u64,
    ) -> (r: Result<BashStart, SandboxError>) {
        let shell = user_shell(shell_variable);
        if let Some(n) = named {
            if !is_blank(n) {
                let name = match self.bash.claim(&trim(n), now) {
                    Ok(name) => name,
                    Err(e) => return Err(e),
                };
                let open = if self.bash.is_open(&name) {
                    None
                } else {
                    let args = shell_session_args(&shell);
                    Some(Launch { program: shell, args, dir: Some(self.root.clone()) })
                };
                return Ok(BashStart::Session { name, open });
            }
        }
        let args = shell_command_args(&shell, command);
        Ok(BashStart::Once(Launch { program: shell, args, dir: Some(self.root.clone()) }))
    }

    fn bash_poll(&mut self, pid: &str, now: u64) -> (r: SandboxBashOutput) {
        self.bash.tasks.poll(pid, now)
    }

    fn bash_cancel(&mut self, pid: &str, now: u64) -> (r: CancelStep) {
        self.bash.tasks.cancel(pid, now)
    }
}

impl Sandbox for DockerSandbox {
    open spec fn kind_text(&self) -> Seq<char> {
        "docker"@
    }

    open spec fn label_text(&self) -> Seq<char> {
        self.config@.container_dir
    }

    open spec fn place(&self, action: FileAction, path: Seq<char>, recursive: bool) -> RequestView {
        RequestView {
            root: self.config@.host_dir,
            label: Some(self.config@.container_dir),
            path,
            need: need_of(action, recursive),
        }
    }

    open spec fn failure(&self, action: FileAction) -> Seq<char> {
        workspace_failure(action)
    }

    open spec fn one_command(&self, command: Seq<char>, shell: Option<Seq<char>>) -> LaunchView {
        LaunchView { program: "docker"@, args: exec_args(self.config@, command), dir: None }
    }

    open spec fn session_launch(&self, shell: Option<Seq<char>>) -> LaunchView {
        LaunchView { program: "docker"@, args: open_args(self.config@), dir: None }
    }

    open spec fn host(&self) -> BashHost {
        self.bash
    }

    open spec fn alike(&self, other: &DockerSandbox) -> bool {
        self.config == other.config
    }

    fn kind(&self) -> (r: &'static str) {
        "docker"
    }

    fn workspace_root_label(&self) -> (r: String) {
        self.config.container_dir.clone()
    }

    fn read(&self, path: &str) -> (r: FileRequest) {
        self.request(FileAction::Read, path, false)
    }

    fn metadata(&self, path: &str) -> (r: FileRequest) {
        self.request(FileAction::Metadata, path, false)
    }

    fn write(&self, path: &str) -> (r: FileRequest) {
        self.request(FileAction::Write, path, false)
    }

    fn replace(&self, path: &str) -> (r: FileRequest) {
        self.request(FileAction::Read, path, false)
    }

    fn mkdir(&self, path: &str, recursive: bool) -> (r: FileRequest) {
        self.request(FileAction::Mkdir, path, recursive)
    }

    fn remove(&self, path: &str) -> (r: FileRequest) {
        self.request(FileAction::Remove, path, false)
    }

    fn list(&self, path: &str) -> (r: FileRequest) {
        self.request(FileAction::List, path, false)
    }

    fn bash(
        &mut self,
        command: &str,
        named: &Option<String>,
        shell_variable: &Option<String>,
        now: u64,
    ) -> (r: Result<BashStart, SandboxError>) {
        if let Some(n) = named {
            if !is_blank(n) {
                let name = match self.bash.claim(&trim(n), now) {
                    Ok(name) => name,
                    Err(e) => return Err(e),
                };
                let open = if self.bash.is_open(&name) {
                    None
                } else {
                    Some(
                        Launch {
                            program: "docker".to_owned(),
                            args: self.config.open_args(),
                            dir: None,
                        },
                    )
                };
                return Ok(BashStart::Session { name, open });
            }
        }
        let args = self.config.exec_args(command);
        Ok(BashStart::Once(Launch { program: "docker".to_owned(), args, dir: None }))
    }

    fn bash_poll(&mut self, pid: &str, now: u64) -> (r: SandboxBashOutput) {
        self.bash.tasks.poll(pid, now)
    }

    fn bash_cancel(&mut self, pid: &str, now: u64) -> (r: CancelStep) {
        self.bash.tasks.cancel(pid, now)
    }
}

/// A sandbox of either kind.
#[derive(Debug)]
pub enum BuiltSandbox {
    Local(NoSandbox),
    Docker(DockerSandbox),
}

// ------------------------------------------------------------------------ its laws

/// A command on the machine itself is run by the user's shell, in the root.
pub proof fn local_commands_run_in_the_root(
    sandbox: NoSandbox,
    command: Seq<char>,
    shell: Option<Seq<char>>,
)
    ensures
        ({
            let l = sandbox.one_command(command, shell);
            &&& l.program == shell_of(shell)
            &&& l.dir == Some(sandbox.root@)
            &&& command.is_suffix_of(l.args.last())
            &&& sandbox.session_launch(shell).program == shell_of(shell)
            &&& sandbox.session_launch(shell).dir == Some(sandbox.root@)
        }),
{
    the_command_is_run(shell_of(shell), command, command);
}

/// A command in a container is run by docker, in the directory of the container.
pub proof fn container_commands_run_by_docker(
    sandbox: DockerSandbox,
    command: Seq<char>,
    shell: Option<Seq<char>>,
)
    ensures
        ({
            let l = sandbox.one_command(command, shell);
            &&& l.program == "docker"@
            &&& l.dir is None
            &&& l.args.contains(sandbox.config@.container_name)
            &&& l.args.contains(sandbox.config@.container_dir)
            &&& command.is_suffix_of(l.args.last())
            &&& sandbox.session_launch(shell).program == "docker"@
        }),
{
    let args = exec_args(sandbox.config@, command);
    commands_are_run_in_the_container(sandbox.config@, command);
    assert(args[2] == sandbox.config@.container_dir);
    if sandbox.config@.user is Some {
        assert(args[5] == sandbox.config@.container_name);
    } else {
        assert(args[3] == sandbox.config@.container_name);
    }
}

/// Files are looked for below the directory of the machine; in a container paths may
/// be given as the container sees them. What is written or made need not be there.
pub proof fn files_are_looked_for_in_the_workspace(
    local: NoSandbox,
    container: DockerSandbox,
    action: FileAction,
    path: Seq<char>,
    recursive: bool,
)
    ensures
        local.place(action, path, recursive).root == local.root@,
        local.place(action, path, recursive).path == path,
        local.place(action, path, recursive).label is None,
        container.place(action, path, recursive).root == container.config@.host_dir,
        container.place(action, path, recursive).label == Some(container.config@.container_dir),
        container.place(action, path, recursive).path == path,
        need_of(action, recursive) is File <==> action == FileAction::Write,
        need_of(action, recursive) is Dir <==> action == FileAction::Mkdir,
        need_of(FileAction::Mkdir, recursive) == (PathNeed::Dir { recursive }),
{
}

/// A session is asked for by a name that is more than white space.
pub proof fn sessions_are_asked_for_by_name(named: Option<Seq<char>>)
    ensures
        asked_session(named) is Some <==> named is Some && trimmed(named->0).len() > 0,
        asked_session(named) is Some ==> asked_session(named)->0 == trimmed(named->0),
{
}

} // verus!
