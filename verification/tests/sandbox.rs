use bot_core::sandbox::bash::{
    take_incremental, validate_named, BashTaskRegistry, CancelStep, SandboxBashStatus,
    BASH_TASK_RETAIN_MS,
};
use bot_core::sandbox::config::{
    current_host_user_spec, BashMode, DockerSandboxConfig, SandboxConfig, SandboxSettings,
};
use bot_core::sandbox::docker::{CommandOutput, DockerEvent, DockerState, DockerStep};
use bot_core::sandbox::files::{
    choose_removal, count_matches, list_entries, replace_text, sandbox_metadata, DirEntry, Removal,
    ReplaceResult,
};
use bot_core::sandbox::host::{BashStart, BuiltSandbox, DockerSandbox, NoSandbox, Sandbox};
use bot_core::sandbox::resolve::{
    clean_relative_components, clean_workspace_path, PathEvent, PathNeed, PathRequest, PathStep,
};
use bot_core::sandbox::shell::{
    is_ready_line, new_done_marker, new_ready_marker, parse_marker_line, parse_number,
    session_startup_probe, shell_command_args, shell_name, shell_session_args,
    shell_startup_script, user_shell, wrap_session_command,
};

fn some(text: &str) -> Option<String> {
    Some(text.to_string())
}

fn docker_config() -> DockerSandboxConfig {
    DockerSandboxConfig {
        host_dir: "/host".to_string(),
        container_dir: "/workspace".to_string(),
        image: "unused".to_string(),
        container_name: "unused".to_string(),
        user: None,
    }
}

/// A file system of directories, files and links.
struct Disk {
    there: Vec<String>,
    links: Vec<(String, String)>,
}

impl Disk {
    fn new(there: &[&str]) -> Disk {
        Disk { there: there.iter().map(|p| p.to_string()).collect(), links: vec![] }
    }

    fn canonical(&self, path: &str) -> Result<String, String> {
        for (from, to) in &self.links {
            if path == from {
                return self.canonical(to);
            }
            if let Some(rest) = path.strip_prefix(&format!("{from}/")) {
                return self.canonical(&format!("{to}/{rest}"));
            }
        }
        if self.there.iter().any(|p| p == path) {
            Ok(path.to_string())
        } else {
            Err("No such file or directory".to_string())
        }
    }

    fn is_link(&self, path: &str) -> bool {
        self.links.iter().any(|(from, _)| from == path)
    }

    /// Runs a request to its end.
    fn resolve(&self, request: &PathRequest) -> Result<String, String> {
        let (mut state, mut step) = request.start();
        loop {
            let event = match step {
                PathStep::CreateDir(_) => PathEvent::Created(Ok(())),
                PathStep::Canonicalize(path) => PathEvent::Canonical(self.canonical(&path)),
                PathStep::Probe(path) => {
                    PathEvent::Found(self.is_link(&path) || self.canonical(&path).is_ok())
                }
                PathStep::Exists(path) => PathEvent::Found(self.canonical(&path).is_ok()),
                PathStep::Done(path) => return Ok(path),
                PathStep::Failed(error) => return Err(error.message),
            };
            let (next, then) = request.advance(state, event);
            state = next;
            step = then;
        }
    }
}

// ------------------------------------------------------------------------ paths

#[test]
fn no_sandbox_accepts_local_absolute_paths() {
    let sandbox = NoSandbox::new("/root".to_string());
    let disk = Disk::new(&["/root", "/root/absolute.txt"]);
    let write = sandbox.write("/root/absolute.txt");
    assert_eq!(disk.resolve(&write.place), Ok("/root/absolute.txt".to_string()));
    let read = sandbox.read("/root/absolute.txt");
    assert_eq!(disk.resolve(&read.place), Ok("/root/absolute.txt".to_string()));
}

#[test]
fn no_sandbox_parent_dir_paths_follow_local_shell_semantics() {
    let sandbox = NoSandbox::new("/parent/workspace".to_string());
    let disk = Disk::new(&["/parent", "/parent/workspace"]);
    let request = sandbox.write("../sibling.txt");
    let place = disk.resolve(&request.place).unwrap();
    assert!(place.ends_with("../sibling.txt"), "{place}");
    assert!(place.starts_with("/parent/workspace"), "{place}");
}

#[test]
fn docker_sandbox_accepts_workspace_absolute_paths_for_fs_tools() {
    let sandbox = DockerSandbox::new(docker_config());
    let disk = Disk::new(&["/host"]);
    assert_eq!(
        disk.resolve(&sandbox.mkdir("/workspace/dir", true).place),
        Ok("/host/dir".to_string())
    );
    let disk = Disk::new(&["/host", "/host/dir", "/host/dir/note.txt"]);
    for request in [
        sandbox.write("/workspace/dir/note.txt"),
        sandbox.read("/workspace/dir/note.txt"),
        sandbox.replace("/workspace/dir/note.txt"),
        sandbox.remove("/workspace/dir/note.txt"),
    ] {
        assert_eq!(disk.resolve(&request.place), Ok("/host/dir/note.txt".to_string()));
    }
    assert_eq!(
        disk.resolve(&sandbox.list("/workspace/dir").place),
        Ok("/host/dir".to_string())
    );
}

#[test]
fn docker_sandbox_rejects_host_absolute_paths() {
    let sandbox = DockerSandbox::new(docker_config());
    let disk = Disk::new(&["/host"]);
    let err = disk.resolve(&sandbox.write("/host/note.txt").place);
    assert!(err
        .unwrap_err()
        .contains("absolute sandbox path must start with /workspace"));
}

#[test]
fn paths_of_a_container_stay_inside() {
    let sandbox = DockerSandbox::new(docker_config());
    let disk = Disk::new(&["/host"]);
    assert_eq!(
        disk.resolve(&sandbox.read("../secret").place),
        Err("path may not contain '..'".to_string())
    );
    let linked = Disk {
        there: vec!["/host".to_string(), "/outside".to_string(), "/outside/a".to_string()],
        links: vec![("/host/link".to_string(), "/outside".to_string())],
    };
    assert!(linked.resolve(&sandbox.read("link/a").place).is_err());
    assert!(linked.resolve(&sandbox.write("link/new").place).is_err());
    assert!(linked.resolve(&sandbox.mkdir("link/new", true).place).is_err());
    assert!(disk.resolve(&sandbox.read("missing").place).is_err());
}

#[test]
fn parts_are_cleaned() {
    let parts = |list: &[&str]| list.iter().map(|p| p.to_string()).collect::<Vec<_>>();
    assert_eq!(clean_relative_components(&parts(&["a", ".", "b"])), Ok("a/b".to_string()));
    assert_eq!(clean_relative_components(&parts(&[])), Ok(".".to_string()));
    assert!(clean_relative_components(&parts(&["a", ".."])).is_err());
    assert_eq!(clean_workspace_path("/workspace", "/workspace"), Ok(".".to_string()));
    let outside = clean_workspace_path("/etc", "/workspace").unwrap_err();
    assert_eq!(outside.message, "absolute sandbox path must start with /workspace");
    assert_eq!(outside.cause, some("prefix not found"));
    let unlabelled = clean_workspace_path("/etc", "").unwrap_err();
    assert_eq!(unlabelled.message, "path must be relative to the sandbox root");
    assert_eq!(unlabelled.cause, None);
}

#[test]
fn a_missing_directory_needs_those_above_it() {
    let request = PathRequest {
        root: "/host".to_string(),
        label: some("/workspace"),
        path: "a/b".to_string(),
        need: PathNeed::Dir { recursive: false },
    };
    let disk = Disk::new(&["/host", "/host/a"]);
    assert_eq!(disk.resolve(&request), Ok("/host/a/b".to_string()));
}

// -------------------------------------------------------------------- file texts

#[test]
fn mod_replace_reports_match_counts() {
    assert_eq!(
        replace_text("one two one", "missing", "x"),
        (ReplaceResult::NotFound, None)
    );
    assert_eq!(
        replace_text("one two one", "one", "x"),
        (ReplaceResult::MultipleMatches(2), None)
    );
    assert_eq!(
        replace_text("one two one", "two", "2"),
        (ReplaceResult::Replaced, some("one 2 one"))
    );
}

#[test]
fn matches_do_not_overlap() {
    assert_eq!(count_matches("aaaa", "aa"), 2);
    assert_eq!(count_matches("abc", "x"), 0);
    assert_eq!(count_matches("abc", ""), 4);
}

#[test]
fn listings_mark_directories() {
    let entries = vec![
        DirEntry { name: "b".to_string(), is_dir: false },
        DirEntry { name: "a".to_string(), is_dir: true },
    ];
    assert_eq!(list_entries(&entries), vec!["a/", "b"]);
    assert_eq!(choose_removal(true, true), Removal::Tree);
    assert_eq!(choose_removal(false, true), Removal::Dir);
    assert_eq!(choose_removal(false, false), Removal::File);
}

#[test]
fn times_fit_in_what_is_kept() {
    assert_eq!(sandbox_metadata(3, Some(7)).modified_ms, Some(7));
    assert_eq!(sandbox_metadata(3, None).modified_ms, None);
    assert_eq!(sandbox_metadata(3, None).len, 3);
}

// -------------------------------------------------------------------- commands

#[test]
fn timed_out_unnamed_bash_returns_pid_and_poll_completes() {
    let mut tasks = BashTaskRegistry::new();
    let pid = tasks.start_task(None, Some(41), 0);
    tasks.append_task_stdout(&pid, "start\n");
    assert_eq!(tasks.wait_for_task(&pid, false), None);
    let out = tasks.wait_for_task(&pid, true).unwrap();
    assert_eq!(out.status, SandboxBashStatus::Running);
    assert!(out.timed_out);
    assert_eq!(out.pid, Some(pid.clone()));
    let mut combined_stdout = out.stdout;
    tasks.append_task_stdout(&pid, "done\n");
    tasks.on_exit(&pid, Some(0), 5);
    let completed = tasks.poll(&pid, 6);
    combined_stdout.push_str(&completed.stdout);
    assert_eq!(completed.status, SandboxBashStatus::Completed);
    assert_eq!(completed.exit_code, 0);
    assert!(combined_stdout.contains("start"));
    assert!(combined_stdout.contains("done"));

    let repeated = tasks.poll(&pid, 7);
    assert_eq!(repeated.status, SandboxBashStatus::Completed);
    assert!(repeated.stdout.is_empty());
}

#[test]
fn timed_out_unnamed_bash_can_be_cancelled() {
    let mut tasks = BashTaskRegistry::new();
    let pid = tasks.start_task(None, Some(41), 0);
    assert_eq!(tasks.cancel(&pid, 1), CancelStep::Terminate(Some(41)));
    let cancelled = tasks.cancelled_task(&pid);
    assert_eq!(cancelled.status, SandboxBashStatus::Cancelled);
    assert_eq!(cancelled.exit_code, -1);

    let polled = tasks.poll(&pid, 2);
    assert_eq!(polled.status, SandboxBashStatus::Cancelled);
    tasks.on_exit(&pid, Some(0), 3);
    assert_eq!(tasks.poll(&pid, 4).status, SandboxBashStatus::Cancelled);
}

#[test]
fn timed_out_named_bash_blocks_same_name_until_complete() {
    let mut sandbox = NoSandbox::new("/root".to_string());
    let start = sandbox.bash("sleep 1", &some("alpha"), &None, 0).unwrap();
    assert!(matches!(start, BashStart::Session { ref name, open: Some(_) } if name == "alpha"));
    sandbox.bash.session_opened("alpha");
    let pid = sandbox.bash.tasks.start_task(some("alpha"), None, 0);

    let err = sandbox.bash("printf should-not-run", &some("alpha"), &None, 1).unwrap_err();
    assert!(err.message.contains("still running task"));
    assert!(err.message.contains(&pid));

    let beta = sandbox.bash("printf beta", &some("beta"), &None, 1).unwrap();
    assert!(matches!(beta, BashStart::Session { ref name, open: Some(_) } if name == "beta"));

    assert!(!sandbox.bash.tasks.on_session_done(&pid, Ok(0), 2));
    assert_eq!(sandbox.bash_poll(&pid, 3).status, SandboxBashStatus::Completed);
    let after = sandbox.bash("printf kept", &some("alpha"), &None, 4).unwrap();
    assert!(matches!(after, BashStart::Session { ref name, open: None } if name == "alpha"));
    sandbox.bash.session_closed("alpha");
    assert!(!sandbox.bash.is_open("alpha"));
}

#[test]
fn mod_invalid_named_bash_names_are_rejected() {
    let mut sandbox = NoSandbox::new("/root".to_string());
    let err = sandbox.bash("true", &some("bad/name"), &None, 0).unwrap_err();
    assert!(err.message.contains("named bash session"));
    let too_long = "a".repeat(65);
    let err = sandbox.bash("true", &Some(too_long), &None, 0).unwrap_err();
    assert!(err.message.contains("at most 64"));
    assert_eq!(validate_named(" build_1 "), Ok("build_1".to_string()));
    assert!(validate_named(" ").is_err());
}

#[test]
fn mod_no_sandbox_unnamed_bash_is_stateless() {
    let mut sandbox = NoSandbox::new("/root".to_string());
    for named in [None, some(" ")] {
        let start = sandbox.bash("pwd", &named, &some("/bin/zsh"), 0).unwrap();
        match start {
            BashStart::Once(launch) => {
                assert_eq!(launch.program, "/bin/zsh");
                assert_eq!(launch.dir, some("/root"));
                assert!(launch.args.last().unwrap().ends_with("\npwd"));
            }
            other => panic!("expected a program of its own, got {other:?}"),
        }
    }
}

#[test]
fn finished_commands_are_kept_a_while() {
    let mut tasks = BashTaskRegistry::new();
    let pid = tasks.start_task(None, None, 0);
    tasks.on_exit(&pid, Some(3), 10);
    assert_eq!(tasks.poll(&pid, 10 + BASH_TASK_RETAIN_MS - 1).exit_code, 3);
    let gone = tasks.poll(&pid, 10 + BASH_TASK_RETAIN_MS + 1);
    assert_eq!(gone.status, SandboxBashStatus::NotFound);
    assert!(matches!(tasks.cancel(&pid, 0), CancelStep::NotFound(_)));
}

#[test]
fn a_session_ends_a_command_by_its_marker() {
    let mut tasks = BashTaskRegistry::new();
    let pid = tasks.start_task(some("alpha"), None, 0);
    assert_eq!(tasks.on_session_line(&pid, "out\r\n", "MARK"), None);
    assert_eq!(tasks.on_session_line(&pid, "\r\n", "MARK"), None);
    assert_eq!(tasks.on_session_line(&pid, "MARK:7\r\n", "MARK"), Some(7));
    assert!(!tasks.on_session_done(&pid, Ok(7), 1));
    let out = tasks.poll(&pid, 2);
    assert_eq!(out.exit_code, 7);
    assert_eq!(out.stdout, "out\r\n");
}

#[test]
fn a_lost_session_is_of_no_more_use() {
    let mut tasks = BashTaskRegistry::new();
    let pid = tasks.start_task(some("alpha"), None, 0);
    assert_eq!(tasks.active_named_pid("alpha", 0), Some(pid.clone()));
    assert!(tasks.on_session_done(&pid, Err("named bash session exited".to_string()), 1));
    let out = tasks.poll(&pid, 2);
    assert_eq!(out.exit_code, -1);
    assert_eq!(out.message, some("named bash session exited"));
    assert_eq!(tasks.active_named_pid("alpha", 2), None);
}

#[test]
fn what_cannot_be_read_or_waited_for_is_said() {
    let mut tasks = BashTaskRegistry::new();
    let pid = tasks.start_task(None, None, 0);
    tasks.set_os_pid(&pid, Some(9));
    tasks.append_task_stderr(&pid, "warning\n");
    tasks.on_read_error(&pid, "broken pipe");
    tasks.on_wait_error(&pid, "no child", 1);
    let out = tasks.poll(&pid, 2);
    assert_eq!(out.os_pid, Some(9));
    assert_eq!(out.exit_code, -1);
    assert!(out.stderr.contains("warning"));
    assert_eq!(out.message, some("bash wait failed: no child"));
}

#[test]
fn output_is_shown_once() {
    let mut cursor: usize = 0;
    assert_eq!(take_incremental("héllo", &mut cursor), "héllo");
    assert_eq!(take_incremental("héllo world", &mut cursor), " world");
    assert_eq!(take_incremental("héllo world", &mut cursor), "");
    assert_eq!(cursor, "héllo world".len());
}

#[test]
fn the_cursor_counts_bytes() {
    let mut cursor: usize = 0;
    assert_eq!(take_incremental("é", &mut cursor), "é");
    assert_eq!(cursor, 2);
    let mut cursor: usize = 3;
    assert_eq!(take_incremental("你好", &mut cursor), "好");
    assert_eq!(cursor, 6);
    let mut behind: usize = 9;
    assert_eq!(take_incremental("你好", &mut behind), "");
    assert_eq!(behind, 6);
}

#[test]
fn nothing_is_lost_or_repeated() {
    let mut cursor: usize = 0;
    let mut shown = String::new();
    for buffer in ["", "ä", "ä你", "ä你", "ä你 done"] {
        shown.push_str(&take_incremental(buffer, &mut cursor));
        assert_eq!(shown, buffer);
    }
}

#[test]
fn a_command_that_ends_when_the_time_is_up_counts_as_running() {
    let mut tasks = BashTaskRegistry::new();
    let pid = tasks.start_task(None, None, 0);
    tasks.append_task_stdout(&pid, "ü");
    tasks.on_exit(&pid, Some(0), 1);
    let out = tasks.wait_for_task(&pid, true).unwrap();
    assert_eq!(out.status, SandboxBashStatus::Running);
    assert!(out.timed_out);
    assert_eq!(out.stdout, "ü");
    let out = tasks.wait_for_task(&pid, false).unwrap();
    assert_eq!(out.status, SandboxBashStatus::Completed);
    assert_eq!((out.pid, out.stdout.as_str()), (None, ""));
}

// ----------------------------------------------------------------------- shells

#[test]
fn shells_are_started_as_they_need() {
    assert_eq!(shell_name("/usr/bin/zsh"), "zsh");
    assert_eq!(user_shell(&some("/usr/bin/fish")), "bash");
    assert_eq!(user_shell(&some("/usr/bin/zsh")), "/usr/bin/zsh");
    assert_eq!(user_shell(&None), "bash");
    assert!(shell_startup_script("/bin/bash").contains(".bashrc"));
    assert_eq!(shell_startup_script("sh"), "");
    let args = shell_command_args("/bin/bash", "ls");
    assert_eq!(&args[..2], ["-l", "-c"]);
    assert!(args[2].ends_with("\nls"));
    assert_eq!(shell_session_args("/bin/bash"), vec!["-l"]);
}

#[test]
fn markers_end_commands() {
    let marker = new_done_marker();
    assert!(marker.starts_with("__REMI_BASH_DONE_"));
    assert_ne!(marker, new_done_marker());
    assert!(new_ready_marker().starts_with("__REMI_BASH_READY_"));
    let wrapped = wrap_session_command("ls", "MARK");
    assert!(wrapped.starts_with("ls 2>&1\n"));
    assert!(wrapped.contains("MARK:%s"));
    assert!(session_startup_probe("bash", "READY").contains("READY"));
    assert!(is_ready_line("READY\r\n", "READY"));
    assert!(!is_ready_line("READY!", "READY"));
    assert_eq!(parse_marker_line("MARK:12\n", "MARK"), Some(12));
    assert_eq!(parse_marker_line("MARK:x\n", "MARK"), None);
    assert_eq!(parse_marker_line("other\n", "MARK"), None);
}

#[test]
fn numbers_fit_in_a_code() {
    assert_eq!(parse_number("-1"), Some(-1));
    assert_eq!(parse_number("+7"), Some(7));
    assert_eq!(parse_number("2147483647"), Some(i32::MAX));
    assert_eq!(parse_number("2147483648"), None);
    assert_eq!(parse_number("-2147483648"), Some(i32::MIN));
    assert_eq!(parse_number(""), None);
    assert_eq!(parse_number("-"), None);
}

// ---------------------------------------------------------------------- settings

fn settings() -> SandboxSettings {
    SandboxSettings {
        kind: None,
        host_dir: None,
        container_dir: None,
        image: None,
        container_name: None,
        user: None,
        host_user: some("1000:1000"),
    }
}

#[test]
fn the_kind_of_sandbox_is_chosen() {
    let local = SandboxConfig::from_env("/data", BashMode::Local, &settings());
    assert_eq!(local.kind(), "no_sandbox");
    assert!(local.bash_enabled());
    let docker = SandboxConfig::from_env(
        "/data",
        BashMode::Local,
        &SandboxSettings { kind: some(" Docker "), ..settings() },
    );
    assert_eq!(docker.kind(), "docker");
    assert_eq!(docker.workspace_root_label(), "/workspace");
    match &docker {
        SandboxConfig::Docker(config) => assert_eq!(config.user, some("1000:1000")),
        other => panic!("expected docker, got {other:?}"),
    }
    let disabled = SandboxConfig::from_env(
        "/data",
        BashMode::Local,
        &SandboxSettings { kind: some("disabled"), host_dir: some("/here"), ..settings() },
    );
    assert_eq!(disabled.kind(), "disabled");
    assert_eq!(disabled.host_dir(), "/here");
    assert!(!disabled.bash_enabled());
    assert!(matches!(docker.build(), Ok(BuiltSandbox::Docker(_))));
    assert!(matches!(local.build(), Ok(BuiltSandbox::Local(_))));
}

#[test]
fn a_user_needs_both_ids() {
    assert_eq!(current_host_user_spec(&some("1000\n"), &some("100\n")), some("1000:100"));
    assert_eq!(current_host_user_spec(&some("1000"), &None), None);
    assert_eq!(current_host_user_spec(&some(" "), &some("100")), None);
}

// ------------------------------------------------------------------------ docker

fn printed(success: bool, stdout: &str, stderr: &str) -> DockerEvent {
    DockerEvent::Output(Ok(CommandOutput {
        success,
        stdout: stdout.to_string(),
        stderr: stderr.to_string(),
    }))
}

#[test]
fn a_container_is_started_or_made() {
    let config = docker_config();
    let inspecting = || {
        let (state, step) = config.ensure_running();
        assert!(matches!(step, DockerStep::CreateDir(ref dir) if dir == "/host"));
        let (state, _) = config.advance(state, DockerEvent::Created(Ok(())));
        let (state, step) = config.advance(state, DockerEvent::Canonical(Ok("/real".to_string())));
        assert!(matches!(step, DockerStep::Docker(ref args) if args[0] == "inspect"));
        state
    };
    let (_, step) = config.advance(inspecting(), printed(true, "true\n", ""));
    assert!(matches!(step, DockerStep::Ready));
    let (state, step) = config.advance(inspecting(), printed(true, "false\n", ""));
    assert!(matches!(step, DockerStep::Docker(ref args) if args[0] == "start"));
    let (_, step) = config.advance(state, printed(true, "", ""));
    assert!(matches!(step, DockerStep::Ready));
    let (state, step) = config.advance(inspecting(), printed(false, "", "no such object"));
    assert!(matches!(step, DockerStep::Docker(ref args) if args[0] == "run"
        && args.contains(&"/real:/workspace".to_string())));
    let (state, step) = config.advance(state, printed(false, "", " no image \n"));
    assert_eq!(state, DockerState::Over);
    assert!(matches!(step, DockerStep::Failed(ref e) if e.message.ends_with("no image")));
}

#[test]
fn a_user_is_named_to_docker() {
    let config = DockerSandboxConfig { user: some("1:2"), ..docker_config() };
    let args = config.exec_args("ls");
    assert_eq!(args[3..5], ["-u".to_string(), "1:2".to_string()]);
    assert!(config.open_args().contains(&"-i".to_string()));
    assert_eq!(config.start_args(), vec!["start", "unused"]);
    assert_eq!(config.inspect_args()[0], "inspect");
    assert!(config.run_args("/real").ends_with(&["sleep".to_string(), "infinity".to_string()]));
}
