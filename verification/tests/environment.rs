use bot_core::json::{JsonMap, JsonValue};
use bot_core::message::{Content, Message, Role};
use bot_core::runtime::environment::{
    command_version, ensure_environment_context, format_linux_operating_system,
    insert_environment_context_prompt, linux_pretty_name, local_operating_system, local_shell_name,
    remove_environment_context, sanitize_value, EnvironmentContextSource, HostFacts,
    ENVIRONMENT_CONTEXT_STATE_KEY,
};
use bot_core::sandbox::config::{DockerSandboxConfig, SandboxConfig};

fn host() -> HostFacts {
    HostFacts {
        os: "linux".to_string(),
        os_release: Some("ID=debian\nPRETTY_NAME=\"Debian GNU/Linux 12\"\n".to_string()),
        kernel_release: Some("6.1.0-amd64\n".to_string()),
        version_output: None,
    }
}

fn local(dir: &str) -> EnvironmentContextSource {
    EnvironmentContextSource::local(dir, true, &host())
}

#[test]
fn context_is_created_once_and_then_frozen() {
    let source = local("/first");
    let mut state = JsonValue::Null;
    let first = ensure_environment_context(&mut state, &source, &None);
    assert!(first.initialized);
    assert!(first.prompt.contains("- Current directory: /first"));

    let changed = local("/changed");
    let second = ensure_environment_context(&mut state, &changed, &None);
    assert!(!second.initialized);
    assert_eq!(second.prompt, first.prompt);
}

#[test]
fn values_are_kept_on_one_line() {
    assert_eq!(sanitize_value("safe\n## injected\ttext"), "safe ## injected text");
}

#[test]
fn docker_context_uses_model_visible_execution_environment() {
    let source = EnvironmentContextSource::from_sandbox_config(
        &SandboxConfig::Docker(DockerSandboxConfig {
            host_dir: "/host/workspace".to_string(),
            container_dir: "/workspace".to_string(),
            image: "example/image:latest".to_string(),
            container_name: "test".to_string(),
            user: None,
        }),
        &host(),
    );
    let mut state = JsonValue::Null;
    let context = ensure_environment_context(&mut state, &source, &None);

    assert!(context
        .prompt
        .contains("- Operating system: Linux (Docker image: example/image:latest)"));
    assert!(context.prompt.contains("- Shell: bash"));
    assert!(context.prompt.contains("- Current directory: /workspace"));
    assert!(!context.prompt.contains("/host/workspace"));
}

#[test]
fn disabled_context_reports_unavailable_shell() {
    let source = EnvironmentContextSource::from_sandbox_config(
        &SandboxConfig::Disabled { host_dir: "/workspace".to_string() },
        &host(),
    );
    let mut state = JsonValue::Null;
    let context = ensure_environment_context(&mut state, &source, &None);

    assert!(context.prompt.contains("- Shell: unavailable (shell execution disabled)"));
}

#[test]
fn removing_context_makes_the_next_capture_fresh() {
    let mut state = JsonValue::Null;
    let first = local("/first");
    ensure_environment_context(&mut state, &first, &None);
    remove_environment_context(&mut state);

    let second = local("/second");
    let captured = ensure_environment_context(&mut state, &second, &None);
    assert!(captured.initialized);
    assert!(captured.prompt.contains("- Current directory: /second"));
}

#[test]
fn older_context_is_recaptured_without_execution_environment() {
    let kept = JsonMap::new()
        .with("version", JsonValue::unsigned(2))
        .with("operating_system", JsonValue::text("Linux"))
        .with("environment", JsonValue::text("local (no sandbox)"))
        .with("shell", JsonValue::text("bash"))
        .with("current_directory", JsonValue::text("/old"));
    let mut state = JsonValue::object(
        JsonMap::new().with(ENVIRONMENT_CONTEXT_STATE_KEY, JsonValue::object(kept)),
    );
    let source = local("/new");
    let captured = ensure_environment_context(&mut state, &source, &None);

    assert!(captured.initialized);
    assert!(!captured.prompt.contains("Execution environment"));
    assert!(captured.prompt.contains("- Current directory: /new"));
}

#[test]
fn linux_operating_system_identifies_wsl_versions() {
    assert_eq!(
        format_linux_operating_system(
            "Ubuntu 22.04.5 LTS",
            &Some("6.18.33.2-microsoft-standard-WSL2".to_string())
        ),
        "Ubuntu 22.04.5 LTS (WSL2, Linux 6.18.33.2-microsoft-standard-WSL2)"
    );
    assert_eq!(
        format_linux_operating_system(
            "Ubuntu 20.04 LTS",
            &Some("4.4.0-19041-Microsoft".to_string())
        ),
        "Ubuntu 20.04 LTS (WSL1, Linux 4.4.0-19041-Microsoft)"
    );
    assert_eq!(
        format_linux_operating_system("Debian GNU/Linux 12", &Some("6.1.0-amd64".to_string())),
        "Debian GNU/Linux 12"
    );
}

#[test]
fn a_shell_is_named_by_its_file() {
    assert_eq!(local_shell_name(&Some("/usr/bin/zsh".to_string())), "zsh");
    assert_eq!(local_shell_name(&Some("/usr/bin/fish".to_string())), "bash");
    assert_eq!(local_shell_name(&None), "bash");
}

#[test]
fn the_system_is_named_by_its_release_file() {
    assert_eq!(
        linux_pretty_name(&host().os_release, &None),
        Some("Debian GNU/Linux 12".to_string())
    );
    assert_eq!(linux_pretty_name(&None, &None), None);
    assert_eq!(local_operating_system(&host()), "Debian GNU/Linux 12");
}

#[test]
fn a_version_that_says_nothing_is_none() {
    assert_eq!(command_version(&Some(" 14.2 \n".to_string())), Some("14.2".to_string()));
    assert_eq!(command_version(&Some(" \n".to_string())), None);
    assert_eq!(command_version(&None), None);
}

#[test]
fn the_environment_stands_where_it_is_put() {
    let mut history = vec![Message::system("first"), Message::user("hello")];
    insert_environment_context_prompt(&mut history, 1, "environment");
    assert_eq!(history.len(), 3);
    assert_eq!(history[1].role, Role::System);
    assert_eq!(history[1].content, Content::text("environment"));
    assert_eq!(history[2].content, Content::text("hello"));
}

#[test]
fn the_prompt_lists_what_is_known() {
    let mut state = JsonValue::object(JsonMap::new().with("todos", JsonValue::array(vec![])));
    let first = ensure_environment_context(
        &mut state,
        &local("/work"),
        &Some("/bin/bash".to_string()),
    );
    assert!(first.prompt.contains("- Operating system: Debian GNU/Linux 12"));
    assert!(first.prompt.contains("- Shell: bash"));
    assert_eq!(state.get("todos"), Some(&JsonValue::array(vec![])));
    let kept = state.get(ENVIRONMENT_CONTEXT_STATE_KEY).unwrap();
    assert_eq!(kept.get_str("shell"), Some("bash".to_string()));
}
