use bot_core::json::{JsonMap, JsonValue};
use bot_core::message::{Content, ContentPart, Message, Role, ToolCallMessage};
use bot_core::profile::{
    AgentModelBindings, AgentProfile, ModelProfileConfig, ModelProfileRegistry, ReasoningEffort,
};
use bot_core::runtime::acp::{
    acp_compression_failed, acp_error, acp_excess, acp_loop_start, acp_unbind_channel, AcpEvent,
    AcpStep, LocalAcpRun,
};
use bot_core::runtime::bot::{
    compaction_may_start, compaction_payload, fork_thread_data, is_thread_running, thread_failure,
    CatBot,
};
use bot_core::runtime::budget::supervisor_prompt_budget_tokens;
use bot_core::runtime::builder::{
    parse_days, workspace_access, BuildFacts, BuilderEnvironment, CatBotBuilder, ModelOptions, ResolvedModel,
};
use bot_core::runtime::content_log::{preview_url_header, summarize_content_for_log};
use bot_core::runtime::delegates::{
    agent_tool_allowlist, delegate_tool_name, expand_skill_discovery_tools, make_delegate_tool,
    register_delegate_agent_tools, DelegateDefaults, RemiSubAgentTool,
};
use bot_core::runtime::effective::{
    apply_reasoning_effort_override, model_runtime_key, model_runtime_variants,
    resolve_effective_model_profile, EffectiveAgentSource, EffectiveModelSource, EffortOptions,
};
use bot_core::runtime::markers::{
    carried_by_marker, cat_event_from_subagent_approval_marker, read_marker,
    tool_approval_requested_marker, tool_approval_resolved_marker, tool_approval_updated_marker,
    user_question_requested_marker, user_question_resolved_marker, user_question_updated_marker,
    MarkerFit, MarkerKind, UserQuestion, SUBAGENT_APPROVAL_MARKER_AGENT,
};
use bot_core::runtime::memory::{annotate_tool_elapsed_ms, persist_turn};
use bot_core::runtime::options::StreamOptions;
use bot_core::runtime::recorder::PartialTurnRecorder;
use bot_core::runtime::snapshot::{content_to_model_input_text, model_input_snapshot_from_loop_input};
use bot_core::runtime::steer::{SteerInput, SteerSource, SteerSubmitResult};
use bot_core::runtime::subagent::{
    relay, sub_session_done_event, subagent_metadata, LoadedSession, ProtocolEvent, RelayedEvent,
    StopHookReply, StopStep, SubAgentRun, SubAgentSession,
};
use bot_core::runtime::tools::{
    build_subagent_tools, builtin_tool_catalog, tool_errors, tool_runtime_errors, tool_warnings,
    AcpClientToolSupport, AgentTools, HostTool, LocalToolDeps, RuntimeTool, ToolDefinition,
    ToolEntry, ToolSurroundings,
};
use bot_core::runtime::turn_input::HookReply;
use bot_core::sandbox::config::{DockerSandboxConfig, SandboxConfig, SandboxSettings};
use bot_core::skill::builtin::BuiltinSkillStore;
use bot_core::skill::store::FileSkillStore;
use bot_core::text_map::TextMap;

fn some(text: &str) -> Option<String> {
    Some(text.to_string())
}

fn model(id: &str) -> ModelProfileConfig {
    ModelProfileConfig {
        id: id.to_string(),
        name: id.to_string(),
        description: None,
        provider: None,
        model: format!("{id}-model"),
        base_url: None,
        thinking: None,
        reasoning_effort: None,
        max_output_tokens: 4096,
        context_tokens: 128000,
        supports_images: true,
        legacy_short_term_tokens: None,
        overflow_bytes: 16384,
        auto_compress: true,
        extra_options: JsonMap::new(),
    }
}

fn registry(ids: &[&str]) -> ModelProfileRegistry {
    let mut profiles = TextMap::new();
    for id in ids {
        profiles.insert(id.to_string(), model(id));
    }
    ModelProfileRegistry { profiles }
}

fn agent(id: &str) -> AgentProfile {
    AgentProfile {
        id: id.to_string(),
        name: id.to_string(),
        description: format!("{id} agent"),
        model: None,
        base_url: None,
        models: AgentModelBindings { primary: None, helper: None, vision: None },
        tools: vec![],
        delegates: vec![],
        max_turns: None,
        persistent_sessions: false,
        system_prompt: format!("You are {id}."),
    }
}

fn agents(ids: &[&str]) -> TextMap<AgentProfile> {
    let mut map = TextMap::new();
    for id in ids {
        map.insert(id.to_string(), agent(id));
    }
    map
}

fn builder() -> CatBotBuilder {
    CatBotBuilder {
        api_key: "test".to_string(),
        model_profile: model("default"),
        runtime_model_locked: false,
        system: "system".to_string(),
        skills_dir: "skills".to_string(),
        data_dir: "data".to_string(),
        agent_md_path: None,
        overflow_bytes: None,
        memory_days: 7,
        sandbox_config: SandboxConfig::Disabled { host_dir: "data".to_string() },
        im_bridge: false,
        extra_options: JsonMap::new(),
        tool_allowlist: None,
        delegate_ids: vec![],
        active_agent_id: "default".to_string(),
        model_bindings: AgentModelBindings { primary: None, helper: None, vision: None },
        approval_model_profile_id: None,
        agents_dir: "agents".to_string(),
        max_turns: Some(2),
        model_registry: registry(&["default", "other"]),
        acp_client_tools: None,
    }
}

fn facts() -> BuildFacts {
    let mut options = TextMap::new();
    for id in ["default", "other"] {
        options.insert(id.to_string(), ModelOptions { plain: Ok(JsonMap::new()), efforts: vec![] });
    }
    let mut keys = TextMap::new();
    keys.insert("other".to_string(), "other-key".to_string());
    BuildFacts {
        context_percent: None,
        has_agent_md: false,
        approval_key: Ok("approval-key".to_string()),
        keys,
        options,
        agents: agents(&["coder"]),
    }
}

fn tools() -> AgentTools {
    let tool = |name: &str, enabled: bool| ToolDefinition {
        name: name.to_string(),
        description: format!("{name} tool"),
        enabled,
    };
    AgentTools {
        local_tools: vec![tool("fs_read", true), tool("bash", false)],
        model_tools: Some(vec![tool("web_search", true)]),
        tool_allowlist: Some(vec!["fs_read".to_string(), "bash".to_string()]),
    }
}

fn bot() -> CatBot {
    CatBot::new(
        builder().build(facts()).unwrap(),
        model("default"),
        registry(&["default", "other"]),
        BuiltinSkillStore::new(FileSkillStore::with_roots(vec![]), vec![]),
        tools(),
        "/work".to_string(),
    )
}

// ---------------------------------------------------------------------- builder

#[test]
fn a_bot_has_a_runtime_for_each_agent_and_model() {
    let bot = bot();
    let own = bot.runtime_for_agent_and_model("default", "default");
    assert_eq!(own.profile.id, "default");
    assert_eq!(own.agent_id, "default");
    let other = bot.runtime_for_agent_and_model("coder", "other");
    assert_eq!(other.agent_id, "coder");
    assert_eq!(other.profile.id, "other");
    assert_eq!(other.api_key, "other-key");
    let unknown = bot.runtime_for_agent_and_model("nobody", "missing");
    assert_eq!(unknown.agent_id, "default");
    assert_eq!(bot.agent_for_model_profile("other").profile.id, "other");
    assert_eq!(bot.active_agent(&some("coder"), &some("other")).agent_id, "coder");
    assert_eq!(bot.parts.approval_key, "approval-key");
    assert_eq!(own.inner_agent().max_turns, 2);
}

#[test]
fn a_bot_without_a_key_for_reviews_is_not_built() {
    let mut facts = facts();
    facts.approval_key = Err("no key".to_string());
    assert!(builder().build(facts).unwrap_err().contains("no key"));
    let mut facts = self::facts();
    facts.context_percent = some("0");
    assert!(builder().build(facts).is_err());
}

#[test]
fn a_builder_reads_its_environment() {
    let none = || BuilderEnvironment {
        memory_days: None,
        overflow_bytes: None,
        older_overflow_bytes: None,
        shell_mode: None,
        bash_mode: None,
        agent_md_path: None,
        data_dir: None,
        model_profile: None,
        approval_model_profile: None,
        agent_id: None,
        agents_dir: None,
        sandbox: SandboxSettings {
            kind: None,
            host_dir: None,
            container_dir: None,
            image: None,
            container_name: None,
            user: None,
            host_user: None,
        },
    };
    let resolved = || ResolvedModel {
        profile: model("default"),
        extra_options: JsonMap::new(),
        api_key: "key".to_string(),
    };
    let made = CatBotBuilder::from_env(
        &none(),
        resolved(),
        registry(&["default"]),
        "default system".to_string(),
        &agents(&[]),
    )
    .unwrap();
    assert_eq!(made.memory_days, 7);
    assert_eq!(made.system, "default system");
    assert!(!made.runtime_model_locked);
    let mut env = none();
    env.memory_days = some("30");
    env.model_profile = some("default");
    let made = CatBotBuilder::from_env(
        &env,
        resolved(),
        registry(&["default"]),
        "default system".to_string(),
        &agents(&[]),
    )
    .unwrap();
    assert_eq!(made.memory_days, 30);
    assert!(made.runtime_model_locked);
    assert_eq!(parse_days("30"), Some(30));
    assert_eq!(parse_days("x"), None);
    assert_eq!(parse_days("18446744073709551616"), None);
}

#[test]
fn a_builder_takes_what_it_is_given() {
    let made = builder()
        .system("s".to_string())
        .skills_dir("sk".to_string())
        .data_dir("d".to_string())
        .overflow_bytes(5)
        .im_bridge()
        .approval_model_profile("other".to_string())
        .acp_client_tools(AcpClientToolSupport { terminal: true, fs_read: false, fs_write: false });
    assert_eq!(made.system, "s");
    assert_eq!(made.skills_dir, "sk");
    assert_eq!(made.data_dir, "d");
    assert_eq!(made.overflow_bytes, Some(5));
    assert!(made.im_bridge);
    assert_eq!(made.approval_profile().unwrap().id, "other");
    assert!(builder()
        .approval_model_profile("missing".to_string())
        .approval_profile()
        .is_err());
}

// -------------------------------------------------------------------------- bot

fn steer(session: &str) -> SteerInput {
    SteerInput {
        session_id: session.to_string(),
        content: Content::text("more"),
        sender_user_id: None,
        sender_username: some("Alice"),
        message_id: None,
        chat_type: None,
        platform: None,
    }
}

#[test]
fn only_a_running_session_is_steered() {
    let mut bot = bot();
    assert_eq!(bot.submit_steer(steer("a")), SteerSubmitResult::NotRunning);
    assert!(bot.steers.register("a"));
    assert!(!bot.steers.register("a"));
    match bot.submit_steer(steer("a")) {
        SteerSubmitResult::Queued(event) => {
            assert_eq!(event.session_id, "a");
            assert_eq!(event.preview, "more");
        }
        other => panic!("expected a queued input, got {other:?}"),
    }
    bot.submit_next_turn(steer("a"));
    let waiting = bot.steers.active.get("a").unwrap();
    assert_eq!(waiting.len(), 2);
    assert_eq!(waiting[0].source, SteerSource::User);
    assert_eq!(waiting[1].source, SteerSource::UserNextTurn);
    bot.steers.release("a", true);
    assert_eq!(bot.submit_next_turn(steer("a")), SteerSubmitResult::NotRunning);
}

#[test]
fn sessions_fall_back_to_the_defaults() {
    let bot = bot();
    let chosen = bot.effective_model_profile(&some("other"));
    assert_eq!(chosen.profile.id, "other");
    assert_eq!(chosen.source, EffectiveModelSource::Session);
    let fallen = bot.effective_model_profile(&some("missing"));
    assert_eq!(fallen.profile.id, "default");
    assert_eq!(fallen.invalid_session_model, some("missing"));
    assert_eq!(bot.effective_agent_profile(&some("coder")).source, EffectiveAgentSource::Session);
    assert_eq!(
        bot.effective_agent_profile_for_workflow(&None, &some("coder")).source,
        EffectiveAgentSource::Workflow
    );
    assert_eq!(bot.effective_agent_profile(&None).profile.id, "default");
    assert_eq!(bot.model_context_tokens(), 128000);
    assert_eq!(bot.model_context_tokens_for(&None), 128000);
    assert_eq!(bot.model_context_tokens_for_agent(&None, &None), 128000);
    assert_eq!(bot.model_profiles().len(), 2);
    assert!(bot.get_model_profile("other").is_some());
    assert!(bot.get_agent_profile("coder").is_some());
    assert!(bot.agent_profiles().len() >= 1);
    assert_eq!(bot.default_agent_profile().id, "default");
    assert_eq!(bot.default_model_profile().id, "default");
}

#[test]
fn a_round_runs_on_what_the_session_asks_for() {
    let bot = bot();
    let mut opts = StreamOptions::default();
    opts.agent_id = some("coder");
    opts.model_profile_id = some("other");
    let choice = bot.choose_round(&opts, &None, Ok(JsonMap::new())).unwrap();
    assert_eq!(choice.agent.profile.id, "coder");
    assert_eq!(choice.model.profile.id, "other");
    assert_eq!(choice.runtime_key, "other");
    assert_eq!(bot.chosen_agent(&choice).agent_id, "coder");
    opts.reasoning_effort = Some(ReasoningEffort::High);
    let choice = bot.choose_round(&opts, &None, Ok(JsonMap::new())).unwrap();
    assert_eq!(choice.runtime_key, "other::reasoning=high");
    let error = bot.choose_round(&opts, &None, Err("unsupported".to_string())).unwrap_err();
    assert_eq!(error.message(), "unsupported");
    let error = bot.choose_round(&opts, &some("nobody"), Ok(JsonMap::new())).unwrap_err();
    assert_eq!(
        error.message(),
        "active workflow node references unknown agent `nobody`"
    );
}

#[test]
fn an_effort_changes_the_model() {
    let bot = bot();
    let plain = bot
        .effective_model_profile_with_reasoning(&None, Some(ReasoningEffort::Auto), Err("x".to_string()))
        .unwrap();
    assert_eq!(plain.profile.reasoning_effort, None);
    let high = bot
        .effective_model_profile_with_reasoning(&None, Some(ReasoningEffort::High), Ok(JsonMap::new()))
        .unwrap();
    assert_eq!(high.profile.reasoning_effort, Some(ReasoningEffort::High));
    let plain = resolve_effective_model_profile(&model("default"), &registry(&[]), &None);
    assert!(apply_reasoning_effort_override(
        plain,
        Some(ReasoningEffort::Max),
        Err("unsupported".to_string())
    )
    .is_err());
    assert_ne!(
        model_runtime_key("m", Some(ReasoningEffort::Low)),
        model_runtime_key("m", None)
    );
}

#[test]
fn a_model_has_a_variant_for_each_effort() {
    let efforts = vec![
        EffortOptions { effort: ReasoningEffort::Low, options: Some(JsonMap::new()) },
        EffortOptions { effort: ReasoningEffort::Max, options: None },
    ];
    let variants = model_runtime_variants(&model("m"), Ok(JsonMap::new()), &efforts).unwrap();
    assert_eq!(variants.len(), 2);
    assert_eq!(variants[1].profile.reasoning_effort, Some(ReasoningEffort::Low));
    assert!(model_runtime_variants(&model("m"), Err("bad".to_string()), &vec![]).is_err());
}

#[test]
fn listed_tools_are_permitted() {
    let bot = bot();
    let all: Vec<String> = bot.tool_list().into_iter().map(|(name, _)| name).collect();
    assert_eq!(all, vec!["fs_read".to_string(), "web_search".to_string()]);
    assert_eq!(bot.tool_list()[0].1, "fs_read tool");
    let known = vec![("bash".to_string(), "b".to_string())];
    assert_eq!(bot.tool_list_for_agent(&None, &known), known);
    assert_eq!(bot.tool_list_for_agent_and_model(&some("coder"), &None, &known).len(), 0);
    assert!(tools().tool_available("fs_read"));
    assert!(!tools().tool_available("web_search"));
    assert!(tools().contains_tool("web_search"));
    let offered = tools().skill_prompt_tool_availability();
    assert!(offered.fs_read && !offered.skill_get);
}

fn around() -> ToolSurroundings {
    ToolSurroundings { exa_api_key: false, ssh: false, rg: true, missing_acp_tool: None }
}

#[test]
fn each_tool_is_told_of_once() {
    let statuses = bot().registered_tool_statuses(&around());
    let mut names: Vec<_> = statuses.iter().map(|s| s.name.clone()).collect();
    assert!(names.windows(2).all(|w| w[0] < w[1]));
    names.dedup();
    assert_eq!(names.len(), statuses.len());
    let read = statuses.iter().find(|s| s.name == "fs_read").unwrap();
    assert!(read.registered && read.enabled && read.in_active_allowlist);
    assert!(builtin_tool_catalog().len() > 5);
    assert!(tool_warnings("fs_read", false).is_empty());
    assert!(tool_errors("fs_read", true).is_empty());
    assert!(!tool_runtime_errors("ssh", &around()).is_empty());
    let mut with_acp = around();
    with_acp.missing_acp_tool = Some(("agent__codex".to_string(), "Codex".to_string()));
    assert!(bot()
        .registered_tool_statuses(&with_acp)
        .iter()
        .any(|s| s.name == "agent__codex" && !s.registered));
}

#[test]
fn tools_are_registered_as_the_host_allows() {
    let deps = LocalToolDeps {
        host_tools: vec![HostTool { name: "search".to_string(), allows_builtin_override: true }],
        acp_client_tools: None,
        bash_enabled: true,
    };
    let all = deps.build_static_tools(true);
    assert!(all.contains(&ToolEntry::Skills));
    assert!(all.contains(&ToolEntry::AcpAgents));
    assert!(all.contains(&ToolEntry::Runtime(RuntimeTool::Bash)));
    assert!(!all.contains(&ToolEntry::Runtime(RuntimeTool::Search)));
    let sub = build_subagent_tools(&deps);
    assert!(!sub.contains(&ToolEntry::AcpAgents));
    assert_eq!(sub.last(), Some(&ToolEntry::Host(0)));
}

#[test]
fn a_hook_is_told_of_its_session() {
    let context = bot().hook_context("t", some("m"), None);
    assert_eq!(context.session_id, "t");
    assert_eq!(context.cwd, "/work");
    assert_eq!(context.transcript_path, None);
    let reply = |blocked: bool, reason: Option<&str>| HookReply {
        blocked,
        continue_flow: None,
        reason: reason.map(str::to_string),
        additional_context: vec![],
    };
    assert!(compaction_may_start(true, None)
        .unwrap_err()
        .message()
        .starts_with("cannot compact memory while this session is running"));
    assert_eq!(
        compaction_may_start(false, Some(reply(true, None))).unwrap_err().message(),
        "context compaction blocked by hook"
    );
    assert!(compaction_may_start(false, Some(reply(false, None))).is_ok());
    let told = compaction_payload(&Ok(3));
    assert_eq!(told.get("compacted_messages"), Some(&JsonValue::unsigned(3)));
    assert_eq!(compaction_payload(&Err("x".to_string())).get_str("error"), some("x"));
}

#[test]
fn locks_are_taken_in_one_order() {
    assert_eq!(fork_thread_data("b", "a").unwrap(), ("a".to_string(), "b".to_string()));
    assert_eq!(fork_thread_data("a", "b").unwrap(), ("a".to_string(), "b".to_string()));
    assert_eq!(
        fork_thread_data("a", "a").unwrap_err().message(),
        "cannot fork a thread onto itself"
    );
    assert_eq!(thread_failure("fork thread todos", "x").message(), "fork thread todos: x");
    assert!(is_thread_running(true, &None, false));
    assert!(is_thread_running(false, &some("true"), true));
    assert!(!is_thread_running(false, &some("0"), true));
}

#[test]
fn skills_are_the_stores() {
    let bot = bot();
    assert!(bot.skill_summaries().is_empty());
    assert!(bot.all_skill_summaries().is_empty());
    assert!(bot.skill_load_diagnostics().is_empty());
    assert!(bot.get_skill("docs").unwrap().is_none());
    assert!(bot.read_skill_names(&JsonValue::Null).is_empty());
}

#[test]
fn supervisors_get_what_is_left() {
    assert!(supervisor_prompt_budget_tokens(&model("m")) < 128000);
}

// -------------------------------------------------------------------- delegates

fn defaults() -> DelegateDefaults {
    DelegateDefaults {
        api_key: "key".to_string(),
        base_url: None,
        default_model: "m".to_string(),
        extra_options: JsonMap::new(),
        overflow_bytes: 100,
        has_agent_md: false,
    }
}

#[test]
fn build_installs_embedded_delegate_agent_profiles() {
    let mut builder = builder();
    builder.delegate_ids = vec!["explorer".to_string()];
    let delegates = register_delegate_agent_tools(
        &agents(&["explorer"]),
        &agents(&["explorer"]),
        &builder.delegate_ids,
        &defaults(),
    );
    let mut given = facts();
    given.agents = agents(&["explorer"]);
    let tool = |t: &RemiSubAgentTool| ToolDefinition {
        name: t.name.clone(),
        description: t.description.clone(),
        enabled: true,
    };
    let bot = CatBot::new(
        builder.build(given).unwrap(),
        model("default"),
        registry(&["default", "other"]),
        BuiltinSkillStore::new(FileSkillStore::with_roots(vec![]), vec![]),
        AgentTools {
            local_tools: vec![],
            model_tools: Some(delegates.iter().map(tool).collect()),
            tool_allowlist: None,
        },
        "data".to_string(),
    );
    assert!(bot.tool_list().iter().any(|(name, _)| name == "agent__explorer"));
    assert!(bot.get_agent_profile("explorer").is_some());
}

#[test]
fn the_workspace_is_seen_as_the_sandbox_shows_it() {
    let disabled = builder().build(facts()).unwrap().workspace;
    assert_eq!((disabled.root.as_str(), disabled.root_label.as_str()), ("data", "data"));
    assert!(disabled.allow_host_absolute_paths && !disabled.bash_enabled);
    let local = workspace_access(&SandboxConfig::NoSandbox { host_dir: "/w".to_string() });
    assert!(local.allow_host_absolute_paths && local.bash_enabled);
    let docker = workspace_access(&SandboxConfig::Docker(DockerSandboxConfig {
        image: "image".to_string(),
        container_name: "name".to_string(),
        host_dir: "/host".to_string(),
        container_dir: "/workspace".to_string(),
        user: None,
    }));
    assert_eq!((docker.root.as_str(), docker.root_label.as_str()), ("/host", "/workspace"));
    assert!(!docker.allow_host_absolute_paths && docker.bash_enabled);
}

#[test]
fn delegates_become_tools() {
    assert_eq!(delegate_tool_name("coder"), "agent__coder");
    let made = register_delegate_agent_tools(
        &agents(&["coder"]),
        &agents(&["explorer"]),
        &vec!["coder".to_string(), "explorer".to_string(), "missing".to_string()],
        &defaults(),
    );
    let names: Vec<_> = made.iter().map(|t| t.name.as_str()).collect();
    assert_eq!(names, vec!["agent__coder", "agent__explorer"]);
    let mut lasting = agent("coder");
    lasting.persistent_sessions = true;
    let tool = make_delegate_tool(&lasting, &defaults());
    let named = tool.parameters_schema.get("properties").and_then(|p| p.get("named"));
    assert!(named.is_some(), "persistent delegate schema should expose named");
    let mut with = agent("coder");
    with.delegates = vec!["explorer".to_string()];
    assert!(agent_tool_allowlist(&with).contains(&"agent__explorer".to_string()));
    let mut list = vec!["skill__get".to_string()];
    expand_skill_discovery_tools(&mut list);
    assert_eq!(list.len(), 1);
    list.push("search".to_string());
    expand_skill_discovery_tools(&mut list);
    assert!(list.contains(&"skill__search".to_string()));
}

// -------------------------------------------------------------------- subagents

fn tool() -> RemiSubAgentTool {
    let mut lasting = agent("coder");
    lasting.persistent_sessions = true;
    make_delegate_tool(&lasting, &defaults())
}

fn call(task: Option<&str>, named: Option<&str>) -> JsonValue {
    let mut map = JsonMap::new();
    if let Some(task) = task {
        map = map.with("task", JsonValue::text(task));
    }
    if let Some(named) = named {
        map = map.with("named", JsonValue::text(named));
    }
    JsonValue::object(map)
}

fn session() -> SubAgentSession {
    tool().begin(&call(Some("work"), Some("build_1"))).unwrap()
}

#[test]
fn named_sessions_are_told_apart() {
    let named = session();
    assert!(named.persistent);
    assert_eq!(named.title, some("work"));
    assert_eq!(named.thread_id, session().thread_id);
    let other = tool().begin(&call(Some("work"), Some("build_2"))).unwrap();
    assert_ne!(named.thread_id, other.thread_id);
    assert!(tool().begin(&call(None, None)).is_err());
    assert!(tool().begin(&call(Some("work"), Some("bad name"))).is_err());
}

#[test]
fn a_session_says_what_it_does() {
    let session = session();
    assert!(matches!(session.run_start(), ProtocolEvent::RunStart { .. }));
    let metadata = subagent_metadata(None, "parent", &session.thread_id);
    let start = session.open_loaded(
        "work",
        &metadata,
        LoadedSession {
            history: vec![Message::user("before")],
            user_state: JsonValue::Null,
            environment_prompt: "environment".to_string(),
        },
    );
    assert_eq!(start.content, Content::text("work"));
    assert!(start.history.iter().any(|m| m.content == Content::text("environment")));
    assert!(session.task_with_contexts(&vec!["note".to_string()]).contains("note"));
    assert!(session.load_failed("gone").result.contains("gone"));
    assert!(matches!(
        relay(RelayedEvent::Thinking { content: "x".to_string() }),
        ProtocolEvent::ThinkingEnd { .. }
    ));
    assert!(matches!(
        sub_session_done_event(some("x")),
        ProtocolEvent::Custom { .. } | ProtocolEvent::Done
    ));
}

#[test]
fn one_more_pass_at_most() {
    let metadata = JsonValue::Null;
    let mut run = SubAgentRun::new(session(), 0);
    run.on_text("done".to_string());
    let go_on = || StopHookReply {
        blocked: true,
        continue_flow: None,
        reason: some("check again"),
    };
    let first = run.on_stop_hook(go_on(), &metadata);
    assert!(!matches!(first, StopStep::Finish(_)));
    assert!(matches!(run.on_stop_hook(go_on(), &metadata), StopStep::Finish(_)));
    assert!(run.on_end().result.contains("done"));
    let (_, end) = run.on_error("lost");
    assert!(end.result.contains("lost"));
}

#[test]
fn sessions_that_go_on_are_written_as_they_grow() {
    let metadata = JsonValue::Null;
    let session = session();
    assert_eq!(session.start_hook_payload().get_str("agent_type"), some("coder"));
    let start = session.open_fresh("work", &metadata, JsonValue::Null, "environment");
    assert_eq!(start.history.len(), 2);
    let mut run = SubAgentRun::new(session, 2);
    let said = || vec![Message::user("a"), Message::user("b"), Message::assistant("c")];
    let record = run.on_history(said(), JsonValue::Null).unwrap();
    assert_eq!(record.messages.unwrap().len(), 1);
    assert_eq!(run.skip_count, 3);
    let record = run.on_state(JsonValue::Bool(true)).unwrap();
    assert!(record.messages.is_none());
    assert_eq!(record.user_state, Some(JsonValue::Bool(true)));
    let (record, payload) = run.on_done();
    assert!(record.unwrap().messages.is_none());
    assert_eq!(payload.get("stop_hook_active"), Some(&JsonValue::Bool(false)));
    let loaded = LoadedSession {
        history: vec![],
        user_state: JsonValue::Null,
        environment_prompt: "environment".to_string(),
    };
    assert_eq!(run.on_reload("again", &metadata, Some(loaded)).history.len(), 2);
    assert_eq!(run.skip_count, 2);
    assert!(run.on_reload("again", &metadata, None).history.is_empty());

    let passing = tool().begin(&call(Some("work"), None)).unwrap();
    let mut run = SubAgentRun::new(passing, 2);
    assert!(run.on_history(said(), JsonValue::Null).is_none());
    assert!(run.on_state(JsonValue::Null).is_none());
    assert!(run.on_done().0.is_none());
    assert_eq!(run.raw_history.as_ref().map(Vec::len), Some(3));
}

// ---------------------------------------------------------------------- markers

const FITS: MarkerFit = MarkerFit { request: true, outcome: true };

#[test]
fn markers_are_read_back() {
    let request = JsonValue::object(JsonMap::new().with("id", JsonValue::text("1")));
    let marker = tool_approval_requested_marker("thread", "run", &request);
    assert_eq!(marker.agent_name, SUBAGENT_APPROVAL_MARKER_AGENT);
    let read = cat_event_from_subagent_approval_marker(
        &marker.agent_name,
        &Some(marker.message.clone()),
        FITS,
    )
    .unwrap();
    assert_eq!(read.kind, MarkerKind::ApprovalRequested);
    assert_eq!(read.request, request);
    assert!(read.outcome.is_none());
    let resolved =
        tool_approval_resolved_marker("thread", "run", &request, &JsonValue::text("approved"));
    let message = Some(resolved.message);
    let read = cat_event_from_subagent_approval_marker(&resolved.agent_name, &message, FITS);
    assert_eq!(read.unwrap().outcome, Some(JsonValue::text("approved")));
    for fit in [
        MarkerFit { request: false, outcome: true },
        MarkerFit { request: true, outcome: false },
    ] {
        assert!(carried_by_marker(&resolved.agent_name, &message).is_some());
        assert!(
            cat_event_from_subagent_approval_marker(&resolved.agent_name, &message, fit).is_none()
        );
    }
    let plain = Some(marker.message.clone());
    let no_outcome = MarkerFit { request: true, outcome: false };
    assert!(cat_event_from_subagent_approval_marker(&marker.agent_name, &plain, no_outcome).is_some());
    let question = UserQuestion {
        session_id: "s".to_string(),
        run_id: "r".to_string(),
        request: request.copy(),
    };
    let answered = user_question_resolved_marker(&question, &JsonValue::text("yes"));
    let kind = |marker: &str| read_marker(marker).map(|(kind, _)| kind);
    assert_eq!(kind(&answered.message), Some(MarkerKind::QuestionResolved));
    let updated = tool_approval_updated_marker("thread", "run", &request);
    assert_eq!(kind(&updated.message), Some(MarkerKind::ApprovalUpdated));
    let asked = user_question_requested_marker(&question);
    assert_eq!(kind(&asked.message), Some(MarkerKind::QuestionRequested));
    let asked = user_question_updated_marker(&question);
    assert_eq!(kind(&asked.message), Some(MarkerKind::QuestionUpdated));
    assert!(
        cat_event_from_subagent_approval_marker("other", &Some(marker.message), FITS).is_none()
    );
    assert!(read_marker("plain").is_none());
}

// ----------------------------------------------------------------------- memory

#[test]
fn records_keep_what_was_said() {
    let mut result = Message::plain(Role::Tool, "out");
    result.tool_call_id = some("call_1");
    let mut elapsed = TextMap::new();
    elapsed.insert("call_1".to_string(), 12);
    let annotated = annotate_tool_elapsed_ms(vec![Message::user("x"), result], &elapsed);
    assert!(annotated[0].metadata.is_none());
    assert!(annotated[1].metadata.is_some());
    let record = persist_turn(
        Some(vec![Message::user("old"), Message::user("new")]),
        Some(JsonValue::Null),
        1,
        &TextMap::new(),
    );
    assert_eq!(record.messages.unwrap()[0].content, Content::text("new"));
    assert!(persist_turn(None, None, 0, &TextMap::new()).messages.is_none());
}

#[test]
fn calls_stay_distinct() {
    let mut recorder = PartialTurnRecorder::new(vec![]);
    assert!(recorder.synthesize_history().is_none());
    recorder.on_thinking("hm".to_string());
    recorder.on_tool_start("1".to_string(), "ls".to_string());
    recorder.on_tool_call("1".to_string(), "ls".to_string(), JsonValue::Null);
    recorder.on_tool_result(
        "1".to_string(),
        "ls".to_string(),
        JsonValue::Null,
        "out".to_string(),
        true,
        3,
    );
    assert_eq!(recorder.tools.len(), 1);
    let history = recorder.synthesize_history().unwrap();
    assert_eq!(history.len(), 1);
    assert!(history[0].tool_calls.is_none());
}

#[test]
fn a_snapshot_names_its_calls() {
    let mut assistant = Message::assistant("calling");
    assistant.tool_calls = Some(vec![ToolCallMessage {
        id: "1".to_string(),
        name: "ls".to_string(),
        arguments: "{}".to_string(),
        rendered: "{\"id\":\"1\"}".to_string(),
    }]);
    let start = acp_loop_start(
        "s",
        "hello",
        vec![assistant],
        "system",
        "environment",
        &some("todo"),
        &JsonValue::Null,
    );
    assert_eq!(start.history[0].content, Content::text("system"));
    assert_eq!(start.history[1].content, Content::text("environment"));
    assert_eq!(start.history.last().unwrap().content, Content::text("todo"));
    assert_eq!(
        start.metadata.as_ref().unwrap().get_str("thread_id"),
        some("acp:s")
    );
    let snapshot =
        model_input_snapshot_from_loop_input(Some(&start), "t", &None, "p", "m").unwrap();
    assert!(!snapshot.run_id.is_empty());
    let sum: u32 = snapshot.segments.iter().map(|s| s.token_estimate).sum();
    assert_eq!(sum, snapshot.totals.estimated_tokens);
    assert!(model_input_snapshot_from_loop_input(None, "t", &None, "p", "m").is_none());
}

// -------------------------------------------------------------------------- acp

#[test]
fn an_acp_run_answers_with_its_text() {
    let mut run = LocalAcpRun::new("s");
    assert_eq!(
        run.answer(),
        Err("local ACP agent produced no text for session s".to_string())
    );
    assert!(matches!(run.on_event(AcpEvent::Text(" hello ".to_string())), AcpStep::Continue));
    assert!(matches!(
        run.on_event(AcpEvent::History(vec![Message::user("x")], JsonValue::Null)),
        AcpStep::Continue
    ));
    assert!(matches!(
        run.on_event(AcpEvent::StateUpdate(JsonValue::text("state"))),
        AcpStep::Continue
    ));
    assert_eq!(run.raw_user_state, Some(JsonValue::text("state")));
    assert!(matches!(run.on_event(AcpEvent::Done), AcpStep::Finish));
    assert_eq!(run.answer(), Ok("hello".to_string()));
    match run.on_event(AcpEvent::Error("lost".to_string())) {
        AcpStep::Fail(message) => {
            assert_eq!(message, "local ACP agent failed for session s: lost")
        }
        other => panic!("expected a failure, got {other:?}"),
    }
    let (record, answer) = run.finish(0);
    assert_eq!(record.messages.unwrap().len(), 1);
    assert_eq!(record.user_state, Some(JsonValue::text("state")));
    assert_eq!(answer, Ok("hello".to_string()));
    let start = acp_loop_start("s", "hello", vec![], "system", "env", &None, &JsonValue::Null);
    assert_eq!(acp_excess("s", &start, &model("m"), 100_000), None);
    assert!(acp_excess("s", &start, &model("m"), 1).unwrap() > 1);
    assert_eq!(
        acp_compression_failed(11, 10, "x"),
        "ACP request exceeds context budget (11 > 10) and compression failed: x"
    );
    assert_eq!(acp_error("x").message(), "x");
    assert_eq!(acp_unbind_channel(true), "ACP 绑定已解除。");
    assert_eq!(acp_unbind_channel(false), "当前频道没有绑定 ACP session。");
}

// -------------------------------------------------------------------------- log

#[test]
fn a_log_shows_sizes_only() {
    assert_eq!(summarize_content_for_log(&Content::text("你好")), "text(len=2)");
    let content = Content::parts(vec![
        ContentPart::text("abc"),
        ContentPart::image_url("data:image/png;base64,SECRET"),
        ContentPart::image_base64("image/png", "SECRET"),
        ContentPart::Audio { data: "SECRET".to_string(), format: "wav".to_string() },
    ]);
    assert_eq!(
        summarize_content_for_log(&content),
        "parts(total=4, text_len=3, image_urls=[\"data:image/png;base64(len=28)\"], image_base64=[\"image/png(data_len=6)\"], audio_parts=1, file_parts=0)"
    );
    assert_eq!(preview_url_header("https://a.b/c"), "https://a.b/c");
    assert!(content_to_model_input_text(&content).contains("abc"));
}
