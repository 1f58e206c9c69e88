use bot_core::json::{JsonMap, JsonValue};
use bot_core::message::{Content, ContentPart, Message, Role, ToolCallMessage};
use bot_core::profile::{AgentModelBindings, AgentProfile, ModelProfileConfig, ModelProfileRegistry};
use bot_core::runtime::acp::local_acp_thread_id;
use bot_core::runtime::background::{
    background_task_completion_steer_input, insert_async_tool_system_prompt, next_completed_task,
    ToolTaskRecord, ASYNC_TOOL_SYSTEM_PROMPT,
};
use bot_core::runtime::budget::{
    context_percent_tokens, memory_compaction_budget_tokens, model_request_budget_tokens,
    DEFAULT_AUTO_COMPRESS_CONTEXT_PERCENT,
};
use bot_core::runtime::builder::{CatBotBuilder, DEFAULT_AGENT_ID};
use bot_core::runtime::delegates::{
    system_prompt_with_agent_md_notice, RemiSubAgentTool, AGENT_MD_CWD_SYSTEM_PROMPT_NOTICE,
};
use bot_core::runtime::prompting::{
    append_thread_todo_system_prompt, insert_single_chat_sender_system_prompt,
    prepend_group_sender_username, route_thread_todo_prompt, single_chat_sender_system_prompt,
};
use bot_core::runtime::recorder::PartialTurnRecorder;
use bot_core::runtime::snapshot::{
    model_input_snapshot_from_loop_input, LoopStart, ModelInputSegmentCategory,
};
use bot_core::runtime::subagent::format_subagent_tool_result;
use bot_core::sandbox::config::SandboxConfig;
use bot_core::text_map::TextMap;
use bot_core::tokens::estimate_model_input_tokens;
use bot_core::workflow::{workflow_round_allows_continue, GoalMaxRounds};

fn some(text: &str) -> Option<String> {
    Some(text.to_string())
}

fn test_model_profile() -> ModelProfileConfig {
    ModelProfileConfig {
        id: "default".to_string(),
        name: "Default".to_string(),
        description: None,
        provider: None,
        model: "gpt-4o".to_string(),
        base_url: some("https://api.openai.com/v1"),
        thinking: None,
        reasoning_effort: None,
        max_output_tokens: 4096,
        context_tokens: 128000,
        supports_images: true,
        legacy_short_term_tokens: None,
        overflow_bytes: 16384,
        auto_compress: true,
        extra_options: JsonMap::new(),
    }
}

fn test_agent_profile() -> AgentProfile {
    AgentProfile {
        id: "default".to_string(),
        name: "Remi".to_string(),
        description: "General assistant".to_string(),
        model: None,
        base_url: None,
        models: AgentModelBindings { primary: None, helper: None, vision: None },
        tools: vec![],
        delegates: vec![],
        max_turns: None,
        persistent_sessions: false,
        system_prompt: "You are Remi.".to_string(),
    }
}

fn test_builder(model_profile: ModelProfileConfig, runtime_model_locked: bool) -> CatBotBuilder {
    CatBotBuilder {
        api_key: "test".to_string(),
        model_profile,
        runtime_model_locked,
        system: "You are an assistant.".to_string(),
        skills_dir: "skills".to_string(),
        data_dir: "data".to_string(),
        agent_md_path: None,
        overflow_bytes: None,
        memory_days: 7,
        sandbox_config: SandboxConfig::Disabled { host_dir: "data".to_string() },
        im_bridge: false,
        extra_options: JsonMap::new(),
        tool_allowlist: None,
        delegate_ids: vec![],
        active_agent_id: DEFAULT_AGENT_ID.to_string(),
        model_bindings: AgentModelBindings { primary: None, helper: None, vision: None },
        approval_model_profile_id: None,
        agents_dir: "agents".to_string(),
        max_turns: None,
        model_registry: ModelProfileRegistry { profiles: TextMap { entries: vec![] } },
        acp_client_tools: None,
    }
}

#[test]
fn model_input_token_estimate_handles_ascii_and_cjk() {
    assert_eq!(estimate_model_input_tokens(""), 0);
    assert_eq!(estimate_model_input_tokens("abcd"), 1);
    assert_eq!(estimate_model_input_tokens("abcde"), 2);
    assert_eq!(estimate_model_input_tokens("你好"), 2);
    assert_eq!(estimate_model_input_tokens("hi你"), 2);
}

#[test]
fn memory_compaction_budget_accounts_for_output_margin_and_fixed_prompt() {
    let mut profile = test_model_profile();
    profile.context_tokens = 100_000;
    profile.max_output_tokens = 30_000;

    // 80% would be 80k, but output + 5% safety caps the request at 65k.
    // The memory share then excludes the fixed system prompt and protocol.
    let fixed = "x".repeat(4_000); // 1,000 estimated tokens
    assert_eq!(memory_compaction_budget_tokens(&profile, 80, &fixed), 63_488);
}

#[test]
fn full_request_budget_uses_percent_and_output_safety_limit() {
    let mut profile = test_model_profile();
    profile.context_tokens = 100_000;
    profile.max_output_tokens = 20_000;
    assert_eq!(model_request_budget_tokens(&profile, 80), 75_000);
    assert_eq!(model_request_budget_tokens(&profile, 60), 60_000);
}

#[test]
fn model_input_snapshot_classifies_core_segments() {
    let mut assistant = Message::assistant("calling tool");
    assistant.tool_calls = Some(vec![ToolCallMessage {
        id: "call_1".to_string(),
        name: "fs_read".to_string(),
        arguments: "{\"path\":\"README.md\"}".to_string(),
        rendered: "{}".to_string(),
    }]);
    let mut tool = Message::assistant("file contents");
    tool.role = Role::Tool;
    tool.tool_call_id = some("call_1");
    let input = LoopStart {
        content: Content::text("current"),
        history: vec![
            Message::system("system"),
            Message::system("Skill `demo` loaded for this turn from test.\n\nbody"),
            Message::user("previous"),
            assistant,
            tool,
        ],
        metadata: Some(JsonValue::object(
            JsonMap::new().with("thread_id", JsonValue::text("thread")),
        )),
        message_metadata: None,
        user_state: Some(JsonValue::object(
            JsonMap::new().with("todos", JsonValue::array(vec![])),
        )),
        user_name: None,
    };
    let snapshot = model_input_snapshot_from_loop_input(
        Some(&input),
        "thread",
        &some("run_1"),
        "default",
        "gpt-test",
    )
    .expect("start input should produce a snapshot");
    let categories = snapshot
        .segments
        .iter()
        .map(|segment| segment.category.clone())
        .collect::<Vec<_>>();
    assert!(categories.contains(&ModelInputSegmentCategory::SystemPrompt));
    assert!(categories.contains(&ModelInputSegmentCategory::SkillInjection));
    assert!(categories.contains(&ModelInputSegmentCategory::History));
    assert!(categories.contains(&ModelInputSegmentCategory::ToolInput));
    assert!(categories.contains(&ModelInputSegmentCategory::ToolOutput));
    assert!(categories.contains(&ModelInputSegmentCategory::CurrentUser));
    assert!(categories.contains(&ModelInputSegmentCategory::Metadata));
    assert!(categories.contains(&ModelInputSegmentCategory::UserState));
    assert_eq!(snapshot.run_id, "run_1");
    assert!(snapshot.totals.estimated_tokens > 0);
}

fn completed_task(command: &str) -> ToolTaskRecord {
    ToolTaskRecord {
        task_id: "task-1".to_string(),
        thread_id: "thread-1".to_string(),
        tool_name: "bash".to_string(),
        args: JsonValue::object(JsonMap::new().with("command", JsonValue::text(command))),
        status: "completed".to_string(),
        elapsed_ms: Some(60_000),
        success: Some(true),
        result_preview: None,
        recent_output: vec![],
        message: None,
    }
}

#[test]
fn background_task_completion_steer_input_includes_result_context() {
    let mut task = completed_task("sleep 60");
    task.result_preview = some("done");
    task.recent_output = vec!["last line".to_string()];

    let steer = background_task_completion_steer_input(&task);
    let text = steer.content.text_content();

    assert_eq!(steer.id, "tool-task-task-1");
    assert!(text.contains("Background tool task completed."));
    assert!(text.contains("tool: bash"));
    assert!(text.contains("task_id: task-1"));
    assert!(text.contains("args: {\"command\":\"sleep 60\"}"));
    assert!(text.contains("elapsed_ms: 60000"));
    assert!(text.contains("last line"));
    assert!(text.contains("done"));
    assert_eq!(
        steer.message_metadata.as_ref().and_then(|metadata| metadata.get_str("args")),
        some("{\"command\":\"sleep 60\"}")
    );
    assert_eq!(steer.user_name, None);
}

#[test]
fn background_task_completion_steer_input_truncates_args_preview() {
    let task = completed_task("abcdefghijklmnopqrstuvwxyz0123456789ABCDEFGHIJKLMNOPQRSTUVWXYZ");

    let steer = background_task_completion_steer_input(&task);
    let expected = "{\"command\":\"abcdefghijklmnopqrstuvwxyz0123456789AB";

    assert_eq!(expected.chars().count(), 50);
    assert!(steer.content.text_content().contains(&format!("args: {expected}")));
    assert_eq!(
        steer.message_metadata.as_ref().and_then(|metadata| metadata.get_str("args")),
        some(expected)
    );
}

#[test]
fn completed_tool_task_buffer_is_drained_before_running_check() {
    let mut other = completed_task("sleep 30");
    other.thread_id = "thread-2".to_string();
    let tasks = vec![other, completed_task("sleep 30")];
    assert_eq!(next_completed_task(&tasks, "thread-1"), Some(1));
    assert_eq!(next_completed_task(&tasks, "thread-3"), None);
}

#[test]
fn system_prompt_agent_md_notice_is_added_when_cwd_contains_agent_md() {
    let prompt = system_prompt_with_agent_md_notice("base prompt".to_string(), true);

    assert!(prompt.contains("base prompt"));
    assert!(prompt.contains(AGENT_MD_CWD_SYSTEM_PROMPT_NOTICE));
}

#[test]
fn system_prompt_agent_md_notice_is_omitted_without_agent_md() {
    let prompt = system_prompt_with_agent_md_notice("base prompt".to_string(), false);

    assert_eq!(prompt, "base prompt");
}

#[test]
fn system_prompt_agent_md_notice_is_idempotent() {
    let once = system_prompt_with_agent_md_notice("base prompt".to_string(), true);

    let twice = system_prompt_with_agent_md_notice(once, true);

    assert_eq!(twice.matches(AGENT_MD_CWD_SYSTEM_PROMPT_NOTICE).count(), 1);
}

fn args(named: Option<&str>) -> JsonValue {
    let map = JsonMap::new().with("task", JsonValue::text("work"));
    JsonValue::object(match named {
        Some(name) => map.with("named", JsonValue::text(name)),
        None => map,
    })
}

#[test]
fn subagent_named_argument_is_validated() {
    assert_eq!(RemiSubAgentTool::named_from_args(&args(None)).unwrap(), None);
    assert_eq!(
        RemiSubAgentTool::named_from_args(&args(Some("build_1"))).unwrap(),
        some("build_1")
    );
    assert!(RemiSubAgentTool::named_from_args(&args(Some("bad name"))).is_err());
}

#[test]
fn subagent_tool_result_returns_sub_session_id() {
    let text = format_subagent_tool_result(
        "subagent:explorer:test",
        "run-1",
        "explorer",
        true,
        "done",
        None,
    );
    let value: serde_json::Value = serde_json::from_str(&text).unwrap();

    assert_eq!(value["sub_session_id"], "subagent:explorer:test");
    assert_eq!(value["sub_run_id"], "run-1");
    assert_eq!(value["agent"], "explorer");
    assert_eq!(value["success"], true);
    assert_eq!(value["final_output"], "done");
}

#[test]
fn partial_turn_recorder_synthesizes_safe_cancel_history() {
    let mut recorder = PartialTurnRecorder::new(vec![
        Message::system("system"),
        Message::user("inspect repo"),
    ]);
    recorder.on_text("I found the issue.");
    recorder.on_tool_start("call_1".to_string(), "read_file".to_string());
    recorder.on_tool_arguments_delta("call_1", "{\"path\":\"src/lib.rs\"");

    let history = recorder
        .synthesize_history()
        .expect("partial history should be synthesized");
    let assistant = history.last().expect("assistant message should exist");

    assert_eq!(history.len(), 3);
    assert!(matches!(assistant.role, Role::Assistant));
    assert!(assistant.tool_calls.is_none());
    assert!(assistant.tool_call_id.is_none());
    let content = assistant.content.text_content();
    assert!(content.contains("I found the issue."));
    assert!(content.contains("[Cancelled tool activity]"));
    assert!(content.contains("read_file (call_1)"));
    assert!(content.contains("cancelled before completion"));
}

#[test]
fn context_percent_tokens_defaults_to_eighty_percent_of_context() {
    let profile = test_model_profile();
    assert_eq!(
        context_percent_tokens(&profile, DEFAULT_AUTO_COMPRESS_CONTEXT_PERCENT),
        102_400
    );
}

#[test]
fn context_percent_tokens_rounds_up_and_never_returns_zero() {
    let mut profile = test_model_profile();
    profile.context_tokens = 1;
    assert_eq!(context_percent_tokens(&profile, 80), 1);
}

#[test]
fn workflow_round_limit_allows_default_twenty_continuations() {
    assert!(workflow_round_allows_continue(&GoalMaxRounds::Limited(20), 0));
    assert!(workflow_round_allows_continue(&GoalMaxRounds::Limited(20), 19));
    assert!(!workflow_round_allows_continue(&GoalMaxRounds::Limited(20), 20));
    assert!(workflow_round_allows_continue(&GoalMaxRounds::Unlimited, u32::MAX));
}

#[test]
fn agent_profile_delegates_are_exposed_as_tools() {
    let mut profile = test_agent_profile();
    profile.tools = vec!["search".to_string()];
    profile.delegates = vec!["coder".to_string()];
    let builder = test_builder(test_model_profile(), false).agent_profile(profile).unwrap();
    let tools = builder.tool_allowlist.unwrap();
    assert!(tools.iter().any(|tool| tool == "search"));
    assert!(tools.iter().any(|tool| tool == "agent__coder"));
    assert_eq!(builder.delegate_ids, vec!["coder"]);
}

#[test]
fn explicit_runtime_model_profile_is_not_overridden_by_agent_primary_model() {
    let mut profile = test_agent_profile();
    profile.models.primary = some("default");
    let builder = test_builder(
        ModelProfileConfig {
            id: "deepseek-v4-flash".to_string(),
            name: "DeepSeek V4 Flash".to_string(),
            description: None,
            provider: None,
            model: "deepseek-v4-flash".to_string(),
            base_url: some("https://api.deepseek.com"),
            thinking: None,
            reasoning_effort: None,
            max_output_tokens: 393216,
            context_tokens: 1_000_000,
            supports_images: false,
            legacy_short_term_tokens: None,
            overflow_bytes: 24000,
            auto_compress: true,
            extra_options: JsonMap::new(),
        },
        true,
    )
    .agent_profile(profile)
    .unwrap();
    assert_eq!(builder.model_profile.id, "deepseek-v4-flash");
    assert_eq!(builder.model_profile.model, "deepseek-v4-flash");
    assert_eq!(
        builder.model_profile.base_url.as_deref(),
        Some("https://api.deepseek.com")
    );
}

#[test]
fn local_acp_thread_id_is_session_scoped() {
    assert_eq!(local_acp_thread_id("session-1"), "acp:session-1");
}

#[test]
fn group_text_content_is_prefixed_with_sender_username() {
    let content =
        prepend_group_sender_username(Content::text("hello"), &some("group"), &some("vv"));

    match content {
        Content::Text(text) => assert_eq!(text, "vv:\nhello"),
        other => panic!("expected text content, got {other:?}"),
    }
}

#[test]
fn p2p_content_is_not_prefixed() {
    let content = prepend_group_sender_username(Content::text("hello"), &some("p2p"), &some("vv"));

    match content {
        Content::Text(text) => assert_eq!(text, "hello"),
        other => panic!("expected text content, got {other:?}"),
    }
}

#[test]
fn group_multimodal_content_gets_prefix_text_part() {
    let content = prepend_group_sender_username(
        Content::parts(vec![ContentPart::image_url("data:image/png;base64,abc")]),
        &some("group"),
        &some("vv"),
    );

    match content {
        Content::Parts(parts) => {
            assert!(matches!(parts.first(), Some(ContentPart::Text { text }) if text == "vv:\n"));
            assert!(matches!(parts.get(1), Some(ContentPart::ImageUrl { .. })));
        }
        other => panic!("expected parts content, got {other:?}"),
    }
}

fn contents_of(history: &[Message]) -> Vec<String> {
    history.iter().map(|message| message.content.text_content()).collect()
}

#[test]
fn single_chat_sender_system_prompt_is_inserted_after_soul() {
    let mut history = vec![
        Message::system("agent"),
        Message::system("soul"),
        Message::system("long-term"),
    ];

    insert_single_chat_sender_system_prompt(
        &mut history,
        2,
        single_chat_sender_system_prompt(&some("p2p"), &some("Alice"), &some("uuid-1")),
    );

    let contents = contents_of(&history);
    assert_eq!(contents[0], "agent");
    assert_eq!(contents[1], "soul");
    assert_eq!(
        contents[2],
        "当前是单聊场景。当前正在与你对话的用户是 Alice（内部ID: uuid-1）。"
    );
    assert_eq!(contents[3], "long-term");
}

#[test]
fn async_tool_system_prompt_is_inserted_after_skill_prompts() {
    let mut history = vec![
        Message::system("agent"),
        Message::system("skill"),
        Message::system("long-term"),
    ];

    insert_async_tool_system_prompt(&mut history, 2);

    let contents = contents_of(&history);
    assert_eq!(contents[0], "agent");
    assert_eq!(contents[1], "skill");
    assert_eq!(contents[2], ASYNC_TOOL_SYSTEM_PROMPT);
    assert_eq!(contents[3], "long-term");
}

#[test]
fn group_chat_does_not_get_single_chat_sender_system_prompt() {
    assert!(
        single_chat_sender_system_prompt(&some("group"), &some("Alice"), &some("uuid-1")).is_none()
    );
}

#[test]
fn single_chat_sender_system_prompt_uses_uuid_when_username_missing() {
    let prompt = single_chat_sender_system_prompt(&some("p2p"), &None, &some("uuid-1"));
    assert_eq!(
        prompt.as_deref(),
        Some("当前是单聊场景。当前正在与你对话的用户内部ID是 uuid-1。")
    );
}

#[test]
fn thread_todo_batch_prompt_is_appended_after_history_context() {
    let todo = "[CURRENT TODO BATCH]\nThis thread still has unfinished work under \"Release launch\".\nKeep progress synchronized with todo__complete/update/remove.\nWhen this thread has an active plan, try to complete multiple todo items in one pass whenever feasible. Only stop early if the user explicitly cancels, changes direction, or you need user input/help to proceed. Finish each individual todo item's work before marking it complete.\n- #1 Draft changelog";
    let mut history = vec![
        Message::system("agent"),
        Message::system("soul"),
        Message::user("previous user"),
        Message::assistant("previous assistant"),
    ];
    insert_single_chat_sender_system_prompt(
        &mut history,
        2,
        single_chat_sender_system_prompt(&some("p2p"), &some("Alice"), &some("uuid-1")),
    );
    append_thread_todo_system_prompt(&mut history, &some(todo));

    let contents = contents_of(&history);
    assert_eq!(contents[0], "agent");
    assert_eq!(contents[1], "soul");
    assert_eq!(
        contents[2],
        "当前是单聊场景。当前正在与你对话的用户是 Alice（内部ID: uuid-1）。"
    );
    assert_eq!(contents[3], "previous user");
    assert_eq!(contents[4], "previous assistant");
    assert_eq!(contents[5], todo);
}

#[test]
fn active_supervisor_receives_todo_instead_of_main_agent_history() {
    let todo = some("- #1 Run verification");

    let mut supervised_history = vec![Message::user("start")];
    let supervisor_todo = route_thread_todo_prompt(&mut supervised_history, todo.clone(), true);
    assert_eq!(supervised_history.len(), 1);
    assert!(supervisor_todo
        .as_deref()
        .is_some_and(|prompt| prompt.contains("Run verification")));

    let mut main_agent_history = vec![Message::user("start")];
    let supervisor_todo = route_thread_todo_prompt(&mut main_agent_history, todo, false);
    assert!(supervisor_todo.is_none());
    assert_eq!(main_agent_history.len(), 2);
    assert!(main_agent_history[1].content.text_content().contains("Run verification"));
}
