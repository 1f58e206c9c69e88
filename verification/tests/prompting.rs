use bot_core::json::JsonMap;
use bot_core::message::{Content, ContentPart, Message};
use bot_core::profile::ModelProfileConfig;
use bot_core::runtime::lowering::{
    auto_compress_context_percent, build_inner_agent, build_provider_client, check_overflow_bytes,
    check_percent, lower_messages_for_text_model, tool_output_overflow_bytes_from_env,
    ProviderClient, ProviderKind,
};
use bot_core::runtime::pinned::{
    insert_pinned_skill_prompt, pinned_only, pinned_skill_prompt, SkillPromptToolAvailability,
    PINNED_SKILLS_HEADER, PINNED_SKILLS_SEARCH_AND_GET_HINT,
};
use bot_core::runtime::prompting::{
    apply_skill_injections, insert_skill_injection_prompts, is_direct_chat, is_group_chat,
    truncate_user_name,
};
use bot_core::skill::tools::read_skill_names;
use bot_core::skill::types::{SkillDocument, SkillSummary};
use bot_core::tokens::estimate_model_input_tokens;

fn some(text: &str) -> Option<String> {
    Some(text.to_string())
}

fn skill(name: &str, description: &str, pin: bool) -> SkillSummary {
    SkillSummary {
        id: name.to_string(),
        name: name.to_string(),
        description: description.to_string(),
        parent_id: None,
        has_children: false,
        source: ".remi-cat/skills".to_string(),
        skill_file_path: None,
        resource_root_path: None,
        pin,
    }
}

fn skill_document() -> SkillDocument {
    SkillDocument {
        id: "docs".to_string(),
        name: "docs".to_string(),
        description: "Docs workflow".to_string(),
        pin: false,
        content: "Use references.".to_string(),
        source: ".remi-cat/skills/docs".to_string(),
        root: None,
        skill_file_path: some(".remi-cat/skills/docs/SKILL.md"),
        resource_root_path: some(".remi-cat/skills/docs"),
        parent_id: None,
        children: vec![],
    }
}

fn profile(provider: Option<&str>) -> ModelProfileConfig {
    ModelProfileConfig {
        id: "test".to_string(),
        name: "Test".to_string(),
        model: "test-model".to_string(),
        base_url: some("https://example.invalid/v1"),
        thinking: None,
        reasoning_effort: None,
        max_output_tokens: 1024,
        context_tokens: 8192,
        supports_images: true,
        legacy_short_term_tokens: None,
        overflow_bytes: 16_384,
        auto_compress: true,
        description: None,
        provider: provider.map(str::to_string),
        extra_options: JsonMap::new(),
    }
}

#[test]
fn pinned_skill_prompt_only_lists_pinned_summaries() {
    let prompt = pinned_skill_prompt(
        &vec![
            skill("alpha", "Pinned workflow", true),
            skill("beta", "Unpinned workflow", false),
        ],
        128_000,
        SkillPromptToolAvailability::all(),
    )
    .expect("pinned skill should create prompt");

    assert!(prompt.contains(PINNED_SKILLS_HEADER));
    assert!(prompt.contains("alpha"));
    assert!(prompt.contains("Pinned workflow"));
    assert!(!prompt.contains("beta"));
    assert!(!prompt.contains("Unpinned workflow"));
    assert!(prompt.ends_with(PINNED_SKILLS_SEARCH_AND_GET_HINT));
    assert!(!prompt.contains("scope=skills"));
}

#[test]
fn pinned_skill_prompt_returns_none_without_pinned_summaries() {
    assert!(pinned_skill_prompt(
        &vec![skill("beta", "Unpinned workflow", false)],
        128_000,
        SkillPromptToolAvailability::all()
    )
    .is_none());
}

#[test]
fn pinned_skill_prompt_truncates_each_skill_to_context_budget() {
    let prompt = pinned_skill_prompt(
        &vec![
            skill("alpha", &"a".repeat(1000), true),
            skill("beta", &"b".repeat(1000), true),
        ],
        2_000,
        SkillPromptToolAvailability::all(),
    )
    .expect("pinned skills should create prompt");

    assert!(prompt.contains("alpha"));
    assert!(prompt.contains("beta"));
    assert!(prompt.contains("..."));
    assert!(estimate_model_input_tokens(&prompt) <= 40);
}

#[test]
fn pinned_skill_prompt_only_mentions_available_discovery_tools() {
    let prompt = pinned_skill_prompt(
        &vec![skill("alpha", "Pinned workflow", true)],
        128_000,
        SkillPromptToolAvailability::new(true, false, true),
    )
    .expect("pinned skill should create prompt");
    assert!(prompt.contains("`skill__search`"));
    assert!(!prompt.contains("`skill__get`"));
    assert!(!prompt.contains("scope=skills"));

    let prompt = pinned_skill_prompt(
        &vec![skill("alpha", "Pinned workflow", true)],
        128_000,
        SkillPromptToolAvailability::new(false, true, true),
    )
    .expect("pinned skill should create prompt");
    assert!(!prompt.contains("`skill__search`"));
    assert!(prompt.contains("`skill__get`"));
    assert!(!prompt.contains("scope=skills"));
}

#[test]
fn pinned_skill_prompt_omits_discovery_hint_when_tools_unavailable() {
    let prompt = pinned_skill_prompt(
        &vec![skill("alpha", "Pinned workflow", true)],
        128_000,
        SkillPromptToolAvailability::new(false, false, true),
    )
    .expect("pinned skill should create prompt");
    assert!(prompt.contains("alpha"));
    assert!(!prompt.contains("More skills may be available"));
    assert!(!prompt.contains("`skill__search`"));
    assert!(!prompt.contains("`skill__get`"));
}

#[test]
fn skill_injection_prompt_only_mentions_fs_read_when_available() {
    let skills = vec![skill_document()];
    let mut history = vec![Message::user("hello")];
    insert_skill_injection_prompts(
        &mut history,
        0,
        &skills,
        SkillPromptToolAvailability::new(true, true, false),
    );
    let prompt = history[0].content.text_content();
    assert!(prompt.contains("skill_file_path=.remi-cat/skills/docs/SKILL.md"));
    assert!(prompt.contains("resource_root_path=.remi-cat/skills/docs"));
    assert!(!prompt.contains("fs_read"));

    let mut history = vec![Message::user("hello")];
    insert_skill_injection_prompts(&mut history, 0, &skills, SkillPromptToolAvailability::all());
    let prompt = history[0].content.text_content();
    assert!(prompt.contains("Use fs_read"));
}

#[test]
fn mimo_provider_uses_mimo_client() {
    assert!(matches!(
        build_provider_client("test-key", &profile(Some("mimo")), None),
        ProviderClient { kind: ProviderKind::MiMo, .. }
    ));
}

#[test]
fn other_providers_keep_using_openai_compatible_client() {
    assert!(matches!(
        build_provider_client("test-key", &profile(Some("openai")), None),
        ProviderClient { kind: ProviderKind::OpenAI, .. }
    ));
    assert!(matches!(
        build_provider_client("test-key", &profile(None), None),
        ProviderClient { kind: ProviderKind::OpenAI, .. }
    ));
}

fn mixed_message() -> Message {
    Message::user_content(Content::parts(vec![
        ContentPart::text("inspect"),
        ContentPart::image_url("https://example.test/photo.png"),
        ContentPart::image_base64("image/png", "SECRET_IMAGE_DATA"),
        ContentPart::Audio { data: "SECRET_AUDIO_DATA".to_string(), format: "wav".to_string() },
        ContentPart::File {
            file_id: some("file-1"),
            filename: some("notes.pdf"),
            media_type: some("application/pdf"),
            data: some("SECRET_FILE_DATA"),
            rendered: None,
        },
    ]))
}

#[test]
fn text_model_lowering_preserves_order_and_omits_embedded_data() {
    let mut messages = vec![mixed_message()];

    assert_eq!(lower_messages_for_text_model(&mut messages), 1);
    let text = messages[0].content.text_content();
    assert_eq!(
        text,
        "inspect\n[image: https://example.test/photo.png]\n[image: image/png; embedded data omitted]\n[audio: format=wav; embedded data omitted]\n[file: filename=notes.pdf; media_type=application/pdf; file_id=file-1; embedded data omitted]"
    );
    assert!(!text.contains("SECRET_"));
    assert!(!messages[0].content.is_multimodal());
}

#[test]
fn text_model_lowering_redacts_data_urls_but_keeps_plain_text_unchanged() {
    let mut messages = vec![
        Message::user("plain"),
        Message::user_content(Content::parts(vec![ContentPart::image_url(
            "data:image/jpeg;base64,SECRET_IMAGE_DATA",
        )])),
    ];

    assert_eq!(lower_messages_for_text_model(&mut messages), 1);
    assert_eq!(messages[0].content.text_content(), "plain");
    assert_eq!(
        messages[1].content.text_content(),
        "[image: embedded image/jpeg;base64; data omitted]"
    );
}

// -------------------------------------------------------------------- further

#[test]
fn a_client_lowers_only_for_models_without_images() {
    let mut messages = vec![mixed_message()];
    let client = build_provider_client("key", &profile(None), None);
    assert_eq!(client.prepare(&mut messages), 0);
    assert!(messages[0].content.is_multimodal());
    let mut blind = profile(None);
    blind.supports_images = false;
    let client = build_provider_client("key", &blind, None);
    assert_eq!(client.prepare(&mut messages), 1);
    assert!(!messages[0].content.is_multimodal());
}

#[test]
fn an_inner_agent_is_made_of_its_profile() {
    let agent = build_inner_agent("key", &profile(None), "system".to_string(), None, JsonMap::new());
    assert_eq!(agent.model, "test-model");
    assert_eq!(agent.max_tokens, 1024);
    assert_eq!(agent.system, "system");
    assert!(agent.extra_options.is_none());
    assert_eq!(agent.client.base_url, some("https://example.invalid/v1"));
}

#[test]
fn a_percentage_is_between_one_and_a_hundred() {
    assert_eq!(auto_compress_context_percent(&None), Ok(80));
    assert_eq!(auto_compress_context_percent(&some(" 60 ")), Ok(60));
    assert!(auto_compress_context_percent(&some("0")).is_err());
    assert!(auto_compress_context_percent(&some("101")).is_err());
    assert!(auto_compress_context_percent(&some("many")).is_err());
    assert_eq!(check_percent("50", Ok(50)), Ok(50));
}

#[test]
fn an_overflow_limit_is_not_zero() {
    assert_eq!(tool_output_overflow_bytes_from_env(&None, &None), Ok(None));
    assert_eq!(tool_output_overflow_bytes_from_env(&some("100"), &some("7")), Ok(Some(100)));
    assert_eq!(tool_output_overflow_bytes_from_env(&None, &some("7")), Ok(Some(7)));
    assert!(tool_output_overflow_bytes_from_env(&some("x"), &None).is_err());
    assert!(check_overflow_bytes("KEY", "0", Ok(0)).is_err());
}

#[test]
fn pinned_skills_stand_where_they_are_put() {
    let skills = vec![skill("alpha", "Pinned", true), skill("beta", "Other", false)];
    assert_eq!(pinned_only(&skills).len(), 1);
    let mut history = vec![Message::system("first"), Message::user("hello")];
    insert_pinned_skill_prompt(
        &mut history,
        1,
        &skills,
        128_000,
        SkillPromptToolAvailability::all(),
    );
    assert_eq!(history.len(), 3);
    assert!(history[1].content.text_content().contains("alpha"));
}

#[test]
fn injected_skills_count_as_read() {
    let mut state = bot_core::json::JsonValue::Null;
    apply_skill_injections(&mut state, &vec![skill_document()]);
    assert_eq!(read_skill_names(&state), vec!["docs"]);
}

#[test]
fn chats_are_told_apart() {
    assert!(is_group_chat(&some("group")));
    assert!(is_direct_chat(&some("p2p")));
    assert!(!is_direct_chat(&some("group")));
    assert_eq!(truncate_user_name(&some("Alice"), 3), some("Ali"));
    assert_eq!(truncate_user_name(&some("  "), 3), None);
}
