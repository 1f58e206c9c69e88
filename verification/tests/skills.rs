use bot_core::error::AgentError;
use bot_core::json::{JsonMap, JsonValue};
use bot_core::skill::builtin::{merge, BuiltinSkill, BuiltinSkillStore, Identity};
use bot_core::skill::markdown::{
    parse_skill_markdown, skill_from_fields, split_frontmatter, trim_leading_skill_preamble,
};
use bot_core::skill::names::{canonical_id, canonical_name, normalize_skill_name, truncate_chars};
use bot_core::skill::ranking::{rank_summaries, sort_by_name};
use bot_core::skill::scan::{SkillFileNode, SkillNode, MAX_SKILL_DEPTH, MAX_SKILL_FILE_SIZE};
use bot_core::skill::store::{
    infer_workspace_root_from_primary_dir, resolve_resource_path, resource_of,
    absolute_lexical_path, safe_workspace_relative_path, sandbox_relative_path, FileSkillStore, ResourceRead,
    ResourceRequest, SkillStore,
};
use bot_core::skill::tools::{
    diagnostic_path_skill_name, filter_trigger_skill, hides_trigger_skill, mark_skill_read,
    read_skill_names, register_skill_tools, render_skill_diagnostics_summary,
    render_skill_get_extra_prompt, SkillGetTool, SkillSearchTool,
};
use bot_core::skill::types::{
    SkillLoadDiagnostic, SkillLoadDiagnosticSeverity, SkillSummary,
};

fn some(text: &str) -> Option<String> {
    Some(text.to_string())
}

fn file(path: &str, content: &str) -> SkillFileNode {
    SkillFileNode {
        path: path.to_string(),
        size: content.len() as u64,
        modified: Some(1),
        content: Ok(content.to_string()),
        workspace_file: None,
        workspace_dir: None,
    }
}

fn node(root: &str, slug: &str, content: &str) -> SkillNode {
    let dir_path = format!("{root}/{slug}");
    SkillNode {
        file: Some(file(&format!("{dir_path}/SKILL.md"), content)),
        dir_path,
        dir_name: slug.to_string(),
        is_symlink: false,
        children: vec![],
    }
}

fn skill_node(root: &str, slug: &str, name: &str, description: &str, body: &str) -> SkillNode {
    node(
        root,
        slug,
        &format!("---\nname: {name}\ndescription: {description}\n---\n\n{body}"),
    )
}

/// The node with the paths that the workspace shows.
fn shown(mut node: SkillNode, workspace: &str) -> SkillNode {
    let dir = node.dir_path.clone();
    if let Some(file) = &mut node.file {
        let file_links = vec![Some(false); 8];
        file.workspace_file = safe_workspace_relative_path(
            &some(workspace),
            &Some(file.path.clone()),
            &file_links,
            &None,
        );
        file.workspace_dir =
            safe_workspace_relative_path(&some(workspace), &Some(dir), &file_links, &None);
    }
    node.children = node.children.into_iter().map(|child| shown(child, workspace)).collect();
    node
}

fn store_of(primary: Vec<SkillNode>, compat: Vec<SkillNode>) -> FileSkillStore {
    let mut store = FileSkillStore::with_roots(vec![
        ("/primary".to_string(), ".remi-cat/skills".to_string()),
        ("/compat".to_string(), ".agents/skills".to_string()),
    ]);
    store.reload(vec![primary, compat]);
    store
}

fn workspace_store(primary: Vec<SkillNode>, compat: Vec<SkillNode>) -> FileSkillStore {
    let mut store = FileSkillStore::new_in_workspace("/ws/.remi-cat/skills", "/ws");
    assert_eq!(store.roots[1].dir, "/ws/.agents/skills");
    store.reload(vec![
        primary.into_iter().map(|n| shown(n, "/ws")).collect(),
        compat.into_iter().map(|n| shown(n, "/ws")).collect(),
    ]);
    store
}

fn summary(name: &str, description: &str, source: &str) -> SkillSummary {
    SkillSummary {
        id: name.to_string(),
        name: name.to_string(),
        description: description.to_string(),
        parent_id: None,
        has_children: false,
        source: source.to_string(),
        skill_file_path: None,
        resource_root_path: None,
        pin: false,
    }
}

fn builtin(name: &str, description: &str, body: &str) -> BuiltinSkill {
    BuiltinSkill {
        name: name.to_string(),
        description: description.to_string(),
        content: format!("---\nname: {name}\ndescription: {description}\n---\n\n{body}"),
    }
}

fn named_args(key: &str, value: &str) -> JsonValue {
    JsonValue::object(JsonMap::new().with(key, JsonValue::text(value)))
}

#[test]
fn loads_standard_skill_directory() {
    let store = store_of(
        vec![skill_node(
            "/primary",
            "rust-check",
            "rust-check",
            "Verify the Rust workspace",
            "Run cargo test.",
        )],
        vec![],
    );
    let results = store.search("rust").unwrap();

    assert_eq!(results.len(), 1);
    assert_eq!(results[0].name, "rust-check");
    assert_eq!(results[0].description, "Verify the Rust workspace");
    assert_eq!(results[0].source, ".remi-cat/skills");
}

#[test]
fn loads_compat_agents_skills_directory() {
    let store = store_of(
        vec![],
        vec![skill_node(
            "/compat",
            "researcher",
            "researcher",
            "Research workflow",
            "Use primary sources.",
        )],
    );
    let results = store.search("research").unwrap();

    assert_eq!(results.len(), 1);
    assert_eq!(results[0].source, ".agents/skills");
}

#[test]
fn new_in_workspace_loads_primary_and_compat_directories_from_same_workspace() {
    let store = workspace_store(
        vec![skill_node(
            "/ws/.remi-cat/skills",
            "primary-skill",
            "primary-skill",
            "Primary workflow",
            "Use the primary skill.",
        )],
        vec![skill_node(
            "/ws/.agents/skills",
            "compat-skill",
            "compat-skill",
            "Compat workflow",
            "Use the compat skill.",
        )],
    );
    let primary_doc = store.get("primary-skill").unwrap().unwrap();
    let compat_doc = store.get("compat-skill").unwrap().unwrap();

    assert_eq!(primary_doc.source, ".remi-cat/skills");
    assert_eq!(compat_doc.source, ".agents/skills");
    assert_eq!(
        primary_doc.skill_file_path.as_deref(),
        Some(".remi-cat/skills/primary-skill/SKILL.md")
    );
    assert_eq!(
        primary_doc.resource_root_path.as_deref(),
        Some(".remi-cat/skills/primary-skill")
    );
    assert_eq!(
        compat_doc.skill_file_path.as_deref(),
        Some(".agents/skills/compat-skill/SKILL.md")
    );
}

#[test]
fn new_in_workspace_prefers_primary_directory_duplicates() {
    let store = workspace_store(
        vec![skill_node("/ws/.remi-cat/skills", "dup", "dup", "Primary version", "Primary body.")],
        vec![skill_node("/ws/.agents/skills", "dup", "dup", "Compat version", "Compat body.")],
    );
    let doc = store.get("dup").unwrap().unwrap();

    assert_eq!(doc.description, "Primary version");
    assert_eq!(doc.source, ".remi-cat/skills");
}

#[test]
fn skill_name_does_not_need_to_match_directory_name() {
    let store = store_of(
        vec![skill_node(
            "/primary",
            "directory-slug",
            "frontmatter-name",
            "Named by frontmatter",
            "Body.",
        )],
        vec![],
    );

    assert!(store.get("directory-slug").unwrap().is_none());
    let doc = store.get("frontmatter-name").unwrap().unwrap();
    assert_eq!(doc.name, "frontmatter-name");
    assert_eq!(doc.description, "Named by frontmatter");
}

#[test]
fn primary_directory_wins_on_duplicate_skill_name() {
    let store = store_of(
        vec![skill_node("/primary", "dup", "dup", "Primary version", "Primary body.")],
        vec![skill_node("/compat", "dup", "dup", "Compat version", "Compat body.")],
    );
    let doc = store.get("dup").unwrap().unwrap();

    assert_eq!(doc.description, "Primary version");
    assert_eq!(doc.source, ".remi-cat/skills");
}

#[test]
fn missing_description_is_rejected() {
    let store = store_of(
        vec![node(
            "/primary",
            "missing-description",
            "---\nname: missing-description\n---\n\nBody",
        )],
        vec![],
    );

    assert!(store.get("missing-description").unwrap().is_none());
    assert!(store
        .load_diagnostics()
        .iter()
        .any(|diagnostic| diagnostic.message.contains("frontmatter description")));
}

#[test]
fn pin_frontmatter_is_optional_and_boolean() {
    let store = store_of(
        vec![
            node(
                "/primary",
                "bad-pin",
                "---\nname: bad-pin\ndescription: Bad pin\npin: \"true\"\n---\n\nBody",
            ),
            skill_node("/primary", "default-pin", "default-pin", "Default pin", "Body"),
            node(
                "/primary",
                "pinned",
                "---\nname: pinned\ndescription: Pinned workflow\npin: true\n---\n\nBody",
            ),
        ],
        vec![],
    );

    assert!(store.get("pinned").unwrap().unwrap().pin);
    assert!(store
        .featured_summaries()
        .into_iter()
        .any(|summary| summary.name == "pinned" && summary.pin));
    assert!(!store.get("default-pin").unwrap().unwrap().pin);
    assert!(!store.get("bad-pin").unwrap().unwrap().pin);
    assert!(store
        .load_diagnostics()
        .iter()
        .any(|diagnostic| diagnostic.message.contains("field `pin` must be boolean")));
}

#[test]
fn leading_html_comments_do_not_hide_frontmatter() {
    for prefix in [
        "<!-- generated by installer -->\n",
        "\n<-- legacy generated comment -->\n\n",
    ] {
        let store = store_of(
            vec![node(
                "/primary",
                "commented",
                &format!("{prefix}---\nname: commented\ndescription: Commented skill\n---\n\nBody"),
            )],
            vec![],
        );
        let doc = store.get("commented").unwrap().unwrap();

        assert_eq!(doc.name, "commented");
        assert_eq!(doc.description, "Commented skill");
        assert!(!store
            .load_diagnostics()
            .iter()
            .any(|diagnostic| diagnostic.message.contains("missing YAML frontmatter")));
    }
}

#[test]
fn non_spec_names_are_normalized_and_loaded() {
    for (dir_name, name, expected) in [
        ("BadName", "BadName", "badname"),
        ("bad_name", "bad_name", "bad-name"),
        ("bad--name", "bad--name", "bad-name"),
        ("-bad", "-bad", "bad"),
        ("bad-", "bad-", "bad"),
    ] {
        let store = store_of(
            vec![node(
                "/primary",
                dir_name,
                &format!("---\nname: {name}\ndescription: Bad name\n---\n\nBody"),
            )],
            vec![],
        );
        let doc = store.get(name).unwrap().unwrap();
        assert_eq!(doc.name, expected);
        assert!(store
            .load_diagnostics()
            .iter()
            .any(|diagnostic| diagnostic.message.contains("normalized frontmatter name")));
    }
}

#[test]
fn optional_spec_frontmatter_fields_accept_non_scalar_values() {
    let store = store_of(
        vec![node(
            "/primary",
            "with-metadata",
            "---\nname: with-metadata\ndescription: Has optional fields\nlicense: MIT\ncompatibility:\n  - remi-cat\nallowed-tools:\n  - bash\n  - fs_read\nmetadata:\n  owner:\n    name: remi\n---\n\nBody",
        )],
        vec![],
    );
    assert_eq!(store.search("optional").unwrap()[0].name, "with-metadata");
    assert!(store
        .load_diagnostics()
        .iter()
        .any(|diagnostic| diagnostic.message.contains("non-scalar value")));
}

#[test]
fn overlong_description_is_truncated_with_warning() {
    let store = store_of(
        vec![node(
            "/primary",
            "long-description",
            &format!("---\nname: long-description\ndescription: {}\n---\n\nBody", "x".repeat(1025)),
        )],
        vec![],
    );
    let doc = store.get("long-description").unwrap().unwrap();
    assert_eq!(doc.description.chars().count(), 1024);
    assert!(store
        .load_diagnostics()
        .iter()
        .any(|diagnostic| diagnostic.message.contains("truncated")));
}

#[test]
fn markdown_without_frontmatter_is_rejected() {
    let store = store_of(
        vec![node("/primary", "Loose Skill", "# Loose workflow\n\nUse it.")],
        vec![],
    );
    assert!(store.get("loose_skill").unwrap().is_none());
    assert!(store.load_diagnostics().iter().any(|diagnostic| {
        diagnostic.severity == SkillLoadDiagnosticSeverity::Error
            && diagnostic.message.contains("frontmatter description")
    }));
}

#[test]
fn invalid_yaml_frontmatter_is_reported_as_error() {
    let store = store_of(
        vec![node("/primary", "broken", "---\nname: [broken\ndescription: Bad\n---\n\nBody")],
        vec![],
    );

    assert!(store.search("broken").unwrap().is_empty());
    assert!(store.load_diagnostics().iter().any(|diagnostic| {
        diagnostic.severity == SkillLoadDiagnosticSeverity::Error
            && diagnostic.message.contains("invalid skill frontmatter")
    }));
}

#[test]
fn resource_read_blocks_path_traversal() {
    let store = store_of(
        vec![skill_node("/primary", "docs", "docs", "Docs", "Read resources.")],
        vec![],
    );
    let err = store
        .read_resource("docs", "../secret.txt")
        .expect_err("path traversal should fail");
    assert!(err.message().contains("inside the skill directory"));
}

#[test]
fn builtin_skills_share_registry_interface() {
    let store = BuiltinSkillStore::new(
        FileSkillStore::with_roots(vec![]),
        vec![builtin("docs", "Builtin docs capability reference", "Docs body")],
    );

    let results = store.search("docs").unwrap();
    assert_eq!(results[0].name, "docs");
    assert_eq!(store.get("docs").unwrap().unwrap().source, "builtin");
}

#[test]
fn discovers_progressive_child_skills_and_exposes_safe_paths() {
    let root = "/ws/.remi-cat/skills";
    let mut office =
        skill_node(root, "office", "office", "Office workflows", "Choose a child skill.");
    let excel_root = format!("{root}/office/skills");
    let mut excel =
        skill_node(&excel_root, "excel", "excel", "Excel workflows", "Work with spreadsheets.");
    let formula_root = format!("{excel_root}/excel/skills");
    excel.children = vec![skill_node(
        &formula_root,
        "formulas",
        "formulas",
        "Formula workflows",
        "Write formulas.",
    )];
    office.children = vec![excel];

    let store = workspace_store(vec![office], vec![]);
    let featured = store.featured_summaries();
    assert_eq!(
        featured.iter().map(|s| s.id.as_str()).collect::<Vec<_>>(),
        vec!["office"]
    );
    let results = store.search("formula").unwrap();
    assert_eq!(results[0].id, "office/excel/formulas");
    assert!(!store.search("hidden").unwrap().iter().any(|s| s.name == "hidden"));

    let office = store.get("office").unwrap().unwrap();
    assert_eq!(
        office.children.iter().map(|s| s.id.as_str()).collect::<Vec<_>>(),
        vec!["office/excel"]
    );
    let excel = store.get("office/excel").unwrap().unwrap();
    assert_eq!(excel.parent_id.as_deref(), Some("office"));
    assert_eq!(
        excel.skill_file_path.as_deref(),
        Some(".remi-cat/skills/office/skills/excel/SKILL.md")
    );
    assert_eq!(
        excel.resource_root_path.as_deref(),
        Some(".remi-cat/skills/office/skills/excel")
    );
}

#[test]
fn ambiguous_leaf_name_requires_hierarchical_id() {
    let mut nodes = vec![];
    for parent in ["finance", "office"] {
        let mut above = skill_node("/primary", parent, parent, parent, "Parent");
        above.children = vec![skill_node(
            &format!("/primary/{parent}/skills"),
            "excel",
            "excel",
            "Excel",
            "Child",
        )];
        nodes.push(above);
    }
    let store = store_of(nodes, vec![]);
    let error = store.get("excel").expect_err("leaf alias must be ambiguous");
    assert!(error.message().contains("office/excel"));
    assert_eq!(store.get("finance/excel").unwrap().unwrap().id, "finance/excel");
}

#[test]
fn registry_exposes_standard_skill_tools() {
    let mut names = vec![];
    register_skill_tools(&mut names);

    assert!(names.iter().any(|name| name == "skill__search"));
    assert!(names.iter().any(|name| name == "skill__get"));
    assert!(names.iter().any(|name| name == "skill__read_resource"));
    assert!(!names.iter().any(|name| name == "skill__save"));
    assert!(!names.iter().any(|name| name == "skill__delete"));
}

#[test]
fn empty_featured_prompt_points_to_search_and_get() {
    let prompt = render_skill_get_extra_prompt(&Vec::<SkillSummary>::new());
    assert!(prompt.contains("skill__search"));
    assert!(prompt.contains("skill__get"));
    assert!(prompt.contains("current turn"));
    assert!(prompt.contains("fs_read"));
}

#[test]
fn filter_trigger_skill_removes_builtin_entry_when_suppressed() {
    let filtered = filter_trigger_skill(
        vec![
            summary("trigger", "builtin trigger skill", "builtin"),
            summary("rust-build", "build help", ".remi-cat/skills"),
        ],
        true,
    );

    assert_eq!(filtered.len(), 1);
    assert_eq!(filtered[0].name, "rust-build");
}

#[test]
fn skill_get_extra_prompt_lists_catalog_without_body() {
    let store = BuiltinSkillStore::new(
        FileSkillStore::with_roots(vec![]),
        vec![builtin("docs", "Builtin docs capability reference", "Secret body")],
    );
    let tool = SkillGetTool { store };
    let prompt = tool
        .extra_prompt(false)
        .expect("skill__get should always advertise discovery guidance");

    assert!(prompt.contains("docs"));
    assert!(prompt.contains("Builtin docs capability reference"));
    assert!(!prompt.contains("Secret body"));
}

#[test]
fn read_skill_names_reads_current_and_legacy_session_state() {
    let names = |list: &[&str]| {
        JsonValue::array(list.iter().map(|name| JsonValue::text(name)).collect())
    };
    let state = JsonValue::object(
        JsonMap::new()
            .with("__read_skills", names(&["docs", "researcher"]))
            .with("__activated_skills", names(&["researcher", "legacy"])),
    );
    assert_eq!(read_skill_names(&state), vec!["docs", "researcher", "legacy"]);
}

#[test]
fn skill_get_returns_instruction_as_tool_result_and_marks_resource_access() {
    let store = BuiltinSkillStore::new(
        FileSkillStore::with_roots(vec![]),
        vec![builtin("researcher", "Research workflow", "Use primary sources.")],
    );
    let tool = SkillGetTool { store };
    let mut state = JsonValue::Null;

    let output = tool
        .execute(&named_args("name", "researcher"), false, &mut state)
        .expect("skill__get should succeed");

    assert!(output.contains("Use primary sources."));
    assert!(output.contains("[skill read: researcher"));
    assert!(output.contains("resources are not readable through fs_read"));
    assert!(!output.contains("[skill activated:"));
    assert_eq!(read_skill_names(&state), vec!["researcher"]);
}

#[test]
fn skill_get_returns_fs_read_resource_paths_for_file_skills() {
    let inner = workspace_store(
        vec![skill_node(
            "/ws/.remi-cat/skills",
            "docs",
            "docs",
            "Docs workflow",
            "Read references.",
        )],
        vec![],
    );
    let tool = SkillGetTool { store: BuiltinSkillStore::new(inner, vec![]) };
    let mut state = JsonValue::Null;

    let output = tool
        .execute(&named_args("name", "docs"), false, &mut state)
        .expect("skill__get should succeed");

    assert!(output.contains("skill_file_path=.remi-cat/skills/docs/SKILL.md"));
    assert!(output.contains("resource_root_path=.remi-cat/skills/docs"));
}

#[test]
fn skill_get_returns_diagnostics_for_failed_skill_by_directory_name() {
    let inner = workspace_store(
        vec![node(
            "/ws/.remi-cat/skills",
            "broken",
            "---\nname: [broken\ndescription: Bad\n---\n\nBody",
        )],
        vec![],
    );
    let tool = SkillGetTool { store: BuiltinSkillStore::new(inner, vec![]) };
    let mut state = JsonValue::Null;

    let output = tool
        .execute(&named_args("name", "broken"), false, &mut state)
        .expect("skill__get should return diagnostics");

    assert!(output.contains("Skill 'broken' not found"));
    assert!(output.contains("Skill load diagnostics"));
    assert!(output.contains("skill=broken"));
    assert!(output.contains("invalid skill frontmatter"));
}

// -------------------------------------------------------------------- further

#[test]
fn a_search_shows_what_could_not_be_read() {
    let inner = store_of(
        vec![node("/primary", "broken", "---\nname: [broken\ndescription: Bad\n---\n\nBody")],
        vec![],
    );
    let tool = SkillSearchTool { store: BuiltinSkillStore::new(inner, vec![]) };
    let output = tool.execute(&named_args("query", "broken"), false).unwrap();
    assert!(output.contains("Skill load diagnostics"));
    assert!(output.contains("invalid skill frontmatter"));
}

#[test]
fn tools_ask_for_what_they_need() {
    let store = BuiltinSkillStore::new(FileSkillStore::with_roots(vec![]), vec![]);
    let tool = SkillGetTool { store };
    let mut state = JsonValue::Null;
    assert!(tool.execute(&JsonValue::Null, false, &mut state).is_err());
    assert_eq!(state, JsonValue::Null);
    let store = BuiltinSkillStore::new(FileSkillStore::with_roots(vec![]), vec![]);
    let tool = SkillSearchTool { store };
    assert!(tool.execute(&JsonValue::Null, false).is_err());
}

#[test]
fn a_hidden_skill_is_not_given_out() {
    let make = || {
        BuiltinSkillStore::new(
            FileSkillStore::with_roots(vec![]),
            vec![builtin("trigger", "Triggers", "Body")],
        )
    };
    assert!(hides_trigger_skill("trigger", true));
    assert!(!hides_trigger_skill("trigger", false));
    let tool = SkillGetTool { store: make() };
    assert!(!tool.extra_prompt(true).unwrap().contains("Triggers"));
    assert!(tool.extra_prompt(false).unwrap().contains("Triggers"));
}

#[test]
fn scanning_again_without_changes_finds_the_same() {
    let nodes = || vec![skill_node("/primary", "docs", "docs", "Docs", "Body")];
    let mut store = store_of(nodes(), vec![]);
    let before = store.all_summaries();
    store.reload(vec![nodes(), vec![]]);
    assert_eq!(store.all_summaries(), before);
    assert_eq!(store.load_diagnostics(), vec![]);
    store.reload(vec![vec![], vec![]]);
    assert_eq!(store.all_summaries(), vec![]);
}

#[test]
fn large_files_are_refused() {
    let mut large = skill_node("/primary", "large", "large", "Large", "Body");
    large.file.as_mut().unwrap().size = MAX_SKILL_FILE_SIZE + 1;
    let store = store_of(vec![large], vec![]);
    assert!(store.get("large").unwrap().is_none());
    assert_eq!(store.load_diagnostics().len(), 1);
}

#[test]
fn linked_directories_are_refused() {
    let mut linked = skill_node("/primary", "linked", "linked", "Linked", "Body");
    linked.is_symlink = true;
    let store = store_of(vec![linked], vec![]);
    assert!(store.get("linked").unwrap().is_none());
}

#[test]
fn deep_directories_are_not_searched() {
    let mut deep = skill_node("/d", "leaf", "leaf", "Leaf", "Body");
    for level in 0..MAX_SKILL_DEPTH + 2 {
        let name = format!("level-{level}");
        let mut above = skill_node("/d", &name, &name, "Level", "Body");
        above.children = vec![deep];
        deep = above;
    }
    let store = store_of(vec![deep], vec![]);
    assert!(store.get("leaf").unwrap().is_none());
    assert!(store.get(&format!("level-{}", MAX_SKILL_DEPTH + 1)).unwrap().is_some());
}

#[test]
fn resources_lie_in_the_skill() {
    let store = store_of(
        vec![skill_node("/primary", "docs", "docs", "Docs", "Read resources.")],
        vec![],
    );
    let request = store.read_resource("docs", "references/a.md").unwrap();
    assert_eq!(request.file, "/primary/docs/references/a.md");
    assert!(store.read_resource("missing", "a.md").is_err());
    assert_eq!(
        resolve_resource_path("/primary/docs", "/etc/passwd"),
        Err(AgentError::tool("skill_resource", "resource path must be relative"))
    );
}

#[test]
fn resources_are_text_or_counted() {
    let request = ResourceRequest {
        skill: "docs".to_string(),
        path: "a.md".to_string(),
        file: "/primary/docs/a.md".to_string(),
    };
    let text = resource_of(
        &request,
        ResourceRead::Text { content: "details".to_string(), size: 7 },
    )
    .unwrap();
    assert_eq!(text.content, some("details"));
    assert!(!text.binary);
    let binary = resource_of(&request, ResourceRead::Binary { size: 3 }).unwrap();
    assert_eq!(binary.content, None);
    assert!(binary.binary);
    assert_eq!(binary.size, 3);
    assert!(resource_of(&request, ResourceRead::NotAFile).is_err());
    assert!(resource_of(&request, ResourceRead::Failed("gone".to_string())).is_err());
}

#[test]
fn places_without_a_workspace_show_no_paths() {
    let node = shown(skill_node("/ws", "docs", "docs", "Docs", "body"), "/ws");
    assert_eq!(node.file.as_ref().unwrap().workspace_file, some("docs/SKILL.md"));
    let store = store_of(vec![node], vec![]);
    let all = store.all_summaries();
    assert_eq!(all.len(), 1);
    assert_eq!(all[0].source, ".remi-cat/skills");
    assert_eq!(all[0].skill_file_path, None);
    assert_eq!(all[0].resource_root_path, None);
    let mut none = FileSkillStore::with_roots(vec![]);
    none.reload(vec![]);
    assert!(none.all_summaries().is_empty() && none.load_diagnostics().is_empty());
}

#[test]
fn skills_form_a_tree() {
    let mut office = skill_node("/primary", "office", "office", "Office", "body");
    office.children = vec![skill_node("/primary/office/skills", "sheets", "sheets", "Sheets", "body")];
    let store = store_of(vec![office], vec![]);
    let all = store.all_summaries();
    let child = all.iter().find(|s| s.parent_id.is_some()).unwrap();
    assert_eq!(child.id, "office/sheets");
    assert_eq!(child.parent_id, some("office"));
    let parent = all.iter().find(|s| s.id == "office").unwrap();
    assert!(parent.has_children && !child.has_children);
}

#[test]
fn only_files_without_links_are_shown() {
    let root = some("/ws");
    let path = some("/ws/a/b.md");
    let clear = vec![Some(false), Some(false)];
    assert_eq!(safe_workspace_relative_path(&root, &path, &clear, &None), some("a/b.md"));
    let linked = vec![Some(false), Some(true)];
    assert_eq!(safe_workspace_relative_path(&root, &path, &linked, &None), None);
    let unknown = vec![None, Some(false)];
    assert_eq!(safe_workspace_relative_path(&root, &path, &unknown, &None), None);
    assert_eq!(safe_workspace_relative_path(&None, &path, &clear, &None), None);
    assert_eq!(safe_workspace_relative_path(&root, &some("/other/b.md"), &clear, &None), None);
    assert_eq!(sandbox_relative_path("/ws", "/ws", &None), some("."));
    let here = some("/ws");
    assert_eq!(sandbox_relative_path("/ws", "a/b.md", &here), some("a/b.md"));
    assert_eq!(sandbox_relative_path("sub", "/ws/sub/c.md", &here), some("c.md"));
    assert_eq!(sandbox_relative_path("a", "a/d.md", &None), some("d.md"));
    assert_eq!(sandbox_relative_path("/ws", "a/b.md", &None), None);
    assert_eq!(absolute_lexical_path("a", &here), "/ws/a");
}

#[test]
fn the_workspace_is_found_from_the_skills() {
    assert_eq!(infer_workspace_root_from_primary_dir("/ws/.remi-cat/skills"), "/ws");
}

#[test]
fn names_are_brought_into_one_form() {
    assert_eq!(normalize_skill_name("Loose Skill"), some("loose-skill"));
    assert_eq!(normalize_skill_name("---"), None);
    assert_eq!(canonical_name("Bad_Name"), "bad-name");
    assert_eq!(canonical_id("Office/Excel"), "office/excel");
    assert_eq!(truncate_chars("abcdef", 3), "abc");
    assert_eq!(truncate_chars("你好吗", 2), "你好");
}

#[test]
fn skills_are_ranked_by_their_hits() {
    let list = vec![
        summary("alpha", "one", "s"),
        summary("beta", "two words", "s"),
        summary("gamma", "two", "s"),
    ];
    let keywords = vec!["two".to_string(), "words".to_string()];
    let ranked = rank_summaries(&list, &keywords);
    assert_eq!(
        ranked.iter().map(|s| s.name.as_str()).collect::<Vec<_>>(),
        vec!["beta", "gamma"]
    );
    let sorted = sort_by_name(&vec![list[2].clone(), list[0].clone()]);
    assert_eq!(sorted[0].name, "alpha");
}

#[test]
fn merging_lists_nothing_twice() {
    let merged = merge(
        Identity::ByName,
        vec![summary("docs", "first", "builtin")],
        &vec![summary("docs", "second", "s"), summary("other", "third", "s")],
    );
    assert_eq!(merged.len(), 2);
    assert_eq!(merged[0].description, "first");
    assert_eq!(merged[1].name, "other");
}

#[test]
fn frontmatter_is_split_off() {
    assert_eq!(
        split_frontmatter("---\nname: a\n---\nbody"),
        Some(("name: a".to_string(), "body".to_string()))
    );
    assert_eq!(split_frontmatter("body"), None);
    assert_eq!(trim_leading_skill_preamble("<!-- x -->\n---\n"), "---\n");
}

#[test]
fn a_skill_without_frontmatter_has_no_description() {
    let error = skill_from_fields("docs", vec![], &None).unwrap_err();
    assert!(error.message().contains("frontmatter description"));
    assert!(parse_skill_markdown("docs", "text").is_err());
    let parsed = parse_skill_markdown("docs", "---\ndescription: 42\n---\n").unwrap();
    assert_eq!(parsed.name, "docs");
    assert_eq!(parsed.description, "42");
}

#[test]
fn diagnostics_tell_of_their_skill() {
    let problem = SkillLoadDiagnostic {
        skill: None,
        path: "/ws/skills/broken/SKILL.md".to_string(),
        severity: SkillLoadDiagnosticSeverity::Error,
        message: "cannot be read".to_string(),
    };
    assert_eq!(diagnostic_path_skill_name(&problem.path), some("broken"));
    let text = render_skill_diagnostics_summary(&vec![problem]);
    assert!(text.contains("cannot be read"));
    assert_eq!(render_skill_diagnostics_summary(&vec![]), "");
}

#[test]
fn a_skill_is_marked_once() {
    let mut state = JsonValue::Null;
    mark_skill_read(&mut state, "docs");
    mark_skill_read(&mut state, "docs");
    assert_eq!(read_skill_names(&state), vec!["docs"]);
}
