use bot_core::json::{JsonMap, JsonValue};
use bot_core::search::{
    exa_error_message, parse_exa_search_response, plan_search, preview, read_web_answer,
    report_search, try_parse_exa_search_response, web_failure, web_search_body, web_search_key,
    RecalledItem, SearchScope, SearchTool, WebFailure, MAX_LIMIT,
};
use bot_core::search_query::{
    is_ascii_stopword, is_cjk_like, ripgrep_query_from_terms, tokenize_search_query,
    tokenized_search_query,
};
use bot_core::skill::builtin::{BuiltinSkill, BuiltinSkillStore};
use bot_core::skill::store::FileSkillStore;

fn some(text: &str) -> Option<String> {
    Some(text.to_string())
}

fn skill_store() -> BuiltinSkillStore<FileSkillStore> {
    BuiltinSkillStore::new(
        FileSkillStore::with_roots(vec![]),
        vec![BuiltinSkill {
            name: "aurora-skill".to_string(),
            description: "Teal aurora workflow".to_string(),
            content: "---\nname: aurora-skill\ndescription: Teal aurora workflow\n---\n\nBody"
                .to_string(),
        }],
    )
}

fn tool() -> SearchTool<BuiltinSkillStore<FileSkillStore>> {
    SearchTool { skill_store: skill_store(), agent_id: "default".to_string() }
}

fn recalled() -> Vec<RecalledItem> {
    vec![RecalledItem {
        source: JsonValue::text("named"),
        name: JsonValue::text("aurora-note"),
        uuid: JsonValue::Null,
        timestamp: JsonValue::Null,
        preview: JsonValue::text("aurora teal memory"),
        snippet: JsonValue::Null,
        score: JsonValue::unsigned(1),
    }]
}

fn arguments(query: &str, scope: Option<&str>, limit: Option<u64>) -> JsonValue {
    let mut map = JsonMap::new().with("query", JsonValue::text(query));
    if let Some(scope) = scope {
        map = map.with("scope", JsonValue::text(scope));
    }
    if let Some(limit) = limit {
        map = map.with("limit", JsonValue::unsigned(limit));
    }
    JsonValue::object(map)
}

fn results(value: &serde_json::Value) -> Vec<serde_json::Value> {
    value["results"].as_array().unwrap().clone()
}

#[test]
fn default_local_scope_searches_memory_and_skills() {
    let plan = plan_search(&arguments("aurora teal", None, None), None, &some("thread-1")).unwrap();
    let text = tool().execute(&plan, Ok(recalled()), &Ok(vec![])).unwrap();
    let value: serde_json::Value = serde_json::from_str(&text).unwrap();
    assert_eq!(value["scope"], "local");
    assert_eq!(value["default_scope"], "local");
    let results = results(&value);
    assert!(results.iter().any(|item| item["scope"] == "memory"));
    assert!(results.iter().any(|item| item["scope"] == "skills"));
}

#[test]
fn scope_filters_and_limit_are_applied() {
    let plan = plan_search(
        &arguments("aurora", Some("memory"), Some(99)),
        None,
        &some("thread-1"),
    )
    .unwrap();
    let text = tool().execute(&plan, Ok(recalled()), &Ok(vec![])).unwrap();
    let value: serde_json::Value = serde_json::from_str(&text).unwrap();
    assert_eq!(value["limit"], 20);
    assert!(results(&value).iter().all(|item| item["scope"] == "memory"));
}

#[test]
fn web_scope_reports_missing_exa_key_without_thread_id() {
    let plan = plan_search(&arguments("aurora", Some("web"), None), None, &None).unwrap();
    let web = Err(web_search_key(&None).unwrap_err());
    let text = tool().execute(&plan, Ok(vec![]), &web).unwrap();
    let value: serde_json::Value = serde_json::from_str(&text).unwrap();
    assert_eq!(value["scope"], "web");
    assert!(value["errors"][0].as_str().unwrap().contains("EXA_API_KEY is not set"));
}

#[test]
fn exa_http_error_is_reported_instead_of_empty_results() {
    let error = parse_exa_search_response(401, r#"{"message":"Invalid API key"}"#, 5)
        .expect_err("non-2xx Exa responses should fail");

    assert!(error.contains("HTTP 401"), "{error}");
    assert!(error.contains("Invalid API key"), "{error}");
}

#[test]
fn exa_missing_results_array_is_reported() {
    let error = parse_exa_search_response(200, r#"{"requestId":"req_1","error":"quota"}"#, 5)
        .expect_err("missing results should fail clearly");

    assert!(error.contains("missing results array"), "{error}");
    assert!(error.contains("requestId"), "{error}");
}

#[test]
fn exa_results_are_parsed() {
    let results = parse_exa_search_response(
        200,
        r#"{"results":[{"title":"Example","url":"https://example.com","text":"Body"}]}"#,
        5,
    )
    .expect("valid Exa response should parse");

    assert_eq!(results.len(), 1);
    assert_eq!(results[0].get_str("scope"), some("web"));
    assert_eq!(results[0].get_str("title"), some("Example"));
}

#[test]
fn invalid_scope_returns_clear_error() {
    let err = plan_search(&arguments("aurora", Some("bad"), None), None, &some("thread-1"))
        .unwrap_err();
    assert!(err.message().contains("invalid 'scope'"));
}

#[test]
fn tokenizer_filters_stopwords_and_keeps_keywords() {
    assert_eq!(
        tokenize_search_query("How long is my daily commute to work?"),
        vec!["long", "daily", "commute", "work"]
    );
}

#[test]
fn tokenizer_generates_cjk_ngrams_for_natural_language_queries() {
    let terms = tokenize_search_query("我想找靠窗座位");
    assert!(terms.contains(&"靠窗".to_string()));
    assert!(terms.contains(&"座位".to_string()));
}

#[test]
fn ripgrep_query_is_case_insensitive_escaped_alternation() {
    let query = ripgrep_query_from_terms(&vec!["foo.bar".to_string(), "baz".to_string()])
        .expect("terms should produce query");
    assert_eq!(query, "(?i:(?:foo\\.bar|baz))");
}

#[test]
fn tokenized_query_regex_matches_expected_text() {
    let query = tokenized_search_query("我想找靠窗座位").unwrap();
    assert!(query.regex().is_match("Istanbul 靠窗 seat"));
    assert!(query.ripgrep_query().contains("靠窗"));
}

// -------------------------------------------------------------------- further

#[test]
fn every_label_means_its_scope() {
    for scope in [
        SearchScope::Local,
        SearchScope::Memory,
        SearchScope::Skills,
        SearchScope::Web,
        SearchScope::All,
    ] {
        assert_eq!(SearchScope::parse(&some(scope.label())), Ok(scope));
    }
    assert_eq!(SearchScope::parse(&None), Ok(SearchScope::Local));
    assert!(SearchScope::All.includes_web() && SearchScope::All.includes_memory());
    assert!(!SearchScope::Local.includes_web() && SearchScope::Local.includes_skills());
}

#[test]
fn a_search_needs_a_query_and_a_thread() {
    assert!(plan_search(&JsonValue::Null, None, &some("thread-1")).is_err());
    assert!(plan_search(&arguments(" ", None, None), None, &some("thread-1")).is_err());
    assert!(plan_search(&arguments("aurora", Some("memory"), None), None, &None).is_err());
    let metadata = JsonValue::object(
        JsonMap::new().with("thread_id", JsonValue::text("thread-2")),
    );
    let plan = plan_search(
        &arguments("aurora", Some("memory"), None),
        Some(&metadata),
        &None,
    )
    .unwrap();
    assert_eq!(plan.thread_id, some("thread-2"));
    assert_eq!(plan.limit, 8);
}

#[test]
fn what_memory_cannot_do_is_said() {
    let plan = plan_search(&arguments("aurora", None, None), None, &some("thread-1")).unwrap();
    let failed = tool().search(
        &plan,
        Err(bot_core::error::AgentError::other("no memory")),
        &Ok(vec![]),
    );
    assert_eq!(failed.unwrap_err().message(), "no memory");
}

#[test]
fn a_report_keeps_to_the_limit() {
    let mut plan = plan_search(&arguments("aurora", None, None), None, &some("thread-1")).unwrap();
    plan.limit = 1;
    let report = report_search(&plan, &recalled(), &vec![], &Ok(vec![]));
    assert_eq!(report.get("results").map(|r| matches!(r, JsonValue::Array(a) if a.len() == 1)), Some(true));
    assert!(MAX_LIMIT == 20);
}

#[test]
fn the_request_to_the_web_is_a_query() {
    let body = web_search_body("aurora", 3);
    assert_eq!(body.get_str("query"), some("aurora"));
    assert_eq!(web_search_key(&some(" key ")), Ok(" key ".to_string()));
    assert!(web_search_key(&some("  ")).is_err());
    assert!(web_failure(WebFailure::Request, "refused").contains("refused"));
    assert!(web_failure(WebFailure::Client, "x") != web_failure(WebFailure::Read, "x"));
}

#[test]
fn an_answer_that_is_not_json_is_shown() {
    let error = read_web_answer(200, "<html>", Err("expected value".to_string()), 5).unwrap_err();
    assert!(error.contains("expected value") || error.contains("<html>"), "{error}");
    assert_eq!(preview("short"), "short");
    assert!(preview(&"a".repeat(2000)).len() < 2000);
}

#[test]
fn an_answer_that_cannot_be_cut_is_left_out() {
    assert!(try_parse_exa_search_response(200, r#"{"results":[]}"#, 5) == Some(Ok(vec![])));
    let body = "你".repeat(1000);
    assert!(try_parse_exa_search_response(500, &body, 5).is_none());
}

#[test]
fn an_error_is_told_by_its_message() {
    let data = JsonValue::object(JsonMap::new().with("error", JsonValue::text("quota")));
    assert_eq!(exa_error_message(&data), some("quota"));
    assert_eq!(exa_error_message(&JsonValue::Null), None);
}

#[test]
fn queries_without_terms_find_nothing() {
    assert!(tokenize_search_query("?!").is_empty());
    assert!(tokenized_search_query("").is_none());
    assert_eq!(ripgrep_query_from_terms(&vec![]), None);
    assert!(is_ascii_stopword("the"));
    assert!(!is_ascii_stopword("commute"));
    assert!(is_cjk_like('靠'));
    assert!(!is_cjk_like('a'));
    let query = tokenized_search_query("Commute").unwrap();
    assert_eq!(query.terms(), &vec!["commute".to_string()]);
    assert!(query.regex().is_match("daily COMMUTE"));
}

#[test]
fn ascii_terms_are_shaped() {
    let terms = tokenize_search_query("How do I -Fix_ the Rust-Build of a X?");
    assert_eq!(terms, vec!["fix", "rust-build", "rust", "build"]);
    for term in &terms {
        assert!(term.len() >= 2 && !is_ascii_stopword(term));
        assert!(!term.chars().any(|c| c.is_ascii_uppercase()));
        assert!(!term.starts_with(['-', '_']) && !term.ends_with(['-', '_']));
    }
}

#[test]
fn letters_outside_ascii_come_to_no_other_ascii_term() {
    for c in '\u{80}'..=char::MAX {
        for term in tokenize_search_query(&format!("{c}{c}")) {
            assert!(!term.is_ascii() || (c == '\u{212a}' && term == "kk"), "{c}: {term}");
        }
    }
    assert_eq!(tokenize_search_query("\u{212a}\u{212a}"), vec!["kk"]);
}

#[test]
fn case_changes_no_term() {
    for query in ["How do I fix the rust-build?", "我 want ÉTÉ in paris", "_a-b_c"] {
        assert_eq!(
            tokenize_search_query(&query.to_ascii_uppercase()),
            tokenize_search_query(query)
        );
    }
}
