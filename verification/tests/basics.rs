use bot_core::json::{JsonMap, JsonValue};
use bot_core::order::text_le;
use bot_core::paths::{ancestors, file_name, is_under, join_path, parent, strip_root};
use bot_core::profile::ReasoningEffort;
use bot_core::text::{
    contains_text, cut_within, decimal_text, ends_with, find, is_blank, is_white, join,
    replace_char, size_in_bytes, split_on, starts_with, str_eq, strip_prefix, take_chars,
    to_ascii_lowercase, trim, trim_chars, trim_end, trim_start,
};
use bot_core::text_map::TextMap;
use bot_core::tokens::{context_budget_tokens, estimate_model_input_tokens};

fn some(text: &str) -> Option<String> {
    Some(text.to_string())
}

#[test]
fn entries_are_read_back() {
    let mut map: TextMap<u32> = TextMap::new();
    map.insert("b".to_string(), 2);
    map.insert("a".to_string(), 1);
    map.insert("b".to_string(), 3);
    assert_eq!(map.get("b"), Some(&3));
    assert_eq!(map.entries.iter().map(|e| e.0.as_str()).collect::<Vec<_>>(), vec!["a", "b"]);
    assert_eq!(map.remove("a"), Some(1));
    assert_eq!(map.remove("a"), None);
    assert!(!map.contains_key("a"));
}

#[test]
fn fields_are_read_back() {
    let mut map = JsonMap::new().with("a", JsonValue::unsigned(1)).with("b", JsonValue::Null);
    map.insert("a", JsonValue::Bool(true));
    assert_eq!(map.get("a"), Some(&JsonValue::Bool(true)));
    map.remove("b");
    assert!(!map.contains_key("b"));
    assert!(!map.is_empty());
    let value = JsonValue::object(map);
    assert_eq!(value.get("a").and_then(|a| a.as_bool()), Some(true));
    assert_eq!(value.get_str("a"), None);
    assert_eq!(JsonValue::unsigned(7).as_u64(), Some(7));
    assert!(JsonValue::Null.is_null());
}

#[test]
fn trimming_leaves_no_blanks() {
    assert_eq!(trim("\u{3000} a b \n"), "a b");
    assert_eq!(trim_start(" a "), "a ");
    assert_eq!(trim_end(" a "), " a");
    assert_eq!(trim_chars("--a--", "-"), "a");
    assert!(is_blank(" \t"));
    assert!(is_white('\u{85}'));
    assert!(!is_white('a'));
}

#[test]
fn texts_are_searched() {
    assert!(contains_text("hello", "ell"));
    assert!(contains_text("hello", ""));
    assert!(starts_with("hello", "he"));
    assert!(ends_with("hello", "lo"));
    assert_eq!(strip_prefix("hello", "he"), some("llo"));
    assert_eq!(strip_prefix("hello", "x"), None);
    assert_eq!(find("héllo", "l"), Some(2));
    assert!(str_eq("a", "a") && !str_eq("a", "b"));
}

#[test]
fn texts_are_taken_apart() {
    assert_eq!(split_on("a,b,", ','), vec!["a", "b", ""]);
    assert_eq!(join(&vec!["a".to_string(), "b".to_string()], ", "), "a, b");
    assert_eq!(replace_char("a\\b", '\\', '/'), "a/b");
    assert_eq!(take_chars("你好吗", 2), "你好");
    assert_eq!(to_ascii_lowercase("ÀB"), "Àb");
    assert_eq!(decimal_text(0), "0");
    assert_eq!(decimal_text(u64::MAX), "18446744073709551615");
}

#[test]
fn bytes_are_counted() {
    assert_eq!(size_in_bytes("aé你😀"), 1 + 2 + 3 + 4);
    assert_eq!(cut_within("aé", 3), None);
    assert_eq!(cut_within("aé", 2), Some((1, false)));
    assert_eq!(cut_within("aéb", 3), Some((2, true)));
}

#[test]
fn paths_are_taken_apart() {
    assert_eq!(file_name("/a/b.txt"), some("b.txt"));
    assert_eq!(file_name("/a/.."), None);
    assert_eq!(parent("/a/b"), some("/a"));
    assert_eq!(parent("/"), None);
    assert_eq!(join_path("/a", "b"), "/a/b");
    assert_eq!(join_path("/a", "/b"), "/b");
    assert_eq!(strip_root("/a", "/a/b/c"), Some(vec!["b".to_string(), "c".to_string()]));
    assert_eq!(strip_root("/a", "/ab"), None);
    assert!(is_under("/a", "/a"));
    assert_eq!(ancestors("/a/b"), vec!["/a/b", "/a", "/"]);
}

#[test]
fn texts_are_ordered() {
    assert!(text_le("a", "ab"));
    assert!(!text_le("b", "ab"));
    assert!(text_le("z", "你"));
    assert!(text_le("", ""));
}

#[test]
fn budgets_stay_within_the_context() {
    assert_eq!(context_budget_tokens(1000, 80), 800);
    assert_eq!(context_budget_tokens(1, 80), 1);
    assert!(estimate_model_input_tokens("ab") <= estimate_model_input_tokens("abcdefgh"));
}

#[test]
fn efforts_have_their_own_names() {
    let all = ReasoningEffort::variants();
    for (i, a) in all.iter().enumerate() {
        for b in &all[i + 1..] {
            assert_ne!(a.as_str(), b.as_str());
        }
    }
    assert_eq!(ReasoningEffort::NoReasoning.as_str(), "none");
}
