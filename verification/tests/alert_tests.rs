use screen_assistant::alert::{
    build_alert_key, build_model_error_key, combine, emit_model_error_once, normalize_issue_text,
    normalize_key, should_emit_alert, should_suppress_alert, suppresses, AlertHistory,
    ASSISTANT_ALERT_EVENT,
};
use screen_assistant::model_error::MODEL_ERROR_EVENT;
use screen_assistant::analysis::AnalysisResult;

fn reading(app: &str, summary: &str, detail: &str, issue_type: &str, message: &str) -> AnalysisResult {
    AnalysisResult {
        summary: summary.to_string(),
        app: app.to_string(),
        detail: detail.to_string(),
        has_issue: true,
        issue_type: issue_type.to_string(),
        issue_message: message.to_string(),
        suggestion: String::new(),
        confidence: 900_000,
    }
}

const T0: i64 = 1_700_000_000_000;

#[test]
fn cooldown_quiets_a_repeated_key() {
    let mut h = AlertHistory::new();
    assert!(h.should_emit("k", T0, 60));
    assert!(!h.should_emit("k", T0 + 30_000, 60));
    assert!(h.should_emit("k", T0 + 61_000, 60));
}

#[test]
fn cooldown_ends_exactly_when_the_period_has_passed() {
    let mut h = AlertHistory::new();
    assert!(h.should_emit("k", T0, 60));
    assert!(!h.should_emit("k", T0 + 59_999, 60));
    assert!(h.should_emit("k", T0 + 60_000, 60));
    assert_eq!(h.last_emission("k"), Some(T0 + 60_000));
}

#[test]
fn a_quieted_call_does_not_refresh_the_time() {
    let mut h = AlertHistory::new();
    assert!(h.should_emit("k", T0, 60));
    assert!(!h.should_emit("k", T0 + 30_000, 60));
    assert_eq!(h.last_emission("k"), Some(T0));
    assert!(h.should_emit("k", T0 + 60_000, 60));
}

#[test]
fn cooldown_is_five_seconds_at_least() {
    for cooldown in [0u64, 1, 4, 5] {
        let mut h = AlertHistory::new();
        assert!(h.should_emit("k", T0, cooldown));
        assert!(!h.should_emit("k", T0 + 4_999, cooldown));
        assert!(h.should_emit("k", T0 + 5_000, cooldown));
    }
}

#[test]
fn keys_cool_down_apart() {
    let mut h = AlertHistory::new();
    assert!(h.should_emit("a", T0, 60));
    assert!(h.should_emit("b", T0 + 1, 60));
    assert!(!h.should_emit("a", T0 + 2, 60));
    assert!(!h.should_emit("b", T0 + 3, 60));
    assert_eq!(h.last_emission("a"), Some(T0));
    assert_eq!(h.last_emission("b"), Some(T0 + 1));
    assert_eq!(h.last_emission("c"), None);
    assert!(h.should_emit("", T0, 60));
    assert!(!h.should_emit("", T0, 60));
}

#[test]
fn a_clock_that_goes_back_keeps_the_key_quiet() {
    let mut h = AlertHistory::new();
    assert!(h.should_emit("k", T0, 60));
    assert!(!h.should_emit("k", T0 - 120_000, 60));
    assert_eq!(h.last_emission("k"), Some(T0));
}

#[test]
fn extreme_times_and_cooldowns_do_not_overflow() {
    let mut h = AlertHistory::new();
    assert!(h.should_emit("k", i64::MIN, u64::MAX));
    assert!(!h.should_emit("k", i64::MAX, u64::MAX));
    assert!(h.should_emit("k", i64::MAX, 60));
    assert!(!h.should_emit("k", i64::MIN, 0));
}

#[test]
fn should_emit_alert_is_the_same_decision() {
    let mut h = AlertHistory::new();
    assert!(should_emit_alert(&mut h, "k", T0, 60));
    assert!(!should_emit_alert(&mut h, "k", T0 + 30_000, 60));
    assert!(should_emit_alert(&mut h, "k", T0 + 61_000, 60));
}

#[test]
fn events_have_their_names() {
    assert_eq!(ASSISTANT_ALERT_EVENT, "assistant-alert");
    assert_eq!(MODEL_ERROR_EVENT, "model-error");
}

#[test]
fn new_history_knows_no_key() {
    let h = AlertHistory::new();
    assert_eq!(h.last_emission("k"), None);
    assert_eq!(h.last_emission(""), None);
}

#[test]
fn alert_key_collapses_numbers() {
    let parsed = reading("Chrome", "s", "d", "", "");
    let a = build_alert_key(&parsed, "Error at line 42");
    let b = build_alert_key(&parsed, "Error at line 7");
    assert_eq!(a, b);
    assert_eq!(a, "error at line");
}

#[test]
fn alert_key_prefers_the_issue_type() {
    let parsed = reading("Chrome", "s", "d", "  Compile ERROR ", "whatever 1");
    assert_eq!(build_alert_key(&parsed, "whatever 1"), "compile error");
    let chinese = reading("Chrome", "s", "d", " 网络错误 ", "x");
    assert_eq!(build_alert_key(&chinese, "x"), "网络错误");
    let blank = reading("Chrome", "s", "d", "   ", "Fallback 12 text");
    assert_eq!(build_alert_key(&blank, "Fallback 12 text"), "fallback text");
}

#[test]
fn normalize_key_trims_and_lowers() {
    assert_eq!(normalize_key("  Compile ERROR "), "compile error");
    assert_eq!(normalize_key(""), "");
    assert_eq!(normalize_key(" \t\n"), "");
    assert_eq!(normalize_key("ÄB"), "äb");
    assert_eq!(normalize_key("a  b"), "a  b");
}

#[test]
fn normalize_issue_text_squeezes_digits_and_spaces() {
    assert_eq!(normalize_issue_text("Error at line 42"), "error at line");
    assert_eq!(normalize_issue_text("  A1b22\t\tC  "), "a b c");
    assert_eq!(normalize_issue_text("12345"), "");
    assert_eq!(normalize_issue_text(""), "");
    assert_eq!(normalize_issue_text("E0308: mismatched"), "e : mismatched");
    assert_eq!(normalize_issue_text("a 1 2 3 b"), "a b");
    assert_eq!(normalize_issue_text("端口 8080 被占用"), "端口 被占用");
    assert_eq!(normalize_issue_text("42 first"), "first");
}

#[test]
fn normalize_issue_text_lowers_ascii_letters_only() {
    assert_eq!(normalize_issue_text("ÄB"), "Äb");
    assert_eq!(normalize_issue_text("ABC xyz"), "abc xyz");
}

#[test]
fn model_error_key_joins_type_and_message() {
    assert_eq!(build_model_error_key("timeout", "请求超时"), "model:timeout:请求超时");
    assert_eq!(build_model_error_key("", ""), "model::");
}

#[test]
fn combine_joins_the_four_texts_with_spaces() {
    let parsed = reading("App", "sum", "det", "type", "msg");
    assert_eq!(combine(&parsed), "App sum det msg");
    let empty = reading("", "", "", "", "");
    assert_eq!(combine(&empty), "   ");
}

#[test]
fn other_windows_are_never_suppressed() {
    assert!(!should_suppress_alert(&reading("Chrome", "浏览网页", "页面报错", "", "")));
    assert!(!should_suppress_alert(&reading("Chrome", "历史 设置", "d", "", "")));
    assert!(!should_suppress_alert(&reading("Unknown", "something", "d", "", "")));
    assert!(!should_suppress_alert(&reading("", "", "", "", "")));
}

#[test]
fn own_window_is_suppressed_unless_a_marker_is_shown() {
    assert!(should_suppress_alert(&reading("Screen Assistant", "主界面", "一些文字", "", "")));
    assert!(!should_suppress_alert(&reading("Screen Assistant", "历史记录", "d", "", "")));
    for marker in ["历史", "对话", "聊天", "提醒", "警告", "设置"] {
        let parsed = reading("screen assistant", "s", &format!("显示{}页面", marker), "", "");
        assert!(!should_suppress_alert(&parsed));
    }
}

#[test]
fn own_window_is_recognized_in_the_text_when_the_app_is_unknown() {
    assert!(should_suppress_alert(&reading("Unknown", "Screen Assistant 窗口", "d", "", "")));
    assert!(should_suppress_alert(&reading("", "s", "the SCREEN ASSISTANT window", "", "")));
    assert!(!should_suppress_alert(&reading("Unknown", "Screen Assistant 设置", "d", "", "")));
    assert!(!should_suppress_alert(&reading("Chrome", "Screen Assistant 窗口", "d", "", "")));
    assert!(should_suppress_alert(&reading("UNKNOWN", "s", "d", "", "screen assistant")));
}

#[test]
fn suppresses_takes_the_lowercase_forms_as_given() {
    assert!(suppresses("screen assistant", "screen assistant main"));
    assert!(!suppresses("screen assistant", "screen assistant 设置"));
    assert!(!suppresses("Screen Assistant", "nothing"));
    assert!(suppresses("", "screen assistant"));
    assert!(suppresses("unknown", "x screen assistant y"));
    assert!(!suppresses("chrome", "screen assistant"));
    assert!(!suppresses("", ""));
}

#[test]
fn model_errors_of_one_kind_are_told_once_per_cooldown() {
    let mut h = AlertHistory::new();
    let first = emit_model_error_once(&mut h, "HTTP 429", "capture", "t1", T0, 60);
    let alert = first.expect("the first failure is told");
    assert_eq!(alert.error_type, "rate_limit");
    assert_eq!(alert.source, "capture");
    assert_eq!(alert.detail, "HTTP 429");
    assert_eq!(alert.timestamp, "t1");
    assert_eq!(h.last_emission("model:rate_limit:请求过于频繁或触发限流"), Some(T0));
    // another text of the same kind shares the key
    assert!(emit_model_error_once(&mut h, "too many requests", "capture", "t2", T0 + 10_000, 60)
        .is_none());
    // another kind has a key of its own
    assert!(emit_model_error_once(&mut h, "timeout", "capture", "t3", T0 + 10_000, 60).is_some());
    assert!(emit_model_error_once(&mut h, "HTTP 429", "capture", "t4", T0 + 60_000, 60).is_some());
}
