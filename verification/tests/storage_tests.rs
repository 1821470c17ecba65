use screen_assistant::aggregate::{
    aggregate_records, append_record, count_in, distinct_items, holds, ranked,
    trigger_aggregation, BATCH_SIZE,
};
use screen_assistant::records::{
    copy_aggregate, copy_optional, copy_record, copy_strings, DailySummary, SummaryRecord,
};
use screen_assistant::storage::{
    check_profile_name, holds_illegal, is_reserved_name, join_path, log_file_name,
    partition_date, profile_base_name, profile_name_of, profile_names, sanitize_log_prefix,
    sanitize_profile_name, screenshot_file_name, StorageManager,
};

fn strings(items: &[&str]) -> Vec<String> {
    items.iter().map(|s| s.to_string()).collect()
}

fn record(n: usize, app: &str, summary: &str, action: &str, keywords: &[&str]) -> SummaryRecord {
    SummaryRecord {
        timestamp: format!("2024-01-02T{:02}:{:02}:{:02}", n / 3600, (n / 60) % 60, n % 60),
        summary: summary.to_string(),
        app: app.to_string(),
        action: action.to_string(),
        keywords: strings(keywords),
        has_issue: action == "issue",
        issue_type: String::new(),
        issue_summary: String::new(),
        suggestion: String::new(),
        confidence: 500_000,
        detail: String::new(),
        detail_ref: String::new(),
    }
}

#[test]
fn profile_names_that_are_rejected() {
    assert_eq!(sanitize_profile_name("a/b"), Err("配置名包含非法字符".to_string()));
    assert_eq!(sanitize_profile_name("CON"), Err("配置名不可用".to_string()));
    assert_eq!(sanitize_profile_name("x "), Err("配置名不能以空格或句点结尾".to_string()));
    assert_eq!(sanitize_profile_name(" x "), Err("配置名不能以空格或句点结尾".to_string()));
    assert_eq!(sanitize_profile_name(&"n".repeat(65)), Err("配置名过长".to_string()));
}

#[test]
fn profile_names_that_are_accepted() {
    assert_eq!(sanitize_profile_name("my-profile"), Ok("my-profile".to_string()));
    assert_eq!(sanitize_profile_name("my-profile.json"), Ok("my-profile".to_string()));
    assert_eq!(sanitize_profile_name("  lead"), Ok("lead".to_string()));
    assert_eq!(sanitize_profile_name(&"n".repeat(64)), Ok("n".repeat(64)));
    assert_eq!(sanitize_profile_name("工作 配置"), Ok("工作 配置".to_string()));
    assert_eq!(sanitize_profile_name("a.b"), Ok("a.b".to_string()));
    assert_eq!(sanitize_profile_name("COM0"), Ok("COM0".to_string()));
    assert_eq!(sanitize_profile_name("CONSOLE"), Ok("CONSOLE".to_string()));
}

#[test]
fn profile_name_length_is_counted_in_characters() {
    assert_eq!(sanitize_profile_name(&"配".repeat(64)), Ok("配".repeat(64)));
    assert_eq!(sanitize_profile_name(&"配".repeat(65)), Err("配置名过长".to_string()));
    let with_suffix = format!("{}.json", "n".repeat(64));
    assert_eq!(sanitize_profile_name(&with_suffix), Ok("n".repeat(64)));
}

#[test]
fn empty_profile_names_are_rejected() {
    for name in ["", " ", "\t\n", ".json", "  .json"] {
        assert_eq!(sanitize_profile_name(name), Err("配置名不能为空".to_string()));
    }
}

#[test]
fn dots_and_trailing_periods_are_rejected() {
    assert_eq!(sanitize_profile_name("."), Err("配置名不可用".to_string()));
    assert_eq!(sanitize_profile_name(".."), Err("配置名不可用".to_string()));
    assert_eq!(sanitize_profile_name("..."), Err("配置名不能以空格或句点结尾".to_string()));
    assert_eq!(sanitize_profile_name("name."), Err("配置名不能以空格或句点结尾".to_string()));
    assert_eq!(sanitize_profile_name("x .json"), Err("配置名不能以空格或句点结尾".to_string()));
    assert_eq!(sanitize_profile_name("x.json "), Err("配置名不能以空格或句点结尾".to_string()));
}

#[test]
fn every_forbidden_character_is_rejected() {
    for c in ['\\', '/', ':', '*', '?', '"', '<', '>', '|', '\u{0}', '\u{7}', '\n', '\u{7f}', '\u{85}'] {
        let name = format!("a{}b", c);
        assert_eq!(sanitize_profile_name(&name), Err("配置名包含非法字符".to_string()));
    }
    assert_eq!(sanitize_profile_name("a\tb"), Err("配置名包含非法字符".to_string()));
}

#[test]
fn names_that_end_with_any_white_space_are_rejected() {
    for end in [' ', '\t', '\n', '\r', '\u{85}', '\u{a0}', '\u{1680}', '\u{2003}', '\u{2028}', '\u{202f}', '\u{205f}', '\u{3000}'] {
        let name = format!("x{}", end);
        assert_eq!(sanitize_profile_name(&name), Err("配置名不能以空格或句点结尾".to_string()));
        assert_eq!(check_profile_name(&name, "X"), Some("配置名不能以空格或句点结尾".to_string()));
    }
    // white space inside a name is kept, and leading white space is dropped
    assert_eq!(sanitize_profile_name("a\u{3000}b"), Ok("a\u{3000}b".to_string()));
    assert_eq!(sanitize_profile_name("\u{3000}ab"), Ok("ab".to_string()));
    // a zero width space is no white space
    assert_eq!(sanitize_profile_name("x\u{200b}"), Ok("x\u{200b}".to_string()));
}

#[test]
fn every_reserved_name_is_rejected_whatever_its_case() {
    let reserved = [
        "CON", "PRN", "AUX", "NUL", "COM1", "COM2", "COM3", "COM4", "COM5", "COM6", "COM7",
        "COM8", "COM9", "LPT1", "LPT2", "LPT3", "LPT4", "LPT5", "LPT6", "LPT7", "LPT8", "LPT9",
    ];
    for name in reserved {
        assert!(is_reserved_name(name));
        assert_eq!(sanitize_profile_name(name), Err("配置名不可用".to_string()));
        assert_eq!(sanitize_profile_name(&name.to_lowercase()), Err("配置名不可用".to_string()));
        let with_suffix = format!("{}.json", name);
        assert_eq!(sanitize_profile_name(&with_suffix), Err("配置名不可用".to_string()));
    }
    assert_eq!(sanitize_profile_name("Con"), Err("配置名不可用".to_string()));
    assert!(!is_reserved_name("con"));
    assert!(!is_reserved_name("COM10"));
    assert!(!is_reserved_name(""));
}

#[test]
fn check_profile_name_takes_the_uppercase_form_as_given() {
    assert_eq!(check_profile_name("fine", "FINE"), None);
    assert_eq!(check_profile_name("fine", "CON"), Some("配置名不可用".to_string()));
    assert_eq!(check_profile_name("con", "con"), None);
    assert_eq!(check_profile_name("", "CON"), Some("配置名不能为空".to_string()));
    assert_eq!(check_profile_name("a?", "CON"), Some("配置名包含非法字符".to_string()));
}

#[test]
fn profile_base_name_drops_leading_space_and_suffix() {
    assert_eq!(profile_base_name("  a.json"), "a");
    assert_eq!(profile_base_name("a.json.json"), "a.json");
    assert_eq!(profile_base_name("a.JSON"), "a.JSON");
    assert_eq!(profile_base_name("a "), "a ");
    assert_eq!(profile_base_name("json"), "json");
    assert_eq!(profile_base_name(".json"), "");
}

#[test]
fn holds_illegal_finds_control_and_forbidden_characters() {
    assert!(holds_illegal(&"a|b".chars().collect()));
    assert!(holds_illegal(&"\u{1b}".chars().collect()));
    assert!(!holds_illegal(&"plain name-1_2".chars().collect()));
    assert!(!holds_illegal(&Vec::new()));
}

#[test]
fn log_prefix_keeps_plain_characters() {
    assert_eq!(sanitize_log_prefix("assistant-alert"), "assistant-alert");
    assert_eq!(sanitize_log_prefix("a b/c"), "abc");
    assert_eq!(sanitize_log_prefix("model_error.1"), "model_error1");
    assert_eq!(sanitize_log_prefix("！！"), "log");
    assert_eq!(sanitize_log_prefix(""), "log");
    assert_eq!(sanitize_log_prefix("日志A"), "A");
    assert_eq!(sanitize_log_prefix("../../etc"), "etc");
}

#[test]
fn log_file_name_pads_the_milliseconds() {
    assert_eq!(log_file_name("20240101-120000", 7, "x y"), "20240101-120000-007-xy.log");
    assert_eq!(log_file_name("20240101-120000", 45, "a"), "20240101-120000-045-a.log");
    assert_eq!(log_file_name("20240101-120000", 123, "a"), "20240101-120000-123-a.log");
    assert_eq!(log_file_name("20240101-120000", 0, ""), "20240101-120000-000-log.log");
    assert_eq!(log_file_name("s", 1500, "a"), "s-1500-a.log");
    assert_eq!(log_file_name("s", 10, "a"), "s-010-a.log");
    assert_eq!(log_file_name("s", 100, "a"), "s-100-a.log");
    assert_eq!(log_file_name("s", 999, "a"), "s-999-a.log");
}

#[test]
fn storage_manager_places() {
    let m = StorageManager::new(Some("/home/u/.local/share"));
    assert_eq!(m.data_dir(), "/home/u/.local/share/screen-assistant/data");
    assert_eq!(m.screenshots_dir(), "/home/u/.local/share/screen-assistant/data/screenshots");
    assert_eq!(m.logs_dir(), "/home/u/.local/share/screen-assistant/data/logs");
    assert_eq!(m.config_path(), "/home/u/.local/share/screen-assistant/data/config.json");
    assert_eq!(
        m.summary_path("2024-01-02"),
        "/home/u/.local/share/screen-assistant/data/summaries/2024-01-02.json"
    );
    assert_eq!(
        m.profile_path("work"),
        Ok("/home/u/.local/share/screen-assistant/data/profiles/work.json".to_string())
    );
    assert_eq!(m.profile_path(""), Err("配置名不能为空".to_string()));
    assert_eq!(
        m.log_snapshot_path("20240102-030405", 6, "assistant-alert"),
        "/home/u/.local/share/screen-assistant/data/logs/20240102-030405-006-assistant-alert.log"
    );
}

#[test]
fn screenshots_are_named_after_their_time() {
    assert_eq!(screenshot_file_name("20240102-030405-.678"), "20240102-030405-.678.jpg");
    let m = StorageManager::new(Some("/d"));
    assert_eq!(
        m.screenshot_path("20240102-030405-.678"),
        "/d/screen-assistant/data/screenshots/20240102-030405-.678.jpg"
    );
}

#[test]
fn storage_manager_without_a_local_directory() {
    let m = StorageManager::new(None);
    assert_eq!(m.data_dir(), "./screen-assistant/data");
    assert_eq!(m.logs_dir(), "./screen-assistant/data/logs");
}

#[test]
fn storage_manager_directories() {
    let m = StorageManager::new(Some("/d"));
    assert_eq!(
        m.directories(),
        strings(&[
            "/d/screen-assistant/data",
            "/d/screen-assistant/data/summaries",
            "/d/screen-assistant/data/aggregated",
            "/d/screen-assistant/data/profiles",
            "/d/screen-assistant/data/screenshots",
            "/d/screen-assistant/data/logs",
        ])
    );
}

#[test]
fn join_path_puts_a_slash_between() {
    assert_eq!(join_path("a", "b"), "a/b");
    assert_eq!(join_path("", ""), "/");
}

#[test]
fn partition_date_is_the_first_ten_characters() {
    assert_eq!(partition_date("2024-05-06T07:08:09"), "2024-05-06");
    assert_eq!(partition_date("2024-05-06"), "2024-05-06");
    assert_eq!(partition_date("2024"), "2024");
    assert_eq!(partition_date(""), "");
    assert_eq!(partition_date("二〇二四年五月六日七时八分"), "二〇二四年五月六日七");
}

#[test]
fn save_summary_creates_the_day() {
    let m = StorageManager::new(None);
    let r = record(5, "Chrome", "浏览", "active", &[]);
    let day = m.save_summary(None, &r);
    assert_eq!(day.date, "2024-01-02");
    assert_eq!(day.records, vec![r]);
    assert!(day.aggregated.is_empty());
    assert_eq!(day.day_summary, None);
}

#[test]
fn save_summary_appends_to_the_stored_day() {
    let m = StorageManager::new(None);
    let first = record(1, "Chrome", "a", "active", &[]);
    let second = record(2, "Word", "b", "active", &[]);
    let mut stored = DailySummary::new("kept-date");
    stored.day_summary = Some("narrative".to_string());
    let day = m.save_summary(Some(stored), &first);
    let day = m.save_summary(Some(day), &second);
    assert_eq!(day.date, "kept-date");
    assert_eq!(day.records, vec![first, second]);
    assert_eq!(day.day_summary, Some("narrative".to_string()));
    assert!(day.aggregated.is_empty());
}

#[test]
fn get_summaries_gives_the_records_or_nothing() {
    let m = StorageManager::new(None);
    assert!(m.get_summaries(None).is_empty());
    let mut day = DailySummary::new("2024-01-02");
    day.records.push(record(1, "A", "a", "active", &["k"]));
    day.records.push(record(2, "B", "b", "issue", &[]));
    assert_eq!(m.get_summaries(Some(&day)), day.records);
}

#[test]
fn one_batch_makes_one_aggregate() {
    let m = StorageManager::new(None);
    let mut day: Option<DailySummary> = None;
    for n in 0..(BATCH_SIZE - 1) {
        day = Some(m.save_summary(day, &record(n, "Chrome", "浏览", "active", &[])));
    }
    let before = day.expect("a day");
    assert_eq!(before.records.len(), 299);
    assert_eq!(before.aggregated.len(), 0);
    let after = m.save_summary(Some(before), &record(299, "Chrome", "浏览", "active", &[]));
    assert_eq!(after.records.len(), 300);
    assert_eq!(after.aggregated.len(), 1);
    assert_eq!(after.aggregated[0].record_count, 300);
    assert_eq!(after.aggregated[0].start_time, "2024-01-02T00:00:00");
    assert_eq!(after.aggregated[0].end_time, "2024-01-02T00:04:59");
}

#[test]
fn every_batch_makes_an_aggregate_of_the_latest_records() {
    let mut day = DailySummary::new("2024-01-02");
    for n in 0..650 {
        let app = if n < 300 { "Early" } else { "Late" };
        append_record(&mut day, &record(n, app, "s", "active", &[]));
        assert_eq!(day.aggregated.len(), (n + 1) / 300);
    }
    assert_eq!(day.records.len(), 650);
    assert_eq!(day.aggregated.len(), 2);
    assert_eq!(day.aggregated[0].apps, strings(&["Early"]));
    assert_eq!(day.aggregated[1].apps, strings(&["Late"]));
    assert_eq!(day.aggregated[1].record_count, 300);
    assert_eq!(day.aggregated[1].start_time, "2024-01-02T00:05:00");
    assert_eq!(day.aggregated[1].end_time, "2024-01-02T00:09:59");
}

#[test]
fn trigger_aggregation_sums_up_what_is_there() {
    let mut day = DailySummary::new("2024-01-02");
    trigger_aggregation(&mut day);
    assert!(day.aggregated.is_empty());
    day.records.push(record(1, "A", "a", "active", &[]));
    day.records.push(record(2, "B", "b", "active", &[]));
    trigger_aggregation(&mut day);
    assert_eq!(day.aggregated.len(), 1);
    assert_eq!(day.aggregated[0].record_count, 2);
    assert_eq!(day.records.len(), 2);
}

#[test]
fn aggregate_ranks_apps_by_count_then_first_seen() {
    let records = vec![
        record(0, "X", "s0", "active", &[]),
        record(1, "Y", "s1", "active", &[]),
        record(2, "Y", "s2", "active", &[]),
        record(3, "X", "s3", "active", &[]),
        record(4, "Z", "s4", "active", &[]),
        record(5, "W", "s5", "active", &[]),
        record(6, "W", "s6", "active", &[]),
        record(7, "W", "s7", "active", &[]),
    ];
    let a = aggregate_records(&records);
    assert_eq!(a.apps, strings(&["W", "X", "Y"]));
    assert_eq!(a.main_activities, strings(&["s0", "s1", "s2", "s3", "s4"]));
    assert_eq!(a.summary, "使用 W、X、Y 进行了 s0 等操作");
    assert_eq!(a.record_count, 8);
    assert_eq!(a.start_time, "2024-01-02T00:00:00");
    assert_eq!(a.end_time, "2024-01-02T00:00:07");
    assert!(!a.has_errors);
    assert_eq!(a.error_summary, None);
    assert!(a.keywords.is_empty());
}

#[test]
fn aggregate_takes_the_ten_most_frequent_keywords() {
    let mut records = Vec::new();
    let names: Vec<String> = (0..12).map(|i| format!("k{}", i)).collect();
    // k0..k11 once each, then k11 and k5 once more
    let refs: Vec<&str> = names.iter().map(|s| s.as_str()).collect();
    records.push(record(0, "A", "s", "active", &refs));
    records.push(record(1, "A", "s", "active", &["k11", "k5"]));
    let a = aggregate_records(&records);
    assert_eq!(
        a.keywords,
        strings(&["k5", "k11", "k0", "k1", "k2", "k3", "k4", "k6", "k7", "k8"])
    );
    assert_eq!(a.main_activities, strings(&["s"]));
}

#[test]
fn aggregate_collects_failures() {
    let records = vec![
        record(0, "A", "fine", "active", &[]),
        record(1, "A", "build broke", "issue", &[]),
        record(2, "A", "crashed", "error", &[]),
        record(3, "A", "build broke", "issue", &[]),
        record(4, "A", "odd", "Issue", &[]),
    ];
    let a = aggregate_records(&records);
    assert!(a.has_errors);
    assert_eq!(a.error_summary, Some("build broke; crashed; build broke".to_string()));
    assert_eq!(a.main_activities, strings(&["fine", "build broke", "crashed", "odd"]));
}

#[test]
fn aggregate_of_nothing() {
    let a = aggregate_records(&Vec::new());
    assert_eq!(a.start_time, "");
    assert_eq!(a.end_time, "");
    assert_eq!(a.summary, "使用  进行了 未知 等操作");
    assert!(a.apps.is_empty());
    assert!(a.main_activities.is_empty());
    assert!(a.keywords.is_empty());
    assert_eq!(a.record_count, 0);
    assert!(!a.has_errors);
    assert_eq!(a.error_summary, None);
}

#[test]
fn aggregate_of_one_record() {
    let a = aggregate_records(&vec![record(9, "Chrome", "读文档", "issue", &[".md", ".md"])]);
    assert_eq!(a.start_time, "2024-01-02T00:00:09");
    assert_eq!(a.end_time, "2024-01-02T00:00:09");
    assert_eq!(a.summary, "使用 Chrome 进行了 读文档 等操作");
    assert_eq!(a.apps, strings(&["Chrome"]));
    assert_eq!(a.keywords, strings(&[".md"]));
    assert_eq!(a.error_summary, Some("读文档".to_string()));
}

#[test]
fn ranked_orders_by_count_then_first_seen() {
    let items = strings(&["b", "a", "c", "a", "b", "d", "c", "c"]);
    assert_eq!(ranked(&items, 10), strings(&["c", "b", "a", "d"]));
    assert_eq!(ranked(&items, 2), strings(&["c", "b"]));
    assert_eq!(ranked(&items, 0), Vec::<String>::new());
    assert_eq!(ranked(&Vec::new(), 3), Vec::<String>::new());
    assert_eq!(ranked(&strings(&["x", "y", "z"]), 2), strings(&["x", "y"]));
}

#[test]
fn distinct_items_keep_the_first_of_each() {
    assert_eq!(distinct_items(&strings(&["b", "a", "b", "c", "a"])), strings(&["b", "a", "c"]));
    assert_eq!(distinct_items(&Vec::new()), Vec::<String>::new());
    assert_eq!(count_in(&strings(&["b", "a", "b"]), &"b".to_string()), 2);
    assert_eq!(count_in(&strings(&["b", "a", "b"]), &"z".to_string()), 0);
    assert!(holds(&strings(&["b", "a"]), &"a".to_string()));
    assert!(!holds(&strings(&["b", "a"]), &"ab".to_string()));
}

#[test]
fn copies_are_equal_to_what_they_copy() {
    let r = record(3, "A", "s", "issue", &["k1", "k2"]);
    assert_eq!(copy_record(&r), r);
    let a = aggregate_records(&vec![r]);
    assert_eq!(copy_aggregate(&a), a);
    assert_eq!(copy_strings(&strings(&["x", "y"])), strings(&["x", "y"]));
    assert_eq!(copy_optional(&Some("x".to_string())), Some("x".to_string()));
    assert_eq!(copy_optional(&None), None);
}

#[test]
fn profiles_are_the_json_files() {
    assert_eq!(profile_name_of("work.json"), Some("work".to_string()));
    assert_eq!(profile_name_of("a.b.json"), Some("a.b".to_string()));
    assert_eq!(profile_name_of(".hidden.json"), Some(".hidden".to_string()));
    assert_eq!(profile_name_of("工作.json"), Some("工作".to_string()));
    assert_eq!(profile_name_of("work.JSON"), None);
    assert_eq!(profile_name_of("work.json.bak"), None);
    assert_eq!(profile_name_of("work"), None);
    assert_eq!(profile_name_of("json"), None);
    assert_eq!(profile_name_of(".json"), None);
    assert_eq!(profile_name_of("work."), None);
    assert_eq!(profile_name_of(".."), None);
    assert_eq!(profile_name_of(""), None);
}

#[test]
fn profile_names_agree_with_std_paths() {
    for file in ["work.json", "a.b.json", ".hidden.json", ".json", "x", "x.", "..", "", "a.jsonx"] {
        let path = std::path::Path::new(file);
        let expected = if path.extension().and_then(|s| s.to_str()) == Some("json") {
            path.file_stem().and_then(|s| s.to_str()).map(|s| s.to_string())
        } else {
            None
        };
        assert_eq!(profile_name_of(file), expected);
    }
}

#[test]
fn profiles_are_listed_in_order() {
    let files = strings(&["zeta.json", "notes.txt", "alpha.json", "Beta.json", "alpha2.json", "中.json"]);
    assert_eq!(profile_names(&files), strings(&["Beta", "alpha", "alpha2", "zeta", "中"]));
    assert_eq!(profile_names(&Vec::new()), Vec::<String>::new());
    assert_eq!(profile_names(&strings(&["b.json", "a.json", "b.json"])), strings(&["a", "b", "b"]));
    let m = StorageManager::new(Some("/d"));
    assert_eq!(m.list_profiles(&files), profile_names(&files));
    assert_eq!(m.profiles_dir(), "/d/screen-assistant/data/profiles");
}

#[test]
fn profile_order_agrees_with_std() {
    let names = ["b", "a", "ab", "B", "", "é", "z", "中", "10", "9", "a"];
    let files: Vec<String> = names.iter().map(|n| format!("{}x.json", n)).collect();
    let mut expected: Vec<String> = names.iter().map(|n| format!("{}x", n)).collect();
    expected.sort();
    assert_eq!(profile_names(&files), expected);
}

#[test]
fn control_codes_are_what_the_list_says_for_every_character() {
    let forbidden = ['\\', '/', ':', '*', '?', '"', '<', '>', '|'];
    for code in 0..=0x10ffffu32 {
        if let Some(c) = char::from_u32(code) {
            let listed = code <= 0x1f || (0x7f..=0x9f).contains(&code);
            assert_eq!(c.is_control(), listed, "U+{:04X}", code);
            assert_eq!(holds_illegal(&vec![c]), listed || forbidden.contains(&c), "U+{:04X}", code);
        }
    }
}
