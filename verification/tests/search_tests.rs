use screen_assistant::records::{AggregatedRecord, DailySummary, SummaryRecord};
use screen_assistant::search::{
    holds_any_keyword, searchable_text, SearchQuery, SearchResult, TimeRange,
};
use screen_assistant::storage::StorageManager;

fn strings(items: &[&str]) -> Vec<String> {
    items.iter().map(|s| s.to_string()).collect()
}

fn record(time: &str, app: &str, summary: &str, detail: &str, keywords: &[&str]) -> SummaryRecord {
    SummaryRecord {
        timestamp: format!("2024-01-02T{}", time),
        summary: summary.to_string(),
        app: app.to_string(),
        action: "active".to_string(),
        keywords: strings(keywords),
        has_issue: false,
        issue_type: String::new(),
        issue_summary: String::new(),
        suggestion: String::new(),
        confidence: 500_000,
        detail: detail.to_string(),
        detail_ref: String::new(),
    }
}

fn aggregate(name: &str) -> AggregatedRecord {
    AggregatedRecord {
        start_time: "2024-01-02T10:00:00".to_string(),
        end_time: "2024-01-02T10:05:00".to_string(),
        summary: name.to_string(),
        apps: Vec::new(),
        main_activities: Vec::new(),
        keywords: Vec::new(),
        record_count: 300,
        has_errors: false,
        error_summary: None,
    }
}

fn day(date: &str, records: Vec<SummaryRecord>, aggregates: &[&str]) -> DailySummary {
    DailySummary {
        date: date.to_string(),
        records,
        aggregated: aggregates.iter().map(|n| aggregate(n)).collect(),
        day_summary: None,
    }
}

fn query(time_range: TimeRange, keywords: &[&str]) -> SearchQuery {
    SearchQuery { time_range, keywords: strings(keywords), include_detail: false }
}

fn summaries(result: &SearchResult) -> Vec<String> {
    result.records.iter().map(|r| r.summary.clone()).collect()
}

fn aggregate_names(result: &SearchResult) -> Vec<String> {
    result.aggregated.iter().map(|a| a.summary.clone()).collect()
}

fn manager() -> StorageManager {
    StorageManager::new(None)
}

#[test]
fn no_days_and_no_files_give_an_empty_result() {
    let result = manager().smart_search(&query(TimeRange::Days(0), &[]), &Vec::new(), "");
    assert!(result.records.is_empty());
    assert!(result.aggregated.is_empty());
    assert_eq!(result.source, "历史聚合");
}

#[test]
fn no_days_asked_for_gives_nothing_even_when_days_are_stored() {
    let days = vec![day("2024-01-02", vec![record("10:00:00", "A", "a", "", &[])], &["x"])];
    let result = manager().smart_search(&query(TimeRange::Days(0), &["a"]), &days, "");
    assert!(result.records.is_empty());
    assert!(result.aggregated.is_empty());
}

#[test]
fn days_collect_aggregates_day_after_day() {
    let days = vec![
        day("2024-01-02", vec![record("10:00:00", "A", "a", "", &[])], &["today"]),
        day("2024-01-01", Vec::new(), &["y1", "y2"]),
        day("2023-12-31", Vec::new(), &[]),
        day("2023-12-30", Vec::new(), &["old"]),
    ];
    let m = manager();
    let one = m.smart_search(&query(TimeRange::Days(1), &[]), &days, "");
    assert_eq!(aggregate_names(&one), strings(&["today"]));
    assert!(one.records.is_empty());
    let two = m.smart_search(&query(TimeRange::Days(2), &[]), &days, "");
    assert_eq!(aggregate_names(&two), strings(&["today", "y1", "y2"]));
    let four = m.smart_search(&query(TimeRange::Days(4), &["ignored"]), &days, "");
    assert_eq!(aggregate_names(&four), strings(&["today", "y1", "y2", "old"]));
    let many = m.smart_search(&query(TimeRange::Days(u32::MAX), &[]), &days, "");
    assert_eq!(aggregate_names(&many), strings(&["today", "y1", "y2", "old"]));
    assert_eq!(many.source, "历史聚合");
}

#[test]
fn recent_keeps_records_from_the_cutoff_on() {
    let days = vec![day(
        "2024-01-02",
        vec![
            record("09:59:59", "A", "before", "", &[]),
            record("10:00:00", "A", "at", "", &[]),
            record("10:00:01", "A", "after", "", &[]),
        ],
        &["agg"],
    )];
    let result =
        manager().smart_search(&query(TimeRange::Recent(5), &[]), &days, "2024-01-02T10:00:00");
    assert_eq!(summaries(&result), strings(&["at", "after"]));
    assert!(result.aggregated.is_empty());
    assert_eq!(result.source, "原始记录");
}

#[test]
fn recent_also_filters_by_keyword() {
    let days = vec![day(
        "2024-01-02",
        vec![
            record("09:00:00", "Chrome", "old chrome", "", &[]),
            record("10:00:01", "Chrome", "new chrome", "", &[]),
            record("10:00:02", "Word", "new word", "", &[]),
        ],
        &[],
    )];
    let result = manager().smart_search(
        &query(TimeRange::Recent(5), &["chrome"]),
        &days,
        "2024-01-02T10:00:00",
    );
    assert_eq!(summaries(&result), strings(&["new chrome"]));
}

#[test]
fn recent_without_days_is_empty() {
    let result = manager().smart_search(&query(TimeRange::Recent(5), &[]), &Vec::new(), "x");
    assert!(result.records.is_empty());
    assert!(result.aggregated.is_empty());
    assert_eq!(result.source, "原始记录");
}

#[test]
fn recent_only_reads_the_present_day() {
    let days = vec![
        day("2024-01-02", vec![record("10:00:00", "A", "today", "", &[])], &[]),
        day("2024-01-01", vec![record("23:00:00", "A", "yesterday", "", &[])], &[]),
    ];
    let result = manager().smart_search(&query(TimeRange::Recent(5), &[]), &days, "");
    assert_eq!(summaries(&result), strings(&["today"]));
}

#[test]
fn today_with_keywords_searches_the_records() {
    let days = vec![day(
        "2024-01-02",
        vec![
            record("08:00:00", "Chrome", "读文档", "", &[]),
            record("09:00:00", "Terminal", "cargo build", "error[E0308]", &[]),
            record("10:00:00", "Word", "写报告", "", &["错误"]),
        ],
        &["agg"],
    )];
    let result = manager().smart_search(&query(TimeRange::Today, &["E0308", "错误"]), &days, "");
    assert_eq!(summaries(&result), strings(&["cargo build", "写报告"]));
    assert!(result.aggregated.is_empty());
    assert_eq!(result.source, "关键词搜索");
}

#[test]
fn today_without_keywords_gives_aggregates_and_the_latest_records() {
    let mut records = Vec::new();
    for n in 0..25 {
        records.push(record(&format!("10:00:{:02}", n), "A", &format!("r{}", n), "", &[]));
    }
    let days = vec![day("2024-01-02", records, &["a1", "a2"])];
    let result = manager().smart_search(&query(TimeRange::Today, &[]), &days, "");
    let expected: Vec<String> = (5..25).rev().map(|n| format!("r{}", n)).collect();
    assert_eq!(summaries(&result), expected);
    assert_eq!(aggregate_names(&result), strings(&["a1", "a2"]));
    assert_eq!(result.source, "聚合记录");
}

#[test]
fn today_with_few_records_gives_them_all_latest_first() {
    let days = vec![day(
        "2024-01-02",
        vec![record("10:00:00", "A", "first", "", &[]), record("10:00:01", "A", "second", "", &[])],
        &[],
    )];
    let result = manager().smart_search(&query(TimeRange::Today, &[]), &days, "");
    assert_eq!(summaries(&result), strings(&["second", "first"]));
    let nothing = manager().smart_search(&query(TimeRange::Today, &[]), &Vec::new(), "");
    assert!(nothing.records.is_empty());
    assert!(nothing.aggregated.is_empty());
    assert_eq!(nothing.source, "聚合记录");
}

#[test]
fn keywords_match_without_regard_to_case() {
    let r = record("10:00:00", "Chrome", "Reading Docs", "Some Detail", &["TagOne", "tagtwo"]);
    assert!(query(TimeRange::Today, &["CHROME"]).matches_keywords(&r));
    assert!(query(TimeRange::Today, &["reading"]).matches_keywords(&r));
    assert!(query(TimeRange::Today, &["detail"]).matches_keywords(&r));
    assert!(query(TimeRange::Today, &["TAGONE"]).matches_keywords(&r));
    assert!(query(TimeRange::Today, &["tagone tagtwo"]).matches_keywords(&r));
    assert!(!query(TimeRange::Today, &["firefox"]).matches_keywords(&r));
}

#[test]
fn keywords_are_alternatives() {
    let r = record("10:00:00", "Chrome", "reading", "", &[]);
    assert!(query(TimeRange::Today, &["nope", "chrome"]).matches_keywords(&r));
    assert!(!query(TimeRange::Today, &["nope", "never"]).matches_keywords(&r));
    assert!(query(TimeRange::Today, &[]).matches_keywords(&r));
    assert!(query(TimeRange::Today, &[""]).matches_keywords(&r));
}

#[test]
fn keywords_are_not_looked_for_in_other_fields() {
    let mut r = record("10:00:00", "Chrome", "reading", "", &[]);
    r.issue_type = "hidden".to_string();
    r.suggestion = "hidden".to_string();
    r.action = "hidden".to_string();
    assert!(!query(TimeRange::Today, &["hidden"]).matches_keywords(&r));
    assert!(!query(TimeRange::Today, &["2024"]).matches_keywords(&r));
}

#[test]
fn searchable_text_joins_summary_app_detail_and_tags() {
    let r = record("10:00:00", "App", "Sum", "Det", &["k1", "k2"]);
    assert_eq!(searchable_text(&r), "Sum App Det k1 k2");
    let bare = record("10:00:00", "", "", "", &[]);
    assert_eq!(searchable_text(&bare), "   ");
}

#[test]
fn holds_any_keyword_lowers_the_keywords_only() {
    assert!(holds_any_keyword("some text", &strings(&["TEXT"])));
    assert!(!holds_any_keyword("SOME TEXT", &strings(&["text"])));
    assert!(!holds_any_keyword("some text", &Vec::new()));
}
