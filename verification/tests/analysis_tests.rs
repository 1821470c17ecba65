use screen_assistant::analysis::{
    analysis_from_document, confidence_from_word, extract_app_from_text, extract_braced_json,
    extract_fence_body, extract_fenced_json, extract_json_value, extract_keywords_from_analysis,
    first_line_of, flags_trouble, heuristic_analysis, parse_analysis, parse_confidence,
};
use screen_assistant::json::{
    document_in_reading, find_entry, find_flag, find_text, parse_document, JsonEntry, JsonField,
    JsonReading,
};

fn entry(key: &str, value: JsonField) -> JsonEntry {
    JsonEntry { key: key.to_string(), value }
}

fn text(s: &str) -> JsonField {
    JsonField::Text(s.to_string())
}

fn number(x: f64) -> JsonField {
    JsonField::Number(x.to_bits())
}

#[test]
fn prose_with_a_word_for_failure_is_an_issue() {
    let r = parse_analysis("not json at all, but contains 错误");
    assert!(r.has_issue);
    assert_eq!(r.confidence, 400_000);
    assert_eq!(r.issue_type, "detected");
    assert_eq!(r.summary, "not json at all, but contains 错误");
    assert_eq!(r.detail, "not json at all, but contains 错误");
    assert_eq!(r.issue_message, "not json at all, but contains 错误");
    assert_eq!(r.suggestion, "");
    assert_eq!(r.app, "Unknown");
}

#[test]
fn plain_object_without_issue() {
    let r = parse_analysis(r#"{"summary":"ok","has_issue":false}"#);
    assert!(!r.has_issue);
    assert_eq!(r.confidence, 200_000);
    assert_eq!(r.app, "Unknown");
    assert_eq!(r.summary, "ok");
    assert_eq!(r.detail, "");
    assert_eq!(r.issue_type, "");
    assert_eq!(r.issue_message, "");
    assert_eq!(r.suggestion, "");
}

#[test]
fn issue_type_without_flag_is_repaired() {
    let r = parse_analysis(r#"{"summary":"x","issue_type":"编译错误"}"#);
    assert!(r.has_issue);
    assert_eq!(r.issue_type, "编译错误");
    // the confidence is decided before the repair
    assert_eq!(r.confidence, 200_000);
}

#[test]
fn issue_message_or_suggestion_without_flag_is_repaired() {
    assert!(parse_analysis(r#"{"issue_summary":"cannot build"}"#).has_issue);
    assert!(parse_analysis(r#"{"error_message":"cannot build"}"#).has_issue);
    assert!(parse_analysis(r#"{"suggestion":"restart"}"#).has_issue);
    assert!(parse_analysis(r#"{"error_type":"net"}"#).has_issue);
    assert!(!parse_analysis(r#"{"issue_type":"","issue_summary":"","suggestion":""}"#).has_issue);
}

#[test]
fn a_flag_that_is_set_is_not_repaired() {
    let r = parse_analysis(r#"{"summary":"ok","has_issue":false,"issue_type":"编译错误"}"#);
    assert!(!r.has_issue);
    assert_eq!(r.issue_type, "编译错误");
    assert_eq!(r.confidence, 200_000);
    assert!(!parse_analysis(r#"{"has_issue":false,"issue_summary":"x"}"#).has_issue);
    assert!(!parse_analysis(r#"{"has_issue":false,"suggestion":"x"}"#).has_issue);
    assert!(!parse_analysis(r#"{"has_error":false,"issue_type":"x"}"#).has_issue);
    assert!(parse_analysis(r#"{"has_issue":true}"#).has_issue);
    assert!(parse_analysis(r#"{"has_error":true}"#).has_issue);
}

#[test]
fn a_flag_of_the_wrong_kind_counts_as_not_set() {
    assert!(parse_analysis(r#"{"has_issue":"false","issue_type":"x"}"#).has_issue);
    assert!(parse_analysis(r#"{"has_issue":null,"has_error":0,"suggestion":"x"}"#).has_issue);
    assert!(!parse_analysis(r#"{"has_issue":"true"}"#).has_issue);
    assert!(!parse_analysis(r#"{"has_issue":1,"has_error":false,"issue_type":"x"}"#).has_issue);
}

#[test]
fn full_object_is_read_field_by_field() {
    let r = parse_analysis(
        r#"{"summary":"编辑代码","detail":"窗口里有代码","app":"Visual Studio Code","has_issue":true,"issue_type":"编译错误","issue_summary":"E0308 mismatched types","suggestion":"检查类型","confidence":0.85}"#,
    );
    assert_eq!(r.summary, "编辑代码");
    assert_eq!(r.detail, "窗口里有代码");
    assert_eq!(r.app, "Visual Studio Code");
    assert!(r.has_issue);
    assert_eq!(r.issue_type, "编译错误");
    assert_eq!(r.issue_message, "E0308 mismatched types");
    assert_eq!(r.suggestion, "检查类型");
    assert_eq!(r.confidence, 850_000);
}

#[test]
fn alternate_keys_are_accepted() {
    let r = parse_analysis(
        r#"{"has_error":true,"error_type":"net","error_message":"down","image_description":"a screen"}"#,
    );
    assert!(r.has_issue);
    assert_eq!(r.issue_type, "net");
    assert_eq!(r.issue_message, "down");
    assert_eq!(r.detail, "a screen");
    assert_eq!(r.confidence, 500_000);
}

#[test]
fn first_keys_win_over_alternate_keys() {
    let r = parse_analysis(
        r#"{"has_issue":false,"has_error":true,"issue_type":"a","error_type":"b","issue_summary":"c","error_message":"d","detail":"e","screen_detail":"f"}"#,
    );
    assert_eq!(r.issue_type, "a");
    assert_eq!(r.issue_message, "c");
    assert_eq!(r.detail, "e");
    // the flag read is `has_issue`, and a flag that is set decides
    assert!(!r.has_issue);
    assert_eq!(r.confidence, 200_000);
}

#[test]
fn a_key_of_the_wrong_kind_gives_way_to_the_alternate_key() {
    let r = parse_analysis(r#"{"has_issue":"yes","has_error":true,"issue_type":7,"error_type":"b"}"#);
    assert!(r.has_issue);
    assert_eq!(r.issue_type, "b");
    assert_eq!(r.confidence, 500_000);
}

#[test]
fn the_first_detail_key_that_is_present_decides() {
    assert_eq!(parse_analysis(r#"{"detail_description":"x"}"#).detail, "x");
    assert_eq!(parse_analysis(r#"{"image_detail":"x"}"#).detail, "x");
    assert_eq!(parse_analysis(r#"{"screen_detail":"x"}"#).detail, "x");
    assert_eq!(parse_analysis(r#"{"detail":5,"detail_description":"x"}"#).detail, "");
    assert_eq!(parse_analysis(r#"{"detail":null,"screen_detail":"x"}"#).detail, "");
    assert_eq!(
        parse_analysis(r#"{"image_description":"late","image_detail":"early"}"#).detail,
        "early"
    );
}

#[test]
fn confidence_words_are_mapped() {
    assert_eq!(parse_analysis(r#"{"confidence":"high"}"#).confidence, 900_000);
    assert_eq!(parse_analysis(r#"{"confidence":"Medium"}"#).confidence, 600_000);
    assert_eq!(parse_analysis(r#"{"confidence":"LOW"}"#).confidence, 300_000);
    assert_eq!(parse_analysis(r#"{"confidence":"maybe"}"#).confidence, 200_000);
    assert_eq!(parse_analysis(r#"{"confidence":"maybe","has_issue":true}"#).confidence, 500_000);
    assert_eq!(parse_analysis(r#"{"confidence":" high"}"#).confidence, 200_000);
}

#[test]
fn confidence_numbers_are_clamped() {
    assert_eq!(parse_analysis(r#"{"confidence":0.95}"#).confidence, 950_000);
    assert_eq!(parse_analysis(r#"{"confidence":1}"#).confidence, 1_000_000);
    assert_eq!(parse_analysis(r#"{"confidence":0}"#).confidence, 0);
    assert_eq!(parse_analysis(r#"{"confidence":1.7}"#).confidence, 1_000_000);
    assert_eq!(parse_analysis(r#"{"confidence":-0.2}"#).confidence, 0);
    assert_eq!(parse_analysis(r#"{"confidence":42}"#).confidence, 1_000_000);
    assert_eq!(parse_analysis(r#"{"confidence":-3}"#).confidence, 0);
    assert_eq!(parse_analysis(r#"{"confidence":1e-3}"#).confidence, 1_000);
}

#[test]
fn confidence_of_another_kind_falls_back() {
    assert_eq!(parse_analysis(r#"{"confidence":null}"#).confidence, 200_000);
    assert_eq!(parse_analysis(r#"{"confidence":true,"has_issue":true}"#).confidence, 500_000);
    assert_eq!(parse_analysis(r#"{"confidence":[0.9]}"#).confidence, 200_000);
    assert_eq!(parse_analysis(r#"{"has_issue":true}"#).confidence, 500_000);
}

#[test]
fn fenced_json_is_found() {
    let reply = "Here is the result:\n```json\n{\"summary\":\"s\",\"app\":\"Chrome\",\"has_issue\":true,\"confidence\":\"HIGH\"}\n```\nbye";
    let r = parse_analysis(reply);
    assert_eq!(r.summary, "s");
    assert_eq!(r.app, "Chrome");
    assert!(r.has_issue);
    assert_eq!(r.confidence, 900_000);
}

#[test]
fn untagged_fence_is_found() {
    let r = parse_analysis("```\n{\"summary\":\"plain fence\"}\n```");
    assert_eq!(r.summary, "plain fence");
    assert!(!r.has_issue);
}

#[test]
fn braced_json_in_prose_is_found() {
    let r = parse_analysis("The analysis is {\"summary\":\"in prose\",\"has_issue\":false} as asked.");
    assert_eq!(r.summary, "in prose");
    assert_eq!(r.app, "Unknown");
    assert_eq!(r.confidence, 200_000);
}

#[test]
fn a_broken_fence_gives_way_to_the_braces() {
    let r = parse_analysis("```json\nnot json\n```\nbut here {\"summary\":\"braced\"}");
    assert_eq!(r.summary, "braced");
}

#[test]
fn json_that_is_no_object_is_read_as_prose() {
    let r = parse_analysis("[1,2,3]");
    assert_eq!(r.summary, "[1,2,3]");
    assert!(!r.has_issue);
    assert_eq!(r.confidence, 200_000);
    let s = parse_analysis("\"an error in quotes\"");
    assert!(s.has_issue);
    assert_eq!(s.confidence, 400_000);
    assert_eq!(s.summary, "\"an error in quotes\"");
}

#[test]
fn prose_without_trouble_is_no_issue() {
    let r = parse_analysis("The user is reading a document in Word.\nNothing else.");
    assert!(!r.has_issue);
    assert_eq!(r.confidence, 200_000);
    assert_eq!(r.summary, "The user is reading a document in Word.");
    assert_eq!(r.app, "Word");
    assert_eq!(r.detail, "The user is reading a document in Word.\nNothing else.");
    assert_eq!(r.issue_type, "");
    assert_eq!(r.issue_message, "");
}

#[test]
fn error_is_found_whatever_its_case() {
    assert!(parse_analysis("Build ERROR in Terminal").has_issue);
    assert!(parse_analysis("An Error occurred").has_issue);
    assert!(!parse_analysis("all good").has_issue);
}

#[test]
fn every_word_for_failure_flags_trouble() {
    for word in ["错误", "失败", "异常", "无法", "找不到", "未找到", "卡住", "无响应"] {
        let reply = format!("画面显示{}提示", word);
        assert!(flags_trouble(&reply, &reply.to_lowercase()));
        assert!(parse_analysis(&reply).has_issue);
    }
    assert!(flags_trouble("x", "error"));
    assert!(!flags_trouble("ERROR", ""));
    assert!(!flags_trouble("一切正常", "一切正常"));
}

#[test]
fn heuristic_analysis_takes_the_lowercase_form_as_given() {
    let r = heuristic_analysis("Line one\r\nLine two in Excel", "an error");
    assert!(r.has_issue);
    assert_eq!(r.summary, "Line one");
    assert_eq!(r.app, "Excel");
    assert_eq!(r.issue_type, "detected");
    assert_eq!(r.issue_message, "Line one\r\nLine two in Excel");
    assert_eq!(r.confidence, 400_000);
    let q = heuristic_analysis("Line one", "line one");
    assert!(!q.has_issue);
    assert_eq!(q.confidence, 200_000);
    assert_eq!(q.issue_type, "");
}

#[test]
fn first_line_stops_at_the_line_ending() {
    assert_eq!(first_line_of("a\nb"), "a");
    assert_eq!(first_line_of("a\r\nb"), "a");
    assert_eq!(first_line_of("a\r"), "a\r");
    assert_eq!(first_line_of("a\rb\nc"), "a\rb");
    assert_eq!(first_line_of(""), "");
    assert_eq!(first_line_of("\nrest"), "");
    assert_eq!(first_line_of("\r\nrest"), "");
    assert_eq!(first_line_of("no ending"), "no ending");
    assert_eq!(first_line_of("a\r\r\nb"), "a\r");
}

#[test]
fn first_line_agrees_with_std() {
    for s in ["a\nb", "a\r\nb", "a\r", "x", "\n", "\r\n", "a\n", "一\n二", "a\r\r\nb"] {
        assert_eq!(first_line_of(s), s.lines().next().unwrap_or(s));
    }
}

#[test]
fn the_first_known_app_in_the_catalog_wins() {
    assert_eq!(extract_app_from_text("Working in VS Code and Chrome"), "VS Code");
    assert_eq!(extract_app_from_text("Chrome then Visual Studio Code"), "Visual Studio Code");
    assert_eq!(extract_app_from_text("在微信里聊天"), "微信");
    assert_eq!(extract_app_from_text("PowerShell window"), "PowerShell");
    assert_eq!(extract_app_from_text("cmd window"), "Unknown");
    assert_eq!(extract_app_from_text("CMD window"), "CMD");
    assert_eq!(extract_app_from_text("Microsoft Edge"), "Edge");
    assert_eq!(extract_app_from_text("PowerPoint and Word"), "Word");
    assert_eq!(extract_app_from_text(""), "Unknown");
}

#[test]
fn every_known_app_is_found() {
    for app in [
        "Visual Studio Code", "VS Code", "Chrome", "Firefox", "Edge", "微信", "QQ", "钉钉", "飞书",
        "Slack", "Discord", "Word", "Excel", "PowerPoint", "Notion", "Obsidian", "Terminal",
        "PowerShell", "CMD",
    ] {
        assert_eq!(extract_app_from_text(&format!("<<{}>>", app)), app);
    }
}

#[test]
fn keywords_come_in_the_order_of_the_catalog() {
    assert_eq!(
        extract_keywords_from_analysis("编辑 main.rs 时报错，无法运行"),
        vec![".rs", "编辑", "运行", "报错", "无法"]
    );
    assert_eq!(extract_keywords_from_analysis("a.tsx file"), vec![".ts", ".tsx"]);
    assert_eq!(extract_keywords_from_analysis("data.json"), vec![".js", ".json"]);
    assert_eq!(extract_keywords_from_analysis("nothing here"), Vec::<String>::new());
    assert_eq!(extract_keywords_from_analysis("错误 错误 错误"), vec!["错误"]);
}

#[test]
fn every_known_keyword_is_found() {
    let all = [
        ".rs", ".ts", ".js", ".py", ".vue", ".tsx", ".jsx", ".md", ".json", "编辑", "浏览", "搜索",
        "调试", "运行", "编写", "阅读", "聊天", "错误", "报错", "困难", "无法", "找不到", "未找到",
        "卡住", "无响应",
    ];
    let everything = all.join(" ");
    assert_eq!(extract_keywords_from_analysis(&everything), all.to_vec());
}

#[test]
fn fence_body_is_trimmed_and_untagged() {
    assert_eq!(extract_fence_body("json\n{\"a\":1}\n``` tail"), Some("{\"a\":1}".to_string()));
    assert_eq!(extract_fence_body("  {\"a\":1}  ```"), Some("{\"a\":1}".to_string()));
    assert_eq!(extract_fence_body("```"), Some("".to_string()));
    assert_eq!(extract_fence_body("jsonx```"), Some("x".to_string()));
    assert_eq!(extract_fence_body("no closing fence"), None);
    assert_eq!(extract_fence_body(""), None);
}

#[test]
fn fenced_json_prefers_the_tagged_fence() {
    assert_eq!(
        extract_fenced_json("```\nfirst\n```\n```json\nsecond\n```"),
        Some("second".to_string())
    );
    assert_eq!(extract_fenced_json("a ```b``` c"), Some("b".to_string()));
    assert_eq!(extract_fenced_json("no fences"), None);
    assert_eq!(extract_fenced_json("```json {\"a\":1}"), None);
    assert_eq!(extract_fenced_json("```json``````x```"), Some("".to_string()));
}

#[test]
fn braced_json_spans_first_to_last_brace() {
    assert_eq!(extract_braced_json("x{y}z"), Some("{y}".to_string()));
    assert_eq!(extract_braced_json("{a}{b}"), Some("{a}{b}".to_string()));
    assert_eq!(extract_braced_json("前{中}后"), Some("{中}".to_string()));
    assert_eq!(extract_braced_json("a } b { c"), None);
    assert_eq!(extract_braced_json("{"), None);
    assert_eq!(extract_braced_json("}"), None);
    assert_eq!(extract_braced_json("none"), None);
    assert_eq!(extract_braced_json("{}"), Some("{}".to_string()));
}

#[test]
fn json_value_reduces_members_to_what_is_read() {
    let doc = extract_json_value(r#"{"c":"t","a":true,"b":1.5,"d":null,"e":[1],"f":{"g":1}}"#)
        .expect("an object");
    assert_eq!(doc.len(), 6);
    assert_eq!(find_entry(&doc, "a"), Some(&JsonField::Flag(true)));
    assert_eq!(find_entry(&doc, "b"), Some(&number(1.5)));
    assert_eq!(find_entry(&doc, "c"), Some(&text("t")));
    assert_eq!(find_entry(&doc, "d"), Some(&JsonField::Other));
    assert_eq!(find_entry(&doc, "e"), Some(&JsonField::Other));
    assert_eq!(find_entry(&doc, "f"), Some(&JsonField::Other));
    assert_eq!(find_entry(&doc, "g"), None);
    assert_eq!(find_flag(&doc, "a"), Some(true));
    assert_eq!(find_flag(&doc, "c"), None);
    assert_eq!(find_text(&doc, "c"), Some(&"t".to_string()));
    assert_eq!(find_text(&doc, "a"), None);
}

#[test]
fn json_value_of_what_is_no_object_is_missing() {
    assert!(extract_json_value("").is_none());
    assert!(extract_json_value("42").is_none());
    assert!(extract_json_value("null").is_none());
    assert!(extract_json_value("[{\"a\":1]").is_none());
    assert!(extract_json_value("{\"a\":1} trailing").is_some());
    assert!(extract_json_value("{\"a\":}").is_none());
    assert_eq!(extract_json_value("{}"), Some(Vec::new()));
    assert_eq!(extract_json_value("  {}\n"), Some(Vec::new()));
}

#[test]
fn json_value_keeps_the_last_of_repeated_keys() {
    let doc = extract_json_value(r#"{"a":"first","a":"second"}"#).expect("an object");
    assert_eq!(doc.len(), 1);
    assert_eq!(find_text(&doc, "a"), Some(&"second".to_string()));
}

#[test]
fn json_integers_come_as_doubles() {
    let doc = extract_json_value(r#"{"n":3,"m":-4,"big":18446744073709551615}"#).expect("an object");
    assert_eq!(find_entry(&doc, "n"), Some(&number(3.0)));
    assert_eq!(find_entry(&doc, "m"), Some(&number(-4.0)));
    assert_eq!(find_entry(&doc, "big"), Some(&number(18446744073709551615u64 as f64)));
}

#[test]
fn analysis_from_a_document_built_by_hand() {
    let doc = vec![
        entry("summary", text("写代码")),
        entry("app", text("Terminal")),
        entry("has_issue", JsonField::Flag(true)),
        entry("confidence", number(0.5)),
        entry("screen_detail", text("终端窗口")),
    ];
    let r = analysis_from_document(&doc);
    assert_eq!(r.summary, "写代码");
    assert_eq!(r.app, "Terminal");
    assert!(r.has_issue);
    assert_eq!(r.confidence, 500_000);
    assert_eq!(r.detail, "终端窗口");
    assert_eq!(r.issue_type, "");
}

#[test]
fn analysis_from_an_empty_document() {
    let r = analysis_from_document(&Vec::new());
    assert_eq!(r.summary, "");
    assert_eq!(r.app, "Unknown");
    assert_eq!(r.detail, "");
    assert!(!r.has_issue);
    assert_eq!(r.confidence, 200_000);
}

#[test]
fn the_first_entry_with_a_key_is_the_one_that_is_read() {
    let doc = vec![entry("app", text("one")), entry("app", text("two"))];
    assert_eq!(analysis_from_document(&doc).app, "one");
}

#[test]
fn parse_confidence_reads_number_word_or_fallback() {
    assert_eq!(parse_confidence(&vec![entry("confidence", number(0.25))], false), 250_000);
    assert_eq!(parse_confidence(&vec![entry("confidence", number(7.0))], false), 1_000_000);
    assert_eq!(parse_confidence(&vec![entry("confidence", text("High"))], false), 900_000);
    assert_eq!(parse_confidence(&vec![entry("confidence", text("?"))], true), 500_000);
    assert_eq!(parse_confidence(&vec![entry("confidence", JsonField::Other)], true), 500_000);
    assert_eq!(parse_confidence(&Vec::new(), false), 200_000);
    assert_eq!(parse_confidence(&Vec::new(), true), 500_000);
}

#[test]
fn confidence_from_word_takes_the_word_as_given() {
    assert_eq!(confidence_from_word("high", 1), 900_000);
    assert_eq!(confidence_from_word("medium", 1), 600_000);
    assert_eq!(confidence_from_word("low", 1), 300_000);
    assert_eq!(confidence_from_word("HIGH", 1), 1);
    assert_eq!(confidence_from_word("", 123), 123);
}

#[test]
fn parse_never_gives_a_confidence_above_one() {
    for reply in [
        "{\"confidence\":99}",
        "{\"confidence\":\"high\"}",
        "error",
        "",
        "{\"confidence\":1.0000001}",
    ] {
        assert!(parse_analysis(reply).confidence <= 1_000_000);
    }
}

#[test]
fn empty_reply_is_read_as_empty_prose() {
    let r = parse_analysis("");
    assert_eq!(r.summary, "");
    assert_eq!(r.detail, "");
    assert_eq!(r.app, "Unknown");
    assert!(!r.has_issue);
    assert_eq!(r.confidence, 200_000);
}

#[test]
fn only_an_object_is_a_document() {
    assert_eq!(document_in_reading(JsonReading::Other), None);
    assert_eq!(document_in_reading(JsonReading::Invalid), None);
    assert_eq!(document_in_reading(JsonReading::Object(Vec::new())), Some(Vec::new()));
    let entries = vec![entry("a", JsonField::Flag(true))];
    assert_eq!(document_in_reading(JsonReading::Object(entries.clone())), Some(entries));
}

#[test]
fn parse_document_reads_the_whole_text_only() {
    assert_eq!(
        parse_document(r#" {"b":"x","a":false} "#),
        Some(vec![entry("a", JsonField::Flag(false)), entry("b", text("x"))])
    );
    assert_eq!(parse_document("{}"), Some(Vec::new()));
    for other in ["null", "true", "1.5", "\"text\"", "[1,2]", "[{}]"] {
        assert_eq!(parse_document(other), None);
    }
    for invalid in ["", "{", "{\"a\":1} tail", "prose", "{'a':1}", "{\"a\":1,}"] {
        assert_eq!(parse_document(invalid), None);
    }
}

#[test]
fn documents_with_the_flag_built_by_hand() {
    let set_false = vec![entry("has_issue", JsonField::Flag(false)), entry("issue_type", text("x"))];
    assert!(!analysis_from_document(&set_false).has_issue);
    let alternate = vec![entry("has_error", JsonField::Flag(true))];
    assert!(analysis_from_document(&alternate).has_issue);
    let both = vec![entry("has_error", JsonField::Flag(true)), entry("has_issue", JsonField::Flag(false))];
    assert!(!analysis_from_document(&both).has_issue);
    let not_set = vec![entry("has_issue", text("no")), entry("suggestion", text("restart"))];
    assert!(analysis_from_document(&not_set).has_issue);
    assert_eq!(analysis_from_document(&not_set).confidence, 200_000);
}
