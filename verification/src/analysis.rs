//! What the analyzer said, as a structure.
//!
//! The analyzer is asked for one JSON object and answers with whatever it
//! likes: the object, the object inside a code fence, the object inside prose,
//! or prose alone. Interpretation never fails. The places where a document
//! may stand are tried in a fixed order and the first that reads as a JSON
//! object wins; where none does, a few words in the text decide.

use vstd::prelude::*;
use crate::json::{
    find_entry, find_flag, find_text, flag_at, json_document, lookup, members, parse_document,
    parsed_members, text_at, FieldValue, JsonEntry, JsonField, Member,
};
use crate::ratio::{millionths_from_double_bits, millionths_of_double};
use crate::text::{
    begins_with, chars_of, contains, find, find_in, has, last_index_of, rfind_char, same_str,
    slice, starts_with, string_of, trim, trim_start, trimmed, trimmed_start, unicode_lowercase,
};

verus! {

/// The structured reading of one reply.
#[derive(Debug, Clone, PartialEq, Eq)]
pub struct AnalysisResult {
    pub summary: String,
    pub app: String,
    pub detail: String,
    pub has_issue: bool,
    pub issue_type: String,
    pub issue_message: String,
    pub suggestion: String,
    /// In millionths.
    pub confidence: u32,
}

/// A reading, as contracts see it.
pub struct AnalysisView {
    pub summary: Seq<char>,
    pub app: Seq<char>,
    pub detail: Seq<char>,
    pub has_issue: bool,
    pub issue_type: Seq<char>,
    pub issue_message: Seq<char>,
    pub suggestion: Seq<char>,
    pub confidence: u32,
}

impl View for AnalysisResult {
    type V = AnalysisView;

    open spec fn view(&self) -> AnalysisView {
        AnalysisView {
            summary: self.summary@,
            app: self.app@,
            detail: self.detail@,
            has_issue: self.has_issue,
            issue_type: self.issue_type@,
            issue_message: self.issue_message@,
            suggestion: self.suggestion@,
            confidence: self.confidence,
        }
    }
}

// ---------------------------------------------------------------------------
// Where a document may stand
// ---------------------------------------------------------------------------

/// What stands between the start of `rest` and the next fence, trimmed, and
/// without a leading language tag `json`.
pub open spec fn fence_body(rest: Seq<char>) -> Option<Seq<char>> {
    match find(rest, "```"@) {
        Some(end) => {
            let body = trim(rest.subrange(0, end));
            if starts_with(body, "json"@) {
                Some(trim_start(body.subrange("json"@.len() as int, body.len() as int)))
            } else {
                Some(body)
            }
        },
        None => None,
    }
}

/// The body of the first code fence tagged `json`, or else of the first code fence.
pub open spec fn fenced_json(text: Seq<char>) -> Option<Seq<char>> {
    match find(text, "```json"@) {
        Some(start) => fence_body(text.subrange(start + "```json"@.len(), text.len() as int)),
        None => match find(text, "```"@) {
            Some(start) => fence_body(text.subrange(start + "```"@.len(), text.len() as int)),
            None => None,
        },
    }
}

/// The first position of the character `c` in `text`.
pub open spec fn first_index_of(text: Seq<char>, c: char) -> Option<int> {
    find(text, seq![c])
}

/// What stands from the first `{` to the last `}`, both included, where the
/// first `{` comes before the last `}`.
pub open spec fn braced_json(text: Seq<char>) -> Option<Seq<char>> {
    match (first_index_of(text, '{'), last_index_of(text, '}')) {
        (Some(start), Some(end)) => if end <= start {
            None
        } else {
            Some(text.subrange(start, end + 1))
        },
        _ => None,
    }
}

/// The document that a reply holds: the whole reply if it reads as a JSON
/// object, else the body of its code fence if that does, else its braced part
/// if that does.
pub open spec fn document_in(text: Seq<char>) -> Option<Seq<Member>> {
    if json_document(text) is Some {
        json_document(text)
    } else if fenced_json(text) is Some && json_document(fenced_json(text)->0) is Some {
        json_document(fenced_json(text)->0)
    } else if braced_json(text) is Some && json_document(braced_json(text)->0) is Some {
        json_document(braced_json(text)->0)
    } else {
        None
    }
}

/// What stands between the start of `rest` and the next fence.
pub fn extract_fence_body(rest: &str) -> (body: Option<String>)
    ensures
        match body {
            Some(b) => fence_body(rest@) == Some(b@),
            None => fence_body(rest@) is None,
        },
{
    let v = chars_of(rest);
    fence_body_of(&v)
}

fn fence_body_of(v: &Vec<char>) -> (body: Option<String>)
    ensures
        match body {
            Some(b) => fence_body(v@) == Some(b@),
            None => fence_body(v@) is None,
        },
{
    let fence = chars_of("```");
    match find_in(v, &fence) {
        Some(end) => {
            let inner = slice(v, 0, end);
            let body = trimmed(&inner);
            let tag = chars_of("json");
            if begins_with(&body, &tag) {
                let rest = slice(&body, tag.len(), body.len());
                let stripped = trimmed_start(&rest);
                Some(string_of(&stripped))
            } else {
                Some(string_of(&body))
            }
        },
        None => None,
    }
}

/// The body of the first code fence tagged `json`, or else of the first code fence.
pub fn extract_fenced_json(text: &str) -> (body: Option<String>)
    ensures
        match body {
            Some(b) => fenced_json(text@) == Some(b@),
            None => fenced_json(text@) is None,
        },
{
    let v = chars_of(text);
    let end: usize = v.len();
    let tagged = chars_of("```json");
    match find_in(&v, &tagged) {
        Some(start) => {
            let rest = slice(&v, start + tagged.len(), end);
            fence_body_of(&rest)
        },
        None => {
            let plain = chars_of("```");
            match find_in(&v, &plain) {
                Some(start) => {
                    let rest = slice(&v, start + plain.len(), end);
                    fence_body_of(&rest)
                },
                None => None,
            }
        },
    }
}

/// What stands from the first `{` to the last `}`.
pub fn extract_braced_json(text: &str) -> (body: Option<String>)
    ensures
        match body {
            Some(b) => braced_json(text@) == Some(b@),
            None => braced_json(text@) is None,
        },
{
    let v = chars_of(text);
    let len: usize = v.len();
    let mut open: Vec<char> = Vec::new();
    open.push('{');
    proof {
        assert(open@ =~= seq!['{']);
    }
    match find_in(&v, &open) {
        Some(start) => match rfind_char(&v, '}') {
            Some(end) => {
                if end <= start {
                    None
                } else {
                    assert(end < len);
                    let inner = slice(&v, start, end + 1);
                    Some(string_of(&inner))
                }
            },
            None => None,
        },
        None => None,
    }
}

/// The document that a reply holds.
pub fn extract_json_value(text: &str) -> (doc: Option<Vec<JsonEntry>>)
    ensures
        parsed_members(doc) == document_in(text@),
{
    let whole = parse_document(text);
    if whole.is_some() {
        return whole;
    }
    if let Some(inner) = extract_fenced_json(text) {
        let fenced = parse_document(inner.as_str());
        if fenced.is_some() {
            return fenced;
        }
    }
    if let Some(inner) = extract_braced_json(text) {
        let braced = parse_document(inner.as_str());
        if braced.is_some() {
            return braced;
        }
    }
    None
}

// ---------------------------------------------------------------------------
// Reading a document
// ---------------------------------------------------------------------------

/// The confidence that stands for a word, or `fallback` for any other word.
pub open spec fn word_confidence(lower: Seq<char>, fallback: u32) -> u32 {
    if lower == "high"@ {
        900_000
    } else if lower == "medium"@ {
        600_000
    } else if lower == "low"@ {
        300_000
    } else {
        fallback
    }
}

/// The confidence where the document gives none: a half where an issue is
/// flagged, a fifth where none is.
pub open spec fn fallback_confidence(has_issue: bool) -> u32 {
    if has_issue {
        500_000
    } else {
        200_000
    }
}

/// The confidence of a document: its number, clamped to the range from nothing
/// to one; or what its word stands for; or the fallback.
pub open spec fn confidence_of(doc: Seq<Member>, has_issue: bool) -> u32 {
    match lookup(doc, "confidence"@) {
        Some(FieldValue::Number(bits)) => millionths_of_double(bits) as u32,
        Some(FieldValue::Text(word)) => word_confidence(
            unicode_lowercase(word),
            fallback_confidence(has_issue),
        ),
        _ => fallback_confidence(has_issue),
    }
}

/// The text under the first key, or else under the second, or else `default`.
pub open spec fn text_or(doc: Seq<Member>, first: Seq<char>, second: Seq<char>, default: Seq<char>) -> Seq<char> {
    match text_at(doc, first) {
        Some(t) => t,
        None => match text_at(doc, second) {
            Some(t) => t,
            None => default,
        },
    }
}

/// The flag that a document sets: the one under `has_issue`, or else the one
/// under `has_error`; none where neither member is there as a flag.
pub open spec fn explicit_flag(doc: Seq<Member>) -> Option<bool> {
    match flag_at(doc, "has_issue"@) {
        Some(b) => Some(b),
        None => flag_at(doc, "has_error"@),
    }
}

/// The document sets the flag, and sets it to say that there is an issue.
pub open spec fn flagged(doc: Seq<Member>) -> bool {
    explicit_flag(doc) == Some(true)
}

/// The document implies an issue: it names a kind of issue, describes one or
/// suggests a remedy.
pub open spec fn implies_issue(doc: Seq<Member>) -> bool {
    text_or(doc, "issue_type"@, "error_type"@, Seq::empty()).len() > 0 || text_or(
        doc,
        "issue_summary"@,
        "error_message"@,
        Seq::empty(),
    ).len() > 0 || text_or(doc, "suggestion"@, "suggestion"@, Seq::empty()).len() > 0
}

/// The member that describes the screen: the first that is present of
/// `detail`, `detail_description`, `image_detail`, `image_description`, `screen_detail`.
pub open spec fn detail_member(doc: Seq<Member>) -> Option<FieldValue> {
    if lookup(doc, "detail"@) is Some {
        lookup(doc, "detail"@)
    } else if lookup(doc, "detail_description"@) is Some {
        lookup(doc, "detail_description"@)
    } else if lookup(doc, "image_detail"@) is Some {
        lookup(doc, "image_detail"@)
    } else if lookup(doc, "image_description"@) is Some {
        lookup(doc, "image_description"@)
    } else {
        lookup(doc, "screen_detail"@)
    }
}

/// The description of the screen: the text of that member, or nothing where
/// the member is missing or is no string.
pub open spec fn detail_of(doc: Seq<Member>) -> Seq<char> {
    match detail_member(doc) {
        Some(FieldValue::Text(t)) => t,
        _ => Seq::empty(),
    }
}

/// The reading of a document. Where the document sets the flag, the flag
/// decides whether there is an issue. Where it sets none, there is an issue
/// exactly when the document implies one. The confidence that a document
/// does not give goes by the flag alone.
pub open spec fn reading_of(doc: Seq<Member>) -> AnalysisView {
    let issue_type = text_or(doc, "issue_type"@, "error_type"@, Seq::empty());
    let issue_message = text_or(doc, "issue_summary"@, "error_message"@, Seq::empty());
    let suggestion = text_or(doc, "suggestion"@, "suggestion"@, Seq::empty());
    AnalysisView {
        summary: text_or(doc, "summary"@, "summary"@, Seq::empty()),
        app: text_or(doc, "app"@, "app"@, "Unknown"@),
        detail: detail_of(doc),
        has_issue: match explicit_flag(doc) {
            Some(b) => b,
            None => implies_issue(doc),
        },
        issue_type,
        issue_message,
        suggestion,
        confidence: confidence_of(doc, flagged(doc)),
    }
}

/// A document that names a kind of issue and sets no flag reads as an issue.
pub proof fn lemma_named_issue_is_flagged(doc: Seq<Member>)
    requires
        explicit_flag(doc) is None,
        text_at(doc, "issue_type"@) is Some,
        text_at(doc, "issue_type"@)->0.len() > 0,
    ensures
        reading_of(doc).has_issue,
{
}

/// A document that sets the flag reads as the flag says, whatever else it holds.
pub proof fn lemma_explicit_flag_decides(doc: Seq<Member>)
    requires
        explicit_flag(doc) is Some,
    ensures
        reading_of(doc).has_issue == explicit_flag(doc)->0,
{
}

/// A reading never holds a confidence above one.
pub proof fn lemma_reading_confidence_in_range(doc: Seq<Member>)
    ensures
        reading_of(doc).confidence <= 1_000_000,
{
    match lookup(doc, "confidence"@) {
        Some(FieldValue::Number(bits)) => {
            crate::ratio::lemma_millionths_in_range(bits);
        },
        _ => {},
    }
}

/// The confidence that stands for a word.
pub fn confidence_from_word(lower: &str, fallback: u32) -> (c: u32)
    ensures
        c == word_confidence(lower@, fallback),
{
    if same_str(lower, "high") {
        900_000
    } else if same_str(lower, "medium") {
        600_000
    } else if same_str(lower, "low") {
        300_000
    } else {
        fallback
    }
}

/// The confidence of a document.
pub fn parse_confidence(doc: &Vec<JsonEntry>, has_issue: bool) -> (c: u32)
    ensures
        c == confidence_of(members(doc@), has_issue),
        c <= 1_000_000,
{
    let fallback: u32 = if has_issue {
        500_000
    } else {
        200_000
    };
    match find_entry(doc, "confidence") {
        Some(JsonField::Number(bits)) => millionths_from_double_bits(*bits),
        Some(JsonField::Text(word)) => {
            let lower = word.as_str().to_lowercase();
            confidence_from_word(lower.as_str(), fallback)
        },
        _ => fallback,
    }
}

fn text_or_else(doc: &Vec<JsonEntry>, first: &str, second: &str, default: &str) -> (t: String)
    ensures
        t@ == text_or(members(doc@), first@, second@, default@),
{
    match find_text(doc, first) {
        Some(t) => t.clone(),
        None => match find_text(doc, second) {
            Some(t) => t.clone(),
            None => default.to_string(),
        },
    }
}

fn detail_entry<'a>(doc: &'a Vec<JsonEntry>) -> (r: Option<&'a JsonField>)
    ensures
        match r {
            Some(f) => detail_member(members(doc@)) == Some(f@),
            None => detail_member(members(doc@)) is None,
        },
{
    let a = find_entry(doc, "detail");
    if a.is_some() {
        return a;
    }
    let b = find_entry(doc, "detail_description");
    if b.is_some() {
        return b;
    }
    let c = find_entry(doc, "image_detail");
    if c.is_some() {
        return c;
    }
    let d = find_entry(doc, "image_description");
    if d.is_some() {
        return d;
    }
    find_entry(doc, "screen_detail")
}

/// The reading of a document.
pub fn analysis_from_document(doc: &Vec<JsonEntry>) -> (r: AnalysisResult)
    ensures
        r@ == reading_of(members(doc@)),
{
    let explicit = match find_flag(doc, "has_issue") {
        Some(b) => Some(b),
        None => find_flag(doc, "has_error"),
    };
    let flag = match explicit {
        Some(b) => b,
        None => false,
    };
    let issue_type = text_or_else(doc, "issue_type", "error_type", "");
    let issue_message = text_or_else(doc, "issue_summary", "error_message", "");
    let detail = match detail_entry(doc) {
        Some(JsonField::Text(t)) => t.clone(),
        _ => String::new(),
    };
    let suggestion = text_or_else(doc, "suggestion", "suggestion", "");
    let confidence = parse_confidence(doc, flag);
    proof {
        reveal_strlit("");
        assert(""@ =~= Seq::<char>::empty());
    }
    let has_issue = match explicit {
        Some(b) => b,
        None => !issue_type.as_str().is_empty() || !issue_message.as_str().is_empty()
            || !suggestion.as_str().is_empty(),
    };
    AnalysisResult {
        summary: text_or_else(doc, "summary", "summary", ""),
        app: text_or_else(doc, "app", "app", "Unknown"),
        detail,
        has_issue,
        issue_type,
        issue_message,
        suggestion,
        confidence,
    }
}

// ---------------------------------------------------------------------------
// Reading prose
// ---------------------------------------------------------------------------

/// The names of the applications that are looked for in prose, in this order.
pub open spec fn known_apps() -> Seq<Seq<char>> {
    seq![
        "Visual Studio Code"@,
        "VS Code"@,
        "Chrome"@,
        "Firefox"@,
        "Edge"@,
        "微信"@,
        "QQ"@,
        "钉钉"@,
        "飞书"@,
        "Slack"@,
        "Discord"@,
        "Word"@,
        "Excel"@,
        "PowerPoint"@,
        "Notion"@,
        "Obsidian"@,
        "Terminal"@,
        "PowerShell"@,
        "CMD"@,
    ]
}

/// The tags that are looked for in a summary, in this order: endings of file
/// names, then words for what is done and for what goes wrong.
pub open spec fn known_keywords() -> Seq<Seq<char>> {
    seq![
        ".rs"@,
        ".ts"@,
        ".js"@,
        ".py"@,
        ".vue"@,
        ".tsx"@,
        ".jsx"@,
        ".md"@,
        ".json"@,
        "编辑"@,
        "浏览"@,
        "搜索"@,
        "调试"@,
        "运行"@,
        "编写"@,
        "阅读"@,
        "聊天"@,
        "错误"@,
        "报错"@,
        "困难"@,
        "无法"@,
        "找不到"@,
        "未找到"@,
        "卡住"@,
        "无响应"@,
    ]
}

/// The texts that a list of literals stands for.
pub open spec fn names_of(list: Seq<&'static str>) -> Seq<Seq<char>> {
    Seq::new(list.len(), |i: int| list[i]@)
}

/// The first of `names` that stands in `text`.
pub open spec fn first_contained(text: Seq<char>, names: Seq<Seq<char>>) -> Option<Seq<char>>
    decreases names.len(),
{
    if names.len() == 0 {
        None
    } else if contains(text, names[0]) {
        Some(names[0])
    } else {
        first_contained(text, names.drop_first())
    }
}

/// Those of `names` that stand in `text`, in the order of `names`.
pub open spec fn all_contained(text: Seq<char>, names: Seq<Seq<char>>) -> Seq<Seq<char>>
    decreases names.len(),
{
    if names.len() == 0 {
        Seq::empty()
    } else if contains(text, names.last()) {
        all_contained(text, names.drop_last()).push(names.last())
    } else {
        all_contained(text, names.drop_last())
    }
}

/// The application that a text speaks of: the first known name that stands in it, or `Unknown`.
pub open spec fn app_in(text: Seq<char>) -> Seq<char> {
    match first_contained(text, known_apps()) {
        Some(name) => name,
        None => "Unknown"@,
    }
}

/// The tags of a summary: the known keywords that stand in it.
pub open spec fn keywords_in(text: Seq<char>) -> Seq<Seq<char>> {
    all_contained(text, known_keywords())
}

/// The text speaks of trouble: its lowercase form holds `error`, or the text
/// holds one of the words for failure.
pub open spec fn speaks_of_trouble(text: Seq<char>, lower: Seq<char>) -> bool {
    contains(lower, "error"@) || contains(text, "错误"@) || contains(text, "失败"@) || contains(
        text,
        "异常"@,
    ) || contains(text, "无法"@) || contains(text, "找不到"@) || contains(text, "未找到"@)
        || contains(text, "卡住"@) || contains(text, "无响应"@)
}

/// The first line of a text, without its line ending.
pub open spec fn first_line(text: Seq<char>) -> Seq<char> {
    match first_index_of(text, '\n') {
        Some(end) => if end > 0 && text[end - 1] == '\r' {
            text.subrange(0, end - 1)
        } else {
            text.subrange(0, end)
        },
        None => text,
    }
}

/// The reading of prose, given the text and its lowercase form.
pub open spec fn prose_reading(text: Seq<char>, lower: Seq<char>) -> AnalysisView {
    let trouble = speaks_of_trouble(text, lower);
    AnalysisView {
        summary: first_line(text),
        app: app_in(text),
        detail: text,
        has_issue: trouble,
        issue_type: if trouble {
            "detected"@
        } else {
            Seq::empty()
        },
        issue_message: if trouble {
            text
        } else {
            Seq::empty()
        },
        suggestion: Seq::empty(),
        confidence: if trouble {
            400_000
        } else {
            200_000
        },
    }
}

fn app_catalog() -> (list: Vec<&'static str>)
    ensures
        names_of(list@) == known_apps(),
{
    let list = vec![
        "Visual Studio Code",
        "VS Code",
        "Chrome",
        "Firefox",
        "Edge",
        "微信",
        "QQ",
        "钉钉",
        "飞书",
        "Slack",
        "Discord",
        "Word",
        "Excel",
        "PowerPoint",
        "Notion",
        "Obsidian",
        "Terminal",
        "PowerShell",
        "CMD",
    ];
    proof {
        assert(names_of(list@) =~= known_apps());
    }
    list
}

fn keyword_catalog() -> (list: Vec<&'static str>)
    ensures
        names_of(list@) == known_keywords(),
{
    let list = vec![
        ".rs",
        ".ts",
        ".js",
        ".py",
        ".vue",
        ".tsx",
        ".jsx",
        ".md",
        ".json",
        "编辑",
        "浏览",
        "搜索",
        "调试",
        "运行",
        "编写",
        "阅读",
        "聊天",
        "错误",
        "报错",
        "困难",
        "无法",
        "找不到",
        "未找到",
        "卡住",
        "无响应",
    ];
    proof {
        assert(names_of(list@) =~= known_keywords());
    }
    list
}

/// The application that a text speaks of.
pub fn extract_app_from_text(text: &str) -> (app: String)
    ensures
        app@ == app_in(text@),
{
    let v = chars_of(text);
    let list = app_catalog();
    let mut i: usize = 0;
    proof {
        assert(names_of(list@).skip(0) == names_of(list@));
    }
    while i < list.len()
        invariant
            i <= list.len(),
            v@ == text@,
            names_of(list@) == known_apps(),
            first_contained(text@, known_apps()) == first_contained(
                text@,
                names_of(list@).skip(i as int),
            ),
        decreases list.len() - i,
    {
        if has(&v, list[i]) {
            return list[i].to_string();
        }
        proof {
            assert(names_of(list@).skip(i as int).drop_first() == names_of(list@).skip(i + 1));
        }
        i += 1;
    }
    "Unknown".to_string()
}

/// The tags of a summary.
pub fn extract_keywords_from_analysis(analysis: &str) -> (keywords: Vec<String>)
    ensures
        crate::text::views(keywords@) == keywords_in(analysis@),
{
    let v = chars_of(analysis);
    let list = keyword_catalog();
    let mut keywords: Vec<String> = Vec::new();
    let mut i: usize = 0;
    proof {
        assert(crate::text::views(keywords@) =~= Seq::<Seq<char>>::empty());
    }
    while i < list.len()
        invariant
            i <= list.len(),
            v@ == analysis@,
            names_of(list@) == known_keywords(),
            crate::text::views(keywords@) == all_contained(
                analysis@,
                names_of(list@).take(i as int),
            ),
        decreases list.len() - i,
    {
        proof {
            assert(names_of(list@).take(i + 1).drop_last() == names_of(list@).take(i as int));
            assert(names_of(list@).take(i + 1).last() == list@[i as int]@);
        }
        if has(&v, list[i]) {
            let ghost before = crate::text::views(keywords@);
            keywords.push(list[i].to_string());
            proof {
                assert(crate::text::views(keywords@) =~= before.push(list@[i as int]@));
            }
        }
        i += 1;
    }
    proof {
        assert(names_of(list@).take(list.len() as int) == names_of(list@));
    }
    keywords
}

/// Whether a text speaks of trouble, given the text and its lowercase form.
pub fn flags_trouble(text: &str, lower: &str) -> (r: bool)
    ensures
        r == speaks_of_trouble(text@, lower@),
{
    let t = chars_of(text);
    let l = chars_of(lower);
    has(&l, "error") || has(&t, "错误") || has(&t, "失败") || has(&t, "异常") || has(&t, "无法")
        || has(&t, "找不到") || has(&t, "未找到") || has(&t, "卡住") || has(&t, "无响应")
}

/// The first line of a text, without its line ending.
pub fn first_line_of(text: &str) -> (line: String)
    ensures
        line@ == first_line(text@),
{
    let v = chars_of(text);
    let mut feed: Vec<char> = Vec::new();
    feed.push('\n');
    proof {
        assert(feed@ =~= seq!['\n']);
    }
    match find_in(&v, &feed) {
        Some(end) => {
            proof {
                crate::text::lemma_find_from(v@, feed@, 0);
            }
            if end > 0 && v[end - 1] == '\r' {
                string_of(&slice(&v, 0, end - 1))
            } else {
                string_of(&slice(&v, 0, end))
            }
        },
        None => text.to_string(),
    }
}

/// The reading of prose, given the text and its lowercase form.
pub fn heuristic_analysis(text: &str, lower: &str) -> (r: AnalysisResult)
    ensures
        r@ == prose_reading(text@, lower@),
{
    let trouble = flags_trouble(text, lower);
    AnalysisResult {
        summary: first_line_of(text),
        app: extract_app_from_text(text),
        detail: text.to_string(),
        has_issue: trouble,
        issue_type: if trouble {
            "detected".to_string()
        } else {
            String::new()
        },
        issue_message: if trouble {
            text.to_string()
        } else {
            String::new()
        },
        suggestion: String::new(),
        confidence: if trouble {
            400_000
        } else {
            200_000
        },
    }
}

// ---------------------------------------------------------------------------
// Reading a reply
// ---------------------------------------------------------------------------

/// The reading of a reply: that of the document it holds, or else that of its prose.
pub open spec fn analysis_of(text: Seq<char>) -> AnalysisView {
    match document_in(text) {
        Some(doc) => reading_of(doc),
        None => prose_reading(text, unicode_lowercase(text)),
    }
}

/// Reads a reply. There is a reading for every text.
pub fn parse_analysis(analysis: &str) -> (r: AnalysisResult)
    ensures
        r@ == analysis_of(analysis@),
        r.confidence <= 1_000_000,
{
    match extract_json_value(analysis) {
        Some(doc) => {
            proof {
                lemma_reading_confidence_in_range(members(doc@));
            }
            analysis_from_document(&doc)
        },
        None => {
            let lower = analysis.to_lowercase();
            heuristic_analysis(analysis, lower.as_str())
        },
    }
}

} // verus!
