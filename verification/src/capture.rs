//! The sampling loop, as the decisions it takes.
//!
//! The loop itself, with its clock, its screen and its analyzer, belongs to
//! the program around this crate. Here stands what the loop decides from one
//! step to the next: whether to go on, whether a frame is worth analyzing,
//! whether an issue is worth an alert, and what is recorded of a frame.

use vstd::prelude::*;
use vstd::string::StringExecFns;
use crate::alert::{
    alert_key, build_alert_key, combined_text, emit_model_error_once, failure_key, goes_out,
    history_after, should_emit_alert, should_suppress_alert, suppressed, AlertHistory,
    AssistantAlert,
};
use crate::analysis::{extract_keywords_from_analysis, keywords_in, AnalysisResult, AnalysisView};
use crate::config::CaptureConfig;
use crate::fingerprint::{
    compute_image_hash, fingerprint_of, is_unchanged, luma_grid, similarity, unchanged, Frame,
};
use crate::model_error::{kind_message, kind_name, kind_of, kind_suggestion, ModelErrorAlert};
use crate::ratio::{clamp_unit, clamped, format_two_decimals, two_decimals};
use crate::records::{RecordView, SummaryRecord};
use crate::text::{chars_of, trim, trimmed, unicode_lowercase};

verus! {

/// How far back the context for the analyzer reaches, in minutes.
pub const RECENT_CONTEXT_MINUTES: i64 = 3;

/// What wakes the loop.
#[derive(Debug, Clone, Copy, PartialEq, Eq)]
pub enum LoopEvent {
    /// The interval has passed.
    Tick,
    /// Someone asked the loop to stop.
    StopSignal,
}

/// What the loop does next.
#[derive(Debug, Clone, Copy, PartialEq, Eq)]
pub enum LoopStep {
    /// Take a frame and deal with it, to the end.
    RunTick,
    /// Leave the loop.
    Leave,
}

/// What becomes of a frame.
#[derive(Debug, Clone, Copy, PartialEq, Eq)]
pub enum FrameDecision {
    /// The frame shows what the frame before it showed: it is not analyzed.
    Skip,
    /// The frame is analyzed.
    Analyze,
}

/// How a tick ended.
#[derive(Debug, Clone, Copy, PartialEq, Eq)]
pub enum TickOutcome {
    /// The frame was analyzed and recorded.
    Analyzed,
    /// The frame was left out.
    Skipped,
    /// The frame could not be taken, analyzed or recorded.
    Failed,
}

/// What becomes of an issue.
#[derive(Debug, Clone, PartialEq, Eq)]
pub struct AlertDecision {
    /// What the issue is about: its message, or the summary where it has none.
    pub issue_message: String,
    /// An alert goes out.
    pub should_emit: bool,
    /// The alert lacks a suggestion, which has to be asked for before it goes out.
    pub needs_suggestion: bool,
    /// The confidence that an issue needs, in millionths.
    pub threshold: u32,
}

/// What the analyzer is asked when a suggestion is needed.
#[derive(Debug, Clone, PartialEq, Eq)]
pub struct SuggestionRequest {
    pub context: String,
    pub question: String,
}

/// The state of the loop, as contracts see it.
pub struct ManagerView {
    pub running: bool,
    pub record_count: u64,
    pub skip_count: u64,
    pub previous_hash: Option<u64>,
    pub alerts: Map<Seq<char>, int>,
    pub last_issue_key: Option<Seq<char>>,
}

/// The state that the loop keeps from one step to the next.
#[derive(Debug, Clone)]
pub struct CaptureManager {
    running: bool,
    record_count: u64,
    skip_count: u64,
    previous_hash: Option<u64>,
    recent_alerts: AlertHistory,
    last_issue_key: Option<String>,
}

impl View for CaptureManager {
    type V = ManagerView;

    closed spec fn view(&self) -> ManagerView {
        ManagerView {
            running: self.running,
            record_count: self.record_count,
            skip_count: self.skip_count,
            previous_hash: self.previous_hash,
            alerts: self.recent_alerts@,
            last_issue_key: crate::records::optional_view(self.last_issue_key),
        }
    }
}

// ---------------------------------------------------------------------------
// Frames
// ---------------------------------------------------------------------------

/// The frame with fingerprint `hash` is left out: leaving out is switched on,
/// and the frame shows what the frame before it showed.
pub open spec fn skips(s: ManagerView, capture: CaptureConfig, hash: u64) -> bool {
    capture.skip_unchanged && unchanged(s.previous_hash, hash, capture.change_threshold)
}

/// The state after a frame with fingerprint `hash` was seen. A frame that is
/// left out changes nothing. A frame that is analyzed becomes the frame that
/// the next one is compared with, where leaving out is switched on.
pub open spec fn after_frame(s: ManagerView, capture: CaptureConfig, hash: u64) -> ManagerView {
    if capture.skip_unchanged && !skips(s, capture, hash) {
        ManagerView { previous_hash: Some(hash), ..s }
    } else {
        s
    }
}

/// The state after a tick has ended: a frame that was analyzed and recorded
/// counts as a record, a frame that was left out counts as left out, and a
/// tick that failed counts as neither.
pub open spec fn after_tick(s: ManagerView, outcome: TickOutcome) -> ManagerView {
    match outcome {
        TickOutcome::Analyzed => ManagerView { record_count: (s.record_count + 1) as u64, ..s },
        TickOutcome::Skipped => ManagerView { skip_count: (s.skip_count + 1) as u64, ..s },
        TickOutcome::Failed => s,
    }
}

/// The first frame of a run is analyzed, whatever the threshold and whether
/// or not leaving out is switched on. Where it is switched on, the frame
/// becomes the frame that the next one is compared with.
pub proof fn lemma_first_frame_is_analyzed(s: ManagerView, capture: CaptureConfig, hash: u64)
    requires
        s.previous_hash is None,
    ensures
        !skips(s, capture, hash),
        capture.skip_unchanged ==> after_frame(s, capture, hash).previous_hash == Some(hash),
{
}

/// A frame that is as similar to the frame before it as the threshold asks
/// is left out, where leaving out is switched on. The frame before it stays
/// the frame that is compared with, and nothing else changes either. When
/// its tick has ended, one more frame counts as left out and no more frames
/// count as records, unless the counter is at its end.
pub proof fn lemma_unchanged_frame_is_skipped(
    s: ManagerView,
    capture: CaptureConfig,
    previous: u64,
    hash: u64,
)
    requires
        capture.skip_unchanged,
        s.previous_hash == Some(previous),
        similarity(previous, hash) >= capture.change_threshold,
    ensures
        skips(s, capture, hash),
        after_frame(s, capture, hash) == s,
        after_tick(s, TickOutcome::Skipped).record_count == s.record_count,
        s.skip_count < u64::MAX ==> after_tick(s, TickOutcome::Skipped).skip_count == s.skip_count
            + 1,
{
}

/// Of two frames in a row, the first analyzed, that are as similar as the
/// threshold asks, the second is left out.
pub proof fn lemma_similar_frame_is_skipped(
    s: ManagerView,
    capture: CaptureConfig,
    first: u64,
    second: u64,
)
    requires
        capture.skip_unchanged,
        !skips(s, capture, first),
        similarity(first, second) >= capture.change_threshold,
    ensures
        skips(after_frame(s, capture, first), capture, second),
        after_frame(after_frame(s, capture, first), capture, second) == after_frame(
            s,
            capture,
            first,
        ),
{
}

/// A tick that failed changes no counter, and a tick changes nothing but a counter.
pub proof fn lemma_tick_counts(s: ManagerView, outcome: TickOutcome)
    ensures
        after_tick(s, TickOutcome::Failed) == s,
        after_tick(s, outcome).running == s.running,
        after_tick(s, outcome).previous_hash == s.previous_hash,
        after_tick(s, outcome).alerts == s.alerts,
        after_tick(s, outcome).last_issue_key == s.last_issue_key,
        outcome != TickOutcome::Analyzed ==> after_tick(s, outcome).record_count == s.record_count,
        outcome != TickOutcome::Skipped ==> after_tick(s, outcome).skip_count == s.skip_count,
{
}

/// How a tick ended, told from what it handed back: whether the frame was
/// analyzed, or why the tick failed.
pub fn tick_outcome(result: &Result<bool, String>) -> (outcome: TickOutcome)
    ensures
        outcome == match *result {
            Ok(true) => TickOutcome::Analyzed,
            Ok(false) => TickOutcome::Skipped,
            Err(_) => TickOutcome::Failed,
        },
{
    match result {
        Ok(true) => TickOutcome::Analyzed,
        Ok(false) => TickOutcome::Skipped,
        Err(_) => TickOutcome::Failed,
    }
}

// ---------------------------------------------------------------------------
// Issues
// ---------------------------------------------------------------------------

/// What an issue is about: its message, or the summary where it has none.
pub open spec fn issue_text(parsed: AnalysisView) -> Seq<char> {
    if parsed.issue_message.len() == 0 {
        parsed.summary
    } else {
        parsed.issue_message
    }
}

/// The reading tells of an issue that may raise an alert: it flags one, is
/// confident enough, and does not show the assistant's own window.
pub open spec fn may_alert(parsed: AnalysisView, threshold: u32) -> bool {
    parsed.has_issue && parsed.confidence >= clamp_unit(threshold as int) && !suppressed(
        unicode_lowercase(parsed.app),
        unicode_lowercase(combined_text(parsed)),
    )
}

/// The key of the issue that a reading tells of.
pub open spec fn issue_key(parsed: AnalysisView) -> Seq<char> {
    alert_key(parsed.issue_type, issue_text(parsed))
}

/// The issue is asked about in the history: it may raise an alert and is not the
/// issue that the frame before showed.
pub open spec fn asks_history(s: ManagerView, parsed: AnalysisView, threshold: u32) -> bool {
    may_alert(parsed, threshold) && s.last_issue_key != Some(issue_key(parsed))
}

/// An alert goes out for the reading at the time `now`.
pub open spec fn alerts(s: ManagerView, capture: CaptureConfig, parsed: AnalysisView, now: int) -> bool {
    asks_history(s, parsed, capture.alert_confidence_threshold) && goes_out(
        s.alerts,
        issue_key(parsed),
        now,
        capture.alert_cooldown_seconds,
    )
}

/// The state after a reading was assessed at the time `now`.
pub open spec fn after_reading(
    s: ManagerView,
    capture: CaptureConfig,
    parsed: AnalysisView,
    now: int,
) -> ManagerView {
    ManagerView {
        alerts: if asks_history(s, parsed, capture.alert_confidence_threshold) {
            history_after(s.alerts, issue_key(parsed), now, capture.alert_cooldown_seconds)
        } else {
            s.alerts
        },
        last_issue_key: if may_alert(parsed, capture.alert_confidence_threshold) {
            Some(issue_key(parsed))
        } else {
            None
        },
        ..s
    }
}

/// What is said where no suggestion could be had.
pub open spec fn suggestion_failed() -> Seq<char> {
    "建议生成失败，请查看详情或稍后重试。"@
}

/// What is kept of an analyzed frame.
pub open spec fn record_of(
    parsed: AnalysisView,
    timestamp: Seq<char>,
    detail_ref: Option<Seq<char>>,
) -> RecordView {
    RecordView {
        timestamp,
        summary: parsed.summary,
        app: parsed.app,
        action: if parsed.has_issue {
            "issue"@
        } else {
            "active"@
        },
        keywords: keywords_in(parsed.summary),
        has_issue: parsed.has_issue,
        issue_type: parsed.issue_type,
        issue_summary: issue_text(parsed),
        suggestion: parsed.suggestion,
        confidence: parsed.confidence,
        detail: parsed.detail,
        detail_ref: match detail_ref {
            Some(name) => name,
            None => Seq::empty(),
        },
    }
}

/// What is logged of an alert.
pub open spec fn alert_log_text(
    timestamp: Seq<char>,
    issue_type: Seq<char>,
    message: Seq<char>,
    suggestion: Seq<char>,
    confidence: u32,
    threshold: u32,
) -> Seq<char> {
    "time: "@ + timestamp + "\n"@ + "issue_type: "@ + issue_type + "\n"@ + "message: "@ + message
        + "\n"@ + (if suggestion.len() > 0 {
        "suggestion: "@ + suggestion + "\n"@
    } else {
        Seq::empty()
    }) + "confidence: "@ + two_decimals(confidence as int) + "\nthreshold: "@ + two_decimals(
        threshold as int,
    ) + "\n"@
}

/// What the analyzer is told when a suggestion is asked for.
pub open spec fn suggestion_context(parsed: AnalysisView, recent_context: Seq<char>) -> Seq<char> {
    "当前截图分析:\n- summary: "@ + parsed.summary + "\n- detail: "@ + parsed.detail
        + "\n- issue_type: "@ + (if parsed.issue_type.len() == 0 {
        "未分类"@
    } else {
        parsed.issue_type
    }) + "\n- issue_summary: "@ + issue_text(parsed) + "\n- confidence: "@ + two_decimals(
        parsed.confidence as int,
    ) + "\n\n近期记录:\n"@ + recent_context
}

/// What the analyzer is asked when a suggestion is asked for.
pub open spec fn suggestion_question() -> Seq<char> {
    "基于以上信息给出 1-3 条可执行的解决建议，尽量具体，不要复述背景。"@
}

/// What the analyzer is told before the recent context, when a frame is handed to it.
pub const PROMPT_HEAD: &'static str =
    r#"你是屏幕截图分析器。请严格只输出一个可解析的 JSON 对象，不要输出任何解释、Markdown 或代码块。

必须包含以下字段：
{
  "summary": "30-50字的操作概述，描述用户正在做什么、使用什么工具、处理什么内容",
  "detail": "对画面的详细描述：包含主要窗口/界面区域、可见文本、按钮、输入输出、错误提示等具体细节",
  "app": "主要应用或窗口名称，无法判断写 Unknown",
  "has_issue": true 或 false（布尔值）,
  "issue_type": "问题类型（仅在 has_issue 为 true 时填写，否则空字符串）",
  "issue_summary": "问题摘要（仅在 has_issue 为 true 时填写，否则空字符串）",
  "suggestion": "解决建议（仅在 has_issue 为 true 时填写，否则空字符串）：根据 detail 中的错误信息，指出最可能的原因，并给出具体可操作的解决步骤",
  "confidence": 对整体分析结果准确性的置信度，0.0-1.0 之间的数值
}

示例输出：
{
  "summary": "在 VS Code 中编辑 screen-assistant 项目的 Rust 后端代码，正在修改 capture 模块的截图分析提示词",
  "detail": "VS Code 编辑器窗口最大化显示。左侧资源管理器展开 src-tauri/src/capture 目录，当前打开文件为 mod.rs。编辑区域显示第 215-260 行的 Rust 代码，包含 format! 宏和 JSON 字符串。光标位于第 238 行。右上角显示 Git 分支为 master。底部状态栏显示 UTF-8 编码、LF 换行符、Rust 语言模式。底部终端面板已折叠。窗口标题为 'mod.rs - screen-assistant - Visual Studio Code'。",
  "app": "Visual Studio Code",
  "has_issue": false,
  "issue_type": "",
  "issue_summary": "",
  "suggestion": "",
  "confidence": 0.95
}

判定规则：
- 只有当截图中出现明确错误/失败/阻塞提示时，has_issue 才为 true
- issue_type 用 2-6 个词概括问题（如 编译错误/网络错误/权限不足/界面卡死）
- issue_summary 必须具体指出错误内容或提示文本，不要泛泛而谈
- detail 只描述可见信息，不要猜测未显示的内容

近期记录（仅供参考，可能不完整）：
"#;

/// What the analyzer is told when a frame is handed to it.
pub open spec fn prompt_for(recent_context: Seq<char>) -> Seq<char> {
    PROMPT_HEAD@ + recent_context + "\n"@
}

/// What the analyzer is told when a frame is handed to it.
pub fn analysis_prompt(recent_context: &str) -> (prompt: String)
    ensures
        prompt@ == prompt_for(recent_context@),
{
    let mut prompt = PROMPT_HEAD.to_string();
    prompt.append(recent_context);
    prompt.append("\n");
    prompt
}

/// What the analyzer is asked when a suggestion is needed.
pub fn generate_issue_suggestion(parsed: &AnalysisResult, recent_context: &str) -> (request:
    SuggestionRequest)
    ensures
        request.context@ == suggestion_context(parsed@, recent_context@),
        request.question@ == suggestion_question(),
{
    let mut context = "当前截图分析:\n- summary: ".to_string();
    context.append(parsed.summary.as_str());
    context.append("\n- detail: ");
    context.append(parsed.detail.as_str());
    context.append("\n- issue_type: ");
    if parsed.issue_type.as_str().is_empty() {
        context.append("未分类");
    } else {
        context.append(parsed.issue_type.as_str());
    }
    context.append("\n- issue_summary: ");
    if parsed.issue_message.as_str().is_empty() {
        context.append(parsed.summary.as_str());
    } else {
        context.append(parsed.issue_message.as_str());
    }
    context.append("\n- confidence: ");
    context.append(format_two_decimals(parsed.confidence).as_str());
    context.append("\n\n近期记录:\n");
    context.append(recent_context);
    SuggestionRequest {
        context,
        question: "基于以上信息给出 1-3 条可执行的解决建议，尽量具体，不要复述背景。".to_string(),
    }
}

/// Takes in the answer to a request for a suggestion: the suggestion, or a
/// fixed sentence where the analyzer failed.
pub fn apply_suggestion(parsed: &mut AnalysisResult, outcome: Result<String, String>)
    ensures
        final(parsed)@ == (AnalysisView {
            suggestion: match outcome {
                Ok(text) => text@,
                Err(_) => suggestion_failed(),
            },
            ..old(parsed)@
        }),
{
    match outcome {
        Ok(text) => {
            parsed.suggestion = text;
        },
        Err(_) => {
            parsed.suggestion = "建议生成失败，请查看详情或稍后重试。".to_string();
        },
    }
}

/// What is kept of an analyzed frame.
pub fn build_summary_record(
    parsed: &AnalysisResult,
    timestamp: &str,
    detail_ref: Option<String>,
) -> (record: SummaryRecord)
    ensures
        record@ == record_of(parsed@, timestamp@, crate::records::optional_view(detail_ref)),
{
    let issue_summary = if parsed.issue_message.as_str().is_empty() {
        parsed.summary.clone()
    } else {
        parsed.issue_message.clone()
    };
    SummaryRecord {
        timestamp: timestamp.to_string(),
        summary: parsed.summary.clone(),
        app: parsed.app.clone(),
        action: if parsed.has_issue {
            "issue".to_string()
        } else {
            "active".to_string()
        },
        keywords: extract_keywords_from_analysis(parsed.summary.as_str()),
        has_issue: parsed.has_issue,
        issue_type: parsed.issue_type.clone(),
        issue_summary,
        suggestion: parsed.suggestion.clone(),
        confidence: parsed.confidence,
        detail: parsed.detail.clone(),
        detail_ref: match detail_ref {
            Some(name) => name,
            None => String::new(),
        },
    }
}

/// The event that tells the user of the issue in a reading.
pub fn build_assistant_alert(parsed: &AnalysisResult, timestamp: &str) -> (alert: AssistantAlert)
    ensures
        alert.timestamp@ == timestamp@,
        alert.issue_type@ == parsed@.issue_type,
        alert.message@ == issue_text(parsed@),
        alert.suggestion@ == parsed@.suggestion,
{
    AssistantAlert {
        timestamp: timestamp.to_string(),
        issue_type: parsed.issue_type.clone(),
        message: if parsed.issue_message.as_str().is_empty() {
            parsed.summary.clone()
        } else {
            parsed.issue_message.clone()
        },
        suggestion: parsed.suggestion.clone(),
    }
}

/// What is logged of an alert.
pub fn build_alert_log(alert: &AssistantAlert, confidence: u32, threshold: u32) -> (log: String)
    ensures
        log@ == alert_log_text(
            alert.timestamp@,
            alert.issue_type@,
            alert.message@,
            alert.suggestion@,
            confidence,
            threshold,
        ),
{
    let mut log = "time: ".to_string();
    log.append(alert.timestamp.as_str());
    log.append("\n");
    log.append("issue_type: ");
    log.append(alert.issue_type.as_str());
    log.append("\n");
    log.append("message: ");
    log.append(alert.message.as_str());
    log.append("\n");
    if !alert.suggestion.as_str().is_empty() {
        log.append("suggestion: ");
        log.append(alert.suggestion.as_str());
        log.append("\n");
        proof {
            assert(log@ =~= "time: "@ + alert.timestamp@ + "\n"@ + "issue_type: "@
                + alert.issue_type@ + "\n"@ + "message: "@ + alert.message@ + "\n"@ + (
            "suggestion: "@ + alert.suggestion@ + "\n"@));
        }
    } else {
        proof {
            assert(log@ =~= "time: "@ + alert.timestamp@ + "\n"@ + "issue_type: "@
                + alert.issue_type@ + "\n"@ + "message: "@ + alert.message@ + "\n"@
                + Seq::<char>::empty());
        }
    }
    log.append("confidence: ");
    log.append(format_two_decimals(confidence).as_str());
    log.append("\nthreshold: ");
    log.append(format_two_decimals(threshold).as_str());
    log.append("\n");
    log
}

// ---------------------------------------------------------------------------
// The state
// ---------------------------------------------------------------------------

impl CaptureManager {
    /// A loop that has not run yet.
    pub fn new() -> (m: Self)
        ensures
            m@ == (ManagerView {
                running: false,
                record_count: 0,
                skip_count: 0,
                previous_hash: None,
                alerts: Map::empty(),
                last_issue_key: None,
            }),
    {
        CaptureManager {
            running: false,
            record_count: 0,
            skip_count: 0,
            previous_hash: None,
            recent_alerts: AlertHistory::new(),
            last_issue_key: None,
        }
    }

    /// Whether a run is under way.
    pub fn is_running(&self) -> (r: bool)
        ensures
            r == self@.running,
    {
        self.running
    }

    /// How many frames were analyzed and recorded.
    pub fn get_count(&self) -> (n: u64)
        ensures
            n == self@.record_count,
    {
        self.record_count
    }

    /// How many frames were left out.
    pub fn get_skip_count(&self) -> (n: u64)
        ensures
            n == self@.skip_count,
    {
        self.skip_count
    }

    /// Starts a run, unless one is under way. A run begins without a frame to compare with.
    pub fn start(&mut self) -> (started: bool)
        ensures
            started == !old(self)@.running,
            final(self)@ == if started {
                ManagerView { running: true, previous_hash: None, ..old(self)@ }
            } else {
                old(self)@
            },
    {
        if self.running {
            return false;
        }
        self.running = true;
        self.previous_hash = None;
        true
    }

    /// Asks the run to end. The step that is under way is brought to its end.
    pub fn stop(&mut self)
        ensures
            final(self)@ == (ManagerView { running: false, ..old(self)@ }),
    {
        self.running = false;
    }

    /// What the loop does when it wakes: it leaves when it was asked to stop,
    /// by the signal or by the flag, and takes a frame otherwise.
    pub fn next_step(&self, event: LoopEvent) -> (step: LoopStep)
        ensures
            step == match event {
                LoopEvent::Tick => if self@.running {
                    LoopStep::RunTick
                } else {
                    LoopStep::Leave
                },
                LoopEvent::StopSignal => LoopStep::Leave,
            },
    {
        match event {
            LoopEvent::Tick => if self.running {
                LoopStep::RunTick
            } else {
                LoopStep::Leave
            },
            LoopEvent::StopSignal => LoopStep::Leave,
        }
    }

    /// Decides what becomes of a frame with the fingerprint `hash`.
    pub fn observe_hash(&mut self, capture: &CaptureConfig, hash: u64) -> (decision: FrameDecision)
        ensures
            decision == if skips(old(self)@, *capture, hash) {
                FrameDecision::Skip
            } else {
                FrameDecision::Analyze
            },
            final(self)@ == after_frame(old(self)@, *capture, hash),
    {
        if capture.skip_unchanged {
            if is_unchanged(self.previous_hash, hash, capture.change_threshold) {
                return FrameDecision::Skip;
            }
            self.previous_hash = Some(hash);
        }
        FrameDecision::Analyze
    }

    /// Decides what becomes of a frame. The fingerprint is only taken where
    /// leaving out is switched on.
    pub fn observe_frame(&mut self, capture: &CaptureConfig, frame: &Frame) -> (decision:
        FrameDecision)
        requires
            frame.wf(),
        ensures
            decision == if skips(
                old(self)@,
                *capture,
                fingerprint_of(luma_grid(frame.width, frame.height, frame.rgba@)),
            ) {
                FrameDecision::Skip
            } else {
                FrameDecision::Analyze
            },
            final(self)@ == after_frame(
                old(self)@,
                *capture,
                fingerprint_of(luma_grid(frame.width, frame.height, frame.rgba@)),
            ),
    {
        if capture.skip_unchanged {
            let hash = compute_image_hash(frame);
            self.observe_hash(capture, hash)
        } else {
            FrameDecision::Analyze
        }
    }

    /// Whether a tick that ended with `outcome` can still be counted: the
    /// counter that it adds to is not at its end.
    pub fn can_count(&self, outcome: TickOutcome) -> (r: bool)
        ensures
            r == match outcome {
                TickOutcome::Analyzed => self@.record_count < u64::MAX,
                TickOutcome::Skipped => self@.skip_count < u64::MAX,
                TickOutcome::Failed => true,
            },
    {
        match outcome {
            TickOutcome::Analyzed => self.record_count < u64::MAX,
            TickOutcome::Skipped => self.skip_count < u64::MAX,
            TickOutcome::Failed => true,
        }
    }

    /// Counts a tick that has ended.
    pub fn finish_tick(&mut self, outcome: TickOutcome)
        requires
            outcome == TickOutcome::Analyzed ==> old(self)@.record_count < u64::MAX,
            outcome == TickOutcome::Skipped ==> old(self)@.skip_count < u64::MAX,
        ensures
            final(self)@ == after_tick(old(self)@, outcome),
    {
        match outcome {
            TickOutcome::Analyzed => {
                self.record_count = self.record_count + 1;
            },
            TickOutcome::Skipped => {
                self.skip_count = self.skip_count + 1;
            },
            TickOutcome::Failed => {},
        }
    }

    /// Decides whether the issue in a reading raises an alert at the time
    /// `now`, in milliseconds. An issue raises none where the reading is not
    /// confident enough, where the screen shows the assistant itself, where
    /// the frame before showed the same issue, or where an alert for the
    /// same issue went out within the quiet period.
    pub fn assess(&mut self, capture: &CaptureConfig, parsed: &AnalysisResult, now: i64) -> (decision:
        AlertDecision)
        ensures
            decision.issue_message@ == issue_text(parsed@),
            decision.threshold == clamp_unit(capture.alert_confidence_threshold as int),
            decision.should_emit == alerts(old(self)@, *capture, parsed@, now as int),
            decision.needs_suggestion == (decision.should_emit && trim(parsed@.suggestion).len()
                == 0),
            final(self)@ == after_reading(old(self)@, *capture, parsed@, now as int),
    {
        let threshold = clamped(capture.alert_confidence_threshold);
        let issue_message = if parsed.issue_message.as_str().is_empty() {
            parsed.summary.clone()
        } else {
            parsed.issue_message.clone()
        };
        let mut should_emit = false;
        let mut needs_suggestion = false;
        let mut current: Option<String> = None;
        if parsed.has_issue && parsed.confidence >= threshold && !should_suppress_alert(parsed) {
            let key = build_alert_key(parsed, issue_message.as_str());
            let repeated = match &self.last_issue_key {
                Some(last) => *last == key,
                None => false,
            };
            if !repeated {
                should_emit = should_emit_alert(
                    &mut self.recent_alerts,
                    key.as_str(),
                    now,
                    capture.alert_cooldown_seconds,
                );
            }
            if should_emit {
                let suggestion = trimmed(&chars_of(parsed.suggestion.as_str()));
                needs_suggestion = suggestion.len() == 0;
            }
            current = Some(key);
        }
        self.last_issue_key = current;
        AlertDecision { issue_message, should_emit, needs_suggestion, threshold }
    }

    /// Decides whether a failure of the analyzer is told to the user at the
    /// time `now`, in milliseconds, and hands out the event where it is.
    pub fn model_failed(
        &mut self,
        capture: &CaptureConfig,
        detail: &str,
        source: &str,
        timestamp: &str,
        now: i64,
    ) -> (event: Option<ModelErrorAlert>)
        ensures
            event is Some == goes_out(
                old(self)@.alerts,
                failure_key(detail@),
                now as int,
                capture.alert_cooldown_seconds,
            ),
            final(self)@ == (ManagerView {
                alerts: history_after(
                    old(self)@.alerts,
                    failure_key(detail@),
                    now as int,
                    capture.alert_cooldown_seconds,
                ),
                ..old(self)@
            }),
            event is Some ==> {
                let alert = event->0;
                let kind = kind_of(detail@, unicode_lowercase(detail@));
                &&& alert.timestamp@ == timestamp@
                &&& alert.error_type@ == kind_name(kind)
                &&& alert.message@ == kind_message(kind)
                &&& alert.suggestion@ == kind_suggestion(kind)
                &&& alert.detail@ == detail@
                &&& alert.source@ == source@
            },
    {
        emit_model_error_once(
            &mut self.recent_alerts,
            detail,
            source,
            timestamp,
            now,
            capture.alert_cooldown_seconds,
        )
    }
}

} // verus!
