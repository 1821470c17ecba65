//! Which issues are worth an alert, and how often.
//!
//! An issue gets a key. Issues that differ only in a number share a key. An
//! alert for a key keeps later alerts for the same key quiet until the
//! cooldown has passed.

use vstd::prelude::*;
use vstd::string::StringExecFns;
use crate::analysis::{AnalysisResult, AnalysisView};
use crate::model_error::{
    build_model_error_alert, kind_message, kind_name, kind_of, ModelErrorAlert,
};
use crate::text::{
    ascii_lower, char_ascii_lower, char_is_ascii_digit, chars_of, contains, has,
    is_ascii_digit, lemma_trim_append, lemma_trim_ends, lemma_trim_is_a_part, same_str,
    string_of, trim, trim_end, trim_start, trimmed, unicode_lowercase, white_space,
};

verus! {

/// The name under which an issue on the screen is told to the user interface.
pub const ASSISTANT_ALERT_EVENT: &'static str = "assistant-alert";

/// The event that tells the user of an issue on the screen.
#[derive(Debug, Clone, PartialEq, Eq)]
pub struct AssistantAlert {
    pub timestamp: String,
    pub issue_type: String,
    pub message: String,
    pub suggestion: String,
}

// ---------------------------------------------------------------------------
// The assistant's own window
// ---------------------------------------------------------------------------

/// The text in which signs of the assistant's own window are looked for.
pub open spec fn combined_text(parsed: AnalysisView) -> Seq<char> {
    parsed.app + " "@ + parsed.summary + " "@ + parsed.detail + " "@ + parsed.issue_message
}

/// The text holds one of the words that mark a view worth alerting on:
/// history, conversation, chat, reminder, warning, settings.
pub open spec fn has_marker(lower: Seq<char>) -> bool {
    contains(lower, "历史"@) || contains(lower, "对话"@) || contains(lower, "聊天"@) || contains(
        lower,
        "提醒"@,
    ) || contains(lower, "警告"@) || contains(lower, "设置"@)
}

/// The screen shows the assistant itself: the application is named after it,
/// or no application is named and the text speaks of it.
pub open spec fn shows_own_window(app_lower: Seq<char>, combined_lower: Seq<char>) -> bool {
    contains(app_lower, "screen assistant"@) || ((app_lower.len() == 0 || app_lower == "unknown"@)
        && contains(combined_lower, "screen assistant"@))
}

/// An issue seen in the assistant's own window raises no alert, unless one of
/// the marker words stands in the text. The two arguments are the lowercase
/// forms of the application name and of the combined text.
pub open spec fn suppressed(app_lower: Seq<char>, combined_lower: Seq<char>) -> bool {
    shows_own_window(app_lower, combined_lower) && !has_marker(combined_lower)
}

/// Whether an issue is kept quiet, given the lowercase forms of the
/// application name and of the combined text.
pub fn suppresses(app_lower: &str, combined_lower: &str) -> (r: bool)
    ensures
        r == suppressed(app_lower@, combined_lower@),
{
    let app = chars_of(app_lower);
    let combined = chars_of(combined_lower);
    let own = has(&app, "screen assistant") || ((app.len() == 0 || same_str(app_lower, "unknown"))
        && has(&combined, "screen assistant"));
    if !own {
        return false;
    }
    let marker = has(&combined, "历史") || has(&combined, "对话") || has(&combined, "聊天")
        || has(&combined, "提醒") || has(&combined, "警告") || has(&combined, "设置");
    !marker
}

/// The text in which signs of the assistant's own window are looked for.
pub fn combine(parsed: &AnalysisResult) -> (out: String)
    ensures
        out@ == combined_text(parsed@),
{
    let mut out = parsed.app.clone();
    out.append(" ");
    out.append(parsed.summary.as_str());
    out.append(" ");
    out.append(parsed.detail.as_str());
    out.append(" ");
    out.append(parsed.issue_message.as_str());
    out
}

/// Whether an issue is kept quiet because the screen shows the assistant itself.
pub fn should_suppress_alert(parsed: &AnalysisResult) -> (r: bool)
    ensures
        r == suppressed(
            unicode_lowercase(parsed@.app),
            unicode_lowercase(combined_text(parsed@)),
        ),
{
    let app = parsed.app.as_str().to_lowercase();
    let combined = combine(parsed).as_str().to_lowercase();
    suppresses(app.as_str(), combined.as_str())
}

// ---------------------------------------------------------------------------
// Keys
// ---------------------------------------------------------------------------

/// A key made of a kind of issue: trimmed, in lowercase.
pub open spec fn normal_key(text: Seq<char>) -> Seq<char> {
    unicode_lowercase(trim(text))
}

/// `s` with every run of digits and white space squeezed to one space and
/// every other character in ASCII lowercase. `after_space` tells that a space
/// has just been written.
pub open spec fn squeeze(s: Seq<char>, after_space: bool) -> Seq<char>
    decreases s.len(),
{
    if s.len() == 0 {
        Seq::empty()
    } else if is_ascii_digit(s[0]) || white_space(s[0]) {
        if after_space {
            squeeze(s.drop_first(), true)
        } else {
            seq![' '] + squeeze(s.drop_first(), true)
        }
    } else {
        seq![ascii_lower(s[0])] + squeeze(s.drop_first(), false)
    }
}

/// Every text of digits and white space squeezes to one space, or to nothing
/// behind a space.
proof fn lemma_squeeze_gap(gap: Seq<char>, rest: Seq<char>, after_space: bool)
    requires
        gap.len() > 0,
        forall|i: int| 0 <= i < gap.len() ==> is_ascii_digit(gap[i]) || white_space(gap[i]),
    ensures
        squeeze(gap + rest, after_space) == if after_space {
            squeeze(rest, true)
        } else {
            seq![' '] + squeeze(rest, true)
        },
    decreases gap.len(),
{
    assert((gap + rest)[0] == gap[0]);
    assert((gap + rest).drop_first() =~= gap.drop_first() + rest);
    if gap.len() == 1 {
        assert(gap.drop_first() + rest =~= rest);
    } else {
        assert forall|i: int| 0 <= i < gap.drop_first().len() implies is_ascii_digit(
            gap.drop_first()[i],
        ) || white_space(gap.drop_first()[i]) by {
            assert(gap.drop_first()[i] == gap[i + 1]);
        }
        lemma_squeeze_gap(gap.drop_first(), rest, true);
    }
}

proof fn lemma_squeeze_prefix(head: Seq<char>, x: Seq<char>, y: Seq<char>, after_space: bool)
    requires
        squeeze(x, true) == squeeze(y, true),
        squeeze(x, false) == squeeze(y, false),
    ensures
        squeeze(head + x, after_space) == squeeze(head + y, after_space),
    decreases head.len(),
{
    if head.len() == 0 {
        assert(head + x =~= x);
        assert(head + y =~= y);
    } else {
        assert((head + x)[0] == head[0] && (head + y)[0] == head[0]);
        assert((head + x).drop_first() =~= head.drop_first() + x);
        assert((head + y).drop_first() =~= head.drop_first() + y);
        lemma_squeeze_prefix(head.drop_first(), x, y, true);
        lemma_squeeze_prefix(head.drop_first(), x, y, false);
    }
}

/// Squeezing does not see which digits and which white space stand in a
/// place, nor how many of them, as long as there is one.
pub proof fn lemma_squeeze_ignores_gaps(
    head: Seq<char>,
    gap1: Seq<char>,
    gap2: Seq<char>,
    tail: Seq<char>,
    after_space: bool,
)
    requires
        gap1.len() > 0,
        gap2.len() > 0,
        forall|i: int| 0 <= i < gap1.len() ==> is_ascii_digit(gap1[i]) || white_space(gap1[i]),
        forall|i: int| 0 <= i < gap2.len() ==> is_ascii_digit(gap2[i]) || white_space(gap2[i]),
    ensures
        squeeze(head + gap1 + tail, after_space) == squeeze(head + gap2 + tail, after_space),
{
    lemma_squeeze_gap(gap1, tail, true);
    lemma_squeeze_gap(gap1, tail, false);
    lemma_squeeze_gap(gap2, tail, true);
    lemma_squeeze_gap(gap2, tail, false);
    lemma_squeeze_prefix(head, gap1 + tail, gap2 + tail, after_space);
    assert(head + gap1 + tail =~= head + (gap1 + tail));
    assert(head + gap2 + tail =~= head + (gap2 + tail));
}

/// What is squeezed holds no digit and no capital letter of the ASCII
/// alphabet, no white space but the space, and no two spaces in a row; behind
/// a space it does not begin with one.
pub proof fn lemma_squeeze_shape(s: Seq<char>, after_space: bool)
    ensures
        forall|i: int|
            0 <= i < squeeze(s, after_space).len() ==> {
                let c = #[trigger] squeeze(s, after_space)[i];
                !is_ascii_digit(c) && !('A' <= c && c <= 'Z') && (white_space(c) ==> c == ' ')
            },
        forall|i: int|
            0 <= i < squeeze(s, after_space).len() - 1 ==> !(#[trigger] squeeze(s, after_space)[i]
                == ' ' && squeeze(s, after_space)[i + 1] == ' '),
        after_space && squeeze(s, after_space).len() > 0 ==> squeeze(s, after_space)[0] != ' ',
    decreases s.len(),
{
    if s.len() > 0 {
        let out = squeeze(s, after_space);
        if is_ascii_digit(s[0]) || white_space(s[0]) {
            lemma_squeeze_shape(s.drop_first(), true);
            let rest = squeeze(s.drop_first(), true);
            if !after_space {
                assert(out =~= seq![' '] + rest);
                assert forall|i: int| 0 <= i < out.len() implies {
                    let c = #[trigger] out[i];
                    !is_ascii_digit(c) && !('A' <= c && c <= 'Z') && (white_space(c) ==> c == ' ')
                } by {
                    if i > 0 {
                        assert(out[i] == rest[i - 1]);
                    }
                }
                assert forall|i: int| 0 <= i < out.len() - 1 implies !(#[trigger] out[i] == ' '
                    && out[i + 1] == ' ') by {
                    assert(out[i + 1] == rest[i]);
                    if i > 0 {
                        assert(out[i] == rest[i - 1]);
                    }
                }
            }
        } else {
            lemma_squeeze_shape(s.drop_first(), false);
            let rest = squeeze(s.drop_first(), false);
            let first = ascii_lower(s[0]);
            assert(out =~= seq![first] + rest);
            assert(!is_ascii_digit(first) && !('A' <= first && first <= 'Z') && !white_space(first));
            assert forall|i: int| 0 <= i < out.len() implies {
                let c = #[trigger] out[i];
                !is_ascii_digit(c) && !('A' <= c && c <= 'Z') && (white_space(c) ==> c == ' ')
            } by {
                if i > 0 {
                    assert(out[i] == rest[i - 1]);
                }
            }
            assert forall|i: int| 0 <= i < out.len() - 1 implies !(#[trigger] out[i] == ' '
                && out[i + 1] == ' ') by {
                assert(out[i + 1] == rest[i]);
                if i > 0 {
                    assert(out[i] == rest[i - 1]);
                }
            }
        }
    }
}

/// Two messages that differ in a number only have one key: where a run of
/// digits stands in one and another run of digits in the other, between the
/// same texts, the keys made of the two messages are the same.
pub proof fn lemma_numbers_share_a_key(
    head: Seq<char>,
    number1: Seq<char>,
    number2: Seq<char>,
    tail: Seq<char>,
)
    requires
        number1.len() > 0,
        number2.len() > 0,
        forall|i: int| 0 <= i < number1.len() ==> is_ascii_digit(number1[i]),
        forall|i: int| 0 <= i < number2.len() ==> is_ascii_digit(number2[i]),
    ensures
        normal_issue_text(head + number1 + tail) == normal_issue_text(head + number2 + tail),
        alert_key(Seq::empty(), head + number1 + tail) == alert_key(
            Seq::empty(),
            head + number2 + tail,
        ),
{
    assert(is_ascii_digit(number1.first()) && is_ascii_digit(number1.last()));
    assert(is_ascii_digit(number2.first()) && is_ascii_digit(number2.last()));
    lemma_trim_append(head, number1, tail);
    lemma_trim_append(head, number2, tail);
    lemma_squeeze_ignores_gaps(trim_start(head), number1, number2, trim_end(tail), false);
}

/// A key made of a message holds no digit and no capital letter of the ASCII
/// alphabet, no white space but single spaces, and none at its ends.
pub proof fn lemma_issue_text_shape(text: Seq<char>)
    ensures
        forall|i: int|
            0 <= i < normal_issue_text(text).len() ==> {
                let c = #[trigger] normal_issue_text(text)[i];
                !is_ascii_digit(c) && !('A' <= c && c <= 'Z') && (white_space(c) ==> c == ' ')
            },
        forall|i: int|
            0 <= i < normal_issue_text(text).len() - 1 ==> !(#[trigger] normal_issue_text(text)[i]
                == ' ' && normal_issue_text(text)[i + 1] == ' '),
        normal_issue_text(text).len() > 0 ==> normal_issue_text(text).first() != ' '
            && normal_issue_text(text).last() != ' ',
{
    let squeezed = squeeze(trim(text), false);
    let key = normal_issue_text(text);
    lemma_squeeze_shape(trim(text), false);
    lemma_trim_ends(squeezed);
    lemma_trim_is_a_part(squeezed);
    let (from, to) = choose|from: int, to: int|
        0 <= from <= to <= squeezed.len() && trim(squeezed) == squeezed.subrange(from, to);
    assert forall|i: int| 0 <= i < key.len() implies {
        let c = #[trigger] key[i];
        !is_ascii_digit(c) && !('A' <= c && c <= 'Z') && (white_space(c) ==> c == ' ')
    } by {
        assert(key[i] == squeezed[from + i]);
    }
    assert forall|i: int| 0 <= i < key.len() - 1 implies !(#[trigger] key[i] == ' ' && key[i + 1]
        == ' ') by {
        assert(key[i] == squeezed[from + i]);
        assert(key[i + 1] == squeezed[from + i + 1]);
    }
}

/// A key made of a message: trimmed, squeezed, trimmed again.
pub open spec fn normal_issue_text(text: Seq<char>) -> Seq<char> {
    trim(squeeze(trim(text), false))
}

/// The key of an issue: made of its kind, or of its message where it names no kind.
pub open spec fn alert_key(issue_type: Seq<char>, issue_message: Seq<char>) -> Seq<char> {
    if normal_key(issue_type).len() > 0 {
        normal_key(issue_type)
    } else {
        normal_issue_text(issue_message)
    }
}

/// The key under which an analyzer failure is remembered.
pub open spec fn model_error_key(error_type: Seq<char>, message: Seq<char>) -> Seq<char> {
    "model:"@ + error_type + ":"@ + message
}

/// A key made of a kind of issue.
pub fn normalize_key(text: &str) -> (key: String)
    ensures
        key@ == normal_key(text@),
{
    let v = chars_of(text);
    let t = string_of(&trimmed(&v));
    t.as_str().to_lowercase()
}

/// A key made of a message.
pub fn normalize_issue_text(text: &str) -> (key: String)
    ensures
        key@ == normal_issue_text(text@),
{
    let v = chars_of(text);
    let t = trimmed(&v);
    let mut out: Vec<char> = Vec::new();
    let mut last_space = false;
    let mut i: usize = 0;
    proof {
        assert(t@.skip(0) == t@);
        assert(out@ + squeeze(t@, false) =~= squeeze(t@, false));
    }
    while i < t.len()
        invariant
            i <= t.len(),
            squeeze(t@, false) == out@ + squeeze(t@.skip(i as int), last_space),
        decreases t.len() - i,
    {
        let ch = t[i];
        let ghost before = out@;
        let ghost rest = t@.skip(i as int);
        proof {
            assert(rest.drop_first() == t@.skip(i + 1));
            assert(rest[0] == ch);
        }
        if char_is_ascii_digit(ch) || ch.is_whitespace() {
            if !last_space {
                out.push(' ');
                last_space = true;
                proof {
                    assert(before + (seq![' '] + squeeze(rest.drop_first(), true)) =~= before.push(
                        ' ',
                    ) + squeeze(rest.drop_first(), true));
                }
            }
        } else {
            out.push(char_ascii_lower(ch));
            last_space = false;
            proof {
                assert(before + (seq![ascii_lower(ch)] + squeeze(rest.drop_first(), false))
                    =~= before.push(ascii_lower(ch)) + squeeze(rest.drop_first(), false));
            }
        }
        i += 1;
    }
    proof {
        assert(out@ + squeeze(t@.skip(t.len() as int), last_space) =~= out@);
    }
    string_of(&trimmed(&out))
}

/// The key of an issue.
pub fn build_alert_key(parsed: &AnalysisResult, issue_message: &str) -> (key: String)
    ensures
        key@ == alert_key(parsed@.issue_type, issue_message@),
{
    let issue_type = normalize_key(parsed.issue_type.as_str());
    if !issue_type.as_str().is_empty() {
        return issue_type;
    }
    normalize_issue_text(issue_message)
}

/// The key under which an analyzer failure is remembered.
pub fn build_model_error_key(error_type: &str, message: &str) -> (key: String)
    ensures
        key@ == model_error_key(error_type@, message@),
{
    let mut key = "model:".to_string();
    key.append(error_type);
    key.append(":");
    key.append(message);
    key
}

// ---------------------------------------------------------------------------
// Cooldown
// ---------------------------------------------------------------------------

/// One line of the history: the last alert for `key` went out at the time `at`.
#[derive(Debug, Clone)]
pub struct AlertEntry {
    pub key: String,
    pub at: i64,
}

/// The time recorded for `key` in a list of entries: that of the first entry with the key.
pub open spec fn time_of(entries: Seq<AlertEntry>, key: Seq<char>) -> Option<int>
    decreases entries.len(),
{
    if entries.len() == 0 {
        None
    } else if entries[0].key@ == key {
        Some(entries[0].at as int)
    } else {
        time_of(entries.drop_first(), key)
    }
}

/// The length of the quiet period in milliseconds: the cooldown, but five seconds at least.
pub open spec fn quiet_period(cooldown_seconds: u64) -> int {
    if cooldown_seconds < 5 {
        5_000
    } else {
        cooldown_seconds * 1_000
    }
}

/// An alert for `key` at the time `now` goes out: none went out for the key
/// before, or the last one is a quiet period or more in the past.
pub open spec fn goes_out(
    history: Map<Seq<char>, int>,
    key: Seq<char>,
    now: int,
    cooldown_seconds: u64,
) -> bool {
    !history.contains_key(key) || now - history[key] >= quiet_period(cooldown_seconds)
}

/// The history after an alert for `key` was asked for at the time `now`.
pub open spec fn history_after(
    history: Map<Seq<char>, int>,
    key: Seq<char>,
    now: int,
    cooldown_seconds: u64,
) -> Map<Seq<char>, int> {
    if goes_out(history, key, now, cooldown_seconds) {
        history.insert(key, now)
    } else {
        history
    }
}

/// After an alert for a key went out at the time `t0`, asking again before
/// the quiet period has passed raises none and changes nothing, and asking
/// once it has passed raises one.
pub proof fn lemma_cooldown(
    history: Map<Seq<char>, int>,
    key: Seq<char>,
    t0: int,
    t: int,
    cooldown_seconds: u64,
)
    requires
        goes_out(history, key, t0, cooldown_seconds),
    ensures
        t - t0 < quiet_period(cooldown_seconds) ==> !goes_out(
            history_after(history, key, t0, cooldown_seconds),
            key,
            t,
            cooldown_seconds,
        ) && history_after(
            history_after(history, key, t0, cooldown_seconds),
            key,
            t,
            cooldown_seconds,
        ) == history_after(history, key, t0, cooldown_seconds),
        t - t0 >= quiet_period(cooldown_seconds) ==> goes_out(
            history_after(history, key, t0, cooldown_seconds),
            key,
            t,
            cooldown_seconds,
        ),
{
}

/// When the last alert went out, key by key. Times are milliseconds on any
/// clock that the caller keeps to.
#[derive(Debug, Clone)]
pub struct AlertHistory {
    entries: Vec<AlertEntry>,
}

impl View for AlertHistory {
    type V = Map<Seq<char>, int>;

    closed spec fn view(&self) -> Map<Seq<char>, int> {
        Map::new(
            |k: Seq<char>| time_of(self.entries@, k) is Some,
            |k: Seq<char>| time_of(self.entries@, k)->0,
        )
    }
}

proof fn lemma_time_of_absent(entries: Seq<AlertEntry>, key: Seq<char>)
    requires
        forall|j: int| 0 <= j < entries.len() ==> entries[j].key@ != key,
    ensures
        time_of(entries, key) is None,
    decreases entries.len(),
{
    if entries.len() > 0 {
        assert forall|j: int| 0 <= j < entries.drop_first().len() implies entries.drop_first()[j].key@
            != key by {
            assert(entries.drop_first()[j] == entries[j + 1]);
        }
        lemma_time_of_absent(entries.drop_first(), key);
    }
}

proof fn lemma_time_of_found(entries: Seq<AlertEntry>, key: Seq<char>, i: int)
    requires
        0 <= i < entries.len(),
        entries[i].key@ == key,
        forall|j: int| 0 <= j < i ==> entries[j].key@ != key,
    ensures
        time_of(entries, key) == Some(entries[i].at as int),
    decreases entries.len(),
{
    if i > 0 {
        assert forall|j: int| 0 <= j < i - 1 implies entries.drop_first()[j].key@ != key by {
            assert(entries.drop_first()[j] == entries[j + 1]);
        }
        lemma_time_of_found(entries.drop_first(), key, i - 1);
    }
}

proof fn lemma_time_of_update(entries: Seq<AlertEntry>, i: int, fresh: AlertEntry, other: Seq<char>)
    requires
        0 <= i < entries.len(),
        fresh.key@ == entries[i].key@,
        forall|j: int| 0 <= j < i ==> entries[j].key@ != entries[i].key@,
    ensures
        time_of(entries.update(i, fresh), other) == if other == fresh.key@ {
            Some(fresh.at as int)
        } else {
            time_of(entries, other)
        },
    decreases entries.len(),
{
    if i == 0 {
        assert(entries.update(0, fresh).drop_first() == entries.drop_first());
    } else {
        assert(entries.update(i, fresh).drop_first() == entries.drop_first().update(i - 1, fresh));
        assert forall|j: int| 0 <= j < i - 1 implies (#[trigger] entries.drop_first()[j]).key@
            != entries[i].key@ by {
            assert(entries.drop_first()[j] == entries[j + 1]);
        }
        lemma_time_of_update(entries.drop_first(), i - 1, fresh, other);
    }
}

proof fn lemma_time_of_push(entries: Seq<AlertEntry>, fresh: AlertEntry, other: Seq<char>)
    requires
        time_of(entries, fresh.key@) is None,
    ensures
        time_of(entries.push(fresh), other) == if other == fresh.key@ {
            Some(fresh.at as int)
        } else {
            time_of(entries, other)
        },
    decreases entries.len(),
{
    if entries.len() == 0 {
        assert(entries.push(fresh).drop_first() =~= entries);
    } else {
        assert(entries.push(fresh).drop_first() =~= entries.drop_first().push(fresh));
        lemma_time_of_push(entries.drop_first(), fresh, other);
    }
}

impl AlertHistory {
    /// A history in which no alert has gone out.
    pub fn new() -> (h: Self)
        ensures
            h@ == Map::<Seq<char>, int>::empty(),
    {
        let h = AlertHistory { entries: Vec::new() };
        proof {
            assert(h@ =~= Map::<Seq<char>, int>::empty());
        }
        h
    }

    /// When the last alert for `key` went out.
    pub fn last_emission(&self, key: &str) -> (t: Option<i64>)
        ensures
            match t {
                Some(at) => self@.contains_key(key@) && self@[key@] == at,
                None => !self@.contains_key(key@),
            },
    {
        match self.position(key) {
            Some(i) => Some(self.entries[i].at),
            None => None,
        }
    }

    fn position(&self, key: &str) -> (r: Option<usize>)
        ensures
            match r {
                Some(i) => i < self.entries@.len() && self.entries@[i as int].key@ == key@ && (
                forall|j: int| 0 <= j < i ==> self.entries@[j].key@ != key@) && time_of(
                    self.entries@,
                    key@,
                ) == Some(self.entries@[i as int].at as int),
                None => time_of(self.entries@, key@) is None,
            },
    {
        let mut i: usize = 0;
        while i < self.entries.len()
            invariant
                i <= self.entries@.len(),
                forall|j: int| 0 <= j < i ==> self.entries@[j].key@ != key@,
            decreases self.entries.len() - i,
        {
            if same_str(self.entries[i].key.as_str(), key) {
                proof {
                    lemma_time_of_found(self.entries@, key@, i as int);
                }
                return Some(i);
            }
            i += 1;
        }
        proof {
            lemma_time_of_absent(self.entries@, key@);
        }
        None
    }

    /// Decides whether an alert for `key` goes out at the time `now`, and
    /// records the time where it does.
    pub fn should_emit(&mut self, key: &str, now: i64, cooldown_seconds: u64) -> (emit: bool)
        ensures
            emit == goes_out(old(self)@, key@, now as int, cooldown_seconds),
            final(self)@ == history_after(old(self)@, key@, now as int, cooldown_seconds),
    {
        let window: i128 = if cooldown_seconds < 5 {
            5_000
        } else {
            (cooldown_seconds as i128) * 1_000
        };
        let found = self.position(key);
        let ghost before = self.entries@;
        let fresh = AlertEntry { key: key.to_string(), at: now };
        match found {
            Some(i) => {
                let prev = self.entries[i].at;
                if (now as i128) - (prev as i128) < window {
                    return false;
                }
                self.entries.set(i, fresh);
                proof {
                    assert forall|k: Seq<char>|
                        time_of(self.entries@, k) == (if k == key@ {
                            Some(now as int)
                        } else {
                            time_of(before, k)
                        }) by {
                        lemma_time_of_update(before, i as int, fresh, k);
                    }
                    assert(self@ =~= old(self)@.insert(key@, now as int));
                }
                true
            },
            None => {
                self.entries.push(fresh);
                proof {
                    assert forall|k: Seq<char>|
                        time_of(self.entries@, k) == (if k == key@ {
                            Some(now as int)
                        } else {
                            time_of(before, k)
                        }) by {
                        lemma_time_of_push(before, fresh, k);
                    }
                    assert(self@ =~= old(self)@.insert(key@, now as int));
                }
                true
            },
        }
    }
}

/// Decides whether an alert for `key` goes out at the time `now`.
pub fn should_emit_alert(
    recent_alerts: &mut AlertHistory,
    alert_key: &str,
    now: i64,
    cooldown_seconds: u64,
) -> (emit: bool)
    ensures
        emit == goes_out(old(recent_alerts)@, alert_key@, now as int, cooldown_seconds),
        final(recent_alerts)@ == history_after(
            old(recent_alerts)@,
            alert_key@,
            now as int,
            cooldown_seconds,
        ),
{
    recent_alerts.should_emit(alert_key, now, cooldown_seconds)
}

/// The key of the failure text `detail`.
pub open spec fn failure_key(detail: Seq<char>) -> Seq<char> {
    let kind = kind_of(detail, unicode_lowercase(detail));
    model_error_key(kind_name(kind), kind_message(kind))
}

/// The event for an analyzer failure, where one goes out: failures of one
/// kind are told once per quiet period.
pub fn emit_model_error_once(
    recent_alerts: &mut AlertHistory,
    detail: &str,
    source: &str,
    timestamp: &str,
    now: i64,
    cooldown_seconds: u64,
) -> (event: Option<ModelErrorAlert>)
    ensures
        event is Some == goes_out(
            old(recent_alerts)@,
            failure_key(detail@),
            now as int,
            cooldown_seconds,
        ),
        final(recent_alerts)@ == history_after(
            old(recent_alerts)@,
            failure_key(detail@),
            now as int,
            cooldown_seconds,
        ),
        event is Some ==> {
            let alert = event->0;
            let kind = kind_of(detail@, unicode_lowercase(detail@));
            &&& alert.timestamp@ == timestamp@
            &&& alert.error_type@ == kind_name(kind)
            &&& alert.message@ == kind_message(kind)
            &&& alert.suggestion@ == crate::model_error::kind_suggestion(kind)
            &&& alert.detail@ == detail@
            &&& alert.source@ == source@
        },
{
    let alert = build_model_error_alert(detail, source, timestamp);
    let key = build_model_error_key(alert.error_type.as_str(), alert.message.as_str());
    if should_emit_alert(recent_alerts, key.as_str(), now, cooldown_seconds) {
        Some(alert)
    } else {
        None
    }
}

} // verus!
