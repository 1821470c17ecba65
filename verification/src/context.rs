//! What was found, written out for the analyzer.
//!
//! A search result becomes a text of whole lines: the aggregates first, then
//! the records. The text keeps to a budget of characters. Where not every
//! line fits, as many lines as fit are written, followed by a line that says
//! that more was left out; no line is ever cut.

use vstd::prelude::*;
use vstd::string::StringExecFns;
use vstd::string::StrSliceExecFns;
use crate::records::{
    aggregate_views, record_views, AggregateView, AggregatedRecord, RecordView, SummaryRecord,
};
use crate::search::{ResultView, SearchResult};
use crate::text::{chars_of, flatten_lines, flattened, lex_le, slice, string_of, text_le};

verus! {

/// One line of a context.
pub struct Line {
    pub text: Seq<char>,
    /// The line gives the detail of the record in the line before it.
    pub is_detail: bool,
}

/// One line of a context, written out.
#[derive(Debug, Clone)]
pub struct ContextLine {
    pub text: String,
    pub is_detail: bool,
}

impl View for ContextLine {
    type V = Line;

    open spec fn view(&self) -> Line {
        Line { text: self.text@, is_detail: self.is_detail }
    }
}

/// The views of a list of lines.
pub open spec fn line_views(lines: Seq<ContextLine>) -> Seq<Line> {
    Seq::new(lines.len(), |i: int| lines[i]@)
}

/// What stands for a result in which nothing was found.
pub open spec fn nothing_found() -> Seq<char> {
    "目前没有相关的操作记录。"@
}

/// What stands for the records that were left out.
pub open spec fn records_omitted() -> Seq<char> {
    "...(更多记录已省略)\n"@
}

/// What stands for the detail that was left out.
pub open spec fn detail_omitted() -> Seq<char> {
    "  ...(细节已省略)\n"@
}

/// How long a line that says that more was left out is.
pub const MARKER_CHARS: usize = 13;

/// The part of a time from position `from` up to position `to`, or all of it
/// where it is shorter than that.
pub open spec fn time_part(t: Seq<char>, from: int, to: int) -> Seq<char> {
    if t.len() >= to {
        t.subrange(from, to)
    } else {
        t
    }
}

/// Hour and minute of a time.
pub open spec fn hour_minute(t: Seq<char>) -> Seq<char> {
    time_part(t, 11, 16)
}

/// Hour, minute and second of a time.
pub open spec fn time_of_day(t: Seq<char>) -> Seq<char> {
    time_part(t, 11, 19)
}

/// The line of an aggregate: its span of time and its summary.
pub open spec fn aggregate_line(a: AggregateView) -> Seq<char> {
    "- ["@ + hour_minute(a.start_time) + " ~ "@ + hour_minute(a.end_time) + "] "@ + a.summary
        + "\n"@
}

/// The line that tells what went wrong in an aggregate.
pub open spec fn error_line(e: Seq<char>) -> Seq<char> {
    "  ⚠️ 错误: "@ + e + "\n"@
}

/// The line of a record: its time of day and its summary.
pub open spec fn record_line(r: RecordView) -> Seq<char> {
    "- ["@ + time_of_day(r.timestamp) + "] "@ + r.summary + "\n"@
}

/// The line that gives the detail of a record, on one line.
pub open spec fn detail_line(r: RecordView) -> Seq<char> {
    "  细节: "@ + flatten_lines(r.detail) + "\n"@
}

/// A line that is no detail line.
pub open spec fn plain(text: Seq<char>) -> Line {
    Line { text, is_detail: false }
}

/// The lines of one aggregate: its span and summary, and what went wrong in it.
pub open spec fn lines_of_aggregate(a: AggregateView) -> Seq<Line> {
    match a.error_summary {
        Some(e) => seq![plain(aggregate_line(a)), plain(error_line(e))],
        None => seq![plain(aggregate_line(a))],
    }
}

/// The lines of one record: its time and summary, and its detail where that is asked for.
pub open spec fn lines_of_record(r: RecordView, include_detail: bool) -> Seq<Line> {
    if include_detail && r.detail.len() > 0 {
        seq![plain(record_line(r)), Line { text: detail_line(r), is_detail: true }]
    } else {
        seq![plain(record_line(r))]
    }
}

/// The lines of the aggregates, aggregate after aggregate.
pub open spec fn aggregate_lines(aggregates: Seq<AggregateView>) -> Seq<Line>
    decreases aggregates.len(),
{
    if aggregates.len() == 0 {
        Seq::empty()
    } else {
        aggregate_lines(aggregates.drop_last()) + lines_of_aggregate(aggregates.last())
    }
}

/// The lines of the records, record after record.
pub open spec fn record_lines(records: Seq<RecordView>, include_detail: bool) -> Seq<Line>
    decreases records.len(),
{
    if records.len() == 0 {
        Seq::empty()
    } else {
        record_lines(records.drop_last(), include_detail) + lines_of_record(
            records.last(),
            include_detail,
        )
    }
}

/// The overview: a heading, the lines of the aggregates, an empty line.
pub open spec fn overview_section(aggregates: Seq<AggregateView>) -> Seq<Line> {
    if aggregates.len() == 0 {
        Seq::empty()
    } else {
        seq![plain("## 操作概要\n\n"@)] + aggregate_lines(aggregates) + seq![plain("\n"@)]
    }
}

/// The records: a heading and the lines of the records.
pub open spec fn records_section(records: Seq<RecordView>, include_detail: bool) -> Seq<Line> {
    if records.len() == 0 {
        Seq::empty()
    } else {
        seq![plain("## 详细记录\n\n"@)] + record_lines(records, include_detail)
    }
}

/// All lines of a result.
pub open spec fn all_lines(result: ResultView, include_detail: bool) -> Seq<Line> {
    overview_section(result.aggregated) + records_section(result.records, include_detail)
}

/// The lines one after the other.
pub open spec fn concat(lines: Seq<Line>) -> Seq<char>
    decreases lines.len(),
{
    if lines.len() == 0 {
        Seq::empty()
    } else {
        concat(lines.drop_last()) + lines.last().text
    }
}

/// How many of the lines, from the first on, fit into `budget` characters.
pub open spec fn fitting(lines: Seq<Line>, budget: int) -> nat
    decreases lines.len(),
{
    if lines.len() == 0 || lines[0].text.len() > budget {
        0
    } else {
        1 + fitting(lines.drop_first(), budget - lines[0].text.len())
    }
}

/// The line that says what was left out, the first line left out being `first`.
pub open spec fn marker_for(first: Line) -> Seq<char> {
    if first.is_detail {
        detail_omitted()
    } else {
        records_omitted()
    }
}

/// The lines written out within `max_chars` characters: all of them where
/// they fit; else as many as fit together with the line that says that more
/// was left out, and then that line.
pub open spec fn rendered(lines: Seq<Line>, max_chars: int) -> Seq<char> {
    if lines.len() == 0 {
        nothing_found()
    } else if concat(lines).len() <= max_chars {
        concat(lines)
    } else {
        let kept = fitting(lines, max_chars - MARKER_CHARS);
        concat(lines.take(kept as int)) + marker_for(lines[kept as int])
    }
}

/// The context of a result within `max_chars` characters.
pub open spec fn context_of(result: ResultView, max_chars: int, include_detail: bool) -> Seq<char> {
    rendered(all_lines(result, include_detail), max_chars)
}

proof fn lemma_concat_first(lines: Seq<Line>)
    requires
        lines.len() > 0,
    ensures
        concat(lines.take(0)) == Seq::<char>::empty(),
        concat(lines.take(1)) == lines[0].text,
{
    assert(lines.take(1).drop_last() =~= lines.take(0));
    assert(concat(lines.take(0)) =~= Seq::<char>::empty());
    assert(concat(lines.take(1)) =~= concat(lines.take(0)) + lines[0].text);
    assert(concat(lines.take(0)) + lines[0].text =~= lines[0].text);
}

proof fn lemma_concat_take(lines: Seq<Line>, n: int)
    requires
        0 <= n < lines.len(),
    ensures
        concat(lines.take(n + 1)) == concat(lines.take(n)) + lines[n].text,
        concat(lines.take(n)).len() <= concat(lines.take(n + 1)).len(),
{
    assert(lines.take(n + 1).drop_last() =~= lines.take(n));
}

proof fn lemma_concat_monotone(lines: Seq<Line>, n: int)
    requires
        0 <= n <= lines.len(),
    ensures
        concat(lines.take(n)).len() <= concat(lines).len(),
    decreases lines.len() - n,
{
    if n == lines.len() {
        assert(lines.take(n) =~= lines);
    } else {
        lemma_concat_take(lines, n);
        lemma_concat_monotone(lines, n + 1);
    }
}

/// The lines that fit are lines from the first on, fit into the budget, and
/// are followed by a line that does not fit with them.
pub proof fn lemma_fitting(lines: Seq<Line>, budget: int)
    ensures
        fitting(lines, budget) <= lines.len(),
        budget >= 0 ==> concat(lines.take(fitting(lines, budget) as int)).len() <= budget,
        budget < 0 ==> fitting(lines, budget) == 0,
        fitting(lines, budget) < lines.len() ==> concat(
            lines.take(fitting(lines, budget) as int + 1),
        ).len() > budget,
        lines.len() > 0 && concat(lines).len() > budget ==> fitting(lines, budget) < lines.len(),
    decreases lines.len(),
{
    if lines.len() == 0 {
        assert(lines.take(0) =~= lines);
    } else if lines[0].text.len() > budget {
        lemma_concat_first(lines);
        lemma_concat_monotone(lines, 1);
    } else {
        let rest = lines.drop_first();
        let left = budget - lines[0].text.len();
        lemma_fitting(rest, left);
        let k = fitting(rest, left) as int;
        lemma_concat_shift(lines, k);
        if k < rest.len() {
            lemma_concat_shift(lines, k + 1);
        }
        assert(rest.take(rest.len() as int) =~= rest);
        assert(lines.take(lines.len() as int) =~= lines);
        lemma_concat_shift(lines, rest.len() as int);
    }
}

proof fn lemma_concat_shift(lines: Seq<Line>, k: int)
    requires
        lines.len() > 0,
        0 <= k <= lines.len() - 1,
    ensures
        concat(lines.take(k + 1)).len() == lines[0].text.len() + concat(
            lines.drop_first().take(k),
        ).len(),
    decreases k,
{
    if k == 0 {
        lemma_concat_first(lines);
        assert(concat(lines.drop_first().take(0)) =~= Seq::<char>::empty());
    } else {
        lemma_concat_shift(lines, k - 1);
        lemma_concat_take(lines, k);
        lemma_concat_take(lines.drop_first(), k - 1);
    }
}

proof fn lemma_marker_lengths()
    ensures
        records_omitted().len() == MARKER_CHARS,
        detail_omitted().len() == MARKER_CHARS,
        nothing_found().len() == 12,
        records_omitted().last() == '\n',
        detail_omitted().last() == '\n',
{
    reveal_strlit("...(更多记录已省略)\n");
    reveal_strlit("  ...(细节已省略)\n");
    reveal_strlit("目前没有相关的操作记录。");
}

proof fn lemma_rendered_within_budget(lines: Seq<Line>, max_chars: int)
    requires
        all_positive(lines),
    ensures
        rendered(lines, max_chars).len() > 0,
        max_chars >= MARKER_CHARS ==> rendered(lines, max_chars).len() <= max_chars,
        lines.len() > 0 && concat(lines).len() > max_chars ==> exists|kept: int|
            0 <= kept < lines.len() && rendered(lines, max_chars) == concat(lines.take(kept))
                + marker_for(lines[kept]),
{
    lemma_marker_lengths();
    if lines.len() == 0 {
    } else if concat(lines).len() <= max_chars {
        assert(lines.drop_last().push(lines.last()) =~= lines);
        assert(concat(lines).len() >= lines.last().text.len());
    } else {
        lemma_fitting(lines, max_chars - MARKER_CHARS);
        let kept = fitting(lines, max_chars - MARKER_CHARS) as int;
        assert(0 <= kept < lines.len());
    }
}

/// No line of the list is empty.
pub open spec fn all_positive(lines: Seq<Line>) -> bool {
    forall|i: int| 0 <= i < lines.len() ==> (#[trigger] lines[i]).text.len() > 0
}

proof fn lemma_positive_append(a: Seq<Line>, b: Seq<Line>)
    requires
        all_positive(a),
        all_positive(b),
    ensures
        all_positive(a + b),
{
    assert forall|i: int| 0 <= i < (a + b).len() implies (#[trigger] (a + b)[i]).text.len() > 0 by {
        if i < a.len() {
            assert((a + b)[i] == a[i]);
        } else {
            assert((a + b)[i] == b[i - a.len()]);
        }
    }
}

proof fn lemma_aggregate_lines_positive(aggregates: Seq<AggregateView>)
    ensures
        all_positive(aggregate_lines(aggregates)),
    decreases aggregates.len(),
{
    if aggregates.len() > 0 {
        reveal_strlit("\n");
        lemma_aggregate_lines_positive(aggregates.drop_last());
        lemma_positive_append(
            aggregate_lines(aggregates.drop_last()),
            lines_of_aggregate(aggregates.last()),
        );
    }
}

proof fn lemma_record_lines_positive(records: Seq<RecordView>, include_detail: bool)
    ensures
        all_positive(record_lines(records, include_detail)),
    decreases records.len(),
{
    if records.len() > 0 {
        reveal_strlit("\n");
        lemma_record_lines_positive(records.drop_last(), include_detail);
        lemma_positive_append(
            record_lines(records.drop_last(), include_detail),
            lines_of_record(records.last(), include_detail),
        );
    }
}

/// No line of a result is empty.
pub proof fn lemma_all_lines_positive(result: ResultView, include_detail: bool)
    ensures
        all_positive(all_lines(result, include_detail)),
{
    reveal_strlit("\n");
    reveal_strlit("## 操作概要\n\n");
    reveal_strlit("## 详细记录\n\n");
    lemma_aggregate_lines_positive(result.aggregated);
    lemma_record_lines_positive(result.records, include_detail);
    if result.aggregated.len() > 0 {
        lemma_positive_append(seq![plain("## 操作概要\n\n"@)], aggregate_lines(result.aggregated));
        lemma_positive_append(
            seq![plain("## 操作概要\n\n"@)] + aggregate_lines(result.aggregated),
            seq![plain("\n"@)],
        );
    }
    if result.records.len() > 0 {
        lemma_positive_append(
            seq![plain("## 详细记录\n\n"@)],
            record_lines(result.records, include_detail),
        );
    }
    lemma_positive_append(
        overview_section(result.aggregated),
        records_section(result.records, include_detail),
    );
}

/// A context is never empty. With a budget of thirteen characters or more it
/// keeps to the budget. Where the lines of the result do not all fit, the
/// context is made of whole lines of the result, from the first on, and ends
/// with the line that says that more was left out.
pub proof fn lemma_context_within_budget(result: ResultView, max_chars: int, include_detail: bool)
    ensures
        context_of(result, max_chars, include_detail).len() > 0,
        max_chars >= MARKER_CHARS ==> context_of(result, max_chars, include_detail).len()
            <= max_chars,
        all_lines(result, include_detail).len() > 0 && concat(
            all_lines(result, include_detail),
        ).len() > max_chars ==> exists|kept: int|
            0 <= kept < all_lines(result, include_detail).len() && context_of(
                result,
                max_chars,
                include_detail,
            ) == concat(all_lines(result, include_detail).take(kept)) + marker_for(
                all_lines(result, include_detail)[kept],
            ),
{
    lemma_all_lines_positive(result, include_detail);
    lemma_rendered_within_budget(all_lines(result, include_detail), max_chars);
}

/// The part of a time from position `from` up to position `to`.
fn part_of_time(t: &str, from: usize, to: usize) -> (out: String)
    requires
        from <= to,
    ensures
        out@ == time_part(t@, from as int, to as int),
{
    let v = chars_of(t);
    if v.len() >= to {
        string_of(&slice(&v, from, to))
    } else {
        t.to_string()
    }
}

fn push_line(lines: &mut Vec<ContextLine>, text: String, is_detail: bool)
    ensures
        line_views(final(lines)@) == line_views(old(lines)@).push(Line { text: text@, is_detail }),
{
    let ghost before = line_views(lines@);
    lines.push(ContextLine { text, is_detail });
    proof {
        assert(line_views(lines@) =~= before.push(Line { text: text@, is_detail }));
    }
}

fn push_aggregate_lines(lines: &mut Vec<ContextLine>, aggregates: &Vec<AggregatedRecord>)
    ensures
        line_views(final(lines)@) == line_views(old(lines)@) + aggregate_lines(
            aggregate_views(aggregates@),
        ),
{
    let ghost before = line_views(lines@);
    let ghost all = aggregate_views(aggregates@);
    let mut i: usize = 0;
    proof {
        assert(before + aggregate_lines(all.take(0)) =~= before);
    }
    while i < aggregates.len()
        invariant
            i <= aggregates.len(),
            all == aggregate_views(aggregates@),
            line_views(lines@) == before + aggregate_lines(all.take(i as int)),
        decreases aggregates.len() - i,
    {
        let a = &aggregates[i];
        let ghost so_far = aggregate_lines(all.take(i as int));
        proof {
            assert(all.take(i + 1).drop_last() == all.take(i as int));
            assert(all.take(i + 1).last() == a@);
        }
        let mut line = "- [".to_string();
        line.append(part_of_time(a.start_time.as_str(), 11, 16).as_str());
        line.append(" ~ ");
        line.append(part_of_time(a.end_time.as_str(), 11, 16).as_str());
        line.append("] ");
        line.append(a.summary.as_str());
        line.append("\n");
        push_line(lines, line, false);
        match &a.error_summary {
            Some(e) => {
                let mut err = "  ⚠️ 错误: ".to_string();
                err.append(e.as_str());
                err.append("\n");
                push_line(lines, err, false);
                proof {
                    assert(line_views(lines@) =~= before + (so_far + lines_of_aggregate(a@)));
                }
            },
            None => {
                proof {
                    assert(line_views(lines@) =~= before + (so_far + lines_of_aggregate(a@)));
                }
            },
        }
        i += 1;
    }
    proof {
        assert(all.take(aggregates.len() as int) == all);
    }
}

fn push_record_lines(
    lines: &mut Vec<ContextLine>,
    records: &Vec<SummaryRecord>,
    include_detail: bool,
)
    ensures
        line_views(final(lines)@) == line_views(old(lines)@) + record_lines(
            record_views(records@),
            include_detail,
        ),
{
    let ghost before = line_views(lines@);
    let ghost all = record_views(records@);
    let mut i: usize = 0;
    proof {
        assert(before + record_lines(all.take(0), include_detail) =~= before);
    }
    while i < records.len()
        invariant
            i <= records.len(),
            all == record_views(records@),
            line_views(lines@) == before + record_lines(all.take(i as int), include_detail),
        decreases records.len() - i,
    {
        let r = &records[i];
        let ghost so_far = record_lines(all.take(i as int), include_detail);
        proof {
            assert(all.take(i + 1).drop_last() == all.take(i as int));
            assert(all.take(i + 1).last() == r@);
        }
        let mut line = "- [".to_string();
        line.append(part_of_time(r.timestamp.as_str(), 11, 19).as_str());
        line.append("] ");
        line.append(r.summary.as_str());
        line.append("\n");
        push_line(lines, line, false);
        if include_detail && !r.detail.as_str().is_empty() {
            let mut detail = "  细节: ".to_string();
            detail.append(flattened(r.detail.as_str()).as_str());
            detail.append("\n");
            push_line(lines, detail, true);
            proof {
                assert(line_views(lines@) =~= before + (so_far + lines_of_record(
                    r@,
                    include_detail,
                )));
            }
        } else {
            proof {
                assert(line_views(lines@) =~= before + (so_far + lines_of_record(
                    r@,
                    include_detail,
                )));
            }
        }
        i += 1;
    }
    proof {
        assert(all.take(records.len() as int) == all);
    }
}

/// All lines of a result.
pub fn context_lines(result: &SearchResult, include_detail: bool) -> (lines: Vec<ContextLine>)
    ensures
        line_views(lines@) == all_lines(result@, include_detail),
{
    let mut lines: Vec<ContextLine> = Vec::new();
    proof {
        assert(line_views(lines@) =~= Seq::<Line>::empty());
    }
    if result.aggregated.len() > 0 {
        push_line(&mut lines, "## 操作概要\n\n".to_string(), false);
        push_aggregate_lines(&mut lines, &result.aggregated);
        push_line(&mut lines, "\n".to_string(), false);
        proof {
            assert(line_views(lines@) =~= overview_section(result@.aggregated));
        }
    }
    let ghost overview = line_views(lines@);
    if result.records.len() > 0 {
        push_line(&mut lines, "## 详细记录\n\n".to_string(), false);
        push_record_lines(&mut lines, &result.records, include_detail);
        proof {
            assert(line_views(lines@) =~= overview + records_section(
                result@.records,
                include_detail,
            ));
        }
    } else {
        proof {
            assert(line_views(lines@) =~= overview + records_section(
                result@.records,
                include_detail,
            ));
        }
    }
    lines
}

/// The lines written out within `max_chars` characters.
pub fn render_lines(lines: &Vec<ContextLine>, max_chars: usize) -> (out: String)
    ensures
        out@ == rendered(line_views(lines@), max_chars as int),
{
    let ghost all = line_views(lines@);
    if lines.len() == 0 {
        return "目前没有相关的操作记录。".to_string();
    }
    // Whether everything fits: the lengths are added up until they pass the budget.
    let mut total: usize = 0;
    let mut fits = true;
    let mut i: usize = 0;
    proof {
        assert(concat(all.take(0)) =~= Seq::<char>::empty());
    }
    while i < lines.len()
        invariant_except_break
            fits,
            total == concat(all.take(i as int)).len(),
            total <= max_chars,
        invariant
            i <= lines.len(),
            all == line_views(lines@),
        ensures
            fits ==> i == lines.len() && total == concat(all.take(i as int)).len() && total
                <= max_chars,
            !fits ==> concat(all).len() > max_chars,
        decreases lines.len() - i,
    {
        let n = lines[i].text.as_str().unicode_len();
        proof {
            lemma_concat_take(all, i as int);
            lemma_concat_monotone(all, i + 1);
        }
        if n > max_chars - total {
            fits = false;
            break ;
        }
        total = total + n;
        i += 1;
    }
    proof {
        if fits {
            assert(all.take(lines.len() as int) =~= all);
        }
    }
    let mut out = String::new();
    if fits {
        let mut j: usize = 0;
        while j < lines.len()
            invariant
                j <= lines.len(),
                all == line_views(lines@),
                out@ == concat(all.take(j as int)),
            decreases lines.len() - j,
        {
            proof {
                lemma_concat_take(all, j as int);
            }
            out.append(lines[j].text.as_str());
            j += 1;
        }
        proof {
            assert(all.take(lines.len() as int) =~= all);
        }
        return out;
    }
    let mut kept: usize = 0;
    proof {
        lemma_fitting(all, max_chars - MARKER_CHARS);
        assert(all.skip(0) =~= all);
    }
    if max_chars >= MARKER_CHARS {
        let mut left: usize = max_chars - MARKER_CHARS;
        while kept < lines.len()
            invariant
                kept <= lines.len(),
                all == line_views(lines@),
                out@ == concat(all.take(kept as int)),
                fitting(all, max_chars - MARKER_CHARS) == kept + fitting(
                    all.skip(kept as int),
                    left as int,
                ),
                fitting(all, max_chars - MARKER_CHARS) < all.len(),
            ensures
                kept == fitting(all, max_chars - MARKER_CHARS),
            decreases lines.len() - kept,
        {
            let n = lines[kept].text.as_str().unicode_len();
            proof {
                assert(all.skip(kept as int)[0] == all[kept as int]);
                assert(all.skip(kept as int).drop_first() =~= all.skip(kept + 1));
            }
            if n > left {
                break ;
            }
            proof {
                lemma_concat_take(all, kept as int);
            }
            out.append(lines[kept].text.as_str());
            left = left - n;
            kept += 1;
        }
    }
    proof {
        assert(kept == fitting(all, max_chars - MARKER_CHARS));
    }
    if lines[kept].is_detail {
        out.append("  ...(细节已省略)\n");
    } else {
        out.append("...(更多记录已省略)\n");
    }
    out
}

impl SearchResult {
    /// The context of the result within `max_chars` characters. It is never
    /// empty, and with a budget of thirteen characters or more it keeps to
    /// the budget.
    pub fn build_context(&self, max_chars: usize, include_detail: bool) -> (out: String)
        ensures
            out@ == context_of(self@, max_chars as int, include_detail),
            out@.len() > 0,
            max_chars >= MARKER_CHARS ==> out@.len() <= max_chars,
    {
        proof {
            lemma_context_within_budget(self@, max_chars as int, include_detail);
        }
        let lines = context_lines(self, include_detail);
        render_lines(&lines, max_chars)
    }
}

// ---------------------------------------------------------------------------
// The last few minutes
// ---------------------------------------------------------------------------

/// What stands for a context without records.
pub open spec fn no_context() -> Seq<char> {
    "（无）"@
}

/// The records that are not older than the cutoff, in the order in which they are kept.
pub open spec fn since(records: Seq<RecordView>, cutoff: Seq<char>) -> Seq<RecordView>
    decreases records.len(),
{
    if records.len() == 0 {
        Seq::empty()
    } else if lex_le(cutoff, records.last().timestamp) {
        since(records.drop_last(), cutoff).push(records.last())
    } else {
        since(records.drop_last(), cutoff)
    }
}

/// How many records a recent context holds: as many as asked for, but one at
/// least and a hundred at most.
pub open spec fn item_limit(max_items: usize) -> nat {
    if max_items < 1 {
        1
    } else if max_items > 100 {
        100
    } else {
        max_items as nat
    }
}

/// The last `n` of the records, or all of them where there are fewer.
pub open spec fn last_n(records: Seq<RecordView>, n: nat) -> Seq<RecordView> {
    if records.len() <= n {
        records
    } else {
        records.subrange(records.len() - n, records.len() as int)
    }
}

/// The application of a record in brackets, or nothing where it is not known.
pub open spec fn app_tag(app: Seq<char>) -> Seq<char> {
    if app.len() == 0 || app == "Unknown"@ {
        Seq::empty()
    } else {
        " ["@ + app + "]"@
    }
}

/// The entry of one record in a recent context.
pub open spec fn recent_entry(r: RecordView, with_detail: bool) -> Seq<char> {
    "- "@ + time_of_day(r.timestamp) + app_tag(r.app) + " "@ + r.summary + if with_detail
        && r.detail.len() > 0 {
        "\n  细节: "@ + flatten_lines(r.detail)
    } else {
        Seq::empty()
    }
}

/// The entries of the records; those from position `detail_start` on carry their detail.
pub open spec fn recent_entries(records: Seq<RecordView>, detail_start: int) -> Seq<Seq<char>> {
    Seq::new(records.len(), |i: int| recent_entry(records[i], i >= detail_start))
}

/// The recent context: the records since the cutoff, the last few of them,
/// one entry each, the last `detail_limit` of these with their detail.
pub open spec fn recent_context(
    records: Seq<RecordView>,
    cutoff: Seq<char>,
    max_items: usize,
    detail_limit: usize,
) -> Seq<char> {
    let recent = since(records, cutoff);
    if recent.len() == 0 {
        no_context()
    } else {
        let shown = last_n(recent, item_limit(max_items));
        let detailed = if detail_limit <= item_limit(max_items) {
            detail_limit as nat
        } else {
            item_limit(max_items)
        };
        let detail_start = if shown.len() <= detailed {
            0
        } else {
            shown.len() - detailed
        };
        crate::text::join(recent_entries(shown, detail_start), "\n"@)
    }
}

fn entry_of(r: &SummaryRecord, with_detail: bool) -> (out: String)
    ensures
        out@ == recent_entry(r@, with_detail),
{
    let mut out = "- ".to_string();
    out.append(part_of_time(r.timestamp.as_str(), 11, 19).as_str());
    if !(r.app.as_str().is_empty() || crate::text::same_str(r.app.as_str(), "Unknown")) {
        out.append(" [");
        out.append(r.app.as_str());
        out.append("]");
        proof {
            assert(out@ =~= "- "@ + time_of_day(r@.timestamp) + (" ["@ + r@.app + "]"@));
        }
    } else {
        proof {
            assert(out@ =~= "- "@ + time_of_day(r@.timestamp) + Seq::<char>::empty());
        }
    }
    out.append(" ");
    out.append(r.summary.as_str());
    if with_detail && !r.detail.as_str().is_empty() {
        out.append("\n  细节: ");
        out.append(flattened(r.detail.as_str()).as_str());
        proof {
            assert(out@ =~= recent_entry(r@, with_detail));
        }
    } else {
        proof {
            assert(out@ =~= recent_entry(r@, with_detail));
        }
    }
    out
}

/// The recent context of a day's records.
pub fn build_recent_summary_context(
    records: &Vec<SummaryRecord>,
    cutoff: &str,
    max_items: usize,
    detail_limit: usize,
) -> (out: String)
    ensures
        out@ == recent_context(record_views(records@), cutoff@, max_items, detail_limit),
{
    let ghost all = record_views(records@);
    let limit = chars_of(cutoff);
    // The positions of the records since the cutoff.
    let mut recent: Vec<usize> = Vec::new();
    let mut i: usize = 0;
    proof {
        assert(Seq::<RecordView>::new(0, |k: int| all[recent@[k] as int]) =~= since(
            all.take(0),
            cutoff@,
        ));
    }
    while i < records.len()
        invariant
            i <= records.len(),
            all == record_views(records@),
            limit@ == cutoff@,
            forall|k: int| 0 <= k < recent@.len() ==> recent@[k] < i,
            Seq::<RecordView>::new(recent@.len(), |k: int| all[recent@[k] as int]) == since(
                all.take(i as int),
                cutoff@,
            ),
        decreases records.len() - i,
    {
        proof {
            assert(all.take(i + 1).drop_last() == all.take(i as int));
            assert(all.take(i + 1).last() == all[i as int]);
        }
        let stamp = chars_of(records[i].timestamp.as_str());
        if text_le(&limit, &stamp) {
            let ghost before = recent@;
            recent.push(i);
            proof {
                assert(Seq::<RecordView>::new(recent@.len(), |k: int| all[recent@[k] as int])
                    =~= Seq::<RecordView>::new(before.len(), |k: int| all[before[k] as int]).push(
                    all[i as int],
                ));
            }
        }
        i += 1;
    }
    proof {
        assert(all.take(records.len() as int) == all);
    }
    let ghost found = since(all, cutoff@);
    if recent.len() == 0 {
        return "（无）".to_string();
    }
    let items: usize = if max_items < 1 {
        1
    } else if max_items > 100 {
        100
    } else {
        max_items
    };
    let detailed: usize = if detail_limit <= items {
        detail_limit
    } else {
        items
    };
    let from: usize = if recent.len() <= items {
        0
    } else {
        recent.len() - items
    };
    let found_len: usize = recent.len();
    let shown_len: usize = found_len - from;
    let detail_start: usize = if shown_len <= detailed {
        0
    } else {
        shown_len - detailed
    };
    let ghost shown = last_n(found, item_limit(max_items));
    proof {
        assert(shown.len() == shown_len);
        assert forall|k: int| 0 <= k < shown_len implies shown[k] == all[recent@[from + k] as int] by {
            assert(found[from + k] == all[recent@[from + k] as int]);
        }
    }
    let mut entries: Vec<String> = Vec::new();
    let mut j: usize = 0;
    while j < shown_len
        invariant
            j <= shown_len,
            from <= found_len,
            found_len == recent@.len(),
            shown_len == found_len - from,
            shown.len() == shown_len,
            all == record_views(records@),
            forall|k: int| 0 <= k < recent@.len() ==> recent@[k] < records@.len(),
            forall|k: int| 0 <= k < shown_len ==> shown[k] == all[recent@[from + k] as int],
            entries@.len() == j,
            forall|k: int|
                0 <= k < j ==> entries@[k]@ == recent_entry(shown[k], k >= detail_start),
        decreases shown_len - j,
    {
        let r = &records[recent[from + j]];
        entries.push(entry_of(r, j >= detail_start));
        j += 1;
    }
    proof {
        assert(crate::text::views(entries@) =~= recent_entries(shown, detail_start as int));
    }
    crate::text::joined(&entries, "\n")
}

} // verus!
