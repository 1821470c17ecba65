//! The records that are kept: one per analyzed frame, one per batch of
//! frames, and one collection of both per day.

use vstd::prelude::*;
use crate::text::views;

verus! {

/// What one analyzed frame showed.
#[derive(Debug, Clone, PartialEq, Eq)]
pub struct SummaryRecord {
    /// When the frame was taken: date, `T`, time of day to the second.
    pub timestamp: String,
    pub summary: String,
    pub app: String,
    /// `active`, or `issue` where the frame showed one.
    pub action: String,
    pub keywords: Vec<String>,
    pub has_issue: bool,
    pub issue_type: String,
    pub issue_summary: String,
    pub suggestion: String,
    /// In millionths.
    pub confidence: u32,
    pub detail: String,
    /// Where the frame itself is kept; empty where it is not.
    pub detail_ref: String,
}

/// What one batch of frames showed.
#[derive(Debug, Clone, PartialEq, Eq)]
pub struct AggregatedRecord {
    pub start_time: String,
    pub end_time: String,
    pub summary: String,
    pub apps: Vec<String>,
    pub main_activities: Vec<String>,
    pub keywords: Vec<String>,
    pub record_count: u32,
    pub has_errors: bool,
    pub error_summary: Option<String>,
}

/// What one day showed.
#[derive(Debug, Clone, PartialEq, Eq)]
pub struct DailySummary {
    pub date: String,
    pub records: Vec<SummaryRecord>,
    pub aggregated: Vec<AggregatedRecord>,
    pub day_summary: Option<String>,
}

/// A record, as contracts see it.
pub struct RecordView {
    pub timestamp: Seq<char>,
    pub summary: Seq<char>,
    pub app: Seq<char>,
    pub action: Seq<char>,
    pub keywords: Seq<Seq<char>>,
    pub has_issue: bool,
    pub issue_type: Seq<char>,
    pub issue_summary: Seq<char>,
    pub suggestion: Seq<char>,
    pub confidence: u32,
    pub detail: Seq<char>,
    pub detail_ref: Seq<char>,
}

/// An aggregate, as contracts see it.
pub struct AggregateView {
    pub start_time: Seq<char>,
    pub end_time: Seq<char>,
    pub summary: Seq<char>,
    pub apps: Seq<Seq<char>>,
    pub main_activities: Seq<Seq<char>>,
    pub keywords: Seq<Seq<char>>,
    pub record_count: u32,
    pub has_errors: bool,
    pub error_summary: Option<Seq<char>>,
}

/// A day, as contracts see it.
pub struct DayView {
    pub date: Seq<char>,
    pub records: Seq<RecordView>,
    pub aggregated: Seq<AggregateView>,
    pub day_summary: Option<Seq<char>>,
}

/// The view of a string that may be missing.
pub open spec fn optional_view(s: Option<String>) -> Option<Seq<char>> {
    match s {
        Some(t) => Some(t@),
        None => None,
    }
}

impl View for SummaryRecord {
    type V = RecordView;

    open spec fn view(&self) -> RecordView {
        RecordView {
            timestamp: self.timestamp@,
            summary: self.summary@,
            app: self.app@,
            action: self.action@,
            keywords: views(self.keywords@),
            has_issue: self.has_issue,
            issue_type: self.issue_type@,
            issue_summary: self.issue_summary@,
            suggestion: self.suggestion@,
            confidence: self.confidence,
            detail: self.detail@,
            detail_ref: self.detail_ref@,
        }
    }
}

impl View for AggregatedRecord {
    type V = AggregateView;

    open spec fn view(&self) -> AggregateView {
        AggregateView {
            start_time: self.start_time@,
            end_time: self.end_time@,
            summary: self.summary@,
            apps: views(self.apps@),
            main_activities: views(self.main_activities@),
            keywords: views(self.keywords@),
            record_count: self.record_count,
            has_errors: self.has_errors,
            error_summary: optional_view(self.error_summary),
        }
    }
}

/// The views of a list of records.
pub open spec fn record_views(records: Seq<SummaryRecord>) -> Seq<RecordView> {
    Seq::new(records.len(), |i: int| records[i]@)
}

/// The views of a list of aggregates.
pub open spec fn aggregate_views(aggregates: Seq<AggregatedRecord>) -> Seq<AggregateView> {
    Seq::new(aggregates.len(), |i: int| aggregates[i]@)
}

impl View for DailySummary {
    type V = DayView;

    open spec fn view(&self) -> DayView {
        DayView {
            date: self.date@,
            records: record_views(self.records@),
            aggregated: aggregate_views(self.aggregated@),
            day_summary: optional_view(self.day_summary),
        }
    }
}

/// A copy of a list of strings.
pub fn copy_strings(items: &Vec<String>) -> (out: Vec<String>)
    ensures
        views(out@) == views(items@),
{
    let mut out: Vec<String> = Vec::new();
    let mut i: usize = 0;
    while i < items.len()
        invariant
            i <= items.len(),
            out@.len() == i,
            forall|j: int| 0 <= j < i ==> out@[j]@ == items@[j]@,
        decreases items.len() - i,
    {
        out.push(items[i].clone());
        i += 1;
    }
    proof {
        assert(views(out@) =~= views(items@));
    }
    out
}

/// A copy of a string that may be missing.
pub fn copy_optional(s: &Option<String>) -> (out: Option<String>)
    ensures
        optional_view(out) == optional_view(*s),
{
    match s {
        Some(t) => Some(t.clone()),
        None => None,
    }
}

/// A copy of a record.
pub fn copy_record(r: &SummaryRecord) -> (out: SummaryRecord)
    ensures
        out@ == r@,
{
    SummaryRecord {
        timestamp: r.timestamp.clone(),
        summary: r.summary.clone(),
        app: r.app.clone(),
        action: r.action.clone(),
        keywords: copy_strings(&r.keywords),
        has_issue: r.has_issue,
        issue_type: r.issue_type.clone(),
        issue_summary: r.issue_summary.clone(),
        suggestion: r.suggestion.clone(),
        confidence: r.confidence,
        detail: r.detail.clone(),
        detail_ref: r.detail_ref.clone(),
    }
}

/// A copy of an aggregate.
pub fn copy_aggregate(a: &AggregatedRecord) -> (out: AggregatedRecord)
    ensures
        out@ == a@,
{
    AggregatedRecord {
        start_time: a.start_time.clone(),
        end_time: a.end_time.clone(),
        summary: a.summary.clone(),
        apps: copy_strings(&a.apps),
        main_activities: copy_strings(&a.main_activities),
        keywords: copy_strings(&a.keywords),
        record_count: a.record_count,
        has_errors: a.has_errors,
        error_summary: copy_optional(&a.error_summary),
    }
}

impl DailySummary {
    /// A day on which nothing has been seen yet.
    pub fn new(date: &str) -> (day: Self)
        ensures
            day@.date == date@,
            day@.records.len() == 0,
            day@.aggregated.len() == 0,
            day@.day_summary is None,
    {
        DailySummary {
            date: date.to_string(),
            records: Vec::new(),
            aggregated: Vec::new(),
            day_summary: None,
        }
    }
}

} // verus!
