//! Looking things up again.
//!
//! A query names a span of time and, if it likes, some keywords. Short spans
//! are answered from the records themselves, long ones from the aggregates.
//! What is found can be written out as a text that keeps to a budget of
//! characters, for the analyzer to read.

use vstd::prelude::*;
use vstd::string::StringExecFns;
use crate::records::{
    aggregate_views, copy_aggregate, copy_record, record_views, AggregateView,
    AggregatedRecord, DailySummary, DayView, RecordView, SummaryRecord,
};
use crate::storage::StorageManager;
use crate::text::{
    chars_of, contains, find_in, join, joined, lex_le, text_le, unicode_lowercase, views,
};

verus! {

/// The span of time that a query asks for.
#[derive(Debug, Clone, Copy, PartialEq, Eq)]
pub enum TimeRange {
    /// The last so many minutes.
    Recent(u32),
    /// The present day.
    Today,
    /// The last so many days, the present day being the first.
    Days(u32),
}

/// What is asked for.
#[derive(Debug, Clone)]
pub struct SearchQuery {
    pub time_range: TimeRange,
    pub keywords: Vec<String>,
    pub include_detail: bool,
}

/// What was found.
#[derive(Debug, Clone)]
pub struct SearchResult {
    pub records: Vec<SummaryRecord>,
    pub aggregated: Vec<AggregatedRecord>,
    /// Which tier answered.
    pub source: String,
}

/// How many of the latest records answer a query for the present day.
pub const LATEST_RECORDS: usize = 20;

// ---------------------------------------------------------------------------
// Keywords
// ---------------------------------------------------------------------------

/// The text of a record in which keywords are looked for.
pub open spec fn search_text(r: RecordView) -> Seq<char> {
    r.summary + " "@ + r.app + " "@ + r.detail + " "@ + join(r.keywords, " "@)
}

/// One of the keywords, in lowercase, stands in `lower`.
pub open spec fn any_keyword_in(lower: Seq<char>, keywords: Seq<Seq<char>>) -> bool {
    exists|i: int|
        0 <= i < keywords.len() && contains(lower, unicode_lowercase(#[trigger] keywords[i]))
}

/// The record answers the keywords: there are none, or one of them stands in
/// the record's text, letters compared without regard to case.
pub open spec fn answers(keywords: Seq<Seq<char>>, r: RecordView) -> bool {
    keywords.len() == 0 || any_keyword_in(unicode_lowercase(search_text(r)), keywords)
}

/// The text of a record in which keywords are looked for.
pub fn searchable_text(record: &SummaryRecord) -> (out: String)
    ensures
        out@ == search_text(record@),
{
    let mut out = record.summary.clone();
    out.append(" ");
    out.append(record.app.as_str());
    out.append(" ");
    out.append(record.detail.as_str());
    out.append(" ");
    out.append(joined(&record.keywords, " ").as_str());
    out
}

/// Whether one of the keywords, in lowercase, stands in `lower`.
pub fn holds_any_keyword(lower: &str, keywords: &Vec<String>) -> (r: bool)
    ensures
        r == any_keyword_in(lower@, views(keywords@)),
{
    let text = chars_of(lower);
    let mut i: usize = 0;
    while i < keywords.len()
        invariant
            i <= keywords.len(),
            text@ == lower@,
            forall|j: int|
                0 <= j < i ==> !contains(lower@, unicode_lowercase(#[trigger] views(keywords@)[j])),
        decreases keywords.len() - i,
    {
        let needle = keywords[i].as_str().to_lowercase();
        let n = chars_of(needle.as_str());
        if find_in(&text, &n).is_some() {
            proof {
                assert(views(keywords@)[i as int] == keywords@[i as int]@);
            }
            return true;
        }
        proof {
            assert(views(keywords@)[i as int] == keywords@[i as int]@);
        }
        i += 1;
    }
    false
}

impl SearchQuery {
    /// Whether a record answers the keywords of the query.
    pub fn matches_keywords(&self, record: &SummaryRecord) -> (r: bool)
        ensures
            r == answers(views(self.keywords@), record@),
    {
        if self.keywords.len() == 0 {
            return true;
        }
        let text = searchable_text(record).as_str().to_lowercase();
        holds_any_keyword(text.as_str(), &self.keywords)
    }
}

// ---------------------------------------------------------------------------
// Searching
// ---------------------------------------------------------------------------

/// The record is asked for: it is not older than the cutoff, where there is
/// one, and it answers the keywords.
pub open spec fn in_scope(r: RecordView, cutoff: Option<Seq<char>>, keywords: Seq<Seq<char>>) -> bool {
    (match cutoff {
        Some(c) => lex_le(c, r.timestamp),
        None => true,
    }) && answers(keywords, r)
}

/// The records that are asked for, in the order in which they are kept.
pub open spec fn selected(
    records: Seq<RecordView>,
    cutoff: Option<Seq<char>>,
    keywords: Seq<Seq<char>>,
) -> Seq<RecordView>
    decreases records.len(),
{
    if records.len() == 0 {
        Seq::empty()
    } else if in_scope(records.last(), cutoff, keywords) {
        selected(records.drop_last(), cutoff, keywords).push(records.last())
    } else {
        selected(records.drop_last(), cutoff, keywords)
    }
}

/// The latest `n` records, the latest first.
pub open spec fn latest_first(records: Seq<RecordView>, n: nat) -> Seq<RecordView> {
    Seq::new(
        if records.len() <= n {
            records.len()
        } else {
            n
        },
        |i: int| records[records.len() - 1 - i],
    )
}

/// The aggregates of the first `n` days, day after day.
pub open spec fn aggregates_of_days(days: Seq<DayView>, n: nat) -> Seq<AggregateView>
    decreases n,
{
    if n == 0 || n > days.len() {
        Seq::empty()
    } else {
        aggregates_of_days(days, (n - 1) as nat) + days[n - 1].aggregated
    }
}

/// A search result, as contracts see it.
pub struct ResultView {
    pub records: Seq<RecordView>,
    pub aggregated: Seq<AggregateView>,
    pub source: Seq<char>,
}

impl View for SearchResult {
    type V = ResultView;

    open spec fn view(&self) -> ResultView {
        ResultView {
            records: record_views(self.records@),
            aggregated: aggregate_views(self.aggregated@),
            source: self.source@,
        }
    }
}

/// The records of the present day: those of the first day that is handed in.
pub open spec fn todays_records(days: Seq<DayView>) -> Seq<RecordView> {
    if days.len() > 0 {
        days[0].records
    } else {
        Seq::empty()
    }
}

/// The aggregates of the present day.
pub open spec fn todays_aggregates(days: Seq<DayView>) -> Seq<AggregateView> {
    if days.len() > 0 {
        days[0].aggregated
    } else {
        Seq::empty()
    }
}

/// How many of the days that are handed in a query for `n` days reads.
pub open spec fn days_read(days: Seq<DayView>, n: u32) -> nat {
    if n <= days.len() {
        n as nat
    } else {
        days.len()
    }
}

/// The answer to a query. `days` are the stored days, the present day first;
/// `cutoff` is the time before which a query for recent minutes looks at nothing.
pub open spec fn answer_to(
    range: TimeRange,
    keywords: Seq<Seq<char>>,
    days: Seq<DayView>,
    cutoff: Seq<char>,
) -> ResultView {
    match range {
        TimeRange::Recent(_) => ResultView {
            records: selected(todays_records(days), Some(cutoff), keywords),
            aggregated: Seq::empty(),
            source: "原始记录"@,
        },
        TimeRange::Today => if keywords.len() > 0 {
            ResultView {
                records: selected(todays_records(days), None, keywords),
                aggregated: Seq::empty(),
                source: "关键词搜索"@,
            }
        } else {
            ResultView {
                records: latest_first(todays_records(days), LATEST_RECORDS as nat),
                aggregated: todays_aggregates(days),
                source: "聚合记录"@,
            }
        },
        TimeRange::Days(n) => ResultView {
            records: Seq::empty(),
            aggregated: aggregates_of_days(days, days_read(days, n)),
            source: "历史聚合"@,
        },
    }
}

/// The views of a list of days.
pub open spec fn day_views(days: Seq<DailySummary>) -> Seq<DayView> {
    Seq::new(days.len(), |i: int| days[i]@)
}

/// A query for no days at all finds nothing.
pub proof fn lemma_no_days_nothing(keywords: Seq<Seq<char>>, days: Seq<DayView>, cutoff: Seq<char>)
    ensures
        answer_to(TimeRange::Days(0), keywords, days, cutoff).records.len() == 0,
        answer_to(TimeRange::Days(0), keywords, days, cutoff).aggregated.len() == 0,
{
}

fn select_records(
    records: &Vec<SummaryRecord>,
    query: &SearchQuery,
    cutoff: Option<&Vec<char>>,
) -> (out: Vec<SummaryRecord>)
    ensures
        record_views(out@) == selected(
            record_views(records@),
            match cutoff {
                Some(c) => Some(c@),
                None => None,
            },
            views(query.keywords@),
        ),
{
    let ghost all = record_views(records@);
    let ghost limit = match cutoff {
        Some(c) => Some(c@),
        None => None,
    };
    let mut out: Vec<SummaryRecord> = Vec::new();
    let mut i: usize = 0;
    proof {
        assert(record_views(out@) =~= selected(all.take(0), limit, views(query.keywords@)));
    }
    while i < records.len()
        invariant
            i <= records.len(),
            all == record_views(records@),
            limit == (match cutoff {
                Some(c) => Some(c@),
                None => None,
            }),
            record_views(out@) == selected(all.take(i as int), limit, views(query.keywords@)),
        decreases records.len() - i,
    {
        let record = &records[i];
        proof {
            assert(all.take(i + 1).drop_last() == all.take(i as int));
            assert(all.take(i + 1).last() == record@);
        }
        let recent = match cutoff {
            Some(c) => {
                let stamp = chars_of(record.timestamp.as_str());
                text_le(c, &stamp)
            },
            None => true,
        };
        if recent && query.matches_keywords(record) {
            let ghost before = record_views(out@);
            out.push(copy_record(record));
            proof {
                assert(record_views(out@) =~= before.push(record@));
            }
        }
        i += 1;
    }
    proof {
        assert(all.take(records.len() as int) == all);
    }
    out
}

fn latest_records(records: &Vec<SummaryRecord>, n: usize) -> (out: Vec<SummaryRecord>)
    ensures
        record_views(out@) == latest_first(record_views(records@), n as nat),
{
    let len = records.len();
    let count: usize = if len <= n {
        len
    } else {
        n
    };
    let mut out: Vec<SummaryRecord> = Vec::new();
    let mut i: usize = 0;
    while i < count
        invariant
            i <= count <= len,
            len == records@.len(),
            out@.len() == i,
            forall|j: int| 0 <= j < i ==> out@[j]@ == records@[len - 1 - j]@,
        decreases count - i,
    {
        out.push(copy_record(&records[len - 1 - i]));
        i += 1;
    }
    proof {
        assert(record_views(out@) =~= latest_first(record_views(records@), n as nat));
    }
    out
}

fn copy_aggregates_into(out: &mut Vec<AggregatedRecord>, more: &Vec<AggregatedRecord>)
    ensures
        aggregate_views(final(out)@) == aggregate_views(old(out)@) + aggregate_views(more@),
{
    let ghost before = aggregate_views(out@);
    let mut i: usize = 0;
    proof {
        assert(before + aggregate_views(more@).take(0) =~= before);
    }
    while i < more.len()
        invariant
            i <= more.len(),
            aggregate_views(out@) == before + aggregate_views(more@).take(i as int),
        decreases more.len() - i,
    {
        let ghost so_far = aggregate_views(out@);
        out.push(copy_aggregate(&more[i]));
        proof {
            assert(aggregate_views(out@) =~= so_far.push(more@[i as int]@));
            assert(aggregate_views(more@).take(i + 1) =~= aggregate_views(more@).take(
                i as int,
            ).push(more@[i as int]@));
            assert(aggregate_views(out@) =~= before + aggregate_views(more@).take(i + 1));
        }
        i += 1;
    }
    proof {
        assert(aggregate_views(more@).take(more.len() as int) =~= aggregate_views(more@));
    }
}

impl StorageManager {
    /// Answers a query from the stored days. `days` holds what is stored, the
    /// present day first, then the day before it, and so on; a day of which
    /// nothing is stored is handed in empty. `cutoff` is the time before
    /// which a query for recent minutes looks at nothing.
    pub fn smart_search(&self, query: &SearchQuery, days: &Vec<DailySummary>, cutoff: &str) -> (result:
        SearchResult)
        ensures
            result@ == answer_to(
                query.time_range,
                views(query.keywords@),
                day_views(days@),
                cutoff@,
            ),
    {
        let ghost stored = day_views(days@);
        match query.time_range {
            TimeRange::Recent(_) => {
                let limit = chars_of(cutoff);
                let records = if days.len() > 0 {
                    select_records(&days[0].records, query, Some(&limit))
                } else {
                    let none: Vec<SummaryRecord> = Vec::new();
                    proof {
                        assert(record_views(none@) =~= Seq::<RecordView>::empty());
                    }
                    none
                };
                let result = SearchResult {
                    records,
                    aggregated: Vec::new(),
                    source: "原始记录".to_string(),
                };
                proof {
                    assert(result@.aggregated =~= Seq::<AggregateView>::empty());
                }
                result
            },
            TimeRange::Today => {
                if query.keywords.len() > 0 {
                    let records = if days.len() > 0 {
                        select_records(&days[0].records, query, None)
                    } else {
                        let none: Vec<SummaryRecord> = Vec::new();
                        proof {
                            assert(record_views(none@) =~= Seq::<RecordView>::empty());
                        }
                        none
                    };
                    let result = SearchResult {
                        records,
                        aggregated: Vec::new(),
                        source: "关键词搜索".to_string(),
                    };
                    proof {
                        assert(result@.aggregated =~= Seq::<AggregateView>::empty());
                    }
                    result
                } else {
                    let mut aggregated: Vec<AggregatedRecord> = Vec::new();
                    let records = if days.len() > 0 {
                        proof {
                            assert(aggregate_views(aggregated@) + stored[0].aggregated
                                =~= stored[0].aggregated);
                        }
                        copy_aggregates_into(&mut aggregated, &days[0].aggregated);
                        latest_records(&days[0].records, LATEST_RECORDS)
                    } else {
                        let none: Vec<SummaryRecord> = Vec::new();
                        proof {
                            assert(record_views(none@) =~= latest_first(
                                Seq::<RecordView>::empty(),
                                LATEST_RECORDS as nat,
                            ));
                            assert(aggregate_views(aggregated@) =~= Seq::<AggregateView>::empty());
                        }
                        none
                    };
                    SearchResult { records, aggregated, source: "聚合记录".to_string() }
                }
            },
            TimeRange::Days(n) => {
                let mut aggregated: Vec<AggregatedRecord> = Vec::new();
                let count: usize = if (n as usize) <= days.len() {
                    n as usize
                } else {
                    days.len()
                };
                let mut i: usize = 0;
                proof {
                    assert(aggregate_views(aggregated@) =~= aggregates_of_days(stored, 0));
                }
                while i < count
                    invariant
                        i <= count <= days.len(),
                        stored == day_views(days@),
                        aggregate_views(aggregated@) == aggregates_of_days(stored, i as nat),
                    decreases count - i,
                {
                    copy_aggregates_into(&mut aggregated, &days[i].aggregated);
                    i += 1;
                }
                let result = SearchResult {
                    records: Vec::new(),
                    aggregated,
                    source: "历史聚合".to_string(),
                };
                proof {
                    assert(result@.records =~= Seq::<RecordView>::empty());
                }
                result
            },
        }
    }
}

} // verus!
