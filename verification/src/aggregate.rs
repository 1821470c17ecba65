//! Batches of records, summed up.
//!
//! Each time the number of a day's records reaches a multiple of the batch
//! size, the most recent batch is summed up in one aggregate: its span of
//! time, the applications and tags seen most often, its first distinct
//! activities, and what went wrong.

use vstd::prelude::*;
use vstd::string::StringExecFns;
use crate::records::{
    aggregate_views, copy_record, record_views, AggregateView, AggregatedRecord, DailySummary,
    DayView, RecordView, SummaryRecord,
};
use crate::text::{join, joined, same_str, views};

verus! {

/// How many records make a batch.
pub const BATCH_SIZE: usize = 300;

/// How many applications an aggregate names.
pub const TOP_APPS: usize = 3;

/// How many tags an aggregate names.
pub const TOP_KEYWORDS: usize = 10;

/// How many activities an aggregate names.
pub const MAIN_ACTIVITIES: usize = 5;

// ---------------------------------------------------------------------------
// Ranking by frequency
// ---------------------------------------------------------------------------

/// How often `x` stands in `items`.
pub open spec fn count_of(items: Seq<Seq<char>>, x: Seq<char>) -> nat
    decreases items.len(),
{
    if items.len() == 0 {
        0
    } else {
        count_of(items.drop_last(), x) + if items.last() == x {
            1nat
        } else {
            0nat
        }
    }
}

/// The items without repetitions, each where it is first seen.
pub open spec fn distinct(items: Seq<Seq<char>>) -> Seq<Seq<char>>
    decreases items.len(),
{
    if items.len() == 0 {
        Seq::empty()
    } else if distinct(items.drop_last()).contains(items.last()) {
        distinct(items.drop_last())
    } else {
        distinct(items.drop_last()).push(items.last())
    }
}

/// The position in `candidates` of the candidate that stands most often in
/// `items`; of several that stand equally often, the first.
pub open spec fn best_index(items: Seq<Seq<char>>, candidates: Seq<Seq<char>>) -> int
    decreases candidates.len(),
{
    if candidates.len() <= 1 {
        0
    } else {
        let b = best_index(items, candidates.drop_last());
        if count_of(items, candidates.last()) > count_of(items, candidates[b]) {
            candidates.len() - 1
        } else {
            b
        }
    }
}

/// The `k` candidates that stand most often in `items`, the most frequent
/// first; candidates that stand equally often keep their order.
pub open spec fn top(items: Seq<Seq<char>>, candidates: Seq<Seq<char>>, k: nat) -> Seq<Seq<char>>
    decreases k,
{
    if k == 0 || candidates.len() == 0 {
        Seq::empty()
    } else {
        let b = best_index(items, candidates);
        seq![candidates[b]] + top(items, candidates.remove(b), (k - 1) as nat)
    }
}

/// The `k` most frequent of `items`, the most frequent first; items that are
/// equally frequent stand in the order in which they are first seen.
pub open spec fn top_ranked(items: Seq<Seq<char>>, k: nat) -> Seq<Seq<char>> {
    top(items, distinct(items), k)
}

/// `x` is first seen in `items` before `y` is.
pub open spec fn seen_before(items: Seq<Seq<char>>, x: Seq<char>, y: Seq<char>) -> bool {
    exists|p: int|
        0 <= p < items.len() && #[trigger] items[p] == x && forall|q: int|
            0 <= q <= p ==> #[trigger] items[q] != y
}

/// `x` stands before `y` in `list`.
pub open spec fn precedes(list: Seq<Seq<char>>, x: Seq<char>, y: Seq<char>) -> bool {
    exists|p: int, q: int|
        0 <= p < q < list.len() && #[trigger] list[p] == x && #[trigger] list[q] == y
}

/// `x` ranks above `y`: it stands more often in `items`, or as often and is seen first.
pub open spec fn outranks(items: Seq<Seq<char>>, x: Seq<char>, y: Seq<char>) -> bool {
    count_of(items, x) > count_of(items, y) || (count_of(items, x) == count_of(items, y)
        && seen_before(items, x, y))
}

/// `x` ranks above `y` among the candidates `list`: it stands more often in
/// `items`, or as often and before `y` in the list.
pub open spec fn ranks_above(
    items: Seq<Seq<char>>,
    list: Seq<Seq<char>>,
    x: Seq<char>,
    y: Seq<char>,
) -> bool {
    count_of(items, x) > count_of(items, y) || (count_of(items, x) == count_of(items, y)
        && precedes(list, x, y))
}

/// The distinct items are the items, each once, in the order in which they
/// are first seen.
pub proof fn lemma_distinct(items: Seq<Seq<char>>)
    ensures
        distinct(items).no_duplicates(),
        forall|x: Seq<char>| #[trigger] distinct(items).contains(x) <==> items.contains(x),
        forall|x: Seq<char>, y: Seq<char>|
            #[trigger] precedes(distinct(items), x, y) ==> seen_before(items, x, y),
    decreases items.len(),
{
    if items.len() == 0 {
    } else {
        let init = items.drop_last();
        let last = items.last();
        let d = distinct(init);
        lemma_distinct(init);
        assert forall|x: Seq<char>| distinct(items).contains(x) <==> items.contains(x) by {
            if items.contains(x) {
                let i = choose|i: int| 0 <= i < items.len() && items[i] == x;
                if i < init.len() {
                    assert(init[i] == x);
                    assert(init.contains(x));
                    assert(d.contains(x));
                    let j = choose|j: int| 0 <= j < d.len() && d[j] == x;
                    assert(distinct(items)[j] == x);
                } else {
                    assert(x == last);
                    if d.contains(last) {
                    } else {
                        assert(distinct(items)[d.len() as int] == last);
                    }
                }
            }
            if distinct(items).contains(x) {
                let j = choose|j: int| 0 <= j < distinct(items).len() && distinct(items)[j] == x;
                if j < d.len() {
                    assert(d[j] == x);
                    assert(d.contains(x));
                    assert(init.contains(x));
                    let i = choose|i: int| 0 <= i < init.len() && init[i] == x;
                    assert(items[i] == x);
                } else {
                    assert(items[items.len() - 1] == x);
                }
            }
        }
        assert forall|x: Seq<char>, y: Seq<char>|
            precedes(distinct(items), x, y) implies seen_before(items, x, y) by {
            let (p, q) = choose|p: int, q: int|
                0 <= p < q < distinct(items).len() && #[trigger] distinct(items)[p] == x
                    && #[trigger] distinct(items)[q] == y;
            if q < d.len() {
                assert(d[p] == x && d[q] == y);
                assert(precedes(d, x, y));
                assert(seen_before(init, x, y));
                let w = choose|w: int|
                    0 <= w < init.len() && #[trigger] init[w] == x && forall|v: int|
                        0 <= v <= w ==> #[trigger] init[v] != y;
                assert(items[w] == x);
                assert forall|v: int| 0 <= v <= w implies #[trigger] items[v] != y by {
                    assert(init[v] != y);
                }
            } else {
                // `y` is the last item and was not seen before; `x` was
                assert(y == last && !d.contains(last));
                assert(d[p] == x);
                assert(d.contains(x));
                assert(init.contains(x));
                let w = choose|w: int| 0 <= w < init.len() && init[w] == x;
                assert(items[w] == x);
                assert forall|v: int| 0 <= v <= w implies #[trigger] items[v] != y by {
                    if items[v] == y {
                        assert(init[v] == y);
                        assert(init.contains(y));
                    }
                }
            }
        }
    }
}

/// The best candidate stands at least as often as every other, and more
/// often than every candidate before it.
pub proof fn lemma_best_index(items: Seq<Seq<char>>, candidates: Seq<Seq<char>>)
    requires
        candidates.len() > 0,
    ensures
        0 <= best_index(items, candidates) < candidates.len(),
        forall|j: int|
            0 <= j < candidates.len() ==> count_of(items, #[trigger] candidates[j]) <= count_of(
                items,
                candidates[best_index(items, candidates)],
            ),
        forall|j: int|
            0 <= j < best_index(items, candidates) ==> count_of(items, #[trigger] candidates[j])
                < count_of(items, candidates[best_index(items, candidates)]),
    decreases candidates.len(),
{
    if candidates.len() > 1 {
        let init = candidates.drop_last();
        lemma_best_index(items, init);
        let b = best_index(items, init);
        assert(init[b] == candidates[b]);
        assert forall|j: int| 0 <= j < candidates.len() implies count_of(
            items,
            #[trigger] candidates[j],
        ) <= count_of(items, candidates[best_index(items, candidates)]) by {
            if j < init.len() {
                assert(init[j] == candidates[j]);
            }
        }
        assert forall|j: int| 0 <= j < best_index(items, candidates) implies count_of(
            items,
            #[trigger] candidates[j],
        ) < count_of(items, candidates[best_index(items, candidates)]) by {
            assert(init[j] == candidates[j]);
        }
    }
}

/// The chosen candidates are candidates, each once, as many as asked for or
/// all there are. Each ranks above those chosen after it and above every
/// candidate that was not chosen.
pub proof fn lemma_top(items: Seq<Seq<char>>, candidates: Seq<Seq<char>>, k: nat)
    requires
        candidates.no_duplicates(),
    ensures
        top(items, candidates, k).len() == if k <= candidates.len() {
            k
        } else {
            candidates.len()
        },
        top(items, candidates, k).no_duplicates(),
        forall|i: int|
            0 <= i < top(items, candidates, k).len() ==> candidates.contains(
                #[trigger] top(items, candidates, k)[i],
            ),
        forall|i: int, j: int|
            0 <= i < j < top(items, candidates, k).len() ==> ranks_above(
                items,
                candidates,
                #[trigger] top(items, candidates, k)[i],
                #[trigger] top(items, candidates, k)[j],
            ),
        forall|i: int, c: Seq<char>|
            #![trigger top(items, candidates, k)[i], candidates.contains(c)]
            0 <= i < top(items, candidates, k).len() && candidates.contains(c) && !top(
                items,
                candidates,
                k,
            ).contains(c) ==> ranks_above(items, candidates, top(items, candidates, k)[i], c),
    decreases k,
{
    if k == 0 || candidates.len() == 0 {
    } else {
        let b = best_index(items, candidates);
        lemma_best_index(items, candidates);
        let x = candidates[b];
        let rest = candidates.remove(b);
        let tail = top(items, rest, (k - 1) as nat);
        let r = top(items, candidates, k);
        assert(r == seq![x] + tail);
        // what is left are the other candidates, in their order
        assert(rest.no_duplicates()) by {
            assert forall|i: int, j: int| 0 <= i < rest.len() && 0 <= j < rest.len() && i
                != j implies rest[i] != rest[j] by {
                let ci = if i < b { i } else { i + 1 };
                let cj = if j < b { j } else { j + 1 };
                assert(rest[i] == candidates[ci] && rest[j] == candidates[cj]);
            }
        }
        assert forall|c: Seq<char>| rest.contains(c) <==> (candidates.contains(c) && c != x) by {
            if rest.contains(c) {
                let i = choose|i: int| 0 <= i < rest.len() && rest[i] == c;
                let ci = if i < b { i } else { i + 1 };
                assert(candidates[ci] == c);
            }
            if candidates.contains(c) && c != x {
                let ci = choose|ci: int| 0 <= ci < candidates.len() && candidates[ci] == c;
                let i = if ci < b { ci } else { ci - 1 };
                assert(rest[i] == c);
            }
        }
        assert forall|u: Seq<char>, v: Seq<char>| precedes(rest, u, v) implies precedes(
            candidates,
            u,
            v,
        ) by {
            let (p, q) = choose|p: int, q: int|
                0 <= p < q < rest.len() && #[trigger] rest[p] == u && #[trigger] rest[q] == v;
            let cp = if p < b { p } else { p + 1 };
            let cq = if q < b { q } else { q + 1 };
            assert(candidates[cp] == u && candidates[cq] == v);
        }
        // the best candidate ranks above every other
        assert forall|c: Seq<char>| candidates.contains(c) && c != x implies ranks_above(
            items,
            candidates,
            x,
            c,
        ) by {
            let j = choose|j: int| 0 <= j < candidates.len() && candidates[j] == c;
            assert(count_of(items, candidates[j]) <= count_of(items, x));
            if j < b {
                assert(count_of(items, candidates[j]) < count_of(items, x));
            } else {
                assert(candidates[b] == x && candidates[j] == c);
            }
        }
        lemma_top(items, rest, (k - 1) as nat);
        assert forall|i: int| 0 <= i < r.len() implies candidates.contains(#[trigger] r[i]) by {
            if i == 0 {
                assert(candidates[b] == x);
            } else {
                assert(r[i] == tail[i - 1]);
                assert(rest.contains(tail[i - 1]));
            }
        }
        assert(r.no_duplicates()) by {
            assert forall|i: int, j: int| 0 <= i < r.len() && 0 <= j < r.len() && i != j implies r[i]
                != r[j] by {
                if i > 0 {
                    assert(r[i] == tail[i - 1]);
                    assert(rest.contains(tail[i - 1]));
                }
                if j > 0 {
                    assert(r[j] == tail[j - 1]);
                    assert(rest.contains(tail[j - 1]));
                }
            }
        }
        assert forall|i: int, j: int| 0 <= i < j < r.len() implies ranks_above(
            items,
            candidates,
            #[trigger] r[i],
            #[trigger] r[j],
        ) by {
            assert(r[j] == tail[j - 1]);
            assert(rest.contains(tail[j - 1]));
            if i > 0 {
                assert(r[i] == tail[i - 1]);
                assert(ranks_above(items, rest, tail[i - 1], tail[j - 1]));
            }
        }
        assert forall|i: int, c: Seq<char>|
            #![trigger r[i], candidates.contains(c)]
            0 <= i < r.len() && candidates.contains(c) && !r.contains(c) implies ranks_above(
            items,
            candidates,
            r[i],
            c,
        ) by {
            assert(r[0] == x);
            assert(c != x);
            if i > 0 {
                assert(r[i] == tail[i - 1]);
                if tail.contains(c) {
                    let t = choose|t: int| 0 <= t < tail.len() && tail[t] == c;
                    assert(r[t + 1] == c);
                }
                assert(ranks_above(items, rest, tail[i - 1], c));
            }
        }
    }
}

/// The ranking of `items` names items, each once, as many as asked for or
/// all that are distinct. Each ranks above those named after it and above
/// every item that is not named: it stands more often, or as often and is
/// seen first.
pub proof fn lemma_top_ranked(items: Seq<Seq<char>>, k: nat)
    ensures
        top_ranked(items, k).len() == if k <= distinct(items).len() {
            k
        } else {
            distinct(items).len()
        },
        top_ranked(items, k).no_duplicates(),
        forall|i: int|
            0 <= i < top_ranked(items, k).len() ==> items.contains(#[trigger] top_ranked(items, k)[i]),
        forall|i: int, j: int|
            0 <= i < j < top_ranked(items, k).len() ==> outranks(
                items,
                #[trigger] top_ranked(items, k)[i],
                #[trigger] top_ranked(items, k)[j],
            ),
        forall|i: int, c: Seq<char>|
            #![trigger top_ranked(items, k)[i], items.contains(c)]
            0 <= i < top_ranked(items, k).len() && items.contains(c) && !top_ranked(
                items,
                k,
            ).contains(c) ==> outranks(items, top_ranked(items, k)[i], c),
{
    let d = distinct(items);
    let r = top_ranked(items, k);
    lemma_distinct(items);
    lemma_top(items, d, k);
    assert forall|i: int| 0 <= i < r.len() implies items.contains(#[trigger] r[i]) by {
        assert(d.contains(r[i]));
    }
    assert forall|i: int, j: int| 0 <= i < j < r.len() implies outranks(
        items,
        #[trigger] r[i],
        #[trigger] r[j],
    ) by {
        assert(ranks_above(items, d, r[i], r[j]));
    }
    assert forall|i: int, c: Seq<char>|
        #![trigger r[i], items.contains(c)]
        0 <= i < r.len() && items.contains(c) && !r.contains(c) implies outranks(
        items,
        r[i],
        c,
    ) by {
        assert(d.contains(c));
        assert(ranks_above(items, d, r[i], c));
    }
}

/// Whether `x` is one of `items`.
pub fn holds(items: &Vec<String>, x: &String) -> (r: bool)
    ensures
        r == views(items@).contains(x@),
{
    let mut i: usize = 0;
    while i < items.len()
        invariant
            i <= items.len(),
            forall|j: int| 0 <= j < i ==> views(items@)[j] != x@,
        decreases items.len() - i,
    {
        if items[i] == *x {
            proof {
                assert(views(items@)[i as int] == x@);
            }
            return true;
        }
        i += 1;
    }
    false
}

/// How often `x` stands in `items`.
pub fn count_in(items: &Vec<String>, x: &String) -> (n: usize)
    ensures
        n == count_of(views(items@), x@),
{
    let mut n: usize = 0;
    let mut i: usize = 0;
    while i < items.len()
        invariant
            i <= items.len(),
            n <= i,
            n == count_of(views(items@).take(i as int), x@),
        decreases items.len() - i,
    {
        proof {
            assert(views(items@).take(i + 1).drop_last() == views(items@).take(i as int));
            assert(views(items@).take(i + 1).last() == items@[i as int]@);
        }
        if items[i] == *x {
            n += 1;
        }
        i += 1;
    }
    proof {
        assert(views(items@).take(items.len() as int) == views(items@));
    }
    n
}

/// The items without repetitions, each where it is first seen.
pub fn distinct_items(items: &Vec<String>) -> (out: Vec<String>)
    ensures
        views(out@) == distinct(views(items@)),
{
    let mut out: Vec<String> = Vec::new();
    let mut i: usize = 0;
    proof {
        assert(views(out@) =~= distinct(views(items@).take(0)));
    }
    while i < items.len()
        invariant
            i <= items.len(),
            views(out@) == distinct(views(items@).take(i as int)),
        decreases items.len() - i,
    {
        proof {
            assert(views(items@).take(i + 1).drop_last() == views(items@).take(i as int));
            assert(views(items@).take(i + 1).last() == items@[i as int]@);
        }
        if !holds(&out, &items[i]) {
            let ghost before = views(out@);
            out.push(items[i].clone());
            proof {
                assert(views(out@) =~= before.push(items@[i as int]@));
            }
        }
        i += 1;
    }
    proof {
        assert(views(items@).take(items.len() as int) == views(items@));
    }
    out
}

fn best_position(counts: &Vec<usize>, Ghost(items): Ghost<Seq<Seq<char>>>, Ghost(candidates): Ghost<
    Seq<Seq<char>>,
>) -> (b: usize)
    requires
        counts@.len() == candidates.len(),
        counts@.len() > 0,
        forall|j: int| 0 <= j < counts@.len() ==> counts@[j] == count_of(items, candidates[j]),
    ensures
        b == best_index(items, candidates),
        b < counts@.len(),
{
    let mut b: usize = 0;
    let mut j: usize = 1;
    proof {
        assert(candidates.take(1).len() == 1);
    }
    while j < counts.len()
        invariant
            1 <= j <= counts@.len(),
            counts@.len() == candidates.len(),
            b < j,
            b == best_index(items, candidates.take(j as int)),
            forall|t: int| 0 <= t < counts@.len() ==> counts@[t] == count_of(items, candidates[t]),
        decreases counts.len() - j,
    {
        proof {
            assert(candidates.take(j + 1).drop_last() == candidates.take(j as int));
            assert(candidates.take(j + 1).last() == candidates[j as int]);
            assert(candidates.take(j + 1)[b as int] == candidates[b as int]);
        }
        if counts[j] > counts[b] {
            b = j;
        }
        j += 1;
    }
    proof {
        assert(candidates.take(counts@.len() as int) == candidates);
    }
    b
}

/// The `k` most frequent of `items`.
pub fn ranked(items: &Vec<String>, k: usize) -> (out: Vec<String>)
    ensures
        views(out@) == top_ranked(views(items@), k as nat),
{
    let mut candidates = distinct_items(items);
    let mut counts: Vec<usize> = Vec::new();
    let mut i: usize = 0;
    while i < candidates.len()
        invariant
            i <= candidates.len(),
            counts@.len() == i,
            forall|j: int|
                0 <= j < i ==> counts@[j] == count_of(views(items@), views(candidates@)[j]),
        decreases candidates.len() - i,
    {
        let n = count_in(items, &candidates[i]);
        counts.push(n);
        i += 1;
    }
    let mut out: Vec<String> = Vec::new();
    let mut taken: usize = 0;
    proof {
        assert(views(out@) + top(views(items@), views(candidates@), k as nat) =~= top_ranked(
            views(items@),
            k as nat,
        ));
    }
    while taken < k && candidates.len() > 0
        invariant
            taken <= k,
            counts@.len() == candidates@.len(),
            forall|j: int|
                0 <= j < counts@.len() ==> counts@[j] == count_of(
                    views(items@),
                    views(candidates@)[j],
                ),
            views(out@) + top(views(items@), views(candidates@), (k - taken) as nat) == top_ranked(
                views(items@),
                k as nat,
            ),
        decreases candidates.len(),
    {
        let ghost before_out = views(out@);
        let ghost before = views(candidates@);
        let b = best_position(&counts, Ghost(views(items@)), Ghost(views(candidates@)));
        let chosen = candidates.remove(b);
        let _ = counts.remove(b);
        out.push(chosen);
        taken += 1;
        proof {
            assert(views(candidates@) =~= before.remove(b as int));
            assert(views(out@) =~= before_out.push(before[b as int]));
            assert(before_out + (seq![before[b as int]] + top(
                views(items@),
                before.remove(b as int),
                (k - taken) as nat,
            )) =~= before_out.push(before[b as int]) + top(
                views(items@),
                before.remove(b as int),
                (k - taken) as nat,
            ));
        }
    }
    proof {
        assert(views(out@) + Seq::<Seq<char>>::empty() =~= views(out@));
    }
    out
}

// ---------------------------------------------------------------------------
// What a batch holds
// ---------------------------------------------------------------------------

/// The applications of the records, one per record.
pub open spec fn apps_of(records: Seq<RecordView>) -> Seq<Seq<char>> {
    Seq::new(records.len(), |i: int| records[i].app)
}

/// The summaries of the records, one per record.
pub open spec fn summaries_of(records: Seq<RecordView>) -> Seq<Seq<char>> {
    Seq::new(records.len(), |i: int| records[i].summary)
}

/// The tags of the records, record after record.
pub open spec fn keywords_of(records: Seq<RecordView>) -> Seq<Seq<char>>
    decreases records.len(),
{
    if records.len() == 0 {
        Seq::empty()
    } else {
        keywords_of(records.drop_last()) + records.last().keywords
    }
}

/// The record tells of something that went wrong.
pub open spec fn is_failure(record: RecordView) -> bool {
    record.action == "error"@ || record.action == "issue"@
}

/// The summaries of the records that tell of something that went wrong.
pub open spec fn failures_of(records: Seq<RecordView>) -> Seq<Seq<char>>
    decreases records.len(),
{
    if records.len() == 0 {
        Seq::empty()
    } else if is_failure(records.last()) {
        failures_of(records.drop_last()).push(records.last().summary)
    } else {
        failures_of(records.drop_last())
    }
}

/// One of the records tells of something that went wrong.
pub open spec fn any_failure(records: Seq<RecordView>) -> bool
    decreases records.len(),
{
    records.len() > 0 && (is_failure(records.last()) || any_failure(records.drop_last()))
}

/// The first `n` of `items`, or all of them where there are fewer.
pub open spec fn first_n(items: Seq<Seq<char>>, n: nat) -> Seq<Seq<char>> {
    if items.len() <= n {
        items
    } else {
        items.take(n as int)
    }
}

/// The sentence that sums up a batch.
pub open spec fn batch_sentence(apps: Seq<Seq<char>>, activities: Seq<Seq<char>>) -> Seq<char> {
    "使用 "@ + join(apps, "、"@) + " 进行了 "@ + (if activities.len() > 0 {
        activities[0]
    } else {
        "未知"@
    }) + " 等操作"@
}

/// The aggregate of a batch of records, the earliest first.
pub open spec fn aggregate_of(records: Seq<RecordView>) -> AggregateView {
    let apps = top_ranked(apps_of(records), TOP_APPS as nat);
    let activities = first_n(distinct(summaries_of(records)), MAIN_ACTIVITIES as nat);
    AggregateView {
        start_time: if records.len() > 0 {
            records.first().timestamp
        } else {
            Seq::empty()
        },
        end_time: if records.len() > 0 {
            records.last().timestamp
        } else {
            Seq::empty()
        },
        summary: batch_sentence(apps, activities),
        apps,
        main_activities: activities,
        keywords: top_ranked(keywords_of(records), TOP_KEYWORDS as nat),
        record_count: records.len() as u32,
        has_errors: any_failure(records),
        error_summary: if any_failure(records) {
            Some(join(failures_of(records), "; "@))
        } else {
            None
        },
    }
}

/// There are failures to tell of exactly when one of the records tells of one.
pub proof fn lemma_failures(records: Seq<RecordView>)
    ensures
        any_failure(records) <==> failures_of(records).len() > 0,
    decreases records.len(),
{
    if records.len() > 0 {
        lemma_failures(records.drop_last());
    }
}

fn first_items(items: Vec<String>, n: usize) -> (out: Vec<String>)
    ensures
        views(out@) == first_n(views(items@), n as nat),
{
    if items.len() <= n {
        return items;
    }
    let mut out = items;
    let ghost before = views(out@);
    out.truncate(n);
    proof {
        assert(views(out@) =~= before.take(n as int));
    }
    out
}

/// The aggregate of a batch of records, the earliest first.
pub fn aggregate_records(records: &Vec<SummaryRecord>) -> (a: AggregatedRecord)
    requires
        records@.len() <= u32::MAX,
    ensures
        a@ == aggregate_of(record_views(records@)),
{
    let ghost all = record_views(records@);
    let mut apps: Vec<String> = Vec::new();
    let mut summaries: Vec<String> = Vec::new();
    let mut keywords: Vec<String> = Vec::new();
    let mut failures: Vec<String> = Vec::new();
    let mut has_errors = false;
    let mut i: usize = 0;
    proof {
        assert(views(apps@) =~= apps_of(all.take(0)));
        assert(views(summaries@) =~= summaries_of(all.take(0)));
        assert(views(keywords@) =~= keywords_of(all.take(0)));
        assert(views(failures@) =~= failures_of(all.take(0)));
    }
    while i < records.len()
        invariant
            i <= records.len(),
            all == record_views(records@),
            views(apps@) == apps_of(all.take(i as int)),
            views(summaries@) == summaries_of(all.take(i as int)),
            views(keywords@) == keywords_of(all.take(i as int)),
            views(failures@) == failures_of(all.take(i as int)),
            has_errors == any_failure(all.take(i as int)),
        decreases records.len() - i,
    {
        let record = &records[i];
        let ghost apps_before = views(apps@);
        let ghost summaries_before = views(summaries@);
        proof {
            assert(all.take(i + 1).drop_last() == all.take(i as int));
            assert(all.take(i + 1).last() == record@);
        }
        apps.push(record.app.clone());
        summaries.push(record.summary.clone());
        proof {
            assert(views(apps@) =~= apps_before.push(record@.app));
            assert(apps_of(all.take(i + 1)) =~= apps_before.push(record@.app));
            assert(views(summaries@) =~= summaries_before.push(record@.summary));
            assert(summaries_of(all.take(i + 1)) =~= summaries_before.push(record@.summary));
        }
        let mut j: usize = 0;
        let ghost keywords_before = views(keywords@);
        proof {
            assert(keywords_before + record@.keywords.take(0) =~= keywords_before);
        }
        while j < record.keywords.len()
            invariant
                j <= record.keywords.len(),
                views(keywords@) == keywords_before + record@.keywords.take(j as int),
            decreases record.keywords.len() - j,
        {
            let ghost kw_before = views(keywords@);
            keywords.push(record.keywords[j].clone());
            proof {
                assert(views(keywords@) =~= kw_before.push(record.keywords@[j as int]@));
                assert(record@.keywords.take(j + 1) =~= record@.keywords.take(j as int).push(
                    record.keywords@[j as int]@,
                ));
                assert(views(keywords@) =~= keywords_before + record@.keywords.take(j + 1));
            }
            j += 1;
        }
        proof {
            assert(record@.keywords.take(record.keywords.len() as int) == record@.keywords);
        }
        if same_str(record.action.as_str(), "error") || same_str(record.action.as_str(), "issue") {
            has_errors = true;
            let ghost failures_before = views(failures@);
            failures.push(record.summary.clone());
            proof {
                assert(views(failures@) =~= failures_before.push(record@.summary));
            }
        }
        i += 1;
    }
    proof {
        assert(all.take(records.len() as int) == all);
    }
    let top_apps = ranked(&apps, TOP_APPS);
    let top_keywords = ranked(&keywords, TOP_KEYWORDS);
    let activities = first_items(distinct_items(&summaries), MAIN_ACTIVITIES);
    let mut summary = "使用 ".to_string();
    summary.append(joined(&top_apps, "、").as_str());
    summary.append(" 进行了 ");
    if activities.len() > 0 {
        summary.append(activities[0].as_str());
    } else {
        summary.append("未知");
    }
    summary.append(" 等操作");
    let start_time = if records.len() > 0 {
        records[0].timestamp.clone()
    } else {
        String::new()
    };
    let end_time = if records.len() > 0 {
        records[records.len() - 1].timestamp.clone()
    } else {
        String::new()
    };
    let error_summary = if has_errors {
        Some(joined(&failures, "; "))
    } else {
        None
    };
    AggregatedRecord {
        start_time,
        end_time,
        summary,
        apps: top_apps,
        main_activities: activities,
        keywords: top_keywords,
        record_count: records.len() as u32,
        has_errors,
        error_summary,
    }
}

// ---------------------------------------------------------------------------
// A day grows
// ---------------------------------------------------------------------------

/// The most recent batch of a day's records, the earliest first.
pub open spec fn latest_batch(records: Seq<RecordView>) -> Seq<RecordView> {
    if records.len() <= BATCH_SIZE {
        records
    } else {
        records.subrange(records.len() - BATCH_SIZE, records.len() as int)
    }
}

/// The day after one more record: the record is added, and where that makes
/// the number of records a multiple of the batch size, the aggregate of the
/// most recent batch is added too.
pub open spec fn day_with(day: DayView, record: RecordView) -> DayView {
    let records = day.records.push(record);
    DayView {
        date: day.date,
        records,
        aggregated: if records.len() % (BATCH_SIZE as nat) == 0 {
            day.aggregated.push(aggregate_of(latest_batch(records)))
        } else {
            day.aggregated
        },
        day_summary: day.day_summary,
    }
}

/// The day after some more records, one after the other.
pub open spec fn day_with_all(day: DayView, records: Seq<RecordView>) -> DayView
    decreases records.len(),
{
    if records.len() == 0 {
        day
    } else {
        day_with(day_with_all(day, records.drop_last()), records.last())
    }
}

/// Records are kept in the order in which they come, and aggregates are only added.
pub proof fn lemma_day_grows(day: DayView, records: Seq<RecordView>)
    ensures
        day_with_all(day, records).date == day.date,
        day_with_all(day, records).records == day.records + records,
        day_with_all(day, records).aggregated.len() >= day.aggregated.len(),
        day_with_all(day, records).aggregated.take(day.aggregated.len() as int) == day.aggregated,
    decreases records.len(),
{
    if records.len() == 0 {
        assert(day.records + records =~= day.records);
        assert(day.aggregated.take(day.aggregated.len() as int) =~= day.aggregated);
    } else {
        lemma_day_grows(day, records.drop_last());
        let before = day_with_all(day, records.drop_last());
        assert(before.records.push(records.last()) =~= day.records + records);
        assert(day_with(before, records.last()).aggregated.take(day.aggregated.len() as int)
            =~= before.aggregated.take(day.aggregated.len() as int));
    }
}

/// A day that starts empty holds one aggregate for every full batch of
/// records, and each aggregate counts a full batch.
pub proof fn lemma_one_aggregate_per_batch(day: DayView, records: Seq<RecordView>)
    requires
        day.records.len() == 0,
        day.aggregated.len() == 0,
    ensures
        day_with_all(day, records).aggregated.len() == records.len() / (BATCH_SIZE as nat),
        forall|i: int|
            0 <= i < day_with_all(day, records).aggregated.len() ==> (#[trigger] day_with_all(
                day,
                records,
            ).aggregated[i]).record_count == BATCH_SIZE,
    decreases records.len(),
{
    if records.len() > 0 {
        lemma_one_aggregate_per_batch(day, records.drop_last());
        lemma_day_grows(day, records.drop_last());
        let before = day_with_all(day, records.drop_last());
        assert(before.records =~= records.drop_last());
        let grown = before.records.push(records.last());
        assert(grown.len() == records.len());
        if records.len() % (BATCH_SIZE as nat) == 0 {
            assert(latest_batch(grown).len() == BATCH_SIZE);
        }
    }
}

/// A batch's worth of records on an empty day makes exactly one aggregate,
/// which counts them all; one record fewer makes none.
pub proof fn lemma_first_batch(day: DayView, records: Seq<RecordView>)
    requires
        day.records.len() == 0,
        day.aggregated.len() == 0,
    ensures
        records.len() == BATCH_SIZE ==> day_with_all(day, records).aggregated.len() == 1
            && day_with_all(day, records).aggregated[0].record_count == BATCH_SIZE,
        records.len() < BATCH_SIZE ==> day_with_all(day, records).aggregated.len() == 0,
{
    lemma_one_aggregate_per_batch(day, records);
}

/// Adds the aggregate of the most recent batch to a day.
pub fn trigger_aggregation(daily: &mut DailySummary)
    ensures
        final(daily)@.date == old(daily)@.date,
        final(daily)@.records == old(daily)@.records,
        final(daily)@.day_summary == old(daily)@.day_summary,
        final(daily)@.aggregated == if old(daily)@.records.len() == 0 {
            old(daily)@.aggregated
        } else {
            old(daily)@.aggregated.push(aggregate_of(latest_batch(old(daily)@.records)))
        },
{
    let n = daily.records.len();
    if n == 0 {
        return ;
    }
    let from: usize = if n <= BATCH_SIZE {
        0
    } else {
        n - BATCH_SIZE
    };
    let mut batch: Vec<SummaryRecord> = Vec::new();
    let mut i: usize = from;
    let ghost all = record_views(daily.records@);
    proof {
        assert(record_views(batch@) =~= all.subrange(from as int, from as int));
    }
    while i < n
        invariant
            from <= i <= n,
            n == daily.records@.len(),
            all == record_views(daily.records@),
            batch@.len() == i - from,
            record_views(batch@) == all.subrange(from as int, i as int),
        decreases n - i,
    {
        let ghost before = record_views(batch@);
        batch.push(copy_record(&daily.records[i]));
        proof {
            assert(record_views(batch@) =~= before.push(all[i as int]));
            assert(all.subrange(from as int, i + 1) =~= before.push(all[i as int]));
        }
        i += 1;
    }
    proof {
        assert(all.subrange(0, n as int) == all);
    }
    let aggregate = aggregate_records(&batch);
    let ghost before = aggregate_views(daily.aggregated@);
    daily.aggregated.push(aggregate);
    proof {
        assert(aggregate_views(daily.aggregated@) =~= before.push(aggregate@));
    }
}

/// Adds a record to a day, and the aggregate that is due with it.
pub fn append_record(daily: &mut DailySummary, record: &SummaryRecord)
    ensures
        final(daily)@ == day_with(old(daily)@, record@),
{
    let ghost before = record_views(daily.records@);
    daily.records.push(copy_record(record));
    proof {
        assert(record_views(daily.records@) =~= before.push(record@));
    }
    if daily.records.len() % BATCH_SIZE == 0 {
        trigger_aggregation(daily);
    }
}

} // verus!
