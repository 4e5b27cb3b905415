//! Folding finer samples into one coarser sample (minute to hour, hour to day).
use vstd::prelude::*;
use crate::metrics::row::{MetricRecord, sort_by_time, sort_rows};
use crate::time::UtcTime;

verus! {

/// Why no aggregated sample could be built.
#[derive(Clone, Copy, Debug, PartialEq, Eq, Structural)]
pub enum AggregateError {
    /// There were no finer samples in the window.
    NoSamples,
}

/// Column `i` of every sample of `rows`.
pub open spec fn column<R: MetricRecord>(rows: Seq<R>, i: int) -> Seq<Option<u64>> {
    rows.map_values(|r: R| r.values()[i])
}

/// `a + b`, saturating at `u64::MAX`.
pub open spec fn sat_add(a: u64, b: u64) -> u64 {
    if a + b > u64::MAX { u64::MAX } else { (a + b) as u64 }
}

/// Running state of the reset-aware increase of a counter: the sum so far,
/// the previous present value, and whether any two values were compared.
pub open spec fn increase_state(vs: Seq<Option<u64>>) -> (u64, Option<u64>, bool)
    decreases vs.len(),
{
    if vs.len() == 0 {
        (0, None, false)
    } else {
        let (acc, prev, paired) = increase_state(vs.drop_last());
        match vs.last() {
            None => (acc, prev, paired),
            Some(cur) => match prev {
                None => (acc, Some(cur), paired),
                Some(p) => (sat_add(acc, if cur >= p { (cur - p) as u64 } else { cur }), Some(cur), true),
            },
        }
    }
}

/// Reset-aware increase of a counter over the present values: each step adds
/// `cur - prev`, or `cur` where the counter went down (a restart); `None`
/// where fewer than two values are present.
pub open spec fn increase(vs: Seq<Option<u64>>) -> Option<u64> {
    let (acc, _, paired) = increase_state(vs);
    if paired { Some(acc) } else { None }
}

/// Saturating sum of the present values; `None` where none is present.
pub open spec fn sum_present(vs: Seq<Option<u64>>) -> Option<u64>
    decreases vs.len(),
{
    if vs.len() == 0 {
        None
    } else {
        let rest = sum_present(vs.drop_last());
        match vs.last() {
            None => rest,
            Some(v) => match rest {
                None => Some(v),
                Some(a) => Some(sat_add(a, v)),
            },
        }
    }
}

/// Largest present value; `None` where none is present.
pub open spec fn max_present(vs: Seq<Option<u64>>) -> Option<u64>
    decreases vs.len(),
{
    if vs.len() == 0 {
        None
    } else {
        let rest = max_present(vs.drop_last());
        match vs.last() {
            None => rest,
            Some(v) => match rest {
                None => Some(v),
                Some(a) => Some(if a >= v { a } else { v }),
            },
        }
    }
}

/// Exact sum of the present values (absent values count as zero).
pub open spec fn total(vs: Seq<Option<u64>>) -> int
    decreases vs.len(),
{
    if vs.len() == 0 {
        0
    } else {
        total(vs.drop_last()) + match vs.last() {
            Some(v) => v as int,
            None => 0,
        }
    }
}

/// Column `i` of `rows` as a vector.
pub fn column_of<R: MetricRecord>(rows: &Vec<R>, i: usize) -> (out: Vec<Option<u64>>)
    requires
        i < R::width(),
    ensures
        out@ == column::<R>(rows@, i as int),
{
    let mut out: Vec<Option<u64>> = Vec::new();
    let mut k: usize = 0;
    while k < rows.len()
        invariant
            i < R::width(),
            0 <= k <= rows@.len(),
            out@ =~= column::<R>(rows@.take(k as int), i as int),
        decreases rows.len() - k,
    {
        out.push(rows[k].value(i));
        k = k + 1;
    }
    assert(rows@.take(rows@.len() as int) == rows@);
    out
}

/// [`increase`] of `vs`.
pub fn increase_of(vs: &Vec<Option<u64>>) -> (r: Option<u64>)
    ensures
        r == increase(vs@),
{
    let mut acc: u64 = 0;
    let mut prev: Option<u64> = None;
    let mut paired = false;
    let mut k: usize = 0;
    while k < vs.len()
        invariant
            0 <= k <= vs@.len(),
            (acc, prev, paired) == increase_state(vs@.take(k as int)),
        decreases vs.len() - k,
    {
        assert(vs@.take(k + 1).drop_last() == vs@.take(k as int));
        match vs[k] {
            None => {},
            Some(cur) => {
                match prev {
                    None => {},
                    Some(p) => {
                        paired = true;
                        let step = if cur >= p { cur - p } else { cur };
                        acc = acc.saturating_add(step);
                    },
                }
                prev = Some(cur);
            },
        }
        k = k + 1;
    }
    assert(vs@.take(vs@.len() as int) == vs@);
    if paired { Some(acc) } else { None }
}

/// [`sum_present`] of `vs`.
pub fn sum_present_of(vs: &Vec<Option<u64>>) -> (r: Option<u64>)
    ensures
        r == sum_present(vs@),
{
    let mut acc: Option<u64> = None;
    let mut k: usize = 0;
    while k < vs.len()
        invariant
            0 <= k <= vs@.len(),
            acc == sum_present(vs@.take(k as int)),
        decreases vs.len() - k,
    {
        assert(vs@.take(k + 1).drop_last() == vs@.take(k as int));
        match vs[k] {
            None => {},
            Some(v) => {
                acc = match acc {
                    None => Some(v),
                    Some(a) => Some(a.saturating_add(v)),
                };
            },
        }
        k = k + 1;
    }
    assert(vs@.take(vs@.len() as int) == vs@);
    acc
}

/// [`max_present`] of `vs`.
pub fn max_present_of(vs: &Vec<Option<u64>>) -> (r: Option<u64>)
    ensures
        r == max_present(vs@),
{
    let mut acc: Option<u64> = None;
    let mut k: usize = 0;
    while k < vs.len()
        invariant
            0 <= k <= vs@.len(),
            acc == max_present(vs@.take(k as int)),
        decreases vs.len() - k,
    {
        assert(vs@.take(k + 1).drop_last() == vs@.take(k as int));
        match vs[k] {
            None => {},
            Some(v) => {
                acc = match acc {
                    None => Some(v),
                    Some(a) => Some(if a >= v { a } else { v }),
                };
            },
        }
        k = k + 1;
    }
    assert(vs@.take(vs@.len() as int) == vs@);
    acc
}

/// [`total`] of `vs`, which must fit in a `u64`.
pub fn total_of(vs: &Vec<Option<u64>>) -> (r: u64)
    requires
        total(vs@) <= u64::MAX,
    ensures
        r == total(vs@),
{
    let mut acc: u64 = 0;
    let mut k: usize = 0;
    while k < vs.len()
        invariant
            0 <= k <= vs@.len(),
            acc == total(vs@.take(k as int)),
            total(vs@) <= u64::MAX,
        decreases vs.len() - k,
    {
        assert(vs@.take(k + 1).drop_last() == vs@.take(k as int));
        proof {
            lemma_total_prefix(vs@, k + 1);
        }
        match vs[k] {
            None => {},
            Some(v) => {
                acc = acc + v;
            },
        }
        k = k + 1;
    }
    assert(vs@.take(vs@.len() as int) == vs@);
    acc
}

/// The total of a prefix never exceeds the total.
pub proof fn lemma_total_prefix(vs: Seq<Option<u64>>, k: int)
    requires
        0 <= k <= vs.len(),
    ensures
        total(vs.take(k)) <= total(vs),
    decreases vs.len() - k,
{
    if k == vs.len() {
        assert(vs.take(k) == vs);
    } else {
        lemma_total_prefix(vs, k + 1);
        assert(vs.take(k + 1).drop_last() == vs.take(k));
    }
}

// ---------------------------------------------------------------------------
// Pod samples: minute -> hour and hour -> day
// ---------------------------------------------------------------------------

/// How a pod column is folded.
#[derive(Clone, Copy, Debug, PartialEq, Eq, Structural)]
pub enum PodColumnKind {
    /// A level (usage, working set, ...): time-weighted average, computed by the caller.
    Gauge,
    /// A cumulative counter (CPU time, page faults, network traffic).
    Counter,
    /// A supply or capacity snapshot: the largest value.
    Capacity,
}

/// Kind of pod column `i` (in file order).
pub open spec fn pod_kind(i: int) -> PodColumnKind {
    if i == 1 || i == 5 || i == 6 || i == 7 || i == 8 || i == 9 {
        PodColumnKind::Counter
    } else if i == 11 || i == 13 || i == 15 || i == 17 {
        PodColumnKind::Capacity
    } else {
        PodColumnKind::Gauge
    }
}

/// Executable form of [`pod_kind`].
pub fn pod_column_kind(i: usize) -> (k: PodColumnKind)
    ensures
        k == pod_kind(i as int),
{
    if i == 1 || i == 5 || i == 6 || i == 7 || i == 8 || i == 9 {
        PodColumnKind::Counter
    } else if i == 11 || i == 13 || i == 15 || i == 17 {
        PodColumnKind::Capacity
    } else {
        PodColumnKind::Gauge
    }
}

/// Column `i` of the hour sample built from minute samples `rows` (already in
/// time order): the caller's time-weighted average for a gauge, the
/// reset-aware increase for a counter, the largest value for a capacity.
pub open spec fn hour_value<R: MetricRecord>(rows: Seq<R>, gauges: Seq<Option<u64>>, i: int) -> Option<u64> {
    match pod_kind(i) {
        PodColumnKind::Gauge => gauges[i],
        PodColumnKind::Counter => increase(column::<R>(rows, i)),
        PodColumnKind::Capacity => max_present(column::<R>(rows, i)),
    }
}

/// Column `i` of the day sample built from hour samples `rows`: the caller's
/// time-weighted average for a gauge, the saturating sum of the hourly
/// increases for a counter, the largest value for a capacity.
pub open spec fn day_value<R: MetricRecord>(rows: Seq<R>, gauges: Seq<Option<u64>>, i: int) -> Option<u64> {
    match pod_kind(i) {
        PodColumnKind::Gauge => gauges[i],
        PodColumnKind::Counter => sum_present(column::<R>(rows, i)),
        PodColumnKind::Capacity => max_present(column::<R>(rows, i)),
    }
}

/// The hour sample at `end` from minute samples `rows`; `gauges[i]` is the
/// time-weighted average of gauge column `i` over the window.
pub open spec fn hour_sample<R: MetricRecord>(rows: Seq<R>, end: UtcTime, gauges: Seq<Option<u64>>) -> R {
    let sorted = sort_by_time::<R>(rows);
    R::build(end, Seq::new(R::width(), |i: int| hour_value::<R>(sorted, gauges, i)))
}

/// The day sample at `end` from hour samples `rows`.
pub open spec fn day_sample<R: MetricRecord>(rows: Seq<R>, end: UtcTime, gauges: Seq<Option<u64>>) -> R {
    let sorted = sort_by_time::<R>(rows);
    R::build(end, Seq::new(R::width(), |i: int| day_value::<R>(sorted, gauges, i)))
}

/// The hour sample from minute samples is stamped `end`, and, over the
/// samples in time order, holds in each column: the caller's time-weighted
/// average for a gauge, the reset-aware increase for a counter, and the
/// largest value for a capacity. The day sample from hour samples holds the
/// same, but the sum of the hourly increases for a counter.
pub proof fn lemma_pod_sample_columns<R: MetricRecord>(rows: Seq<R>, end: UtcTime, gauges: Seq<Option<u64>>, i: int)
    requires
        gauges.len() == R::width(),
        0 <= i < R::width(),
    ensures
        hour_sample::<R>(rows, end, gauges).time_of() == end,
        day_sample::<R>(rows, end, gauges).time_of() == end,
        pod_kind(i) == PodColumnKind::Gauge ==> hour_sample::<R>(rows, end, gauges).values()[i] == gauges[i]
            && day_sample::<R>(rows, end, gauges).values()[i] == gauges[i],
        pod_kind(i) == PodColumnKind::Counter ==> hour_sample::<R>(rows, end, gauges).values()[i]
            == increase(column::<R>(sort_by_time::<R>(rows), i)),
        pod_kind(i) == PodColumnKind::Counter ==> day_sample::<R>(rows, end, gauges).values()[i]
            == sum_present(column::<R>(sort_by_time::<R>(rows), i)),
        pod_kind(i) == PodColumnKind::Capacity ==> hour_sample::<R>(rows, end, gauges).values()[i]
            == max_present(column::<R>(sort_by_time::<R>(rows), i))
            && day_sample::<R>(rows, end, gauges).values()[i] == max_present(column::<R>(sort_by_time::<R>(rows), i)),
{
    let sorted = sort_by_time::<R>(rows);
    R::lemma_build(end, Seq::new(R::width(), |k: int| hour_value::<R>(sorted, gauges, k)));
    R::lemma_build(end, Seq::new(R::width(), |k: int| day_value::<R>(sorted, gauges, k)));
}

/// Builds the hour sample (`append_row_aggregated` of the hour adapter) or
/// reports that there were no minute samples.
pub fn aggregate_hour<R: MetricRecord>(rows: &Vec<R>, end: UtcTime, gauges: &Vec<Option<u64>>) -> (r: Result<R, AggregateError>)
    requires
        gauges@.len() == R::width(),
    ensures
        rows@.len() == 0 ==> r == Err::<R, AggregateError>(AggregateError::NoSamples),
        rows@.len() > 0 ==> r == Ok::<R, AggregateError>(hour_sample::<R>(rows@, end, gauges@)),
{
    if rows.len() == 0 {
        return Err(AggregateError::NoSamples);
    }
    let sorted = sort_rows(rows);
    let w = R::width_exec();
    let mut vals: Vec<Option<u64>> = Vec::new();
    let mut i: usize = 0;
    while i < w
        invariant
            w == R::width(),
            gauges@.len() == w,
            sorted@ == sort_by_time::<R>(rows@),
            0 <= i <= w,
            vals@ =~= Seq::new(i as nat, |k: int| hour_value::<R>(sorted@, gauges@, k)),
        decreases w - i,
    {
        let v = match pod_column_kind(i) {
            PodColumnKind::Gauge => gauges[i],
            PodColumnKind::Counter => increase_of(&column_of(&sorted, i)),
            PodColumnKind::Capacity => max_present_of(&column_of(&sorted, i)),
        };
        vals.push(v);
        i = i + 1;
    }
    Ok(R::make(end, &vals))
}

/// Builds the day sample (`append_row_aggregated` of the day adapter) or
/// reports that there were no hour samples.
pub fn aggregate_day<R: MetricRecord>(rows: &Vec<R>, end: UtcTime, gauges: &Vec<Option<u64>>) -> (r: Result<R, AggregateError>)
    requires
        gauges@.len() == R::width(),
    ensures
        rows@.len() == 0 ==> r == Err::<R, AggregateError>(AggregateError::NoSamples),
        rows@.len() > 0 ==> r == Ok::<R, AggregateError>(day_sample::<R>(rows@, end, gauges@)),
{
    if rows.len() == 0 {
        return Err(AggregateError::NoSamples);
    }
    let sorted = sort_rows(rows);
    let w = R::width_exec();
    let mut vals: Vec<Option<u64>> = Vec::new();
    let mut i: usize = 0;
    while i < w
        invariant
            w == R::width(),
            gauges@.len() == w,
            sorted@ == sort_by_time::<R>(rows@),
            0 <= i <= w,
            vals@ =~= Seq::new(i as nat, |k: int| day_value::<R>(sorted@, gauges@, k)),
        decreases w - i,
    {
        let v = match pod_column_kind(i) {
            PodColumnKind::Gauge => gauges[i],
            PodColumnKind::Counter => sum_present_of(&column_of(&sorted, i)),
            PodColumnKind::Capacity => max_present_of(&column_of(&sorted, i)),
        };
        vals.push(v);
        i = i + 1;
    }
    Ok(R::make(end, &vals))
}

// ---------------------------------------------------------------------------
// Container samples: hour -> day
// ---------------------------------------------------------------------------

/// How a container column is folded into a day sample.
#[derive(Clone, Copy, Debug, PartialEq, Eq, Structural)]
pub enum ContainerColumnKind {
    /// Integer mean over all hour samples (absent values count as zero).
    Average,
    /// Last minus first value, or the last value where the counter went down.
    Delta,
    /// The value of the last hour sample.
    Last,
}

/// Kind of container column `i` (in file order).
pub open spec fn container_kind(i: int) -> ContainerColumnKind {
    if i == 1 || i == 5 {
        ContainerColumnKind::Delta
    } else if i == 7 || i == 9 {
        ContainerColumnKind::Last
    } else {
        ContainerColumnKind::Average
    }
}

/// Executable form of [`container_kind`].
pub fn container_column_kind(i: usize) -> (k: ContainerColumnKind)
    ensures
        k == container_kind(i as int),
{
    if i == 1 || i == 5 {
        ContainerColumnKind::Delta
    } else if i == 7 || i == 9 {
        ContainerColumnKind::Last
    } else {
        ContainerColumnKind::Average
    }
}

/// Change of a counter between a first and a last value.
pub open spec fn delta(first: Option<u64>, last: Option<u64>) -> Option<u64> {
    match (first, last) {
        (Some(a), Some(b)) => if b >= a { Some((b - a) as u64) } else { Some(b) },
        _ => None,
    }
}

/// Column `i` of the container day sample built from hour samples `rows`
/// (taken in the given order).
pub open spec fn container_day_value<R: MetricRecord>(rows: Seq<R>, i: int) -> Option<u64> {
    match container_kind(i) {
        ContainerColumnKind::Average => Some((total(column::<R>(rows, i)) / (rows.len() as int)) as u64),
        ContainerColumnKind::Delta => delta(rows[0].values()[i], rows.last().values()[i]),
        ContainerColumnKind::Last => rows.last().values()[i],
    }
}

/// The container day sample at `end` from hour samples `rows`.
pub open spec fn container_day_sample<R: MetricRecord>(rows: Seq<R>, end: UtcTime) -> R {
    R::build(end, Seq::new(R::width(), |i: int| container_day_value::<R>(rows, i)))
}

/// Every value of `vs` is present, and they never decrease.
pub open spec fn present_nondecreasing(vs: Seq<Option<u64>>) -> bool {
    &&& forall|i: int| 0 <= i < vs.len() ==> (#[trigger] vs[i]) is Some
    &&& forall|i: int, j: int| 0 <= i <= j < vs.len() ==> vs[i].unwrap() <= vs[j].unwrap()
}

proof fn lemma_increase_state_monotone(vs: Seq<Option<u64>>)
    requires
        vs.len() >= 1,
        present_nondecreasing(vs),
    ensures
        increase_state(vs) == (
            (vs.last().unwrap() - vs[0].unwrap()) as u64,
            Some(vs.last().unwrap()),
            vs.len() >= 2,
        ),
    decreases vs.len(),
{
    if vs.len() > 1 {
        let p = vs.drop_last();
        assert forall|i: int, j: int| 0 <= i <= j < p.len() implies p[i].unwrap() <= p[j].unwrap() by {
            assert(p[i] == vs[i] && p[j] == vs[j]);
        }
        assert forall|i: int| 0 <= i < p.len() implies (#[trigger] p[i]) is Some by {
            assert(p[i] == vs[i]);
        }
        lemma_increase_state_monotone(p);
        assert(p.last() == vs[vs.len() - 2]);
        assert(p[0] == vs[0]);
        assert(vs[vs.len() - 2].unwrap() <= vs.last().unwrap());
        assert(vs[0].unwrap() <= vs[vs.len() - 2].unwrap());
        assert(vs[vs.len() - 1] is Some);
        assert(vs[vs.len() - 2] is Some);
        let prev = vs[vs.len() - 2].unwrap();
        let cur = vs.last().unwrap();
        let acc = (prev - vs[0].unwrap()) as u64;
        assert(acc + (cur - prev) == cur - vs[0].unwrap());
        assert(sat_add(acc, (cur - prev) as u64) == (cur - vs[0].unwrap()) as u64);
        assert(increase_state(p) == (acc, Some(prev), p.len() >= 2));
        assert(vs.last() == Some(cur));
        assert(cur >= prev);
        assert(increase_state(vs) == (sat_add(acc, (cur - prev) as u64), Some(cur), true));
    } else {
        assert(vs.drop_last().len() == 0);
        assert(increase_state(vs.drop_last()) == (0u64, None::<u64>, false));
        assert(vs[0] is Some);
        assert(vs.last() == vs[0]);
        assert(increase_state(vs) == (0u64, Some(vs[0].unwrap()), false));
    }
}

/// A counter whose samples are all present and never go down increases by
/// its last value less its first; with fewer than two samples there is no
/// increase.
pub proof fn lemma_increase_monotone(vs: Seq<Option<u64>>)
    requires
        present_nondecreasing(vs),
    ensures
        vs.len() >= 2 ==> increase(vs) == Some((vs.last().unwrap() - vs[0].unwrap()) as u64),
        vs.len() < 2 ==> increase(vs) is None,
{
    if vs.len() >= 1 {
        lemma_increase_state_monotone(vs);
    }
}

/// The largest present value: it is one of the values, and no present value
/// exceeds it; with no value present there is none.
pub proof fn lemma_max_present(vs: Seq<Option<u64>>)
    ensures
        max_present(vs) matches Some(m) ==> exists|i: int| 0 <= i < vs.len() && vs[i] == Some(m),
        max_present(vs) matches Some(m) ==> forall|i: int| 0 <= i < vs.len() && #[trigger] vs[i] is Some ==> vs[i].unwrap() <= m,
        max_present(vs) is None <==> forall|i: int| 0 <= i < vs.len() ==> #[trigger] vs[i] is None,
    decreases vs.len(),
{
    if vs.len() > 0 {
        let p = vs.drop_last();
        lemma_max_present(p);
        assert forall|i: int| 0 <= i < p.len() implies p[i] == vs[i] by {}
        if max_present(vs) is None {
            assert forall|i: int| 0 <= i < vs.len() implies #[trigger] vs[i] is None by {
                if i < p.len() {
                    assert(p[i] == vs[i]);
                }
            }
        }
        match max_present(vs) {
            Some(m) => {
                match vs.last() {
                    Some(v) => {
                        if max_present(p) is Some && max_present(p).unwrap() >= v {
                            let i = choose|i: int| 0 <= i < p.len() && p[i] == Some(max_present(p).unwrap());
                            assert(vs[i] == p[i]);
                        } else {
                            assert(vs[vs.len() - 1] == Some(m));
                        }
                    },
                    None => {
                        let i = choose|i: int| 0 <= i < p.len() && p[i] == Some(m);
                        assert(vs[i] == p[i]);
                    },
                }
                assert forall|i: int| 0 <= i < vs.len() && #[trigger] vs[i] is Some implies vs[i].unwrap() <= m by {
                    if i < p.len() {
                        assert(p[i] == vs[i]);
                    }
                }
            },
            None => {},
        }
    }
}

/// The sum of the present values where it fits in a `u64` and some value is
/// present; none where no value is present.
pub proof fn lemma_sum_present(vs: Seq<Option<u64>>)
    ensures
        total(vs) <= u64::MAX && (exists|i: int| 0 <= i < vs.len() && #[trigger] vs[i] is Some)
            ==> sum_present(vs) == Some(total(vs) as u64),
        (forall|i: int| 0 <= i < vs.len() ==> #[trigger] vs[i] is None) ==> sum_present(vs) is None,
    decreases vs.len(),
{
    if vs.len() > 0 {
        let p = vs.drop_last();
        lemma_sum_present(p);
        lemma_total_nonneg(p);
        assert forall|i: int| 0 <= i < p.len() implies p[i] == vs[i] by {}
        if (forall|i: int| 0 <= i < vs.len() ==> #[trigger] vs[i] is None) {
            assert(vs[vs.len() - 1] is None);
            assert forall|i: int| 0 <= i < p.len() implies #[trigger] p[i] is None by {
                assert(p[i] == vs[i]);
            }
        }
        if total(vs) <= u64::MAX && (exists|i: int| 0 <= i < vs.len() && #[trigger] vs[i] is Some) {
            if !(exists|i: int| 0 <= i < p.len() && #[trigger] p[i] is Some) {
                assert forall|i: int| 0 <= i < p.len() implies #[trigger] p[i] is None by {}
                lemma_total_none(p);
                let k = choose|i: int| 0 <= i < vs.len() && #[trigger] vs[i] is Some;
                if k < p.len() {
                    assert(p[k] == vs[k]);
                }
            }
        }
    }
}

/// A total of absent values is zero.
proof fn lemma_total_none(vs: Seq<Option<u64>>)
    requires
        forall|i: int| 0 <= i < vs.len() ==> #[trigger] vs[i] is None,
    ensures
        total(vs) == 0,
    decreases vs.len(),
{
    if vs.len() > 0 {
        let p = vs.drop_last();
        assert forall|i: int| 0 <= i < p.len() implies #[trigger] p[i] is None by {
            assert(p[i] == vs[i]);
        }
        assert(vs[vs.len() - 1] is None);
        lemma_total_none(p);
    }
}

/// A total of present values is never negative.
proof fn lemma_total_nonneg(vs: Seq<Option<u64>>)
    ensures
        total(vs) >= 0,
    decreases vs.len(),
{
    if vs.len() > 0 {
        lemma_total_nonneg(vs.drop_last());
    }
}

/// The container day sample from hour samples `rows` is stamped `end`; an
/// average column holds the integer mean of the column's present values over
/// the number of hour samples (`v * n <= total < (v + 1) * n`); a counter
/// column holds the change from the first to the last sample (the last value
/// where the counter went back); a capacity column holds the last sample's
/// value.
pub proof fn lemma_container_day_columns<R: MetricRecord>(rows: Seq<R>, end: UtcTime, i: int)
    requires
        rows.len() > 0,
        0 <= i < R::width(),
        container_sums_fit::<R>(rows),
    ensures
        container_day_sample::<R>(rows, end).time_of() == end,
        container_day_sample::<R>(rows, end).values().len() == R::width(),
        container_kind(i) == ContainerColumnKind::Average ==> container_day_sample::<R>(rows, end).values()[i] is Some,
        container_day_sample::<R>(rows, end).values()[i] matches Some(v) ==> container_kind(i) == ContainerColumnKind::Average
            ==> v * rows.len() <= total(column::<R>(rows, i)) < (v + 1) * rows.len(),
        container_kind(i) == ContainerColumnKind::Delta ==> container_day_sample::<R>(rows, end).values()[i] == (
            match (rows[0].values()[i], rows.last().values()[i]) {
                (Some(a), Some(b)) => if a <= b { Some((b - a) as u64) } else { Some(b) },
                _ => None,
            }),
        container_kind(i) == ContainerColumnKind::Last ==> container_day_sample::<R>(rows, end).values()[i]
            == rows.last().values()[i],
{
    let vals = Seq::new(R::width(), |k: int| container_day_value::<R>(rows, k));
    R::lemma_build(end, vals);
    assert(container_day_sample::<R>(rows, end).values()[i] == container_day_value::<R>(rows, i));
    if container_kind(i) == ContainerColumnKind::Average {
        let t = total(column::<R>(rows, i));
        let n = rows.len() as int;
        lemma_total_nonneg(column::<R>(rows, i));
        assert(t <= u64::MAX);
        let q = t / n;
        assert(q * n <= t < (q + 1) * n && 0 <= q <= t) by (nonlinear_arith)
            requires
                t >= 0,
                n > 0,
                q == t / n,
        {
        }
        assert((q as u64) as int == q);
    }
}

/// The sums behind the averages fit in a `u64` (the aggregation adds them
/// with plain `+=`, which must not overflow).
pub open spec fn container_sums_fit<R: MetricRecord>(rows: Seq<R>) -> bool {
    forall|i: int| 0 <= i < R::width() && container_kind(i) == ContainerColumnKind::Average
        ==> total(#[trigger] column::<R>(rows, i)) <= u64::MAX
}

/// Whether the total of the present values fits in a `u64`.
pub fn total_within_range(vs: &Vec<Option<u64>>) -> (r: bool)
    ensures
        r == (total(vs@) <= u64::MAX),
{
    let mut acc: u64 = 0;
    let mut k: usize = 0;
    while k < vs.len()
        invariant
            0 <= k <= vs@.len(),
            acc == total(vs@.take(k as int)),
        decreases vs.len() - k,
    {
        assert(vs@.take(k + 1).drop_last() == vs@.take(k as int));
        match vs[k] {
            None => {},
            Some(v) => {
                if acc > u64::MAX - v {
                    proof {
                        lemma_total_prefix(vs@, k + 1);
                    }
                    return false;
                }
                acc = acc + v;
            },
        }
        k = k + 1;
    }
    assert(vs@.take(vs@.len() as int) == vs@);
    true
}

/// Whether the sums behind the averages of a container day sample fit in a
/// `u64`: the condition under which [`aggregate_container_day`] can be called.
pub fn container_sums_within_range<R: MetricRecord>(rows: &Vec<R>) -> (r: bool)
    ensures
        r == container_sums_fit::<R>(rows@),
{
    let w = R::width_exec();
    let mut i: usize = 0;
    while i < w
        invariant
            w == R::width(),
            0 <= i <= w,
            forall|k: int| 0 <= k < i && container_kind(k) == ContainerColumnKind::Average
                ==> total(#[trigger] column::<R>(rows@, k)) <= u64::MAX,
        decreases w - i,
    {
        if let ContainerColumnKind::Average = container_column_kind(i) {
            let col = column_of(rows, i);
            if !total_within_range(&col) {
                return false;
            }
        }
        i = i + 1;
    }
    true
}

/// Builds the container day sample (`append_row_aggregated` of the container
/// day adapter) or reports that there were no hour samples.
pub fn aggregate_container_day<R: MetricRecord>(rows: &Vec<R>, end: UtcTime) -> (r: Result<R, AggregateError>)
    requires
        container_sums_fit::<R>(rows@),
    ensures
        rows@.len() == 0 ==> r == Err::<R, AggregateError>(AggregateError::NoSamples),
        rows@.len() > 0 ==> r == Ok::<R, AggregateError>(container_day_sample::<R>(rows@, end)),
{
    let n = rows.len();
    if n == 0 {
        return Err(AggregateError::NoSamples);
    }
    let w = R::width_exec();
    let mut vals: Vec<Option<u64>> = Vec::new();
    let mut i: usize = 0;
    while i < w
        invariant
            w == R::width(),
            n == rows@.len(),
            n > 0,
            container_sums_fit::<R>(rows@),
            0 <= i <= w,
            vals@ =~= Seq::new(i as nat, |k: int| container_day_value::<R>(rows@, k)),
        decreases w - i,
    {
        let v = match container_column_kind(i) {
            ContainerColumnKind::Average => {
                let col = column_of(rows, i);
                assert(total(column::<R>(rows@, i as int)) <= u64::MAX);
                let s = total_of(&col);
                Some(s / (n as u64))
            },
            ContainerColumnKind::Delta => {
                match (rows[0].value(i), rows[n - 1].value(i)) {
                    (Some(a), Some(b)) => if b >= a { Some(b - a) } else { Some(b) },
                    _ => None,
                }
            },
            ContainerColumnKind::Last => rows[n - 1].value(i),
        };
        vals.push(v);
        i = i + 1;
    }
    Ok(R::make(end, &vals))
}

} // verus!
