//! The pure side of the metric file adapters: the lines they append, the files
//! they read for a window, how they read and page samples, how they fold finer
//! samples into coarser ones, and which files their cleanup removes.
//!
//! Opening, appending, listing and deleting files is left to the caller, who
//! hands over the lines of each file and the names found in a directory.
use vstd::prelude::*;
use crate::metrics::aggregate::{AggregateError, aggregate_container_day, aggregate_day, aggregate_hour, container_day_sample, container_sums_fit, day_sample, hour_sample};
use crate::metrics::container_entity::MetricContainerEntity;
use crate::metrics::partition::{day_file_expired, hour_file_expired, is_day_file_expired, is_hour_file_expired, months_between, months_from, years_between, years_from};
use crate::metrics::pod_entity::MetricPodEntity;
use crate::metrics::row::{file_views, files_header_panic, files_header_rows, files_plain_rows, files_plain_rows_of, format_row, format_row_spec, parse_row_spec, keep_column_all, keep_column_spec, page, sort_and_page, sort_by_time, try_files_header_rows, MetricRecord};
use crate::text::views;
use crate::time::{four_digit_instant, zero_padded, date_format_text, format_date, utc_year_month, year_month_of, UtcTime};

verus! {

/// Views of optional strings.
pub open spec fn opt_view(s: Option<String>) -> Option<Seq<char>> {
    match s {
        Some(x) => Some(x@),
        None => None,
    }
}

/// Key of the yearly file for `year` (`NaiveDate::format("%Y")` of its first day).
pub open spec fn year_key(year: i32) -> Option<Seq<char>> {
    date_format_text(year, 1, 1, "%Y"@)
}

/// Key of the monthly file for `(year, month)` (`NaiveDate::format("%Y-%m")` of its first day).
pub open spec fn month_key(year: i32, month: u32) -> Option<Seq<char>> {
    date_format_text(year, month, 1, "%Y-%m"@)
}

/// Key of the yearly file that holds instant `t`.
pub open spec fn year_key_of(t: UtcTime) -> Option<Seq<char>> {
    match utc_year_month(t.secs, t.nanos) {
        Some(ym) => year_key(ym.0),
        None => None,
    }
}

/// Key of the monthly file that holds instant `t`.
pub open spec fn month_key_of(t: UtcTime) -> Option<Seq<char>> {
    match utc_year_month(t.secs, t.nanos) {
        Some(ym) => month_key(ym.0, ym.1),
        None => None,
    }
}

/// Keys of the yearly files from the year of `start` to the year of `end`.
pub open spec fn year_keys_between(start: UtcTime, end: UtcTime) -> Option<Seq<Option<Seq<char>>>> {
    match (utc_year_month(start.secs, start.nanos), utc_year_month(end.secs, end.nanos)) {
        (Some(a), Some(b)) => Some(years_from(a.0 as int, b.0 as int).map_values(|y: i32| year_key(y))),
        _ => None,
    }
}

/// Keys of the monthly files from the month of `start` to the month of `end`.
pub open spec fn month_keys_between(start: UtcTime, end: UtcTime) -> Option<Seq<Option<Seq<char>>>> {
    match (utc_year_month(start.secs, start.nanos), utc_year_month(end.secs, end.nanos)) {
        (Some(a), Some(b)) => Some(
            months_from(a.0 as int, a.1 as int, b.0 as int, b.1 as int).map_values(
                |ym: (i32, u32)| month_key(ym.0, ym.1),
            ),
        ),
        _ => None,
    }
}

/// Key of the yearly file for `year`.
pub fn year_file_key(year: i32) -> (k: Option<String>)
    ensures
        opt_view(k) == year_key(year),
        0 <= year <= 9999 ==> opt_view(k) == Some(zero_padded(year as nat, 4)),
{
    let pattern = "%Y";
    format_date(year, 1, 1, pattern)
}

/// Key of the monthly file for `(year, month)`.
pub fn month_file_key(year: i32, month: u32) -> (k: Option<String>)
    ensures
        opt_view(k) == month_key(year, month),
        0 <= year <= 9999 && 1 <= month <= 12
            ==> opt_view(k) == Some(zero_padded(year as nat, 4) + "-"@ + zero_padded(month as nat, 2)),
{
    let pattern = "%Y-%m";
    format_date(year, month, 1, pattern)
}

/// Key of the yearly file that holds `t`.
pub fn year_file_key_of(t: UtcTime) -> (k: Option<String>)
    ensures
        opt_view(k) == year_key_of(t),
{
    match year_month_of(t) {
        Some(ym) => year_file_key(ym.0),
        None => None,
    }
}

/// Key of the monthly file that holds `t`.
pub fn month_file_key_of(t: UtcTime) -> (k: Option<String>)
    ensures
        opt_view(k) == month_key_of(t),
{
    match year_month_of(t) {
        Some(ym) => month_file_key(ym.0, ym.1),
        None => None,
    }
}

/// Keys of the yearly files that a window touches, in order.
pub fn year_file_keys_between(start: UtcTime, end: UtcTime) -> (r: Option<Vec<Option<String>>>)
    ensures
        match r {
            Some(v) => year_keys_between(start, end) == Some(v@.map_values(|k: Option<String>| opt_view(k))),
            None => year_keys_between(start, end) is None,
        },
{
    let (a, b) = match (year_month_of(start), year_month_of(end)) {
        (Some(a), Some(b)) => (a, b),
        _ => {
            return None;
        },
    };
    let years = years_between(a.0, b.0);
    let mut keys: Vec<Option<String>> = Vec::new();
    let mut i: usize = 0;
    while i < years.len()
        invariant
            0 <= i <= years@.len(),
            keys@.map_values(|k: Option<String>| opt_view(k)) =~= years@.take(i as int).map_values(|y: i32| year_key(y)),
        decreases years.len() - i,
    {
        let k = year_file_key(years[i]);
        keys.push(k);
        assert(years@.take(i + 1).map_values(|y: i32| year_key(y))
            =~= years@.take(i as int).map_values(|y: i32| year_key(y)).push(year_key(years@[i as int])));
        i = i + 1;
    }
    assert(years@.take(years@.len() as int) == years@);
    Some(keys)
}

/// Keys of the monthly files that a window touches, in order.
pub fn month_file_keys_between(start: UtcTime, end: UtcTime) -> (r: Option<Vec<Option<String>>>)
    ensures
        match r {
            Some(v) => month_keys_between(start, end) == Some(v@.map_values(|k: Option<String>| opt_view(k))),
            None => month_keys_between(start, end) is None,
        },
{
    let (a, b) = match (year_month_of(start), year_month_of(end)) {
        (Some(a), Some(b)) => (a, b),
        _ => {
            return None;
        },
    };
    let months = months_between(a.0, a.1, b.0, b.1);
    let mut keys: Vec<Option<String>> = Vec::new();
    let mut i: usize = 0;
    while i < months.len()
        invariant
            0 <= i <= months@.len(),
            keys@.map_values(|k: Option<String>| opt_view(k)) =~= months@.take(i as int).map_values(
                |ym: (i32, u32)| month_key(ym.0, ym.1),
            ),
        decreases months.len() - i,
    {
        let (y, m) = months[i];
        let k = month_file_key(y, m);
        keys.push(k);
        assert(months@.take(i + 1).map_values(|ym: (i32, u32)| month_key(ym.0, ym.1))
            =~= months@.take(i as int).map_values(|ym: (i32, u32)| month_key(ym.0, ym.1)).push(
            month_key(y, m),
        ));
        i = i + 1;
    }
    assert(months@.take(months@.len() as int) == months@);
    Some(keys)
}

/// The page of samples in `[start, end]` read from pod files (with their
/// optional header lines), ordered by time.
pub open spec fn pod_window<R: MetricRecord>(
    files: Seq<Seq<Seq<char>>>,
    start: UtcTime,
    end: UtcTime,
    limit: Option<usize>,
    offset: Option<usize>,
) -> Seq<R> {
    page(sort_by_time::<R>(files_header_rows::<R>(files, start, end)), limit, offset)
}

/// Reads a window of pod samples; `None` where a file's header line is too
/// short for a line that matches it (the reader would index past the fields).
fn try_pod_window(
    files: &Vec<Vec<String>>,
    start: UtcTime,
    end: UtcTime,
    limit: Option<usize>,
    offset: Option<usize>,
) -> (r: Option<Vec<MetricPodEntity>>)
    ensures
        r is None <==> files_header_panic::<MetricPodEntity>(file_views(files@), start, end),
        r matches Some(v) ==> v@ == pod_window::<MetricPodEntity>(file_views(files@), start, end, limit, offset),
{
    match try_files_header_rows::<MetricPodEntity>(files, start, end) {
        Some(data) => Some(sort_and_page(&data, limit, offset)),
        None => None,
    }
}

/// Adapter for pod day samples: one file per year.
#[derive(Clone, Copy, Debug)]
pub struct MetricPodDayFsAdapter;

impl MetricPodDayFsAdapter {
    /// `opt`: the text of one optional column.
    pub fn opt(v: Option<u64>) -> (s: String)
        ensures
            s@ == crate::metrics::row::opt_text(v),
    {
        crate::metrics::row::opt(v)
    }

    /// The line `append_row` adds for `dto`.
    /// For a sample of a four-digit year the line exists, and reading it back
    /// under the full header gives the sample with its time cut to whole seconds.
    pub fn row_line(&self, dto: &MetricPodEntity) -> (s: Option<String>)
        ensures
            opt_view(s) == format_row_spec::<MetricPodEntity>(*dto),
            four_digit_instant(dto.time) ==> s is Some,
            s matches Some(x) ==> four_digit_instant(dto.time) ==> parse_row_spec::<MetricPodEntity>(MetricPodEntity::width() + 1, x@.drop_last())
                == Some(MetricPodEntity::build(UtcTime { secs: dto.time.secs, nanos: 0 }, dto.values())),
    {
        format_row(dto)
    }

    /// Key of the file `append_row` writes `dto` to: the year of the sample's own time.
    pub fn file_key_for(&self, dto: &MetricPodEntity) -> (k: Option<String>)
        ensures
            opt_view(k) == year_key_of(dto.time),
    {
        year_file_key_of(dto.time)
    }

    /// Keys of the files `get_row_between` reads for `[start, end]`.
    pub fn file_keys_between(&self, start: UtcTime, end: UtcTime) -> (r: Option<Vec<Option<String>>>)
        ensures
            match r {
                Some(v) => year_keys_between(start, end) == Some(v@.map_values(|k: Option<String>| opt_view(k))),
                None => year_keys_between(start, end) is None,
            },
    {
        year_file_keys_between(start, end)
    }

    /// `get_row_between` over the lines of the files of the window (in key
    /// order); `None` where a short header line would make the reader index
    /// past a line's fields.
    pub fn try_rows_between(
        &self,
        files: &Vec<Vec<String>>,
        start: UtcTime,
        end: UtcTime,
        limit: Option<usize>,
        offset: Option<usize>,
    ) -> (r: Option<Vec<MetricPodEntity>>)
        ensures
            r is None <==> files_header_panic::<MetricPodEntity>(file_views(files@), start, end),
            r matches Some(v) ==> v@ == pod_window::<MetricPodEntity>(file_views(files@), start, end, limit, offset),
    {
        try_pod_window(files, start, end, limit, offset)
    }

    /// `get_row_between` over the lines of the files of the window (in key order).
    pub fn rows_between(
        &self,
        files: &Vec<Vec<String>>,
        start: UtcTime,
        end: UtcTime,
        limit: Option<usize>,
        offset: Option<usize>,
    ) -> (v: Vec<MetricPodEntity>)
        requires
            !files_header_panic::<MetricPodEntity>(file_views(files@), start, end),
        ensures
            v@ == pod_window::<MetricPodEntity>(file_views(files@), start, end, limit, offset),
    {
        match try_pod_window(files, start, end, limit, offset) {
            Some(v) => v,
            None => Vec::new(),
        }
    }

    /// `get_column_between`: the window's samples with only `column` kept.
    pub fn column_between(
        &self,
        files: &Vec<Vec<String>>,
        column: &str,
        start: UtcTime,
        end: UtcTime,
        limit: Option<usize>,
        offset: Option<usize>,
    ) -> (v: Vec<MetricPodEntity>)
        requires
            !files_header_panic::<MetricPodEntity>(file_views(files@), start, end),
        ensures
            v@ == pod_window::<MetricPodEntity>(file_views(files@), start, end, limit, offset).map_values(
                |r: MetricPodEntity| keep_column_spec::<MetricPodEntity>(r, column@),
            ),
    {
        let rows = self.rows_between(files, start, end, limit, offset);
        keep_column_all(&rows, column)
    }

    /// The day sample at `end` built from the hour samples of the window
    /// (`append_row_aggregated`); `gauges` holds the time-weighted averages of
    /// the gauge columns.
    pub fn aggregate(&self, hour_rows: &Vec<MetricPodEntity>, end: UtcTime, gauges: &Vec<Option<u64>>) -> (r: Result<
        MetricPodEntity,
        AggregateError,
    >)
        requires
            gauges@.len() == 18,
        ensures
            hour_rows@.len() == 0 ==> r == Err::<MetricPodEntity, AggregateError>(AggregateError::NoSamples),
            hour_rows@.len() > 0 ==> r == Ok::<MetricPodEntity, AggregateError>(
                day_sample::<MetricPodEntity>(hour_rows@, end, gauges@),
            ),
    {
        aggregate_day(hour_rows, end, gauges)
    }

    /// Whether `cleanup_old` removes the file named `file_name` when the cutoff
    /// is `before`: a `YYYY.rcd` file of an earlier year. `None` where `before`
    /// has no calendar date.
    pub fn is_expired(&self, file_name: &str, before: UtcTime) -> (r: Option<bool>)
        ensures
            match utc_year_month(before.secs, before.nanos) {
                Some(ym) => r == Some(day_file_expired(file_name@, ym.0)),
                None => r is None,
            },
    {
        match year_month_of(before) {
            Some(ym) => Some(is_day_file_expired(file_name, ym.0)),
            None => None,
        }
    }
}

/// Adapter for pod hour samples: one file per month.
#[derive(Clone, Copy, Debug)]
pub struct MetricPodHourFsAdapter;

impl MetricPodHourFsAdapter {
    /// `opt`: the text of one optional column.
    pub fn opt(v: Option<u64>) -> (s: String)
        ensures
            s@ == crate::metrics::row::opt_text(v),
    {
        crate::metrics::row::opt(v)
    }

    /// The line `append_row` adds for `dto`.
    /// For a sample of a four-digit year the line exists, and reading it back
    /// under the full header gives the sample with its time cut to whole seconds.
    pub fn row_line(&self, dto: &MetricPodEntity) -> (s: Option<String>)
        ensures
            opt_view(s) == format_row_spec::<MetricPodEntity>(*dto),
            four_digit_instant(dto.time) ==> s is Some,
            s matches Some(x) ==> four_digit_instant(dto.time) ==> parse_row_spec::<MetricPodEntity>(MetricPodEntity::width() + 1, x@.drop_last())
                == Some(MetricPodEntity::build(UtcTime { secs: dto.time.secs, nanos: 0 }, dto.values())),
    {
        format_row(dto)
    }

    /// Key of the file `append_row` writes `dto` to: the month of the sample's own time.
    pub fn file_key_for(&self, dto: &MetricPodEntity) -> (k: Option<String>)
        ensures
            opt_view(k) == month_key_of(dto.time),
    {
        month_file_key_of(dto.time)
    }

    /// Keys of the files `get_row_between` reads for `[start, end]`.
    pub fn file_keys_between(&self, start: UtcTime, end: UtcTime) -> (r: Option<Vec<Option<String>>>)
        ensures
            match r {
                Some(v) => month_keys_between(start, end) == Some(v@.map_values(|k: Option<String>| opt_view(k))),
                None => month_keys_between(start, end) is None,
            },
    {
        month_file_keys_between(start, end)
    }

    /// `get_row_between` over the lines of the files of the window (in key
    /// order); `None` where a short header line would make the reader index
    /// past a line's fields.
    pub fn try_rows_between(
        &self,
        files: &Vec<Vec<String>>,
        start: UtcTime,
        end: UtcTime,
        limit: Option<usize>,
        offset: Option<usize>,
    ) -> (r: Option<Vec<MetricPodEntity>>)
        ensures
            r is None <==> files_header_panic::<MetricPodEntity>(file_views(files@), start, end),
            r matches Some(v) ==> v@ == pod_window::<MetricPodEntity>(file_views(files@), start, end, limit, offset),
    {
        try_pod_window(files, start, end, limit, offset)
    }

    /// `get_row_between` over the lines of the files of the window (in key order).
    pub fn rows_between(
        &self,
        files: &Vec<Vec<String>>,
        start: UtcTime,
        end: UtcTime,
        limit: Option<usize>,
        offset: Option<usize>,
    ) -> (v: Vec<MetricPodEntity>)
        requires
            !files_header_panic::<MetricPodEntity>(file_views(files@), start, end),
        ensures
            v@ == pod_window::<MetricPodEntity>(file_views(files@), start, end, limit, offset),
    {
        match try_pod_window(files, start, end, limit, offset) {
            Some(v) => v,
            None => Vec::new(),
        }
    }

    /// `get_column_between`: the window's samples with only `column` kept.
    pub fn column_between(
        &self,
        files: &Vec<Vec<String>>,
        column: &str,
        start: UtcTime,
        end: UtcTime,
        limit: Option<usize>,
        offset: Option<usize>,
    ) -> (v: Vec<MetricPodEntity>)
        requires
            !files_header_panic::<MetricPodEntity>(file_views(files@), start, end),
        ensures
            v@ == pod_window::<MetricPodEntity>(file_views(files@), start, end, limit, offset).map_values(
                |r: MetricPodEntity| keep_column_spec::<MetricPodEntity>(r, column@),
            ),
    {
        let rows = self.rows_between(files, start, end, limit, offset);
        keep_column_all(&rows, column)
    }

    /// The hour sample at `end` built from the minute samples of the window
    /// (`append_row_aggregated`); `gauges` holds the time-weighted averages of
    /// the gauge columns.
    pub fn aggregate(&self, minute_rows: &Vec<MetricPodEntity>, end: UtcTime, gauges: &Vec<Option<u64>>) -> (r: Result<
        MetricPodEntity,
        AggregateError,
    >)
        requires
            gauges@.len() == 18,
        ensures
            minute_rows@.len() == 0 ==> r == Err::<MetricPodEntity, AggregateError>(AggregateError::NoSamples),
            minute_rows@.len() > 0 ==> r == Ok::<MetricPodEntity, AggregateError>(
                hour_sample::<MetricPodEntity>(minute_rows@, end, gauges@),
            ),
    {
        aggregate_hour(minute_rows, end, gauges)
    }

    /// Whether `cleanup_old` removes the file named `file_name` when the cutoff
    /// is `before`: a `YYYY-MM.rcd` file of an earlier month. `None` where
    /// `before` has no calendar date.
    pub fn is_expired(&self, file_name: &str, before: UtcTime) -> (r: Option<bool>)
        ensures
            match utc_year_month(before.secs, before.nanos) {
                Some(ym) => r == Some(hour_file_expired(file_name@, ym.0, ym.1)),
                None => r is None,
            },
    {
        match year_month_of(before) {
            Some(ym) => Some(is_hour_file_expired(file_name, ym.0, ym.1)),
            None => None,
        }
    }
}

/// Adapter for container day samples: one file per year.
#[derive(Clone, Copy, Debug)]
pub struct MetricContainerDayFsAdapter;

impl MetricContainerDayFsAdapter {
    /// `opt`: the text of one optional column.
    pub fn opt(v: Option<u64>) -> (s: String)
        ensures
            s@ == crate::metrics::row::opt_text(v),
    {
        crate::metrics::row::opt(v)
    }

    /// The line `append_row` adds for `dto`.
    /// For a sample of a four-digit year the line exists, and reading it back
    /// under the full header gives the sample with its time cut to whole seconds.
    pub fn row_line(&self, dto: &MetricContainerEntity) -> (s: Option<String>)
        ensures
            opt_view(s) == format_row_spec::<MetricContainerEntity>(*dto),
            four_digit_instant(dto.time) ==> s is Some,
            s matches Some(x) ==> four_digit_instant(dto.time) ==> parse_row_spec::<MetricContainerEntity>(MetricContainerEntity::width() + 1, x@.drop_last())
                == Some(MetricContainerEntity::build(UtcTime { secs: dto.time.secs, nanos: 0 }, dto.values())),
    {
        format_row(dto)
    }

    /// Key of the file `append_row` writes to: the year of `now` (not of the sample).
    pub fn file_key_for(&self, now: UtcTime) -> (k: Option<String>)
        ensures
            opt_view(k) == year_key_of(now),
    {
        year_file_key_of(now)
    }

    /// Keys of the files `get_row_between` reads for `[start, end]`.
    pub fn file_keys_between(&self, start: UtcTime, end: UtcTime) -> (r: Option<Vec<Option<String>>>)
        ensures
            match r {
                Some(v) => year_keys_between(start, end) == Some(v@.map_values(|k: Option<String>| opt_view(k))),
                None => year_keys_between(start, end) is None,
            },
    {
        year_file_keys_between(start, end)
    }

    /// `get_row_between` over the lines of the files of the window (in key order).
    pub fn rows_between(
        &self,
        files: &Vec<Vec<String>>,
        start: UtcTime,
        end: UtcTime,
        limit: Option<usize>,
        offset: Option<usize>,
    ) -> (v: Vec<MetricContainerEntity>)
        ensures
            v@ == page(
                sort_by_time::<MetricContainerEntity>(
                    files_plain_rows::<MetricContainerEntity>(file_views(files@), start, end),
                ),
                limit,
                offset,
            ),
    {
        let data = files_plain_rows_of::<MetricContainerEntity>(files, start, end);
        sort_and_page(&data, limit, offset)
    }

    /// `get_column_between`: the window's samples with only `column` kept.
    pub fn column_between(
        &self,
        files: &Vec<Vec<String>>,
        column: &str,
        start: UtcTime,
        end: UtcTime,
        limit: Option<usize>,
        offset: Option<usize>,
    ) -> (v: Vec<MetricContainerEntity>)
        ensures
            v@ == page(
                sort_by_time::<MetricContainerEntity>(
                    files_plain_rows::<MetricContainerEntity>(file_views(files@), start, end),
                ),
                limit,
                offset,
            ).map_values(|r: MetricContainerEntity| keep_column_spec::<MetricContainerEntity>(r, column@)),
    {
        let rows = self.rows_between(files, start, end, limit, offset);
        keep_column_all(&rows, column)
    }

    /// The day sample at `end` built from the hour samples of the window, taken
    /// in the order given (`append_row_aggregated`).
    pub fn aggregate(&self, hour_rows: &Vec<MetricContainerEntity>, end: UtcTime) -> (r: Result<
        MetricContainerEntity,
        AggregateError,
    >)
        requires
            container_sums_fit::<MetricContainerEntity>(hour_rows@),
        ensures
            hour_rows@.len() == 0 ==> r == Err::<MetricContainerEntity, AggregateError>(AggregateError::NoSamples),
            hour_rows@.len() > 0 ==> r == Ok::<MetricContainerEntity, AggregateError>(
                container_day_sample::<MetricContainerEntity>(hour_rows@, end),
            ),
    {
        aggregate_container_day(hour_rows, end)
    }

    /// Whether `cleanup_old` removes the file named `file_name` when the cutoff
    /// is `before`: a `YYYY.rcd` file of an earlier year. `None` where `before`
    /// has no calendar date.
    pub fn is_expired(&self, file_name: &str, before: UtcTime) -> (r: Option<bool>)
        ensures
            match utc_year_month(before.secs, before.nanos) {
                Some(ym) => r == Some(day_file_expired(file_name@, ym.0)),
                None => r is None,
            },
    {
        match year_month_of(before) {
            Some(ym) => Some(is_day_file_expired(file_name, ym.0)),
            None => None,
        }
    }
}

} // verus!
