//! Instants in UTC and the calls into `chrono` that read, write and break them down.
use vstd::prelude::*;
use chrono::Datelike;
use crate::text::{dec, trim};

verus! {

/// An instant in UTC: whole seconds since the Unix epoch and the nanoseconds
/// past that second (`DateTime::<Utc>::timestamp` and `timestamp_subsec_nanos`).
/// A leap second carries `nanos >= 1_000_000_000`, as in `chrono`.
/// Instants are ordered by `(secs, nanos)`, which is `chrono`'s order.
#[derive(Clone, Copy, Debug, PartialEq, Eq, Structural)]
pub struct UtcTime {
    pub secs: i64,
    pub nanos: u32,
}

/// `a` is strictly earlier than `b`.
pub open spec fn time_lt(a: UtcTime, b: UtcTime) -> bool {
    a.secs < b.secs || (a.secs == b.secs && a.nanos < b.nanos)
}

/// `a` is earlier than or equal to `b`.
pub open spec fn time_le(a: UtcTime, b: UtcTime) -> bool {
    !time_lt(b, a)
}

impl UtcTime {
    /// Whether `self` is strictly earlier than `other`.
    pub fn lt(&self, other: &UtcTime) -> (r: bool)
        ensures
            r == time_lt(*self, *other),
    {
        self.secs < other.secs || (self.secs == other.secs && self.nanos < other.nanos)
    }

    /// Whether `self` is earlier than or equal to `other`.
    pub fn le(&self, other: &UtcTime) -> (r: bool)
        ensures
            r == time_le(*self, *other),
    {
        !other.lt(self)
    }
}

/// The instant that `DateTime::<Utc>::from_str` reads from `s`, as `(secs, nanos)`,
/// or `None` where it reports an error.
pub uninterp spec fn rfc3339_parse(s: Seq<char>) -> Option<(i64, u32)>;

/// The instant that `DateTime::parse_from_rfc3339` reads from `s`, taken to
/// UTC, as `(secs, nanos)`, or `None` where it reports an error.
pub uninterp spec fn rfc3339_strict_parse(s: Seq<char>) -> Option<(i64, u32)>;

/// The text that `to_rfc3339_opts(SecondsFormat::Secs, false)` writes for the
/// instant `(secs, nanos)`, or `None` where `DateTime::from_timestamp` has no
/// such instant.
pub uninterp spec fn rfc3339_secs_text(secs: i64, nanos: u32) -> Option<Seq<char>>;

/// The text that `to_rfc3339()` writes for the instant `(secs, nanos)`, or
/// `None` where `DateTime::from_timestamp` has no such instant.
pub uninterp spec fn rfc3339_text(secs: i64, nanos: u32) -> Option<Seq<char>>;

/// The text that `NaiveDate::format(pattern)` writes for the date
/// `year-month-day`, or `None` where `NaiveDate::from_ymd_opt` has no such date.
pub uninterp spec fn date_format_text(year: i32, month: u32, day: u32, pattern: Seq<char>) -> Option<Seq<char>>;

/// The calendar year and month (1 to 12) of the instant `(secs, nanos)`,
/// or `None` where `DateTime::from_timestamp` has no such instant.
pub uninterp spec fn utc_year_month(secs: i64, nanos: u32) -> Option<(i32, u32)>;

/// Earliest instant of the year 0 (0000-01-01T00:00:00Z).
pub open spec fn four_digit_year_min() -> int {
    -62167219200
}

/// Latest whole second of the year 9999 (9999-12-31T23:59:59Z).
pub open spec fn four_digit_year_max() -> int {
    253402300799
}

/// Smallest year of a `chrono::NaiveDate`.
pub open spec fn min_date_year() -> int {
    -262143
}

/// Largest year of a `chrono::NaiveDate`.
pub open spec fn max_date_year() -> int {
    262142
}

/// Current time from `chrono::Utc::now()`.
///
/// Nothing is stated of the result: it is whatever the system clock reads.
#[verifier::external_body]
pub(crate) fn utc_now() -> (t: UtcTime) {
    let n = chrono::Utc::now();
    UtcTime { secs: n.timestamp(), nanos: n.timestamp_subsec_nanos() }
}

/// Reads an RFC 3339 instant with `s.parse::<chrono::DateTime<chrono::Utc>>()`.
///
/// Claims: the result is the named [`rfc3339_parse`] of the text; and the text
/// that [`format_rfc3339_secs`] writes for an instant with `nanos < 10^9` whose
/// year has four digits (0 to 9999) reads back as that instant with its
/// fraction of a second dropped. The second claim follows `write_rfc3339` in
/// chrono's source: it writes `YYYY-MM-DDTHH:MM:SS+00:00`, which the relaxed
/// RFC 3339 reader of `FromStr` accepts.
#[verifier::external_body]
pub(crate) fn parse_rfc3339(s: &str) -> (r: Option<UtcTime>)
    ensures
        r == (match rfc3339_parse(s@) {
            Some(p) => Some(UtcTime { secs: p.0, nanos: p.1 }),
            None => None,
        }),
        forall|secs: i64, nanos: u32|
            four_digit_year_min() <= secs <= four_digit_year_max() && nanos < 1_000_000_000
                && #[trigger] rfc3339_secs_text(secs, nanos) == Some(s@)
                ==> r == Some(UtcTime { secs: secs, nanos: 0 }),
{
    match s.parse::<chrono::DateTime<chrono::Utc>>() {
        Ok(d) => Some(UtcTime { secs: d.timestamp(), nanos: d.timestamp_subsec_nanos() }),
        Err(_) => None,
    }
}

/// Reads an RFC 3339 instant with `chrono::DateTime::parse_from_rfc3339(s)`
/// and `with_timezone(&Utc)`.
///
/// Claims only that the result is the named [`rfc3339_strict_parse`] of the text.
#[verifier::external_body]
pub(crate) fn parse_rfc3339_strict(s: &str) -> (r: Option<UtcTime>)
    ensures
        r == (match rfc3339_strict_parse(s@) {
            Some(p) => Some(UtcTime { secs: p.0, nanos: p.1 }),
            None => None,
        }),
{
    match chrono::DateTime::parse_from_rfc3339(s) {
        Ok(d) => {
            let u = d.with_timezone(&chrono::Utc);
            Some(UtcTime { secs: u.timestamp(), nanos: u.timestamp_subsec_nanos() })
        },
        Err(_) => None,
    }
}

/// Writes `t` with `to_rfc3339_opts(SecondsFormat::Secs, false)` after
/// `chrono::DateTime::from_timestamp(t.secs, t.nanos)`.
///
/// Claims: the result is the named [`rfc3339_secs_text`]; it is `Some` for
/// every instant of a four-digit year; the text holds no `'|'` (chrono
/// writes digits, `-`, `T`, `:` and the offset `+00:00` only); and for a
/// four-digit year the RFC 3339 reader of `FromStr` reads the text back as the
/// same whole second (`parse_rfc3339_relaxed` accepts `YYYY-MM-DDTHH:MM:SS+00:00`).
#[verifier::external_body]
pub(crate) fn format_rfc3339_secs(t: UtcTime) -> (r: Option<String>)
    ensures
        rfc3339_secs_text(t.secs, t.nanos) == (match r {
            Some(x) => Some(x@),
            None => None::<Seq<char>>,
        }),
        four_digit_year_min() <= t.secs <= four_digit_year_max() && t.nanos < 1_000_000_000
            ==> r is Some,
        r matches Some(x) ==> forall|i: int| 0 <= i < x@.len() ==> x@[i] != '|',
        r matches Some(x) ==> four_digit_instant(t) ==> rfc3339_parse(x@) == Some((t.secs, 0u32)),
{
    chrono::DateTime::from_timestamp(t.secs, t.nanos)
        .map(|d| d.to_rfc3339_opts(chrono::SecondsFormat::Secs, false))
}

/// The decimal digits of `n`, with leading zeros up to `width` digits.
pub open spec fn zero_padded(n: nat, width: nat) -> Seq<char> {
    let d = dec(n);
    if d.len() < width { Seq::new((width - d.len()) as nat, |i: int| '0') + d } else { d }
}

/// An instant of a year with four digits (0 to 9999), its fraction of a
/// second below one second.
pub open spec fn four_digit_instant(t: UtcTime) -> bool {
    four_digit_year_min() <= t.secs <= four_digit_year_max() && t.nanos < 1_000_000_000
}

/// Writes `t` with `to_rfc3339()` after `chrono::DateTime::from_timestamp(t.secs, t.nanos)`.
///
/// Claims: the result is the named [`rfc3339_text`]; and for an instant of a
/// four-digit year with `nanos < 10^9` there is a text, free of surrounding
/// whitespace, that the RFC 3339 reader of `FromStr` reads back as the same
/// instant. This follows chrono's source: `from_timestamp` accepts such an
/// instant, `write_rfc3339` writes `YYYY-MM-DDTHH:MM:SS[.fff|.ffffff|.fffffffff]+00:00`
/// with every nonzero fraction written in full, and `parse_rfc3339_relaxed`
/// reads that form back, fraction included.
#[verifier::external_body]
pub(crate) fn format_rfc3339(t: UtcTime) -> (r: Option<String>)
    ensures
        rfc3339_text(t.secs, t.nanos) == (match r {
            Some(x) => Some(x@),
            None => None::<Seq<char>>,
        }),
        four_digit_instant(t) ==> r is Some,
        r matches Some(x) ==> four_digit_instant(t) ==> trim(x@) == x@ && rfc3339_parse(x@) == Some((t.secs, t.nanos)),
{
    chrono::DateTime::from_timestamp(t.secs, t.nanos).map(|d| d.to_rfc3339())
}

/// Formats the date `year-month-day` with `chrono::NaiveDate::format(pattern)`
/// after `NaiveDate::from_ymd_opt(year, month, day)`.
///
/// Claims: the result is the named [`date_format_text`]; the first day of a
/// month (1 to 12) of a year from 0 to 9999 is a date, and chrono writes its
/// year with `%Y` as four digits, zero-padded, and its month with `%m` as two
/// (the documented forms of `%Y` and `%m` in `chrono::format::strftime`). The
/// pattern is `%Y` or `%Y-%m`: chrono writes an error for a pattern that asks
/// for a time or an unknown field, and `to_string` panics on it.
#[verifier::external_body]
pub(crate) fn format_date(year: i32, month: u32, day: u32, pattern: &str) -> (r: Option<String>)
    requires
        pattern@ == "%Y"@ || pattern@ == "%Y-%m"@,
    ensures
        date_format_text(year, month, day, pattern@) == (match r {
            Some(x) => Some(x@),
            None => None::<Seq<char>>,
        }),
        0 <= year <= 9999 && 1 <= month <= 12 && day == 1 ==> r is Some,
        r matches Some(x) ==> 0 <= year <= 9999 ==> pattern@ == "%Y"@ ==> x@ == zero_padded(year as nat, 4),
        r matches Some(x) ==> 0 <= year <= 9999 ==> pattern@ == "%Y-%m"@
            ==> x@ == zero_padded(year as nat, 4) + "-"@ + zero_padded(month as nat, 2),
{
    chrono::NaiveDate::from_ymd_opt(year, month, day).map(|d| d.format(pattern).to_string())
}

/// Calendar year and month of `t` through `chrono::Datelike::{year, month}`
/// after `DateTime::from_timestamp(t.secs, t.nanos)`.
///
/// Claims: the result is the named [`utc_year_month`], its month lies in 1 to
/// 12, and its year lies in the range of `NaiveDate` (`MIN_YEAR` = -262143 to
/// `MAX_YEAR` = 262142 in chrono's source).
#[verifier::external_body]
pub(crate) fn year_month_of(t: UtcTime) -> (r: Option<(i32, u32)>)
    ensures
        r == utc_year_month(t.secs, t.nanos),
        r matches Some(ym) ==> 1 <= ym.1 <= 12 && min_date_year() <= ym.0 <= max_date_year(),
{
    chrono::DateTime::from_timestamp(t.secs, t.nanos).map(|d| (d.year(), d.month()))
}

/// The text of an instant as `to_rfc3339` writes it, or nothing where chrono
/// cannot represent the instant.
pub open spec fn instant_text(t: UtcTime) -> Seq<char> {
    match rfc3339_text(t.secs, t.nanos) {
        Some(x) => x,
        None => Seq::empty(),
    }
}

/// The `to_rfc3339` text of `t` is its own trim and reads back as `t`.
pub open spec fn instant_reads_back(t: UtcTime) -> bool {
    trim(instant_text(t)) == instant_text(t) && rfc3339_parse(instant_text(t)) == Some((t.secs, t.nanos))
}

/// The `to_rfc3339` text of `t`, or nothing; for an instant of a four-digit
/// year it reads back as `t`.
pub fn instant_string(t: UtcTime) -> (r: String)
    ensures
        r@ == instant_text(t),
        four_digit_instant(t) ==> instant_reads_back(t),
{
    match format_rfc3339(t) {
        Some(x) => x,
        None => String::new(),
    }
}

} // verus!
