//! Metric rows as stored in `.rcd` files: one `|`-separated line per sample,
//! the RFC 3339 time first, then one optional unsigned number per column.
//!
//! Everything here is generic over [`MetricRecord`], which pod and container
//! samples implement.
use vstd::prelude::*;
use crate::text::{is_digit, lemma_dec_digits, lemma_parse_dec_u64, lemma_split_plain, lemma_split_sep_plain, lemma_split_nonempty, split, trim, is_blank, has_prefix, starts_with, split_str, views, parse_u64_spec, parse_u64, dec, u64_to_dec, push_all, str_eq};
use crate::time::{UtcTime, four_digit_instant, time_lt, time_le, rfc3339_parse, rfc3339_secs_text, parse_rfc3339, format_rfc3339_secs};

verus! {

/// A metric sample: a time and a fixed number of optional `u64` columns.
pub trait MetricRecord: Sized + Copy {
    /// Time of the sample.
    spec fn time_of(&self) -> UtcTime;

    /// The columns after the time, in file order.
    spec fn values(&self) -> Seq<Option<u64>>;

    /// Number of columns after the time.
    spec fn width() -> nat;

    /// Names of the columns after the time, in file order.
    spec fn column_names() -> Seq<Seq<char>>;

    /// The sample with time `t` and columns `v`.
    spec fn build(t: UtcTime, v: Seq<Option<u64>>) -> Self;

    proof fn lemma_shape(r: Self)
        ensures
            r.values().len() == Self::width(),
            Self::build(r.time_of(), r.values()) == r,
    ;

    proof fn lemma_build(t: UtcTime, v: Seq<Option<u64>>)
        requires
            v.len() == Self::width(),
        ensures
            Self::build(t, v).time_of() == t,
            Self::build(t, v).values() == v,
    ;

    proof fn lemma_names()
        ensures
            Self::column_names().len() == Self::width(),
            Self::width() < 64,
    ;

    fn time(&self) -> (t: UtcTime)
        ensures
            t == self.time_of(),
    ;

    fn value(&self, i: usize) -> (v: Option<u64>)
        requires
            i < Self::width(),
        ensures
            v == self.values()[i as int],
    ;

    fn make(t: UtcTime, v: &Vec<Option<u64>>) -> (r: Self)
        requires
            v@.len() == Self::width(),
        ensures
            r == Self::build(t, v@),
    ;

    fn width_exec() -> (n: usize)
        ensures
            n == Self::width(),
    ;

    fn column_name(i: usize) -> (s: &'static str)
        requires
            i < Self::width(),
        ensures
            s@ == Self::column_names()[i as int],
    ;
}

// ---------------------------------------------------------------------------
// Parsing one line
// ---------------------------------------------------------------------------

/// The sample read from `line` when the file's header has `h` fields:
/// the line must have exactly `h` fields and a readable time; each column
/// is the `u64` read from its field, or `None` where that field is not a number.
pub open spec fn parse_row_spec<R: MetricRecord>(h: nat, line: Seq<char>) -> Option<R> {
    let parts = split(line, '|');
    if parts.len() != h {
        None
    } else {
        match rfc3339_parse(parts[0]) {
            None => None,
            Some(p) => Some(
                R::build(
                    UtcTime { secs: p.0, nanos: p.1 },
                    Seq::new(R::width(), |i: int| parse_u64_spec(parts[i + 1])),
                ),
            ),
        }
    }
}

/// Reading `line` under a header of `h < width + 1` fields indexes past the
/// fields of the line: it happens when the line has exactly `h` fields and
/// a readable time.
pub open spec fn line_panics<R: MetricRecord>(h: nat, line: Seq<char>) -> bool {
    let parts = split(line, '|');
    parts.len() == h && h < R::width() + 1 && rfc3339_parse(parts[0]) is Some
}

/// Reads one sample from a line under a header of `h` fields.
pub fn parse_row<R: MetricRecord>(h: usize, line: &str) -> (r: Option<R>)
    requires
        !line_panics::<R>(h as nat, line@),
    ensures
        r == parse_row_spec::<R>(h as nat, line@),
{
    let parts = split_str(line, '|');
    proof {
        lemma_split_nonempty(line@, '|');
        R::lemma_names();
    }
    if parts.len() != h {
        return None;
    }
    assert(views(parts@)[0] == parts@[0]@);
    let t = match parse_rfc3339(parts[0].as_str()) {
        Some(t) => t,
        None => {
            return None;
        },
    };
    let w = R::width_exec();
    let mut vals: Vec<Option<u64>> = Vec::new();
    let mut i: usize = 0;
    while i < w
        invariant
            w == R::width(),
            parts@.len() == h,
            h >= w + 1,
            views(parts@) == split(line@, '|'),
            0 <= i <= w,
            vals@ =~= Seq::new(i as nat, |k: int| parse_u64_spec(views(parts@)[k + 1])),
        decreases w - i,
    {
        let v = parse_u64(parts[i + 1].as_str());
        vals.push(v);
        i = i + 1;
    }
    let r = R::make(t, &vals);
    Some(r)
}

/// Tries to read one sample; `Err(())` marks the lines on which reading indexes
/// past the line's fields.
pub fn try_parse_row<R: MetricRecord>(h: usize, line: &str) -> (r: Result<Option<R>, ()>)
    ensures
        r is Err <==> line_panics::<R>(h as nat, line@),
        r matches Ok(x) ==> x == parse_row_spec::<R>(h as nat, line@),
{
    let w = R::width_exec();
    proof {
        R::lemma_names();
        lemma_split_nonempty(line@, '|');
    }
    if h < w + 1 {
        let parts = split_str(line, '|');
        if parts.len() == h {
            assert(views(parts@)[0] == parts@[0]@);
            if parse_rfc3339(parts[0].as_str()).is_some() {
                return Err(());
            }
        }
    }
    Ok(parse_row::<R>(h, line))
}

// ---------------------------------------------------------------------------
// Writing one line
// ---------------------------------------------------------------------------

/// Text of one optional column: the decimal number, or nothing.
pub open spec fn opt_text(v: Option<u64>) -> Seq<char> {
    match v {
        Some(x) => dec(x as nat),
        None => Seq::<char>::empty(),
    }
}

/// Each column preceded by `|`.
pub open spec fn fields_text(vs: Seq<Option<u64>>) -> Seq<char>
    decreases vs.len(),
{
    if vs.len() == 0 {
        Seq::<char>::empty()
    } else {
        fields_text(vs.drop_last()) + seq!['|'] + opt_text(vs.last())
    }
}

/// The line that stores `r`, newline included; `None` where the time has no
/// RFC 3339 form.
pub open spec fn format_row_spec<R: MetricRecord>(r: R) -> Option<Seq<char>> {
    match rfc3339_secs_text(r.time_of().secs, r.time_of().nanos) {
        Some(t) => Some(t + fields_text(r.values()) + seq!['\n']),
        None => None,
    }
}

/// Text of one optional column (`opt` in the storage format).
pub fn opt(v: Option<u64>) -> (s: String)
    ensures
        s@ == opt_text(v),
{
    match v {
        Some(x) => u64_to_dec(x),
        None => String::new(),
    }
}

/// The line that stores `r`, newline included.
/// For a sample of a four-digit year there is a line, and reading it back
/// under a full header gives the sample with its time cut to whole seconds.
pub fn format_row<R: MetricRecord>(r: &R) -> (s: Option<String>)
    ensures
        match s {
            Some(x) => format_row_spec::<R>(*r) == Some(x@),
            None => format_row_spec::<R>(*r) is None,
        },
        four_digit_instant(r.time_of()) ==> s is Some,
        s matches Some(x) ==> four_digit_instant(r.time_of()) ==> parse_row_spec::<R>(R::width() + 1, x@.drop_last())
            == Some(R::build(UtcTime { secs: r.time_of().secs, nanos: 0 }, r.values())),
{
    let mut line = match format_rfc3339_secs(r.time()) {
        Some(t) => t,
        None => {
            return None;
        },
    };
    let ghost head = line@;
    let w = R::width_exec();
    proof {
        R::lemma_shape(*r);
    }
    let mut i: usize = 0;
    while i < w
        invariant
            w == R::width(),
            r.values().len() == w,
            0 <= i <= w,
            line@ == head + fields_text(r.values().take(i as int)),
        decreases w - i,
    {
        line.push('|');
        let f = opt(r.value(i));
        push_all(&mut line, f.as_str());
        assert(r.values().take(i + 1).drop_last() == r.values().take(i as int));
        i = i + 1;
    }
    line.push('\n');
    assert(r.values().take(w as int) == r.values());
    assert(line@ =~= head + fields_text(r.values()) + seq!['\n']);
    assert(format_row_spec::<R>(*r) == Some(line@));
    proof {
        if four_digit_instant(r.time_of()) {
            lemma_stored_line_round_trip(*r, line@);
        }
    }
    Some(line)
}

/// The text of a column holds no `|` and reads back as the column.
proof fn lemma_opt_text(v: Option<u64>)
    ensures
        forall|i: int| 0 <= i < opt_text(v).len() ==> opt_text(v)[i] != '|',
        parse_u64_spec(opt_text(v)) == v,
{
    match v {
        Some(x) => {
            lemma_dec_digits(x as nat);
            lemma_parse_dec_u64(x);
            assert forall|i: int| 0 <= i < opt_text(v).len() implies opt_text(v)[i] != '|' by {
                assert(is_digit(dec(x as nat)[i]));
            }
        },
        None => {},
    }
}

/// The pieces of a stored line: the time text, then the text of each column.
proof fn lemma_split_fields(t: Seq<char>, vs: Seq<Option<u64>>)
    requires
        forall|i: int| 0 <= i < t.len() ==> t[i] != '|',
    ensures
        split(t + fields_text(vs), '|') == seq![t] + vs.map_values(|v: Option<u64>| opt_text(v)),
    decreases vs.len(),
{
    if vs.len() == 0 {
        assert(t + fields_text(vs) == t);
        lemma_split_plain(t, '|');
        assert(seq![t] + vs.map_values(|v: Option<u64>| opt_text(v)) =~= seq![t]);
    } else {
        let vs1 = vs.drop_last();
        lemma_split_fields(t, vs1);
        lemma_opt_text(vs.last());
        assert(t + fields_text(vs) == (t + fields_text(vs1)) + seq!['|'] + opt_text(vs.last()));
        lemma_split_sep_plain(t + fields_text(vs1), opt_text(vs.last()), '|');
        assert((seq![t] + vs1.map_values(|v: Option<u64>| opt_text(v))).push(opt_text(vs.last()))
            =~= seq![t] + vs.map_values(|v: Option<u64>| opt_text(v)));
    }
}

/// A stored line, read back under a full header, gives the same sample, at
/// the instant that its time text reads as: writing then reading keeps every
/// column.
pub proof fn lemma_row_round_trip<R: MetricRecord>(r: R, t: Seq<char>, p: (i64, u32))
    requires
        forall|i: int| 0 <= i < t.len() ==> t[i] != '|',
        rfc3339_parse(t) == Some(p),
    ensures
        parse_row_spec::<R>(R::width() + 1, t + fields_text(r.values()))
            == Some(R::build(UtcTime { secs: p.0, nanos: p.1 }, r.values())),
{
    R::lemma_shape(r);
    let vs = r.values();
    lemma_split_fields(t, vs);
    let parts = split(t + fields_text(vs), '|');
    assert(parts[0] == t);
    assert forall|i: int| 0 <= i < R::width() implies parse_u64_spec(parts[i + 1]) == vs[i] by {
        assert(parts[i + 1] == opt_text(vs[i]));
        lemma_opt_text(vs[i]);
    }
    assert(Seq::new(R::width(), |i: int| parse_u64_spec(parts[i + 1])) =~= vs);
}

/// The line that writing `r` stores, read back under a full header, gives `r`
/// with its time cut to whole seconds. Its premises are what chrono gives of
/// the time text that [`format_rfc3339_secs`](crate::time) writes for a
/// four-digit year: it holds no `'|'`, and the RFC 3339 reader reads it as
/// the same second (the facts that `format_rfc3339_secs` and `parse_rfc3339`
/// state of their results).
pub proof fn lemma_stored_line_round_trip<R: MetricRecord>(r: R, line: Seq<char>)
    requires
        format_row_spec::<R>(r) == Some(line),
        rfc3339_secs_text(r.time_of().secs, r.time_of().nanos) matches Some(t)
            && (forall|i: int| 0 <= i < t.len() ==> t[i] != '|')
            && rfc3339_parse(t) == Some((r.time_of().secs, 0u32)),
    ensures
        parse_row_spec::<R>(R::width() + 1, line.drop_last())
            == Some(R::build(UtcTime { secs: r.time_of().secs, nanos: 0 }, r.values())),
{
    let t = rfc3339_secs_text(r.time_of().secs, r.time_of().nanos).unwrap();
    assert(line.drop_last() == t + fields_text(r.values()));
    lemma_row_round_trip(r, t, (r.time_of().secs, 0u32));
}

// ---------------------------------------------------------------------------
// Keeping one column
// ---------------------------------------------------------------------------

/// The first index at which `names` holds `name`.
pub open spec fn first_match(names: Seq<Seq<char>>, name: Seq<char>) -> Option<nat> {
    if exists|i: int| 0 <= i < names.len() && names[i] == name {
        Some(
            (choose|i: int|
                0 <= i < names.len() && names[i] == name && forall|k: int|
                    0 <= k < i ==> names[k] != name) as nat,
        )
    } else {
        None
    }
}

/// `r` with every column but `name` cleared; `r` unchanged where `name` is not
/// a column name.
pub open spec fn keep_column_spec<R: MetricRecord>(r: R, name: Seq<char>) -> R {
    match first_match(R::column_names(), name) {
        None => r,
        Some(c) => R::build(
            r.time_of(),
            Seq::new(R::width(), |k: int| if k == c { r.values()[k] } else { None }),
        ),
    }
}

/// Index of the column called `name`.
pub fn column_index<R: MetricRecord>(name: &str) -> (r: Option<usize>)
    ensures
        r matches Some(i) ==> i < R::width() && first_match(R::column_names(), name@) == Some(i as nat),
        r is None ==> first_match(R::column_names(), name@) is None,
{
    let w = R::width_exec();
    proof {
        R::lemma_names();
    }
    let ghost names = R::column_names();
    let mut i: usize = 0;
    while i < w
        invariant
            w == R::width(),
            names == R::column_names(),
            names.len() == w,
            0 <= i <= w,
            forall|k: int| 0 <= k < i ==> names[k] != name@,
        decreases w - i,
    {
        if str_eq(R::column_name(i), name) {
            proof {
                let j = choose|j: int|
                    0 <= j < names.len() && names[j] == name@ && forall|k: int|
                        0 <= k < j ==> names[k] != name@;
                assert(j == i as int) by {
                    if j < i {
                    } else if j > i {
                    }
                }
            }
            return Some(i);
        }
        i = i + 1;
    }
    None
}

/// Keeps only the column called `name` (the per-row step of `get_column_between`).
pub fn keep_column<R: MetricRecord>(r: R, name: &str) -> (out: R)
    ensures
        out == keep_column_spec::<R>(r, name@),
{
    match column_index::<R>(name) {
        None => r,
        Some(c) => {
            let w = R::width_exec();
            let mut vals: Vec<Option<u64>> = Vec::new();
            let mut i: usize = 0;
            while i < w
                invariant
                    w == R::width(),
                    0 <= i <= w,
                    c < w,
                    vals@ =~= Seq::new(i as nat, |k: int| if k == c { r.values()[k] } else { None }),
                decreases w - i,
            {
                if i == c {
                    vals.push(r.value(i));
                } else {
                    vals.push(None);
                }
                i = i + 1;
            }
            R::make(r.time(), &vals)
        },
    }
}

/// Keeps only the column called `name` in every row (`get_column_between`).
pub fn keep_column_all<R: MetricRecord>(rows: &Vec<R>, name: &str) -> (out: Vec<R>)
    ensures
        out@ == rows@.map_values(|r: R| keep_column_spec::<R>(r, name@)),
{
    let mut out: Vec<R> = Vec::new();
    let mut i: usize = 0;
    while i < rows.len()
        invariant
            0 <= i <= rows@.len(),
            out@ =~= rows@.take(i as int).map_values(|r: R| keep_column_spec::<R>(r, name@)),
        decreases rows.len() - i,
    {
        let k = keep_column(rows[i], name);
        out.push(k);
        assert(rows@.take(i + 1).map_values(|r: R| keep_column_spec::<R>(r, name@))
            =~= rows@.take(i as int).map_values(|r: R| keep_column_spec::<R>(r, name@)).push(k));
        i = i + 1;
    }
    assert(rows@.take(rows@.len() as int) == rows@);
    out
}


// ---------------------------------------------------------------------------
// Reading the samples of one file within a time window
// ---------------------------------------------------------------------------

/// The samples that a reader takes from `lines` under a header of `h` fields
/// for the window `[start, end]`: lines that do not read as a sample are
/// passed over (and so are blank lines where `skip_blank`), samples before
/// `start` are passed over, and reading stops at the first sample after `end`.
pub open spec fn scan<R: MetricRecord>(
    lines: Seq<Seq<char>>,
    h: nat,
    skip_blank: bool,
    start: UtcTime,
    end: UtcTime,
) -> Seq<R>
    decreases lines.len(),
{
    if lines.len() == 0 {
        Seq::<R>::empty()
    } else {
        let rest = scan::<R>(lines.drop_first(), h, skip_blank, start, end);
        if skip_blank && trim(lines[0]).len() == 0 {
            rest
        } else {
            match parse_row_spec::<R>(h, lines[0]) {
                None => rest,
                Some(r) => if time_lt(r.time_of(), start) {
                    rest
                } else if time_lt(end, r.time_of()) {
                    Seq::<R>::empty()
                } else {
                    seq![r] + rest
                },
            }
        }
    }
}

/// Every sample that a window read takes lies in the window: its time `t` has
/// `start <= t <= end`.
pub proof fn lemma_scan_in_window<R: MetricRecord>(lines: Seq<Seq<char>>, h: nat, skip_blank: bool, start: UtcTime, end: UtcTime)
    ensures
        forall|k: int| 0 <= k < scan::<R>(lines, h, skip_blank, start, end).len() ==> {
            &&& time_le(start, (#[trigger] scan::<R>(lines, h, skip_blank, start, end)[k]).time_of())
            &&& time_le(scan::<R>(lines, h, skip_blank, start, end)[k].time_of(), end)
        },
    decreases lines.len(),
{
    if lines.len() > 0 {
        lemma_scan_in_window::<R>(lines.drop_first(), h, skip_blank, start, end);
        let rest = scan::<R>(lines.drop_first(), h, skip_blank, start, end);
        let out = scan::<R>(lines, h, skip_blank, start, end);
        assert forall|k: int| 0 <= k < out.len() implies time_le(start, (#[trigger] out[k]).time_of())
            && time_le(out[k].time_of(), end) by {
            if !(skip_blank && trim(lines[0]).len() == 0) {
                match parse_row_spec::<R>(h, lines[0]) {
                    Some(r) => {
                        if !time_lt(r.time_of(), start) && !time_lt(end, r.time_of()) && k > 0 {
                            assert(out[k] == rest[k - 1]);
                        }
                    },
                    None => {},
                }
            }
        }
    }
}

/// Lines that all read as samples inside the window (and are not blank where
/// blanks are skipped) are all taken, in order.
pub proof fn lemma_scan_takes_all_in_window<R: MetricRecord>(lines: Seq<Seq<char>>, h: nat, skip_blank: bool, start: UtcTime, end: UtcTime)
    requires
        forall|i: int| 0 <= i < lines.len() ==> {
            &&& !(skip_blank && trim(#[trigger] lines[i]).len() == 0)
            &&& parse_row_spec::<R>(h, lines[i]) matches Some(r)
            &&& time_le(start, r.time_of()) && time_le(r.time_of(), end)
        },
    ensures
        scan::<R>(lines, h, skip_blank, start, end).len() == lines.len(),
        forall|i: int| 0 <= i < lines.len() ==>
            Some(#[trigger] scan::<R>(lines, h, skip_blank, start, end)[i]) == parse_row_spec::<R>(h, lines[i]),
    decreases lines.len(),
{
    if lines.len() > 0 {
        let t = lines.drop_first();
        assert forall|i: int| 0 <= i < t.len() implies {
            &&& !(skip_blank && trim(#[trigger] t[i]).len() == 0)
            &&& parse_row_spec::<R>(h, t[i]) matches Some(r)
            &&& time_le(start, r.time_of()) && time_le(r.time_of(), end)
        } by {
            assert(t[i] == lines[i + 1]);
        }
        lemma_scan_takes_all_in_window::<R>(t, h, skip_blank, start, end);
        assert(!(skip_blank && trim(lines[0]).len() == 0));
        let out = scan::<R>(lines, h, skip_blank, start, end);
        let rest = scan::<R>(t, h, skip_blank, start, end);
        assert forall|i: int| 0 <= i < lines.len() implies
            Some(#[trigger] out[i]) == parse_row_spec::<R>(h, lines[i]) by {
            if i > 0 {
                assert(out[i] == rest[i - 1]);
                assert(t[i - 1] == lines[i]);
            }
        }
    }
}

/// Reading stops at the first sample after the window (of a window with
/// `start <= end`): what follows a line that reads as a sample after `end` is
/// never taken.
pub proof fn lemma_scan_stops_after_end<R: MetricRecord>(
    pre: Seq<Seq<char>>,
    line: Seq<char>,
    post: Seq<Seq<char>>,
    h: nat,
    skip_blank: bool,
    start: UtcTime,
    end: UtcTime,
)
    requires
        time_le(start, end),
        !(skip_blank && trim(line).len() == 0),
        parse_row_spec::<R>(h, line) matches Some(r) && time_lt(end, r.time_of()),
    ensures
        scan::<R>(pre + seq![line] + post, h, skip_blank, start, end) == scan::<R>(pre, h, skip_blank, start, end),
    decreases pre.len(),
{
    let all = pre + seq![line] + post;
    if pre.len() == 0 {
        assert(all[0] == line);
        assert(pre == Seq::<Seq<char>>::empty());
    } else {
        lemma_scan_stops_after_end::<R>(pre.drop_first(), line, post, h, skip_blank, start, end);
        assert(all.drop_first() == pre.drop_first() + seq![line] + post);
        assert(all[0] == pre[0]);
    }
}

/// A sample before the window's start is passed over: reading it first
/// changes nothing.
pub proof fn lemma_scan_skips_before_start<R: MetricRecord>(
    line: Seq<char>,
    rest: Seq<Seq<char>>,
    h: nat,
    skip_blank: bool,
    start: UtcTime,
    end: UtcTime,
)
    requires
        parse_row_spec::<R>(h, line) matches Some(r) && time_lt(r.time_of(), start),
    ensures
        scan::<R>(seq![line] + rest, h, skip_blank, start, end) == scan::<R>(rest, h, skip_blank, start, end),
{
    let all = seq![line] + rest;
    assert(all[0] == line);
    assert(all.drop_first() == rest);
}

/// Whether the reader of [`scan`] reaches a line on which reading indexes past
/// the line's fields.
pub open spec fn scan_panics<R: MetricRecord>(
    lines: Seq<Seq<char>>,
    h: nat,
    skip_blank: bool,
    start: UtcTime,
    end: UtcTime,
) -> bool
    decreases lines.len(),
{
    if lines.len() == 0 {
        false
    } else if skip_blank && trim(lines[0]).len() == 0 {
        scan_panics::<R>(lines.drop_first(), h, skip_blank, start, end)
    } else if line_panics::<R>(h, lines[0]) {
        true
    } else {
        match parse_row_spec::<R>(h, lines[0]) {
            Some(r) => if !time_lt(r.time_of(), start) && time_lt(end, r.time_of()) {
                false
            } else {
                scan_panics::<R>(lines.drop_first(), h, skip_blank, start, end)
            },
            None => scan_panics::<R>(lines.drop_first(), h, skip_blank, start, end),
        }
    }
}

/// A header with all the standard fields never makes reading index past a line's fields.
pub proof fn lemma_full_header_never_panics<R: MetricRecord>(
    lines: Seq<Seq<char>>,
    h: nat,
    skip_blank: bool,
    start: UtcTime,
    end: UtcTime,
)
    requires
        h >= R::width() + 1,
    ensures
        !scan_panics::<R>(lines, h, skip_blank, start, end),
    decreases lines.len(),
{
    if lines.len() > 0 {
        lemma_full_header_never_panics::<R>(lines.drop_first(), h, skip_blank, start, end);
    }
}

/// Reads the samples of `lines[from..]` as [`scan`] says; `Err(())` where
/// [`scan_panics`] holds.
pub fn scan_lines<R: MetricRecord>(
    lines: &Vec<String>,
    from: usize,
    h: usize,
    skip_blank: bool,
    start: UtcTime,
    end: UtcTime,
) -> (r: Result<Vec<R>, ()>)
    requires
        from <= lines@.len(),
    ensures
        r is Err <==> scan_panics::<R>(views(lines@).skip(from as int), h as nat, skip_blank, start, end),
        r matches Ok(v) ==> v@ == scan::<R>(views(lines@).skip(from as int), h as nat, skip_blank, start, end),
{
    let ghost all = views(lines@).skip(from as int);
    let mut acc: Vec<R> = Vec::new();
    let mut i = from;
    while i < lines.len()
        invariant
            from <= i <= lines@.len(),
            all == views(lines@).skip(from as int),
            acc@ + scan::<R>(views(lines@).skip(i as int), h as nat, skip_blank, start, end)
                == scan::<R>(all, h as nat, skip_blank, start, end),
            scan_panics::<R>(views(lines@).skip(i as int), h as nat, skip_blank, start, end)
                == scan_panics::<R>(all, h as nat, skip_blank, start, end),
        decreases lines.len() - i,
    {
        let ghost cur = views(lines@).skip(i as int);
        assert(cur.drop_first() == views(lines@).skip(i + 1));
        assert(cur[0] == lines@[i as int]@);
        let line = lines[i].as_str();
        if skip_blank && is_blank(line) {
            i = i + 1;
        } else {
            match try_parse_row::<R>(h, line) {
                Err(_) => {
                    return Err(());
                },
                Ok(None) => {
                    i = i + 1;
                },
                Ok(Some(row)) => {
                    let t = row.time();
                    if t.lt(&start) {
                        i = i + 1;
                    } else if end.lt(&t) {
                        assert(acc@ + Seq::<R>::empty() == acc@);
                        return Ok(acc);
                    } else {
                        acc.push(row);
                        assert(acc@ + scan::<R>(views(lines@).skip(i + 1), h as nat, skip_blank, start, end)
                            == acc@.drop_last() + (seq![row] + scan::<R>(views(lines@).skip(i + 1), h as nat, skip_blank, start, end)));
                        i = i + 1;
                    }
                },
            }
        }
    }
    assert(views(lines@).skip(i as int).len() == 0);
    assert(acc@ + Seq::<R>::empty() == acc@);
    Ok(acc)
}

/// The samples of one file whose first line may be a header (pod files): a
/// first line that begins with `20` is a sample under the standard header
/// (kept where it lies in the window); any other first line is a header whose
/// number of fields governs the remaining lines.
pub open spec fn header_rows<R: MetricRecord>(lines: Seq<Seq<char>>, start: UtcTime, end: UtcTime) -> Seq<R> {
    if lines.len() == 0 {
        Seq::<R>::empty()
    } else if has_prefix(lines[0], "20"@) {
        let first = match parse_row_spec::<R>(R::width() + 1, lines[0]) {
            Some(r) => if time_le(start, r.time_of()) && time_le(r.time_of(), end) {
                seq![r]
            } else {
                Seq::<R>::empty()
            },
            None => Seq::<R>::empty(),
        };
        first + scan::<R>(lines.drop_first(), R::width() + 1, false, start, end)
    } else {
        scan::<R>(lines.drop_first(), split(lines[0], '|').len(), false, start, end)
    }
}

/// Whether reading a file as [`header_rows`] does reaches a line on which
/// reading indexes past the line's fields (only under a short header line).
pub open spec fn header_panics<R: MetricRecord>(lines: Seq<Seq<char>>, start: UtcTime, end: UtcTime) -> bool {
    lines.len() > 0 && !has_prefix(lines[0], "20"@) && scan_panics::<R>(
        lines.drop_first(),
        split(lines[0], '|').len(),
        false,
        start,
        end,
    )
}

/// Reads the samples of one file as [`header_rows`] says; `Err(())` where
/// [`header_panics`] holds.
pub fn try_header_rows<R: MetricRecord>(lines: &Vec<String>, start: UtcTime, end: UtcTime) -> (r: Result<Vec<R>, ()>)
    ensures
        r is Err <==> header_panics::<R>(views(lines@), start, end),
        r matches Ok(v) ==> v@ == header_rows::<R>(views(lines@), start, end),
{
    if lines.len() == 0 {
        return Ok(Vec::new());
    }
    assert(views(lines@)[0] == lines@[0]@);
    assert(views(lines@).skip(1) == views(lines@).drop_first());
    let w = R::width_exec();
    proof {
        R::lemma_names();
    }
    let first_line = lines[0].as_str();
    if starts_with(first_line, "20") {
        let mut out: Vec<R> = Vec::new();
        match parse_row::<R>(w + 1, first_line) {
            Some(row) => {
                let t = row.time();
                if start.le(&t) && t.le(&end) {
                    out.push(row);
                }
            },
            None => {},
        }
        let ghost first = out@;
        match scan_lines::<R>(lines, 1, w + 1, false, start, end) {
            Ok(mut rest) => {
                out.append(&mut rest);
                Ok(out)
            },
            Err(_) => {
                proof {
                    lemma_full_header_never_panics::<R>(views(lines@).skip(1), (w + 1) as nat, false, start, end);
                }
                Err(())
            },
        }
    } else {
        let header = split_str(first_line, '|');
        scan_lines::<R>(lines, 1, header.len(), false, start, end)
    }
}

/// Reads the samples of one file as [`header_rows`] says.
pub fn header_rows_of<R: MetricRecord>(lines: &Vec<String>, start: UtcTime, end: UtcTime) -> (v: Vec<R>)
    requires
        !header_panics::<R>(views(lines@), start, end),
    ensures
        v@ == header_rows::<R>(views(lines@), start, end),
{
    match try_header_rows::<R>(lines, start, end) {
        Ok(v) => v,
        Err(_) => {
            assert(false);
            Vec::new()
        },
    }
}

// ---------------------------------------------------------------------------
// Ordering by time and paging
// ---------------------------------------------------------------------------

/// Where a sample at time `t` goes in `s`: after every sample not later than `t`
/// at the end of `s`.
pub open spec fn insert_pos<R: MetricRecord>(s: Seq<R>, t: UtcTime) -> nat
    decreases s.len(),
{
    if s.len() == 0 {
        0
    } else if time_lt(t, s.last().time_of()) {
        insert_pos::<R>(s.drop_last(), t)
    } else {
        s.len()
    }
}

/// `s` ordered by time, samples with equal times in their input order
/// (`sort_by_key(|r| r.time)`).
pub open spec fn sort_by_time<R: MetricRecord>(s: Seq<R>) -> Seq<R>
    decreases s.len(),
{
    if s.len() == 0 {
        s
    } else {
        let sorted = sort_by_time::<R>(s.drop_last());
        sorted.insert(insert_pos::<R>(sorted, s.last().time_of()) as int, s.last())
    }
}

proof fn lemma_insert_pos_le<R: MetricRecord>(s: Seq<R>, t: UtcTime)
    ensures
        insert_pos::<R>(s, t) <= s.len(),
    decreases s.len(),
{
    if s.len() > 0 {
        lemma_insert_pos_le::<R>(s.drop_last(), t);
    }
}

proof fn lemma_sort_len<R: MetricRecord>(s: Seq<R>)
    ensures
        sort_by_time::<R>(s).len() == s.len(),
    decreases s.len(),
{
    if s.len() > 0 {
        lemma_sort_len::<R>(s.drop_last());
        lemma_insert_pos_le::<R>(sort_by_time::<R>(s.drop_last()), s.last().time_of());
    }
}

/// Samples in order of time.
pub open spec fn time_sorted<R: MetricRecord>(s: Seq<R>) -> bool {
    forall|i: int, j: int| 0 <= i < j < s.len() ==> time_le(s[i].time_of(), s[j].time_of())
}

/// The insertion point splits a sorted list into the samples no later than
/// `t` and those after it.
proof fn lemma_insert_pos_bounds<R: MetricRecord>(s: Seq<R>, t: UtcTime)
    requires
        time_sorted(s),
    ensures
        insert_pos::<R>(s, t) <= s.len(),
        forall|k: int| 0 <= k < insert_pos::<R>(s, t) ==> time_le(#[trigger] s[k].time_of(), t),
        forall|k: int| insert_pos::<R>(s, t) <= k < s.len() ==> time_lt(t, #[trigger] s[k].time_of()),
    decreases s.len(),
{
    if s.len() > 0 {
        let d = s.drop_last();
        assert(time_sorted(d)) by {
            assert forall|i: int, j: int| 0 <= i < j < d.len() implies time_le(d[i].time_of(), d[j].time_of()) by {
                assert(d[i] == s[i] && d[j] == s[j]);
            }
        }
        lemma_insert_pos_bounds(d, t);
        if time_lt(t, s.last().time_of()) {
            assert forall|k: int| insert_pos::<R>(s, t) <= k < s.len() implies time_lt(t, #[trigger] s[k].time_of()) by {
                if k < s.len() - 1 {
                    assert(s[k] == d[k]);
                }
            }
            assert forall|k: int| 0 <= k < insert_pos::<R>(s, t) implies time_le(#[trigger] s[k].time_of(), t) by {
                assert(s[k] == d[k]);
            }
        } else {
            assert forall|k: int| 0 <= k < insert_pos::<R>(s, t) implies time_le(#[trigger] s[k].time_of(), t) by {
                if k < s.len() - 1 {
                    assert(time_le(s[k].time_of(), s[s.len() - 1].time_of()));
                }
            }
        }
    }
}

/// Sorting orders the samples by time and keeps every sample: the result is
/// a sorted permutation of the input.
pub proof fn lemma_sort_by_time_sorted_permutation<R: MetricRecord>(s: Seq<R>)
    ensures
        time_sorted(sort_by_time::<R>(s)),
        sort_by_time::<R>(s).to_multiset() == s.to_multiset(),
    decreases s.len(),
{
    broadcast use vstd::seq_lib::to_multiset_build, vstd::seq_lib::to_multiset_insert;

    if s.len() == 0 {
    } else {
        let d = s.drop_last();
        let x = s.last();
        lemma_sort_by_time_sorted_permutation(d);
        let sorted = sort_by_time::<R>(d);
        let pos = insert_pos::<R>(sorted, x.time_of());
        lemma_insert_pos_bounds(sorted, x.time_of());
        let out = sorted.insert(pos as int, x);
        assert forall|i: int, j: int| 0 <= i < j < out.len() implies time_le(out[i].time_of(), out[j].time_of()) by {
            if j < pos {
                assert(out[i] == sorted[i] && out[j] == sorted[j]);
            } else if j == pos {
                assert(out[i] == sorted[i]);
            } else if i < pos {
                assert(out[i] == sorted[i] && out[j] == sorted[j - 1]);
                assert(time_le(sorted[i].time_of(), x.time_of()));
                assert(time_lt(x.time_of(), sorted[j - 1].time_of()));
            } else if i == pos {
                assert(out[j] == sorted[j - 1]);
            } else {
                assert(out[i] == sorted[i - 1] && out[j] == sorted[j - 1]);
            }
        }
        assert(d.push(x) == s);
    }
}

/// Orders `v` by time, keeping the order of samples with equal times.
pub fn sort_rows<R: MetricRecord>(v: &Vec<R>) -> (out: Vec<R>)
    ensures
        out@ == sort_by_time::<R>(v@),
{
    let mut out: Vec<R> = Vec::new();
    let mut i: usize = 0;
    while i < v.len()
        invariant
            0 <= i <= v@.len(),
            out@ == sort_by_time::<R>(v@.take(i as int)),
        decreases v.len() - i,
    {
        let x = v[i];
        let t = x.time();
        assert(v@.take(i + 1).drop_last() == v@.take(i as int));
        assert(v@.take(i + 1).last() == x);
        proof {
            lemma_sort_len::<R>(v@.take(i as int));
        }
        let mut j = out.len();
        assert(out@.take(j as int) == out@);
        while j > 0 && t.lt(&out[j - 1].time())
            invariant
                0 <= j <= out@.len(),
                insert_pos::<R>(out@, t) == insert_pos::<R>(out@.take(j as int), t),
            decreases j,
        {
            assert(out@.take(j as int).drop_last() == out@.take(j - 1));
            j = j - 1;
        }
        proof {
            if j > 0 {
                assert(out@.take(j as int).last() == out@[j - 1]);
            }
        }
        out.insert(j, x);
        i = i + 1;
    }
    assert(v@.take(v@.len() as int) == v@);
    out
}

/// The page of `s` after skipping `offset` samples (none where absent) and
/// taking at most `limit` (all where absent).
pub open spec fn page<R>(s: Seq<R>, limit: Option<usize>, offset: Option<usize>) -> Seq<R> {
    let off = match offset {
        Some(o) => o as int,
        None => 0,
    };
    let lim = match limit {
        Some(l) => l as int,
        None => s.len() as int,
    };
    let from = if off < s.len() { off } else { s.len() as int };
    let to = if lim < s.len() - from { from + lim } else { s.len() as int };
    s.subrange(from, to)
}

/// A page skips `offset` samples (none where absent) and then holds the next
/// `limit` of them (all the rest where absent), in order.
pub proof fn lemma_page<R>(s: Seq<R>, limit: Option<usize>, offset: Option<usize>)
    ensures
        ({
            let off: int = if let Some(o) = offset { o as int } else { 0 };
            let left: int = if off < s.len() { s.len() - off } else { 0 };
            let n: int = if let Some(l) = limit { if (l as int) < left { l as int } else { left } } else { left };
            &&& page(s, limit, offset).len() == n
            &&& forall|k: int| 0 <= k < n ==> #[trigger] page(s, limit, offset)[k] == s[off + k]
        }),
{
}

/// `data.into_iter().skip(offset.unwrap_or(0)).take(limit.unwrap_or(data.len()))`.
pub fn page_rows<R: Copy>(data: &Vec<R>, limit: Option<usize>, offset: Option<usize>) -> (out: Vec<R>)
    ensures
        out@ == page(data@, limit, offset),
{
    let n = data.len();
    let off = match offset {
        Some(o) => o,
        None => 0,
    };
    let lim = match limit {
        Some(l) => l,
        None => n,
    };
    let from = if off < n { off } else { n };
    let to = if lim < n - from { from + lim } else { n };
    let mut out: Vec<R> = Vec::new();
    let mut i = from;
    while i < to
        invariant
            from <= i <= to <= n,
            n == data@.len(),
            out@ =~= data@.subrange(from as int, i as int),
        decreases to - i,
    {
        out.push(data[i]);
        i = i + 1;
    }
    out
}

/// Orders samples by time and returns the requested page (the last step of
/// `get_row_between`).
pub fn sort_and_page<R: MetricRecord>(data: &Vec<R>, limit: Option<usize>, offset: Option<usize>) -> (out: Vec<R>)
    ensures
        out@ == page(sort_by_time::<R>(data@), limit, offset),
{
    let sorted = sort_rows(data);
    page_rows(&sorted, limit, offset)
}


// ---------------------------------------------------------------------------
// Several files
// ---------------------------------------------------------------------------

/// Views of the lines of several files.
pub open spec fn file_views(files: Seq<Vec<String>>) -> Seq<Seq<Seq<char>>> {
    files.map_values(|f: Vec<String>| views(f@))
}

/// The samples of every file (each read as [`header_rows`] says), in file order.
pub open spec fn files_header_rows<R: MetricRecord>(files: Seq<Seq<Seq<char>>>, start: UtcTime, end: UtcTime) -> Seq<R>
    decreases files.len(),
{
    if files.len() == 0 {
        Seq::<R>::empty()
    } else {
        files_header_rows::<R>(files.drop_last(), start, end) + header_rows::<R>(files.last(), start, end)
    }
}

/// The samples of every file (each read as [`scan`] says under the standard
/// header, skipping blank lines), in file order.
pub open spec fn files_plain_rows<R: MetricRecord>(files: Seq<Seq<Seq<char>>>, start: UtcTime, end: UtcTime) -> Seq<R>
    decreases files.len(),
{
    if files.len() == 0 {
        Seq::<R>::empty()
    } else {
        files_plain_rows::<R>(files.drop_last(), start, end) + scan::<R>(files.last(), R::width() + 1, true, start, end)
    }
}

/// Whether reading some file as [`header_rows`] does indexes past a line's fields.
pub open spec fn files_header_panic<R: MetricRecord>(files: Seq<Seq<Seq<char>>>, start: UtcTime, end: UtcTime) -> bool {
    exists|i: int| 0 <= i < files.len() && header_panics::<R>(#[trigger] files[i], start, end)
}

/// Reads the samples of every file as [`files_header_rows`] says; `None` where
/// [`files_header_panic`] holds.
pub fn try_files_header_rows<R: MetricRecord>(files: &Vec<Vec<String>>, start: UtcTime, end: UtcTime) -> (r: Option<Vec<R>>)
    ensures
        r is None <==> files_header_panic::<R>(file_views(files@), start, end),
        r matches Some(v) ==> v@ == files_header_rows::<R>(file_views(files@), start, end),
{
    let ghost fv = file_views(files@);
    let mut acc: Vec<R> = Vec::new();
    let mut i: usize = 0;
    while i < files.len()
        invariant
            0 <= i <= files@.len(),
            fv == file_views(files@),
            acc@ == files_header_rows::<R>(fv.take(i as int), start, end),
            forall|k: int| 0 <= k < i ==> !header_panics::<R>(#[trigger] fv[k], start, end),
        decreases files.len() - i,
    {
        assert(fv.take(i + 1).drop_last() == fv.take(i as int));
        assert(fv[i as int] == views(files@[i as int]@));
        match try_header_rows::<R>(&files[i], start, end) {
            Ok(mut v) => {
                acc.append(&mut v);
            },
            Err(_) => {
                return None;
            },
        }
        i = i + 1;
    }
    assert(fv.take(files@.len() as int) == fv);
    Some(acc)
}

/// Reads the samples of every file as [`files_plain_rows`] says.
pub fn files_plain_rows_of<R: MetricRecord>(files: &Vec<Vec<String>>, start: UtcTime, end: UtcTime) -> (v: Vec<R>)
    ensures
        v@ == files_plain_rows::<R>(file_views(files@), start, end),
{
    let ghost fv = file_views(files@);
    let w = R::width_exec();
    proof {
        R::lemma_names();
    }
    let mut acc: Vec<R> = Vec::new();
    let mut i: usize = 0;
    while i < files.len()
        invariant
            0 <= i <= files@.len(),
            w == R::width(),
            w < 64,
            fv == file_views(files@),
            acc@ == files_plain_rows::<R>(fv.take(i as int), start, end),
        decreases files.len() - i,
    {
        assert(fv.take(i + 1).drop_last() == fv.take(i as int));
        assert(fv[i as int] == views(files@[i as int]@));
        assert(views(files@[i as int]@).skip(0) == views(files@[i as int]@));
        match scan_lines::<R>(&files[i], 0, w + 1, true, start, end) {
            Ok(mut v) => {
                acc.append(&mut v);
            },
            Err(_) => {
                proof {
                    lemma_full_header_never_panics::<R>(fv[i as int], (w + 1) as nat, true, start, end);
                }
            },
        }
        i = i + 1;
    }
    assert(fv.take(files@.len() as int) == fv);
    acc
}

} // verus!
