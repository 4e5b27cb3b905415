//! Which files hold the samples of a time window, and which files have aged out.
//!
//! Day files are named by year (`2025.rcd`), hour files by month (`2025-02.rcd`).
use vstd::prelude::*;
use crate::text::{split, split_str, trim, trim_str, parse_i32_spec, parse_u32_spec, parse_i32, parse_u32, str_eq, chars_of, string_from_range};
use crate::time::{min_date_year, max_date_year};

verus! {

// ---------------------------------------------------------------------------
// Partitions of a window
// ---------------------------------------------------------------------------

/// The years `a, a + 1, ..., b` (none where `a > b`).
pub open spec fn years_from(a: int, b: int) -> Seq<i32>
    decreases b - a + 1,
{
    if a > b {
        Seq::<i32>::empty()
    } else {
        seq![a as i32] + years_from(a + 1, b)
    }
}

/// The years from `a` to `b`, one after the other.
pub fn years_between(a: i32, b: i32) -> (v: Vec<i32>)
    requires
        b < i32::MAX,
    ensures
        v@ == years_from(a as int, b as int),
{
    let mut v: Vec<i32> = Vec::new();
    let mut y = a;
    while y <= b
        invariant
            a <= y || a > b,
            y <= b + 1 || y == a,
            b < i32::MAX,
            v@ + years_from(y as int, b as int) == years_from(a as int, b as int),
        decreases b - y + 1,
    {
        v.push(y);
        assert(v@ + years_from(y + 1, b as int) == v@.drop_last() + (seq![y] + years_from(y + 1, b as int)));
        y = y + 1;
    }
    assert(v@ + Seq::<i32>::empty() == v@);
    v
}

/// Position of a month on a single count.
pub open spec fn month_number(y: int, m: int) -> int {
    y * 12 + m
}

/// The month after `(y, m)`.
pub open spec fn next_month(y: int, m: int) -> (int, int) {
    if m >= 12 { (y + 1, 1) } else { (y, m + 1) }
}

/// The months from `(y, m)` to `(ey, em)`, one after the other (none where the
/// first is later than the last).
pub open spec fn months_from(y: int, m: int, ey: int, em: int) -> Seq<(i32, u32)>
    decreases month_number(ey, em) - month_number(y, m) + 1,
{
    if month_number(y, m) > month_number(ey, em) || !(1 <= m <= 12) {
        Seq::<(i32, u32)>::empty()
    } else {
        let n = next_month(y, m);
        seq![(y as i32, m as u32)] + months_from(n.0, n.1, ey, em)
    }
}

/// The months from `(sy, sm)` to `(ey, em)`.
pub fn months_between(sy: i32, sm: u32, ey: i32, em: u32) -> (v: Vec<(i32, u32)>)
    requires
        1 <= sm <= 12,
        1 <= em <= 12,
        ey < i32::MAX,
    ensures
        v@ == months_from(sy as int, sm as int, ey as int, em as int),
{
    let mut v: Vec<(i32, u32)> = Vec::new();
    let mut y = sy;
    let mut m = sm;
    while y < ey || (y == ey && m <= em)
        invariant
            1 <= m <= 12,
            1 <= em <= 12,
            ey < i32::MAX,
            month_number(y as int, m as int) <= month_number(ey as int, em as int) + 1 || (y == sy && m == sm),
            v@ + months_from(y as int, m as int, ey as int, em as int)
                == months_from(sy as int, sm as int, ey as int, em as int),
        decreases month_number(ey as int, em as int) - month_number(y as int, m as int) + 1,
    {
        let ghost n = next_month(y as int, m as int);
        v.push((y, m));
        assert(v@ + months_from(n.0, n.1, ey as int, em as int)
            == v@.drop_last() + (seq![(y, m)] + months_from(n.0, n.1, ey as int, em as int)));
        if m == 12 {
            y = y + 1;
            m = 1;
        } else {
            m = m + 1;
        }
    }
    assert(v@ + Seq::<(i32, u32)>::empty() == v@);
    v
}

// ---------------------------------------------------------------------------
// File names
// ---------------------------------------------------------------------------

/// Index of the last `.` in `f`.
pub open spec fn last_dot(f: Seq<char>) -> Option<nat>
    decreases f.len(),
{
    if f.len() == 0 {
        None
    } else if f.last() == '.' {
        Some((f.len() - 1) as nat)
    } else {
        last_dot(f.drop_last())
    }
}

/// `(Path::file_stem, Path::extension)` of a file name: split at the last `.`,
/// except that a name whose only `.` leads it, or the name `..`, has no extension.
pub open spec fn stem_and_extension(f: Seq<char>) -> (Seq<char>, Option<Seq<char>>) {
    if f == seq!['.', '.'] {
        (f, None)
    } else {
        match last_dot(f) {
            None => (f, None),
            Some(d) => if d == 0 {
                (f, None)
            } else {
                (f.take(d as int), Some(f.skip(d + 1 as int)))
            },
        }
    }
}

proof fn lemma_last_dot(f: Seq<char>, j: int)
    requires
        0 <= j <= f.len(),
        forall|k: int| j <= k < f.len() ==> f[k] != '.',
        j == 0 || f[j - 1] == '.',
    ensures
        last_dot(f) == (if j == 0 { None::<nat> } else { Some((j - 1) as nat) }),
    decreases f.len() - j,
{
    if j < f.len() {
        lemma_last_dot(f.drop_last(), j);
    }
}

/// File stem and extension of a file name, as [`stem_and_extension`] says.
pub fn file_stem_and_extension(f: &str) -> (r: (String, Option<String>))
    ensures
        r.0@ == stem_and_extension(f@).0,
        match r.1 {
            Some(e) => stem_and_extension(f@).1 == Some(e@),
            None => stem_and_extension(f@).1 is None,
        },
{
    let cs = chars_of(f);
    let n = cs.len();
    let mut j = n;
    while j > 0 && cs[j - 1] != '.'
        invariant
            n == cs@.len(),
            cs@ == f@,
            0 <= j <= n,
            forall|k: int| j <= k < n ==> cs@[k] != '.',
        decreases j,
    {
        j = j - 1;
    }
    proof {
        lemma_last_dot(cs@, j as int);
    }
    assert(cs@.subrange(0, n as int) == cs@);
    if n == 2 && cs[0] == '.' && cs[1] == '.' {
        assert(f@ == seq!['.', '.']);
        return (string_from_range(cs.as_slice(), 0, n), None);
    }
    assert(f@ != seq!['.', '.']);
    if j <= 1 {
        return (string_from_range(cs.as_slice(), 0, n), None);
    }
    assert(cs@.subrange(0, j - 1) == cs@.take(j - 1));
    assert(cs@.subrange(j as int, n as int) == cs@.skip(j as int));
    (string_from_range(cs.as_slice(), 0, j - 1), Some(string_from_range(cs.as_slice(), j, n)))
}

/// Whether a day file (`YYYY.rcd`) holds a year before `cutoff_year`.
pub open spec fn day_file_expired(f: Seq<char>, cutoff_year: i32) -> bool {
    let (stem, ext) = stem_and_extension(f);
    ext == Some("rcd"@) && match parse_i32_spec(trim(stem)) {
        Some(y) => y < cutoff_year,
        None => false,
    }
}

/// Whether an hour file (`YYYY-MM.rcd`) holds a month before `(cy, cm)`.
pub open spec fn hour_file_expired(f: Seq<char>, cy: i32, cm: u32) -> bool {
    let (stem, ext) = stem_and_extension(f);
    let parts = split(trim(stem), '-');
    ext == Some("rcd"@) && parts.len() == 2 && match (parse_i32_spec(parts[0]), parse_u32_spec(parts[1])) {
        (Some(y), Some(m)) => 1 <= m <= 12 && min_date_year() <= y <= max_date_year() && (y < cy || (y == cy
            && m < cm)),
        _ => false,
    }
}

/// Decides [`day_file_expired`] (the per-file test of the day adapters' `cleanup_old`).
pub fn is_day_file_expired(f: &str, cutoff_year: i32) -> (r: bool)
    ensures
        r == day_file_expired(f@, cutoff_year),
{
    let (stem, ext) = file_stem_and_extension(f);
    let is_rcd = match &ext {
        Some(e) => str_eq(e.as_str(), "rcd"),
        None => false,
    };
    if !is_rcd {
        return false;
    }
    let t = trim_str(stem.as_str());
    match parse_i32(t.as_str()) {
        Some(y) => y < cutoff_year,
        None => false,
    }
}

/// Decides [`hour_file_expired`] (the per-file test of the hour adapter's `cleanup_old`).
pub fn is_hour_file_expired(f: &str, cy: i32, cm: u32) -> (r: bool)
    ensures
        r == hour_file_expired(f@, cy, cm),
{
    let (stem, ext) = file_stem_and_extension(f);
    let is_rcd = match &ext {
        Some(e) => str_eq(e.as_str(), "rcd"),
        None => false,
    };
    if !is_rcd {
        return false;
    }
    let t = trim_str(stem.as_str());
    let parts = split_str(t.as_str(), '-');
    if parts.len() != 2 {
        return false;
    }
    assert(crate::text::views(parts@)[0] == parts@[0]@);
    assert(crate::text::views(parts@)[1] == parts@[1]@);
    match (parse_i32(parts[0].as_str()), parse_u32(parts[1].as_str())) {
        (Some(y), Some(m)) => 1 <= m && m <= 12 && -262143 <= y && y <= 262142 && (y < cy || (y == cy
            && m < cm)),
        _ => false,
    }
}

} // verus!
