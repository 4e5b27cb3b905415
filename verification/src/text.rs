//! Character-level text utilities with exact specifications.
//!
//! Everything here works on the character view (`Seq<char>`) of strings.
//! The semantics follow the standard library functions they stand for:
//! `str::trim`, `str::split(char)`, `str::to_ascii_uppercase`,
//! `str::eq_ignore_ascii_case` and the decimal `FromStr` / `Display`
//! of the unsigned and signed integer types.
use vstd::prelude::*;

verus! {

/// Appending one character to a `String` extends its character view by that character.
pub assume_specification[ String::push ](s: &mut String, ch: char)
    ensures
        final(s)@ == old(s)@.push(ch),
;

// ---------------------------------------------------------------------------
// Conversions between strings and character vectors
// ---------------------------------------------------------------------------

/// Copies the characters of `s` into a vector.
pub fn chars_of(s: &str) -> (v: Vec<char>)
    ensures
        v@ == s@,
{
    let mut v: Vec<char> = Vec::new();
    for c in it: s.chars()
        invariant
            v@ == it.seq().take(it.index() as int),
    {
        v.push(c);
    }
    v
}

/// Builds a string from the characters `cs[from..to]`.
pub fn string_from_range(cs: &[char], from: usize, to: usize) -> (s: String)
    requires
        from <= to <= cs@.len(),
    ensures
        s@ == cs@.subrange(from as int, to as int),
{
    let mut s = String::new();
    let mut i = from;
    while i < to
        invariant
            from <= i <= to <= cs@.len(),
            s@ == cs@.subrange(from as int, i as int),
        decreases to - i,
    {
        s.push(cs[i]);
        assert(cs@.subrange(from as int, i + 1) == cs@.subrange(from as int, i as int).push(cs@[i as int]));
        i = i + 1;
    }
    s
}

/// Builds a string holding exactly the characters of `cs`.
pub fn string_from_chars(cs: &[char]) -> (s: String)
    ensures
        s@ == cs@,
{
    let s = string_from_range(cs, 0, cs.len());
    assert(cs@.subrange(0, cs@.len() as int) == cs@);
    s
}

/// Appends the characters of `t` to `s`.
pub fn push_all(s: &mut String, t: &str)
    ensures
        final(s)@ == old(s)@ + t@,
{
    let cs = chars_of(t);
    let mut i: usize = 0;
    while i < cs.len()
        invariant
            0 <= i <= cs@.len(),
            cs@ == t@,
            s@ == old(s)@ + cs@.subrange(0, i as int),
        decreases cs.len() - i,
    {
        s.push(cs[i]);
        assert(cs@.subrange(0, i + 1) == cs@.subrange(0, i as int).push(cs@[i as int]));
        i = i + 1;
    }
    assert(cs@.subrange(0, cs@.len() as int) == cs@);
}

/// Whether two strings hold the same characters.
pub fn str_eq(a: &str, b: &str) -> (r: bool)
    ensures
        r == (a@ == b@),
{
    let x = chars_of(a);
    let y = chars_of(b);
    if x.len() != y.len() {
        return false;
    }
    let mut i: usize = 0;
    while i < x.len()
        invariant
            x@ == a@,
            y@ == b@,
            x@.len() == y@.len(),
            0 <= i <= x@.len(),
            forall|k: int| 0 <= k < i ==> x@[k] == y@[k],
        decreases x.len() - i,
    {
        if x[i] != y[i] {
            return false;
        }
        i = i + 1;
    }
    assert(x@ =~= y@);
    true
}

// ---------------------------------------------------------------------------
// Whitespace and trimming
// ---------------------------------------------------------------------------

/// The Unicode `White_Space` property, as used by `char::is_whitespace`.
pub open spec fn is_ws(c: char) -> bool {
    let u = c as u32;
    (0x09 <= u && u <= 0x0D) || u == 0x20 || u == 0x85 || u == 0xA0 || u == 0x1680
        || (0x2000 <= u && u <= 0x200A) || u == 0x2028 || u == 0x2029 || u == 0x202F
        || u == 0x205F || u == 0x3000
}

/// Executable form of [`is_ws`].
pub fn char_is_ws(c: char) -> (r: bool)
    ensures
        r == is_ws(c),
{
    let u = c as u32;
    (0x09 <= u && u <= 0x0D) || u == 0x20 || u == 0x85 || u == 0xA0 || u == 0x1680
        || (0x2000 <= u && u <= 0x200A) || u == 0x2028 || u == 0x2029 || u == 0x202F
        || u == 0x205F || u == 0x3000
}

/// Number of leading whitespace characters of `s`.
pub open spec fn lead_ws(s: Seq<char>) -> nat
    decreases s.len(),
{
    if s.len() > 0 && is_ws(s[0]) {
        1 + lead_ws(s.drop_first())
    } else {
        0
    }
}

/// Number of trailing whitespace characters of `s`.
pub open spec fn trail_ws(s: Seq<char>) -> nat
    decreases s.len(),
{
    if s.len() > 0 && is_ws(s.last()) {
        1 + trail_ws(s.drop_last())
    } else {
        0
    }
}

/// `s` without leading and trailing whitespace (`str::trim`).
pub open spec fn trim(s: Seq<char>) -> Seq<char> {
    let a = s.skip(lead_ws(s) as int);
    a.take(a.len() - trail_ws(a))
}

proof fn lemma_lead_ws(s: Seq<char>, i: int)
    requires
        0 <= i <= s.len(),
        forall|k: int| 0 <= k < i ==> is_ws(#[trigger] s[k]),
        i == s.len() || !is_ws(s[i]),
    ensures
        lead_ws(s) == i,
    decreases i,
{
    if i > 0 {
        lemma_lead_ws(s.drop_first(), i - 1);
    }
}

proof fn lemma_trail_ws(s: Seq<char>, j: int)
    requires
        0 <= j <= s.len(),
        forall|k: int| j <= k < s.len() ==> is_ws(#[trigger] s[k]),
        j == 0 || !is_ws(s[j - 1]),
    ensures
        trail_ws(s) == s.len() - j,
    decreases s.len() - j,
{
    if j < s.len() {
        lemma_trail_ws(s.drop_last(), j);
    }
}

/// Text that neither starts nor ends with whitespace is its own trim.
pub proof fn lemma_trim_unchanged(s: Seq<char>)
    requires
        s.len() == 0 || (!is_ws(s[0]) && !is_ws(s.last())),
    ensures
        trim(s) == s,
{
    if s.len() > 0 {
        lemma_lead_ws(s, 0);
        assert(s.skip(0) == s);
        lemma_trail_ws(s, s.len() as int);
    } else {
        assert(lead_ws(s) == 0);
        assert(s.skip(0) == s);
    }
    assert(s.take(s.len() as int) == s);
}

proof fn lemma_ws_bounds(s: Seq<char>)
    ensures
        lead_ws(s) <= s.len(),
        trail_ws(s) <= s.len(),
    decreases s.len(),
{
    if s.len() > 0 {
        lemma_ws_bounds(s.drop_first());
        lemma_ws_bounds(s.drop_last());
    }
}

/// Text that is its own trim neither starts nor ends with whitespace.
pub proof fn lemma_trim_fixed_ends(s: Seq<char>)
    requires
        trim(s) == s,
        s.len() > 0,
    ensures
        !is_ws(s[0]),
        !is_ws(s.last()),
{
    lemma_ws_bounds(s);
    lemma_ws_bounds(s.skip(lead_ws(s) as int));
    if is_ws(s[0]) {
        assert(lead_ws(s) >= 1);
        assert(trim(s).len() < s.len());
    }
    if is_ws(s.last()) {
        let a = s.skip(lead_ws(s) as int);
        if lead_ws(s) == 0 {
            assert(a == s);
            assert(trail_ws(a) >= 1);
        }
        assert(trim(s).len() < s.len());
    }
}

/// Start and end (exclusive) of the trimmed part of `cs`.
pub fn trim_bounds(cs: &[char]) -> (r: (usize, usize))
    ensures
        r.0 <= r.1 <= cs@.len(),
        cs@.subrange(r.0 as int, r.1 as int) == trim(cs@),
{
    let n = cs.len();
    let mut i: usize = 0;
    while i < n && char_is_ws(cs[i])
        invariant
            n == cs@.len(),
            0 <= i <= n,
            forall|k: int| 0 <= k < i ==> is_ws(#[trigger] cs@[k]),
        decreases n - i,
    {
        i = i + 1;
    }
    let mut j: usize = n;
    while j > i && char_is_ws(cs[j - 1])
        invariant
            n == cs@.len(),
            0 <= i <= j <= n,
            forall|k: int| j <= k < n ==> is_ws(#[trigger] cs@[k]),
        decreases j,
    {
        j = j - 1;
    }
    proof {
        let s = cs@;
        lemma_lead_ws(s, i as int);
        let a = s.skip(i as int);
        assert forall|k: int| j - i <= k < a.len() implies is_ws(#[trigger] a[k]) by {
            assert(a[k] == s[k + i]);
        }
        if j > i {
            assert(a[j - i - 1] == s[j - 1]);
        }
        lemma_trail_ws(a, j - i);
        assert(a.take(j - i) =~= s.subrange(i as int, j as int));
    }
    (i, j)
}

/// `str::trim`, returning an owned string.
pub fn trim_str(s: &str) -> (r: String)
    ensures
        r@ == trim(s@),
{
    let cs = chars_of(s);
    let (i, j) = trim_bounds(cs.as_slice());
    string_from_range(cs.as_slice(), i, j)
}

/// Whether the trimmed form of `s` is empty (`s.trim().is_empty()`).
pub fn is_blank(s: &str) -> (r: bool)
    ensures
        r == (trim(s@).len() == 0),
{
    let cs = chars_of(s);
    let (i, j) = trim_bounds(cs.as_slice());
    i == j
}

// ---------------------------------------------------------------------------
// Splitting
// ---------------------------------------------------------------------------

/// The pieces of `s` between occurrences of `sep` (`str::split(char)`).
/// There is always one more piece than there are separators.
pub open spec fn split(s: Seq<char>, sep: char) -> Seq<Seq<char>>
    decreases s.len(),
{
    if s.len() == 0 {
        seq![Seq::<char>::empty()]
    } else {
        let rest = split(s.drop_last(), sep);
        if s.last() == sep {
            rest.push(Seq::<char>::empty())
        } else {
            rest.update(rest.len() - 1, rest.last().push(s.last()))
        }
    }
}

pub proof fn lemma_split_nonempty(s: Seq<char>, sep: char)
    ensures
        split(s, sep).len() >= 1,
    decreases s.len(),
{
    if s.len() > 0 {
        lemma_split_nonempty(s.drop_last(), sep);
    }
}

/// Appending text without the separator extends the last piece.
pub proof fn lemma_split_append_plain(a: Seq<char>, b: Seq<char>, sep: char)
    requires
        forall|i: int| 0 <= i < b.len() ==> b[i] != sep,
    ensures
        split(a + b, sep) == split(a, sep).update(split(a, sep).len() - 1, split(a, sep).last() + b),
    decreases b.len(),
{
    lemma_split_nonempty(a, sep);
    if b.len() == 0 {
        assert(a + b == a);
        assert(split(a, sep).last() + b == split(a, sep).last());
        assert(split(a, sep).update(split(a, sep).len() - 1, split(a, sep).last()) =~= split(a, sep));
    } else {
        let b1 = b.drop_last();
        lemma_split_append_plain(a, b1, sep);
        assert((a + b).drop_last() == a + b1);
        assert((a + b).last() == b.last());
        assert(split(a, sep).last() + b1 + seq![b.last()] == split(a, sep).last() + b);
        let rest = split(a + b1, sep);
        assert(rest.len() == split(a, sep).len());
        assert(rest.last() == split(a, sep).last() + b1);
        assert(rest.last().push(b.last()) =~= split(a, sep).last() + b);
        assert(rest.update(rest.len() - 1, rest.last().push(b.last())) =~= split(a, sep).update(
            split(a, sep).len() - 1,
            split(a, sep).last() + b,
        ));
    }
}

/// Text without the separator is one piece.
pub proof fn lemma_split_plain(t: Seq<char>, sep: char)
    requires
        forall|i: int| 0 <= i < t.len() ==> t[i] != sep,
    ensures
        split(t, sep) == seq![t],
{
    lemma_split_append_plain(Seq::empty(), t, sep);
    assert(Seq::<char>::empty() + t == t);
    assert(seq![Seq::<char>::empty()].update(0, Seq::<char>::empty() + t) =~= seq![t]);
}

/// A separator followed by text without it starts a new last piece.
pub proof fn lemma_split_sep_plain(a: Seq<char>, b: Seq<char>, sep: char)
    requires
        forall|i: int| 0 <= i < b.len() ==> b[i] != sep,
    ensures
        split(a + seq![sep] + b, sep) == split(a, sep).push(b),
{
    let a1 = a + seq![sep];
    assert(a1.drop_last() == a);
    assert(a1.last() == sep);
    assert(split(a1, sep) == split(a, sep).push(Seq::<char>::empty()));
    lemma_split_append_plain(a1, b, sep);
    assert(Seq::<char>::empty() + b == b);
    assert(split(a, sep).push(Seq::<char>::empty()).update(split(a, sep).len() as int, b) =~= split(a, sep).push(b));
}

/// Views of a vector of strings.
pub open spec fn views(v: Seq<String>) -> Seq<Seq<char>> {
    v.map_values(|x: String| x@)
}

/// Splits `s` at every occurrence of `sep`.
pub fn split_chars(s: &[char], sep: char) -> (parts: Vec<String>)
    ensures
        views(parts@) == split(s@, sep),
{
    let mut parts: Vec<String> = Vec::new();
    let mut cur = String::new();
    let mut i: usize = 0;
    while i < s.len()
        invariant
            0 <= i <= s@.len(),
            views(parts@).push(cur@) == split(s@.take(i as int), sep),
        decreases s.len() - i,
    {
        let ghost pre = s@.take(i as int);
        assert(s@.take(i + 1).drop_last() == pre);
        proof {
            lemma_split_nonempty(pre, sep);
        }
        if s[i] == sep {
            let done = cur;
            parts.push(done);
            cur = String::new();
            assert(views(parts@).push(cur@) =~= split(s@.take(i + 1), sep));
        } else {
            cur.push(s[i]);
            assert(views(parts@).push(cur@) =~= split(s@.take(i + 1), sep));
        }
        i = i + 1;
    }
    assert(s@.take(s@.len() as int) == s@);
    parts.push(cur);
    assert(views(parts@) =~= split(s@, sep));
    parts
}

/// Splits the string `s` at every occurrence of `sep`.
pub fn split_str(s: &str, sep: char) -> (parts: Vec<String>)
    ensures
        views(parts@) == split(s@, sep),
{
    let cs = chars_of(s);
    split_chars(cs.as_slice(), sep)
}


// ---------------------------------------------------------------------------
// ASCII case
// ---------------------------------------------------------------------------

/// `char::to_ascii_uppercase`.
pub open spec fn ascii_upper(c: char) -> char {
    if 'a' <= c && c <= 'z' {
        ((c as u32) - 32) as char
    } else {
        c
    }
}

/// `char::to_ascii_lowercase`.
pub open spec fn ascii_lower(c: char) -> char {
    if 'A' <= c && c <= 'Z' {
        ((c as u32) + 32) as char
    } else {
        c
    }
}

/// `str::to_ascii_uppercase` on the character view.
pub open spec fn upper_seq(s: Seq<char>) -> Seq<char> {
    s.map_values(|c: char| ascii_upper(c))
}

/// `str::to_ascii_lowercase` on the character view.
pub open spec fn lower_seq(s: Seq<char>) -> Seq<char> {
    s.map_values(|c: char| ascii_lower(c))
}

/// Executable form of [`ascii_upper`].
pub fn char_upper(c: char) -> (r: char)
    ensures
        r == ascii_upper(c),
{
    if 'a' <= c && c <= 'z' {
        let u = (c as u8) - 32;
        u as char
    } else {
        c
    }
}

/// Executable form of [`ascii_lower`].
pub fn char_lower(c: char) -> (r: char)
    ensures
        r == ascii_lower(c),
{
    if 'A' <= c && c <= 'Z' {
        let u = (c as u8) + 32;
        u as char
    } else {
        c
    }
}

/// `str::to_ascii_uppercase`.
pub fn to_ascii_upper(s: &str) -> (r: String)
    ensures
        r@ == upper_seq(s@),
{
    let cs = chars_of(s);
    let mut out = String::new();
    let mut i: usize = 0;
    while i < cs.len()
        invariant
            cs@ == s@,
            0 <= i <= cs@.len(),
            out@ == upper_seq(cs@.take(i as int)),
        decreases cs.len() - i,
    {
        let u = char_upper(cs[i]);
        out.push(u);
        assert(upper_seq(cs@.take(i + 1)) =~= upper_seq(cs@.take(i as int)).push(u));
        i = i + 1;
    }
    assert(cs@.take(cs@.len() as int) == cs@);
    out
}

/// `str::to_ascii_lowercase`.
pub fn to_ascii_lower(s: &str) -> (r: String)
    ensures
        r@ == lower_seq(s@),
{
    let cs = chars_of(s);
    let mut out = String::new();
    let mut i: usize = 0;
    while i < cs.len()
        invariant
            cs@ == s@,
            0 <= i <= cs@.len(),
            out@ == lower_seq(cs@.take(i as int)),
        decreases cs.len() - i,
    {
        let u = char_lower(cs[i]);
        out.push(u);
        assert(lower_seq(cs@.take(i + 1)) =~= lower_seq(cs@.take(i as int)).push(u));
        i = i + 1;
    }
    assert(cs@.take(cs@.len() as int) == cs@);
    out
}

/// `str::is_empty`.
pub fn is_empty_text(s: &str) -> (r: bool)
    ensures
        r == (s@.len() == 0),
{
    chars_of(s).len() == 0
}

/// `str::eq_ignore_ascii_case`.
pub fn eq_ignore_ascii_case(a: &str, b: &str) -> (r: bool)
    ensures
        r == (lower_seq(a@) == lower_seq(b@)),
{
    let x = chars_of(a);
    let y = chars_of(b);
    if x.len() != y.len() {
        assert(lower_seq(a@).len() != lower_seq(b@).len());
        return false;
    }
    let mut i: usize = 0;
    while i < x.len()
        invariant
            x@ == a@,
            y@ == b@,
            x@.len() == y@.len(),
            0 <= i <= x@.len(),
            forall|k: int| 0 <= k < i ==> ascii_lower(x@[k]) == ascii_lower(y@[k]),
        decreases x.len() - i,
    {
        if char_lower(x[i]) != char_lower(y[i]) {
            assert(lower_seq(a@)[i as int] != lower_seq(b@)[i as int]);
            return false;
        }
        i = i + 1;
    }
    assert(lower_seq(a@) =~= lower_seq(b@));
    true
}

/// Whether `s` begins with `p`.
pub open spec fn has_prefix(s: Seq<char>, p: Seq<char>) -> bool {
    p.len() <= s.len() && s.take(p.len() as int) == p
}

/// `str::starts_with` for a string pattern.
pub fn starts_with(s: &str, p: &str) -> (r: bool)
    ensures
        r == has_prefix(s@, p@),
{
    let x = chars_of(s);
    let y = chars_of(p);
    if y.len() > x.len() {
        return false;
    }
    let mut i: usize = 0;
    while i < y.len()
        invariant
            x@ == s@,
            y@ == p@,
            y@.len() <= x@.len(),
            0 <= i <= y@.len(),
            forall|k: int| 0 <= k < i ==> x@[k] == y@[k],
        decreases y.len() - i,
    {
        if x[i] != y[i] {
            assert(s@.take(p@.len() as int)[i as int] != p@[i as int]);
            return false;
        }
        i = i + 1;
    }
    assert(s@.take(p@.len() as int) =~= p@);
    true
}

// ---------------------------------------------------------------------------
// Decimal numbers
// ---------------------------------------------------------------------------

/// Whether `c` is an ASCII decimal digit.
pub open spec fn is_digit(c: char) -> bool {
    '0' <= c && c <= '9'
}

/// Numeric value of a decimal digit.
pub open spec fn digit_val(c: char) -> int {
    (c as int) - 48
}

/// The decimal digit for `d` (`0 <= d < 10`).
pub open spec fn digit_char(d: int) -> char {
    (d + 48) as char
}

/// Whether every character of `s` is a decimal digit.
pub open spec fn all_digits(s: Seq<char>) -> bool {
    forall|i: int| 0 <= i < s.len() ==> is_digit(#[trigger] s[i])
}

/// Value of a string of decimal digits (most significant first).
pub open spec fn digits_value(s: Seq<char>) -> nat
    decreases s.len(),
{
    if s.len() == 0 {
        0
    } else {
        (digits_value(s.drop_last()) * 10 + digit_val(s.last())) as nat
    }
}

/// The unsigned magnitude written in `s` after an optional leading `+`,
/// if that part is a non-empty run of decimal digits.
pub open spec fn unsigned_magnitude(s: Seq<char>) -> Option<nat> {
    let d = if s.len() > 0 && s[0] == '+' { s.drop_first() } else { s };
    if d.len() > 0 && all_digits(d) {
        Some(digits_value(d))
    } else {
        None
    }
}

/// `u64::from_str`: an optional `+`, then decimal digits, value at most `u64::MAX`.
pub open spec fn parse_u64_spec(s: Seq<char>) -> Option<u64> {
    match unsigned_magnitude(s) {
        Some(v) => if v <= u64::MAX { Some(v as u64) } else { None },
        None => None,
    }
}

/// `u32::from_str`.
pub open spec fn parse_u32_spec(s: Seq<char>) -> Option<u32> {
    match unsigned_magnitude(s) {
        Some(v) => if v <= u32::MAX { Some(v as u32) } else { None },
        None => None,
    }
}

/// `usize::from_str`.
pub open spec fn parse_usize_spec(s: Seq<char>) -> Option<usize> {
    match unsigned_magnitude(s) {
        Some(v) => if v <= usize::MAX { Some(v as usize) } else { None },
        None => None,
    }
}

/// `i32::from_str`: an optional sign, then decimal digits, value within `i32`.
pub open spec fn parse_i32_spec(s: Seq<char>) -> Option<i32> {
    if s.len() > 0 && s[0] == '-' {
        let d = s.drop_first();
        if d.len() > 0 && all_digits(d) && digits_value(d) <= 0x8000_0000 {
            Some((0 - digits_value(d)) as i32)
        } else {
            None
        }
    } else {
        match unsigned_magnitude(s) {
            Some(v) => if v <= i32::MAX { Some(v as i32) } else { None },
            None => None,
        }
    }
}

proof fn lemma_digits_value_push(s: Seq<char>, c: char)
    requires
        is_digit(c),
    ensures
        digits_value(s.push(c)) == digits_value(s) * 10 + digit_val(c),
{
    assert(s.push(c).drop_last() == s);
}

/// Value of the digits `cs[from..]` if it fits in a `u64` (all of them must be digits).
fn digits_to_u64(cs: &[char], from: usize) -> (r: Option<u64>)
    requires
        from <= cs@.len(),
        all_digits(cs@.skip(from as int)),
    ensures
        r == (if digits_value(cs@.skip(from as int)) <= u64::MAX {
            Some(digits_value(cs@.skip(from as int)) as u64)
        } else {
            None::<u64>
        }),
{
    let mut acc: u64 = 0;
    let mut i = from;
    while i < cs.len()
        invariant
            from <= i <= cs@.len(),
            all_digits(cs@.skip(from as int)),
            acc == digits_value(cs@.subrange(from as int, i as int)),
        decreases cs.len() - i,
    {
        let ghost pre = cs@.subrange(from as int, i as int);
        assert(cs@.subrange(from as int, i + 1) == pre.push(cs@[i as int]));
        proof {
            assert(cs@.skip(from as int)[i - from] == cs@[i as int]);
            assert(is_digit(cs@.skip(from as int)[i - from]));
            lemma_digits_value_push(pre, cs@[i as int]);
        }
        let d = (cs[i] as u32) - ('0' as u32);
        match acc.checked_mul(10) {
            Some(m) => match m.checked_add(d as u64) {
                Some(a) => {
                    acc = a;
                },
                None => {
                    proof {
                        lemma_digits_value_monotone(cs@.skip(from as int), i + 1 - from);
                        assert(cs@.skip(from as int).take(i + 1 - from) == cs@.subrange(from as int, i + 1));
                    }
                    return None;
                },
            },
            None => {
                proof {
                    lemma_digits_value_monotone(cs@.skip(from as int), i + 1 - from);
                    assert(cs@.skip(from as int).take(i + 1 - from) == cs@.subrange(from as int, i + 1));
                }
                return None;
            },
        }
        i = i + 1;
    }
    assert(cs@.subrange(from as int, cs@.len() as int) == cs@.skip(from as int));
    Some(acc)
}

/// A prefix of a digit string never has a larger value than the whole string.
proof fn lemma_digits_value_monotone(s: Seq<char>, k: int)
    requires
        0 <= k <= s.len(),
        all_digits(s),
    ensures
        digits_value(s.take(k)) <= digits_value(s),
    decreases s.len() - k,
{
    if k == s.len() {
        assert(s.take(k) == s);
    } else {
        lemma_digits_value_monotone(s, k + 1);
        assert(is_digit(s[k]));
        assert(s.take(k + 1) == s.take(k).push(s[k]));
        lemma_digits_value_push(s.take(k), s[k]);
    }
}

/// Splits off an optional leading `+`: the index where the digits start.
fn after_plus(cs: &[char]) -> (r: usize)
    ensures
        r <= cs@.len(),
        cs@.skip(r as int) == (if cs@.len() > 0 && cs@[0] == '+' { cs@.drop_first() } else { cs@ }),
{
    if cs.len() > 0 && cs[0] == '+' {
        assert(cs@.skip(1) == cs@.drop_first());
        1
    } else {
        assert(cs@.skip(0) == cs@);
        0
    }
}

/// Whether `cs[from..]` is non-empty and made of digits.
fn digits_from(cs: &[char], from: usize) -> (r: bool)
    requires
        from <= cs@.len(),
    ensures
        r == (cs@.skip(from as int).len() > 0 && all_digits(cs@.skip(from as int))),
{
    if from >= cs.len() {
        return false;
    }
    let mut i = from;
    while i < cs.len()
        invariant
            from <= i <= cs@.len(),
            forall|k: int| from <= k < i ==> is_digit(#[trigger] cs@[k]),
        decreases cs.len() - i,
    {
        if !('0' <= cs[i] && cs[i] <= '9') {
            assert(!is_digit(cs@.skip(from as int)[i - from]));
            return false;
        }
        i = i + 1;
    }
    assert forall|k: int| 0 <= k < cs@.skip(from as int).len() implies is_digit(#[trigger] cs@.skip(from as int)[k]) by {
        assert(cs@.skip(from as int)[k] == cs@[k + from]);
    }
    true
}

/// `u64::from_str`, returning `None` where it returns an error.
pub fn parse_u64(s: &str) -> (r: Option<u64>)
    ensures
        r == parse_u64_spec(s@),
{
    let cs = chars_of(s);
    let from = after_plus(cs.as_slice());
    if !digits_from(cs.as_slice(), from) {
        return None;
    }
    digits_to_u64(cs.as_slice(), from)
}

/// `u32::from_str`, returning `None` where it returns an error.
pub fn parse_u32(s: &str) -> (r: Option<u32>)
    ensures
        r == parse_u32_spec(s@),
{
    match parse_u64(s) {
        Some(v) => if v <= 0xFFFF_FFFF { Some(v as u32) } else { None },
        None => None,
    }
}

/// `usize::from_str`, returning `None` where it returns an error.
pub fn parse_usize(s: &str) -> (r: Option<usize>)
    ensures
        r == parse_usize_spec(s@),
{
    match parse_u64(s) {
        Some(v) => if v as u128 <= usize::MAX as u128 { Some(v as usize) } else { None },
        None => None,
    }
}

/// `i32::from_str`, returning `None` where it returns an error.
pub fn parse_i32(s: &str) -> (r: Option<i32>)
    ensures
        r == parse_i32_spec(s@),
{
    let cs = chars_of(s);
    if cs.len() > 0 && cs[0] == '-' {
        assert(cs@.skip(1) == cs@.drop_first());
        if !digits_from(cs.as_slice(), 1) {
            return None;
        }
        match digits_to_u64(cs.as_slice(), 1) {
            Some(v) => if v <= 0x8000_0000 {
                let m = v as i64;
                Some((0 - m) as i32)
            } else {
                None
            },
            None => None,
        }
    } else {
        match parse_u64(s) {
            Some(v) => if v <= 0x7FFF_FFFF { Some(v as i32) } else { None },
            None => None,
        }
    }
}

/// Decimal digits of `n` without leading zeros (`u64`'s `Display`).
pub open spec fn dec(n: nat) -> Seq<char>
    decreases n,
{
    if n < 10 {
        seq![digit_char(n as int)]
    } else {
        dec(n / 10).push(digit_char((n % 10) as int))
    }
}

/// Decimal text of `n` (`n.to_string()`).
pub fn u64_to_dec(n: u64) -> (s: String)
    ensures
        s@ == dec(n as nat),
    decreases n,
{
    if n < 10 {
        let mut s = String::new();
        s.push(((n as u8) + 48) as char);
        s
    } else {
        let mut s = u64_to_dec(n / 10);
        s.push((((n % 10) as u8) + 48) as char);
        s
    }
}

/// Decimal text of a `u32`.
pub fn u32_to_dec(n: u32) -> (s: String)
    ensures
        s@ == dec(n as nat),
{
    u64_to_dec(n as u64)
}

/// Decimal text of a `usize`.
pub fn usize_to_dec(n: usize) -> (s: String)
    ensures
        s@ == dec(n as nat),
{
    u64_to_dec(n as u64)
}

/// The decimal text of a number is digits only and reads back as that number.
pub proof fn lemma_dec_digits(n: nat)
    ensures
        dec(n).len() > 0,
        all_digits(dec(n)),
        digits_value(dec(n)) == n,
        dec(n)[0] != '+',
        dec(n)[0] != '-',
    decreases n,
{
    let d = if n < 10 { n as int } else { (n % 10) as int };
    assert(digit_char(d) as int == d + 48);
    assert(is_digit(digit_char(d)));
    assert(digit_val(digit_char(d)) == d);
    if n < 10 {
        assert(dec(n).drop_last() =~= Seq::<char>::empty());
        assert(digits_value(dec(n)) == digits_value(Seq::<char>::empty()) * 10 + digit_val(dec(n).last()));
        assert(dec(n).last() == digit_char(d));
    } else {
        lemma_dec_digits(n / 10);
        lemma_digits_value_push(dec(n / 10), digit_char((n % 10) as int));
        assert((n / 10) * 10 + n % 10 == n);
        assert(dec(n) == dec(n / 10).push(digit_char(d)));
        assert(digits_value(dec(n)) == digits_value(dec(n / 10)) * 10 + digit_val(digit_char(d)));
        assert forall|i: int| 0 <= i < dec(n).len() implies is_digit(#[trigger] dec(n)[i]) by {
            if i < dec(n / 10).len() {
                assert(dec(n)[i] == dec(n / 10)[i]);
            }
        }
    }
}

/// Reading back the decimal text of a `u64` gives the same number.
pub proof fn lemma_parse_dec_u64(n: u64)
    ensures
        parse_u64_spec(dec(n as nat)) == Some(n),
{
    lemma_dec_digits(n as nat);
}

/// Reading back the decimal text of a `u32` or `usize` gives the same number.
pub proof fn lemma_parse_dec_small(n: nat)
    ensures
        n <= u32::MAX ==> parse_u32_spec(dec(n)) == Some(n as u32),
        n <= usize::MAX ==> parse_usize_spec(dec(n)) == Some(n as usize),
{
    lemma_dec_digits(n);
}

/// Distinct numbers have distinct decimal texts.
pub proof fn lemma_dec_injective(a: nat, b: nat)
    ensures
        dec(a) == dec(b) ==> a == b,
{
    lemma_dec_digits(a);
    lemma_dec_digits(b);
}


// ---------------------------------------------------------------------------
// Unicode uppercase
// ---------------------------------------------------------------------------

/// The uppercase form of `s` under the Unicode `Uppercase` mapping (`str::to_uppercase`).
pub uninterp spec fn unicode_upper(s: Seq<char>) -> Seq<char>;

/// Whether every character of `s` is ASCII.
pub open spec fn all_ascii(s: Seq<char>) -> bool {
    forall|i: int| 0 <= i < s.len() ==> (s[i] as u32) < 128
}

/// `str::to_uppercase`.
///
/// Claims: the result is the named [`unicode_upper`]; on ASCII text it is the
/// ASCII uppercase (the Unicode mapping agrees with the ASCII one there).
#[verifier::external_body]
pub(crate) fn to_unicode_upper(s: &str) -> (r: String)
    ensures
        r@ == unicode_upper(s@),
        all_ascii(s@) ==> r@ == upper_seq(s@),
{
    s.to_uppercase()
}

/// Uppercase form of a key: ASCII uppercase for ASCII text, the Unicode
/// mapping otherwise (the two agree on ASCII text, so this is `to_uppercase`).
pub open spec fn upper_key(s: Seq<char>) -> Seq<char> {
    if all_ascii(s) { upper_seq(s) } else { unicode_upper(s) }
}

/// Whether every character of `s` is ASCII.
pub fn is_all_ascii(s: &str) -> (r: bool)
    ensures
        r == all_ascii(s@),
{
    let cs = chars_of(s);
    let mut i: usize = 0;
    while i < cs.len()
        invariant
            cs@ == s@,
            0 <= i <= cs@.len(),
            forall|k: int| 0 <= k < i ==> (cs@[k] as u32) < 128,
        decreases cs.len() - i,
    {
        if (cs[i] as u32) >= 128 {
            return false;
        }
        i = i + 1;
    }
    true
}

/// `s.to_uppercase()`: ASCII text is uppercased here, other text by the
/// standard library ([`to_unicode_upper`] says the two agree on ASCII text).
pub fn key_upper(s: &str) -> (r: String)
    ensures
        r@ == upper_key(s@),
{
    if is_all_ascii(s) {
        to_ascii_upper(s)
    } else {
        to_unicode_upper(s)
    }
}

// ---------------------------------------------------------------------------
// Unicode lowercase
// ---------------------------------------------------------------------------

/// The lowercase form of `s` under the Unicode `Lowercase` mapping (`str::to_lowercase`).
pub uninterp spec fn unicode_lower(s: Seq<char>) -> Seq<char>;

/// `str::to_lowercase`.
///
/// Claims: the result is the named [`unicode_lower`]; on ASCII text it is the
/// ASCII lowercase (the Unicode mapping agrees with the ASCII one there).
#[verifier::external_body]
pub(crate) fn to_unicode_lower(s: &str) -> (r: String)
    ensures
        r@ == unicode_lower(s@),
        all_ascii(s@) ==> r@ == lower_seq(s@),
{
    s.to_lowercase()
}

/// Lowercase form of a text: ASCII lowercase for ASCII text, the Unicode
/// mapping otherwise (the two agree on ASCII text, so this is `to_lowercase`).
pub open spec fn lower_text(s: Seq<char>) -> Seq<char> {
    if all_ascii(s) { lower_seq(s) } else { unicode_lower(s) }
}

/// `s.to_lowercase()`: ASCII text is lowercased here, other text by the
/// standard library.
pub fn text_lower(s: &str) -> (r: String)
    ensures
        r@ == lower_text(s@),
{
    if is_all_ascii(s) {
        to_ascii_lower(s)
    } else {
        to_unicode_lower(s)
    }
}

} // verus!
