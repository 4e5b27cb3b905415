//! Kubernetes resource quantities as the node mapping reads them: CPU cores,
//! memory and storage bytes, and pod counts.
use vstd::prelude::*;
use crate::text::{all_ascii, all_digits, ascii_lower, chars_of, dec, is_digit, lemma_dec_digits, lemma_parse_dec_small, lemma_parse_dec_u64, lower_seq, lower_text, parse_u32, parse_u32_spec, parse_u64, parse_u64_spec, string_from_range, text_lower};

verus! {

/// Whether `s` ends with `p`.
pub open spec fn has_suffix(s: Seq<char>, p: Seq<char>) -> bool {
    p.len() <= s.len() && s.skip(s.len() - p.len()) == p
}

/// `s.trim_end_matches(p)`: `s` without every trailing repetition of `p`.
pub open spec fn strip_all_suffix(s: Seq<char>, p: Seq<char>) -> Seq<char>
    decreases s.len(),
{
    if p.len() > 0 && has_suffix(s, p) {
        strip_all_suffix(s.take(s.len() - p.len()), p)
    } else {
        s
    }
}

/// Whether the characters end with `p`.
fn ends_with_chars(cs: &[char], len: usize, p: &[char]) -> (r: bool)
    requires
        len <= cs@.len(),
    ensures
        r == has_suffix(cs@.take(len as int), p@),
{
    let ghost s = cs@.take(len as int);
    if p.len() > len {
        return false;
    }
    let off = len - p.len();
    let mut i: usize = 0;
    while i < p.len()
        invariant
            off + p@.len() == len,
            len <= cs@.len(),
            s == cs@.take(len as int),
            0 <= i <= p@.len(),
            forall|k: int| 0 <= k < i ==> cs@[off + k] == p@[k],
        decreases p.len() - i,
    {
        if cs[off + i] != p[i] {
            assert(s.skip(off as int)[i as int] != p@[i as int]);
            return false;
        }
        i = i + 1;
    }
    assert(s.skip(off as int) =~= p@);
    true
}

/// `s.ends_with(p)`.
pub fn ends_with(s: &str, p: &str) -> (r: bool)
    ensures
        r == has_suffix(s@, p@),
{
    let cs = chars_of(s);
    let ps = chars_of(p);
    assert(cs@.take(cs@.len() as int) == cs@);
    ends_with_chars(cs.as_slice(), cs.len(), ps.as_slice())
}

/// `s.trim_end_matches(p)`.
pub fn trim_end_matches(s: &str, p: &str) -> (r: String)
    ensures
        r@ == strip_all_suffix(s@, p@),
{
    let cs = chars_of(s);
    let ps = chars_of(p);
    let mut len = cs.len();
    assert(cs@.take(len as int) == s@);
    while ps.len() > 0 && ends_with_chars(cs.as_slice(), len, ps.as_slice())
        invariant
            len <= cs@.len(),
            cs@ == s@,
            ps@ == p@,
            strip_all_suffix(s@, p@) == strip_all_suffix(cs@.take(len as int), p@),
        decreases len,
    {
        assert(cs@.take(len as int).take(len - ps@.len()) == cs@.take(len - ps@.len()));
        len = len - ps.len();
    }
    string_from_range(cs.as_slice(), 0, len)
}

/// CPU cores of a quantity: a millicore count (`m` suffix) divided by 1000,
/// else a whole number of cores.
pub open spec fn cpu_cores(s: Seq<char>) -> Option<u32> {
    if has_suffix(s, "m"@) {
        match parse_u32_spec(strip_all_suffix(s, "m"@)) {
            Some(m) => Some((m / 1000) as u32),
            None => None,
        }
    } else {
        parse_u32_spec(s)
    }
}

/// A number read from `s` after stripping `suffix`, times `factor`.
pub open spec fn scaled(s: Seq<char>, suffix: Seq<char>, factor: int) -> Option<int> {
    match parse_u64_spec(strip_all_suffix(s, suffix)) {
        Some(v) => Some(v * factor),
        None => None,
    }
}

/// Bytes of a memory quantity, read after lowercasing: binary (`ki`, `mi`,
/// `gi`) and decimal (`k`, `m`, `g`) suffixes, else a plain byte count.
pub open spec fn memory_bytes(q: Seq<char>) -> Option<int> {
    let s = lower_text(q);
    if has_suffix(s, "ki"@) {
        scaled(s, "ki"@, 1024)
    } else if has_suffix(s, "k"@) {
        scaled(s, "k"@, 1000)
    } else if has_suffix(s, "mi"@) {
        scaled(s, "mi"@, 1048576)
    } else if has_suffix(s, "m"@) {
        scaled(s, "m"@, 1000000)
    } else if has_suffix(s, "gi"@) {
        scaled(s, "gi"@, 1073741824)
    } else if has_suffix(s, "g"@) {
        scaled(s, "g"@, 1000000000)
    } else {
        scaled(s, Seq::empty(), 1)
    }
}

/// Bytes of a storage quantity, read after lowercasing: `ki`, `mi`, `gi`
/// suffixes, else a plain byte count.
pub open spec fn storage_bytes(q: Seq<char>) -> Option<int> {
    let s = lower_text(q);
    if has_suffix(s, "ki"@) {
        scaled(s, "ki"@, 1024)
    } else if has_suffix(s, "mi"@) {
        scaled(s, "mi"@, 1048576)
    } else if has_suffix(s, "gi"@) {
        scaled(s, "gi"@, 1073741824)
    } else {
        scaled(s, Seq::empty(), 1)
    }
}

/// A byte count fits in a `u64` (the multiplication does not overflow).
pub open spec fn fits_u64(v: Option<int>) -> bool {
    match v {
        Some(x) => x <= u64::MAX,
        None => true,
    }
}

/// The `u64` of a byte count that fits.
pub open spec fn as_u64(v: Option<int>) -> Option<u64> {
    match v {
        Some(x) => Some(x as u64),
        None => None,
    }
}

/// Reads the CPU cores of a quantity.
pub fn parse_cpu_cores(q: &str) -> (r: Option<u32>)
    ensures
        r == cpu_cores(q@),
{
    if ends_with(q, "m") {
        let t = trim_end_matches(q, "m");
        match parse_u32(t.as_str()) {
            Some(m) => Some(m / 1000),
            None => None,
        }
    } else {
        parse_u32(q)
    }
}

/// A number read after stripping `suffix`, times `factor`.
fn scaled_exec(s: &str, suffix: &str, factor: u64) -> (r: Option<u64>)
    requires
        fits_u64(scaled(s@, suffix@, factor as int)),
    ensures
        r == as_u64(scaled(s@, suffix@, factor as int)),
{
    let t = trim_end_matches(s, suffix);
    match parse_u64(t.as_str()) {
        Some(v) => {
            assert(v * factor <= u64::MAX);
            Some(v * factor)
        },
        None => None,
    }
}

/// Reads the bytes of a memory quantity.
pub fn parse_memory_bytes(q: &str) -> (r: Option<u64>)
    requires
        fits_u64(memory_bytes(q@)),
    ensures
        r == as_u64(memory_bytes(q@)),
{
    let s = text_lower(q);
    let s = s.as_str();
    proof {
        reveal_strlit("");
        assert(""@ =~= Seq::<char>::empty());
    }
    if ends_with(s, "ki") {
        scaled_exec(s, "ki", 1024)
    } else if ends_with(s, "k") {
        scaled_exec(s, "k", 1000)
    } else if ends_with(s, "mi") {
        scaled_exec(s, "mi", 1024 * 1024)
    } else if ends_with(s, "m") {
        scaled_exec(s, "m", 1000 * 1000)
    } else if ends_with(s, "gi") {
        scaled_exec(s, "gi", 1024 * 1024 * 1024)
    } else if ends_with(s, "g") {
        scaled_exec(s, "g", 1000 * 1000 * 1000)
    } else {
        scaled_exec(s, "", 1)
    }
}

/// Reads the bytes of a storage quantity.
pub fn parse_storage_bytes(q: &str) -> (r: Option<u64>)
    requires
        fits_u64(storage_bytes(q@)),
    ensures
        r == as_u64(storage_bytes(q@)),
{
    let s = text_lower(q);
    let s = s.as_str();
    proof {
        reveal_strlit("");
        assert(""@ =~= Seq::<char>::empty());
    }
    if ends_with(s, "ki") {
        scaled_exec(s, "ki", 1024)
    } else if ends_with(s, "mi") {
        scaled_exec(s, "mi", 1024 * 1024)
    } else if ends_with(s, "gi") {
        scaled_exec(s, "gi", 1024 * 1024 * 1024)
    } else {
        scaled_exec(s, "", 1)
    }
}

/// Whether a memory quantity's byte count fits in a `u64`.
pub fn memory_fits(q: &str) -> (r: bool)
    ensures
        r == fits_u64(memory_bytes(q@)),
{
    let s = text_lower(q);
    let s = s.as_str();
    proof {
        reveal_strlit("");
        assert(""@ =~= Seq::<char>::empty());
    }
    if ends_with(s, "ki") {
        scaled_fits(s, "ki", 1024)
    } else if ends_with(s, "k") {
        scaled_fits(s, "k", 1000)
    } else if ends_with(s, "mi") {
        scaled_fits(s, "mi", 1024 * 1024)
    } else if ends_with(s, "m") {
        scaled_fits(s, "m", 1000 * 1000)
    } else if ends_with(s, "gi") {
        scaled_fits(s, "gi", 1024 * 1024 * 1024)
    } else if ends_with(s, "g") {
        scaled_fits(s, "g", 1000 * 1000 * 1000)
    } else {
        scaled_fits(s, "", 1)
    }
}

/// Whether a storage quantity's byte count fits in a `u64`.
pub fn storage_fits(q: &str) -> (r: bool)
    ensures
        r == fits_u64(storage_bytes(q@)),
{
    let s = text_lower(q);
    let s = s.as_str();
    proof {
        reveal_strlit("");
        assert(""@ =~= Seq::<char>::empty());
    }
    if ends_with(s, "ki") {
        scaled_fits(s, "ki", 1024)
    } else if ends_with(s, "mi") {
        scaled_fits(s, "mi", 1024 * 1024)
    } else if ends_with(s, "gi") {
        scaled_fits(s, "gi", 1024 * 1024 * 1024)
    } else {
        scaled_fits(s, "", 1)
    }
}

/// Whether the scaled number fits in a `u64`.
fn scaled_fits(s: &str, suffix: &str, factor: u64) -> (r: bool)
    requires
        factor > 0,
    ensures
        r == fits_u64(scaled(s@, suffix@, factor as int)),
{
    let t = trim_end_matches(s, suffix);
    match parse_u64(t.as_str()) {
        Some(v) => {
            let m = u64::MAX / factor;
            assert(v <= m <==> v * factor <= u64::MAX) by (nonlinear_arith)
                requires
                    factor > 0,
                    m == u64::MAX / factor,
            {
                assert(m * factor <= u64::MAX);
                assert((m + 1) * factor > u64::MAX);
                if v <= m {
                    assert(v * factor <= m * factor);
                } else {
                    assert(v * factor >= (m + 1) * factor);
                }
            }
            v <= m
        },
        None => true,
    }
}

/// Reads a pod count.
pub fn parse_pod_count(q: &str) -> (r: Option<u32>)
    ensures
        r == parse_u32_spec(q@),
{
    parse_u32(q)
}

// ---------------------------------------------------------------------------
// What a quantity reads as
// ---------------------------------------------------------------------------

/// An ASCII letter.
pub open spec fn is_letter(c: char) -> bool {
    ('a' <= c && c <= 'z') || ('A' <= c && c <= 'Z')
}

/// Every character of `s` is an ASCII letter.
pub open spec fn all_letters(s: Seq<char>) -> bool {
    forall|i: int| 0 <= i < s.len() ==> is_letter(#[trigger] s[i])
}

/// After digits, a unit of letters ends with `q` (letters, not empty) exactly
/// where the unit does.
proof fn lemma_unit_suffix(d: Seq<char>, p: Seq<char>, q: Seq<char>)
    requires
        d.len() > 0,
        all_digits(d),
        all_letters(p),
        all_letters(q),
        q.len() > 0,
    ensures
        has_suffix(d + p, q) == (q.len() <= p.len() && p.skip(p.len() - q.len()) == q),
{
    let s = d + p;
    if q.len() <= p.len() {
        assert(s.skip(s.len() - q.len()) =~= p.skip(p.len() - q.len()));
    } else if q.len() <= s.len() {
        let j = q.len() - p.len() - 1;
        assert(s.skip(s.len() - q.len())[j] == d[d.len() - 1]);
        assert(is_digit(d[d.len() - 1]));
        assert(is_letter(q[j]));
        assert(s.skip(s.len() - q.len())[j] != q[j]);
    }
}

/// Digits followed by a unit of letters lose exactly the unit when it is
/// stripped.
proof fn lemma_strip_unit(d: Seq<char>, p: Seq<char>)
    requires
        d.len() > 0,
        all_digits(d),
        all_letters(p),
        p.len() > 0,
    ensures
        strip_all_suffix(d + p, p) == d,
{
    lemma_unit_suffix(d, p, p);
    assert(p.skip(0) == p);
    assert((d + p).take((d + p).len() - p.len()) == d);
    assert(d + Seq::<char>::empty() == d);
    lemma_unit_suffix(d, Seq::<char>::empty(), p);
    assert(!has_suffix(d, p));
    assert(strip_all_suffix(d, p) == d);
    assert(strip_all_suffix(d + p, p) == strip_all_suffix(d, p));
}

/// Digits followed by a unit of letters lowercase to the digits followed by
/// the lowercased unit.
proof fn lemma_lower_unit(d: Seq<char>, p: Seq<char>)
    requires
        all_digits(d),
        all_letters(p),
    ensures
        lower_text(d + p) == d + lower_seq(p),
{
    let s = d + p;
    assert forall|i: int| 0 <= i < s.len() implies (s[i] as u32) < 128 by {
        if i < d.len() {
            assert(is_digit(d[i]));
        } else {
            assert(is_letter(p[i - d.len()]));
        }
    }
    assert(all_ascii(s));
    assert forall|i: int| 0 <= i < d.len() implies ascii_lower(#[trigger] d[i]) == d[i] by {
        assert(is_digit(d[i]));
    }
    assert(lower_seq(s) =~= d + lower_seq(p));
}

/// The bytes of a memory quantity `dec(n)` followed by the unit `p`, lowercase.
proof fn lemma_memory_unit(n: u64, p: Seq<char>)
    requires
        p == Seq::<char>::empty() || p == "k"@ || p == "m"@ || p == "g"@ || p == "ki"@ || p == "mi"@ || p == "gi"@,
    ensures
        ({
            let s = dec(n as nat) + p;
            &&& has_suffix(s, "ki"@) == (p == "ki"@)
            &&& has_suffix(s, "k"@) == (p == "k"@)
            &&& has_suffix(s, "mi"@) == (p == "mi"@)
            &&& has_suffix(s, "m"@) == (p == "m"@)
            &&& has_suffix(s, "gi"@) == (p == "gi"@)
            &&& has_suffix(s, "g"@) == (p == "g"@)
            &&& (p.len() > 0 ==> parse_u64_spec(strip_all_suffix(s, p)) == Some(n))
        }),
{
    let d = dec(n as nat);
    lemma_dec_digits(n as nat);
    lemma_parse_dec_u64(n);
    reveal_strlit("ki");
    reveal_strlit("k");
    reveal_strlit("mi");
    reveal_strlit("m");
    reveal_strlit("gi");
    reveal_strlit("g");
    assert(all_letters(p));
    assert(all_letters("ki"@) && all_letters("k"@) && all_letters("mi"@) && all_letters("m"@)
        && all_letters("gi"@) && all_letters("g"@));
    lemma_unit_suffix(d, p, "ki"@);
    lemma_unit_suffix(d, p, "k"@);
    lemma_unit_suffix(d, p, "mi"@);
    lemma_unit_suffix(d, p, "m"@);
    lemma_unit_suffix(d, p, "gi"@);
    lemma_unit_suffix(d, p, "g"@);
    if p.len() == 2 {
        assert(p.skip(0) == p);
        assert(p.skip(1).len() == 1 && p.skip(1)[0] == p[1]);
    }
    if p.len() == 1 {
        assert(p.skip(0) == p);
    }
    if p.len() > 0 {
        lemma_strip_unit(d, p);
    }
}

/// What a memory quantity reads as: a plain number of bytes; `k`, `m`, `g`
/// (either case) for 10^3, 10^6 and 10^9 bytes; `Ki`, `Mi`, `Gi` for 2^10,
/// 2^20 and 2^30 bytes.
pub proof fn lemma_memory_quantities(n: u64)
    ensures
        memory_bytes(dec(n as nat)) == Some(n as int),
        memory_bytes(dec(n as nat) + "k"@) == Some(n * 1000),
        memory_bytes(dec(n as nat) + "K"@) == Some(n * 1000),
        memory_bytes(dec(n as nat) + "m"@) == Some(n * 1000000),
        memory_bytes(dec(n as nat) + "M"@) == Some(n * 1000000),
        memory_bytes(dec(n as nat) + "g"@) == Some(n * 1000000000),
        memory_bytes(dec(n as nat) + "G"@) == Some(n * 1000000000),
        memory_bytes(dec(n as nat) + "Ki"@) == Some(n * 1024),
        memory_bytes(dec(n as nat) + "Mi"@) == Some(n * 1048576),
        memory_bytes(dec(n as nat) + "Gi"@) == Some(n * 1073741824),
{
    let d = dec(n as nat);
    lemma_dec_digits(n as nat);
    lemma_parse_dec_u64(n);
    reveal_strlit("k");
    reveal_strlit("K");
    reveal_strlit("m");
    reveal_strlit("M");
    reveal_strlit("g");
    reveal_strlit("G");
    reveal_strlit("ki");
    reveal_strlit("Ki");
    reveal_strlit("mi");
    reveal_strlit("Mi");
    reveal_strlit("gi");
    reveal_strlit("Gi");
    assert(d + Seq::<char>::empty() == d);
    lemma_lower_unit(d, Seq::<char>::empty());
    lemma_memory_unit(n, Seq::<char>::empty());
    assert(lower_seq(Seq::<char>::empty()) =~= Seq::<char>::empty());
    assert(strip_all_suffix(d, Seq::<char>::empty()) == d);
    lemma_lower_unit(d, "k"@);
    lemma_lower_unit(d, "K"@);
    lemma_lower_unit(d, "m"@);
    lemma_lower_unit(d, "M"@);
    lemma_lower_unit(d, "g"@);
    lemma_lower_unit(d, "G"@);
    lemma_lower_unit(d, "Ki"@);
    lemma_lower_unit(d, "Mi"@);
    lemma_lower_unit(d, "Gi"@);
    assert(lower_seq("K"@) =~= "k"@);
    assert(lower_seq("k"@) =~= "k"@);
    assert(lower_seq("M"@) =~= "m"@);
    assert(lower_seq("m"@) =~= "m"@);
    assert(lower_seq("G"@) =~= "g"@);
    assert(lower_seq("g"@) =~= "g"@);
    assert(lower_seq("Ki"@) =~= "ki"@);
    assert(lower_seq("Mi"@) =~= "mi"@);
    assert(lower_seq("Gi"@) =~= "gi"@);
    assert("mi"@ != "ki"@) by {
        assert("mi"@[0] != "ki"@[0]);
    }
    assert("gi"@ != "ki"@) by {
        assert("gi"@[0] != "ki"@[0]);
    }
    assert("gi"@ != "mi"@) by {
        assert("gi"@[0] != "mi"@[0]);
    }
    lemma_memory_unit(n, "k"@);
    lemma_memory_unit(n, "m"@);
    lemma_memory_unit(n, "g"@);
    lemma_memory_unit(n, "ki"@);
    lemma_memory_unit(n, "mi"@);
    lemma_memory_unit(n, "gi"@);
}

/// What a storage quantity reads as: a plain number of bytes, or `Ki`, `Mi`,
/// `Gi` for 2^10, 2^20 and 2^30 bytes.
pub proof fn lemma_storage_quantities(n: u64)
    ensures
        storage_bytes(dec(n as nat)) == Some(n as int),
        storage_bytes(dec(n as nat) + "Ki"@) == Some(n * 1024),
        storage_bytes(dec(n as nat) + "Mi"@) == Some(n * 1048576),
        storage_bytes(dec(n as nat) + "Gi"@) == Some(n * 1073741824),
{
    let d = dec(n as nat);
    lemma_dec_digits(n as nat);
    lemma_parse_dec_u64(n);
    reveal_strlit("ki");
    reveal_strlit("Ki");
    reveal_strlit("mi");
    reveal_strlit("Mi");
    reveal_strlit("gi");
    reveal_strlit("Gi");
    assert(d + Seq::<char>::empty() == d);
    lemma_lower_unit(d, Seq::<char>::empty());
    lemma_memory_unit(n, Seq::<char>::empty());
    assert(lower_seq(Seq::<char>::empty()) =~= Seq::<char>::empty());
    assert(strip_all_suffix(d, Seq::<char>::empty()) == d);
    lemma_lower_unit(d, "Ki"@);
    lemma_lower_unit(d, "Mi"@);
    lemma_lower_unit(d, "Gi"@);
    assert(lower_seq("Ki"@) =~= "ki"@);
    assert(lower_seq("Mi"@) =~= "mi"@);
    assert(lower_seq("Gi"@) =~= "gi"@);
    assert("mi"@ != "ki"@) by {
        assert("mi"@[0] != "ki"@[0]);
    }
    assert("gi"@ != "ki"@) by {
        assert("gi"@[0] != "ki"@[0]);
    }
    assert("gi"@ != "mi"@) by {
        assert("gi"@[0] != "mi"@[0]);
    }
    lemma_memory_unit(n, "ki"@);
    lemma_memory_unit(n, "mi"@);
    lemma_memory_unit(n, "gi"@);
}

/// What a CPU quantity reads as: a whole number of cores, or a number of
/// millicores (`m`) divided by 1000, rounded down.
pub proof fn lemma_cpu_quantities(n: u32)
    ensures
        cpu_cores(dec(n as nat)) == Some(n),
        cpu_cores(dec(n as nat) + "m"@) == Some(n / 1000),
{
    let d = dec(n as nat);
    lemma_dec_digits(n as nat);
    lemma_parse_dec_small(n as nat);
    reveal_strlit("m");
    assert(all_letters("m"@));
    assert(d + Seq::<char>::empty() == d);
    lemma_unit_suffix(d, Seq::<char>::empty(), "m"@);
    lemma_unit_suffix(d, "m"@, "m"@);
    assert("m"@.skip(0) == "m"@);
    lemma_strip_unit(d, "m"@);
}

} // verus!
