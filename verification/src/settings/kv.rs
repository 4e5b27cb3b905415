//! The `KEY:value` line format shared by the settings files.
use vstd::prelude::*;
use crate::text::{all_ascii, is_ws, lemma_split_plain, lemma_split_sep_plain, lemma_trim_fixed_ends, lemma_trim_unchanged, key_upper, upper_key, chars_of, string_from_range, split, split_str, trim, trim_str, upper_seq, to_ascii_upper, views, push_all};

verus! {

/// Index of the first occurrence of `c` in `s`.
pub open spec fn first_index(s: Seq<char>, c: char) -> Option<nat>
    decreases s.len(),
{
    if s.len() == 0 {
        None
    } else {
        match first_index(s.drop_last(), c) {
            Some(i) => Some(i),
            None => if s.last() == c { Some((s.len() - 1) as nat) } else { None },
        }
    }
}

proof fn lemma_first_index(s: Seq<char>, c: char, i: int)
    requires
        0 <= i <= s.len(),
        forall|k: int| 0 <= k < i ==> s[k] != c,
        i == s.len() || s[i] == c,
    ensures
        first_index(s, c) == (if i == s.len() { None::<nat> } else { Some(i as nat) }),
    decreases s.len(),
{
    if s.len() > 0 {
        if i == s.len() {
            lemma_first_index(s.drop_last(), c, i - 1);
        } else if i < s.len() - 1 {
            lemma_first_index(s.drop_last(), c, i);
        } else {
            lemma_first_index(s.drop_last(), c, i);
        }
    }
}

/// `str::split_once(c)`: the text before and after the first `c`.
pub open spec fn split_once(s: Seq<char>, c: char) -> Option<(Seq<char>, Seq<char>)> {
    match first_index(s, c) {
        Some(i) => Some((s.take(i as int), s.skip(i + 1 as int))),
        None => None,
    }
}

/// Splits `s` at its first `c`.
pub fn split_once_str(s: &str, c: char) -> (r: Option<(String, String)>)
    ensures
        match r {
            Some(p) => split_once(s@, c) == Some((p.0@, p.1@)),
            None => split_once(s@, c) is None,
        },
{
    let cs = chars_of(s);
    let n = cs.len();
    let mut i: usize = 0;
    while i < n && cs[i] != c
        invariant
            n == cs@.len(),
            cs@ == s@,
            0 <= i <= n,
            forall|k: int| 0 <= k < i ==> cs@[k] != c,
        decreases n - i,
    {
        i = i + 1;
    }
    proof {
        if i == n {
            lemma_first_index(cs@, c, n as int);
        } else {
            lemma_first_index(cs@, c, i as int);
        }
    }
    if i == n {
        return None;
    }
    assert(cs@.subrange(0, i as int) == cs@.take(i as int));
    assert(cs@.subrange(i + 1, n as int) == cs@.skip(i + 1));
    Some((string_from_range(cs.as_slice(), 0, i), string_from_range(cs.as_slice(), i + 1, n)))
}

/// `None` for empty text, else the text.
pub open spec fn non_empty(v: Seq<char>) -> Option<Seq<char>> {
    if v.len() == 0 { None } else { Some(v) }
}

/// Views of optional strings.
pub open spec fn opt_str(s: Option<String>) -> Option<Seq<char>> {
    match s {
        Some(x) => Some(x@),
        None => None,
    }
}

/// `if val.is_empty() { None } else { Some(val.to_string()) }`.
pub fn non_empty_string(v: &str) -> (r: Option<String>)
    ensures
        opt_str(r) == non_empty(v@),
{
    let cs = chars_of(v);
    if cs.len() == 0 {
        None
    } else {
        let s = string_from_range(cs.as_slice(), 0, cs.len());
        assert(cs@.subrange(0, cs@.len() as int) == cs@);
        Some(s)
    }
}

/// The trimmed non-empty pieces of a comma-separated list.
pub open spec fn list_items(v: Seq<char>) -> Seq<Seq<char>> {
    split(v, ',').filter_map(|p: Seq<char>| non_empty(trim(p)))
}

/// `val.split(',').map(|v| v.trim().to_string()).filter(|v| !v.is_empty()).collect()`.
pub fn split_list(v: &str) -> (r: Vec<String>)
    ensures
        views(r@) == list_items(v@),
{
    let parts = split_str(v, ',');
    let ghost ps = views(parts@);
    let mut out: Vec<String> = Vec::new();
    let mut i: usize = 0;
    while i < parts.len()
        invariant
            0 <= i <= parts@.len(),
            ps == views(parts@),
            ps == split(v@, ','),
            views(out@) == ps.take(i as int).filter_map(|p: Seq<char>| non_empty(trim(p))),
        decreases parts.len() - i,
    {
        assert(ps.take(i + 1).drop_last() == ps.take(i as int));
        assert(ps[i as int] == parts@[i as int]@);
        let t = trim_str(parts[i].as_str());
        let cs = chars_of(t.as_str());
        if cs.len() > 0 {
            out.push(t);
            assert(views(out@) =~= views(out@.drop_last()) + seq![t@]);
        }
        i = i + 1;
    }
    assert(ps.take(ps.len() as int) == ps);
    out
}

/// Items joined with `sep` between them.
pub open spec fn joined(items: Seq<Seq<char>>, sep: Seq<char>) -> Seq<char>
    decreases items.len(),
{
    if items.len() == 0 {
        Seq::<char>::empty()
    } else if items.len() == 1 {
        items[0]
    } else {
        joined(items.drop_last(), sep) + sep + items.last()
    }
}

/// `items.join(sep)`.
pub fn join_strs(items: &Vec<String>, sep: &str) -> (r: String)
    ensures
        r@ == joined(views(items@), sep@),
{
    let mut out = String::new();
    let mut i: usize = 0;
    while i < items.len()
        invariant
            0 <= i <= items@.len(),
            out@ == joined(views(items@).take(i as int), sep@),
        decreases items.len() - i,
    {
        assert(views(items@).take(i + 1).drop_last() == views(items@).take(i as int));
        assert(views(items@).take(i + 1).last() == items@[i as int]@);
        if i > 0 {
            push_all(&mut out, sep);
        }
        push_all(&mut out, items[i].as_str());
        i = i + 1;
    }
    assert(views(items@).take(items@.len() as int) == views(items@));
    out
}

/// `"true"` or `"false"`.
pub open spec fn bool_text(b: bool) -> Seq<char> {
    if b { "true"@ } else { "false"@ }
}

/// The text of a boolean.
pub fn bool_str(b: bool) -> (s: &'static str)
    ensures
        s@ == bool_text(b),
{
    if b { "true" } else { "false" }
}

/// The last value stored under `key` in an association list.
pub open spec fn lookup(entries: Seq<(Seq<char>, Seq<char>)>, key: Seq<char>) -> Option<Seq<char>>
    decreases entries.len(),
{
    if entries.len() == 0 {
        None
    } else if entries.last().0 == key {
        Some(entries.last().1)
    } else {
        lookup(entries.drop_last(), key)
    }
}

/// Views of an association list of strings.
pub open spec fn entry_views(entries: Seq<(String, String)>) -> Seq<(Seq<char>, Seq<char>)> {
    entries.map_values(|e: (String, String)| (e.0@, e.1@))
}

/// The value last stored under `key` (`HashMap::get` after the inserts in order).
pub fn lookup_entry(entries: &Vec<(String, String)>, key: &str) -> (r: Option<String>)
    ensures
        opt_str(r) == lookup(entry_views(entries@), key@),
{
    let mut i = entries.len();
    assert(entry_views(entries@).take(i as int) == entry_views(entries@));
    while i > 0
        invariant
            0 <= i <= entries@.len(),
            lookup(entry_views(entries@), key@) == lookup(entry_views(entries@).take(i as int), key@),
        decreases i,
    {
        assert(entry_views(entries@).take(i as int).drop_last() == entry_views(entries@).take(i - 1));
        assert(entry_views(entries@).take(i as int).last() == (entries@[i - 1].0@, entries@[i - 1].1@));
        if crate::text::str_eq(entries[i - 1].0.as_str(), key) {
            return Some(entries[i - 1].1.clone());
        }
        i = i - 1;
    }
    None
}


/// A `KEY:value` line.
pub open spec fn kv_text(key: Seq<char>, val: Seq<char>) -> Seq<char> {
    key + ":"@ + val
}

/// `format!("{}:{}", key, val)`.
pub fn kv_line(key: &str, val: &str) -> (r: String)
    ensures
        r@ == kv_text(key@, val@),
{
    let mut r = String::new();
    push_all(&mut r, key);
    push_all(&mut r, ":");
    push_all(&mut r, val);
    r
}

/// `opt.unwrap_or_default()` of an optional text.
pub open spec fn text_or_empty(v: Option<Seq<char>>) -> Seq<char> {
    match v {
        Some(x) => x,
        None => Seq::empty(),
    }
}

/// A character of a settings key: an ASCII uppercase letter, a digit or `_`.
pub open spec fn key_char(c: char) -> bool {
    ('A' <= c && c <= 'Z') || ('0' <= c && c <= '9') || c == '_'
}

/// A settings key: characters of keys only.
pub open spec fn plain_key(k: Seq<char>) -> bool {
    forall|i: int| 0 <= i < k.len() ==> key_char(#[trigger] k[i])
}

/// A non-empty settings key holds no `:`, is its own trim and its own uppercase.
pub proof fn lemma_plain_key(k: Seq<char>)
    requires
        plain_key(k),
    ensures
        forall|i: int| 0 <= i < k.len() ==> k[i] != ':',
        trim(k) == k,
        upper_key(k) == k,
{
    assert forall|i: int| 0 <= i < k.len() implies k[i] != ':' && !is_ws(k[i]) && (k[i] as u32) < 128 by {
        assert(key_char(k[i]));
    }
    lemma_trim_unchanged(k);
    assert(all_ascii(k));
    assert(upper_seq(k) =~= k);
}

/// Concatenated settings keys form a settings key.
pub proof fn lemma_plain_key_add(a: Seq<char>, b: Seq<char>)
    requires
        plain_key(a),
        plain_key(b),
    ensures
        plain_key(a + b),
{
    assert forall|i: int| 0 <= i < (a + b).len() implies key_char(#[trigger] (a + b)[i]) by {
        if i < a.len() {
            assert((a + b)[i] == a[i]);
        } else {
            assert((a + b)[i] == b[i - a.len()]);
        }
    }
}

/// A `KEY:value` line with a settings key reads back as that key and value
/// when the value is its own trim.
pub proof fn lemma_kv_line_reads_back(k: Seq<char>, v: Seq<char>)
    requires
        plain_key(k),
        trim(v) == v,
    ensures
        split_once(kv_text(k, v), ':') == Some((k, v)),
        upper_key(trim(k)) == k,
{
    lemma_plain_key(k);
    reveal_strlit(":");
    assert(":"@ =~= seq![':']);
    let line = kv_text(k, v);
    assert(line[k.len() as int] == ':');
    assert forall|i: int| 0 <= i < k.len() implies line[i] != ':' by {
        assert(line[i] == k[i]);
    }
    lemma_first_index(line, ':', k.len() as int);
    assert(line.take(k.len() as int) =~= k);
    assert(line.skip(k.len() as int + 1) =~= v);
}

/// Looking up in a concatenation finds the later entries first.
pub proof fn lemma_lookup_append(x: Seq<(Seq<char>, Seq<char>)>, y: Seq<(Seq<char>, Seq<char>)>, key: Seq<char>)
    ensures
        lookup(x + y, key) == (match lookup(y, key) {
            Some(v) => Some(v),
            None => lookup(x, key),
        }),
    decreases y.len(),
{
    if y.len() == 0 {
        assert(x + y == x);
    } else {
        assert((x + y).drop_last() == x + y.drop_last());
        assert((x + y).last() == y.last());
        lemma_lookup_append(x, y.drop_last(), key);
    }
}

/// A list of trimmed non-empty items without `,`, joined by `,`, reads back as
/// the same items.
pub proof fn lemma_list_items_joined(items: Seq<Seq<char>>)
    requires
        forall|i: int| 0 <= i < items.len() ==> {
            &&& (#[trigger] items[i]).len() > 0
            &&& trim(items[i]) == items[i]
            &&& forall|j: int| 0 <= j < items[i].len() ==> items[i][j] != ','
        },
    ensures
        list_items(joined(items, ","@)) == items,
{
    reveal_strlit(",");
    if items.len() == 0 {
        assert(split(Seq::<char>::empty(), ',') == seq![Seq::<char>::empty()]);
        assert(trim(Seq::<char>::empty()) =~= Seq::<char>::empty()) by {
            lemma_trim_unchanged(Seq::<char>::empty());
        }
        assert(seq![Seq::<char>::empty()].drop_last() =~= Seq::<Seq<char>>::empty());
        reveal_with_fuel(Seq::filter_map, 2);
        assert(list_items(joined(items, ","@)) =~= items);
    } else {
        lemma_split_joined(items);
        lemma_filter_map_keeps(items);
    }
}

/// Joined non-empty items start with the first item and end with the last.
proof fn lemma_joined_ends(items: Seq<Seq<char>>, sep: Seq<char>)
    requires
        items.len() > 0,
        forall|i: int| 0 <= i < items.len() ==> (#[trigger] items[i]).len() > 0,
    ensures
        joined(items, sep).len() > 0,
        joined(items, sep)[0] == items[0][0],
        joined(items, sep).last() == items.last().last(),
    decreases items.len(),
{
    if items.len() > 1 {
        let d = items.drop_last();
        assert(forall|i: int| 0 <= i < d.len() ==> d[i] == items[i]);
        lemma_joined_ends(d, sep);
        assert(items.last() == items[items.len() - 1]);
    }
}

/// Trimmed non-empty items joined by `,` are their own trim.
pub proof fn lemma_joined_trimmed(items: Seq<Seq<char>>)
    requires
        forall|i: int| 0 <= i < items.len() ==> (#[trigger] items[i]).len() > 0 && trim(items[i]) == items[i],
    ensures
        trim(joined(items, ","@)) == joined(items, ","@),
{
    if items.len() == 0 {
        lemma_trim_unchanged(joined(items, ","@));
    } else {
        lemma_joined_ends(items, ","@);
        lemma_trim_fixed_ends(items[0]);
        assert(items.last() == items[items.len() - 1]);
        lemma_trim_fixed_ends(items.last());
        lemma_trim_unchanged(joined(items, ","@));
    }
}

/// Splitting items joined by `,` at `,` gives the items back.
proof fn lemma_split_joined(items: Seq<Seq<char>>)
    requires
        items.len() > 0,
        forall|i: int| 0 <= i < items.len() ==> forall|j: int| 0 <= j < (#[trigger] items[i]).len() ==> items[i][j] != ',',
    ensures
        split(joined(items, ","@), ',') == items,
    decreases items.len(),
{
    reveal_strlit(",");
    assert(","@ =~= seq![',']);
    if items.len() == 1 {
        assert(joined(items, ","@) == items[0]);
        lemma_split_plain(items[0], ',');
        assert(seq![items[0]] =~= items);
    } else {
        let d = items.drop_last();
        assert(forall|i: int| 0 <= i < d.len() ==> d[i] == items[i]);
        lemma_split_joined(d);
        assert(items.last() == items[items.len() - 1]);
        lemma_split_sep_plain(joined(d, ","@), items.last(), ',');
        assert(joined(items, ","@) == joined(d, ","@) + seq![','] + items.last());
        assert(d.push(items.last()) =~= items);
    }
}

/// Items that are their own non-empty trim pass the item filter unchanged.
pub proof fn lemma_filter_map_keeps(items: Seq<Seq<char>>)
    requires
        forall|i: int| 0 <= i < items.len() ==> (#[trigger] items[i]).len() > 0 && trim(items[i]) == items[i],
    ensures
        items.filter_map(|p: Seq<char>| non_empty(trim(p))) == items,
    decreases items.len(),
{
    if items.len() > 0 {
        let d = items.drop_last();
        assert(forall|i: int| 0 <= i < d.len() ==> d[i] == items[i]);
        lemma_filter_map_keeps(d);
        assert(items.last() == items[items.len() - 1]);
        assert(d + seq![items.last()] =~= items);
    }
}

/// The `KEY:value` lines of some entries, in order.
pub open spec fn entry_lines(es: Seq<(Seq<char>, Seq<char>)>) -> Seq<Seq<char>>
    decreases es.len(),
{
    if es.len() == 0 {
        Seq::empty()
    } else {
        entry_lines(es.drop_last()).push(kv_text(es.last().0, es.last().1))
    }
}

pub proof fn lemma_entry_lines_append(a: Seq<(Seq<char>, Seq<char>)>, b: Seq<(Seq<char>, Seq<char>)>)
    ensures
        entry_lines(a + b) == entry_lines(a) + entry_lines(b),
    decreases b.len(),
{
    if b.len() == 0 {
        assert(a + b == a);
        assert(entry_lines(a) + entry_lines(b) =~= entry_lines(a));
    } else {
        assert((a + b).drop_last() == a + b.drop_last());
        assert((a + b).last() == b.last());
        lemma_entry_lines_append(a, b.drop_last());
        assert(entry_lines(a) + entry_lines(b) =~= (entry_lines(a) + entry_lines(b.drop_last())).push(
            kv_text(b.last().0, b.last().1),
        ));
    }
}

/// Each line of some entries is the `KEY:value` line of that entry.
pub proof fn lemma_entry_lines_index(es: Seq<(Seq<char>, Seq<char>)>)
    ensures
        entry_lines(es).len() == es.len(),
        forall|i: int| 0 <= i < es.len() ==> #[trigger] entry_lines(es)[i] == kv_text(es[i].0, es[i].1),
    decreases es.len(),
{
    if es.len() > 0 {
        lemma_entry_lines_index(es.drop_last());
        assert(forall|i: int| 0 <= i < es.len() - 1 ==> es.drop_last()[i] == es[i]);
    }
}

} // verus!
