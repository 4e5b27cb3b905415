//! What reading the alert settings file gives back of what writing it put there.
use vstd::prelude::*;
use crate::settings::alerts::{
    AlertRuleView, AlertScan, InfoAlertView, alert_line, alert_scan, assign_alert_key, default_alert_view,
    alert_file_lines, alert_from_lines, rule_at, rule_count, rule_key, rule_lines, rules_from, rules_lines, threshold_of,
    threshold_texts,
};
use crate::codes::{lemma_alert_codes_round_trip, metric_code, operator_code, severity_code};
use crate::settings::kv::{entry_lines, lemma_entry_lines_append, lemma_entry_lines_index, bool_text, joined, lemma_joined_trimmed, lemma_list_items_joined, list_items, non_empty, text_or_empty, lookup, kv_text, lemma_kv_line_reads_back, lemma_plain_key, lemma_plain_key_add, plain_key, key_char};
use crate::text::{dec, has_prefix, is_digit, lemma_dec_digits, lemma_dec_injective, lemma_parse_dec_small, lemma_parse_dec_u64};
use crate::time::{UtcTime, instant_reads_back, instant_text};
use crate::text::{lower_seq, trim, lemma_trim_unchanged};

verus! {

/// The scan of `lines` started from `st`.
pub open spec fn alert_scan_from(st: AlertScan, lines: Seq<Seq<char>>) -> AlertScan
    decreases lines.len(),
{
    if lines.len() == 0 {
        st
    } else {
        alert_line(alert_scan_from(st, lines.drop_last()), lines.last())
    }
}

/// Reading the file is scanning its lines from the default settings.
proof fn lemma_scan_is_from(lines: Seq<Seq<char>>, now: UtcTime)
    ensures
        alert_scan(lines, now) == alert_scan_from((default_alert_view(now), Seq::empty()), lines),
    decreases lines.len(),
{
    if lines.len() > 0 {
        lemma_scan_is_from(lines.drop_last(), now);
    }
}

/// Scanning two runs of lines is scanning the second from where the first left off.
proof fn lemma_scan_from_append(st: AlertScan, a: Seq<Seq<char>>, b: Seq<Seq<char>>)
    ensures
        alert_scan_from(st, a + b) == alert_scan_from(alert_scan_from(st, a), b),
    decreases b.len(),
{
    if b.len() == 0 {
        assert(a + b == a);
    } else {
        assert((a + b).drop_last() == a + b.drop_last());
        assert((a + b).last() == b.last());
        lemma_scan_from_append(st, a, b.drop_last());
    }
}

/// The prefix of the rule entries.
pub open spec fn rule_prefix() -> Seq<char> {
    "ALERT_RULE_"@
}

/// A key of the rule entries: a settings key that starts with `ALERT_RULE_`.
pub open spec fn rule_entry_key(k: Seq<char>) -> bool {
    plain_key(k) && has_prefix(k, rule_prefix())
}

/// A rule entry sets none of the other settings.
proof fn lemma_rule_key_assigns_nothing(s: InfoAlertView, k: Seq<char>, v: Seq<char>)
    requires
        rule_entry_key(k),
    ensures
        assign_alert_key(s, k, v) == s,
{
    reveal_strlit("ALERT_RULE_");
    reveal_strlit("ENABLE_CLUSTER_HEALTH_ALERT");
    reveal_strlit("ENABLE_RUSTCOST_HEALTH_ALERT");
    reveal_strlit("GLOBAL_ALERT_SUBJECT");
    reveal_strlit("LINKBACK_URL");
    reveal_strlit("EMAIL_RECIPIENTS");
    reveal_strlit("SLACK_WEBHOOK_URL");
    reveal_strlit("TEAMS_WEBHOOK_URL");
    reveal_strlit("DISCORD_WEBHOOK_URL");
    reveal_strlit("CREATED_AT");
    reveal_strlit("UPDATED_AT");
    reveal_strlit("VERSION");
    assert(k[0] == 'A') by {
        assert(k.take(11)[0] == rule_prefix()[0]);
    }
}

/// Scanning the lines of rule entries keeps the settings and collects the entries.
proof fn lemma_scan_rule_entries(st: AlertScan, es: Seq<(Seq<char>, Seq<char>)>)
    requires
        forall|i: int| 0 <= i < es.len() ==> rule_entry_key((#[trigger] es[i]).0) && crate::text::trim(es[i].1) == es[i].1,
    ensures
        alert_scan_from(st, entry_lines(es)) == (st.0, st.1 + es),
    decreases es.len(),
{
    if es.len() == 0 {
        assert(st.1 + es =~= st.1);
    } else {
        let d = es.drop_last();
        assert(forall|i: int| 0 <= i < d.len() ==> d[i] == es[i]);
        lemma_scan_rule_entries(st, d);
        let e = es.last();
        assert(e == es[es.len() - 1]);
        lemma_kv_line_reads_back(e.0, e.1);
        lemma_rule_key_assigns_nothing(st.0, e.0, e.1);
        lemma_plain_key(e.0);
        assert(entry_lines(es).drop_last() == entry_lines(d));
        assert((st.1 + d).push(e) =~= st.1 + es);
    }
}

/// The entries that the lines of rule `idx` hold; `t` is its threshold text.
pub open spec fn rule_entries(idx: nat, r: AlertRuleView, t: Seq<char>) -> Seq<(Seq<char>, Seq<char>)> {
    seq![
        (rule_key(idx, "ID"@), r.id),
        (rule_key(idx, "NAME"@), r.name),
        (rule_key(idx, "METRIC"@), metric_code(r.metric_type)),
        (rule_key(idx, "OPERATOR"@), operator_code(r.operator)),
        (rule_key(idx, "THRESHOLD"@), t),
        (rule_key(idx, "FOR_SEC"@), dec(r.for_duration_sec as nat)),
        (rule_key(idx, "SEVERITY"@), severity_code(r.severity)),
        (rule_key(idx, "ENABLED"@), bool_text(r.enabled)),
    ]
}

/// The entries that the lines of all rules hold.
pub open spec fn rules_raw(rules: Seq<AlertRuleView>, thr: Seq<Seq<char>>) -> Seq<(Seq<char>, Seq<char>)>
    decreases rules.len(),
{
    if rules.len() == 0 {
        Seq::empty()
    } else {
        rules_raw(rules.drop_last(), thr) + rule_entries((rules.len() - 1) as nat, rules.last(), thr[rules.len() - 1])
    }
}

/// The lines of the rules are the lines of their entries.
proof fn lemma_rules_lines_are_entries(rules: Seq<AlertRuleView>, thr: Seq<Seq<char>>)
    ensures
        rules_lines(rules, thr) == entry_lines(rules_raw(rules, thr)),
    decreases rules.len(),
{
    if rules.len() > 0 {
        let n = (rules.len() - 1) as nat;
        lemma_rules_lines_are_entries(rules.drop_last(), thr);
        let block = rule_entries(n, rules.last(), thr[rules.len() - 1]);
        lemma_entry_lines_append(rules_raw(rules.drop_last(), thr), block);
        lemma_entry_lines_index(block);
        assert(rule_lines(n, rules.last(), thr[rules.len() - 1]) =~= entry_lines(block));
    }
}

/// The suffixes of the rule entries are settings keys that start with a letter.
proof fn lemma_suffixes()
    ensures
        plain_key("ID"@) && "ID"@.len() > 0 && !is_digit("ID"@[0]),
        plain_key("NAME"@) && "NAME"@.len() > 0 && !is_digit("NAME"@[0]),
        plain_key("METRIC"@) && "METRIC"@.len() > 0 && !is_digit("METRIC"@[0]),
        plain_key("OPERATOR"@) && "OPERATOR"@.len() > 0 && !is_digit("OPERATOR"@[0]),
        plain_key("THRESHOLD"@) && "THRESHOLD"@.len() > 0 && !is_digit("THRESHOLD"@[0]),
        plain_key("FOR_SEC"@) && "FOR_SEC"@.len() > 0 && !is_digit("FOR_SEC"@[0]),
        plain_key("SEVERITY"@) && "SEVERITY"@.len() > 0 && !is_digit("SEVERITY"@[0]),
        plain_key("ENABLED"@) && "ENABLED"@.len() > 0 && !is_digit("ENABLED"@[0]),
        "ID"@ != "NAME"@ && "ID"@ != "METRIC"@ && "ID"@ != "OPERATOR"@ && "ID"@ != "THRESHOLD"@
            && "ID"@ != "FOR_SEC"@ && "ID"@ != "SEVERITY"@ && "ID"@ != "ENABLED"@,
        "NAME"@ != "METRIC"@ && "NAME"@ != "OPERATOR"@ && "NAME"@ != "THRESHOLD"@ && "NAME"@ != "FOR_SEC"@
            && "NAME"@ != "SEVERITY"@ && "NAME"@ != "ENABLED"@,
        "METRIC"@ != "OPERATOR"@ && "METRIC"@ != "THRESHOLD"@ && "METRIC"@ != "FOR_SEC"@
            && "METRIC"@ != "SEVERITY"@ && "METRIC"@ != "ENABLED"@,
        "OPERATOR"@ != "THRESHOLD"@ && "OPERATOR"@ != "FOR_SEC"@ && "OPERATOR"@ != "SEVERITY"@
            && "OPERATOR"@ != "ENABLED"@,
        "THRESHOLD"@ != "FOR_SEC"@ && "THRESHOLD"@ != "SEVERITY"@ && "THRESHOLD"@ != "ENABLED"@,
        "FOR_SEC"@ != "SEVERITY"@ && "FOR_SEC"@ != "ENABLED"@,
        "SEVERITY"@ != "ENABLED"@,
{
    reveal_strlit("ID");
    reveal_strlit("NAME");
    reveal_strlit("METRIC");
    reveal_strlit("OPERATOR");
    reveal_strlit("THRESHOLD");
    reveal_strlit("FOR_SEC");
    reveal_strlit("SEVERITY");
    reveal_strlit("ENABLED");
    assert("ID"@.len() == 2 && "NAME"@.len() == 4 && "METRIC"@.len() == 6 && "OPERATOR"@.len() == 8);
    assert("THRESHOLD"@.len() == 9 && "FOR_SEC"@.len() == 7 && "SEVERITY"@.len() == 8 && "ENABLED"@.len() == 7);
    assert("OPERATOR"@[0] != "SEVERITY"@[0]);
    assert("FOR_SEC"@[0] != "ENABLED"@[0]);
}

/// A suffix of the rule entries.
pub open spec fn rule_suffix(s: Seq<char>) -> bool {
    plain_key(s) && s.len() > 0 && !is_digit(s[0])
}

/// The decimal text of a number is a settings key.
proof fn lemma_dec_plain(n: nat)
    ensures
        plain_key(dec(n)),
{
    lemma_dec_digits(n);
    assert forall|i: int| 0 <= i < dec(n).len() implies key_char(#[trigger] dec(n)[i]) by {
        assert(is_digit(dec(n)[i]));
    }
}

/// The key of a rule entry is a rule-entry key.
proof fn lemma_rule_key_is_entry_key(idx: nat, sfx: Seq<char>)
    requires
        plain_key(sfx),
    ensures
        rule_entry_key(rule_key(idx, sfx)),
{
    reveal_strlit("ALERT_RULE_");
    reveal_strlit("_");
    assert(plain_key("ALERT_RULE_"@));
    assert(plain_key("_"@));
    lemma_dec_plain(idx);
    lemma_plain_key_add("ALERT_RULE_"@, dec(idx));
    lemma_plain_key_add("ALERT_RULE_"@ + dec(idx), "_"@);
    lemma_plain_key_add("ALERT_RULE_"@ + dec(idx) + "_"@, sfx);
    let k = rule_key(idx, sfx);
    assert(k.take(11) =~= rule_prefix());
}

/// Rule-entry keys name their rule and suffix.
proof fn lemma_rule_key_injective(i: nat, j: nat, s: Seq<char>, t: Seq<char>)
    requires
        rule_suffix(s),
        rule_suffix(t),
        rule_key(i, s) == rule_key(j, t),
    ensures
        i == j,
        s == t,
{
    reveal_strlit("ALERT_RULE_");
    reveal_strlit("_");
    lemma_dec_digits(i);
    lemma_dec_digits(j);
    let a = rule_key(i, s);
    let b = rule_key(j, t);
    let m = dec(i).len() as int;
    let n = dec(j).len() as int;
    assert(forall|k: int| 0 <= k < m ==> a[11 + k] == dec(i)[k]);
    assert(forall|k: int| 0 <= k < n ==> b[11 + k] == dec(j)[k]);
    assert(a[11 + m] == '_');
    assert(b[11 + n] == '_');
    if m < n {
        assert(is_digit(dec(j)[m]));
        assert(b[11 + m] == dec(j)[m]);
    }
    if n < m {
        assert(is_digit(dec(i)[n]));
        assert(a[11 + n] == dec(i)[n]);
    }
    assert(m == n);
    assert(dec(i) =~= dec(j)) by {
        assert forall|k: int| 0 <= k < m implies dec(i)[k] == dec(j)[k] by {
            assert(a[11 + k] == b[11 + k]);
        }
    }
    lemma_dec_injective(i, j);
    assert("ALERT_RULE_"@.len() == 11 && "_"@.len() == 1);
    assert(a.len() == 12 + m + s.len());
    assert(b.len() == 12 + n + t.len());
    assert(s.len() == t.len());
    assert(s =~= t) by {
        assert forall|k: int| 0 <= k < s.len() implies s[k] == t[k] by {
            assert(a[12 + m + k] == s[k]);
            assert(b[12 + n + k] == t[k]);
        }
    }
}

/// The count key is no rule-entry key of a rule.
proof fn lemma_count_key_not_rule_key(i: nat, s: Seq<char>)
    ensures
        "ALERT_RULE_COUNT"@ != rule_key(i, s),
{
    reveal_strlit("ALERT_RULE_");
    reveal_strlit("ALERT_RULE_COUNT");
    lemma_dec_digits(i);
    assert(rule_key(i, s)[11] == dec(i)[0]);
    assert(is_digit(dec(i)[0]));
    assert("ALERT_RULE_COUNT"@[11] == 'C');
}

/// Looking up a key held once gives its value.
proof fn lemma_lookup_unique(es: Seq<(Seq<char>, Seq<char>)>, key: Seq<char>, k: int)
    requires
        0 <= k < es.len(),
        es[k].0 == key,
        forall|i: int| 0 <= i < es.len() && i != k ==> (#[trigger] es[i]).0 != key,
    ensures
        lookup(es, key) == Some(es[k].1),
    decreases es.len(),
{
    if k < es.len() - 1 {
        let d = es.drop_last();
        assert(forall|i: int| 0 <= i < d.len() ==> d[i] == es[i]);
        assert(es.last() == es[es.len() - 1]);
        lemma_lookup_unique(d, key, k);
    }
}

/// Looking up a key held nowhere gives nothing.
proof fn lemma_lookup_absent(es: Seq<(Seq<char>, Seq<char>)>, key: Seq<char>)
    requires
        forall|i: int| 0 <= i < es.len() ==> (#[trigger] es[i]).0 != key,
    ensures
        lookup(es, key) is None,
    decreases es.len(),
{
    if es.len() > 0 {
        let d = es.drop_last();
        assert(forall|i: int| 0 <= i < d.len() ==> d[i] == es[i]);
        assert(es.last() == es[es.len() - 1]);
        lemma_lookup_absent(d, key);
    }
}

/// The suffixes of the entries of a rule, in order.
pub open spec fn suffix_list() -> Seq<Seq<char>> {
    seq!["ID"@, "NAME"@, "METRIC"@, "OPERATOR"@, "THRESHOLD"@, "FOR_SEC"@, "SEVERITY"@, "ENABLED"@]
}

/// The suffixes are distinct suffixes of rule entries.
proof fn lemma_suffix_list()
    ensures
        suffix_list().len() == 8,
        forall|k: int| 0 <= k < 8 ==> rule_suffix(#[trigger] suffix_list()[k]),
        forall|a: int, b: int| 0 <= a < 8 && 0 <= b < 8 && a != b ==> suffix_list()[a] != suffix_list()[b],
{
    lemma_suffixes();
}

/// The keys of the entries of rule `j` are its keys with the suffixes in order.
proof fn lemma_rule_entries_keys(j: nat, r: AlertRuleView, t: Seq<char>)
    ensures
        rule_entries(j, r, t).len() == 8,
        forall|k: int| 0 <= k < 8 ==> (#[trigger] rule_entries(j, r, t)[k]).0 == rule_key(j, suffix_list()[k]),
{
}

/// Looking up a rule key among the entries of rule `j`: found there for rule
/// `j`, absent for any other rule.
proof fn lemma_block_lookup(j: nat, r: AlertRuleView, t: Seq<char>, i: nat, k: int)
    requires
        0 <= k < 8,
    ensures
        lookup(rule_entries(j, r, t), rule_key(i, suffix_list()[k]))
            == (if i == j { Some(rule_entries(j, r, t)[k].1) } else { None::<Seq<char>> }),
{
    lemma_suffix_list();
    lemma_rule_entries_keys(j, r, t);
    let block = rule_entries(j, r, t);
    let key = rule_key(i, suffix_list()[k]);
    if i == j {
        assert forall|x: int| 0 <= x < block.len() && x != k implies (#[trigger] block[x]).0 != key by {
            if block[x].0 == key {
                lemma_rule_key_injective(j, i, suffix_list()[x], suffix_list()[k]);
            }
        }
        lemma_lookup_unique(block, key, k);
    } else {
        assert forall|x: int| 0 <= x < block.len() implies (#[trigger] block[x]).0 != key by {
            if block[x].0 == key {
                lemma_rule_key_injective(j, i, suffix_list()[x], suffix_list()[k]);
            }
        }
        lemma_lookup_absent(block, key);
    }
}

/// Looking up a rule key among the entries of all rules gives that rule's entry.
proof fn lemma_rules_raw_lookup(rules: Seq<AlertRuleView>, thr: Seq<Seq<char>>, i: nat, k: int)
    requires
        i < rules.len(),
        0 <= k < 8,
    ensures
        lookup(rules_raw(rules, thr), rule_key(i, suffix_list()[k])) == Some(rule_entries(i, rules[i as int], thr[i as int])[k].1),
    decreases rules.len(),
{
    let j = (rules.len() - 1) as nat;
    let d = rules.drop_last();
    let block = rule_entries(j, rules.last(), thr[rules.len() - 1]);
    crate::settings::kv::lemma_lookup_append(rules_raw(d, thr), block, rule_key(i, suffix_list()[k]));
    lemma_block_lookup(j, rules.last(), thr[rules.len() - 1], i, k);
    if i < j {
        lemma_rules_raw_lookup(d, thr, i, k);
        assert(d[i as int] == rules[i as int]);
    }
}

/// The count key is held by none of the entries of the rules.
proof fn lemma_rules_raw_no_count(rules: Seq<AlertRuleView>, thr: Seq<Seq<char>>)
    ensures
        lookup(rules_raw(rules, thr), "ALERT_RULE_COUNT"@) is None,
    decreases rules.len(),
{
    if rules.len() > 0 {
        let j = (rules.len() - 1) as nat;
        let block = rule_entries(j, rules.last(), thr[rules.len() - 1]);
        lemma_rule_entries_keys(j, rules.last(), thr[rules.len() - 1]);
        assert forall|x: int| 0 <= x < block.len() implies (#[trigger] block[x]).0 != "ALERT_RULE_COUNT"@ by {
            lemma_count_key_not_rule_key(j, suffix_list()[x]);
        }
        lemma_lookup_absent(block, "ALERT_RULE_COUNT"@);
        crate::settings::kv::lemma_lookup_append(rules_raw(rules.drop_last(), thr), block, "ALERT_RULE_COUNT"@);
        lemma_rules_raw_no_count(rules.drop_last(), thr);
    }
}

/// The rules and threshold texts can be written and read back: ids, names and
/// threshold texts are their own trim.
pub open spec fn rules_writable(rules: Seq<AlertRuleView>, thr: Seq<Seq<char>>) -> bool {
    &&& thr.len() == rules.len()
    &&& forall|i: int| 0 <= i < rules.len() ==> {
        &&& crate::text::trim((#[trigger] rules[i]).id) == rules[i].id
        &&& crate::text::trim(rules[i].name) == rules[i].name
        &&& crate::text::trim(thr[i]) == thr[i]
    }
}

/// Codes, numbers and booleans are settings keys, hence their own trim.
proof fn lemma_codes_plain(r: AlertRuleView)
    ensures
        plain_key(metric_code(r.metric_type)),
        plain_key(operator_code(r.operator)),
        plain_key(severity_code(r.severity)),
        plain_key(dec(r.for_duration_sec as nat)),
        crate::text::trim(bool_text(r.enabled)) == bool_text(r.enabled),
{
    reveal_strlit("CPU");
    reveal_strlit("MEMORY");
    reveal_strlit("DISK");
    reveal_strlit("GPU");
    reveal_strlit("GT");
    reveal_strlit("LT");
    reveal_strlit("GTE");
    reveal_strlit("LTE");
    reveal_strlit("INFO");
    reveal_strlit("WARNING");
    reveal_strlit("CRITICAL");
    reveal_strlit("true");
    reveal_strlit("false");
    lemma_dec_plain(r.for_duration_sec as nat);
    crate::text::lemma_trim_unchanged(bool_text(r.enabled));
}

/// The entries of writable rules have rule-entry keys and values that are their own trim.
proof fn lemma_rules_raw_scannable(rules: Seq<AlertRuleView>, thr: Seq<Seq<char>>)
    requires
        rules_writable(rules, thr),
    ensures
        forall|x: int| 0 <= x < rules_raw(rules, thr).len() ==> rule_entry_key((#[trigger] rules_raw(rules, thr)[x]).0)
            && crate::text::trim(rules_raw(rules, thr)[x].1) == rules_raw(rules, thr)[x].1,
    decreases rules.len(),
{
    if rules.len() > 0 {
        let d = rules.drop_last();
        let j = (rules.len() - 1) as nat;
        assert(rules_writable(d, thr.take(d.len() as int))) by {
            assert(forall|i: int| 0 <= i < d.len() ==> d[i] == rules[i]);
        }
        assert forall|x: int| 0 <= x < rules_raw(d, thr).len() implies rule_entry_key((#[trigger] rules_raw(d, thr)[x]).0)
            && crate::text::trim(rules_raw(d, thr)[x].1) == rules_raw(d, thr)[x].1 by {
            lemma_rules_raw_thr(d, thr, thr.take(d.len() as int));
            lemma_rules_raw_scannable(d, thr.take(d.len() as int));
        }
        let r = rules.last();
        let block = rule_entries(j, r, thr[rules.len() - 1]);
        lemma_suffix_list();
        lemma_rule_entries_keys(j, r, thr[rules.len() - 1]);
        lemma_codes_plain(r);
        assert(r == rules[rules.len() - 1]);
        assert forall|x: int| 0 <= x < block.len() implies rule_entry_key((#[trigger] block[x]).0)
            && crate::text::trim(block[x].1) == block[x].1 by {
            lemma_rule_key_is_entry_key(j, suffix_list()[x]);
            if x == 2 {
                lemma_plain_key(metric_code(r.metric_type));
            } else if x == 3 {
                lemma_plain_key(operator_code(r.operator));
            } else if x == 5 {
                lemma_plain_key(dec(r.for_duration_sec as nat));
            } else if x == 6 {
                lemma_plain_key(severity_code(r.severity));
            }
        }
        let raw = rules_raw(rules, thr);
        assert forall|x: int| 0 <= x < raw.len() implies rule_entry_key((#[trigger] raw[x]).0)
            && crate::text::trim(raw[x].1) == raw[x].1 by {
            let p = rules_raw(d, thr);
            if x < p.len() {
                assert(raw[x] == p[x]);
            } else {
                assert(raw[x] == block[x - p.len()]);
            }
        }
    }
}

/// The entries of rules depend only on the threshold texts of those rules.
proof fn lemma_rules_raw_thr(rules: Seq<AlertRuleView>, a: Seq<Seq<char>>, b: Seq<Seq<char>>)
    requires
        a.len() >= rules.len(),
        b.len() >= rules.len(),
        forall|i: int| 0 <= i < rules.len() ==> a[i] == b[i],
    ensures
        rules_raw(rules, a) == rules_raw(rules, b),
    decreases rules.len(),
{
    if rules.len() > 0 {
        lemma_rules_raw_thr(rules.drop_last(), a, b);
    }
}

/// The entries of the lines after the rules.
pub open spec fn tail_entries(e: InfoAlertView) -> Seq<(Seq<char>, Seq<char>)> {
    seq![
        ("ENABLE_CLUSTER_HEALTH_ALERT"@, bool_text(e.enable_cluster_health_alert)),
        ("ENABLE_RUSTCOST_HEALTH_ALERT"@, bool_text(e.enable_rustcost_health_alert)),
        ("GLOBAL_ALERT_SUBJECT"@, e.global_alert_subject),
        ("LINKBACK_URL"@, text_or_empty(e.linkback_url)),
        ("EMAIL_RECIPIENTS"@, joined(e.email_recipients, ","@)),
        ("SLACK_WEBHOOK_URL"@, text_or_empty(e.slack_webhook_url)),
        ("TEAMS_WEBHOOK_URL"@, text_or_empty(e.teams_webhook_url)),
        ("DISCORD_WEBHOOK_URL"@, text_or_empty(e.discord_webhook_url)),
        ("CREATED_AT"@, instant_text(e.created_at)),
        ("UPDATED_AT"@, instant_text(e.updated_at)),
        ("VERSION"@, e.version),
    ]
}

/// The settings after assigning each entry in order.
pub open spec fn fold_assign(s: InfoAlertView, es: Seq<(Seq<char>, Seq<char>)>) -> InfoAlertView
    decreases es.len(),
{
    if es.len() == 0 {
        s
    } else {
        assign_alert_key(fold_assign(s, es.drop_last()), es.last().0, es.last().1)
    }
}

/// Scanning lines of entries that are no rule entries assigns them and collects nothing.
proof fn lemma_scan_setting_entries(st: AlertScan, es: Seq<(Seq<char>, Seq<char>)>)
    requires
        forall|i: int| 0 <= i < es.len() ==> {
            &&& plain_key((#[trigger] es[i]).0)
            &&& es[i].0.len() > 0
            &&& es[i].0[0] != 'A'
            &&& trim(es[i].1) == es[i].1
        },
    ensures
        alert_scan_from(st, entry_lines(es)) == (fold_assign(st.0, es), st.1),
    decreases es.len(),
{
    if es.len() > 0 {
        let d = es.drop_last();
        assert(forall|i: int| 0 <= i < d.len() ==> d[i] == es[i]);
        lemma_scan_setting_entries(st, d);
        let e = es.last();
        assert(e == es[es.len() - 1]);
        lemma_kv_line_reads_back(e.0, e.1);
        lemma_plain_key(e.0);
        reveal_strlit("ALERT_RULE_");
        assert(!has_prefix(e.0, "ALERT_RULE_"@)) by {
            if has_prefix(e.0, "ALERT_RULE_"@) {
                assert(e.0.take(11)[0] == "ALERT_RULE_"@[0]);
            }
        }
        assert(entry_lines(es).drop_last() == entry_lines(d));
    }
}

/// The settings after the rules can be written and read back: both times read
/// back from their `to_rfc3339` text, and [`tail_texts_writable`] holds.
pub open spec fn tail_writable(e: InfoAlertView) -> bool {
    &&& tail_texts_writable(e)
    &&& instant_reads_back(e.created_at)
    &&& instant_reads_back(e.updated_at)
}

/// The texts after the rules can be written and read back: they are their
/// own trim, optional URLs are non-empty, and recipients are non-empty and
/// hold no `,`.
pub open spec fn tail_texts_writable(e: InfoAlertView) -> bool {
    &&& trim(e.global_alert_subject) == e.global_alert_subject
    &&& trim(e.version) == e.version
    &&& (e.linkback_url matches Some(u) ==> u.len() > 0 && trim(u) == u)
    &&& (e.slack_webhook_url matches Some(u) ==> u.len() > 0 && trim(u) == u)
    &&& (e.teams_webhook_url matches Some(u) ==> u.len() > 0 && trim(u) == u)
    &&& (e.discord_webhook_url matches Some(u) ==> u.len() > 0 && trim(u) == u)
    &&& forall|i: int| 0 <= i < e.email_recipients.len() ==> {
        &&& (#[trigger] e.email_recipients[i]).len() > 0
        &&& trim(e.email_recipients[i]) == e.email_recipients[i]
        &&& forall|j: int| 0 <= j < e.email_recipients[i].len() ==> e.email_recipients[i][j] != ','
    }
}

/// An optional URL reads back from its text.
proof fn lemma_url_round_trip(u: Option<Seq<char>>)
    requires
        u matches Some(x) ==> x.len() > 0 && trim(x) == x,
    ensures
        non_empty(text_or_empty(u)) == u,
        trim(text_or_empty(u)) == text_or_empty(u),
{
    lemma_trim_unchanged(Seq::<char>::empty());
}

/// The entries after the rules have setting keys and values that are their own trim.
proof fn lemma_tail_entries_scannable(e: InfoAlertView)
    requires
        tail_writable(e),
    ensures
        forall|i: int| 0 <= i < tail_entries(e).len() ==> {
            &&& plain_key((#[trigger] tail_entries(e)[i]).0)
            &&& tail_entries(e)[i].0.len() > 0
            &&& tail_entries(e)[i].0[0] != 'A'
            &&& trim(tail_entries(e)[i].1) == tail_entries(e)[i].1
        },
{
    reveal_strlit("ENABLE_CLUSTER_HEALTH_ALERT");
    reveal_strlit("ENABLE_RUSTCOST_HEALTH_ALERT");
    reveal_strlit("GLOBAL_ALERT_SUBJECT");
    reveal_strlit("LINKBACK_URL");
    reveal_strlit("EMAIL_RECIPIENTS");
    reveal_strlit("SLACK_WEBHOOK_URL");
    reveal_strlit("TEAMS_WEBHOOK_URL");
    reveal_strlit("DISCORD_WEBHOOK_URL");
    reveal_strlit("CREATED_AT");
    reveal_strlit("UPDATED_AT");
    reveal_strlit("VERSION");
    reveal_strlit("true");
    reveal_strlit("false");
    lemma_trim_unchanged(bool_text(e.enable_cluster_health_alert));
    lemma_trim_unchanged(bool_text(e.enable_rustcost_health_alert));
    lemma_url_round_trip(e.linkback_url);
    lemma_url_round_trip(e.slack_webhook_url);
    lemma_url_round_trip(e.teams_webhook_url);
    lemma_url_round_trip(e.discord_webhook_url);
    lemma_joined_trimmed(e.email_recipients);
}

/// Assigning one more entry of a prefix.
proof fn lemma_fold_step(s: InfoAlertView, es: Seq<(Seq<char>, Seq<char>)>, k: int)
    requires
        0 <= k < es.len(),
    ensures
        fold_assign(s, es.take(k + 1)) == assign_alert_key(fold_assign(s, es.take(k)), es[k].0, es[k].1),
{
    assert(es.take(k + 1).drop_last() == es.take(k));
    assert(es.take(k + 1).last() == es[k]);
}

/// The literal keys of the settings differ from one another, and the boolean
/// texts read back as their booleans.
proof fn lemma_setting_keys()
    ensures
        "ENABLE_CLUSTER_HEALTH_ALERT"@.len() == 27,
        "ENABLE_RUSTCOST_HEALTH_ALERT"@.len() == 28,
        "GLOBAL_ALERT_SUBJECT"@.len() == 20,
        "LINKBACK_URL"@.len() == 12,
        "EMAIL_RECIPIENTS"@.len() == 16,
        "SLACK_WEBHOOK_URL"@.len() == 17,
        "TEAMS_WEBHOOK_URL"@.len() == 17,
        "DISCORD_WEBHOOK_URL"@.len() == 19,
        "CREATED_AT"@.len() == 10,
        "UPDATED_AT"@.len() == 10,
        "VERSION"@.len() == 7,
        "SLACK_WEBHOOK_URL"@ != "TEAMS_WEBHOOK_URL"@,
        "CREATED_AT"@ != "UPDATED_AT"@,
        forall|b: bool| (lower_seq(bool_text(b)) == lower_seq("true"@)) == b,
{
    reveal_strlit("ENABLE_CLUSTER_HEALTH_ALERT");
    reveal_strlit("ENABLE_RUSTCOST_HEALTH_ALERT");
    reveal_strlit("GLOBAL_ALERT_SUBJECT");
    reveal_strlit("LINKBACK_URL");
    reveal_strlit("EMAIL_RECIPIENTS");
    reveal_strlit("SLACK_WEBHOOK_URL");
    reveal_strlit("TEAMS_WEBHOOK_URL");
    reveal_strlit("DISCORD_WEBHOOK_URL");
    reveal_strlit("CREATED_AT");
    reveal_strlit("UPDATED_AT");
    reveal_strlit("VERSION");
    reveal_strlit("true");
    reveal_strlit("false");
    assert("SLACK_WEBHOOK_URL"@[0] != "TEAMS_WEBHOOK_URL"@[0]);
    assert("CREATED_AT"@[0] != "UPDATED_AT"@[0]);
    assert(lower_seq("true"@) =~= "true"@);
    assert(lower_seq("false"@) =~= "false"@);
}

/// Reading the entries after the rules sets each of those settings to what was
/// written and leaves the rules alone.
proof fn lemma_tail_fold(s: InfoAlertView, e: InfoAlertView)
    requires
        tail_writable(e),
    ensures
        fold_assign(s, tail_entries(e)) == (InfoAlertView { rules: s.rules, ..e }),
{
    let t = tail_entries(e);
    lemma_setting_keys();
    lemma_url_round_trip(e.linkback_url);
    lemma_url_round_trip(e.slack_webhook_url);
    lemma_url_round_trip(e.teams_webhook_url);
    lemma_url_round_trip(e.discord_webhook_url);
    lemma_list_items_joined(e.email_recipients);
    assert(t.take(0) =~= Seq::<(Seq<char>, Seq<char>)>::empty());
    let s1 = assign_alert_key(s, t[0].0, t[0].1);
    lemma_fold_step(s, t, 0);
    assert(s1 == InfoAlertView { enable_cluster_health_alert: e.enable_cluster_health_alert, ..s });
    lemma_fold_step(s, t, 1);
    let s2 = assign_alert_key(s1, t[1].0, t[1].1);
    assert(s2 == InfoAlertView { enable_rustcost_health_alert: e.enable_rustcost_health_alert, ..s1 });
    lemma_fold_step(s, t, 2);
    let s3 = assign_alert_key(s2, t[2].0, t[2].1);
    assert(s3 == InfoAlertView { global_alert_subject: e.global_alert_subject, ..s2 });
    lemma_fold_step(s, t, 3);
    let s4 = assign_alert_key(s3, t[3].0, t[3].1);
    assert(s4 == InfoAlertView { linkback_url: e.linkback_url, ..s3 });
    lemma_fold_step(s, t, 4);
    let s5 = assign_alert_key(s4, t[4].0, t[4].1);
    assert(s5 == InfoAlertView { email_recipients: e.email_recipients, ..s4 });
    lemma_fold_step(s, t, 5);
    let s6 = assign_alert_key(s5, t[5].0, t[5].1);
    assert(s6 == InfoAlertView { slack_webhook_url: e.slack_webhook_url, ..s5 });
    lemma_fold_step(s, t, 6);
    let s7 = assign_alert_key(s6, t[6].0, t[6].1);
    assert(s7 == InfoAlertView { teams_webhook_url: e.teams_webhook_url, ..s6 });
    lemma_fold_step(s, t, 7);
    let s8 = assign_alert_key(s7, t[7].0, t[7].1);
    assert(s8 == InfoAlertView { discord_webhook_url: e.discord_webhook_url, ..s7 });
    lemma_fold_step(s, t, 8);
    let s9 = assign_alert_key(s8, t[8].0, t[8].1);
    assert(s9 == InfoAlertView { created_at: e.created_at, ..s8 });
    lemma_fold_step(s, t, 9);
    let s10 = assign_alert_key(s9, t[9].0, t[9].1);
    assert(s10 == InfoAlertView { updated_at: e.updated_at, ..s9 });
    lemma_fold_step(s, t, 10);
    let s11 = assign_alert_key(s10, t[10].0, t[10].1);
    assert(s11 == InfoAlertView { version: e.version, ..s10 });
    assert(t.take(11) == t);
}

/// The entries that reading collects from a file of `rules`.
pub open spec fn written_raw(rules: Seq<AlertRuleView>, thr: Seq<Seq<char>>) -> Seq<(Seq<char>, Seq<char>)> {
    seq![("ALERT_RULE_COUNT"@, dec(rules.len()))] + rules_raw(rules, thr)
}

/// The collected entries give the rule count and each entry of each rule.
proof fn lemma_written_raw_lookups(rules: Seq<AlertRuleView>, thr: Seq<Seq<char>>)
    ensures
        lookup(written_raw(rules, thr), "ALERT_RULE_COUNT"@) == Some(dec(rules.len())),
        forall|i: nat, k: int| i < rules.len() && 0 <= k < 8 ==>
            #[trigger] lookup(written_raw(rules, thr), rule_key(i, #[trigger] suffix_list()[k]))
                == Some(rule_entries(i, rules[i as int], thr[i as int])[k].1),
{
    let c = seq![("ALERT_RULE_COUNT"@, dec(rules.len()))];
    crate::settings::kv::lemma_lookup_append(c, rules_raw(rules, thr), "ALERT_RULE_COUNT"@);
    lemma_rules_raw_no_count(rules, thr);
    assert(c.drop_last() =~= Seq::<(Seq<char>, Seq<char>)>::empty());
    assert forall|i: nat, k: int| i < rules.len() && 0 <= k < 8 implies
        #[trigger] lookup(written_raw(rules, thr), rule_key(i, #[trigger] suffix_list()[k]))
            == Some(rule_entries(i, rules[i as int], thr[i as int])[k].1) by {
        crate::settings::kv::lemma_lookup_append(c, rules_raw(rules, thr), rule_key(i, suffix_list()[k]));
        lemma_rules_raw_lookup(rules, thr, i, k);
    }
}

/// Each rule reads back as written, with the threshold that the caller reads
/// from its text.
proof fn lemma_read_rule(rules: Seq<AlertRuleView>, thr: Seq<Seq<char>>, i: nat, b: u64)
    requires
        i < rules.len(),
        rules_writable(rules, thr),
    ensures
        rule_at(written_raw(rules, thr), i, b) == (AlertRuleView { threshold_bits: b, ..rules[i as int] }),
{
    let r = rules[i as int];
    let raw = written_raw(rules, thr);
    lemma_written_raw_lookups(rules, thr);
    lemma_suffix_list();
    reveal_strlit("ID");
    reveal_strlit("NAME");
    reveal_strlit("METRIC");
    reveal_strlit("OPERATOR");
    reveal_strlit("FOR_SEC");
    reveal_strlit("SEVERITY");
    reveal_strlit("ENABLED");
    assert(lookup(raw, rule_key(i, suffix_list()[0])) == Some(r.id));
    assert(lookup(raw, rule_key(i, suffix_list()[1])) == Some(r.name));
    assert(lookup(raw, rule_key(i, suffix_list()[2])) == Some(metric_code(r.metric_type)));
    assert(lookup(raw, rule_key(i, suffix_list()[3])) == Some(operator_code(r.operator)));
    assert(lookup(raw, rule_key(i, suffix_list()[5])) == Some(dec(r.for_duration_sec as nat)));
    assert(lookup(raw, rule_key(i, suffix_list()[6])) == Some(severity_code(r.severity)));
    assert(lookup(raw, rule_key(i, suffix_list()[7])) == Some(bool_text(r.enabled)));
    lemma_alert_codes_round_trip(r.metric_type, r.operator, r.severity);
    lemma_parse_dec_u64(r.for_duration_sec);
    lemma_setting_keys();
}

/// The rules read back as written, and so do their threshold texts.
proof fn lemma_read_rules(rules: Seq<AlertRuleView>, thr: Seq<Seq<char>>)
    requires
        rules_writable(rules, thr),
        rules.len() <= usize::MAX,
    ensures
        rules_from(written_raw(rules, thr), Seq::new(rules.len(), |i: int| rules[i].threshold_bits)) == rules,
        rule_count(written_raw(rules, thr)) == rules.len(),
{
    let raw = written_raw(rules, thr);
    let bits = Seq::new(rules.len(), |i: int| rules[i].threshold_bits);
    lemma_written_raw_lookups(rules, thr);
    lemma_parse_dec_small(rules.len());
    assert(rule_count(raw) == rules.len());
    assert forall|i: int| 0 <= i < rules.len() implies rules_from(raw, bits)[i] == rules[i] by {
        lemma_read_rule(rules, thr, i as nat, bits[i]);
        assert(threshold_of(bits, i as nat) == rules[i].threshold_bits);
    }
    assert(rules_from(raw, bits) =~= rules);
}

/// The lines of a file are the lines of the entries it collects, then those
/// of the other settings.
proof fn lemma_file_lines_as_entries(e: InfoAlertView, thr: Seq<Seq<char>>)
    ensures
        alert_file_lines(e, thr) == entry_lines(written_raw(e.rules, thr)) + entry_lines(tail_entries(e)),
{
    let c = seq![("ALERT_RULE_COUNT"@, dec(e.rules.len()))];
    lemma_entry_lines_index(c);
    lemma_entry_lines_index(tail_entries(e));
    lemma_rules_lines_are_entries(e.rules, thr);
    lemma_entry_lines_append(c, rules_raw(e.rules, thr));
    assert(entry_lines(c) =~= seq![kv_text("ALERT_RULE_COUNT"@, dec(e.rules.len()))]);
    let tail = entry_lines(tail_entries(e));
    assert(tail =~= seq![
        kv_text("ENABLE_CLUSTER_HEALTH_ALERT"@, bool_text(e.enable_cluster_health_alert)),
        kv_text("ENABLE_RUSTCOST_HEALTH_ALERT"@, bool_text(e.enable_rustcost_health_alert)),
        kv_text("GLOBAL_ALERT_SUBJECT"@, e.global_alert_subject),
        kv_text("LINKBACK_URL"@, text_or_empty(e.linkback_url)),
        kv_text("EMAIL_RECIPIENTS"@, joined(e.email_recipients, ","@)),
        kv_text("SLACK_WEBHOOK_URL"@, text_or_empty(e.slack_webhook_url)),
        kv_text("TEAMS_WEBHOOK_URL"@, text_or_empty(e.teams_webhook_url)),
        kv_text("DISCORD_WEBHOOK_URL"@, text_or_empty(e.discord_webhook_url)),
        kv_text("CREATED_AT"@, instant_text(e.created_at)),
        kv_text("UPDATED_AT"@, instant_text(e.updated_at)),
        kv_text("VERSION"@, e.version),
    ]);
}

/// Reading a written file collects the rule entries and sets the other settings.
proof fn lemma_scan_written(e: InfoAlertView, thr: Seq<Seq<char>>, now: UtcTime)
    requires
        rules_writable(e.rules, thr),
        tail_writable(e),
    ensures
        alert_scan(alert_file_lines(e, thr), now)
            == (InfoAlertView { rules: Seq::empty(), ..e }, written_raw(e.rules, thr)),
{
    let raw = written_raw(e.rules, thr);
    let st0 = (default_alert_view(now), Seq::<(Seq<char>, Seq<char>)>::empty());
    lemma_file_lines_as_entries(e, thr);
    lemma_scan_is_from(alert_file_lines(e, thr), now);
    lemma_scan_from_append(st0, entry_lines(raw), entry_lines(tail_entries(e)));
    lemma_rules_raw_scannable(e.rules, thr);
    lemma_rule_key_is_entry_key(0, Seq::empty());
    reveal_strlit("ALERT_RULE_COUNT");
    reveal_strlit("ALERT_RULE_");
    assert(rule_entry_key("ALERT_RULE_COUNT"@)) by {
        assert("ALERT_RULE_COUNT"@.take(11) =~= rule_prefix());
    }
    lemma_dec_plain(e.rules.len());
    lemma_plain_key(dec(e.rules.len()));
    assert forall|x: int| 0 <= x < raw.len() implies rule_entry_key((#[trigger] raw[x]).0) && trim(raw[x].1) == raw[x].1 by {
        if x > 0 {
            assert(raw[x] == rules_raw(e.rules, thr)[x - 1]);
        }
    }
    lemma_scan_rule_entries(st0, raw);
    assert(Seq::<(Seq<char>, Seq<char>)>::empty() + raw =~= raw);
    lemma_tail_entries_scannable(e);
    lemma_scan_setting_entries((default_alert_view(now), raw), tail_entries(e));
    lemma_tail_fold(default_alert_view(now), e);
}

/// The threshold bits of the rules, in order.
pub open spec fn threshold_bits_of(rules: Seq<AlertRuleView>) -> Seq<u64> {
    Seq::new(rules.len(), |i: int| rules[i].threshold_bits)
}

/// Reading back the lines that writing the alert settings `e` produces gives
/// `e` again, with each rule's threshold as the caller reads it from its text;
/// the threshold texts read back are those written. This holds for settings
/// whose texts are their own trim, whose optional URLs and recipients are
/// non-empty (recipients without `,`), and whose times read back from their
/// RFC 3339 text.
pub proof fn lemma_alert_file_round_trip(e: InfoAlertView, thr: Seq<Seq<char>>, now: UtcTime)
    requires
        rules_writable(e.rules, thr),
        tail_writable(e),
        e.rules.len() <= usize::MAX,
    ensures
        alert_from_lines(alert_file_lines(e, thr), now, threshold_bits_of(e.rules)) == e,
        threshold_texts(alert_file_lines(e, thr)) == thr.map_values(|t: Seq<char>| Some(t)),
{
    let raw = written_raw(e.rules, thr);
    lemma_scan_written(e, thr, now);
    lemma_scan_written(e, thr, UtcTime { secs: 0, nanos: 0 });
    lemma_read_rules(e.rules, thr);
    lemma_written_raw_lookups(e.rules, thr);
    lemma_suffix_list();
    reveal_strlit("THRESHOLD");
    assert forall|i: int| 0 <= i < e.rules.len() implies lookup(raw, rule_key(i as nat, "THRESHOLD"@)) == Some(thr[i]) by {
        assert(lookup(raw, rule_key(i as nat, suffix_list()[4])) == Some(rule_entries(i as nat, e.rules[i], thr[i])[4].1));
    }
    assert(threshold_texts(alert_file_lines(e, thr)) =~= thr.map_values(|t: Seq<char>| Some(t)));
}

} // verus!
