//! Alert delivery settings: the entity, its updates, and its `alerts.rci` file.
use vstd::prelude::*;
use crate::codes::{AlertMetricType, AlertOperator, AlertSeverity, metric_code, metric_of_code, operator_code, operator_of_code, severity_code, severity_of_code};
use crate::settings::kv::{kv_line, kv_text, text_or_empty, bool_str, bool_text, entry_views, join_strs, joined, list_items, lookup, lookup_entry, non_empty, non_empty_string, opt_str, split_list, split_once, split_once_str};
use crate::text::{dec, eq_ignore_ascii_case, has_prefix, is_blank, key_upper, lower_seq, parse_u64, parse_u64_spec, parse_usize, parse_usize_spec, push_all, starts_with, str_eq, trim, trim_str, upper_key, usize_to_dec, u64_to_dec, views};
use crate::settings::alert_laws::{lemma_alert_file_round_trip, rules_writable, tail_texts_writable, tail_writable, threshold_bits_of};
use crate::time::{UtcTime, four_digit_instant, instant_string, instant_text, format_rfc3339, parse_rfc3339, rfc3339_parse, rfc3339_text, utc_now};

verus! {

// ---------------------------------------------------------------------------
// Entities and their views
// ---------------------------------------------------------------------------

/// A declarative alert rule evaluated against metrics.
#[derive(Clone, Debug)]
pub struct AlertRuleEntity {
    pub id: String,
    pub name: String,
    pub metric_type: AlertMetricType,
    pub operator: AlertOperator,
    /// The threshold, as the bit pattern of an `f64` (`f64::to_bits`).
    pub threshold_bits: u64,
    pub for_duration_sec: u64,
    pub severity: AlertSeverity,
    pub enabled: bool,
}

/// Alert delivery configuration.
#[derive(Clone, Debug)]
pub struct InfoAlertEntity {
    /// Enable cluster-level health monitoring alerts.
    pub enable_cluster_health_alert: bool,
    /// Enable internal RustCost health alerts.
    pub enable_rustcost_health_alert: bool,
    /// Default subject line for alert notifications.
    pub global_alert_subject: String,
    /// Optional URL to include in alert messages for reference.
    pub linkback_url: Option<String>,
    /// Global list of alert email recipients.
    pub email_recipients: Vec<String>,
    /// Optional Slack webhook for alert delivery.
    pub slack_webhook_url: Option<String>,
    /// Optional Microsoft Teams webhook for alert delivery.
    pub teams_webhook_url: Option<String>,
    /// Optional Discord webhook for alert delivery.
    pub discord_webhook_url: Option<String>,
    /// Declarative alert rules evaluated against metrics.
    pub rules: Vec<AlertRuleEntity>,
    /// Configuration creation time.
    pub created_at: UtcTime,
    /// Last update time.
    pub updated_at: UtcTime,
    /// Version identifier for the configuration format.
    pub version: String,
}

/// A partial update of the alert settings: every present field is applied.
#[derive(Clone, Debug)]
pub struct InfoAlertUpsertRequest {
    pub enable_cluster_health_alert: Option<bool>,
    pub enable_rustcost_health_alert: Option<bool>,
    pub global_alert_subject: Option<String>,
    pub linkback_url: Option<String>,
    pub email_recipients: Option<Vec<String>>,
    pub slack_webhook_url: Option<String>,
    pub teams_webhook_url: Option<String>,
    pub discord_webhook_url: Option<String>,
    pub rules: Option<Vec<AlertRuleEntity>>,
}

/// Mathematical form of an [`AlertRuleEntity`].
pub struct AlertRuleView {
    pub id: Seq<char>,
    pub name: Seq<char>,
    pub metric_type: AlertMetricType,
    pub operator: AlertOperator,
    pub threshold_bits: u64,
    pub for_duration_sec: u64,
    pub severity: AlertSeverity,
    pub enabled: bool,
}

/// Mathematical form of an [`InfoAlertEntity`].
pub struct InfoAlertView {
    pub enable_cluster_health_alert: bool,
    pub enable_rustcost_health_alert: bool,
    pub global_alert_subject: Seq<char>,
    pub linkback_url: Option<Seq<char>>,
    pub email_recipients: Seq<Seq<char>>,
    pub slack_webhook_url: Option<Seq<char>>,
    pub teams_webhook_url: Option<Seq<char>>,
    pub discord_webhook_url: Option<Seq<char>>,
    pub rules: Seq<AlertRuleView>,
    pub created_at: UtcTime,
    pub updated_at: UtcTime,
    pub version: Seq<char>,
}

/// Mathematical form of an [`InfoAlertUpsertRequest`].
pub struct AlertUpsertView {
    pub enable_cluster_health_alert: Option<bool>,
    pub enable_rustcost_health_alert: Option<bool>,
    pub global_alert_subject: Option<Seq<char>>,
    pub linkback_url: Option<Seq<char>>,
    pub email_recipients: Option<Seq<Seq<char>>>,
    pub slack_webhook_url: Option<Seq<char>>,
    pub teams_webhook_url: Option<Seq<char>>,
    pub discord_webhook_url: Option<Seq<char>>,
    pub rules: Option<Seq<AlertRuleView>>,
}

impl View for AlertRuleEntity {
    type V = AlertRuleView;

    open spec fn view(&self) -> AlertRuleView {
        AlertRuleView {
            id: self.id@,
            name: self.name@,
            metric_type: self.metric_type,
            operator: self.operator,
            threshold_bits: self.threshold_bits,
            for_duration_sec: self.for_duration_sec,
            severity: self.severity,
            enabled: self.enabled,
        }
    }
}

/// Views of a list of rules.
pub open spec fn rule_views(rules: Seq<AlertRuleEntity>) -> Seq<AlertRuleView> {
    rules.map_values(|r: AlertRuleEntity| r@)
}

impl View for InfoAlertEntity {
    type V = InfoAlertView;

    open spec fn view(&self) -> InfoAlertView {
        InfoAlertView {
            enable_cluster_health_alert: self.enable_cluster_health_alert,
            enable_rustcost_health_alert: self.enable_rustcost_health_alert,
            global_alert_subject: self.global_alert_subject@,
            linkback_url: opt_str(self.linkback_url),
            email_recipients: views(self.email_recipients@),
            slack_webhook_url: opt_str(self.slack_webhook_url),
            teams_webhook_url: opt_str(self.teams_webhook_url),
            discord_webhook_url: opt_str(self.discord_webhook_url),
            rules: rule_views(self.rules@),
            created_at: self.created_at,
            updated_at: self.updated_at,
            version: self.version@,
        }
    }
}

impl View for InfoAlertUpsertRequest {
    type V = AlertUpsertView;

    open spec fn view(&self) -> AlertUpsertView {
        AlertUpsertView {
            enable_cluster_health_alert: self.enable_cluster_health_alert,
            enable_rustcost_health_alert: self.enable_rustcost_health_alert,
            global_alert_subject: opt_str(self.global_alert_subject),
            linkback_url: opt_str(self.linkback_url),
            email_recipients: match self.email_recipients {
                Some(v) => Some(views(v@)),
                None => None,
            },
            slack_webhook_url: opt_str(self.slack_webhook_url),
            teams_webhook_url: opt_str(self.teams_webhook_url),
            discord_webhook_url: opt_str(self.discord_webhook_url),
            rules: match self.rules {
                Some(v) => Some(rule_views(v@)),
                None => None,
            },
        }
    }
}

/// The default settings, created and updated at `now`.
pub open spec fn default_alert_view(now: UtcTime) -> InfoAlertView {
    InfoAlertView {
        enable_cluster_health_alert: false,
        enable_rustcost_health_alert: false,
        global_alert_subject: "RustCost Alert"@,
        linkback_url: None,
        email_recipients: Seq::empty(),
        slack_webhook_url: None,
        teams_webhook_url: None,
        discord_webhook_url: None,
        rules: Seq::empty(),
        created_at: now,
        updated_at: now,
        version: "1.0.0"@,
    }
}

impl InfoAlertEntity {
    /// The default settings, created and updated at `now`.
    pub fn default_at(now: UtcTime) -> (e: Self)
        ensures
            e@ == default_alert_view(now),
    {
        let e = InfoAlertEntity {
            enable_cluster_health_alert: false,
            enable_rustcost_health_alert: false,
            global_alert_subject: String::from_str("RustCost Alert"),
            linkback_url: None,
            email_recipients: Vec::new(),
            slack_webhook_url: None,
            teams_webhook_url: None,
            discord_webhook_url: None,
            rules: Vec::new(),
            created_at: now,
            updated_at: now,
            version: String::from_str("1.0.0"),
        };
        assert(e@.email_recipients =~= Seq::<Seq<char>>::empty());
        assert(e@.rules =~= Seq::<AlertRuleView>::empty());
        e
    }
}

impl Default for InfoAlertEntity {
    /// The default settings, created and updated now.
    fn default() -> (e: Self)
        ensures
            e@ == default_alert_view(e.created_at),
    {
        Self::default_at(utc_now())
    }
}

// ---------------------------------------------------------------------------
// Updates
// ---------------------------------------------------------------------------

/// `normalize_string_opt`: a blank string clears the field, any other string
/// sets it (untrimmed), an absent one leaves it alone.
pub open spec fn normalize_opt(v: Option<Seq<char>>) -> Option<Option<Seq<char>>> {
    match v {
        Some(s) => if trim(s).len() == 0 { Some(None) } else { Some(Some(s)) },
        None => None,
    }
}

/// The field after applying a normalized update.
pub open spec fn apply_opt(field: Option<Seq<char>>, v: Option<Seq<char>>) -> Option<Seq<char>> {
    match normalize_opt(v) {
        Some(x) => x,
        None => field,
    }
}

/// The settings after applying `req` at time `now`.
pub open spec fn alert_updated(old: InfoAlertView, req: AlertUpsertView, now: UtcTime) -> InfoAlertView {
    InfoAlertView {
        enable_cluster_health_alert: match req.enable_cluster_health_alert {
            Some(v) => v,
            None => old.enable_cluster_health_alert,
        },
        enable_rustcost_health_alert: match req.enable_rustcost_health_alert {
            Some(v) => v,
            None => old.enable_rustcost_health_alert,
        },
        global_alert_subject: match req.global_alert_subject {
            Some(v) => v,
            None => old.global_alert_subject,
        },
        email_recipients: match req.email_recipients {
            Some(v) => v,
            None => old.email_recipients,
        },
        linkback_url: apply_opt(old.linkback_url, req.linkback_url),
        slack_webhook_url: apply_opt(old.slack_webhook_url, req.slack_webhook_url),
        teams_webhook_url: apply_opt(old.teams_webhook_url, req.teams_webhook_url),
        discord_webhook_url: apply_opt(old.discord_webhook_url, req.discord_webhook_url),
        rules: match req.rules {
            Some(v) => v,
            None => old.rules,
        },
        created_at: old.created_at,
        updated_at: now,
        version: old.version,
    }
}

/// Normalizes an optional URL: `Some(None)` clears, `Some(Some(s))` sets, `None` keeps.
pub fn normalize_string_opt(v: Option<String>) -> (r: Option<Option<String>>)
    ensures
        match r {
            Some(x) => normalize_opt(opt_str(v)) == Some(opt_str(x)),
            None => normalize_opt(opt_str(v)) is None,
        },
{
    match v {
        Some(s) => if is_blank(s.as_str()) { Some(None) } else { Some(Some(s)) },
        None => None,
    }
}

impl InfoAlertEntity {
    /// Applies `req`, stamping the update with `now`.
    pub fn apply_update_at(&mut self, req: InfoAlertUpsertRequest, now: UtcTime)
        ensures
            final(self)@ == alert_updated(old(self)@, req@, now),
    {
        let ghost r = req@;
        if let Some(v) = req.enable_cluster_health_alert {
            self.enable_cluster_health_alert = v;
        }
        if let Some(v) = req.enable_rustcost_health_alert {
            self.enable_rustcost_health_alert = v;
        }
        if let Some(v) = req.global_alert_subject {
            self.global_alert_subject = v;
        }
        if let Some(v) = req.email_recipients {
            self.email_recipients = v;
        }
        if let Some(v) = normalize_string_opt(req.linkback_url) {
            self.linkback_url = v;
        }
        if let Some(v) = normalize_string_opt(req.slack_webhook_url) {
            self.slack_webhook_url = v;
        }
        if let Some(v) = normalize_string_opt(req.teams_webhook_url) {
            self.teams_webhook_url = v;
        }
        if let Some(v) = normalize_string_opt(req.discord_webhook_url) {
            self.discord_webhook_url = v;
        }
        if let Some(v) = req.rules {
            self.rules = v;
        }
        self.updated_at = now;
    }

    /// Applies `req`, stamping the update with the current time.
    pub fn apply_update(&mut self, req: InfoAlertUpsertRequest)
        ensures
            (final(self)@ == alert_updated(old(self)@, req@, final(self).updated_at)),
    {
        self.apply_update_at(req, utc_now());
    }
}

/// `now_value` is what a URL setting holding `old_value` holds after an update
/// that carries `req`: a non-blank URL is taken as given, a blank one clears
/// the setting, and an absent one leaves it.
pub open spec fn url_after_update(now_value: Option<Seq<char>>, old_value: Option<Seq<char>>, req: Option<Seq<char>>) -> bool {
    &&& (req matches Some(u) ==> trim(u).len() > 0 ==> now_value == Some(u))
    &&& (req matches Some(u) ==> trim(u).len() == 0 ==> now_value is None)
    &&& (req is None ==> now_value == old_value)
}

/// What an update does: each URL it carries is set (or cleared where blank),
/// each flag, subject, recipient list and rule list it carries replaces the
/// old one, what it does not carry is kept, the creation time and version are
/// kept, and the update time becomes `now`.
pub proof fn lemma_alert_update_fields(old: InfoAlertView, req: AlertUpsertView, now: UtcTime)
    ensures
        url_after_update(alert_updated(old, req, now).linkback_url, old.linkback_url, req.linkback_url),
        url_after_update(alert_updated(old, req, now).slack_webhook_url, old.slack_webhook_url, req.slack_webhook_url),
        url_after_update(alert_updated(old, req, now).teams_webhook_url, old.teams_webhook_url, req.teams_webhook_url),
        url_after_update(alert_updated(old, req, now).discord_webhook_url, old.discord_webhook_url, req.discord_webhook_url),
        alert_updated(old, req, now).enable_cluster_health_alert
            == (if let Some(v) = req.enable_cluster_health_alert { v } else { old.enable_cluster_health_alert }),
        alert_updated(old, req, now).enable_rustcost_health_alert
            == (if let Some(v) = req.enable_rustcost_health_alert { v } else { old.enable_rustcost_health_alert }),
        alert_updated(old, req, now).global_alert_subject
            == (if let Some(v) = req.global_alert_subject { v } else { old.global_alert_subject }),
        alert_updated(old, req, now).email_recipients
            == (if let Some(v) = req.email_recipients { v } else { old.email_recipients }),
        alert_updated(old, req, now).rules == (if let Some(v) = req.rules { v } else { old.rules }),
        alert_updated(old, req, now).created_at == old.created_at,
        alert_updated(old, req, now).updated_at == now,
        alert_updated(old, req, now).version == old.version,
{
}

/// Applying an update twice is applying it once (at the later time).
pub proof fn lemma_alert_update_idempotent(e: InfoAlertView, req: AlertUpsertView, t1: UtcTime, t2: UtcTime)
    ensures
        alert_updated(alert_updated(e, req, t1), req, t2) == alert_updated(e, req, t2),
{
}

/// An update without fields changes nothing but the update time.
pub proof fn lemma_alert_empty_update(e: InfoAlertView, now: UtcTime)
    ensures
        (alert_updated(
            e,
            AlertUpsertView {
                enable_cluster_health_alert: None,
                enable_rustcost_health_alert: None,
                global_alert_subject: None,
                linkback_url: None,
                email_recipients: None,
                slack_webhook_url: None,
                teams_webhook_url: None,
                discord_webhook_url: None,
                rules: None,
            },
            now,
        ) == (InfoAlertView { updated_at: now, ..e })),
{
}


// ---------------------------------------------------------------------------
// Reading `alerts.rci`
// ---------------------------------------------------------------------------

/// The settings read so far and the `ALERT_RULE_*` entries met so far.
pub type AlertScan = (InfoAlertView, Seq<(Seq<char>, Seq<char>)>);

/// `s` after one `KEY:value` assignment (keys are already uppercase).
pub open spec fn assign_alert_key(s: InfoAlertView, key: Seq<char>, val: Seq<char>) -> InfoAlertView {
    if key == "ENABLE_CLUSTER_HEALTH_ALERT"@ {
        InfoAlertView { enable_cluster_health_alert: lower_seq(val) == lower_seq("true"@), ..s }
    } else if key == "ENABLE_RUSTCOST_HEALTH_ALERT"@ {
        InfoAlertView { enable_rustcost_health_alert: lower_seq(val) == lower_seq("true"@), ..s }
    } else if key == "GLOBAL_ALERT_SUBJECT"@ {
        InfoAlertView { global_alert_subject: val, ..s }
    } else if key == "LINKBACK_URL"@ {
        InfoAlertView { linkback_url: non_empty(val), ..s }
    } else if key == "EMAIL_RECIPIENTS"@ {
        InfoAlertView { email_recipients: list_items(val), ..s }
    } else if key == "SLACK_WEBHOOK_URL"@ {
        InfoAlertView { slack_webhook_url: non_empty(val), ..s }
    } else if key == "TEAMS_WEBHOOK_URL"@ {
        InfoAlertView { teams_webhook_url: non_empty(val), ..s }
    } else if key == "DISCORD_WEBHOOK_URL"@ {
        InfoAlertView { discord_webhook_url: non_empty(val), ..s }
    } else if key == "CREATED_AT"@ {
        match rfc3339_parse(val) {
            Some(p) => InfoAlertView { created_at: UtcTime { secs: p.0, nanos: p.1 }, ..s },
            None => s,
        }
    } else if key == "UPDATED_AT"@ {
        match rfc3339_parse(val) {
            Some(p) => InfoAlertView { updated_at: UtcTime { secs: p.0, nanos: p.1 }, ..s },
            None => s,
        }
    } else if key == "VERSION"@ {
        InfoAlertView { version: val, ..s }
    } else {
        s
    }
}

/// One line of the file: `KEY:value` with the key trimmed and uppercased and
/// the value trimmed; lines without `:` change nothing.
pub open spec fn alert_line(st: AlertScan, line: Seq<char>) -> AlertScan {
    match split_once(line, ':') {
        None => st,
        Some(kv) => {
            let key = upper_key(trim(kv.0));
            let val = trim(kv.1);
            let raw = if has_prefix(key, "ALERT_RULE_"@) { st.1.push((key, val)) } else { st.1 };
            (assign_alert_key(st.0, key, val), raw)
        },
    }
}

/// All lines of the file, read from the default settings at `now`.
pub open spec fn alert_scan(lines: Seq<Seq<char>>, now: UtcTime) -> AlertScan
    decreases lines.len(),
{
    if lines.len() == 0 {
        (default_alert_view(now), Seq::empty())
    } else {
        alert_line(alert_scan(lines.drop_last(), now), lines.last())
    }
}

/// The key `ALERT_RULE_{idx}_{suffix}`.
pub open spec fn rule_key(idx: nat, suffix: Seq<char>) -> Seq<char> {
    "ALERT_RULE_"@ + dec(idx) + "_"@ + suffix
}

/// Number of rules: `ALERT_RULE_COUNT` read as a `usize`, else 0.
pub open spec fn rule_count(raw: Seq<(Seq<char>, Seq<char>)>) -> nat {
    match lookup(raw, "ALERT_RULE_COUNT"@) {
        Some(v) => match parse_usize_spec(v) {
            Some(n) => n as nat,
            None => 0,
        },
        None => 0,
    }
}

/// Rule `idx` read from the `ALERT_RULE_*` entries, with the defaults of a
/// missing or unreadable entry (id `rule-{idx}`, name = id, CPU, greater than,
/// 0 seconds, warning, enabled); its threshold is `threshold`.
pub open spec fn rule_at(raw: Seq<(Seq<char>, Seq<char>)>, idx: nat, threshold: u64) -> AlertRuleView {
    let id = match lookup(raw, rule_key(idx, "ID"@)) {
        Some(v) => v,
        None => "rule-"@ + dec(idx),
    };
    AlertRuleView {
        id: id,
        name: match lookup(raw, rule_key(idx, "NAME"@)) {
            Some(v) => v,
            None => id,
        },
        metric_type: match lookup(raw, rule_key(idx, "METRIC"@)) {
            Some(v) => match metric_of_code(upper_key(v)) {
                Some(m) => m,
                None => AlertMetricType::CpuUsagePercent,
            },
            None => AlertMetricType::CpuUsagePercent,
        },
        operator: match lookup(raw, rule_key(idx, "OPERATOR"@)) {
            Some(v) => match operator_of_code(upper_key(v)) {
                Some(o) => o,
                None => AlertOperator::GreaterThan,
            },
            None => AlertOperator::GreaterThan,
        },
        threshold_bits: threshold,
        for_duration_sec: match lookup(raw, rule_key(idx, "FOR_SEC"@)) {
            Some(v) => match parse_u64_spec(v) {
                Some(n) => n,
                None => 0,
            },
            None => 0,
        },
        severity: match lookup(raw, rule_key(idx, "SEVERITY"@)) {
            Some(v) => match severity_of_code(upper_key(v)) {
                Some(x) => x,
                None => AlertSeverity::Warning,
            },
            None => AlertSeverity::Warning,
        },
        enabled: match lookup(raw, rule_key(idx, "ENABLED"@)) {
            Some(v) => lower_seq(v) == lower_seq("true"@),
            None => true,
        },
    }
}

/// Threshold of rule `idx`: the given bit pattern, or that of `0.0` where none is given.
pub open spec fn threshold_of(bits: Seq<u64>, idx: nat) -> u64 {
    if idx < bits.len() { bits[idx as int] } else { 0 }
}

/// The rules of the file (`parse_rules`); `bits[i]` is the threshold of rule `i`
/// as read from its text by the caller.
pub open spec fn rules_from(raw: Seq<(Seq<char>, Seq<char>)>, bits: Seq<u64>) -> Seq<AlertRuleView> {
    Seq::new(rule_count(raw), |i: int| rule_at(raw, i as nat, threshold_of(bits, i as nat)))
}

/// The settings that the file with `lines` holds (`read_from_path`), read at
/// `now`; `bits[i]` is the threshold of rule `i`.
pub open spec fn alert_from_lines(lines: Seq<Seq<char>>, now: UtcTime, bits: Seq<u64>) -> InfoAlertView {
    let st = alert_scan(lines, now);
    InfoAlertView { rules: rules_from(st.1, bits), ..st.0 }
}

/// The threshold text of each rule of the file, where the file has one.
pub open spec fn threshold_texts(lines: Seq<Seq<char>>) -> Seq<Option<Seq<char>>> {
    let raw = alert_scan(lines, UtcTime { secs: 0, nanos: 0 }).1;
    Seq::new(rule_count(raw), |i: int| lookup(raw, rule_key(i as nat, "THRESHOLD"@)))
}

proof fn lemma_alert_scan_raw(lines: Seq<Seq<char>>, a: UtcTime, b: UtcTime)
    ensures
        alert_scan(lines, a).1 == alert_scan(lines, b).1,
    decreases lines.len(),
{
    if lines.len() > 0 {
        lemma_alert_scan_raw(lines.drop_last(), a, b);
    }
}

/// `s` after one assignment.
fn assign_alert_key_exec(s: &mut InfoAlertEntity, key: &str, val: String)
    ensures
        final(s)@ == assign_alert_key(old(s)@, key@, val@),
{
    if str_eq(key, "ENABLE_CLUSTER_HEALTH_ALERT") {
        s.enable_cluster_health_alert = eq_ignore_ascii_case(val.as_str(), "true");
    } else if str_eq(key, "ENABLE_RUSTCOST_HEALTH_ALERT") {
        s.enable_rustcost_health_alert = eq_ignore_ascii_case(val.as_str(), "true");
    } else if str_eq(key, "GLOBAL_ALERT_SUBJECT") {
        s.global_alert_subject = val;
    } else if str_eq(key, "LINKBACK_URL") {
        s.linkback_url = non_empty_string(val.as_str());
    } else if str_eq(key, "EMAIL_RECIPIENTS") {
        s.email_recipients = split_list(val.as_str());
    } else if str_eq(key, "SLACK_WEBHOOK_URL") {
        s.slack_webhook_url = non_empty_string(val.as_str());
    } else if str_eq(key, "TEAMS_WEBHOOK_URL") {
        s.teams_webhook_url = non_empty_string(val.as_str());
    } else if str_eq(key, "DISCORD_WEBHOOK_URL") {
        s.discord_webhook_url = non_empty_string(val.as_str());
    } else if str_eq(key, "CREATED_AT") {
        if let Some(t) = parse_rfc3339(val.as_str()) {
            s.created_at = t;
        }
    } else if str_eq(key, "UPDATED_AT") {
        if let Some(t) = parse_rfc3339(val.as_str()) {
            s.updated_at = t;
        }
    } else if str_eq(key, "VERSION") {
        s.version = val;
    }
}

/// Reads all lines: the settings without their rules, and the rule entries.
fn scan_alert_lines(lines: &Vec<String>, now: UtcTime) -> (r: (InfoAlertEntity, Vec<(String, String)>))
    ensures
        r.0@ == alert_scan(views(lines@), now).0,
        entry_views(r.1@) == alert_scan(views(lines@), now).1,
{
    let mut s = InfoAlertEntity::default_at(now);
    let mut raw: Vec<(String, String)> = Vec::new();
    assert(entry_views(raw@) =~= Seq::<(Seq<char>, Seq<char>)>::empty());
    let mut i: usize = 0;
    while i < lines.len()
        invariant
            0 <= i <= lines@.len(),
            (s@, entry_views(raw@)) == alert_scan(views(lines@).take(i as int), now),
        decreases lines.len() - i,
    {
        assert(views(lines@).take(i + 1).drop_last() == views(lines@).take(i as int));
        assert(views(lines@).take(i + 1).last() == lines@[i as int]@);
        match split_once_str(lines[i].as_str(), ':') {
            None => {},
            Some((k, v)) => {
                let kt = trim_str(k.as_str());
                let key = key_upper(kt.as_str());
                let val = trim_str(v.as_str());
                if starts_with(key.as_str(), "ALERT_RULE_") {
                    raw.push((key.clone(), val.clone()));
                    assert(entry_views(raw@) =~= entry_views(raw@.drop_last()).push((key@, val@)));
                }
                assign_alert_key_exec(&mut s, key.as_str(), val);
            },
        }
        i = i + 1;
    }
    assert(views(lines@).take(lines@.len() as int) == views(lines@));
    (s, raw)
}

/// The key `ALERT_RULE_{idx}_{suffix}`.
fn rule_key_exec(idx: usize, suffix: &str) -> (k: String)
    ensures
        k@ == rule_key(idx as nat, suffix@),
{
    let mut k = String::from_str("ALERT_RULE_");
    let n = usize_to_dec(idx);
    push_all(&mut k, n.as_str());
    push_all(&mut k, "_");
    push_all(&mut k, suffix);
    k
}

/// Number of rules.
fn rule_count_exec(raw: &Vec<(String, String)>) -> (n: usize)
    ensures
        n == rule_count(entry_views(raw@)),
{
    match lookup_entry(raw, "ALERT_RULE_COUNT") {
        Some(v) => match parse_usize(v.as_str()) {
            Some(n) => n,
            None => 0,
        },
        None => 0,
    }
}

/// Rule `idx` with threshold `threshold`.
fn rule_at_exec(raw: &Vec<(String, String)>, idx: usize, threshold: u64) -> (r: AlertRuleEntity)
    ensures
        r@ == rule_at(entry_views(raw@), idx as nat, threshold),
{
    let id = match lookup_entry(raw, rule_key_exec(idx, "ID").as_str()) {
        Some(v) => v,
        None => {
            let mut d = String::from_str("rule-");
            let n = usize_to_dec(idx);
            push_all(&mut d, n.as_str());
            d
        },
    };
    let name = match lookup_entry(raw, rule_key_exec(idx, "NAME").as_str()) {
        Some(v) => v,
        None => id.clone(),
    };
    let metric_type = match lookup_entry(raw, rule_key_exec(idx, "METRIC").as_str()) {
        Some(v) => match AlertMetricType::from_code(v.as_str()) {
            Some(m) => m,
            None => AlertMetricType::CpuUsagePercent,
        },
        None => AlertMetricType::CpuUsagePercent,
    };
    let operator = match lookup_entry(raw, rule_key_exec(idx, "OPERATOR").as_str()) {
        Some(v) => match AlertOperator::from_code(v.as_str()) {
            Some(o) => o,
            None => AlertOperator::GreaterThan,
        },
        None => AlertOperator::GreaterThan,
    };
    let for_duration_sec = match lookup_entry(raw, rule_key_exec(idx, "FOR_SEC").as_str()) {
        Some(v) => match parse_u64(v.as_str()) {
            Some(n) => n,
            None => 0,
        },
        None => 0,
    };
    let severity = match lookup_entry(raw, rule_key_exec(idx, "SEVERITY").as_str()) {
        Some(v) => match AlertSeverity::from_code(v.as_str()) {
            Some(x) => x,
            None => AlertSeverity::Warning,
        },
        None => AlertSeverity::Warning,
    };
    let enabled = match lookup_entry(raw, rule_key_exec(idx, "ENABLED").as_str()) {
        Some(v) => eq_ignore_ascii_case(v.as_str(), "true"),
        None => true,
    };
    AlertRuleEntity { id, name, metric_type, operator, threshold_bits: threshold, for_duration_sec, severity, enabled }
}

impl InfoAlertFsAdapter {
    /// The threshold text of each rule of the file with `lines`, where the file
    /// has one; the caller reads each as an `f64` (`0.0` where absent or
    /// unreadable) and passes the bit patterns to [`InfoAlertFsAdapter::settings_from_lines`].
    pub fn threshold_texts(lines: &Vec<String>) -> (r: Vec<Option<String>>)
        ensures
            r@.map_values(|t: Option<String>| opt_str(t)) == threshold_texts(views(lines@)),
    {
        let zero = UtcTime { secs: 0, nanos: 0 };
        let (_, raw) = scan_alert_lines(lines, zero);
        let n = rule_count_exec(&raw);
        let ghost rv = entry_views(raw@);
        let mut out: Vec<Option<String>> = Vec::new();
        let mut i: usize = 0;
        while i < n
            invariant
                0 <= i <= n,
                rv == entry_views(raw@),
                n == rule_count(rv),
                rv == alert_scan(views(lines@), zero).1,
                out@.len() == i,
                forall|k: int| 0 <= k < i ==> opt_str(#[trigger] out@[k]) == lookup(rv, rule_key(k as nat, "THRESHOLD"@)),
            decreases n - i,
        {
            let t = lookup_entry(&raw, rule_key_exec(i, "THRESHOLD").as_str());
            out.push(t);
            i = i + 1;
        }
        proof {
            assert(out@.map_values(|t: Option<String>| opt_str(t)) =~= threshold_texts(views(lines@)));
        }
        out
    }

    /// The settings of the file with `lines` (`read_from_path`), read at `now`
    /// (the default creation and update times); `threshold_bits[i]` is the
    /// threshold of rule `i`.
    pub fn settings_from_lines(lines: &Vec<String>, now: UtcTime, threshold_bits: &Vec<u64>) -> (e: InfoAlertEntity)
        ensures
            e@ == alert_from_lines(views(lines@), now, threshold_bits@),
    {
        let (mut s, raw) = scan_alert_lines(lines, now);
        let n = rule_count_exec(&raw);
        let ghost rv = entry_views(raw@);
        let mut rules: Vec<AlertRuleEntity> = Vec::new();
        let mut i: usize = 0;
        while i < n
            invariant
                0 <= i <= n,
                rv == entry_views(raw@),
                n == rule_count(rv),
                rules@.len() == i,
                forall|k: int| 0 <= k < i ==> (#[trigger] rules@[k])@ == rule_at(rv, k as nat, threshold_of(threshold_bits@, k as nat)),
            decreases n - i,
        {
            let b = if i < threshold_bits.len() { threshold_bits[i] } else { 0 };
            let r = rule_at_exec(&raw, i, b);
            rules.push(r);
            i = i + 1;
        }
        assert(rule_views(rules@) =~= rules_from(rv, threshold_bits@));
        s.rules = rules;
        s
    }
}

// ---------------------------------------------------------------------------
// Writing `alerts.rci`
// ---------------------------------------------------------------------------

/// The eight lines of rule `idx`; `threshold` is the text of its threshold.
pub open spec fn rule_lines(idx: nat, r: AlertRuleView, threshold: Seq<char>) -> Seq<Seq<char>> {
    seq![
        kv_text(rule_key(idx, "ID"@), r.id),
        kv_text(rule_key(idx, "NAME"@), r.name),
        kv_text(rule_key(idx, "METRIC"@), metric_code(r.metric_type)),
        kv_text(rule_key(idx, "OPERATOR"@), operator_code(r.operator)),
        kv_text(rule_key(idx, "THRESHOLD"@), threshold),
        kv_text(rule_key(idx, "FOR_SEC"@), dec(r.for_duration_sec as nat)),
        kv_text(rule_key(idx, "SEVERITY"@), severity_code(r.severity)),
        kv_text(rule_key(idx, "ENABLED"@), bool_text(r.enabled)),
    ]
}

/// The lines of all rules, in order; `thresholds[i]` is the text of the threshold of rule `i`.
pub open spec fn rules_lines(rules: Seq<AlertRuleView>, thresholds: Seq<Seq<char>>) -> Seq<Seq<char>>
    decreases rules.len(),
{
    if rules.len() == 0 {
        Seq::empty()
    } else {
        rules_lines(rules.drop_last(), thresholds)
            + rule_lines((rules.len() - 1) as nat, rules.last(), thresholds[rules.len() - 1])
    }
}

/// The lines of the file that holds `e` (`write`): the rule count, the rules,
/// then the other settings.
pub open spec fn alert_file_lines(e: InfoAlertView, thresholds: Seq<Seq<char>>) -> Seq<Seq<char>> {
    seq![kv_text("ALERT_RULE_COUNT"@, dec(e.rules.len()))] + rules_lines(e.rules, thresholds) + seq![
        kv_text("ENABLE_CLUSTER_HEALTH_ALERT"@, bool_text(e.enable_cluster_health_alert)),
        kv_text("ENABLE_RUSTCOST_HEALTH_ALERT"@, bool_text(e.enable_rustcost_health_alert)),
        kv_text("GLOBAL_ALERT_SUBJECT"@, e.global_alert_subject),
        kv_text("LINKBACK_URL"@, text_or_empty(e.linkback_url)),
        kv_text("EMAIL_RECIPIENTS"@, joined(e.email_recipients, ","@)),
        kv_text("SLACK_WEBHOOK_URL"@, text_or_empty(e.slack_webhook_url)),
        kv_text("TEAMS_WEBHOOK_URL"@, text_or_empty(e.teams_webhook_url)),
        kv_text("DISCORD_WEBHOOK_URL"@, text_or_empty(e.discord_webhook_url)),
        kv_text("CREATED_AT"@, instant_text(e.created_at)),
        kv_text("UPDATED_AT"@, instant_text(e.updated_at)),
        kv_text("VERSION"@, e.version),
    ]
}

/// `opt.clone().unwrap_or_default()`.
fn string_or_empty(v: &Option<String>) -> (r: String)
    ensures
        r@ == text_or_empty(opt_str(*v)),
{
    match v {
        Some(x) => x.clone(),
        None => String::new(),
    }
}

/// Appends the lines of rule `idx`.
fn push_rule_lines(out: &mut Vec<String>, idx: usize, r: &AlertRuleEntity, threshold: &str)
    ensures
        views(final(out)@) == views(old(out)@) + rule_lines(idx as nat, r@, threshold@),
{
    let ghost start = views(out@);
    out.push(kv_line(rule_key_exec(idx, "ID").as_str(), r.id.as_str()));
    out.push(kv_line(rule_key_exec(idx, "NAME").as_str(), r.name.as_str()));
    out.push(kv_line(rule_key_exec(idx, "METRIC").as_str(), r.metric_type.as_code()));
    out.push(kv_line(rule_key_exec(idx, "OPERATOR").as_str(), r.operator.as_code()));
    out.push(kv_line(rule_key_exec(idx, "THRESHOLD").as_str(), threshold));
    out.push(kv_line(rule_key_exec(idx, "FOR_SEC").as_str(), u64_to_dec(r.for_duration_sec).as_str()));
    out.push(kv_line(rule_key_exec(idx, "SEVERITY").as_str(), r.severity.as_code()));
    out.push(kv_line(rule_key_exec(idx, "ENABLED").as_str(), bool_str(r.enabled)));
    assert(views(out@) =~= start + rule_lines(idx as nat, r@, threshold@));
}

/// FS adapter for the persisted alert settings (`alerts.rci`).
#[derive(Clone, Copy, Debug)]
pub struct InfoAlertFsAdapter;

impl InfoAlertFsAdapter {
    /// The lines that `write` puts in the file for `e`; `thresholds[i]` is the
    /// text of the threshold of rule `i` (its `f64` written with `{}`).
    ///
    /// Reading the lines back ([`settings_from_lines`](Self::settings_from_lines)),
    /// at any time and with each threshold read from its text, gives `e` again,
    /// and the threshold texts read are those written: this holds for settings
    /// whose texts can be written ([`rules_writable`], [`tail_texts_writable`])
    /// and whose times lie in four-digit years.
    pub fn file_lines(e: &InfoAlertEntity, thresholds: &Vec<String>) -> (r: Vec<String>)
        requires
            thresholds.len() == e.rules.len(),
        ensures
            views(r@) == alert_file_lines(e@, views(thresholds@)),
            rules_writable(e@.rules, views(thresholds@)) && tail_texts_writable(e@)
                && four_digit_instant(e.created_at) && four_digit_instant(e.updated_at) ==> {
                &&& forall|now: UtcTime| #[trigger] alert_from_lines(views(r@), now, threshold_bits_of(e@.rules)) == e@
                &&& threshold_texts(views(r@)) == views(thresholds@).map_values(|t: Seq<char>| Some(t))
            },
    {
        let mut out: Vec<String> = Vec::new();
        out.push(kv_line("ALERT_RULE_COUNT", usize_to_dec(e.rules.len()).as_str()));
        let ghost head = views(out@);
        let ghost rv = e@.rules;
        let ghost tv = views(thresholds@);
        let mut i: usize = 0;
        while i < e.rules.len()
            invariant
                0 <= i <= e.rules.len(),
                thresholds.len() == e.rules.len(),
                rv == e@.rules,
                tv == views(thresholds@),
                head == seq![kv_text("ALERT_RULE_COUNT"@, dec(e@.rules.len()))],
                views(out@) == head + rules_lines(rv.take(i as int), tv),
            decreases e.rules.len() - i,
        {
            push_rule_lines(&mut out, i, &e.rules[i], thresholds[i].as_str());
            assert(rv.take(i + 1).drop_last() =~= rv.take(i as int));
            assert(rv.take(i + 1).last() == e.rules@[i as int]@);
            assert(views(out@) =~= head + rules_lines(rv.take(i + 1), tv));
            i = i + 1;
        }
        assert(rv.take(e.rules.len() as int) =~= rv);
        let ghost mid = views(out@);
        out.push(kv_line("ENABLE_CLUSTER_HEALTH_ALERT", bool_str(e.enable_cluster_health_alert)));
        out.push(kv_line("ENABLE_RUSTCOST_HEALTH_ALERT", bool_str(e.enable_rustcost_health_alert)));
        out.push(kv_line("GLOBAL_ALERT_SUBJECT", e.global_alert_subject.as_str()));
        out.push(kv_line("LINKBACK_URL", string_or_empty(&e.linkback_url).as_str()));
        out.push(kv_line("EMAIL_RECIPIENTS", join_strs(&e.email_recipients, ",").as_str()));
        out.push(kv_line("SLACK_WEBHOOK_URL", string_or_empty(&e.slack_webhook_url).as_str()));
        out.push(kv_line("TEAMS_WEBHOOK_URL", string_or_empty(&e.teams_webhook_url).as_str()));
        out.push(kv_line("DISCORD_WEBHOOK_URL", string_or_empty(&e.discord_webhook_url).as_str()));
        out.push(kv_line("CREATED_AT", instant_string(e.created_at).as_str()));
        out.push(kv_line("UPDATED_AT", instant_string(e.updated_at).as_str()));
        out.push(kv_line("VERSION", e.version.as_str()));
        assert(views(out@) =~= alert_file_lines(e@, views(thresholds@)));
        proof {
            if rules_writable(e@.rules, views(thresholds@)) && tail_texts_writable(e@)
                && four_digit_instant(e.created_at) && four_digit_instant(e.updated_at) {
                assert(tail_writable(e@));
                assert forall|now: UtcTime| #[trigger] alert_from_lines(views(out@), now, threshold_bits_of(e@.rules)) == e@ by {
                    lemma_alert_file_round_trip(e@, views(thresholds@), now);
                }
                lemma_alert_file_round_trip(e@, views(thresholds@), UtcTime { secs: 0, nanos: 0 });
            }
        }
        out
    }
}

/// Repository of the persisted settings, over their file adapter.
pub struct InfoAlertRepository {
    adapter: InfoAlertFsAdapter,
}

impl InfoAlertRepository {
    /// A repository over the file adapter.
    pub fn new() -> (r: Self) {
        Self { adapter: InfoAlertFsAdapter }
    }

    /// The file adapter that the repository reads and writes through.
    pub fn fs_adapter(&self) -> (a: &InfoAlertFsAdapter) {
        &self.adapter
    }
}

} // verus!
