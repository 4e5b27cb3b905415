//! Runtime alert state: the events raised so far, their updates and pruning,
//! and the rate limit that turns a burst of alerts into one storm alert.
use vstd::prelude::*;
use std::sync::Arc;
use crate::text::str_eq;
use crate::time::{UtcTime, time_le, time_lt, utc_now};

verus! {

/// An alert raised at runtime.
#[derive(Clone, Debug)]
pub struct AlertEvent {
    pub id: String,
    pub message: String,
    pub severity: String,
    pub created_at: UtcTime,
    pub last_updated_at: UtcTime,
    pub active: bool,
}

/// An alert as values.
pub struct AlertEventView {
    pub id: Seq<char>,
    pub message: Seq<char>,
    pub severity: Seq<char>,
    pub created_at: UtcTime,
    pub last_updated_at: UtcTime,
    pub active: bool,
}

impl View for AlertEvent {
    type V = AlertEventView;

    open spec fn view(&self) -> AlertEventView {
        AlertEventView {
            id: self.id@,
            message: self.message@,
            severity: self.severity@,
            created_at: self.created_at,
            last_updated_at: self.last_updated_at,
            active: self.active,
        }
    }
}

/// Views of a list of alerts.
pub open spec fn event_views(s: Seq<AlertEvent>) -> Seq<AlertEventView> {
    s.map_values(|e: AlertEvent| e@)
}

/// The alerts and the times of the alerts fired in the current window, oldest first.
#[derive(Clone, Debug)]
pub struct AlertRuntimeState {
    pub alerts: Vec<AlertEvent>,
    /// Sliding window of recent alert times for rate limiting, oldest first.
    pub recent_alert_times: Vec<UtcTime>,
}

/// The runtime alert state as values.
pub struct AlertStateView {
    pub alerts: Seq<AlertEventView>,
    pub recent: Seq<UtcTime>,
}

impl View for AlertRuntimeState {
    type V = AlertStateView;

    open spec fn view(&self) -> AlertStateView {
        AlertStateView { alerts: event_views(self.alerts@), recent: self.recent_alert_times@ }
    }
}

impl Default for AlertRuntimeState {
    /// No alerts and no recent alert times.
    fn default() -> (s: Self)
        ensures
            s.alerts@.len() == 0 && s.recent_alert_times@.len() == 0,
    {
        AlertRuntimeState { alerts: Vec::new(), recent_alert_times: Vec::new() }
    }
}

/// A copy of an alert (field by field).
pub fn copy_event(e: &AlertEvent) -> (r: AlertEvent)
    ensures
        r@ == e@,
{
    AlertEvent {
        id: e.id.clone(),
        message: e.message.clone(),
        severity: e.severity.clone(),
        created_at: e.created_at,
        last_updated_at: e.last_updated_at,
        active: e.active,
    }
}

// ---------------------------------------------------------------------------
// Adding, updating and resolving
// ---------------------------------------------------------------------------

/// Index of the first alert with identifier `id`.
pub open spec fn first_with_id(s: Seq<AlertEventView>, id: Seq<char>) -> Option<nat>
    decreases s.len(),
{
    if s.len() == 0 {
        None
    } else {
        match first_with_id(s.drop_last(), id) {
            Some(i) => Some(i),
            None => if s.last().id == id { Some((s.len() - 1) as nat) } else { None },
        }
    }
}

proof fn lemma_first_with_id(s: Seq<AlertEventView>, id: Seq<char>)
    ensures
        match first_with_id(s, id) {
            Some(i) => i < s.len() && s[i as int].id == id && forall|j: int| 0 <= j < i ==> s[j].id != id,
            None => forall|j: int| 0 <= j < s.len() ==> s[j].id != id,
        },
    decreases s.len(),
{
    if s.len() > 0 {
        lemma_first_with_id(s.drop_last(), id);
        assert(forall|j: int| 0 <= j < s.len() - 1 ==> s.drop_last()[j] == s[j]);
    }
}

/// The alerts after `add_or_update_alert(new)` at `now`: the first alert with
/// the same identifier takes the new message, severity and activity and is
/// stamped `now`; without one, `new` is appended.
pub open spec fn alert_upserted(s: Seq<AlertEventView>, new: AlertEventView, now: UtcTime) -> Seq<AlertEventView> {
    match first_with_id(s, new.id) {
        Some(i) => s.update(
            i as int,
            AlertEventView {
                message: new.message,
                severity: new.severity,
                active: new.active,
                last_updated_at: now,
                ..s[i as int]
            },
        ),
        None => s.push(new),
    }
}

/// The alerts after `resolve_alert(id)` at `now`: the first alert with that
/// identifier becomes inactive and is stamped `now`.
pub open spec fn alert_resolved(s: Seq<AlertEventView>, id: Seq<char>, now: UtcTime) -> Seq<AlertEventView> {
    match first_with_id(s, id) {
        Some(i) => s.update(i as int, AlertEventView { active: false, last_updated_at: now, ..s[i as int] }),
        None => s,
    }
}

/// Index of the first alert with identifier `id`, by a scan from the front.
fn find_id(alerts: &Vec<AlertEvent>, id: &str) -> (r: Option<usize>)
    ensures
        opt_index(r) == first_with_id(event_views(alerts@), id@),
        r matches Some(i) ==> i < alerts@.len(),
{
    let ghost s = event_views(alerts@);
    proof {
        lemma_first_with_id(s, id@);
    }
    let mut i: usize = 0;
    while i < alerts.len()
        invariant
            0 <= i <= alerts@.len(),
            s == event_views(alerts@),
            forall|j: int| 0 <= j < i ==> s[j].id != id@,
        decreases alerts.len() - i,
    {
        assert(s[i as int] == alerts@[i as int]@);
        if str_eq(alerts[i].id.as_str(), id) {
            proof {
                lemma_first_with_id(s, id@);
                match first_with_id(s, id@) {
                    Some(k) => {
                        if k < i {
                            assert(s[k as int].id != id@);
                        }
                        if k > i {
                            assert(s[i as int].id != id@);
                        }
                    },
                    None => {
                        assert(s[i as int].id != id@);
                    },
                }
            }
            return Some(i);
        }
        i = i + 1;
    }
    None
}

/// No two alerts share an identifier.
pub open spec fn ids_unique(s: Seq<AlertEventView>) -> bool {
    forall|i: int, j: int| 0 <= i < j < s.len() ==> s[i].id != s[j].id
}

/// Adding or updating an alert keeps the identifiers unique, and afterwards
/// exactly one alert carries the new alert's identifier.
pub proof fn lemma_upsert_keeps_ids_unique(s: Seq<AlertEventView>, new: AlertEventView, now: UtcTime)
    requires
        ids_unique(s),
    ensures
        ids_unique(alert_upserted(s, new, now)),
        exists|k: int| 0 <= k < alert_upserted(s, new, now).len() && (#[trigger] alert_upserted(s, new, now)[k]).id == new.id,
{
    lemma_first_with_id(s, new.id);
    let r = alert_upserted(s, new, now);
    match first_with_id(s, new.id) {
        Some(i) => {
            assert forall|a: int, b: int| 0 <= a < b < r.len() implies r[a].id != r[b].id by {
                assert(r[a].id == s[a].id && r[b].id == s[b].id);
            }
            assert(r[i as int].id == new.id);
        },
        None => {
            assert forall|a: int, b: int| 0 <= a < b < r.len() implies r[a].id != r[b].id by {
                if b == s.len() {
                    assert(r[a] == s[a]);
                }
            }
            assert(r[s.len() as int].id == new.id);
        },
    }
}

/// An optional index as an optional number.
pub open spec fn opt_index(r: Option<usize>) -> Option<nat> {
    match r {
        Some(i) => Some(i as nat),
        None => None,
    }
}

impl AlertRuntimeState {
    /// Adds `new`, or updates the first alert with its identifier, at `now`.
    pub fn add_or_update_alert_at(&mut self, new: AlertEvent, now: UtcTime)
        ensures
            final(self)@.alerts == alert_upserted(old(self)@.alerts, new@, now),
            final(self)@.recent == old(self)@.recent,
    {
        match find_id(&self.alerts, new.id.as_str()) {
            Some(i) => {
                let mut a = copy_event(&self.alerts[i]);
                a.message = new.message;
                a.severity = new.severity;
                a.active = new.active;
                a.last_updated_at = now;
                self.alerts.set(i, a);
                assert(event_views(self.alerts@) =~= alert_upserted(old(self)@.alerts, new@, now));
            },
            None => {
                self.alerts.push(new);
                assert(event_views(self.alerts@) =~= alert_upserted(old(self)@.alerts, new@, now));
            },
        }
    }

    /// Adds `new`, or updates the first alert with its identifier, now.
    pub fn add_or_update_alert(&mut self, new: AlertEvent)
        ensures
            exists|now: UtcTime| final(self)@.alerts == alert_upserted(old(self)@.alerts, new@, now),
            final(self)@.recent == old(self)@.recent,
    {
        let now = utc_now();
        self.add_or_update_alert_at(new, now);
    }

    /// Marks the first alert with identifier `id` resolved at `now`.
    pub fn resolve_alert_at(&mut self, id: &str, now: UtcTime)
        ensures
            final(self)@.alerts == alert_resolved(old(self)@.alerts, id@, now),
            final(self)@.recent == old(self)@.recent,
    {
        match find_id(&self.alerts, id) {
            Some(i) => {
                let mut a = copy_event(&self.alerts[i]);
                a.active = false;
                a.last_updated_at = now;
                self.alerts.set(i, a);
                assert(event_views(self.alerts@) =~= alert_resolved(old(self)@.alerts, id@, now));
            },
            None => {},
        }
    }

    /// Marks the first alert with identifier `id` resolved now.
    pub fn resolve_alert(&mut self, id: &str)
        ensures
            exists|now: UtcTime| final(self)@.alerts == alert_resolved(old(self)@.alerts, id@, now),
            final(self)@.recent == old(self)@.recent,
    {
        let now = utc_now();
        self.resolve_alert_at(id, now);
    }

    /// The active alerts, in order.
    pub fn active_alerts(&self) -> (r: Vec<AlertEvent>)
        ensures
            event_views(r@) == self@.alerts.filter(|a: AlertEventView| a.active),
    {
        let ghost s = self@.alerts;
        let mut out: Vec<AlertEvent> = Vec::new();
        let mut i: usize = 0;
        while i < self.alerts.len()
            invariant
                0 <= i <= self.alerts@.len(),
                s == self@.alerts,
                event_views(out@) == s.take(i as int).filter(|a: AlertEventView| a.active),
            decreases self.alerts.len() - i,
        {
            assert(s.take(i + 1).drop_last() == s.take(i as int));
            assert(s.take(i + 1).last() == s[i as int]);
            assert(s[i as int] == self.alerts@[i as int]@);
            proof {
                reveal(Seq::filter);
            }
            if self.alerts[i].active {
                out.push(copy_event(&self.alerts[i]));
                assert(event_views(out@) =~= event_views(out@.drop_last()).push(s[i as int]));
            }
            i = i + 1;
        }
        assert(s.take(s.len() as int) == s);
        out
    }
}

// ---------------------------------------------------------------------------
// Pruning
// ---------------------------------------------------------------------------

/// `t` moved back by `secs` seconds (`t - Duration::seconds(secs)`).
pub open spec fn seconds_before(t: UtcTime, secs: i64) -> UtcTime {
    UtcTime { secs: (t.secs - secs) as i64, nanos: t.nanos }
}

/// The alerts kept by `prune_resolved_older_than`: the active ones and those
/// updated after `cutoff`.
pub open spec fn kept_after(s: Seq<AlertEventView>, cutoff: UtcTime) -> Seq<AlertEventView> {
    s.filter(|a: AlertEventView| a.active || time_lt(cutoff, a.last_updated_at))
}

/// Number of leading times strictly before `cutoff`.
pub open spec fn leading_before(s: Seq<UtcTime>, cutoff: UtcTime) -> nat
    decreases s.len(),
{
    if s.len() > 0 && time_lt(s[0], cutoff) {
        1 + leading_before(s.drop_first(), cutoff)
    } else {
        0
    }
}

/// Where an alert updated at `t` goes among `s`, after every alert updated
/// no later than `t` (a stable insertion).
pub open spec fn event_insert_pos(s: Seq<AlertEventView>, t: UtcTime) -> nat
    decreases s.len(),
{
    if s.len() == 0 {
        0
    } else if time_lt(t, s.last().last_updated_at) {
        event_insert_pos(s.drop_last(), t)
    } else {
        s.len()
    }
}

/// `s` ordered by update time, alerts with equal times in their input
/// order (`sort_by_key(|a| a.last_updated_at)`).
pub open spec fn sort_by_update(s: Seq<AlertEventView>) -> Seq<AlertEventView>
    decreases s.len(),
{
    if s.len() == 0 {
        s
    } else {
        let sorted = sort_by_update(s.drop_last());
        sorted.insert(event_insert_pos(sorted, s.last().last_updated_at) as int, s.last())
    }
}

proof fn lemma_event_insert_pos_le(s: Seq<AlertEventView>, t: UtcTime)
    ensures
        event_insert_pos(s, t) <= s.len(),
    decreases s.len(),
{
    if s.len() > 0 {
        lemma_event_insert_pos_le(s.drop_last(), t);
    }
}

/// Sorting keeps the number of alerts.
pub proof fn lemma_sort_by_update_len(s: Seq<AlertEventView>)
    ensures
        sort_by_update(s).len() == s.len(),
    decreases s.len(),
{
    if s.len() > 0 {
        lemma_sort_by_update_len(s.drop_last());
        lemma_event_insert_pos_le(sort_by_update(s.drop_last()), s.last().last_updated_at);
    }
}

/// Alerts ordered by update time, oldest first.
pub open spec fn update_sorted(s: Seq<AlertEventView>) -> bool {
    forall|i: int, j: int| 0 <= i < j < s.len() ==> time_le(s[i].last_updated_at, s[j].last_updated_at)
}

/// The insertion point splits a sorted list into the alerts updated no later
/// than `t` and those updated after it.
proof fn lemma_event_insert_pos_bounds(s: Seq<AlertEventView>, t: UtcTime)
    requires
        update_sorted(s),
    ensures
        event_insert_pos(s, t) <= s.len(),
        forall|k: int| 0 <= k < event_insert_pos(s, t) ==> time_le(#[trigger] s[k].last_updated_at, t),
        forall|k: int| event_insert_pos(s, t) <= k < s.len() ==> time_lt(t, #[trigger] s[k].last_updated_at),
    decreases s.len(),
{
    if s.len() > 0 {
        let d = s.drop_last();
        assert(update_sorted(d)) by {
            assert forall|i: int, j: int| 0 <= i < j < d.len() implies time_le(d[i].last_updated_at, d[j].last_updated_at) by {
                assert(d[i] == s[i] && d[j] == s[j]);
            }
        }
        lemma_event_insert_pos_bounds(d, t);
        if time_lt(t, s.last().last_updated_at) {
            assert forall|k: int| event_insert_pos(s, t) <= k < s.len() implies time_lt(t, #[trigger] s[k].last_updated_at) by {
                if k < s.len() - 1 {
                    assert(s[k] == d[k]);
                }
            }
            assert forall|k: int| 0 <= k < event_insert_pos(s, t) implies time_le(#[trigger] s[k].last_updated_at, t) by {
                assert(s[k] == d[k]);
            }
        } else {
            assert forall|k: int| 0 <= k < event_insert_pos(s, t) implies time_le(#[trigger] s[k].last_updated_at, t) by {
                if k < s.len() - 1 {
                    assert(time_le(s[k].last_updated_at, s[s.len() - 1].last_updated_at));
                }
            }
        }
    }
}

/// Sorting orders the alerts by update time and keeps every alert.
pub proof fn lemma_sort_by_update_sorted_permutation(s: Seq<AlertEventView>)
    ensures
        update_sorted(sort_by_update(s)),
        sort_by_update(s).to_multiset() == s.to_multiset(),
    decreases s.len(),
{
    broadcast use vstd::seq_lib::to_multiset_build, vstd::seq_lib::to_multiset_insert;

    if s.len() > 0 {
        let d = s.drop_last();
        let x = s.last();
        lemma_sort_by_update_sorted_permutation(d);
        let sorted = sort_by_update(d);
        let pos = event_insert_pos(sorted, x.last_updated_at);
        lemma_event_insert_pos_bounds(sorted, x.last_updated_at);
        let out = sorted.insert(pos as int, x);
        assert forall|i: int, j: int| 0 <= i < j < out.len() implies time_le(out[i].last_updated_at, out[j].last_updated_at) by {
            if j < pos {
                assert(out[i] == sorted[i] && out[j] == sorted[j]);
            } else if j == pos {
                assert(out[i] == sorted[i]);
            } else if i < pos {
                assert(out[i] == sorted[i] && out[j] == sorted[j - 1]);
                assert(time_le(sorted[i].last_updated_at, x.last_updated_at));
                assert(time_lt(x.last_updated_at, sorted[j - 1].last_updated_at));
            } else if i == pos {
                assert(out[j] == sorted[j - 1]);
            } else {
                assert(out[i] == sorted[i - 1] && out[j] == sorted[j - 1]);
            }
        }
        assert(d.push(x) == s);
    }
}

/// The alerts kept by `prune_by_max_len(max_len)`: all where there are at most
/// `max_len`, else the `max_len` most recently updated, oldest first.
pub open spec fn newest(s: Seq<AlertEventView>, max_len: nat) -> Seq<AlertEventView> {
    if s.len() <= max_len {
        s
    } else {
        sort_by_update(s).skip(s.len() - max_len)
    }
}

/// Pruning the recent times drops the leading ones before the cutoff
/// `now - window_secs` and keeps the rest: what is kept is a suffix of the
/// times, every time dropped lies before the cutoff, and the first time kept
/// does not.
pub proof fn lemma_recent_within(s: Seq<UtcTime>, now: UtcTime, window_secs: i64)
    ensures
        ({
            let r = recent_within(s, now, window_secs);
            let cutoff = seconds_before(now, window_secs);
            &&& r.len() <= s.len()
            &&& r == s.skip(s.len() - r.len())
            &&& forall|k: int| 0 <= k < s.len() - r.len() ==> time_lt(#[trigger] s[k], cutoff)
            &&& r.len() > 0 ==> !time_lt(r[0], cutoff)
        }),
{
    lemma_leading_before_facts(s, seconds_before(now, window_secs));
}

proof fn lemma_leading_before_facts(s: Seq<UtcTime>, cutoff: UtcTime)
    ensures
        leading_before(s, cutoff) <= s.len(),
        forall|k: int| 0 <= k < leading_before(s, cutoff) ==> time_lt(#[trigger] s[k], cutoff),
        leading_before(s, cutoff) < s.len() ==> !time_lt(s[leading_before(s, cutoff) as int], cutoff),
    decreases s.len(),
{
    if s.len() > 0 && time_lt(s[0], cutoff) {
        let t = s.drop_first();
        lemma_leading_before_facts(t, cutoff);
        assert forall|k: int| 0 <= k < leading_before(s, cutoff) implies time_lt(#[trigger] s[k], cutoff) by {
            if k > 0 {
                assert(s[k] == t[k - 1]);
            }
        }
        if leading_before(s, cutoff) < s.len() {
            assert(s[leading_before(s, cutoff) as int] == t[leading_before(t, cutoff) as int]);
        }
    }
}

/// Pruning resolved alerts by age keeps exactly the alerts that are active or
/// were updated after `cutoff`: each kept alert is one of them, and each of
/// them is kept.
pub proof fn lemma_kept_after(s: Seq<AlertEventView>, cutoff: UtcTime)
    ensures
        kept_after(s, cutoff).len() <= s.len(),
        forall|k: int| 0 <= k < kept_after(s, cutoff).len() ==> {
            &&& (#[trigger] kept_after(s, cutoff)[k]).active || time_lt(cutoff, kept_after(s, cutoff)[k].last_updated_at)
            &&& s.contains(kept_after(s, cutoff)[k])
        },
        forall|i: int| 0 <= i < s.len() && (s[i].active || time_lt(cutoff, s[i].last_updated_at))
            ==> kept_after(s, cutoff).contains(#[trigger] s[i]),
{
    let pred = |a: AlertEventView| a.active || time_lt(cutoff, a.last_updated_at);
    s.filter_lemma(pred);
    assert forall|k: int| 0 <= k < kept_after(s, cutoff).len() implies s.contains(#[trigger] kept_after(s, cutoff)[k]) by {
        assert(kept_after(s, cutoff).contains(kept_after(s, cutoff)[k]));
        s.lemma_filter_contains_rev(pred, kept_after(s, cutoff)[k]);
    }
    assert forall|i: int| 0 <= i < s.len() && (s[i].active || time_lt(cutoff, s[i].last_updated_at))
        implies kept_after(s, cutoff).contains(#[trigger] s[i]) by {
        s.lemma_filter_contains(pred, i);
    }
}

/// Pruning by length keeps every alert where there are at most `max_len`;
/// else it keeps `max_len` of them: the most recently updated, oldest first.
/// That is, the alerts ordered by update time (a sorted permutation of them)
/// without the oldest `len - max_len`.
pub proof fn lemma_newest_keeps_latest(s: Seq<AlertEventView>, max_len: nat)
    ensures
        s.len() <= max_len ==> newest(s, max_len) == s,
        s.len() > max_len ==> newest(s, max_len).len() == max_len,
        s.len() > max_len ==> exists|t: Seq<AlertEventView>| #![trigger t.to_multiset()]
            t.to_multiset() == s.to_multiset() && update_sorted(t) && t.len() == s.len()
                && newest(s, max_len) == t.skip(s.len() - max_len),
{
    if s.len() > max_len {
        let t = sort_by_update(s);
        lemma_sort_by_update_sorted_permutation(s);
        lemma_sort_by_update_len(s);
        assert(t.to_multiset() == s.to_multiset() && update_sorted(t) && t.len() == s.len()
            && newest(s, max_len) == t.skip(s.len() - max_len));
    }
}

impl AlertRuntimeState {
    /// Drops the resolved alerts last updated at or before `cutoff`.
    pub fn prune_resolved_before(&mut self, cutoff: UtcTime)
        ensures
            final(self)@.alerts == kept_after(old(self)@.alerts, cutoff),
            final(self)@.recent == old(self)@.recent,
    {
        let ghost s = self@.alerts;
        let mut out: Vec<AlertEvent> = Vec::new();
        let mut i: usize = 0;
        while i < self.alerts.len()
            invariant
                0 <= i <= self.alerts@.len(),
                s == self@.alerts,
                event_views(out@) == kept_after(s.take(i as int), cutoff),
            decreases self.alerts.len() - i,
        {
            assert(s.take(i + 1).drop_last() == s.take(i as int));
            assert(s.take(i + 1).last() == s[i as int]);
            assert(s[i as int] == self.alerts@[i as int]@);
            proof {
                reveal(Seq::filter);
            }
            if self.alerts[i].active || cutoff.lt(&self.alerts[i].last_updated_at) {
                out.push(copy_event(&self.alerts[i]));
                assert(event_views(out@) =~= event_views(out@.drop_last()).push(s[i as int]));
            }
            i = i + 1;
        }
        assert(s.take(s.len() as int) == s);
        self.alerts = out;
    }

    /// Drops the resolved alerts older than `max_age_secs` at `now`.
    pub fn prune_resolved_older_than_at(&mut self, now: UtcTime, max_age_secs: i64)
        requires
            i64::MIN <= now.secs - max_age_secs <= i64::MAX,
        ensures
            final(self)@.alerts == kept_after(old(self)@.alerts, seconds_before(now, max_age_secs)),
            final(self)@.recent == old(self)@.recent,
    {
        let cutoff = UtcTime { secs: now.secs - max_age_secs, nanos: now.nanos };
        self.prune_resolved_before(cutoff);
    }

    /// Keeps at most `max_len` alerts: the most recently updated ones, ordered
    /// by update time.
    pub fn prune_by_max_len(&mut self, max_len: usize)
        ensures
            final(self)@.alerts == newest(old(self)@.alerts, max_len as nat),
            final(self)@.alerts.len() <= max_len,
            final(self)@.recent == old(self)@.recent,
    {
        if self.alerts.len() <= max_len {
            return;
        }
        let ghost s = self@.alerts;
        let mut src: Vec<AlertEvent> = Vec::new();
        std::mem::swap(&mut src, &mut self.alerts);
        let n = src.len();
        let mut out: Vec<AlertEvent> = Vec::new();
        let mut i: usize = 0;
        assert(event_views(src@) =~= s.skip(0));
        while i < n
            invariant
                0 <= i <= n,
                n == s.len(),
                event_views(src@) == s.skip(i as int),
                src@.len() == n - i,
                event_views(out@) == sort_by_update(s.take(i as int)),
            decreases n - i,
        {
            assert(event_views(src@)[0] == src@[0]@);
            assert(s.skip(i as int)[0] == s[i as int]);
            let ghost old_src = src@;
            let x = src.remove(0);
            assert(x@ == s[i as int]);
            assert forall|j: int| 0 <= j < src@.len() implies #[trigger] event_views(src@)[j] == s.skip(i + 1)[j] by {
                assert(src@[j] == old_src[j + 1]);
                assert(event_views(old_src)[j + 1] == old_src[j + 1]@);
                assert(s.skip(i as int)[j + 1] == s[i + 1 + j]);
            }
            assert(event_views(src@) =~= s.skip(i + 1));
            let t = x.last_updated_at;
            assert(s.take(i + 1).drop_last() == s.take(i as int));
            assert(s.take(i + 1).last() == x@);
            let ghost sorted = event_views(out@);
            proof {
                lemma_sort_by_update_len(s.take(i as int));
            }
            let mut j = out.len();
            assert(sorted.take(j as int) == sorted);
            while j > 0 && t.lt(&out[j - 1].last_updated_at)
                invariant
                    0 <= j <= out@.len(),
                    sorted == event_views(out@),
                    event_insert_pos(sorted, t) == event_insert_pos(sorted.take(j as int), t),
                decreases j,
            {
                assert(sorted.take(j as int).drop_last() == sorted.take(j - 1));
                assert(sorted.take(j as int).last() == out@[j - 1]@);
                j = j - 1;
            }
            proof {
                if j > 0 {
                    assert(sorted.take(j as int).last() == out@[j - 1]@);
                }
            }
            out.insert(j, x);
            assert(event_views(out@) =~= sorted.insert(j as int, x@));
            i = i + 1;
        }
        assert(s.take(n as int) == s);
        proof {
            lemma_sort_by_update_len(s);
        }
        let excess = n - max_len;
        let mut kept: Vec<AlertEvent> = Vec::new();
        let mut k: usize = excess;
        let ghost sorted_all = event_views(out@);
        while k < n
            invariant
                excess <= k <= n,
                n == out@.len(),
                sorted_all == event_views(out@),
                event_views(kept@) == sorted_all.subrange(excess as int, k as int),
            decreases n - k,
        {
            assert(sorted_all[k as int] == out@[k as int]@);
            let ghost old_kept = kept@;
            kept.push(copy_event(&out[k]));
            assert(kept@.drop_last() =~= old_kept);
            assert(event_views(kept@) =~= event_views(old_kept).push(sorted_all[k as int]));
            assert(sorted_all.subrange(excess as int, k + 1) =~= sorted_all.subrange(excess as int, k as int).push(sorted_all[k as int]));
            assert(event_views(kept@) =~= sorted_all.subrange(excess as int, k + 1));
            k = k + 1;
        }
        assert(sorted_all.subrange(excess as int, n as int) =~= sorted_all.skip(excess as int));
        self.alerts = kept;
    }
}

/// `now` moved back by `secs` seconds; where that leaves the range of `i64`
/// (where `chrono` would panic), the earliest or latest second instead.
pub open spec fn saturating_before(now: UtcTime, secs: i64) -> UtcTime {
    if i64::MIN <= now.secs - secs <= i64::MAX {
        seconds_before(now, secs)
    } else if secs > 0 {
        UtcTime { secs: i64::MIN, nanos: now.nanos }
    } else {
        UtcTime { secs: i64::MAX, nanos: now.nanos }
    }
}

/// `now` moved back by `secs` seconds, saturating.
fn cutoff_before(now: UtcTime, secs: i64) -> (c: UtcTime)
    ensures
        c == saturating_before(now, secs),
{
    match now.secs.checked_sub(secs) {
        Some(v) => UtcTime { secs: v, nanos: now.nanos },
        None => if secs > 0 {
            UtcTime { secs: i64::MIN, nanos: now.nanos }
        } else {
            UtcTime { secs: i64::MAX, nanos: now.nanos }
        },
    }
}

proof fn lemma_leading_before_le(s: Seq<UtcTime>, cutoff: UtcTime)
    ensures
        leading_before(s, cutoff) <= s.len(),
    decreases s.len(),
{
    if s.len() > 0 && time_lt(s[0], cutoff) {
        lemma_leading_before_le(s.drop_first(), cutoff);
    }
}

/// The recent alert times after dropping those before `now - window_secs`.
pub open spec fn recent_within(s: Seq<UtcTime>, now: UtcTime, window_secs: i64) -> Seq<UtcTime> {
    s.skip(leading_before(s, seconds_before(now, window_secs)) as int)
}

impl AlertRuntimeState {
    /// Drops the leading recent times that lie before `cutoff`.
    pub fn prune_timestamps_before(&mut self, cutoff: UtcTime)
        ensures
            final(self)@.recent == old(self)@.recent.skip(leading_before(old(self)@.recent, cutoff) as int),
            final(self)@.alerts == old(self)@.alerts,
    {
        let ghost s = self.recent_alert_times@;
        let n = self.recent_alert_times.len();
        let mut i: usize = 0;
        assert(s.skip(0) == s);
        while i < n && self.recent_alert_times[i].lt(&cutoff)
            invariant
                0 <= i <= n,
                n == s.len(),
                s == self.recent_alert_times@,
                leading_before(s, cutoff) == i + leading_before(s.skip(i as int), cutoff),
            decreases n - i,
        {
            assert(s.skip(i as int)[0] == s[i as int]);
            assert(s.skip(i as int).drop_first() == s.skip(i + 1));
            i = i + 1;
        }
        proof {
            if i < n {
                assert(s.skip(i as int)[0] == s[i as int]);
            }
        }
        let mut kept: Vec<UtcTime> = Vec::new();
        let mut k: usize = i;
        while k < n
            invariant
                i <= k <= n,
                n == s.len(),
                s == self.recent_alert_times@,
                kept@ == s.subrange(i as int, k as int),
            decreases n - k,
        {
            kept.push(self.recent_alert_times[k]);
            assert(kept@ =~= s.subrange(i as int, k + 1));
            k = k + 1;
        }
        assert(kept@ =~= s.skip(i as int));
        self.recent_alert_times = kept;
    }

    /// Drops the recent times older than `window_secs` at `now`.
    pub fn prune_old_timestamps_at(&mut self, now: UtcTime, window_secs: i64)
        requires
            i64::MIN <= now.secs - window_secs <= i64::MAX,
        ensures
            final(self)@.recent == recent_within(old(self)@.recent, now, window_secs),
            final(self)@.alerts == old(self)@.alerts,
    {
        self.prune_timestamps_before(cutoff_before(now, window_secs));
    }

    /// Drops the recent times older than `window_secs` now.
    pub fn prune_old_timestamps(&mut self, window_secs: i64)
        ensures
            exists|now: UtcTime|
                final(self)@.recent == old(self)@.recent.skip(
                    leading_before(old(self)@.recent, #[trigger] saturating_before(now, window_secs)) as int,
                ),
            final(self)@.alerts == old(self)@.alerts,
    {
        let now = utc_now();
        self.prune_timestamps_before(cutoff_before(now, window_secs));
        assert(self@.recent == old(self)@.recent.skip(
            leading_before(old(self)@.recent, saturating_before(now, window_secs)) as int,
        ));
    }

    /// Drops the resolved alerts older than `max_age_secs` now.
    pub fn prune_resolved_older_than(&mut self, max_age_secs: i64)
        ensures
            exists|now: UtcTime|
                final(self)@.alerts == kept_after(old(self)@.alerts, #[trigger] saturating_before(now, max_age_secs)),
            final(self)@.recent == old(self)@.recent,
    {
        let now = utc_now();
        self.prune_resolved_before(cutoff_before(now, max_age_secs));
        assert(self@.alerts == kept_after(old(self)@.alerts, saturating_before(now, max_age_secs)));
    }
}

// ---------------------------------------------------------------------------
// Firing alerts under the rate limit
// ---------------------------------------------------------------------------

/// Maximum alerts allowed in [`WINDOW_SECONDS`].
pub const MAX_ALERTS_PER_WINDOW: usize = 100;

/// Length of the rate-limit window, in seconds.
pub const WINDOW_SECONDS: i64 = 60;

/// Message of the storm alert.
pub open spec fn storm_message() -> Seq<char> {
    "Alert storm detected: > 100 alerts in 60 seconds. Suppressing new alerts."@
}

/// The storm alert raised at `now`.
pub open spec fn storm_event(now: UtcTime) -> AlertEventView {
    AlertEventView {
        id: "alert-storm"@,
        message: storm_message(),
        severity: "critical"@,
        created_at: now,
        last_updated_at: now,
        active: true,
    }
}

/// The state after firing alert `id` at `now` (`fire_alert`): the window is
/// pruned; with [`MAX_ALERTS_PER_WINDOW`] alerts or more left in it, the
/// storm alert is raised instead and the window is not extended; otherwise
/// `now` joins the window and the alert is raised as active.
pub open spec fn fired(st: AlertStateView, id: Seq<char>, message: Seq<char>, severity: Seq<char>, now: UtcTime) -> AlertStateView {
    let recent = recent_within(st.recent, now, WINDOW_SECONDS);
    if recent.len() >= MAX_ALERTS_PER_WINDOW {
        AlertStateView { alerts: alert_upserted(st.alerts, storm_event(now), now), recent: recent }
    } else {
        AlertStateView {
            alerts: alert_upserted(
                st.alerts,
                AlertEventView {
                    id: id,
                    message: message,
                    severity: severity,
                    created_at: now,
                    last_updated_at: now,
                    active: true,
                },
                now,
            ),
            recent: recent.push(now),
        }
    }
}

/// Firing never takes the window above [`MAX_ALERTS_PER_WINDOW`] times.
pub proof fn lemma_fire_keeps_window_bound(st: AlertStateView, id: Seq<char>, message: Seq<char>, severity: Seq<char>, now: UtcTime)
    requires
        st.recent.len() <= MAX_ALERTS_PER_WINDOW,
    ensures
        fired(st, id, message, severity, now).recent.len() <= MAX_ALERTS_PER_WINDOW,
{
    lemma_leading_before_le(st.recent, seconds_before(now, WINDOW_SECONDS));
}

/// Adding or updating an alert whose identifier is already listed updates the
/// first alert with it in place: it takes the message, severity and activity
/// of the alert passed in and is stamped `now`, keeps its identifier and
/// creation time, and every other alert stays as it was.
pub proof fn lemma_upsert_updates_existing(s: Seq<AlertEventView>, new: AlertEventView, now: UtcTime, k: int)
    requires
        0 <= k < s.len(),
        s[k].id == new.id,
        forall|j: int| 0 <= j < k ==> s[j].id != new.id,
    ensures
        alert_upserted(s, new, now).len() == s.len(),
        alert_upserted(s, new, now)[k].id == new.id,
        alert_upserted(s, new, now)[k].message == new.message,
        alert_upserted(s, new, now)[k].severity == new.severity,
        alert_upserted(s, new, now)[k].active == new.active,
        alert_upserted(s, new, now)[k].last_updated_at == now,
        alert_upserted(s, new, now)[k].created_at == s[k].created_at,
        forall|j: int| 0 <= j < s.len() && j != k ==> #[trigger] alert_upserted(s, new, now)[j] == s[j],
{
    lemma_first_with_id(s, new.id);
    match first_with_id(s, new.id) {
        Some(i) => {
            if (i as int) < k {
            } else if (i as int) > k {
                assert(s[k].id != new.id);
            }
        },
        None => {
            assert(s[k].id != new.id);
        },
    }
}

/// Resolving an alert marks the first alert with its identifier inactive and
/// stamps it `now`, keeping its identifier, message, severity and creation
/// time; every other alert stays as it was, and an identifier that is not
/// listed changes nothing.
pub proof fn lemma_resolve_marks_first(s: Seq<AlertEventView>, id: Seq<char>, now: UtcTime)
    ensures
        alert_resolved(s, id, now).len() == s.len(),
        (forall|j: int| 0 <= j < s.len() ==> s[j].id != id) ==> alert_resolved(s, id, now) == s,
        forall|k: int| 0 <= k < s.len() && s[k].id == id && (forall|j: int| 0 <= j < k ==> s[j].id != id) ==> {
            &&& !(#[trigger] alert_resolved(s, id, now)[k]).active
            &&& alert_resolved(s, id, now)[k].last_updated_at == now
            &&& alert_resolved(s, id, now)[k].id == id
            &&& alert_resolved(s, id, now)[k].message == s[k].message
            &&& alert_resolved(s, id, now)[k].severity == s[k].severity
            &&& alert_resolved(s, id, now)[k].created_at == s[k].created_at
            &&& forall|j: int| 0 <= j < s.len() && j != k ==> alert_resolved(s, id, now)[j] == s[j]
        },
{
    lemma_first_with_id(s, id);
    assert forall|k: int| 0 <= k < s.len() && s[k].id == id && (forall|j: int| 0 <= j < k ==> s[j].id != id) implies {
        &&& !(#[trigger] alert_resolved(s, id, now)[k]).active
        &&& alert_resolved(s, id, now)[k].last_updated_at == now
        &&& alert_resolved(s, id, now)[k].id == id
        &&& alert_resolved(s, id, now)[k].message == s[k].message
        &&& alert_resolved(s, id, now)[k].severity == s[k].severity
        &&& alert_resolved(s, id, now)[k].created_at == s[k].created_at
        &&& forall|j: int| 0 <= j < s.len() && j != k ==> alert_resolved(s, id, now)[j] == s[j]
    } by {
        match first_with_id(s, id) {
            Some(i) => {
                if (i as int) > k {
                    assert(s[k].id != id);
                }
            },
            None => {
                assert(s[k].id != id);
            },
        }
    }
}

/// Adding an alert whose identifier is not listed appends it as given.
pub proof fn lemma_upsert_appends_new(s: Seq<AlertEventView>, new: AlertEventView, now: UtcTime)
    requires
        forall|j: int| 0 <= j < s.len() ==> s[j].id != new.id,
    ensures
        alert_upserted(s, new, now).len() == s.len() + 1,
        alert_upserted(s, new, now).last() == new,
        forall|j: int| 0 <= j < s.len() ==> #[trigger] alert_upserted(s, new, now)[j] == s[j],
{
    lemma_first_with_id(s, new.id);
}

/// One firing adds at most one recent time and at most one alert; during a
/// storm (the window already full) no alert but the storm alert changes.
pub proof fn lemma_fire_changes_little(st: AlertStateView, id: Seq<char>, message: Seq<char>, severity: Seq<char>, now: UtcTime)
    ensures
        fired(st, id, message, severity, now).recent.len() <= st.recent.len() + 1,
        st.alerts.len() <= fired(st, id, message, severity, now).alerts.len() <= st.alerts.len() + 1,
        recent_within(st.recent, now, WINDOW_SECONDS).len() >= MAX_ALERTS_PER_WINDOW ==>
            forall|k: int| 0 <= k < st.alerts.len() && st.alerts[k].id != "alert-storm"@
                ==> #[trigger] fired(st, id, message, severity, now).alerts[k] == st.alerts[k],
{
    lemma_leading_before_le(st.recent, seconds_before(now, WINDOW_SECONDS));
    let recent = recent_within(st.recent, now, WINDOW_SECONDS);
    if recent.len() >= MAX_ALERTS_PER_WINDOW {
        lemma_first_with_id(st.alerts, "alert-storm"@);
        assert(storm_event(now).id == "alert-storm"@);
    } else {
        lemma_first_with_id(st.alerts, id);
    }
}

/// Manager of the runtime alert state, over the repository that holds it.
pub struct AlertRuntimeStateManager<R> {
    pub repo: Arc<R>,
}

impl<R> AlertRuntimeStateManager<R> {
    /// A manager over `repo`.
    pub fn new(repo: Arc<R>) -> (m: Self)
        ensures
            m.repo == repo,
    {
        Self { repo }
    }

    /// The storm alert at `now`.
    fn storm_alert(now: UtcTime) -> (e: AlertEvent)
        ensures
            e@ == storm_event(now),
    {
        AlertEvent {
            id: String::from_str("alert-storm"),
            message: String::from_str("Alert storm detected: > 100 alerts in 60 seconds. Suppressing new alerts."),
            severity: String::from_str("critical"),
            created_at: now,
            last_updated_at: now,
            active: true,
        }
    }

    /// Fires alert `id` on `state` at `now`, under the rate limit (the update
    /// that `fire_alert` makes through the repository).
    pub fn fire_alert_in(state: &mut AlertRuntimeState, id: String, message: String, severity: String, now: UtcTime)
        requires
            i64::MIN <= now.secs - WINDOW_SECONDS,
        ensures
            final(state)@ == fired(old(state)@, id@, message@, severity@, now),
            old(state)@.recent.len() <= MAX_ALERTS_PER_WINDOW ==> final(state)@.recent.len() <= MAX_ALERTS_PER_WINDOW,
    {
        state.prune_old_timestamps_at(now, WINDOW_SECONDS);
        if state.recent_alert_times.len() >= MAX_ALERTS_PER_WINDOW {
            state.add_or_update_alert_at(Self::storm_alert(now), now);
        } else {
            state.recent_alert_times.push(now);
            let alert = AlertEvent { id, message, severity, created_at: now, last_updated_at: now, active: true };
            state.add_or_update_alert_at(alert, now);
        }
        proof {
            if old(state)@.recent.len() <= MAX_ALERTS_PER_WINDOW {
                lemma_fire_keeps_window_bound(old(state)@, id@, message@, severity@, now);
            }
        }
    }
}

} // verus!
