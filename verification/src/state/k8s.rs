//! Runtime snapshot of the discovered cluster: pods by identifier, and the
//! indexes of their identifiers by namespace, node and deployment.
use vstd::prelude::*;
use std::sync::Arc;
use crate::text::{str_eq, views};
use crate::time::{UtcTime, utc_now};
use crate::client::mappers::{clone_opt, clone_strings};

verus! {

/// A Kubernetes pod and what it belongs to.
#[derive(Clone, Debug)]
pub struct RuntimePod {
    /// Immutable Kubernetes identifier
    pub uid: String,
    /// Human-readable pod name (may change when recreated)
    pub name: String,
    /// Namespace the pod belongs to
    pub namespace: String,
    /// Top-level deployment (if applicable)
    pub deployment: Option<String>,
    /// Node where the pod is running
    pub node: String,
    /// Container names under this pod
    pub containers: Vec<String>,
}

/// A pod as values.
pub struct RuntimePodView {
    pub uid: Seq<char>,
    pub name: Seq<char>,
    pub namespace: Seq<char>,
    pub deployment: Option<Seq<char>>,
    pub node: Seq<char>,
    pub containers: Seq<Seq<char>>,
}

impl View for RuntimePod {
    type V = RuntimePodView;

    open spec fn view(&self) -> RuntimePodView {
        RuntimePodView {
            uid: self.uid@,
            name: self.name@,
            namespace: self.namespace@,
            deployment: match self.deployment {
                Some(d) => Some(d@),
                None => None,
            },
            node: self.node@,
            containers: views(self.containers@),
        }
    }
}

/// Views of a list of pods.
pub open spec fn pod_views(s: Seq<RuntimePod>) -> Seq<RuntimePodView> {
    s.map_values(|p: RuntimePod| p@)
}

/// The secondary indexes of the pods.
#[derive(Clone, Copy, Debug, PartialEq, Eq, Structural)]
pub enum PodIndex {
    /// Pod identifiers by namespace.
    Namespace,
    /// Pod identifiers by node.
    Node,
    /// Pod identifiers by top-level deployment (pods without one are left out).
    Deployment,
}

/// The key under which `p` is indexed, if any.
pub open spec fn index_key(p: RuntimePodView, which: PodIndex) -> Option<Seq<char>> {
    match which {
        PodIndex::Namespace => Some(p.namespace),
        PodIndex::Node => Some(p.node),
        PodIndex::Deployment => p.deployment,
    }
}

/// Identifiers of the pods indexed under `key`, in discovery order (one entry
/// per pod, as the index receives them).
pub open spec fn uids_under(pods: Seq<RuntimePodView>, which: PodIndex, key: Seq<char>) -> Seq<Seq<char>>
    decreases pods.len(),
{
    if pods.len() == 0 {
        Seq::empty()
    } else {
        let rest = uids_under(pods.drop_last(), which, key);
        if index_key(pods.last(), which) == Some(key) {
            rest.push(pods.last().uid)
        } else {
            rest
        }
    }
}

/// An index entry as values: a key and the identifiers under it.
pub open spec fn entry_view(e: (String, Vec<String>)) -> (Seq<char>, Seq<Seq<char>>) {
    (e.0@, views(e.1@))
}

/// An index as an association list of values.
pub open spec fn index_views(l: Seq<(String, Vec<String>)>) -> Seq<(Seq<char>, Seq<Seq<char>>)> {
    l.map_values(|e: (String, Vec<String>)| entry_view(e))
}

/// Some pod of `pods` is indexed under `key`.
pub open spec fn key_present(pods: Seq<RuntimePodView>, which: PodIndex, key: Seq<char>) -> bool {
    exists|i: int| 0 <= i < pods.len() && index_key(#[trigger] pods[i], which) == Some(key)
}

/// `l` indexes `pods` under `which`: its keys are distinct, each is the key of
/// some pod, each entry holds exactly the identifiers of the pods under its
/// key, and every key of a pod has an entry.
pub open spec fn index_of(l: Seq<(Seq<char>, Seq<Seq<char>>)>, pods: Seq<RuntimePodView>, which: PodIndex) -> bool {
    &&& forall|a: int, b: int| 0 <= a < b < l.len() ==> l[a].0 != l[b].0
    &&& forall|a: int| 0 <= a < l.len() ==> #[trigger] l[a].1 == uids_under(pods, which, l[a].0)
    &&& forall|a: int| 0 <= a < l.len() ==> key_present(pods, which, #[trigger] l[a].0)
    &&& forall|i: int| 0 <= i < pods.len() && index_key(pods[i], which) is Some ==>
            exists|a: int| 0 <= a < l.len() && l[a].0 == index_key(#[trigger] pods[i], which).unwrap()
}

/// The identifiers that `l` lists under `key`: those of its first entry with
/// that key, or none.
pub open spec fn index_lookup(l: Seq<(Seq<char>, Seq<Seq<char>>)>, key: Seq<char>) -> Seq<Seq<char>>
    decreases l.len(),
{
    if l.len() == 0 {
        Seq::empty()
    } else if l[0].0 == key {
        l[0].1
    } else {
        index_lookup(l.skip(1), key)
    }
}

/// The lookup finds the first entry with the key.
proof fn lemma_index_lookup_at(l: Seq<(Seq<char>, Seq<Seq<char>>)>, key: Seq<char>, j: int)
    requires
        0 <= j < l.len(),
        l[j].0 == key,
        forall|a: int| 0 <= a < j ==> (#[trigger] l[a]).0 != key,
    ensures
        index_lookup(l, key) == l[j].1,
    decreases j,
{
    if j > 0 {
        let t = l.skip(1);
        assert forall|a: int| 0 <= a < j - 1 implies (#[trigger] t[a]).0 != key by {
            assert(t[a] == l[a + 1]);
        }
        assert(t[j - 1] == l[j]);
        assert(l[0].0 != key);
        lemma_index_lookup_at(t, key, j - 1);
    }
}

/// The lookup of a key that no entry has finds nothing.
proof fn lemma_index_lookup_absent(l: Seq<(Seq<char>, Seq<Seq<char>>)>, key: Seq<char>)
    requires
        forall|a: int| 0 <= a < l.len() ==> (#[trigger] l[a]).0 != key,
    ensures
        index_lookup(l, key) == Seq::<Seq<char>>::empty(),
    decreases l.len(),
{
    if l.len() > 0 {
        let t = l.skip(1);
        assert forall|a: int| 0 <= a < t.len() implies (#[trigger] t[a]).0 != key by {
            assert(t[a] == l[a + 1]);
        }
        assert(l[0].0 != key);
        lemma_index_lookup_absent(t, key);
    }
}

/// A key present among the first pods stays present when pods are added.
proof fn lemma_key_present_extend(prefix: Seq<RuntimePodView>, next: Seq<RuntimePodView>, which: PodIndex, key: Seq<char>)
    requires
        prefix.len() <= next.len(),
        forall|j: int| 0 <= j < prefix.len() ==> next[j] == prefix[j],
        key_present(prefix, which, key),
    ensures
        key_present(next, which, key),
{
    let i = choose|i: int| 0 <= i < prefix.len() && index_key(#[trigger] prefix[i], which) == Some(key);
    assert(next[i] == prefix[i]);
}

/// A key that no pod has holds no identifiers.
proof fn lemma_uids_under_absent(pods: Seq<RuntimePodView>, which: PodIndex, key: Seq<char>)
    requires
        forall|i: int| 0 <= i < pods.len() ==> index_key(#[trigger] pods[i], which) != Some(key),
    ensures
        uids_under(pods, which, key) == Seq::<Seq<char>>::empty(),
    decreases pods.len(),
{
    if pods.len() > 0 {
        assert(index_key(pods[pods.len() - 1], which) != Some(key));
        lemma_uids_under_absent(pods.drop_last(), which, key);
    }
}

/// An identifier lies under `key` exactly where some pod with that identifier
/// is indexed under `key`.
pub proof fn lemma_uids_under_members(pods: Seq<RuntimePodView>, which: PodIndex, key: Seq<char>, uid: Seq<char>)
    ensures
        uids_under(pods, which, key).contains(uid)
            <==> exists|i: int| 0 <= i < pods.len() && (#[trigger] pods[i]).uid == uid && index_key(pods[i], which) == Some(key),
    decreases pods.len(),
{
    if pods.len() > 0 {
        let p = pods.drop_last();
        lemma_uids_under_members(p, which, key, uid);
        let rest = uids_under(p, which, key);
        if index_key(pods.last(), which) == Some(key) {
            assert(rest.push(pods.last().uid).contains(uid) <==> (rest.contains(uid) || pods.last().uid == uid)) by {
                if rest.push(pods.last().uid).contains(uid) {
                    let k = choose|k: int| 0 <= k < rest.len() + 1 && #[trigger] rest.push(pods.last().uid)[k] == uid;
                    if k < rest.len() {
                        assert(rest[k] == uid);
                    }
                }
                if rest.contains(uid) {
                    let k = choose|k: int| 0 <= k < rest.len() && #[trigger] rest[k] == uid;
                    assert(rest.push(pods.last().uid)[k] == uid);
                }
                if pods.last().uid == uid {
                    assert(rest.push(pods.last().uid)[rest.len() as int] == uid);
                }
            }
        }
        if exists|i: int| 0 <= i < pods.len() && (#[trigger] pods[i]).uid == uid && index_key(pods[i], which) == Some(key) {
            let i = choose|i: int| 0 <= i < pods.len() && (#[trigger] pods[i]).uid == uid && index_key(pods[i], which) == Some(key);
            if i < pods.len() - 1 {
                assert(p[i] == pods[i]);
            }
        }
        if exists|i: int| 0 <= i < p.len() && (#[trigger] p[i]).uid == uid && index_key(p[i], which) == Some(key) {
            let i = choose|i: int| 0 <= i < p.len() && (#[trigger] p[i]).uid == uid && index_key(p[i], which) == Some(key);
            assert(pods[i] == p[i]);
        }
    }
}

/// The key under which `p` is indexed, if any.
fn index_key_exec(p: &RuntimePod, which: PodIndex) -> (r: Option<String>)
    ensures
        match r {
            Some(k) => index_key(p@, which) == Some(k@),
            None => index_key(p@, which) is None,
        },
{
    match which {
        PodIndex::Namespace => Some(p.namespace.clone()),
        PodIndex::Node => Some(p.node.clone()),
        PodIndex::Deployment => match &p.deployment {
            Some(d) => Some(d.clone()),
            None => None,
        },
    }
}

/// Position of the entry with key `key`.
fn find_entry(l: &Vec<(String, Vec<String>)>, key: &str) -> (r: Option<usize>)
    ensures
        match r {
            Some(j) => j < l@.len() && l@[j as int].0@ == key@
                && forall|a: int| 0 <= a < j ==> (#[trigger] l@[a]).0@ != key@,
            None => forall|a: int| 0 <= a < l@.len() ==> (#[trigger] l@[a]).0@ != key@,
        },
{
    let mut j: usize = 0;
    while j < l.len()
        invariant
            0 <= j <= l@.len(),
            forall|a: int| 0 <= a < j ==> (#[trigger] l@[a]).0@ != key@,
        decreases l.len() - j,
    {
        if str_eq(l[j].0.as_str(), key) {
            return Some(j);
        }
        j = j + 1;
    }
    None
}

/// The index of `pods` under `which`.
pub fn build_index(pods: &Vec<RuntimePod>, which: PodIndex) -> (l: Vec<(String, Vec<String>)>)
    ensures
        index_of(index_views(l@), pod_views(pods@), which),
{
    let ghost pv = pod_views(pods@);
    let mut l: Vec<(String, Vec<String>)> = Vec::new();
    let mut i: usize = 0;
    while i < pods.len()
        invariant
            0 <= i <= pods@.len(),
            pv == pod_views(pods@),
            index_of(index_views(l@), pv.take(i as int), which),
        decreases pods.len() - i,
    {
        let ghost before = index_views(l@);
        let ghost prefix = pv.take(i as int);
        let ghost next = pv.take(i + 1);
        assert(next.drop_last() == prefix);
        assert(next.last() == pods@[i as int]@);
        assert forall|j: int| 0 <= j < i implies next[j] == prefix[j] by {}
        let uid = pods[i].uid.clone();
        match index_key_exec(&pods[i], which) {
            None => {
                assert forall|a: int| 0 <= a < before.len() implies #[trigger] before[a].1 == uids_under(next, which, before[a].0) by {}
                assert forall|a: int| 0 <= a < before.len() implies key_present(next, which, #[trigger] before[a].0) by {
                    lemma_key_present_extend(prefix, next, which, before[a].0);
                }
                assert forall|j: int| 0 <= j < next.len() && index_key(next[j], which) is Some implies
                    exists|a: int| 0 <= a < before.len() && before[a].0 == index_key(#[trigger] next[j], which).unwrap() by {
                    assert(j < i);
                    assert(prefix[j] == next[j]);
                }
            },
            Some(k) => {
                match find_entry(&l, k.as_str()) {
                    Some(j) => {
                        let ghost old_l = l@;
                        let mut entry = (String::new(), Vec::new());
                        std::mem::swap(&mut entry, &mut l[j]);
                        entry.1.push(uid);
                        l.set(j, entry);
                        assert(before[j as int].0 == k@);
                        assert(index_views(l@) =~= before.update(j as int, (k@, before[j as int].1.push(uid@)))) by {
                            assert(views(entry.1@) =~= views(old_l[j as int].1@).push(uid@));
                        }
                        let ghost after = index_views(l@);
                        assert forall|a: int| 0 <= a < after.len() implies #[trigger] after[a].1 == uids_under(next, which, after[a].0) by {
                            if a != j {
                                assert(after[a] == before[a]);
                                assert(before[a].0 != k@);
                            }
                        }
                        assert forall|q: int| 0 <= q < next.len() && index_key(next[q], which) is Some implies
                            exists|a: int| 0 <= a < after.len() && after[a].0 == index_key(#[trigger] next[q], which).unwrap() by {
                            if q < i {
                                assert(prefix[q] == next[q]);
                                let a = choose|a: int| 0 <= a < before.len() && before[a].0 == index_key(#[trigger] prefix[q], which).unwrap();
                                assert(after[a].0 == before[a].0);
                            } else {
                                assert(after[j as int].0 == k@);
                            }
                        }
                        assert forall|a: int| 0 <= a < after.len() implies key_present(next, which, #[trigger] after[a].0) by {
                            assert(after[a].0 == before[a].0);
                            lemma_key_present_extend(prefix, next, which, before[a].0);
                        }
                    },
                    None => {
                        proof {
                            assert forall|q: int| 0 <= q < prefix.len() implies index_key(#[trigger] prefix[q], which) != Some(k@) by {
                                if index_key(prefix[q], which) == Some(k@) {
                                    let a = choose|a: int| 0 <= a < before.len() && before[a].0 == index_key(#[trigger] prefix[q], which).unwrap();
                                    assert(l@[a].0@ != k@);
                                }
                            }
                            lemma_uids_under_absent(prefix, which, k@);
                        }
                        let mut uids: Vec<String> = Vec::new();
                        uids.push(uid);
                        assert(views(uids@) =~= seq![uid@]);
                        let ghost old_l = l@;
                        l.push((k, uids));
                        assert(l@ == old_l.push((k, uids)));
                        let ghost after = index_views(l@);
                        assert(after =~= before.push((k@, seq![uid@])));
                        assert(seq![uid@] =~= Seq::<Seq<char>>::empty().push(uid@));
                        assert forall|a: int| 0 <= a < after.len() implies #[trigger] after[a].1 == uids_under(next, which, after[a].0) by {
                            if a < before.len() {
                                assert(after[a] == before[a]);
                                assert(l@[a].0@ != k@);
                            }
                        }
                        assert forall|q: int| 0 <= q < next.len() && index_key(next[q], which) is Some implies
                            exists|a: int| 0 <= a < after.len() && after[a].0 == index_key(#[trigger] next[q], which).unwrap() by {
                            if q < i {
                                assert(prefix[q] == next[q]);
                                let a = choose|a: int| 0 <= a < before.len() && before[a].0 == index_key(#[trigger] prefix[q], which).unwrap();
                                assert(after[a].0 == before[a].0);
                            } else {
                                assert(after[before.len() as int].0 == k@);
                            }
                        }
                        assert forall|a: int| 0 <= a < after.len() implies key_present(next, which, #[trigger] after[a].0) by {
                            if a < before.len() {
                                assert(after[a] == before[a]);
                                lemma_key_present_extend(prefix, next, which, before[a].0);
                            } else {
                                assert(index_key(next[i as int], which) == Some(k@));
                            }
                        }
                        assert forall|a: int, b: int| 0 <= a < b < after.len() implies after[a].0 != after[b].0 by {
                            if b == before.len() {
                                assert(l@[a].0@ != k@);
                            }
                        }
                    },
                }
            },
        }
        i = i + 1;
    }
    assert(pv.take(pods@.len() as int) == pv);
    l
}

// ---------------------------------------------------------------------------
// One pod per identifier
// ---------------------------------------------------------------------------

/// Position of the first pod of `s` with identifier `uid`.
pub open spec fn uid_position(s: Seq<RuntimePodView>, uid: Seq<char>) -> Option<nat>
    decreases s.len(),
{
    if s.len() == 0 {
        None
    } else {
        match uid_position(s.drop_last(), uid) {
            Some(i) => Some(i),
            None => if s.last().uid == uid { Some((s.len() - 1) as nat) } else { None },
        }
    }
}

/// The pods of `s` keyed by identifier, as a map keyed by identifier keeps
/// them: each pod replaces the one before it with the same identifier.
pub open spec fn last_per_uid(s: Seq<RuntimePodView>) -> Seq<RuntimePodView>
    decreases s.len(),
{
    if s.len() == 0 {
        Seq::empty()
    } else {
        let r = last_per_uid(s.drop_last());
        match uid_position(r, s.last().uid) {
            Some(j) => r.remove(j as int).push(s.last()),
            None => r.push(s.last()),
        }
    }
}

/// No two pods of `s` share an identifier.
pub open spec fn uids_distinct(s: Seq<RuntimePodView>) -> bool {
    forall|a: int, b: int| 0 <= a < b < s.len() ==> s[a].uid != s[b].uid
}

proof fn lemma_uid_position(s: Seq<RuntimePodView>, uid: Seq<char>)
    ensures
        match uid_position(s, uid) {
            Some(i) => i < s.len() && s[i as int].uid == uid && forall|j: int| 0 <= j < i ==> s[j].uid != uid,
            None => forall|j: int| 0 <= j < s.len() ==> s[j].uid != uid,
        },
    decreases s.len(),
{
    if s.len() > 0 {
        lemma_uid_position(s.drop_last(), uid);
        assert forall|j: int| 0 <= j < s.len() - 1 implies s[j] == s.drop_last()[j] by {}
    }
}

/// The pod with identifier `uid` in pods with distinct identifiers is the one
/// that has it.
proof fn lemma_pod_by_uid_at(x: Seq<RuntimePodView>, uid: Seq<char>, k: int)
    requires
        uids_distinct(x),
        0 <= k < x.len(),
        x[k].uid == uid,
    ensures
        pod_by_uid(x, uid) == Some(x[k]),
    decreases x.len(),
{
    if k < x.len() - 1 {
        assert(x.last().uid != uid);
        let y = x.drop_last();
        assert(y[k] == x[k]);
        assert forall|a: int, b: int| 0 <= a < b < y.len() implies y[a].uid != y[b].uid by {
            assert(y[a] == x[a] && y[b] == x[b]);
        }
        lemma_pod_by_uid_at(y, uid, k);
    }
}

/// No pod has identifier `uid`: there is none to find.
proof fn lemma_pod_by_uid_none(x: Seq<RuntimePodView>, uid: Seq<char>)
    requires
        forall|k: int| 0 <= k < x.len() ==> x[k].uid != uid,
    ensures
        pod_by_uid(x, uid) is None,
    decreases x.len(),
{
    if x.len() > 0 {
        let y = x.drop_last();
        assert(x.last().uid != uid);
        assert forall|k: int| 0 <= k < y.len() implies y[k].uid != uid by {
            assert(y[k] == x[k]);
        }
        lemma_pod_by_uid_none(y, uid);
    }
}

/// Keeping the last pod per identifier leaves the identifiers distinct, and
/// the pod found for each identifier is the last one discovered with it.
pub proof fn lemma_last_per_uid(s: Seq<RuntimePodView>)
    ensures
        uids_distinct(last_per_uid(s)),
        forall|uid: Seq<char>| #[trigger] pod_by_uid(last_per_uid(s), uid) == pod_by_uid(s, uid),
    decreases s.len(),
{
    if s.len() > 0 {
        let p = s.last();
        let r = last_per_uid(s.drop_last());
        lemma_last_per_uid(s.drop_last());
        lemma_uid_position(r, p.uid);
        let m = match uid_position(r, p.uid) {
            Some(j) => r.remove(j as int),
            None => r,
        };
        // `m` keeps the distinct identifiers of `r`, without `p.uid`.
        assert forall|k: int| 0 <= k < m.len() implies m[k].uid != p.uid by {
            match uid_position(r, p.uid) {
                Some(j) => {
                    if k < j {
                        assert(m[k] == r[k]);
                    } else {
                        assert(m[k] == r[k + 1]);
                    }
                },
                None => {},
            }
        }
        assert forall|a: int, b: int| 0 <= a < b < m.len() implies m[a].uid != m[b].uid by {
            match uid_position(r, p.uid) {
                Some(j) => {
                    let a1 = if a < j { a } else { a + 1 };
                    let b1 = if b < j { b } else { b + 1 };
                    assert(m[a] == r[a1] && m[b] == r[b1]);
                },
                None => {},
            }
        }
        let t = last_per_uid(s);
        assert(t == m.push(p));
        assert forall|a: int, b: int| 0 <= a < b < t.len() implies t[a].uid != t[b].uid by {
            if b == t.len() - 1 {
                assert(t[a] == m[a]);
            } else {
                assert(t[a] == m[a] && t[b] == m[b]);
            }
        }
        assert forall|uid: Seq<char>| #[trigger] pod_by_uid(t, uid) == pod_by_uid(s, uid) by {
            if uid != p.uid {
                assert(t.drop_last() == m);
                assert(pod_by_uid(t, uid) == pod_by_uid(m, uid));
                assert(pod_by_uid(s, uid) == pod_by_uid(s.drop_last(), uid));
                assert(pod_by_uid(s.drop_last(), uid) == pod_by_uid(r, uid));
                if exists|k: int| 0 <= k < m.len() && m[k].uid == uid {
                    let k = choose|k: int| 0 <= k < m.len() && m[k].uid == uid;
                    lemma_pod_by_uid_at(m, uid, k);
                    let k1 = match uid_position(r, p.uid) {
                        Some(j) => if k < j { k } else { k + 1 },
                        None => k,
                    };
                    assert(r[k1] == m[k]);
                    lemma_pod_by_uid_at(r, uid, k1);
                } else {
                    lemma_pod_by_uid_none(m, uid);
                    assert forall|k: int| 0 <= k < r.len() implies r[k].uid != uid by {
                        match uid_position(r, p.uid) {
                            Some(j) => {
                                if k < j {
                                    assert(m[k] == r[k]);
                                } else if k > j {
                                    assert(m[k - 1] == r[k]);
                                }
                            },
                            None => {
                                assert(m[k] == r[k]);
                            },
                        }
                    }
                    lemma_pod_by_uid_none(r, uid);
                }
            }
        }
    }
}

/// Pods whose identifiers are distinct are kept as they are.
pub proof fn lemma_last_per_uid_distinct(s: Seq<RuntimePodView>)
    requires
        uids_distinct(s),
    ensures
        last_per_uid(s) == s,
    decreases s.len(),
{
    if s.len() > 0 {
        let y = s.drop_last();
        assert forall|a: int, b: int| 0 <= a < b < y.len() implies y[a].uid != y[b].uid by {
            assert(y[a] == s[a] && y[b] == s[b]);
        }
        lemma_last_per_uid_distinct(y);
        lemma_uid_position(y, s.last().uid);
        assert forall|j: int| 0 <= j < y.len() implies y[j].uid != s.last().uid by {
            assert(y[j] == s[j]);
        }
        assert(y.push(s.last()) =~= s);
    }
}

/// A copy of a pod.
fn copy_pod(p: &RuntimePod) -> (r: RuntimePod)
    ensures
        r@ == p@,
{
    RuntimePod {
        uid: p.uid.clone(),
        name: p.name.clone(),
        namespace: p.namespace.clone(),
        deployment: clone_opt(&p.deployment),
        node: p.node.clone(),
        containers: clone_strings(&p.containers),
    }
}

/// Position of the first pod with identifier `uid`.
fn find_uid(v: &Vec<RuntimePod>, uid: &str) -> (r: Option<usize>)
    ensures
        match r {
            Some(j) => uid_position(pod_views(v@), uid@) == Some(j as nat),
            None => uid_position(pod_views(v@), uid@) is None,
        },
{
    proof {
        lemma_uid_position(pod_views(v@), uid@);
    }
    let mut j: usize = 0;
    while j < v.len()
        invariant
            0 <= j <= v@.len(),
            forall|a: int| 0 <= a < j ==> (#[trigger] v@[a]).uid@ != uid@,
        decreases v.len() - j,
    {
        if str_eq(v[j].uid.as_str(), uid) {
            assert(pod_views(v@)[j as int].uid == uid@);
            proof {
                let pv = pod_views(v@);
                lemma_uid_position(pv, uid@);
                match uid_position(pv, uid@) {
                    Some(i) => {
                        if i < j {
                            assert(pv[i as int] == v@[i as int]@);
                        }
                    },
                    None => {},
                }
            }
            return Some(j);
        }
        j = j + 1;
    }
    assert forall|a: int| 0 <= a < v@.len() implies pod_views(v@)[a].uid != uid@ by {
        assert(pod_views(v@)[a] == v@[a]@);
    }
    None
}

/// The pods keyed by identifier: the last one discovered with each.
fn keep_last_per_uid(pods: &Vec<RuntimePod>) -> (out: Vec<RuntimePod>)
    ensures
        pod_views(out@) == last_per_uid(pod_views(pods@)),
{
    let ghost pv = pod_views(pods@);
    let mut out: Vec<RuntimePod> = Vec::new();
    let mut i: usize = 0;
    assert(pv.take(0) =~= Seq::<RuntimePodView>::empty());
    while i < pods.len()
        invariant
            0 <= i <= pods@.len(),
            pv == pod_views(pods@),
            pod_views(out@) == last_per_uid(pv.take(i as int)),
        decreases pods.len() - i,
    {
        let ghost before = pod_views(out@);
        assert(pv.take(i + 1).drop_last() == pv.take(i as int));
        assert(pv.take(i + 1).last() == pods@[i as int]@);
        proof {
            lemma_uid_position(pod_views(out@), pods@[i as int].uid@);
        }
        match find_uid(&out, pods[i].uid.as_str()) {
            Some(j) => {
                let ghost old_out = out@;
                out.remove(j);
                assert(pod_views(out@) =~= before.remove(j as int));
            },
            None => {},
        }
        let ghost mid = out@;
        out.push(copy_pod(&pods[i]));
        assert(pod_views(out@) =~= pod_views(mid).push(pods@[i as int]@));
        i = i + 1;
    }
    assert(pv.take(pods@.len() as int) == pv);
    out
}

/// In-memory snapshot of the objects of the last discovery cycle.
///
/// The pods are keyed by identifier, one per identifier: a later pod with the
/// same identifier takes the place of an earlier one (as in a map keyed by
/// identifier). Each index is an association list from a key to the
/// identifiers of the discovered pods under it, in discovery order.
#[derive(Clone, Debug)]
pub struct K8sRuntimeState {
    pub last_discovered_at: Option<UtcTime>,
    pub last_error_at: Option<UtcTime>,
    pub nodes: Vec<String>,
    pub namespaces: Vec<String>,
    pub deployments: Vec<String>,
    pub pods: Vec<RuntimePod>,
    /// namespace → pod identifiers
    pub pods_by_namespace: Vec<(String, Vec<String>)>,
    /// node → pod identifiers
    pub pods_by_node: Vec<(String, Vec<String>)>,
    /// deployment → pod identifiers
    pub pods_by_deployment: Vec<(String, Vec<String>)>,
    pub last_error_message: Option<String>,
}

/// The snapshot as values.
pub struct K8sStateView {
    pub last_discovered_at: Option<UtcTime>,
    pub last_error_at: Option<UtcTime>,
    pub nodes: Seq<Seq<char>>,
    pub namespaces: Seq<Seq<char>>,
    pub deployments: Seq<Seq<char>>,
    pub pods: Seq<RuntimePodView>,
    pub by_namespace: Seq<(Seq<char>, Seq<Seq<char>>)>,
    pub by_node: Seq<(Seq<char>, Seq<Seq<char>>)>,
    pub by_deployment: Seq<(Seq<char>, Seq<Seq<char>>)>,
    pub last_error_message: Option<Seq<char>>,
}

impl View for K8sRuntimeState {
    type V = K8sStateView;

    open spec fn view(&self) -> K8sStateView {
        K8sStateView {
            last_discovered_at: self.last_discovered_at,
            last_error_at: self.last_error_at,
            nodes: views(self.nodes@),
            namespaces: views(self.namespaces@),
            deployments: views(self.deployments@),
            pods: pod_views(self.pods@),
            by_namespace: index_views(self.pods_by_namespace@),
            by_node: index_views(self.pods_by_node@),
            by_deployment: index_views(self.pods_by_deployment@),
            last_error_message: match self.last_error_message {
                Some(m) => Some(m@),
                None => None,
            },
        }
    }
}

/// The indexes of `st` index its pods.
pub open spec fn indexes_consistent(st: K8sStateView) -> bool {
    &&& index_of(st.by_namespace, st.pods, PodIndex::Namespace)
    &&& index_of(st.by_node, st.pods, PodIndex::Node)
    &&& index_of(st.by_deployment, st.pods, PodIndex::Deployment)
}

/// The index of `st` under `which`.
pub open spec fn index_view(st: K8sStateView, which: PodIndex) -> Seq<(Seq<char>, Seq<Seq<char>>)> {
    match which {
        PodIndex::Namespace => st.by_namespace,
        PodIndex::Node => st.by_node,
        PodIndex::Deployment => st.by_deployment,
    }
}

/// The pod with identifier `uid`: the last one discovered with it.
pub open spec fn pod_by_uid(pods: Seq<RuntimePodView>, uid: Seq<char>) -> Option<RuntimePodView>
    decreases pods.len(),
{
    if pods.len() == 0 {
        None
    } else if pods.last().uid == uid {
        Some(pods.last())
    } else {
        pod_by_uid(pods.drop_last(), uid)
    }
}

/// The empty snapshot: nothing discovered, no error.
pub open spec fn empty_k8s_state(st: K8sStateView) -> bool {
    &&& st.last_discovered_at is None
    &&& st.last_error_at is None
    &&& st.nodes.len() == 0
    &&& st.namespaces.len() == 0
    &&& st.deployments.len() == 0
    &&& st.pods.len() == 0
    &&& st.by_namespace.len() == 0
    &&& st.by_node.len() == 0
    &&& st.by_deployment.len() == 0
    &&& st.last_error_message is None
}

impl Default for K8sRuntimeState {
    /// The empty snapshot.
    fn default() -> (s: Self)
        ensures
            empty_k8s_state(s@),
            indexes_consistent(s@),
    {
        let s = K8sRuntimeState {
            last_discovered_at: None,
            last_error_at: None,
            nodes: Vec::new(),
            namespaces: Vec::new(),
            deployments: Vec::new(),
            pods: Vec::new(),
            pods_by_namespace: Vec::new(),
            pods_by_node: Vec::new(),
            pods_by_deployment: Vec::new(),
            last_error_message: None,
        };
        assert(s@.pods =~= Seq::<RuntimePodView>::empty());
        s
    }
}

impl K8sRuntimeState {
    /// Replaces the snapshot with the objects of a discovery cycle finished at
    /// `now`, rebuilding the indexes and clearing the last error.
    pub fn update_at(&mut self, nodes: Vec<String>, namespaces: Vec<String>, deployments: Vec<String>, pods: Vec<RuntimePod>, now: UtcTime)
        ensures
            final(self)@.nodes == views(nodes@),
            final(self)@.namespaces == views(namespaces@),
            final(self)@.deployments == views(deployments@),
            final(self)@.pods == last_per_uid(pod_views(pods@)),
            uids_distinct(final(self)@.pods),
            forall|uid: Seq<char>| #[trigger] pod_by_uid(final(self)@.pods, uid) == pod_by_uid(pod_views(pods@), uid),
            index_of(final(self)@.by_namespace, pod_views(pods@), PodIndex::Namespace),
            index_of(final(self)@.by_node, pod_views(pods@), PodIndex::Node),
            index_of(final(self)@.by_deployment, pod_views(pods@), PodIndex::Deployment),
            uids_distinct(pod_views(pods@)) ==> indexes_consistent(final(self)@),
            final(self)@.last_discovered_at == Some(now),
            final(self)@.last_error_at is None,
            final(self)@.last_error_message is None,
    {
        self.pods_by_namespace = build_index(&pods, PodIndex::Namespace);
        self.pods_by_node = build_index(&pods, PodIndex::Node);
        self.pods_by_deployment = build_index(&pods, PodIndex::Deployment);
        self.nodes = nodes;
        self.namespaces = namespaces;
        self.deployments = deployments;
        self.pods = keep_last_per_uid(&pods);
        proof {
            lemma_last_per_uid(pod_views(pods@));
            if uids_distinct(pod_views(pods@)) {
                lemma_last_per_uid_distinct(pod_views(pods@));
            }
        }
        self.last_discovered_at = Some(now);
        self.last_error_at = None;
        self.last_error_message = None;
    }

    /// Replaces the snapshot with the objects of a discovery cycle finished now.
    pub fn update(&mut self, nodes: Vec<String>, namespaces: Vec<String>, deployments: Vec<String>, pods: Vec<RuntimePod>)
        ensures
            final(self)@.nodes == views(nodes@),
            final(self)@.namespaces == views(namespaces@),
            final(self)@.deployments == views(deployments@),
            final(self)@.pods == last_per_uid(pod_views(pods@)),
            uids_distinct(final(self)@.pods),
            forall|uid: Seq<char>| #[trigger] pod_by_uid(final(self)@.pods, uid) == pod_by_uid(pod_views(pods@), uid),
            index_of(final(self)@.by_namespace, pod_views(pods@), PodIndex::Namespace),
            index_of(final(self)@.by_node, pod_views(pods@), PodIndex::Node),
            index_of(final(self)@.by_deployment, pod_views(pods@), PodIndex::Deployment),
            uids_distinct(pod_views(pods@)) ==> indexes_consistent(final(self)@),
            final(self)@.last_discovered_at is Some,
            final(self)@.last_error_at is None,
            final(self)@.last_error_message is None,
    {
        self.update_at(nodes, namespaces, deployments, pods, utc_now());
    }

    /// Records a discovery error at `now`, leaving the objects alone.
    pub fn mark_error_at(&mut self, msg: String, now: UtcTime)
        ensures
            (final(self)@ == K8sStateView {
                last_error_message: Some(msg@),
                last_error_at: Some(now),
                ..old(self)@
            }),
    {
        self.last_error_message = Some(msg);
        self.last_error_at = Some(now);
    }

    /// Records a discovery error now, leaving the objects alone.
    pub fn mark_error(&mut self, msg: String)
        ensures
            (final(self)@ == K8sStateView {
                last_error_message: Some(msg@),
                last_error_at: final(self)@.last_error_at,
                ..old(self)@
            }),
            final(self)@.last_error_at is Some,
    {
        self.mark_error_at(msg, utc_now());
    }

    /// Resets the snapshot to the empty one.
    pub fn reset(&mut self)
        ensures
            empty_k8s_state(final(self)@),
            indexes_consistent(final(self)@),
    {
        *self = Self::default();
    }

    /// The pod with identifier `uid` (the last one discovered with it).
    pub fn get_pod(&self, uid: &str) -> (r: Option<&RuntimePod>)
        ensures
            match r {
                Some(p) => pod_by_uid(self@.pods, uid@) == Some(p@),
                None => pod_by_uid(self@.pods, uid@) is None,
            },
    {
        let ghost pv = self@.pods;
        let mut i = self.pods.len();
        assert(pv.take(i as int) == pv);
        while i > 0
            invariant
                0 <= i <= self.pods@.len(),
                pv == self@.pods,
                pod_by_uid(pv, uid@) == pod_by_uid(pv.take(i as int), uid@),
            decreases i,
        {
            assert(pv.take(i as int).last() == self.pods@[i - 1]@);
            assert(pv.take(i as int).drop_last() == pv.take(i - 1));
            if str_eq(self.pods[i - 1].uid.as_str(), uid) {
                return Some(&self.pods[i - 1]);
            }
            i = i - 1;
        }
        None
    }

    /// Identifiers of the pods under `key` in the index `which`, read from the
    /// index (none where it has no entry for `key`); in a consistent snapshot
    /// they are those of the pods with that key, in discovery order.
    pub fn pods_under(&self, which: PodIndex, key: &str) -> (r: Vec<String>)
        ensures
            views(r@) == index_lookup(index_view(self@, which), key@),
            indexes_consistent(self@) ==> views(r@) == uids_under(self@.pods, which, key@),
    {
        let l = match which {
            PodIndex::Namespace => &self.pods_by_namespace,
            PodIndex::Node => &self.pods_by_node,
            PodIndex::Deployment => &self.pods_by_deployment,
        };
        assert(index_views(l@) == index_view(self@, which));
        let ghost lv = index_views(l@);
        let ghost pv = self@.pods;
        match find_entry(l, key) {
            Some(j) => {
                assert(lv[j as int] == entry_view(l@[j as int]));
                let src = &l[j].1;
                let mut out: Vec<String> = Vec::new();
                let mut k: usize = 0;
                while k < src.len()
                    invariant
                        0 <= k <= src@.len(),
                        views(out@) == views(src@).take(k as int),
                    decreases src.len() - k,
                {
                    let ghost old_out = out@;
                    out.push(src[k].clone());
                    assert(out@.drop_last() =~= old_out);
                    assert(views(out@) =~= views(old_out).push(src@[k as int]@));
                    assert(views(src@).take(k + 1) =~= views(src@).take(k as int).push(src@[k as int]@));
                    k = k + 1;
                }
                assert(views(src@).take(src@.len() as int) == views(src@));
                assert(views(src@) == lv[j as int].1);
                proof {
                    assert forall|a: int| 0 <= a < j implies (#[trigger] lv[a]).0 != key@ by {
                        assert(lv[a] == entry_view(l@[a]));
                    }
                    lemma_index_lookup_at(lv, key@, j as int);
                    if indexes_consistent(self@) {
                        assert(lv[j as int].1 == uids_under(pv, which, lv[j as int].0));
                    }
                }
                out
            },
            None => {
                proof {
                    assert forall|a: int| 0 <= a < lv.len() implies (#[trigger] lv[a]).0 != key@ by {
                        assert(lv[a] == entry_view(l@[a]));
                    }
                    lemma_index_lookup_absent(lv, key@);
                    if indexes_consistent(self@) {
                        assert forall|q: int| 0 <= q < pv.len() implies index_key(#[trigger] pv[q], which) != Some(key@) by {
                            if index_key(pv[q], which) == Some(key@) {
                                let a = choose|a: int| 0 <= a < lv.len() && lv[a].0 == index_key(#[trigger] pv[q], which).unwrap();
                                assert(lv[a] == entry_view(l@[a]));
                            }
                        }
                        lemma_uids_under_absent(pv, which, key@);
                    }
                }
                let out: Vec<String> = Vec::new();
                assert(views(out@) =~= Seq::<Seq<char>>::empty());
                out
            },
        }
    }
}

/// In a consistent snapshot, an index lists `uid` under `key` exactly where
/// some discovered pod with identifier `uid` has that key.
pub proof fn lemma_index_lists_exactly_the_pods(st: K8sStateView, which: PodIndex, key: Seq<char>, uid: Seq<char>)
    requires
        indexes_consistent(st),
    ensures
        (exists|a: int| 0 <= a < index_view(st, which).len() && (#[trigger] index_view(st, which)[a]).0 == key
            && index_view(st, which)[a].1.contains(uid))
        <==> (exists|i: int| 0 <= i < st.pods.len() && (#[trigger] st.pods[i]).uid == uid && index_key(st.pods[i], which) == Some(key)),
{
    let l = index_view(st, which);
    let pods = st.pods;
    assert(index_of(l, pods, which));
    lemma_uids_under_members(pods, which, key, uid);
    if exists|a: int| 0 <= a < l.len() && (#[trigger] l[a]).0 == key && l[a].1.contains(uid) {
        let a = choose|a: int| 0 <= a < l.len() && (#[trigger] l[a]).0 == key && l[a].1.contains(uid);
        assert(l[a].1 == uids_under(pods, which, l[a].0));
    }
    if exists|i: int| 0 <= i < pods.len() && (#[trigger] pods[i]).uid == uid && index_key(pods[i], which) == Some(key) {
        let i = choose|i: int| 0 <= i < pods.len() && (#[trigger] pods[i]).uid == uid && index_key(pods[i], which) == Some(key);
        let a = choose|a: int| 0 <= a < l.len() && l[a].0 == index_key(#[trigger] pods[i], which).unwrap();
        assert(l[a].1 == uids_under(pods, which, l[a].0));
        assert(l[a].0 == key);
    }
}

/// Manager of the runtime cluster snapshot, over the repository that holds it.
pub struct K8sRuntimeStateManager<R> {
    pub repo: Arc<R>,
}

impl<R> K8sRuntimeStateManager<R> {
    /// A manager over `repo`.
    pub fn new(repo: Arc<R>) -> (m: Self)
        ensures
            m.repo == repo,
    {
        Self { repo }
    }
}

} // verus!
