//! The parts of Kubernetes objects that the mappings read, as plain values.
//!
//! Maps of the API (`BTreeMap<String, String>`, `BTreeMap<String, Quantity>`)
//! are held as their entries in ascending key order ([`keys_ascending`]); the
//! mappings require it, and [`pod_maps_in_key_order`] and
//! [`node_maps_in_key_order`] test it.
use vstd::prelude::*;
use crate::time::UtcTime;
use crate::text::chars_of;

verus! {

/// An owner reference of an object.
#[derive(Clone, Debug)]
pub struct OwnerRefSource {
    pub kind: String,
    pub name: String,
    pub uid: String,
}

/// Object metadata.
#[derive(Clone, Debug)]
pub struct ObjectMetaSource {
    pub name: Option<String>,
    pub namespace: Option<String>,
    pub uid: Option<String>,
    pub resource_version: Option<String>,
    pub creation_timestamp: Option<UtcTime>,
    pub labels: Option<Vec<(String, String)>>,
    pub annotations: Option<Vec<(String, String)>>,
    pub owner_references: Option<Vec<OwnerRefSource>>,
}

/// A condition of a pod or node status: its type and its status text.
#[derive(Clone, Debug)]
pub struct ConditionSource {
    pub kind: String,
    pub status: String,
}

/// A container of a pod spec.
#[derive(Clone, Debug)]
pub struct ContainerSource {
    pub name: String,
    pub image: Option<String>,
    /// `container_port` of each declared port.
    pub ports: Option<Vec<i32>>,
    /// `mount_path` of each volume mount.
    pub mount_paths: Option<Vec<String>>,
}

/// A volume of a pod spec.
#[derive(Clone, Debug)]
pub struct VolumeSource {
    pub name: String,
    /// `claim_name` of its persistent volume claim, if it is one.
    pub claim_name: Option<String>,
}

/// A toleration of a pod spec.
#[derive(Clone, Debug)]
pub struct TolerationSource {
    pub key: Option<String>,
    pub operator: Option<String>,
    pub value: Option<String>,
    pub effect: Option<String>,
    pub toleration_seconds: Option<i64>,
}

/// A pod spec.
#[derive(Clone, Debug)]
pub struct PodSpecSource {
    pub node_name: Option<String>,
    pub containers: Vec<ContainerSource>,
    pub restart_policy: Option<String>,
    pub scheduler_name: Option<String>,
    pub service_account_name: Option<String>,
    pub volumes: Option<Vec<VolumeSource>>,
    pub termination_grace_period_seconds: Option<i64>,
    pub tolerations: Option<Vec<TolerationSource>>,
}

/// A container status of a pod status.
#[derive(Clone, Debug)]
pub struct ContainerStatusSource {
    pub restart_count: i32,
    pub container_id: Option<String>,
    pub image_id: String,
    /// `started_at` of its running state, if it is running with one.
    pub running_started_at: Option<UtcTime>,
}

/// A pod status.
#[derive(Clone, Debug)]
pub struct PodStatusSource {
    pub start_time: Option<UtcTime>,
    pub host_ip: Option<String>,
    pub pod_ip: Option<String>,
    /// `ip` of each entry of `pod_ips`.
    pub pod_ips: Option<Vec<String>>,
    pub qos_class: Option<String>,
    pub phase: Option<String>,
    pub conditions: Option<Vec<ConditionSource>>,
    pub container_statuses: Option<Vec<ContainerStatusSource>>,
}

/// A pod.
#[derive(Clone, Debug)]
pub struct PodSource {
    pub metadata: ObjectMetaSource,
    pub spec: Option<PodSpecSource>,
    pub status: Option<PodStatusSource>,
}

/// An address of a node: its type and the address.
#[derive(Clone, Debug)]
pub struct NodeAddressSource {
    pub kind: String,
    pub address: String,
}

/// The system information of a node.
#[derive(Clone, Debug)]
pub struct NodeSystemInfoSource {
    pub architecture: String,
    pub os_image: String,
    pub kernel_version: String,
    pub kubelet_version: String,
    pub container_runtime_version: String,
    pub operating_system: String,
}

/// A taint of a node spec.
#[derive(Clone, Debug)]
pub struct TaintSource {
    pub key: String,
    pub value: Option<String>,
    pub effect: String,
}

/// A container image present on a node.
#[derive(Clone, Debug)]
pub struct ContainerImageSource {
    pub names: Option<Vec<String>>,
    pub size_bytes: Option<i64>,
}

/// A node status.
#[derive(Clone, Debug)]
pub struct NodeStatusSource {
    pub addresses: Option<Vec<NodeAddressSource>>,
    pub node_info: Option<NodeSystemInfoSource>,
    /// Capacity quantities by resource name.
    pub capacity: Option<Vec<(String, String)>>,
    /// Allocatable quantities by resource name.
    pub allocatable: Option<Vec<(String, String)>>,
    pub conditions: Option<Vec<ConditionSource>>,
    pub images: Option<Vec<ContainerImageSource>>,
}

/// A node.
#[derive(Clone, Debug)]
pub struct NodeSource {
    pub metadata: ObjectMetaSource,
    /// The taints of its spec, where it has a spec with taints.
    pub taints: Option<Vec<TaintSource>>,
    pub status: Option<NodeStatusSource>,
}

// ---------------------------------------------------------------------------
// Key order of the maps
// ---------------------------------------------------------------------------

/// `a` sorts before `b` as a `String` key of a `BTreeMap` does: byte order of
/// the UTF-8 text, which is the order of the characters' code points.
pub open spec fn text_lt(a: Seq<char>, b: Seq<char>) -> bool
    decreases a.len(),
{
    if a.len() == 0 {
        b.len() > 0
    } else if b.len() == 0 {
        false
    } else if a[0] != b[0] {
        (a[0] as u32) < (b[0] as u32)
    } else {
        text_lt(a.skip(1), b.skip(1))
    }
}

/// The keys of the entries ascend strictly, as those of a `BTreeMap` do.
pub open spec fn keys_ascending(entries: Seq<(String, String)>) -> bool {
    forall|i: int| 0 <= i < entries.len() - 1 ==> text_lt(#[trigger] entries[i].0@, entries[i + 1].0@)
}

/// An optional map whose keys ascend strictly.
pub open spec fn opt_keys_ascending(m: Option<Vec<(String, String)>>) -> bool {
    match m {
        Some(v) => keys_ascending(v@),
        None => true,
    }
}

/// The labels and annotations of an object are in key order.
pub open spec fn meta_maps_ascending(m: ObjectMetaSource) -> bool {
    opt_keys_ascending(m.labels) && opt_keys_ascending(m.annotations)
}

/// The maps of a pod are in key order.
pub open spec fn pod_maps_ascending(p: PodSource) -> bool {
    meta_maps_ascending(p.metadata)
}

/// The maps of a node are in key order.
pub open spec fn node_maps_ascending(n: NodeSource) -> bool {
    &&& meta_maps_ascending(n.metadata)
    &&& match n.status {
        Some(st) => opt_keys_ascending(st.capacity) && opt_keys_ascending(st.allocatable),
        None => true,
    }
}

/// Whether `a` sorts before `b` as map keys.
pub fn text_lt_exec(a: &str, b: &str) -> (r: bool)
    ensures
        r == text_lt(a@, b@),
{
    let ca = chars_of(a);
    let cb = chars_of(b);
    let mut k: usize = 0;
    assert(a@.skip(0) == a@);
    assert(b@.skip(0) == b@);
    while k < ca.len() && k < cb.len()
        invariant
            ca@ == a@,
            cb@ == b@,
            0 <= k <= ca@.len(),
            0 <= k <= cb@.len(),
            text_lt(a@, b@) == text_lt(a@.skip(k as int), b@.skip(k as int)),
        decreases ca.len() - k,
    {
        let ghost sa = a@.skip(k as int);
        let ghost sb = b@.skip(k as int);
        assert(sa[0] == ca@[k as int]);
        assert(sb[0] == cb@[k as int]);
        if ca[k] != cb[k] {
            return (ca[k] as u32) < (cb[k] as u32);
        }
        assert(sa.skip(1) == a@.skip(k + 1));
        assert(sb.skip(1) == b@.skip(k + 1));
        k = k + 1;
    }
    assert(a@.skip(k as int).len() == 0 || b@.skip(k as int).len() == 0);
    k == ca.len() && k < cb.len()
}

/// Whether the keys of the entries ascend strictly.
pub fn keys_in_order(entries: &Vec<(String, String)>) -> (r: bool)
    ensures
        r == keys_ascending(entries@),
{
    let n = entries.len();
    if n == 0 {
        return true;
    }
    let mut i: usize = 0;
    while i + 1 < n
        invariant
            n == entries@.len(),
            n > 0,
            0 <= i < n,
            forall|j: int| 0 <= j < i ==> text_lt(#[trigger] entries@[j].0@, entries@[j + 1].0@),
        decreases n - i,
    {
        if !text_lt_exec(entries[i].0.as_str(), entries[i + 1].0.as_str()) {
            return false;
        }
        i = i + 1;
    }
    true
}

/// Whether an optional map is in key order.
fn opt_keys_in_order(m: &Option<Vec<(String, String)>>) -> (r: bool)
    ensures
        r == opt_keys_ascending(*m),
{
    match m {
        Some(v) => keys_in_order(v),
        None => true,
    }
}

/// Whether the labels and annotations of a pod are in key order, as the
/// API's maps give them.
pub fn pod_maps_in_key_order(p: &PodSource) -> (r: bool)
    ensures
        r == pod_maps_ascending(*p),
{
    opt_keys_in_order(&p.metadata.labels) && opt_keys_in_order(&p.metadata.annotations)
}

/// Whether the labels, annotations, capacity and allocatable quantities of a
/// node are in key order, as the API's maps give them.
pub fn node_maps_in_key_order(n: &NodeSource) -> (r: bool)
    ensures
        r == node_maps_ascending(*n),
{
    let meta = opt_keys_in_order(&n.metadata.labels) && opt_keys_in_order(&n.metadata.annotations);
    let status = match &n.status {
        Some(st) => opt_keys_in_order(&st.capacity) && opt_keys_in_order(&st.allocatable),
        None => true,
    };
    meta && status
}

} // verus!
