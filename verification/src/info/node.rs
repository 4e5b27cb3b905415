//! Stored information about a Kubernetes node.
use vstd::prelude::*;
use crate::time::UtcTime;
use crate::info::{either, or_else, taken};

verus! {

/// Billing period of a node's fixed price.
#[derive(Clone, Copy, Debug, PartialEq, Eq, Structural)]
pub enum NodePricePeriod {
    /// Unit-based pricing (CPU-hour, GB-hour, ...).
    Unit,
    /// Fixed price per hour.
    Hour,
    /// Fixed price per day.
    Day,
    /// Fixed price per month.
    Month,
}

/// Static and runtime information about a Kubernetes node.
#[derive(Clone, Debug)]
pub struct InfoNodeEntity {
    pub node_name: Option<String>,
    pub node_uid: Option<String>,
    pub creation_timestamp: Option<UtcTime>,
    pub resource_version: Option<String>,
    pub last_updated_info_at: Option<UtcTime>,
    pub deleted: Option<bool>,
    pub last_check_deleted_count: Option<u64>,
    pub hostname: Option<String>,
    pub internal_ip: Option<String>,
    pub architecture: Option<String>,
    pub os_image: Option<String>,
    pub kernel_version: Option<String>,
    pub kubelet_version: Option<String>,
    pub container_runtime: Option<String>,
    pub operating_system: Option<String>,
    pub cpu_capacity_cores: Option<u32>,
    pub memory_capacity_bytes: Option<u64>,
    pub pod_capacity: Option<u32>,
    pub ephemeral_storage_capacity_bytes: Option<u64>,
    pub cpu_allocatable_cores: Option<u32>,
    pub memory_allocatable_bytes: Option<u64>,
    pub ephemeral_storage_allocatable_bytes: Option<u64>,
    pub pod_allocatable: Option<u32>,
    pub ready: Option<bool>,
    pub taints: Option<String>,
    /// Labels flattened to text.
    pub label: Option<String>,
    /// Annotations flattened to text.
    pub annotation: Option<String>,
    pub image_count: Option<u32>,
    pub image_names: Option<Vec<String>>,
    pub image_total_size_bytes: Option<u64>,
    /// Fixed price of the node in USD, as the bit pattern of an `f64` (`f64::to_bits`).
    pub fixed_instance_usd: Option<u64>,
    /// Billing period of `fixed_instance_usd`.
    pub price_period: Option<NodePricePeriod>,
    /// Team that owns it (kept locally).
    pub team: Option<String>,
    /// Service it belongs to (kept locally).
    pub service: Option<String>,
    /// Environment: "dev", "stage", "prod" (kept locally).
    pub env: Option<String>,
}

/// The entity with every field absent.
pub open spec fn node_empty() -> InfoNodeEntity {
    InfoNodeEntity {
        node_name: None,
        node_uid: None,
        creation_timestamp: None,
        resource_version: None,
        last_updated_info_at: None,
        deleted: None,
        last_check_deleted_count: None,
        hostname: None,
        internal_ip: None,
        architecture: None,
        os_image: None,
        kernel_version: None,
        kubelet_version: None,
        container_runtime: None,
        operating_system: None,
        cpu_capacity_cores: None,
        memory_capacity_bytes: None,
        pod_capacity: None,
        ephemeral_storage_capacity_bytes: None,
        cpu_allocatable_cores: None,
        memory_allocatable_bytes: None,
        ephemeral_storage_allocatable_bytes: None,
        pod_allocatable: None,
        ready: None,
        taints: None,
        label: None,
        annotation: None,
        image_count: None,
        image_names: None,
        image_total_size_bytes: None,
        fixed_instance_usd: None,
        price_period: None,
        team: None,
        service: None,
        env: None,
    }
}

/// `old` updated from `newer`: every field, the user-managed price and team fields included, goes by the same rule.
pub open spec fn node_merged(old: InfoNodeEntity, newer: InfoNodeEntity) -> InfoNodeEntity {
    InfoNodeEntity {
        node_name: or_else(newer.node_name, old.node_name),
        node_uid: or_else(newer.node_uid, old.node_uid),
        creation_timestamp: or_else(newer.creation_timestamp, old.creation_timestamp),
        resource_version: or_else(newer.resource_version, old.resource_version),
        last_updated_info_at: or_else(newer.last_updated_info_at, old.last_updated_info_at),
        deleted: or_else(newer.deleted, old.deleted),
        last_check_deleted_count: or_else(newer.last_check_deleted_count, old.last_check_deleted_count),
        hostname: or_else(newer.hostname, old.hostname),
        internal_ip: or_else(newer.internal_ip, old.internal_ip),
        architecture: or_else(newer.architecture, old.architecture),
        os_image: or_else(newer.os_image, old.os_image),
        kernel_version: or_else(newer.kernel_version, old.kernel_version),
        kubelet_version: or_else(newer.kubelet_version, old.kubelet_version),
        container_runtime: or_else(newer.container_runtime, old.container_runtime),
        operating_system: or_else(newer.operating_system, old.operating_system),
        cpu_capacity_cores: or_else(newer.cpu_capacity_cores, old.cpu_capacity_cores),
        memory_capacity_bytes: or_else(newer.memory_capacity_bytes, old.memory_capacity_bytes),
        pod_capacity: or_else(newer.pod_capacity, old.pod_capacity),
        ephemeral_storage_capacity_bytes: or_else(newer.ephemeral_storage_capacity_bytes, old.ephemeral_storage_capacity_bytes),
        cpu_allocatable_cores: or_else(newer.cpu_allocatable_cores, old.cpu_allocatable_cores),
        memory_allocatable_bytes: or_else(newer.memory_allocatable_bytes, old.memory_allocatable_bytes),
        ephemeral_storage_allocatable_bytes: or_else(newer.ephemeral_storage_allocatable_bytes, old.ephemeral_storage_allocatable_bytes),
        pod_allocatable: or_else(newer.pod_allocatable, old.pod_allocatable),
        ready: or_else(newer.ready, old.ready),
        taints: or_else(newer.taints, old.taints),
        label: or_else(newer.label, old.label),
        annotation: or_else(newer.annotation, old.annotation),
        image_count: or_else(newer.image_count, old.image_count),
        image_names: or_else(newer.image_names, old.image_names),
        image_total_size_bytes: or_else(newer.image_total_size_bytes, old.image_total_size_bytes),
        fixed_instance_usd: or_else(newer.fixed_instance_usd, old.fixed_instance_usd),
        price_period: or_else(newer.price_period, old.price_period),
        team: or_else(newer.team, old.team),
        service: or_else(newer.service, old.service),
        env: or_else(newer.env, old.env),
    }
}

impl Default for InfoNodeEntity {
    fn default() -> (e: Self)
        ensures
            e == node_empty(),
    {
        InfoNodeEntity {
            node_name: None,
            node_uid: None,
            creation_timestamp: None,
            resource_version: None,
            last_updated_info_at: None,
            deleted: None,
            last_check_deleted_count: None,
            hostname: None,
            internal_ip: None,
            architecture: None,
            os_image: None,
            kernel_version: None,
            kubelet_version: None,
            container_runtime: None,
            operating_system: None,
            cpu_capacity_cores: None,
            memory_capacity_bytes: None,
            pod_capacity: None,
            ephemeral_storage_capacity_bytes: None,
            cpu_allocatable_cores: None,
            memory_allocatable_bytes: None,
            ephemeral_storage_allocatable_bytes: None,
            pod_allocatable: None,
            ready: None,
            taints: None,
            label: None,
            annotation: None,
            image_count: None,
            image_names: None,
            image_total_size_bytes: None,
            fixed_instance_usd: None,
            price_period: None,
            team: None,
            service: None,
            env: None,
        }
    }
}

impl InfoNodeEntity {
    /// Takes every field that `newer` holds; every field, the user-managed price and team fields included, goes by the same rule.
    pub fn merge_from(&mut self, newer: InfoNodeEntity)
        ensures
            *final(self) == node_merged(*old(self), newer),
    {
        self.node_name = either(newer.node_name, self.node_name.take());
        self.node_uid = either(newer.node_uid, self.node_uid.take());
        self.creation_timestamp = either(newer.creation_timestamp, self.creation_timestamp.take());
        self.resource_version = either(newer.resource_version, self.resource_version.take());
        self.last_updated_info_at = either(newer.last_updated_info_at, self.last_updated_info_at.take());
        self.deleted = either(newer.deleted, self.deleted.take());
        self.last_check_deleted_count = either(newer.last_check_deleted_count, self.last_check_deleted_count.take());
        self.hostname = either(newer.hostname, self.hostname.take());
        self.internal_ip = either(newer.internal_ip, self.internal_ip.take());
        self.architecture = either(newer.architecture, self.architecture.take());
        self.os_image = either(newer.os_image, self.os_image.take());
        self.kernel_version = either(newer.kernel_version, self.kernel_version.take());
        self.kubelet_version = either(newer.kubelet_version, self.kubelet_version.take());
        self.container_runtime = either(newer.container_runtime, self.container_runtime.take());
        self.operating_system = either(newer.operating_system, self.operating_system.take());
        self.cpu_capacity_cores = either(newer.cpu_capacity_cores, self.cpu_capacity_cores.take());
        self.memory_capacity_bytes = either(newer.memory_capacity_bytes, self.memory_capacity_bytes.take());
        self.pod_capacity = either(newer.pod_capacity, self.pod_capacity.take());
        self.ephemeral_storage_capacity_bytes = either(newer.ephemeral_storage_capacity_bytes, self.ephemeral_storage_capacity_bytes.take());
        self.cpu_allocatable_cores = either(newer.cpu_allocatable_cores, self.cpu_allocatable_cores.take());
        self.memory_allocatable_bytes = either(newer.memory_allocatable_bytes, self.memory_allocatable_bytes.take());
        self.ephemeral_storage_allocatable_bytes = either(newer.ephemeral_storage_allocatable_bytes, self.ephemeral_storage_allocatable_bytes.take());
        self.pod_allocatable = either(newer.pod_allocatable, self.pod_allocatable.take());
        self.ready = either(newer.ready, self.ready.take());
        self.taints = either(newer.taints, self.taints.take());
        self.label = either(newer.label, self.label.take());
        self.annotation = either(newer.annotation, self.annotation.take());
        self.image_count = either(newer.image_count, self.image_count.take());
        self.image_names = either(newer.image_names, self.image_names.take());
        self.image_total_size_bytes = either(newer.image_total_size_bytes, self.image_total_size_bytes.take());
        self.fixed_instance_usd = either(newer.fixed_instance_usd, self.fixed_instance_usd.take());
        self.price_period = either(newer.price_period, self.price_period.take());
        self.team = either(newer.team, self.team.take());
        self.service = either(newer.service, self.service.take());
        self.env = either(newer.env, self.env.take());
    }
}

/// Merging an entity that holds nothing changes nothing.
pub proof fn lemma_node_merge_empty(e: InfoNodeEntity)
    ensures
        node_merged(e, node_empty()) == e,
{
}

/// Merging the same update twice is merging it once.
pub proof fn lemma_node_merge_idempotent(a: InfoNodeEntity, b: InfoNodeEntity)
    ensures
        node_merged(node_merged(a, b), b) == node_merged(a, b),
{
}

/// The locally kept team, service and environment survive an update that
/// does not name them.
pub proof fn lemma_node_merge_keeps_local(a: InfoNodeEntity, b: InfoNodeEntity)
    ensures
        b.team is None ==> node_merged(a, b).team == a.team,
        b.service is None ==> node_merged(a, b).service == a.service,
        b.env is None ==> node_merged(a, b).env == a.env,
{
}

/// Merging takes every field that the newer value holds and keeps every
/// field that it lacks.
pub proof fn lemma_node_merge_fields(old: InfoNodeEntity, newer: InfoNodeEntity)
    ensures
        taken(node_merged(old, newer).node_name, old.node_name, newer.node_name),
        taken(node_merged(old, newer).node_uid, old.node_uid, newer.node_uid),
        taken(node_merged(old, newer).creation_timestamp, old.creation_timestamp, newer.creation_timestamp),
        taken(node_merged(old, newer).resource_version, old.resource_version, newer.resource_version),
        taken(node_merged(old, newer).last_updated_info_at, old.last_updated_info_at, newer.last_updated_info_at),
        taken(node_merged(old, newer).deleted, old.deleted, newer.deleted),
        taken(node_merged(old, newer).last_check_deleted_count, old.last_check_deleted_count, newer.last_check_deleted_count),
        taken(node_merged(old, newer).hostname, old.hostname, newer.hostname),
        taken(node_merged(old, newer).internal_ip, old.internal_ip, newer.internal_ip),
        taken(node_merged(old, newer).architecture, old.architecture, newer.architecture),
        taken(node_merged(old, newer).os_image, old.os_image, newer.os_image),
        taken(node_merged(old, newer).kernel_version, old.kernel_version, newer.kernel_version),
        taken(node_merged(old, newer).kubelet_version, old.kubelet_version, newer.kubelet_version),
        taken(node_merged(old, newer).container_runtime, old.container_runtime, newer.container_runtime),
        taken(node_merged(old, newer).operating_system, old.operating_system, newer.operating_system),
        taken(node_merged(old, newer).cpu_capacity_cores, old.cpu_capacity_cores, newer.cpu_capacity_cores),
        taken(node_merged(old, newer).memory_capacity_bytes, old.memory_capacity_bytes, newer.memory_capacity_bytes),
        taken(node_merged(old, newer).pod_capacity, old.pod_capacity, newer.pod_capacity),
        taken(node_merged(old, newer).ephemeral_storage_capacity_bytes, old.ephemeral_storage_capacity_bytes, newer.ephemeral_storage_capacity_bytes),
        taken(node_merged(old, newer).cpu_allocatable_cores, old.cpu_allocatable_cores, newer.cpu_allocatable_cores),
        taken(node_merged(old, newer).memory_allocatable_bytes, old.memory_allocatable_bytes, newer.memory_allocatable_bytes),
        taken(node_merged(old, newer).ephemeral_storage_allocatable_bytes, old.ephemeral_storage_allocatable_bytes, newer.ephemeral_storage_allocatable_bytes),
        taken(node_merged(old, newer).pod_allocatable, old.pod_allocatable, newer.pod_allocatable),
        taken(node_merged(old, newer).ready, old.ready, newer.ready),
        taken(node_merged(old, newer).taints, old.taints, newer.taints),
        taken(node_merged(old, newer).label, old.label, newer.label),
        taken(node_merged(old, newer).annotation, old.annotation, newer.annotation),
        taken(node_merged(old, newer).image_count, old.image_count, newer.image_count),
        taken(node_merged(old, newer).image_names, old.image_names, newer.image_names),
        taken(node_merged(old, newer).image_total_size_bytes, old.image_total_size_bytes, newer.image_total_size_bytes),
        taken(node_merged(old, newer).fixed_instance_usd, old.fixed_instance_usd, newer.fixed_instance_usd),
        taken(node_merged(old, newer).price_period, old.price_period, newer.price_period),
        taken(node_merged(old, newer).team, old.team, newer.team),
        taken(node_merged(old, newer).service, old.service, newer.service),
        taken(node_merged(old, newer).env, old.env, newer.env),
{
}

} // verus!
