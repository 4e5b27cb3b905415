//! Stored information about a Kubernetes container.
use vstd::prelude::*;
use crate::time::UtcTime;
use crate::info::{either, or_else, taken};

verus! {

/// Static and runtime information about a Kubernetes container.
#[derive(Clone, Debug)]
pub struct InfoContainerEntity {
    pub pod_uid: Option<String>,
    pub pod_name: Option<String>,
    pub container_name: Option<String>,
    pub namespace: Option<String>,
    pub creation_timestamp: Option<UtcTime>,
    pub start_time: Option<UtcTime>,
    pub container_id: Option<String>,
    pub image: Option<String>,
    pub image_id: Option<String>,
    pub state: Option<String>,
    pub reason: Option<String>,
    pub message: Option<String>,
    pub exit_code: Option<i32>,
    pub restart_count: Option<i32>,
    pub ready: Option<bool>,
    pub node_name: Option<String>,
    pub host_ip: Option<String>,
    pub pod_ip: Option<String>,
    pub cpu_request_millicores: Option<u64>,
    pub memory_request_bytes: Option<u64>,
    pub cpu_limit_millicores: Option<u64>,
    pub memory_limit_bytes: Option<u64>,
    pub volume_mounts: Option<Vec<String>>,
    pub volume_devices: Option<Vec<String>>,
    pub labels: Option<String>,
    pub annotations: Option<String>,
    pub last_updated_info_at: Option<UtcTime>,
    pub deleted: Option<bool>,
    pub last_check_deleted_count: Option<u64>,
    /// Team that owns it (kept locally).
    pub team: Option<String>,
    /// Service it belongs to (kept locally).
    pub service: Option<String>,
    /// Environment: "dev", "stage", "prod" (kept locally).
    pub env: Option<String>,
}

/// The entity with every field absent.
pub open spec fn container_empty() -> InfoContainerEntity {
    InfoContainerEntity {
        pod_uid: None,
        pod_name: None,
        container_name: None,
        namespace: None,
        creation_timestamp: None,
        start_time: None,
        container_id: None,
        image: None,
        image_id: None,
        state: None,
        reason: None,
        message: None,
        exit_code: None,
        restart_count: None,
        ready: None,
        node_name: None,
        host_ip: None,
        pod_ip: None,
        cpu_request_millicores: None,
        memory_request_bytes: None,
        cpu_limit_millicores: None,
        memory_limit_bytes: None,
        volume_mounts: None,
        volume_devices: None,
        labels: None,
        annotations: None,
        last_updated_info_at: None,
        deleted: None,
        last_check_deleted_count: None,
        team: None,
        service: None,
        env: None,
    }
}

/// `old` updated from `newer`: every field goes by the same rule.
pub open spec fn container_merged(old: InfoContainerEntity, newer: InfoContainerEntity) -> InfoContainerEntity {
    InfoContainerEntity {
        pod_uid: or_else(newer.pod_uid, old.pod_uid),
        pod_name: or_else(newer.pod_name, old.pod_name),
        container_name: or_else(newer.container_name, old.container_name),
        namespace: or_else(newer.namespace, old.namespace),
        creation_timestamp: or_else(newer.creation_timestamp, old.creation_timestamp),
        start_time: or_else(newer.start_time, old.start_time),
        container_id: or_else(newer.container_id, old.container_id),
        image: or_else(newer.image, old.image),
        image_id: or_else(newer.image_id, old.image_id),
        state: or_else(newer.state, old.state),
        reason: or_else(newer.reason, old.reason),
        message: or_else(newer.message, old.message),
        exit_code: or_else(newer.exit_code, old.exit_code),
        restart_count: or_else(newer.restart_count, old.restart_count),
        ready: or_else(newer.ready, old.ready),
        node_name: or_else(newer.node_name, old.node_name),
        host_ip: or_else(newer.host_ip, old.host_ip),
        pod_ip: or_else(newer.pod_ip, old.pod_ip),
        cpu_request_millicores: or_else(newer.cpu_request_millicores, old.cpu_request_millicores),
        memory_request_bytes: or_else(newer.memory_request_bytes, old.memory_request_bytes),
        cpu_limit_millicores: or_else(newer.cpu_limit_millicores, old.cpu_limit_millicores),
        memory_limit_bytes: or_else(newer.memory_limit_bytes, old.memory_limit_bytes),
        volume_mounts: or_else(newer.volume_mounts, old.volume_mounts),
        volume_devices: or_else(newer.volume_devices, old.volume_devices),
        labels: or_else(newer.labels, old.labels),
        annotations: or_else(newer.annotations, old.annotations),
        last_updated_info_at: or_else(newer.last_updated_info_at, old.last_updated_info_at),
        deleted: or_else(newer.deleted, old.deleted),
        last_check_deleted_count: or_else(newer.last_check_deleted_count, old.last_check_deleted_count),
        team: or_else(newer.team, old.team),
        service: or_else(newer.service, old.service),
        env: or_else(newer.env, old.env),
    }
}

impl Default for InfoContainerEntity {
    fn default() -> (e: Self)
        ensures
            e == container_empty(),
    {
        InfoContainerEntity {
            pod_uid: None,
            pod_name: None,
            container_name: None,
            namespace: None,
            creation_timestamp: None,
            start_time: None,
            container_id: None,
            image: None,
            image_id: None,
            state: None,
            reason: None,
            message: None,
            exit_code: None,
            restart_count: None,
            ready: None,
            node_name: None,
            host_ip: None,
            pod_ip: None,
            cpu_request_millicores: None,
            memory_request_bytes: None,
            cpu_limit_millicores: None,
            memory_limit_bytes: None,
            volume_mounts: None,
            volume_devices: None,
            labels: None,
            annotations: None,
            last_updated_info_at: None,
            deleted: None,
            last_check_deleted_count: None,
            team: None,
            service: None,
            env: None,
        }
    }
}

impl InfoContainerEntity {
    /// Takes every field that `newer` holds; every field goes by the same rule.
    pub fn merge_from(&mut self, newer: InfoContainerEntity)
        ensures
            *final(self) == container_merged(*old(self), newer),
    {
        self.pod_uid = either(newer.pod_uid, self.pod_uid.take());
        self.pod_name = either(newer.pod_name, self.pod_name.take());
        self.container_name = either(newer.container_name, self.container_name.take());
        self.namespace = either(newer.namespace, self.namespace.take());
        self.creation_timestamp = either(newer.creation_timestamp, self.creation_timestamp.take());
        self.start_time = either(newer.start_time, self.start_time.take());
        self.container_id = either(newer.container_id, self.container_id.take());
        self.image = either(newer.image, self.image.take());
        self.image_id = either(newer.image_id, self.image_id.take());
        self.state = either(newer.state, self.state.take());
        self.reason = either(newer.reason, self.reason.take());
        self.message = either(newer.message, self.message.take());
        self.exit_code = either(newer.exit_code, self.exit_code.take());
        self.restart_count = either(newer.restart_count, self.restart_count.take());
        self.ready = either(newer.ready, self.ready.take());
        self.node_name = either(newer.node_name, self.node_name.take());
        self.host_ip = either(newer.host_ip, self.host_ip.take());
        self.pod_ip = either(newer.pod_ip, self.pod_ip.take());
        self.cpu_request_millicores = either(newer.cpu_request_millicores, self.cpu_request_millicores.take());
        self.memory_request_bytes = either(newer.memory_request_bytes, self.memory_request_bytes.take());
        self.cpu_limit_millicores = either(newer.cpu_limit_millicores, self.cpu_limit_millicores.take());
        self.memory_limit_bytes = either(newer.memory_limit_bytes, self.memory_limit_bytes.take());
        self.volume_mounts = either(newer.volume_mounts, self.volume_mounts.take());
        self.volume_devices = either(newer.volume_devices, self.volume_devices.take());
        self.labels = either(newer.labels, self.labels.take());
        self.annotations = either(newer.annotations, self.annotations.take());
        self.last_updated_info_at = either(newer.last_updated_info_at, self.last_updated_info_at.take());
        self.deleted = either(newer.deleted, self.deleted.take());
        self.last_check_deleted_count = either(newer.last_check_deleted_count, self.last_check_deleted_count.take());
        self.team = either(newer.team, self.team.take());
        self.service = either(newer.service, self.service.take());
        self.env = either(newer.env, self.env.take());
    }
}

/// Merging an entity that holds nothing changes nothing.
pub proof fn lemma_container_merge_empty(e: InfoContainerEntity)
    ensures
        container_merged(e, container_empty()) == e,
{
}

/// Merging the same update twice is merging it once.
pub proof fn lemma_container_merge_idempotent(a: InfoContainerEntity, b: InfoContainerEntity)
    ensures
        container_merged(container_merged(a, b), b) == container_merged(a, b),
{
}

/// The locally kept team, service and environment survive an update that
/// does not name them.
pub proof fn lemma_container_merge_keeps_local(a: InfoContainerEntity, b: InfoContainerEntity)
    ensures
        b.team is None ==> container_merged(a, b).team == a.team,
        b.service is None ==> container_merged(a, b).service == a.service,
        b.env is None ==> container_merged(a, b).env == a.env,
{
}

/// Merging takes every field that the newer value holds and keeps every
/// field that it lacks.
pub proof fn lemma_container_merge_fields(old: InfoContainerEntity, newer: InfoContainerEntity)
    ensures
        taken(container_merged(old, newer).pod_uid, old.pod_uid, newer.pod_uid),
        taken(container_merged(old, newer).pod_name, old.pod_name, newer.pod_name),
        taken(container_merged(old, newer).container_name, old.container_name, newer.container_name),
        taken(container_merged(old, newer).namespace, old.namespace, newer.namespace),
        taken(container_merged(old, newer).creation_timestamp, old.creation_timestamp, newer.creation_timestamp),
        taken(container_merged(old, newer).start_time, old.start_time, newer.start_time),
        taken(container_merged(old, newer).container_id, old.container_id, newer.container_id),
        taken(container_merged(old, newer).image, old.image, newer.image),
        taken(container_merged(old, newer).image_id, old.image_id, newer.image_id),
        taken(container_merged(old, newer).state, old.state, newer.state),
        taken(container_merged(old, newer).reason, old.reason, newer.reason),
        taken(container_merged(old, newer).message, old.message, newer.message),
        taken(container_merged(old, newer).exit_code, old.exit_code, newer.exit_code),
        taken(container_merged(old, newer).restart_count, old.restart_count, newer.restart_count),
        taken(container_merged(old, newer).ready, old.ready, newer.ready),
        taken(container_merged(old, newer).node_name, old.node_name, newer.node_name),
        taken(container_merged(old, newer).host_ip, old.host_ip, newer.host_ip),
        taken(container_merged(old, newer).pod_ip, old.pod_ip, newer.pod_ip),
        taken(container_merged(old, newer).cpu_request_millicores, old.cpu_request_millicores, newer.cpu_request_millicores),
        taken(container_merged(old, newer).memory_request_bytes, old.memory_request_bytes, newer.memory_request_bytes),
        taken(container_merged(old, newer).cpu_limit_millicores, old.cpu_limit_millicores, newer.cpu_limit_millicores),
        taken(container_merged(old, newer).memory_limit_bytes, old.memory_limit_bytes, newer.memory_limit_bytes),
        taken(container_merged(old, newer).volume_mounts, old.volume_mounts, newer.volume_mounts),
        taken(container_merged(old, newer).volume_devices, old.volume_devices, newer.volume_devices),
        taken(container_merged(old, newer).labels, old.labels, newer.labels),
        taken(container_merged(old, newer).annotations, old.annotations, newer.annotations),
        taken(container_merged(old, newer).last_updated_info_at, old.last_updated_info_at, newer.last_updated_info_at),
        taken(container_merged(old, newer).deleted, old.deleted, newer.deleted),
        taken(container_merged(old, newer).last_check_deleted_count, old.last_check_deleted_count, newer.last_check_deleted_count),
        taken(container_merged(old, newer).team, old.team, newer.team),
        taken(container_merged(old, newer).service, old.service, newer.service),
        taken(container_merged(old, newer).env, old.env, newer.env),
{
}

} // verus!
