//! Stored information about a Kubernetes pod.
use vstd::prelude::*;
use crate::time::UtcTime;
use crate::info::{either, or_else, taken};

verus! {

/// Static and runtime information about a Kubernetes pod.
#[derive(Clone, Debug)]
pub struct InfoPodEntity {
    pub pod_name: Option<String>,
    pub namespace: Option<String>,
    pub pod_uid: Option<String>,
    pub creation_timestamp: Option<UtcTime>,
    pub start_time: Option<UtcTime>,
    pub resource_version: Option<String>,
    pub last_updated_info_at: Option<UtcTime>,
    pub deleted: Option<bool>,
    pub last_check_deleted_count: Option<u64>,
    pub node_name: Option<String>,
    pub host_ip: Option<String>,
    pub pod_ip: Option<String>,
    pub qos_class: Option<String>,
    pub phase: Option<String>,
    pub ready: Option<bool>,
    pub restart_count: Option<u32>,
    pub owner_kind: Option<String>,
    pub owner_name: Option<String>,
    pub owner_uid: Option<String>,
    pub container_count: Option<u32>,
    pub container_names: Option<Vec<String>>,
    pub container_images: Option<Vec<String>>,
    pub container_ids: Option<Vec<String>>,
    pub container_started_at: Option<Vec<UtcTime>>,
    pub image_ids: Option<Vec<String>>,
    pub container_ports: Option<Vec<u16>>,
    pub restart_policy: Option<String>,
    pub scheduler_name: Option<String>,
    pub service_account: Option<String>,
    pub volume_count: Option<u32>,
    pub volume_names: Option<Vec<String>>,
    pub pvc_names: Option<Vec<String>>,
    pub mount_paths: Option<Vec<String>>,
    pub termination_grace_period_seconds: Option<u32>,
    pub tolerations: Option<Vec<String>>,
    /// Labels flattened to text.
    pub label: Option<String>,
    /// Annotations flattened to text.
    pub annotation: Option<String>,
    /// Team that owns it (kept locally).
    pub team: Option<String>,
    /// Service it belongs to (kept locally).
    pub service: Option<String>,
    /// Environment: "dev", "stage", "prod" (kept locally).
    pub env: Option<String>,
}

/// The entity with every field absent.
pub open spec fn pod_empty() -> InfoPodEntity {
    InfoPodEntity {
        pod_name: None,
        namespace: None,
        pod_uid: None,
        creation_timestamp: None,
        start_time: None,
        resource_version: None,
        last_updated_info_at: None,
        deleted: None,
        last_check_deleted_count: None,
        node_name: None,
        host_ip: None,
        pod_ip: None,
        qos_class: None,
        phase: None,
        ready: None,
        restart_count: None,
        owner_kind: None,
        owner_name: None,
        owner_uid: None,
        container_count: None,
        container_names: None,
        container_images: None,
        container_ids: None,
        container_started_at: None,
        image_ids: None,
        container_ports: None,
        restart_policy: None,
        scheduler_name: None,
        service_account: None,
        volume_count: None,
        volume_names: None,
        pvc_names: None,
        mount_paths: None,
        termination_grace_period_seconds: None,
        tolerations: None,
        label: None,
        annotation: None,
        team: None,
        service: None,
        env: None,
    }
}

/// `old` updated from `newer`: every field that `newer` holds replaces the old one.
pub open spec fn pod_merged(old: InfoPodEntity, newer: InfoPodEntity) -> InfoPodEntity {
    InfoPodEntity {
        pod_name: or_else(newer.pod_name, old.pod_name),
        namespace: or_else(newer.namespace, old.namespace),
        pod_uid: or_else(newer.pod_uid, old.pod_uid),
        creation_timestamp: or_else(newer.creation_timestamp, old.creation_timestamp),
        start_time: or_else(newer.start_time, old.start_time),
        resource_version: or_else(newer.resource_version, old.resource_version),
        last_updated_info_at: or_else(newer.last_updated_info_at, old.last_updated_info_at),
        deleted: or_else(newer.deleted, old.deleted),
        last_check_deleted_count: or_else(newer.last_check_deleted_count, old.last_check_deleted_count),
        node_name: or_else(newer.node_name, old.node_name),
        host_ip: or_else(newer.host_ip, old.host_ip),
        pod_ip: or_else(newer.pod_ip, old.pod_ip),
        qos_class: or_else(newer.qos_class, old.qos_class),
        phase: or_else(newer.phase, old.phase),
        ready: or_else(newer.ready, old.ready),
        restart_count: or_else(newer.restart_count, old.restart_count),
        owner_kind: or_else(newer.owner_kind, old.owner_kind),
        owner_name: or_else(newer.owner_name, old.owner_name),
        owner_uid: or_else(newer.owner_uid, old.owner_uid),
        container_count: or_else(newer.container_count, old.container_count),
        container_names: or_else(newer.container_names, old.container_names),
        container_images: or_else(newer.container_images, old.container_images),
        container_ids: or_else(newer.container_ids, old.container_ids),
        container_started_at: or_else(newer.container_started_at, old.container_started_at),
        image_ids: or_else(newer.image_ids, old.image_ids),
        container_ports: or_else(newer.container_ports, old.container_ports),
        restart_policy: or_else(newer.restart_policy, old.restart_policy),
        scheduler_name: or_else(newer.scheduler_name, old.scheduler_name),
        service_account: or_else(newer.service_account, old.service_account),
        volume_count: or_else(newer.volume_count, old.volume_count),
        volume_names: or_else(newer.volume_names, old.volume_names),
        pvc_names: or_else(newer.pvc_names, old.pvc_names),
        mount_paths: or_else(newer.mount_paths, old.mount_paths),
        termination_grace_period_seconds: or_else(newer.termination_grace_period_seconds, old.termination_grace_period_seconds),
        tolerations: or_else(newer.tolerations, old.tolerations),
        label: or_else(newer.label, old.label),
        annotation: or_else(newer.annotation, old.annotation),
        team: or_else(newer.team, old.team),
        service: or_else(newer.service, old.service),
        env: or_else(newer.env, old.env),
    }
}

impl Default for InfoPodEntity {
    fn default() -> (e: Self)
        ensures
            e == pod_empty(),
    {
        InfoPodEntity {
            pod_name: None,
            namespace: None,
            pod_uid: None,
            creation_timestamp: None,
            start_time: None,
            resource_version: None,
            last_updated_info_at: None,
            deleted: None,
            last_check_deleted_count: None,
            node_name: None,
            host_ip: None,
            pod_ip: None,
            qos_class: None,
            phase: None,
            ready: None,
            restart_count: None,
            owner_kind: None,
            owner_name: None,
            owner_uid: None,
            container_count: None,
            container_names: None,
            container_images: None,
            container_ids: None,
            container_started_at: None,
            image_ids: None,
            container_ports: None,
            restart_policy: None,
            scheduler_name: None,
            service_account: None,
            volume_count: None,
            volume_names: None,
            pvc_names: None,
            mount_paths: None,
            termination_grace_period_seconds: None,
            tolerations: None,
            label: None,
            annotation: None,
            team: None,
            service: None,
            env: None,
        }
    }
}

impl InfoPodEntity {
    /// Takes every field that `newer` holds; a field that `newer` lacks keeps its old value.
    pub fn merge_from(&mut self, newer: InfoPodEntity)
        ensures
            *final(self) == pod_merged(*old(self), newer),
    {
        self.pod_name = either(newer.pod_name, self.pod_name.take());
        self.namespace = either(newer.namespace, self.namespace.take());
        self.pod_uid = either(newer.pod_uid, self.pod_uid.take());
        self.creation_timestamp = either(newer.creation_timestamp, self.creation_timestamp.take());
        self.start_time = either(newer.start_time, self.start_time.take());
        self.resource_version = either(newer.resource_version, self.resource_version.take());
        self.last_updated_info_at = either(newer.last_updated_info_at, self.last_updated_info_at.take());
        self.deleted = either(newer.deleted, self.deleted.take());
        self.last_check_deleted_count = either(newer.last_check_deleted_count, self.last_check_deleted_count.take());
        self.node_name = either(newer.node_name, self.node_name.take());
        self.host_ip = either(newer.host_ip, self.host_ip.take());
        self.pod_ip = either(newer.pod_ip, self.pod_ip.take());
        self.qos_class = either(newer.qos_class, self.qos_class.take());
        self.phase = either(newer.phase, self.phase.take());
        self.ready = either(newer.ready, self.ready.take());
        self.restart_count = either(newer.restart_count, self.restart_count.take());
        self.owner_kind = either(newer.owner_kind, self.owner_kind.take());
        self.owner_name = either(newer.owner_name, self.owner_name.take());
        self.owner_uid = either(newer.owner_uid, self.owner_uid.take());
        self.container_count = either(newer.container_count, self.container_count.take());
        self.container_names = either(newer.container_names, self.container_names.take());
        self.container_images = either(newer.container_images, self.container_images.take());
        self.container_ids = either(newer.container_ids, self.container_ids.take());
        self.container_started_at = either(newer.container_started_at, self.container_started_at.take());
        self.image_ids = either(newer.image_ids, self.image_ids.take());
        self.container_ports = either(newer.container_ports, self.container_ports.take());
        self.restart_policy = either(newer.restart_policy, self.restart_policy.take());
        self.scheduler_name = either(newer.scheduler_name, self.scheduler_name.take());
        self.service_account = either(newer.service_account, self.service_account.take());
        self.volume_count = either(newer.volume_count, self.volume_count.take());
        self.volume_names = either(newer.volume_names, self.volume_names.take());
        self.pvc_names = either(newer.pvc_names, self.pvc_names.take());
        self.mount_paths = either(newer.mount_paths, self.mount_paths.take());
        self.termination_grace_period_seconds = either(newer.termination_grace_period_seconds, self.termination_grace_period_seconds.take());
        self.tolerations = either(newer.tolerations, self.tolerations.take());
        self.label = either(newer.label, self.label.take());
        self.annotation = either(newer.annotation, self.annotation.take());
        self.team = either(newer.team, self.team.take());
        self.service = either(newer.service, self.service.take());
        self.env = either(newer.env, self.env.take());
    }
}

/// Merging an entity that holds nothing changes nothing.
pub proof fn lemma_pod_merge_empty(e: InfoPodEntity)
    ensures
        pod_merged(e, pod_empty()) == e,
{
}

/// Merging the same update twice is merging it once.
pub proof fn lemma_pod_merge_idempotent(a: InfoPodEntity, b: InfoPodEntity)
    ensures
        pod_merged(pod_merged(a, b), b) == pod_merged(a, b),
{
}

/// The locally kept team, service and environment survive an update that
/// does not name them.
pub proof fn lemma_pod_merge_keeps_local(a: InfoPodEntity, b: InfoPodEntity)
    ensures
        b.team is None ==> pod_merged(a, b).team == a.team,
        b.service is None ==> pod_merged(a, b).service == a.service,
        b.env is None ==> pod_merged(a, b).env == a.env,
{
}

/// Merging takes every field that the newer value holds and keeps every
/// field that it lacks.
pub proof fn lemma_pod_merge_fields(old: InfoPodEntity, newer: InfoPodEntity)
    ensures
        taken(pod_merged(old, newer).pod_name, old.pod_name, newer.pod_name),
        taken(pod_merged(old, newer).namespace, old.namespace, newer.namespace),
        taken(pod_merged(old, newer).pod_uid, old.pod_uid, newer.pod_uid),
        taken(pod_merged(old, newer).creation_timestamp, old.creation_timestamp, newer.creation_timestamp),
        taken(pod_merged(old, newer).start_time, old.start_time, newer.start_time),
        taken(pod_merged(old, newer).resource_version, old.resource_version, newer.resource_version),
        taken(pod_merged(old, newer).last_updated_info_at, old.last_updated_info_at, newer.last_updated_info_at),
        taken(pod_merged(old, newer).deleted, old.deleted, newer.deleted),
        taken(pod_merged(old, newer).last_check_deleted_count, old.last_check_deleted_count, newer.last_check_deleted_count),
        taken(pod_merged(old, newer).node_name, old.node_name, newer.node_name),
        taken(pod_merged(old, newer).host_ip, old.host_ip, newer.host_ip),
        taken(pod_merged(old, newer).pod_ip, old.pod_ip, newer.pod_ip),
        taken(pod_merged(old, newer).qos_class, old.qos_class, newer.qos_class),
        taken(pod_merged(old, newer).phase, old.phase, newer.phase),
        taken(pod_merged(old, newer).ready, old.ready, newer.ready),
        taken(pod_merged(old, newer).restart_count, old.restart_count, newer.restart_count),
        taken(pod_merged(old, newer).owner_kind, old.owner_kind, newer.owner_kind),
        taken(pod_merged(old, newer).owner_name, old.owner_name, newer.owner_name),
        taken(pod_merged(old, newer).owner_uid, old.owner_uid, newer.owner_uid),
        taken(pod_merged(old, newer).container_count, old.container_count, newer.container_count),
        taken(pod_merged(old, newer).container_names, old.container_names, newer.container_names),
        taken(pod_merged(old, newer).container_images, old.container_images, newer.container_images),
        taken(pod_merged(old, newer).container_ids, old.container_ids, newer.container_ids),
        taken(pod_merged(old, newer).container_started_at, old.container_started_at, newer.container_started_at),
        taken(pod_merged(old, newer).image_ids, old.image_ids, newer.image_ids),
        taken(pod_merged(old, newer).container_ports, old.container_ports, newer.container_ports),
        taken(pod_merged(old, newer).restart_policy, old.restart_policy, newer.restart_policy),
        taken(pod_merged(old, newer).scheduler_name, old.scheduler_name, newer.scheduler_name),
        taken(pod_merged(old, newer).service_account, old.service_account, newer.service_account),
        taken(pod_merged(old, newer).volume_count, old.volume_count, newer.volume_count),
        taken(pod_merged(old, newer).volume_names, old.volume_names, newer.volume_names),
        taken(pod_merged(old, newer).pvc_names, old.pvc_names, newer.pvc_names),
        taken(pod_merged(old, newer).mount_paths, old.mount_paths, newer.mount_paths),
        taken(pod_merged(old, newer).termination_grace_period_seconds, old.termination_grace_period_seconds, newer.termination_grace_period_seconds),
        taken(pod_merged(old, newer).tolerations, old.tolerations, newer.tolerations),
        taken(pod_merged(old, newer).label, old.label, newer.label),
        taken(pod_merged(old, newer).annotation, old.annotation, newer.annotation),
        taken(pod_merged(old, newer).team, old.team, newer.team),
        taken(pod_merged(old, newer).service, old.service, newer.service),
        taken(pod_merged(old, newer).env, old.env, newer.env),
{
}

} // verus!
