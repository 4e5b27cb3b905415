use k8s_openapi::api::apps::v1::Deployment;
use rustcost::client::compat::{
    map_container_status_to_info_container_entity, map_deployment_to_info_deployment_entity, map_deployment_to_info_entity,
    map_namespace_to_info_entity, map_namespace_to_info_namespace_entity, map_pod_to_info_pod_entity, PodList,
};
use rustcost::client::mappers::{flatten_map, format_toleration, map_pod_to_info_entity, pod_restarts_within_range};
use rustcost::client::node_mapper::{map_node_to_info_entity, node_values_within_range};
use rustcost::client::quantity::{ends_with, parse_cpu_cores, parse_memory_bytes, parse_pod_count, parse_storage_bytes, memory_fits, trim_end_matches};
use rustcost::client::select::{find_name, find_pod, names_of_objects, pods_in_namespace, pods_on_node, PodRef};
use rustcost::client::sources::{
    ConditionSource, ContainerImageSource, ContainerSource, ContainerStatusSource, NodeAddressSource, NodeSource,
    NodeStatusSource, NodeSystemInfoSource, ObjectMetaSource, OwnerRefSource, PodSource, PodSpecSource, PodStatusSource,
    TaintSource, TolerationSource, VolumeSource, keys_in_order, node_maps_in_key_order, pod_maps_in_key_order, text_lt_exec,
};
use rustcost::time::UtcTime;

fn s(x: &str) -> String {
    x.to_string()
}

fn meta(name: &str) -> ObjectMetaSource {
    ObjectMetaSource {
        name: Some(s(name)),
        namespace: Some(s("default")),
        uid: Some(s("uid-1")),
        resource_version: Some(s("42")),
        creation_timestamp: Some(UtcTime { secs: 1_700_000_000, nanos: 0 }),
        labels: None,
        annotations: None,
        owner_references: None,
    }
}

#[test]
fn flatten_map_joins_pairs() {
    assert_eq!(flatten_map(&vec![]), None);
    assert_eq!(flatten_map(&vec![(s("app"), s("web")), (s("tier"), s("front"))]), Some(s("app=web,tier=front")));
}

#[test]
fn toleration_text_skips_absent_parts() {
    let t = TolerationSource {
        key: Some(s("node.kubernetes.io/not-ready")),
        operator: Some(s("Exists")),
        value: None,
        effect: Some(s("NoExecute")),
        toleration_seconds: Some(300),
    };
    assert_eq!(format_toleration(&t), "node.kubernetes.io/not-ready:Exists:NoExecute:300s");
    let neg = TolerationSource { key: None, operator: None, value: Some(s("v")), effect: None, toleration_seconds: Some(-5) };
    assert_eq!(format_toleration(&neg), "v:-5s");
    let none = TolerationSource { key: None, operator: None, value: None, effect: None, toleration_seconds: None };
    assert_eq!(format_toleration(&none), "");
}

#[test]
fn quantities() {
    assert!(ends_with("3500m", "m"));
    assert_eq!(trim_end_matches("5kiki", "ki"), "5");
    assert_eq!(parse_cpu_cores("4"), Some(4));
    assert_eq!(parse_cpu_cores("3500m"), Some(3));
    assert_eq!(parse_cpu_cores("999m"), Some(0));
    assert_eq!(parse_cpu_cores("1.5"), None);
    assert_eq!(parse_memory_bytes("1Ki"), Some(1024));
    assert_eq!(parse_memory_bytes("16Gi"), Some(16 * 1024 * 1024 * 1024));
    assert_eq!(parse_memory_bytes("5M"), Some(5_000_000));
    assert_eq!(parse_memory_bytes("2k"), Some(2000));
    assert_eq!(parse_memory_bytes("123"), Some(123));
    assert_eq!(parse_memory_bytes("12Ti"), None);
    assert_eq!(parse_storage_bytes("10Mi"), Some(10 * 1024 * 1024));
    assert_eq!(parse_storage_bytes("10G"), None);
    assert_eq!(parse_pod_count("110"), Some(110));
    assert!(!memory_fits("18446744073709551615Ki"));
    assert!(memory_fits("18014398509481983Ki"));
}

#[test]
fn pod_mapping() {
    let pod = PodSource {
        metadata: ObjectMetaSource {
            labels: Some(vec![(s("app"), s("web"))]),
            owner_references: Some(vec![OwnerRefSource { kind: s("ReplicaSet"), name: s("web-abc"), uid: s("rs-1") }]),
            ..meta("web-abc-1")
        },
        spec: Some(PodSpecSource {
            node_name: Some(s("node-a")),
            containers: vec![
                ContainerSource {
                    name: s("app"),
                    image: Some(s("nginx:1")),
                    ports: Some(vec![80, 70000, -1, 443]),
                    mount_paths: Some(vec![s("/data"), s("/cache")]),
                },
                ContainerSource { name: s("side"), image: None, ports: None, mount_paths: Some(vec![s("/data"), s("/logs")]) },
            ],
            restart_policy: Some(s("Always")),
            scheduler_name: None,
            service_account_name: Some(s("sa")),
            volumes: Some(vec![
                VolumeSource { name: s("data"), claim_name: Some(s("pvc-1")) },
                VolumeSource { name: s("tmp"), claim_name: None },
            ]),
            termination_grace_period_seconds: Some(-3),
            tolerations: Some(vec![]),
        }),
        status: Some(PodStatusSource {
            start_time: Some(UtcTime { secs: 1_700_000_100, nanos: 0 }),
            host_ip: Some(s("10.0.0.1")),
            pod_ip: None,
            pod_ips: Some(vec![s("10.1.0.5"), s("fd00::5")]),
            qos_class: Some(s("Burstable")),
            phase: Some(s("Running")),
            conditions: Some(vec![
                ConditionSource { kind: s("PodScheduled"), status: s("True") },
                ConditionSource { kind: s("Ready"), status: s("False") },
                ConditionSource { kind: s("Ready"), status: s("True") },
            ]),
            container_statuses: Some(vec![
                ContainerStatusSource { restart_count: 3, container_id: Some(s("c1")), image_id: s("img1"), running_started_at: None },
                ContainerStatusSource { restart_count: -2, container_id: Some(s("")), image_id: s(""), running_started_at: Some(UtcTime { secs: 5, nanos: 0 }) },
            ]),
        }),
    };
    assert!(pod_restarts_within_range(&pod));
    let e = map_pod_to_info_entity(&pod);
    assert_eq!(e.pod_name, Some(s("web-abc-1")));
    assert_eq!(e.node_name, Some(s("node-a")));
    assert_eq!(e.pod_ip, Some(s("10.1.0.5")));
    assert_eq!(e.ready, Some(false));
    assert_eq!(e.restart_count, Some(3));
    assert_eq!(e.owner_kind, Some(s("ReplicaSet")));
    assert_eq!(e.container_count, Some(2));
    assert_eq!(e.container_names, Some(vec![s("app"), s("side")]));
    assert_eq!(e.container_images, Some(vec![s("nginx:1")]));
    assert_eq!(e.container_ports, Some(vec![80, 443]));
    assert_eq!(e.container_ids, Some(vec![s("c1")]));
    assert_eq!(e.image_ids, Some(vec![s("img1")]));
    assert_eq!(e.container_started_at, Some(vec![UtcTime { secs: 5, nanos: 0 }]));
    assert_eq!(e.mount_paths, Some(vec![s("/data"), s("/cache"), s("/logs")]));
    assert_eq!(e.volume_names, Some(vec![s("data"), s("tmp")]));
    assert_eq!(e.volume_count, Some(2));
    assert_eq!(e.pvc_names, Some(vec![s("pvc-1")]));
    assert_eq!(e.termination_grace_period_seconds, None);
    assert_eq!(e.tolerations, None);
    assert_eq!(e.label, Some(s("app=web")));
    assert_eq!(e.annotation, None);
    assert_eq!(e.scheduler_name, None);
    assert_eq!(e.team, None);
}

#[test]
fn pod_mapping_without_spec_or_status() {
    let pod = PodSource { metadata: meta("bare"), spec: None, status: None };
    let e = map_pod_to_info_entity(&pod);
    assert_eq!(e.namespace, Some(s("default")));
    assert_eq!(e.container_count, None);
    assert_eq!(e.restart_count, None);
    assert_eq!(e.owner_uid, None);
}

#[test]
fn restart_overflow_is_detected() {
    let st = |n: i32| ContainerStatusSource { restart_count: n, container_id: None, image_id: s("i"), running_started_at: None };
    let mut status = PodStatusSource {
        start_time: None, host_ip: None, pod_ip: None, pod_ips: None, qos_class: None, phase: None, conditions: None,
        container_statuses: Some(vec![st(i32::MAX), st(i32::MAX), st(2)]),
    };
    let pod = PodSource { metadata: meta("p"), spec: None, status: Some(status.clone()) };
    assert!(!pod_restarts_within_range(&pod));
    status.container_statuses = Some(vec![st(i32::MAX), st(i32::MAX), st(1)]);
    let pod = PodSource { metadata: meta("p"), spec: None, status: Some(status) };
    assert!(pod_restarts_within_range(&pod));
    assert_eq!(map_pod_to_info_entity(&pod).restart_count, Some(u32::MAX));
}

#[test]
fn node_mapping() {
    let node = NodeSource {
        metadata: ObjectMetaSource { labels: Some(vec![(s("arch"), s("amd64")), (s("zone"), s("a"))]), ..meta("node-a") },
        taints: Some(vec![
            TaintSource { key: s("dedicated"), value: Some(s("gpu")), effect: s("NoSchedule") },
            TaintSource { key: s("spot"), value: None, effect: s("PreferNoSchedule") },
        ]),
        status: Some(NodeStatusSource {
            addresses: Some(vec![
                NodeAddressSource { kind: s("InternalIP"), address: s("10.0.0.1") },
                NodeAddressSource { kind: s("Hostname"), address: s("host-a") },
                NodeAddressSource { kind: s("InternalIP"), address: s("10.0.0.2") },
            ]),
            node_info: Some(NodeSystemInfoSource {
                architecture: s("amd64"),
                os_image: s("Ubuntu"),
                kernel_version: s("6.1"),
                kubelet_version: s("v1.30"),
                container_runtime_version: s("containerd://1.7"),
                operating_system: s("linux"),
            }),
            capacity: Some(vec![(s("cpu"), s("4")), (s("ephemeral-storage"), s("100Gi")), (s("memory"), s("16Gi")), (s("pods"), s("110"))]),
            allocatable: Some(vec![(s("cpu"), s("3500m")), (s("memory"), s("15000Mi"))]),
            conditions: Some(vec![ConditionSource { kind: s("Ready"), status: s("True") }]),
            images: Some(vec![
                ContainerImageSource { names: Some(vec![s("nginx:1"), s("nginx@sha")]), size_bytes: Some(1000) },
                ContainerImageSource { names: None, size_bytes: None },
            ]),
        }),
    };
    assert!(node_values_within_range(&node));
    let now = UtcTime { secs: 1_700_000_999, nanos: 0 };
    let e = map_node_to_info_entity(&node, now);
    assert_eq!(e.node_name, Some(s("node-a")));
    assert_eq!(e.creation_timestamp, Some(UtcTime { secs: 1_700_000_000, nanos: 0 }));
    assert_eq!(e.last_updated_info_at, Some(now));
    assert_eq!(e.hostname, Some(s("host-a")));
    assert_eq!(e.internal_ip, Some(s("10.0.0.2")));
    assert_eq!(e.kubelet_version, Some(s("v1.30")));
    assert_eq!(e.cpu_capacity_cores, Some(4));
    assert_eq!(e.memory_capacity_bytes, Some(16 * 1024 * 1024 * 1024));
    assert_eq!(e.pod_capacity, Some(110));
    assert_eq!(e.ephemeral_storage_capacity_bytes, Some(100 * 1024 * 1024 * 1024));
    assert_eq!(e.cpu_allocatable_cores, Some(3));
    assert_eq!(e.memory_allocatable_bytes, Some(15000 * 1024 * 1024));
    assert_eq!(e.pod_allocatable, None);
    assert_eq!(e.ready, Some(true));
    assert_eq!(e.taints, Some(s("dedicated=gpu (NoSchedule), spot= (PreferNoSchedule)")));
    assert_eq!(e.label, Some(s("{\"arch\":\"amd64\",\"zone\":\"a\"}")));
    assert_eq!(e.image_count, Some(2));
    assert_eq!(e.image_names, Some(vec![s("nginx:1"), s("nginx@sha")]));
    assert_eq!(e.image_total_size_bytes, Some(1000));
    assert_eq!(e.fixed_instance_usd, None);
}

#[test]
fn selections() {
    let pods = vec![
        PodRef { namespace: Some(s("a")), name: s("p1"), node_name: Some(s("n1")) },
        PodRef { namespace: None, name: s("p2"), node_name: Some(s("n2")) },
        PodRef { namespace: Some(s("a")), name: s("p3"), node_name: None },
    ];
    assert_eq!(pods_in_namespace(&pods, "a"), vec![0, 2]);
    assert_eq!(pods_on_node(&pods, "n2"), vec![1]);
    assert_eq!(find_pod(&pods, "a", "p3"), Some(2));
    assert_eq!(find_pod(&pods, "b", "p1"), None);
    assert_eq!(find_name(&vec![s("x"), s("y"), s("y")], "y"), Some(1));
    assert_eq!(names_of_objects(vec![Some(s("a")), None, Some(s("c"))]), vec![s("a"), s("c")]);
}

#[test]
fn default_mappings() {
    let d = map_deployment_to_info_entity(&Deployment::default());
    assert_eq!(d.name, None);
    assert_eq!(map_deployment_to_info_deployment_entity(&Deployment::default()).replicas, None);
    assert_eq!(map_namespace_to_info_entity(&k8s_openapi::api::core::v1::Namespace::default()).uid, None);
    assert_eq!(map_namespace_to_info_namespace_entity(&k8s_openapi::api::core::v1::Namespace::default()).name, None);
    assert_eq!(map_pod_to_info_pod_entity(&k8s_openapi::api::core::v1::Pod::default()).pod_name, None);
    assert_eq!(map_container_status_to_info_container_entity(&k8s_openapi::api::core::v1::ContainerStatus::default()).pod_uid, None);
    let list = PodList { items: vec![k8s_openapi::api::core::v1::Pod::default()] };
    assert_eq!(list.items.len(), 1);
}

#[test]
fn map_keys_in_btree_order() {
    assert!(text_lt_exec("app", "tier"));
    assert!(text_lt_exec("a", "ab"));
    assert!(!text_lt_exec("ab", "ab"));
    assert!(text_lt_exec("Z", "a"));
    assert!(text_lt_exec("z", "é"));
    assert!(keys_in_order(&vec![(s("app"), s("web")), (s("tier"), s("front"))]));
    assert!(!keys_in_order(&vec![(s("zone"), s("a")), (s("arch"), s("amd64"))]));
    assert!(!keys_in_order(&vec![(s("a"), s("1")), (s("a"), s("2"))]));
    assert!(keys_in_order(&vec![]));
    let mut m = meta("p");
    m.labels = Some(vec![(s("b"), s("1")), (s("a"), s("2"))]);
    let pod = PodSource { metadata: m, spec: None, status: None };
    assert!(!pod_maps_in_key_order(&pod));
    let node = NodeSource { metadata: meta("n"), taints: None, status: None };
    assert!(node_maps_in_key_order(&node));
}
