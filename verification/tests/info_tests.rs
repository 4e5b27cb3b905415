use rustcost::info::container::InfoContainerEntity;
use rustcost::info::node::InfoNodeEntity;
use rustcost::info::pod::InfoPodEntity;

#[test]
fn container_merge_takes_newer_and_keeps_local() {
    let mut local = InfoContainerEntity::default();
    local.image = Some("nginx:1.0".to_string());
    local.team = Some("payments".to_string());
    local.restart_count = Some(2);
    let mut newer = InfoContainerEntity::default();
    newer.image = Some("nginx:1.1".to_string());
    newer.ready = Some(true);
    local.merge_from(newer.clone());
    assert_eq!(local.image.as_deref(), Some("nginx:1.1"));
    assert_eq!(local.ready, Some(true));
    assert_eq!(local.team.as_deref(), Some("payments"));
    assert_eq!(local.restart_count, Some(2));
    local.merge_from(newer);
    assert_eq!(local.image.as_deref(), Some("nginx:1.1"));
    assert_eq!(local.team.as_deref(), Some("payments"));
    local.merge_from(InfoContainerEntity::default());
    assert_eq!(local.image.as_deref(), Some("nginx:1.1"));
    assert_eq!(local.restart_count, Some(2));
}

#[test]
fn node_merge_takes_newer_and_keeps_local() {
    let mut local = InfoNodeEntity::default();
    local.node_name = Some("n1".to_string());
    local.env = Some("prod".to_string());
    local.memory_capacity_bytes = Some(1024);
    let mut newer = InfoNodeEntity::default();
    newer.memory_capacity_bytes = Some(2048);
    newer.image_names = Some(vec!["a".to_string(), "b".to_string()]);
    local.merge_from(newer);
    assert_eq!(local.node_name.as_deref(), Some("n1"));
    assert_eq!(local.env.as_deref(), Some("prod"));
    assert_eq!(local.memory_capacity_bytes, Some(2048));
    assert_eq!(local.image_names, Some(vec!["a".to_string(), "b".to_string()]));
}

#[test]
fn pod_merge_takes_newer_and_keeps_local() {
    let mut local = InfoPodEntity::default();
    local.pod_name = Some("web-0".to_string());
    local.service = Some("checkout".to_string());
    local.phase = Some("Pending".to_string());
    let mut newer = InfoPodEntity::default();
    newer.phase = Some("Running".to_string());
    newer.restart_count = Some(3);
    local.label = Some("app=old".to_string());
    newer.label = Some("app=web".to_string());
    newer.annotation = Some("note=x".to_string());
    local.merge_from(newer.clone());
    assert_eq!(local.label.as_deref(), Some("app=web"));
    assert_eq!(local.annotation.as_deref(), Some("note=x"));
    assert_eq!(local.pod_name.as_deref(), Some("web-0"));
    assert_eq!(local.service.as_deref(), Some("checkout"));
    assert_eq!(local.phase.as_deref(), Some("Running"));
    assert_eq!(local.restart_count, Some(3));
    local.merge_from(newer);
    assert_eq!(local.phase.as_deref(), Some("Running"));
    assert_eq!(local.restart_count, Some(3));
}
