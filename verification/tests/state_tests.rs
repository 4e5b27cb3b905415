use rustcost::state::alerts::{AlertEvent, AlertRuntimeState, AlertRuntimeStateManager, MAX_ALERTS_PER_WINDOW, copy_event};
use rustcost::state::k8s::{K8sRuntimeState, K8sRuntimeStateManager, PodIndex, RuntimePod};
use rustcost::time::UtcTime;
use std::sync::Arc;

fn at(secs: i64) -> UtcTime {
    UtcTime { secs, nanos: 0 }
}

fn event(id: &str, msg: &str, t: i64, active: bool) -> AlertEvent {
    AlertEvent {
        id: id.to_string(),
        message: msg.to_string(),
        severity: "warning".to_string(),
        created_at: at(t),
        last_updated_at: at(t),
        active,
    }
}

#[test]
fn add_then_update_alert() {
    let mut s = AlertRuntimeState::default();
    s.add_or_update_alert_at(event("a", "first", 10, true), at(10));
    s.add_or_update_alert_at(event("b", "other", 11, true), at(11));
    s.add_or_update_alert_at(event("a", "again", 20, false), at(30));
    assert_eq!(s.alerts.len(), 2);
    assert_eq!(s.alerts[0].message, "again");
    assert!(!s.alerts[0].active);
    assert_eq!(s.alerts[0].created_at, at(10));
    assert_eq!(s.alerts[0].last_updated_at, at(30));
    let copy = copy_event(&s.alerts[1]);
    assert_eq!(copy.id, "b");
}

#[test]
fn resolve_and_list_active() {
    let mut s = AlertRuntimeState::default();
    s.add_or_update_alert_at(event("a", "x", 1, true), at(1));
    s.add_or_update_alert_at(event("b", "y", 2, true), at(2));
    s.resolve_alert_at("a", at(5));
    s.resolve_alert_at("missing", at(6));
    let active = s.active_alerts();
    assert_eq!(active.len(), 1);
    assert_eq!(active[0].id, "b");
    assert_eq!(s.alerts[0].last_updated_at, at(5));
}

#[test]
fn prune_resolved_by_age() {
    let mut s = AlertRuntimeState::default();
    s.alerts = vec![event("old", "", 10, false), event("new", "", 100, false), event("live", "", 5, true)];
    s.prune_resolved_older_than_at(at(200), 150);
    let ids: Vec<&str> = s.alerts.iter().map(|a| a.id.as_str()).collect();
    assert_eq!(ids, vec!["new", "live"]);
}

#[test]
fn prune_by_max_len_keeps_newest_in_time_order() {
    let mut s = AlertRuntimeState::default();
    s.alerts = vec![event("c", "", 30, true), event("a", "", 10, true), event("d", "", 30, false), event("b", "", 20, true)];
    s.prune_by_max_len(3);
    let ids: Vec<&str> = s.alerts.iter().map(|a| a.id.as_str()).collect();
    assert_eq!(ids, vec!["b", "c", "d"]);
    s.prune_by_max_len(10);
    assert_eq!(s.alerts.len(), 3);
    s.prune_by_max_len(0);
    assert!(s.alerts.is_empty());
}

#[test]
fn prune_old_timestamps_drops_leading_only() {
    let mut s = AlertRuntimeState::default();
    s.recent_alert_times = vec![at(10), at(50), at(100), at(20)];
    s.prune_old_timestamps_at(at(140), 60);
    assert_eq!(s.recent_alert_times, vec![at(100), at(20)]);
}

#[test]
fn rate_limit_turns_burst_into_storm() {
    let mut s = AlertRuntimeState::default();
    for i in 0..MAX_ALERTS_PER_WINDOW {
        AlertRuntimeStateManager::<()>::fire_alert_in(&mut s, format!("id-{}", i), "m".to_string(), "warning".to_string(), at(1000));
    }
    assert_eq!(s.recent_alert_times.len(), 100);
    assert_eq!(s.alerts.len(), 100);
    AlertRuntimeStateManager::<()>::fire_alert_in(&mut s, "late".to_string(), "m".to_string(), "warning".to_string(), at(1001));
    assert_eq!(s.recent_alert_times.len(), 100);
    let storm = s.alerts.iter().find(|a| a.id == "alert-storm").unwrap();
    assert_eq!(storm.message, "Alert storm detected: > 100 alerts in 60 seconds. Suppressing new alerts.");
    assert_eq!(storm.severity, "critical");
    assert!(s.alerts.iter().all(|a| a.id != "late"));
    AlertRuntimeStateManager::<()>::fire_alert_in(&mut s, "later".to_string(), "m".to_string(), "info".to_string(), at(1100));
    assert_eq!(s.recent_alert_times, vec![at(1100)]);
    assert!(s.alerts.iter().any(|a| a.id == "later" && a.active));
}

#[test]
fn managers_hold_their_repository() {
    let repo = Arc::new(5u8);
    let m = AlertRuntimeStateManager::new(repo.clone());
    assert_eq!(*m.repo, 5);
    let k = K8sRuntimeStateManager::new(repo);
    assert_eq!(*k.repo, 5);
}

fn pod(uid: &str, ns: &str, node: &str, dep: Option<&str>) -> RuntimePod {
    RuntimePod {
        uid: uid.to_string(),
        name: format!("pod-{}", uid),
        namespace: ns.to_string(),
        deployment: dep.map(|d| d.to_string()),
        node: node.to_string(),
        containers: vec!["main".to_string()],
    }
}

#[test]
fn discovery_update_builds_indexes() {
    let mut s = K8sRuntimeState::default();
    s.mark_error_at("boom".to_string(), at(1));
    let pods = vec![
        pod("u1", "default", "n1", Some("web")),
        pod("u2", "kube-system", "n1", None),
        pod("u3", "default", "n2", Some("web")),
    ];
    s.update_at(vec!["n1".to_string(), "n2".to_string()], vec!["default".to_string()], vec!["web".to_string()], pods, at(9));
    assert_eq!(s.last_discovered_at, Some(at(9)));
    assert_eq!(s.last_error_message, None);
    assert_eq!(s.last_error_at, None);
    assert_eq!(s.pods_under(PodIndex::Namespace, "default"), vec!["u1".to_string(), "u3".to_string()]);
    assert_eq!(s.pods_under(PodIndex::Node, "n1"), vec!["u1".to_string(), "u2".to_string()]);
    assert_eq!(s.pods_under(PodIndex::Deployment, "web"), vec!["u1".to_string(), "u3".to_string()]);
    assert!(s.pods_under(PodIndex::Namespace, "nope").is_empty());
    assert_eq!(s.pods_by_namespace.len(), 2);
    assert_eq!(s.pods_by_deployment.len(), 1);
    assert_eq!(s.get_pod("u2").unwrap().namespace, "kube-system");
    assert!(s.get_pod("zz").is_none());
}

#[test]
fn later_pod_with_same_uid_wins() {
    let mut s = K8sRuntimeState::default();
    s.update_at(vec![], vec![], vec![], vec![pod("u1", "a", "n1", None), pod("u1", "b", "n2", None)], at(1));
    assert_eq!(s.get_pod("u1").unwrap().namespace, "b");
    assert_eq!(s.pods.len(), 1);
    assert_eq!(s.pods_under(PodIndex::Namespace, "a"), vec!["u1".to_string()]);
    s.update_at(vec![], vec![], vec![], vec![pod("u1", "a", "n1", None), pod("u2", "a", "n1", None), pod("u1", "c", "n1", None)], at(2));
    let uids: Vec<&str> = s.pods.iter().map(|p| p.uid.as_str()).collect();
    assert_eq!(uids, vec!["u2", "u1"]);
    assert_eq!(s.get_pod("u1").unwrap().namespace, "c");
}

#[test]
fn mark_error_and_reset() {
    let mut s = K8sRuntimeState::default();
    s.update_at(vec!["n".to_string()], vec![], vec![], vec![pod("u", "d", "n", None)], at(1));
    s.mark_error_at("lost".to_string(), at(2));
    assert_eq!(s.last_error_message, Some("lost".to_string()));
    assert_eq!(s.last_error_at, Some(at(2)));
    assert_eq!(s.pods.len(), 1);
    s.reset();
    assert!(s.pods.is_empty());
    assert!(s.nodes.is_empty());
    assert_eq!(s.last_discovered_at, None);
}

#[test]
fn pods_under_reads_the_index_as_it_stands() {
    let mut s = K8sRuntimeState::default();
    s.pods_by_node = vec![
        ("n1".to_string(), vec!["x".to_string()]),
        ("n1".to_string(), vec!["y".to_string()]),
    ];
    assert_eq!(s.pods_under(PodIndex::Node, "n1"), vec!["x".to_string()]);
    assert!(s.pods_under(PodIndex::Node, "n2").is_empty());
}
