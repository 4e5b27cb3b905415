//! Runtime state: raised alerts and the discovered cluster.
pub mod alerts;
pub mod k8s;
