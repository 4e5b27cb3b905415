//! Metric samples, their storage lines, and the pure steps of the metric adapters.
pub mod row;
pub mod pod_entity;
pub mod container_entity;
pub mod aggregate;
pub mod partition;
pub mod adapters;
pub mod repositories;
