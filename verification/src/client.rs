//! The pure steps of the Kubernetes client: mapping objects to stored
//! information, reading quantities, and selecting cached objects.
pub mod quantity;
pub mod sources;
pub mod mappers;
pub mod node_mapper;
pub mod compat;
pub mod select;
