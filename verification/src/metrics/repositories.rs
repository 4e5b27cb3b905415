//! The metric repositories, each over the file adapter of its object kind and resolution.
use vstd::prelude::*;
use crate::metrics::adapters::{MetricContainerDayFsAdapter, MetricPodDayFsAdapter, MetricPodHourFsAdapter};

verus! {

/// File adapter of the `MetricNodeDay` rows; its reads and writes go through the file system.
#[derive(Clone, Copy, Debug)]
pub struct MetricNodeDayFsAdapter;

/// File adapter of the `MetricNodeHour` rows; its reads and writes go through the file system.
#[derive(Clone, Copy, Debug)]
pub struct MetricNodeHourFsAdapter;

/// File adapter of the `MetricNodeMinute` rows; its reads and writes go through the file system.
#[derive(Clone, Copy, Debug)]
pub struct MetricNodeMinuteFsAdapter;

/// File adapter of the `MetricPodMinute` rows; its reads and writes go through the file system.
#[derive(Clone, Copy, Debug)]
pub struct MetricPodMinuteFsAdapter;

/// File adapter of the `MetricContainerHour` rows; its reads and writes go through the file system.
#[derive(Clone, Copy, Debug)]
pub struct MetricContainerHourFsAdapter;

/// File adapter of the `MetricContainerMinute` rows; its reads and writes go through the file system.
#[derive(Clone, Copy, Debug)]
pub struct MetricContainerMinuteFsAdapter;

/// Repository over the [`MetricNodeDayFsAdapter`].
pub struct MetricNodeDayRepository {
    adapter: MetricNodeDayFsAdapter,
}

impl MetricNodeDayRepository {
    /// A repository over its file adapter.
    pub fn new() -> (r: Self) {
        Self { adapter: MetricNodeDayFsAdapter }
    }

    /// The file adapter that the repository reads and writes through.
    pub fn fs_adapter(&self) -> (a: &MetricNodeDayFsAdapter) {
        &self.adapter
    }
}

/// Repository over the [`MetricNodeHourFsAdapter`].
pub struct MetricNodeHourRepository {
    adapter: MetricNodeHourFsAdapter,
}

impl MetricNodeHourRepository {
    /// A repository over its file adapter.
    pub fn new() -> (r: Self) {
        Self { adapter: MetricNodeHourFsAdapter }
    }

    /// The file adapter that the repository reads and writes through.
    pub fn fs_adapter(&self) -> (a: &MetricNodeHourFsAdapter) {
        &self.adapter
    }
}

/// Repository over the [`MetricNodeMinuteFsAdapter`].
pub struct MetricNodeMinuteRepository {
    adapter: MetricNodeMinuteFsAdapter,
}

impl MetricNodeMinuteRepository {
    /// A repository over its file adapter.
    pub fn new() -> (r: Self) {
        Self { adapter: MetricNodeMinuteFsAdapter }
    }

    /// The file adapter that the repository reads and writes through.
    pub fn fs_adapter(&self) -> (a: &MetricNodeMinuteFsAdapter) {
        &self.adapter
    }
}

/// Repository over the [`MetricPodDayFsAdapter`].
pub struct MetricPodDayRepository {
    adapter: MetricPodDayFsAdapter,
}

impl MetricPodDayRepository {
    /// A repository over its file adapter.
    pub fn new() -> (r: Self) {
        Self { adapter: MetricPodDayFsAdapter }
    }

    /// The file adapter that the repository reads and writes through.
    pub fn fs_adapter(&self) -> (a: &MetricPodDayFsAdapter) {
        &self.adapter
    }
}

/// Repository over the [`MetricPodHourFsAdapter`].
pub struct MetricPodHourRepository {
    adapter: MetricPodHourFsAdapter,
}

impl MetricPodHourRepository {
    /// A repository over its file adapter.
    pub fn new() -> (r: Self) {
        Self { adapter: MetricPodHourFsAdapter }
    }

    /// The file adapter that the repository reads and writes through.
    pub fn fs_adapter(&self) -> (a: &MetricPodHourFsAdapter) {
        &self.adapter
    }
}

/// Repository over the [`MetricPodMinuteFsAdapter`].
pub struct MetricPodMinuteRepository {
    adapter: MetricPodMinuteFsAdapter,
}

impl MetricPodMinuteRepository {
    /// A repository over its file adapter.
    pub fn new() -> (r: Self) {
        Self { adapter: MetricPodMinuteFsAdapter }
    }

    /// The file adapter that the repository reads and writes through.
    pub fn fs_adapter(&self) -> (a: &MetricPodMinuteFsAdapter) {
        &self.adapter
    }
}

/// Repository over the [`MetricContainerDayFsAdapter`].
pub struct MetricContainerDayRepository {
    adapter: MetricContainerDayFsAdapter,
}

impl MetricContainerDayRepository {
    /// A repository over its file adapter.
    pub fn new() -> (r: Self) {
        Self { adapter: MetricContainerDayFsAdapter }
    }

    /// The file adapter that the repository reads and writes through.
    pub fn fs_adapter(&self) -> (a: &MetricContainerDayFsAdapter) {
        &self.adapter
    }
}

/// Repository over the [`MetricContainerHourFsAdapter`].
pub struct MetricContainerHourRepository {
    adapter: MetricContainerHourFsAdapter,
}

impl MetricContainerHourRepository {
    /// A repository over its file adapter.
    pub fn new() -> (r: Self) {
        Self { adapter: MetricContainerHourFsAdapter }
    }

    /// The file adapter that the repository reads and writes through.
    pub fn fs_adapter(&self) -> (a: &MetricContainerHourFsAdapter) {
        &self.adapter
    }
}

/// Repository over the [`MetricContainerMinuteFsAdapter`].
pub struct MetricContainerMinuteRepository {
    adapter: MetricContainerMinuteFsAdapter,
}

impl MetricContainerMinuteRepository {
    /// A repository over its file adapter.
    pub fn new() -> (r: Self) {
        Self { adapter: MetricContainerMinuteFsAdapter }
    }

    /// The file adapter that the repository reads and writes through.
    pub fn fs_adapter(&self) -> (a: &MetricContainerMinuteFsAdapter) {
        &self.adapter
    }
}

} // verus!
