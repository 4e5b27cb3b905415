//! Container metric samples.
use vstd::prelude::*;
use crate::metrics::row::MetricRecord;
use crate::time::UtcTime;

verus! {

/// One container metric sample as stored in the `.rcd` files.
#[derive(Clone, Copy, Debug, PartialEq, Eq, Structural)]
pub struct MetricContainerEntity {
    pub time: UtcTime,
    pub cpu_usage_nano_cores: Option<u64>,
    pub cpu_usage_core_nano_seconds: Option<u64>,
    pub memory_usage_bytes: Option<u64>,
    pub memory_working_set_bytes: Option<u64>,
    pub memory_rss_bytes: Option<u64>,
    pub memory_page_faults: Option<u64>,
    pub fs_used_bytes: Option<u64>,
    pub fs_capacity_bytes: Option<u64>,
    pub fs_inodes_used: Option<u64>,
    pub fs_inodes: Option<u64>,
}

impl MetricRecord for MetricContainerEntity {
    open spec fn time_of(&self) -> UtcTime {
        self.time
    }

    open spec fn values(&self) -> Seq<Option<u64>> {
        seq![
            self.cpu_usage_nano_cores,
            self.cpu_usage_core_nano_seconds,
            self.memory_usage_bytes,
            self.memory_working_set_bytes,
            self.memory_rss_bytes,
            self.memory_page_faults,
            self.fs_used_bytes,
            self.fs_capacity_bytes,
            self.fs_inodes_used,
            self.fs_inodes,
        ]
    }

    open spec fn width() -> nat {
        10
    }

    open spec fn column_names() -> Seq<Seq<char>> {
        seq![
            "CPU_USAGE_NANO_CORES"@,
            "CPU_USAGE_CORE_NANO_SECONDS"@,
            "MEMORY_USAGE_BYTES"@,
            "MEMORY_WORKING_SET_BYTES"@,
            "MEMORY_RSS_BYTES"@,
            "MEMORY_PAGE_FAULTS"@,
            "FS_USED_BYTES"@,
            "FS_CAPACITY_BYTES"@,
            "FS_INODES_USED"@,
            "FS_INODES"@,
        ]
    }

    open spec fn build(t: UtcTime, v: Seq<Option<u64>>) -> Self {
        MetricContainerEntity {
            time: t,
            cpu_usage_nano_cores: v[0],
            cpu_usage_core_nano_seconds: v[1],
            memory_usage_bytes: v[2],
            memory_working_set_bytes: v[3],
            memory_rss_bytes: v[4],
            memory_page_faults: v[5],
            fs_used_bytes: v[6],
            fs_capacity_bytes: v[7],
            fs_inodes_used: v[8],
            fs_inodes: v[9],
        }
    }

    proof fn lemma_shape(r: Self) {
        assert(Self::build(r.time_of(), r.values()) == r);
    }

    proof fn lemma_build(t: UtcTime, v: Seq<Option<u64>>) {
        assert(Self::build(t, v).values() =~= v);
    }

    proof fn lemma_names() {
    }

    fn time(&self) -> (t: UtcTime) {
        self.time
    }

    fn value(&self, i: usize) -> (v: Option<u64>) {
        match i {
            0 => self.cpu_usage_nano_cores,
            1 => self.cpu_usage_core_nano_seconds,
            2 => self.memory_usage_bytes,
            3 => self.memory_working_set_bytes,
            4 => self.memory_rss_bytes,
            5 => self.memory_page_faults,
            6 => self.fs_used_bytes,
            7 => self.fs_capacity_bytes,
            8 => self.fs_inodes_used,
            _ => self.fs_inodes,
        }
    }

    fn make(t: UtcTime, v: &Vec<Option<u64>>) -> (r: Self) {
        MetricContainerEntity {
            time: t,
            cpu_usage_nano_cores: v[0],
            cpu_usage_core_nano_seconds: v[1],
            memory_usage_bytes: v[2],
            memory_working_set_bytes: v[3],
            memory_rss_bytes: v[4],
            memory_page_faults: v[5],
            fs_used_bytes: v[6],
            fs_capacity_bytes: v[7],
            fs_inodes_used: v[8],
            fs_inodes: v[9],
        }
    }

    fn width_exec() -> (n: usize) {
        10
    }

    fn column_name(i: usize) -> (s: &'static str) {
        match i {
            0 => "CPU_USAGE_NANO_CORES",
            1 => "CPU_USAGE_CORE_NANO_SECONDS",
            2 => "MEMORY_USAGE_BYTES",
            3 => "MEMORY_WORKING_SET_BYTES",
            4 => "MEMORY_RSS_BYTES",
            5 => "MEMORY_PAGE_FAULTS",
            6 => "FS_USED_BYTES",
            7 => "FS_CAPACITY_BYTES",
            8 => "FS_INODES_USED",
            _ => "FS_INODES",
        }
    }
}

} // verus!
