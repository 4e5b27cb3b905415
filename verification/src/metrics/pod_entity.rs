//! Pod metric samples.
use vstd::prelude::*;
use crate::metrics::row::MetricRecord;
use crate::time::UtcTime;

verus! {

/// One pod metric sample as stored in the `.rcd` files.
#[derive(Clone, Copy, Debug, PartialEq, Eq, Structural)]
pub struct MetricPodEntity {
    pub time: UtcTime,
    pub cpu_usage_nano_cores: Option<u64>,
    pub cpu_usage_core_nano_seconds: Option<u64>,
    pub memory_usage_bytes: Option<u64>,
    pub memory_working_set_bytes: Option<u64>,
    pub memory_rss_bytes: Option<u64>,
    pub memory_page_faults: Option<u64>,
    pub network_physical_rx_bytes: Option<u64>,
    pub network_physical_tx_bytes: Option<u64>,
    pub network_physical_rx_errors: Option<u64>,
    pub network_physical_tx_errors: Option<u64>,
    pub es_used_bytes: Option<u64>,
    pub es_capacity_bytes: Option<u64>,
    pub es_inodes_used: Option<u64>,
    pub es_inodes: Option<u64>,
    pub pv_used_bytes: Option<u64>,
    pub pv_capacity_bytes: Option<u64>,
    pub pv_inodes_used: Option<u64>,
    pub pv_inodes: Option<u64>,
}

impl MetricRecord for MetricPodEntity {
    open spec fn time_of(&self) -> UtcTime {
        self.time
    }

    open spec fn values(&self) -> Seq<Option<u64>> {
        seq![
            self.cpu_usage_nano_cores,
            self.cpu_usage_core_nano_seconds,
            self.memory_usage_bytes,
            self.memory_working_set_bytes,
            self.memory_rss_bytes,
            self.memory_page_faults,
            self.network_physical_rx_bytes,
            self.network_physical_tx_bytes,
            self.network_physical_rx_errors,
            self.network_physical_tx_errors,
            self.es_used_bytes,
            self.es_capacity_bytes,
            self.es_inodes_used,
            self.es_inodes,
            self.pv_used_bytes,
            self.pv_capacity_bytes,
            self.pv_inodes_used,
            self.pv_inodes,
        ]
    }

    open spec fn width() -> nat {
        18
    }

    open spec fn column_names() -> Seq<Seq<char>> {
        seq![
            "CPU_USAGE_NANO_CORES"@,
            "CPU_USAGE_CORE_NANO_SECONDS"@,
            "MEMORY_USAGE_BYTES"@,
            "MEMORY_WORKING_SET_BYTES"@,
            "MEMORY_RSS_BYTES"@,
            "MEMORY_PAGE_FAULTS"@,
            "NETWORK_PHYSICAL_RX_BYTES"@,
            "NETWORK_PHYSICAL_TX_BYTES"@,
            "NETWORK_PHYSICAL_RX_ERRORS"@,
            "NETWORK_PHYSICAL_TX_ERRORS"@,
            "ES_USED_BYTES"@,
            "ES_CAPACITY_BYTES"@,
            "ES_INODES_USED"@,
            "ES_INODES"@,
            "PV_USED_BYTES"@,
            "PV_CAPACITY_BYTES"@,
            "PV_INODES_USED"@,
            "PV_INODES"@,
        ]
    }

    open spec fn build(t: UtcTime, v: Seq<Option<u64>>) -> Self {
        MetricPodEntity {
            time: t,
            cpu_usage_nano_cores: v[0],
            cpu_usage_core_nano_seconds: v[1],
            memory_usage_bytes: v[2],
            memory_working_set_bytes: v[3],
            memory_rss_bytes: v[4],
            memory_page_faults: v[5],
            network_physical_rx_bytes: v[6],
            network_physical_tx_bytes: v[7],
            network_physical_rx_errors: v[8],
            network_physical_tx_errors: v[9],
            es_used_bytes: v[10],
            es_capacity_bytes: v[11],
            es_inodes_used: v[12],
            es_inodes: v[13],
            pv_used_bytes: v[14],
            pv_capacity_bytes: v[15],
            pv_inodes_used: v[16],
            pv_inodes: v[17],
        }
    }

    proof fn lemma_shape(r: Self) {
        assert(Self::build(r.time_of(), r.values()) == r);
    }

    proof fn lemma_build(t: UtcTime, v: Seq<Option<u64>>) {
        assert(Self::build(t, v).values() =~= v);
    }

    proof fn lemma_names() {
    }

    fn time(&self) -> (t: UtcTime) {
        self.time
    }

    fn value(&self, i: usize) -> (v: Option<u64>) {
        match i {
            0 => self.cpu_usage_nano_cores,
            1 => self.cpu_usage_core_nano_seconds,
            2 => self.memory_usage_bytes,
            3 => self.memory_working_set_bytes,
            4 => self.memory_rss_bytes,
            5 => self.memory_page_faults,
            6 => self.network_physical_rx_bytes,
            7 => self.network_physical_tx_bytes,
            8 => self.network_physical_rx_errors,
            9 => self.network_physical_tx_errors,
            10 => self.es_used_bytes,
            11 => self.es_capacity_bytes,
            12 => self.es_inodes_used,
            13 => self.es_inodes,
            14 => self.pv_used_bytes,
            15 => self.pv_capacity_bytes,
            16 => self.pv_inodes_used,
            _ => self.pv_inodes,
        }
    }

    fn make(t: UtcTime, v: &Vec<Option<u64>>) -> (r: Self) {
        MetricPodEntity {
            time: t,
            cpu_usage_nano_cores: v[0],
            cpu_usage_core_nano_seconds: v[1],
            memory_usage_bytes: v[2],
            memory_working_set_bytes: v[3],
            memory_rss_bytes: v[4],
            memory_page_faults: v[5],
            network_physical_rx_bytes: v[6],
            network_physical_tx_bytes: v[7],
            network_physical_rx_errors: v[8],
            network_physical_tx_errors: v[9],
            es_used_bytes: v[10],
            es_capacity_bytes: v[11],
            es_inodes_used: v[12],
            es_inodes: v[13],
            pv_used_bytes: v[14],
            pv_capacity_bytes: v[15],
            pv_inodes_used: v[16],
            pv_inodes: v[17],
        }
    }

    fn width_exec() -> (n: usize) {
        18
    }

    fn column_name(i: usize) -> (s: &'static str) {
        match i {
            0 => "CPU_USAGE_NANO_CORES",
            1 => "CPU_USAGE_CORE_NANO_SECONDS",
            2 => "MEMORY_USAGE_BYTES",
            3 => "MEMORY_WORKING_SET_BYTES",
            4 => "MEMORY_RSS_BYTES",
            5 => "MEMORY_PAGE_FAULTS",
            6 => "NETWORK_PHYSICAL_RX_BYTES",
            7 => "NETWORK_PHYSICAL_TX_BYTES",
            8 => "NETWORK_PHYSICAL_RX_ERRORS",
            9 => "NETWORK_PHYSICAL_TX_ERRORS",
            10 => "ES_USED_BYTES",
            11 => "ES_CAPACITY_BYTES",
            12 => "ES_INODES_USED",
            13 => "ES_INODES",
            14 => "PV_USED_BYTES",
            15 => "PV_CAPACITY_BYTES",
            16 => "PV_INODES_USED",
            _ => "PV_INODES",
        }
    }
}

} // verus!
