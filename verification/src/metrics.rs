//! Engine counters and latency statistics.
use vstd::prelude::*;

verus! {

#[derive(Debug, Clone, Copy, PartialEq, Eq, Structural)]
pub struct LatencyStats {
    pub count: u64,
    pub total_micros: u128,
    pub max_micros: u128,
}

impl Default for LatencyStats {
    fn default() -> (r: Self)
        ensures
            r == (LatencyStats { count: 0, total_micros: 0, max_micros: 0 }),
    {
        Self { count: 0, total_micros: 0, max_micros: 0 }
    }
}

impl LatencyStats {
    /// Whether one more sample of `micros` fits in the counters.
    pub open spec fn can_record(self, micros: u128) -> bool {
        self.count < u64::MAX && self.total_micros + micros <= u128::MAX
    }

    pub fn record(&mut self, micros: u128)
        requires
            old(self).can_record(micros),
        ensures
            final(self).count == old(self).count + 1,
            final(self).total_micros == old(self).total_micros + micros,
            final(self).max_micros == (if old(self).max_micros < micros {
                micros
            } else {
                old(self).max_micros
            }),
    {
        self.count = self.count + 1;
        self.total_micros = self.total_micros + micros;
        if self.max_micros < micros {
            self.max_micros = micros;
        }
    }

    pub fn avg_micros(&self) -> (r: u128)
        ensures
            r == (if self.count == 0 {
                0
            } else {
                self.total_micros / (self.count as u128)
            }),
    {
        if self.count == 0 {
            return 0;
        }
        self.total_micros / (self.count as u128)
    }
}

#[derive(Debug, Clone, Copy, PartialEq, Eq, Structural)]
pub struct EngineMetrics {
    pub ingest_latency: LatencyStats,
    pub query_latency: LatencyStats,
    pub wal_bytes_written: u64,
    pub wal_entries: u64,
    pub hot_record_count: u64,
    pub cold_record_count: u64,
}

impl Default for EngineMetrics {
    fn default() -> (r: Self)
        ensures
            r.ingest_latency == (LatencyStats { count: 0, total_micros: 0, max_micros: 0 }),
            r.query_latency == (LatencyStats { count: 0, total_micros: 0, max_micros: 0 }),
            r.wal_bytes_written == 0,
            r.wal_entries == 0,
            r.hot_record_count == 0,
            r.cold_record_count == 0,
    {
        Self {
            ingest_latency: LatencyStats::default(),
            query_latency: LatencyStats::default(),
            wal_bytes_written: 0,
            wal_entries: 0,
            hot_record_count: 0,
            cold_record_count: 0,
        }
    }
}

impl EngineMetrics {
    pub fn record_ingest(&mut self, micros: u128, wal_bytes: u64, wal_entries: u64)
        requires
            old(self).ingest_latency.can_record(micros),
            old(self).wal_bytes_written + wal_bytes <= u64::MAX,
            old(self).wal_entries + wal_entries <= u64::MAX,
        ensures
            *final(self) == (EngineMetrics {
                ingest_latency: LatencyStats {
                    count: (old(self).ingest_latency.count + 1) as u64,
                    total_micros: (old(self).ingest_latency.total_micros + micros) as u128,
                    max_micros: if old(self).ingest_latency.max_micros < micros {
                        micros
                    } else {
                        old(self).ingest_latency.max_micros
                    },
                },
                wal_bytes_written: (old(self).wal_bytes_written + wal_bytes) as u64,
                wal_entries: (old(self).wal_entries + wal_entries) as u64,
                ..*old(self)
            }),
    {
        self.ingest_latency.record(micros);
        self.wal_bytes_written = self.wal_bytes_written + wal_bytes;
        self.wal_entries = self.wal_entries + wal_entries;
    }

    pub fn record_query(&mut self, micros: u128)
        requires
            old(self).query_latency.can_record(micros),
        ensures
            *final(self) == (EngineMetrics {
                query_latency: LatencyStats {
                    count: (old(self).query_latency.count + 1) as u64,
                    total_micros: (old(self).query_latency.total_micros + micros) as u128,
                    max_micros: if old(self).query_latency.max_micros < micros {
                        micros
                    } else {
                        old(self).query_latency.max_micros
                    },
                },
                ..*old(self)
            }),
    {
        self.query_latency.record(micros);
    }

    pub fn update_record_counts(&mut self, hot: u64, cold: u64)
        ensures
            *final(self) == (EngineMetrics {
                hot_record_count: hot,
                cold_record_count: cold,
                ..*old(self)
            }),
    {
        self.hot_record_count = hot;
        self.cold_record_count = cold;
    }
}

} // verus!
