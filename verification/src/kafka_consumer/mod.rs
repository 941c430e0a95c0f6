//! The consumer that periodically reads the Kafka topics of every data
//! source and hands what it finds to reviewd: the metadata of new messages,
//! and the raw text of events that have none yet.

pub mod fetch;

use vstd::prelude::*;

verus! {

/// The seconds between two rounds when none is configured.
pub const DEFAULT_INTERVAL: u64 = 900;

/// The most Kafka messages read in one round when no limit is configured.
pub const DEFAULT_MAX_OFFSET_COUNT: usize = 1000;

/// Where the consumer reads from and writes to, and how often.
pub struct KafkaConfig {
    pub kafka_url: String,
    pub reviewd_addr: String,
    pub interval: Option<u64>,
    pub max_offset_count: Option<usize>,
}

/// The address of the reviewd API for a path under `/api/`.
pub open spec fn api_url(reviewd_addr: Seq<char>, path: Seq<char>) -> Seq<char> {
    "http://"@ + reviewd_addr + "/api/"@ + path
}

impl KafkaConfig {
    pub fn new(
        kafka_url: String,
        reviewd_addr: String,
        interval: Option<u64>,
        max_offset_count: Option<usize>,
    ) -> (r: Self)
        ensures
            r.kafka_url@ == kafka_url@,
            r.reviewd_addr@ == reviewd_addr@,
            r.interval == interval,
            r.max_offset_count == max_offset_count,
    {
        KafkaConfig { kafka_url, reviewd_addr, interval, max_offset_count }
    }

    /// The seconds between two rounds: the configured interval, or 900.
    pub fn interval_seconds(&self) -> (r: u64)
        ensures
            r == match self.interval {
                Some(v) => v,
                None => DEFAULT_INTERVAL,
            },
    {
        match self.interval {
            Some(v) => v,
            None => DEFAULT_INTERVAL,
        }
    }

    /// The most messages read in one round: the configured limit, or 1000.
    pub fn offset_limit(&self) -> (r: usize)
        ensures
            r == match self.max_offset_count {
                Some(v) => v,
                None => DEFAULT_MAX_OFFSET_COUNT,
            },
    {
        match self.max_offset_count {
            Some(v) => v,
            None => DEFAULT_MAX_OFFSET_COUNT,
        }
    }

    /// Where the data sources, and so the topics to read, are listed.
    pub fn data_source_url(&self) -> (r: String)
        ensures
            r@ == api_url(self.reviewd_addr@, "data_source"@),
    {
        let mut r = String::from_str("http://");
        r.append(self.reviewd_addr.as_str());
        r.append("/api/");
        r.append("data_source");
        r
    }
}

} // verus!
