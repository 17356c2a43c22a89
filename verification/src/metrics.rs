//! Availability metrics derived from a crawled block.
//!
//! Success rates are kept as exact fetched/total pairs; the telemetry
//! layer outside this crate turns them into floating-point gauges.

use vstd::prelude::*;

verus! {

/// Audience of a metrics consumer: the operator's own pipeline or a
/// third-party telemetry collector.
#[derive(Clone, Copy, PartialEq, Eq, Structural, Debug)]
pub enum Origin {
    Internal,
    External,
}

/// How much of a requested sample was actually retrieved: `fetched`
/// items out of `total` requested.
///
/// Well-formed rates have a non-zero total and no more fetched items
/// than requested, so the ratio `fetched / total` lies in `[0, 1]`.
#[derive(Clone, Copy, PartialEq, Eq, Structural, Debug)]
pub struct SuccessRate {
    pub fetched: u64,
    pub total: u64,
}

impl SuccessRate {
    pub open spec fn wf(self) -> bool {
        self.total >= 1 && self.fetched <= self.total
    }

    /// The success rate that a pair of raw counts yields: none for an
    /// empty sample, otherwise `fetched / total` with the fetched count
    /// clipped to the total.
    pub open spec fn spec_new(fetched: u64, total: u64) -> Option<SuccessRate> {
        if total == 0 {
            None
        } else if fetched <= total {
            Some(SuccessRate { fetched, total })
        } else {
            Some(SuccessRate { fetched: total, total })
        }
    }

    /// Build a success rate from raw counts.
    ///
    /// A sample with no requested items has no defined rate and yields
    /// `None`, so no metric is emitted for it; a fetched count beyond
    /// the requested total (which no sampler boundary produces) is
    /// clipped to the total.
    pub fn new(fetched: u64, total: u64) -> (r: Option<SuccessRate>)
        ensures
            r == Self::spec_new(fetched, total),
            total == 0 <==> r is None,
            total >= 1 && fetched <= total ==> r == Some(SuccessRate { fetched, total }),
            total >= 1 && fetched > total ==> r == Some(
                SuccessRate { fetched: total, total },
            ),
            r is Some ==> r->0.wf(),
    {
        if total == 0 {
            None
        } else if fetched <= total {
            Some(SuccessRate { fetched, total })
        } else {
            Some(SuccessRate { fetched: total, total })
        }
    }
}

/// Law: a well-formed success rate is computable as `fetched / total`
/// and that ratio lies in `[0, 1]`: the total is non-zero,
/// `0 <= fetched <= total`, and at any fixed scale the scaled ratio
/// stays at or below the scale (shown here in parts per million).
pub proof fn lemma_success_rate_in_unit_interval(r: SuccessRate)
    requires
        r.wf(),
    ensures
        r.total >= 1,
        0 <= r.fetched <= r.total,
        0 <= (r.fetched * 1000000) / (r.total as int) <= 1000000,
{
    let f = r.fetched as int;
    let t = r.total as int;
    assert(0 <= f * 1000000 <= t * 1000000) by (nonlinear_arith)
        requires
            0 <= f <= t,
    {
    }
    vstd::arithmetic::div_mod::lemma_div_is_ordered(f * 1000000, t * 1000000, t);
    vstd::arithmetic::div_mod::lemma_div_multiples_vanish(1000000, t);
    vstd::arithmetic::div_mod::lemma_div_pos_is_pos(f * 1000000, t);
}

/// A crawl metric: which rate or delay was measured, and its value.
#[derive(Clone, Copy, PartialEq, Eq, Structural, Debug)]
pub enum CrawlMetricValue {
    CellsSuccessRate(SuccessRate),
    RowsSuccessRate(SuccessRate),
    BlockDelay(u64),
}

impl CrawlMetricValue {
    /// The fixed telemetry name of this metric.
    pub open spec fn spec_name(self) -> &'static str {
        match self {
            CrawlMetricValue::CellsSuccessRate(_) => "avail.light.crawl.cells_success_rate",
            CrawlMetricValue::RowsSuccessRate(_) => "avail.light.crawl.rows_success_rate",
            CrawlMetricValue::BlockDelay(_) => "avail.light.crawl.block_delay",
        }
    }

    pub fn name(&self) -> (r: &'static str)
        ensures
            r == self.spec_name(),
    {
        match self {
            CrawlMetricValue::CellsSuccessRate(_) => "avail.light.crawl.cells_success_rate",
            CrawlMetricValue::RowsSuccessRate(_) => "avail.light.crawl.rows_success_rate",
            CrawlMetricValue::BlockDelay(_) => "avail.light.crawl.block_delay",
        }
    }

    /// Whether this metric may be sent to a consumer of the given
    /// origin: crawl metrics go to the operator's own pipeline only.
    pub fn is_allowed(&self, origin: &Origin) -> (r: bool)
        ensures
            r <==> *origin is Internal,
    {
        match origin {
            Origin::Internal => true,
            Origin::External => false,
        }
    }
}

/// A telemetry record handed to the metrics sink: a named gauge whose
/// samples are averaged, carrying either a ratio or a second count.
#[derive(Clone, Copy, PartialEq, Eq, Debug)]
pub enum Record {
    AvgRatio(&'static str, SuccessRate),
    AvgSeconds(&'static str, u64),
}

impl From<CrawlMetricValue> for Record {
    fn from(value: CrawlMetricValue) -> (r: Record) {
        let name = value.name();
        match value {
            CrawlMetricValue::CellsSuccessRate(rate) => Record::AvgRatio(name, rate),
            CrawlMetricValue::RowsSuccessRate(rate) => Record::AvgRatio(name, rate),
            CrawlMetricValue::BlockDelay(seconds) => Record::AvgSeconds(name, seconds),
        }
    }
}

impl vstd::std_specs::convert::FromSpecImpl<CrawlMetricValue> for Record {
    open spec fn obeys_from_spec() -> bool {
        true
    }

    open spec fn from_spec(value: CrawlMetricValue) -> Record {
        match value {
            CrawlMetricValue::CellsSuccessRate(rate) => Record::AvgRatio(
                value.spec_name(),
                rate,
            ),
            CrawlMetricValue::RowsSuccessRate(rate) => Record::AvgRatio(value.spec_name(), rate),
            CrawlMetricValue::BlockDelay(seconds) => Record::AvgSeconds(
                value.spec_name(),
                seconds,
            ),
        }
    }
}

} // verus!
