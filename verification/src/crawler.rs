//! The crawl loop as a state machine.
//!
//! One crawl instance owns a [`Crawler`] and a [`CrawlState`]. The
//! surrounding task performs the suspending work — receiving events,
//! sleeping, fetching from the peer network, recording metrics and
//! forwarding blocks — and feeds each outcome back as a [`CrawlEvent`];
//! [`Crawler::step`] makes every decision in between and says, through
//! the returned [`Transition`], which metrics to record and what to do
//! next. A state marks a suspension point; building the verified block
//! from a header suspends nowhere, so it happens inside the
//! header-update transition rather than in a state of its own. Failures never stop the machine: a bad header, an empty
//! sample or an undelivered forward all lead back to waiting for the
//! next event.

use crate::block::RawHeader;
use crate::block::VerifiedBlock;
use crate::matrix::Dimensions;
use crate::matrix::Partition;
use crate::matrix::Position;
use crate::matrix::cell_positions;
use crate::metrics::CrawlMetricValue;
use crate::metrics::SuccessRate;
use crate::pacing::Delay;
use crate::sampler::count_fetched;
use crate::sampler::count_some;
use crate::sampler::row_indices;
use crate::sampler::spec_row_indices;
use vstd::prelude::*;

verus! {

/// Which sampling strategies run for each block.
#[derive(Clone, Copy, PartialEq, Eq, Structural, Debug)]
pub enum CrawlMode {
    Rows,
    Cells,
    Both,
}

impl CrawlMode {
    pub open spec fn spec_samples_cells(self) -> bool {
        self is Cells || self is Both
    }

    pub open spec fn spec_samples_rows(self) -> bool {
        self is Rows || self is Both
    }

    pub fn samples_cells(&self) -> (r: bool)
        ensures
            r == self.spec_samples_cells(),
    {
        matches!(self, CrawlMode::Cells | CrawlMode::Both)
    }

    pub fn samples_rows(&self) -> (r: bool)
        ensures
            r == self.spec_samples_rows(),
    {
        matches!(self, CrawlMode::Rows | CrawlMode::Both)
    }
}

/// Configuration of the crawl task, read once at startup.
#[derive(Clone, Copy, PartialEq, Eq, Structural, Debug)]
pub struct CrawlConfig {
    /// Whether the crawl loop runs at all.
    pub crawl_block: bool,
    /// Pacing margin between block receipt and sampling, in seconds.
    pub crawl_block_delay: u64,
    /// Which sampling strategies run.
    pub crawl_block_mode: CrawlMode,
    /// The slice of each block's extended matrix to cell-sample;
    /// absent means the whole matrix.
    pub crawl_block_matrix_partition: Option<Partition>,
}

impl Default for CrawlConfig {
    fn default() -> (r: Self)
        ensures
            r.crawl_block == false,
            r.crawl_block_delay == 20,
            r.crawl_block_mode is Cells,
            r.crawl_block_matrix_partition is None,
    {
        Self {
            crawl_block: false,
            crawl_block_delay: 20,
            crawl_block_mode: CrawlMode::Cells,
            crawl_block_matrix_partition: None,
        }
    }
}

/// The crawler's working state between suspension points.
#[derive(Clone, Copy, PartialEq, Eq, Structural, Debug)]
pub enum CrawlState {
    /// Blocked on the next inbound event.
    WaitingForEvent,
    /// Sleeping out the pacing wait for `block`.
    Pacing { block: VerifiedBlock, wait_ms: u64 },
    /// Awaiting the outcome of a cell fetch of `total` positions.
    SamplingCells { block: VerifiedBlock, total: u64 },
    /// Awaiting the outcome of a row fetch of `total` row indices.
    SamplingRows { block: VerifiedBlock, total: u64 },
    /// Awaiting the outcome of forwarding the block downstream.
    Forwarding,
}

impl CrawlState {
    /// Every state that holds a block holds one with a well-formed
    /// extension: sampling is only ever in flight for such blocks.
    pub open spec fn wf(self) -> bool {
        match self {
            CrawlState::Pacing { block, .. } => block.wf() && block.extension is Some,
            CrawlState::SamplingCells { block, .. } => block.wf() && block.extension is Some,
            CrawlState::SamplingRows { block, .. } => block.wf() && block.extension is Some,
            _ => true,
        }
    }

    pub fn is_well_formed(&self) -> (r: bool)
        ensures
            r == self.wf(),
    {
        match self {
            CrawlState::Pacing { block, .. } => block.is_well_formed()
                && block.extension.is_some(),
            CrawlState::SamplingCells { block, .. } => block.is_well_formed()
                && block.extension.is_some(),
            CrawlState::SamplingRows { block, .. } => block.is_well_formed()
                && block.extension.is_some(),
            _ => true,
        }
    }
}

/// An outcome the surrounding task reports back to the machine.
pub enum CrawlEvent {
    /// A new finalized header arrived, `elapsed_ms` milliseconds ago.
    HeaderUpdate { header: RawHeader, elapsed_ms: u64 },
    /// Some other inbound event; the crawler ignores it.
    OtherEvent,
    /// The pacing sleep has completed.
    SleepDone,
    /// The cell fetch completed; `fetched` positions were retrieved.
    CellsFetched { fetched: u64 },
    /// The row fetch completed, one optional payload per requested row.
    RowsFetched { rows: Vec<Option<Vec<u8>>> },
    /// Forwarding completed; `delivered` says whether anyone received it.
    ForwardResult { delivered: bool },
}

/// What the surrounding task must do next.
pub enum CrawlAction {
    /// Block on the next inbound event.
    AwaitEvent,
    /// Sleep for `wait_ms` milliseconds, then report `SleepDone`.
    Sleep { wait_ms: u64 },
    /// Fetch these cells from the peer network, then report the count.
    FetchCells { block_number: u32, positions: Vec<Position> },
    /// Fetch these rows from the peer network, then report the payloads.
    FetchRows { block_number: u32, dimensions: Dimensions, row_indices: Vec<u32> },
    /// Forward the verified block downstream, then report delivery.
    Forward { block: VerifiedBlock },
}

/// One decision of the machine: the state to continue in, the metrics
/// to record (best effort), and the action to perform.
pub struct Transition {
    pub next: CrawlState,
    pub metrics: Vec<CrawlMetricValue>,
    pub action: CrawlAction,
}

/// A transition that gives up on the current block, records nothing
/// and goes back to waiting for the next event.
pub open spec fn spec_resets(t: Transition) -> bool {
    &&& t.next is WaitingForEvent
    &&& t.metrics@ == Seq::<CrawlMetricValue>::empty()
    &&& t.action is AwaitEvent
}

/// The fixed settings of one crawl instance.
#[derive(Clone, Copy, PartialEq, Eq, Structural, Debug)]
pub struct Crawler {
    /// Pacing margin between block receipt and sampling.
    pub delay: Delay,
    /// Which sampling strategies run.
    pub mode: CrawlMode,
    /// The slice of each block's extended matrix to cell-sample.
    pub partition: Partition,
}

impl Crawler {
    pub open spec fn wf(self) -> bool {
        self.partition.wf()
    }

    /// Assemble a crawler from its configured pieces: the pacing delay
    /// in seconds, the mode, and an optional partition where absence
    /// means the whole matrix.
    pub fn new(delay_seconds: u64, mode: CrawlMode, partition: Option<Partition>) -> (r:
        Crawler)
        requires
            delay_seconds <= u64::MAX / 1000,
            partition matches Some(p) ==> p.wf(),
        ensures
            r.wf(),
            r.delay.0 == Some((delay_seconds * 1000) as u64),
            r.mode == mode,
            match partition {
                Some(p) => r.partition == p,
                None => r.partition == (Partition { number: 1, fraction: 1 }),
            },
    {
        let partition = match partition {
            Some(p) => p,
            None => Partition::entire_block(),
        };
        Crawler { delay: Delay(Some(delay_seconds * 1000)), mode, partition }
    }

    /// Sampling begins for a freshly paced block: under a mode with
    /// cell sampling the cell fetch is planned first; otherwise the row
    /// fetch. `pre` is the metrics recorded with this transition.
    pub open spec fn spec_begins_sampling(
        self,
        block: VerifiedBlock,
        pre: Seq<CrawlMetricValue>,
        t: Transition,
    ) -> bool {
        let dims = block.extension->0.dimensions;
        if self.mode.spec_samples_cells() {
            &&& t.next == (CrawlState::SamplingCells {
                block,
                total: dims.partition_positions(self.partition).len() as u64,
            })
            &&& t.metrics@ == pre
            &&& (t.action matches CrawlAction::FetchCells { block_number, positions }
                && block_number == block.block_num && positions@ == dims.partition_positions(
                self.partition,
            ))
        } else {
            &&& t.next == (CrawlState::SamplingRows {
                block,
                total: spec_row_indices(dims.spec_extended_rows()).len() as u64,
            })
            &&& t.metrics@ == pre
            &&& (t.action matches CrawlAction::FetchRows { block_number, dimensions, row_indices }
                && block_number == block.block_num && dimensions == dims && row_indices@
                == spec_row_indices(dims.spec_extended_rows()))
        }
    }

    /// The machine's full transition relation: what `step` decides for
    /// every state and event.
    pub open spec fn spec_step(self, state: CrawlState, event: CrawlEvent, t: Transition) -> bool {
        match (state, event) {
            (CrawlState::WaitingForEvent, CrawlEvent::HeaderUpdate { header, elapsed_ms }) => {
                if !header.spec_valid() {
                    spec_resets(t)
                } else if header.spec_block().extension is None {
                    spec_resets(t)
                } else {
                    match self.delay.0 {
                        Some(d) => if elapsed_ms < d {
                            &&& t.next == (CrawlState::Pacing {
                                block: header.spec_block(),
                                wait_ms: (d - elapsed_ms) as u64,
                            })
                            &&& t.metrics@ == Seq::<CrawlMetricValue>::empty()
                            &&& t.action == (CrawlAction::Sleep {
                                wait_ms: (d - elapsed_ms) as u64,
                            })
                        } else {
                            self.spec_begins_sampling(header.spec_block(), Seq::empty(), t)
                        },
                        None => self.spec_begins_sampling(header.spec_block(), Seq::empty(), t),
                    }
                }
            },
            (CrawlState::Pacing { block, wait_ms }, CrawlEvent::SleepDone) => {
                self.spec_begins_sampling(
                    block,
                    seq![CrawlMetricValue::BlockDelay(wait_ms / 1000)],
                    t,
                )
            },
            (
                CrawlState::SamplingCells { block, total },
                CrawlEvent::CellsFetched { fetched },
            ) => {
                let dims = block.extension->0.dimensions;
                &&& t.metrics@ == (match SuccessRate::spec_new(fetched, total) {
                    Some(rate) => seq![CrawlMetricValue::CellsSuccessRate(rate)],
                    None => Seq::<CrawlMetricValue>::empty(),
                })
                &&& if self.mode.spec_samples_rows() {
                    &&& t.next == (CrawlState::SamplingRows {
                        block,
                        total: spec_row_indices(dims.spec_extended_rows()).len() as u64,
                    })
                    &&& (t.action matches CrawlAction::FetchRows {
                        block_number,
                        dimensions,
                        row_indices,
                    } && block_number == block.block_num && dimensions == dims && row_indices@
                    == spec_row_indices(dims.spec_extended_rows()))
                } else {
                    &&& t.next is Forwarding
                    &&& t.action == (CrawlAction::Forward { block })
                }
            },
            (CrawlState::SamplingRows { block, total }, CrawlEvent::RowsFetched { rows }) => {
                &&& t.metrics@ == (match SuccessRate::spec_new(
                    count_some(rows@) as u64,
                    total,
                ) {
                    Some(rate) => seq![CrawlMetricValue::RowsSuccessRate(rate)],
                    None => Seq::<CrawlMetricValue>::empty(),
                })
                &&& t.next is Forwarding
                &&& t.action == (CrawlAction::Forward { block })
            },
            (CrawlState::Forwarding, CrawlEvent::ForwardResult { .. }) => spec_resets(t),
            _ => spec_resets(t),
        }
    }

    /// Decide the crawler's next move.
    ///
    /// Total over all events: an unparsable header, a block without an
    /// extension, an undelivered forward or an event that does not fit
    /// the state all lead back to waiting, with nothing recorded.
    pub fn step(&self, state: CrawlState, event: CrawlEvent) -> (t: Transition)
        requires
            self.wf(),
            state.wf(),
        ensures
            t.next.wf(),
            self.spec_step(state, event, t),
    {
        match (state, event) {
            (CrawlState::WaitingForEvent, CrawlEvent::HeaderUpdate { header, elapsed_ms }) => {
                match VerifiedBlock::try_from_header(&header) {
                    Err(_) => Self::reset(),
                    Ok(block) => {
                        if block.extension.is_none() {
                            Self::reset()
                        } else {
                            match self.delay.sleep_duration(elapsed_ms) {
                                Some(wait_ms) => Transition {
                                    next: CrawlState::Pacing { block, wait_ms },
                                    metrics: Vec::new(),
                                    action: CrawlAction::Sleep { wait_ms },
                                },
                                None => self.begin_sampling(block, Vec::new()),
                            }
                        }
                    },
                }
            },
            (CrawlState::Pacing { block, wait_ms }, CrawlEvent::SleepDone) => {
                let mut pre: Vec<CrawlMetricValue> = Vec::new();
                pre.push(CrawlMetricValue::BlockDelay(wait_ms / 1000));
                proof {
                    assert(pre@ =~= seq![CrawlMetricValue::BlockDelay(wait_ms / 1000)]);
                }
                self.begin_sampling(block, pre)
            },
            (
                CrawlState::SamplingCells { block, total },
                CrawlEvent::CellsFetched { fetched },
            ) => {
                let mut metrics: Vec<CrawlMetricValue> = Vec::new();
                match SuccessRate::new(fetched, total) {
                    Some(rate) => {
                        metrics.push(CrawlMetricValue::CellsSuccessRate(rate));
                        proof {
                            assert(metrics@ =~= seq![CrawlMetricValue::CellsSuccessRate(rate)]);
                        }
                    },
                    None => (),
                }
                if self.mode.samples_rows() {
                    let dims = block.extension.unwrap().dimensions;
                    let rows = row_indices(dims.extended_rows());
                    let total_rows = rows.len() as u64;
                    Transition {
                        next: CrawlState::SamplingRows { block, total: total_rows },
                        metrics,
                        action: CrawlAction::FetchRows {
                            block_number: block.block_num,
                            dimensions: dims,
                            row_indices: rows,
                        },
                    }
                } else {
                    Transition {
                        next: CrawlState::Forwarding,
                        metrics,
                        action: CrawlAction::Forward { block },
                    }
                }
            },
            (CrawlState::SamplingRows { block, total }, CrawlEvent::RowsFetched { rows }) => {
                let fetched = count_fetched(&rows);
                let mut metrics: Vec<CrawlMetricValue> = Vec::new();
                match SuccessRate::new(fetched, total) {
                    Some(rate) => {
                        metrics.push(CrawlMetricValue::RowsSuccessRate(rate));
                        proof {
                            assert(metrics@ =~= seq![CrawlMetricValue::RowsSuccessRate(rate)]);
                        }
                    },
                    None => (),
                }
                Transition {
                    next: CrawlState::Forwarding,
                    metrics,
                    action: CrawlAction::Forward { block },
                }
            },
            (CrawlState::Forwarding, CrawlEvent::ForwardResult { .. }) => Self::reset(),
            _ => Self::reset(),
        }
    }

    /// Plan the first sampling action for a block, after pacing.
    fn begin_sampling(&self, block: VerifiedBlock, pre: Vec<CrawlMetricValue>) -> (t: Transition)
        requires
            self.wf(),
            block.wf(),
            block.extension is Some,
        ensures
            t.next.wf(),
            self.spec_begins_sampling(block, pre@, t),
    {
        let dims = block.extension.unwrap().dimensions;
        if self.mode.samples_cells() {
            let positions = cell_positions(&dims, &self.partition);
            let total = positions.len() as u64;
            Transition {
                next: CrawlState::SamplingCells { block, total },
                metrics: pre,
                action: CrawlAction::FetchCells {
                    block_number: block.block_num,
                    positions,
                },
            }
        } else {
            let rows = row_indices(dims.extended_rows());
            let total = rows.len() as u64;
            Transition {
                next: CrawlState::SamplingRows { block, total },
                metrics: pre,
                action: CrawlAction::FetchRows {
                    block_number: block.block_num,
                    dimensions: dims,
                    row_indices: rows,
                },
            }
        }
    }

    /// Law: under a mode without row sampling, no step of the machine
    /// ever enters row sampling, plans a row fetch, or emits a
    /// `RowsSuccessRate` metric.
    pub proof fn lemma_rows_gated_by_mode(
        self,
        state: CrawlState,
        event: CrawlEvent,
        t: Transition,
    )
        requires
            self.spec_step(state, event, t),
            !self.mode.spec_samples_rows(),
            !(state is SamplingRows),
        ensures
            !(t.next is SamplingRows),
            !(t.action is FetchRows),
            forall|i: int|
                0 <= i < t.metrics@.len() ==> !(#[trigger] t.metrics@[i] is RowsSuccessRate),
    {
    }

    /// Law: under a mode without cell sampling, no step of the machine
    /// ever enters cell sampling, plans a cell fetch, or emits a
    /// `CellsSuccessRate` metric.
    pub proof fn lemma_cells_gated_by_mode(
        self,
        state: CrawlState,
        event: CrawlEvent,
        t: Transition,
    )
        requires
            self.spec_step(state, event, t),
            !self.mode.spec_samples_cells(),
            !(state is SamplingCells),
        ensures
            !(t.next is SamplingCells),
            !(t.action is FetchCells),
            forall|i: int|
                0 <= i < t.metrics@.len() ==> !(#[trigger] t.metrics@[i] is CellsSuccessRate),
    {
    }

    /// Law: a header update whose header is unparsable, or whose block
    /// carries no extension, records no metric and forwards nothing:
    /// the machine goes straight back to waiting, alive for the next
    /// event.
    pub proof fn lemma_skipped_header(
        self,
        header: RawHeader,
        elapsed_ms: u64,
        t: Transition,
    )
        requires
            self.spec_step(
                CrawlState::WaitingForEvent,
                CrawlEvent::HeaderUpdate { header, elapsed_ms },
                t,
            ),
            !header.spec_valid() || header.spec_block().extension is None,
        ensures
            spec_resets(t),
    {
    }

    /// Law: an undelivered forward — say, with no active subscriber on
    /// the outbound stream — is swallowed: the machine records nothing
    /// and continues with the next event, exactly as for a delivered
    /// one.
    pub proof fn lemma_forward_failure_nonfatal(self, delivered: bool, t: Transition)
        requires
            self.spec_step(
                CrawlState::Forwarding,
                CrawlEvent::ForwardResult { delivered },
                t,
            ),
        ensures
            spec_resets(t),
    {
    }

    /// Law: with mode `Cells`, a crawl cycle for a block with a
    /// non-empty cell plan and no pacing wait left runs cell sampling
    /// only: across the whole cycle exactly one `CellsSuccessRate` and
    /// no other metric is emitted, the block is forwarded, and the
    /// machine returns to waiting whatever the delivery outcome.
    pub proof fn lemma_cells_cycle(
        self,
        header: RawHeader,
        elapsed_ms: u64,
        fetched: u64,
        delivered: bool,
        t1: Transition,
        t2: Transition,
        t3: Transition,
    )
        requires
            self.wf(),
            self.mode is Cells,
            header.spec_valid(),
            header.spec_block().extension is Some,
            header.spec_block().wf(),
            match self.delay.0 {
                Some(d) => elapsed_ms >= d,
                None => true,
            },
            header.spec_block().extension->0.dimensions.partition_positions(
                self.partition,
            ).len() > 0,
            self.spec_step(
                CrawlState::WaitingForEvent,
                CrawlEvent::HeaderUpdate { header, elapsed_ms },
                t1,
            ),
            self.spec_step(t1.next, CrawlEvent::CellsFetched { fetched }, t2),
            self.spec_step(t2.next, CrawlEvent::ForwardResult { delivered }, t3),
        ensures
            t1.metrics@ + t2.metrics@ + t3.metrics@ == seq![
                CrawlMetricValue::CellsSuccessRate(
                    SuccessRate::spec_new(
                        fetched,
                        header.spec_block().extension->0.dimensions.partition_positions(
                            self.partition,
                        ).len() as u64,
                    )->0,
                ),
            ],
            t2.action == (CrawlAction::Forward { block: header.spec_block() }),
            t3.next is WaitingForEvent,
    {
        let block = header.spec_block();
        let dims = block.extension->0.dimensions;
        let total = dims.partition_positions(self.partition).len() as u64;
        crate::matrix::lemma_slice_len_bounded(dims, self.partition);
        assert(t1.next == (CrawlState::SamplingCells { block, total }));
        assert(t2.metrics@ == seq![
            CrawlMetricValue::CellsSuccessRate(SuccessRate::spec_new(fetched, total)->0),
        ]);
        assert(t1.metrics@ + t2.metrics@ + t3.metrics@ =~= seq![
            CrawlMetricValue::CellsSuccessRate(SuccessRate::spec_new(fetched, total)->0),
        ]);
    }

    /// Law: pacing only defers sampling. With mode `Cells` and part of
    /// the delay still to wait, the cycle sleeps first, records the
    /// wait in whole seconds, and then emits exactly one
    /// `CellsSuccessRate` and nothing else, forwarding the block as an
    /// unpaced cycle would.
    pub proof fn lemma_cells_cycle_paced(
        self,
        header: RawHeader,
        elapsed_ms: u64,
        fetched: u64,
        delivered: bool,
        t1: Transition,
        t2: Transition,
        t3: Transition,
        t4: Transition,
    )
        requires
            self.wf(),
            self.mode is Cells,
            header.spec_valid(),
            header.spec_block().extension is Some,
            header.spec_block().wf(),
            self.delay.0 matches Some(d) && elapsed_ms < d,
            header.spec_block().extension->0.dimensions.partition_positions(
                self.partition,
            ).len() > 0,
            self.spec_step(
                CrawlState::WaitingForEvent,
                CrawlEvent::HeaderUpdate { header, elapsed_ms },
                t1,
            ),
            self.spec_step(t1.next, CrawlEvent::SleepDone, t2),
            self.spec_step(t2.next, CrawlEvent::CellsFetched { fetched }, t3),
            self.spec_step(t3.next, CrawlEvent::ForwardResult { delivered }, t4),
        ensures
            t1.action == (CrawlAction::Sleep {
                wait_ms: ((self.delay.0->0 - elapsed_ms) as u64),
            }),
            t1.metrics@ + t2.metrics@ + t3.metrics@ + t4.metrics@ == seq![
                CrawlMetricValue::BlockDelay(((self.delay.0->0 - elapsed_ms) as u64) / 1000),
                CrawlMetricValue::CellsSuccessRate(
                    SuccessRate::spec_new(
                        fetched,
                        header.spec_block().extension->0.dimensions.partition_positions(
                            self.partition,
                        ).len() as u64,
                    )->0,
                ),
            ],
            t3.action == (CrawlAction::Forward { block: header.spec_block() }),
            t4.next is WaitingForEvent,
    {
        let block = header.spec_block();
        let dims = block.extension->0.dimensions;
        let total = dims.partition_positions(self.partition).len() as u64;
        let wait_ms = (self.delay.0->0 - elapsed_ms) as u64;
        crate::matrix::lemma_slice_len_bounded(dims, self.partition);
        assert(t1.next == (CrawlState::Pacing { block, wait_ms }));
        assert(t2.next == (CrawlState::SamplingCells { block, total }));
        assert(t1.metrics@ + t2.metrics@ + t3.metrics@ + t4.metrics@ =~= seq![
            CrawlMetricValue::BlockDelay(wait_ms / 1000),
            CrawlMetricValue::CellsSuccessRate(SuccessRate::spec_new(fetched, total)->0),
        ]);
    }

    /// Law: with mode `Both`, a crawl cycle for a block with a
    /// non-empty cell plan and no pacing wait left emits exactly one
    /// `CellsSuccessRate` and exactly one `RowsSuccessRate`, in that
    /// order and nothing else, and the block is forwarded once.
    pub proof fn lemma_both_cycle(
        self,
        header: RawHeader,
        elapsed_ms: u64,
        fetched: u64,
        rows: Vec<Option<Vec<u8>>>,
        delivered: bool,
        t1: Transition,
        t2: Transition,
        t3: Transition,
        t4: Transition,
    )
        requires
            self.wf(),
            self.mode is Both,
            header.spec_valid(),
            header.spec_block().extension is Some,
            header.spec_block().wf(),
            match self.delay.0 {
                Some(d) => elapsed_ms >= d,
                None => true,
            },
            header.spec_block().extension->0.dimensions.partition_positions(
                self.partition,
            ).len() > 0,
            self.spec_step(
                CrawlState::WaitingForEvent,
                CrawlEvent::HeaderUpdate { header, elapsed_ms },
                t1,
            ),
            self.spec_step(t1.next, CrawlEvent::CellsFetched { fetched }, t2),
            self.spec_step(t2.next, CrawlEvent::RowsFetched { rows }, t3),
            self.spec_step(t3.next, CrawlEvent::ForwardResult { delivered }, t4),
        ensures
            t1.metrics@ + t2.metrics@ + t3.metrics@ + t4.metrics@ == seq![
                CrawlMetricValue::CellsSuccessRate(
                    SuccessRate::spec_new(
                        fetched,
                        header.spec_block().extension->0.dimensions.partition_positions(
                            self.partition,
                        ).len() as u64,
                    )->0,
                ),
                CrawlMetricValue::RowsSuccessRate(
                    SuccessRate::spec_new(
                        count_some(rows@) as u64,
                        spec_row_indices(
                            header.spec_block().extension->0.dimensions.spec_extended_rows(),
                        ).len() as u64,
                    )->0,
                ),
            ],
            t3.action == (CrawlAction::Forward { block: header.spec_block() }),
            t4.next is WaitingForEvent,
    {
        let block = header.spec_block();
        let dims = block.extension->0.dimensions;
        let total = dims.partition_positions(self.partition).len() as u64;
        let row_total = spec_row_indices(dims.spec_extended_rows()).len() as u64;
        crate::matrix::lemma_slice_len_bounded(dims, self.partition);
        assert(t1.next == (CrawlState::SamplingCells { block, total }));
        assert(t2.next == (CrawlState::SamplingRows { block, total: row_total }));
        assert(dims.spec_extended_rows() >= 2);
        assert(row_total >= 1);
        let cr = SuccessRate::spec_new(fetched, total)->0;
        let rr = SuccessRate::spec_new(count_some(rows@) as u64, row_total)->0;
        assert(t1.metrics@ + t2.metrics@ + t3.metrics@ + t4.metrics@ =~= seq![
            CrawlMetricValue::CellsSuccessRate(cr),
            CrawlMetricValue::RowsSuccessRate(rr),
        ]);
    }

    /// Give up on the current block and wait for the next event.
    fn reset() -> (t: Transition)
        ensures
            t.next.wf(),
            spec_resets(t),
    {
        Transition {
            next: CrawlState::WaitingForEvent,
            metrics: Vec::new(),
            action: CrawlAction::AwaitEvent,
        }
    }
}

} // verus!
