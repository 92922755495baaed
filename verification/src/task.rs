//! Task and global configuration, and the mapping of reports to batch
//! buckets.
//!
//! A bucket is the smallest, disjoint set of reports that can be queried.
//! For time-interval queries the bucket of a report is the window of length
//! `time_precision` that holds its timestamp; for fixed-size queries it is
//! the batch named by the batch ID.

use crate::error::{DapAbort, DapError};
use crate::messages::{
    BatchSelector, Duration, HpkeConfig, HpkeKemId, Id, Interval, PartialBatchSelector, Query,
    Time, TransitionFailure,
};
use crate::vdaf::{VdafConfig, VdafVerifyKey};
use crate::version::DapVersion;
use vstd::arithmetic::div_mod::{
    lemma_div_pos_is_pos, lemma_fundamental_div_mod, lemma_mod_division_less_than_divisor,
};
use vstd::prelude::*;

verus! {

/// `Url` of the url crate, a parsed URL. Nothing is known of what is inside.
#[verifier::external_type_specification]
#[verifier::external_body]
pub struct ExUrl(url::Url);

/// `Url::clone` of the url crate. Nothing is claimed of the copy.
pub assume_specification[ <url::Url as Clone>::clone ](u: &url::Url) -> (r: url::Url)
;

/// Draft of the task provisioning extension.
#[derive(Clone, Copy, Debug, PartialEq, Eq)]
pub enum TaskprovVersion {
    Draft02,
}

/// Global DAP parameters common across tasks.
#[derive(Clone)]
pub struct DapGlobalConfig {
    /// A report is accepted if its timestamp is no more than this number of
    /// seconds before the current time.
    pub report_storage_epoch_duration: Duration,
    /// Reports with timestamps greater than the current time plus this value
    /// are rejected.
    pub report_storage_max_future_time_skew: Duration,
    /// Maximum interval duration permitted in a collect request.
    pub max_batch_duration: Duration,
    /// Batch intervals cannot start more than this number of seconds before
    /// the current batch interval.
    pub min_batch_interval_start: Duration,
    /// Batch intervals cannot end more than this number of seconds after the
    /// current batch interval.
    pub max_batch_interval_end: Duration,
    /// HPKE KEM types that are supported. Used when generating HPKE receiver
    /// configurations.
    pub supported_hpke_kems: Vec<HpkeKemId>,
    /// Is the taskprov extension allowed?
    pub allow_taskprov: bool,
    /// Which taskprov draft should be used?
    pub taskprov_version: TaskprovVersion,
}

impl DapGlobalConfig {
    /// There are at most 256 supported KEM algorithms, as many as there are
    /// config IDs.
    pub open spec fn wf(self) -> bool {
        self.supported_hpke_kems@.len() <= 256
    }

    /// The list of HPKE receiver configurations to generate, one for each
    /// supported KEM algorithm, each given by its config ID and its KEM.
    /// `first_config_id` is the first config ID; each following one is the
    /// one before plus one, wrapping around after 255.
    pub fn gen_hpke_receiver_config_list(&self, first_config_id: u8) -> (list: Vec<(u8, HpkeKemId)>)
        requires
            self.supported_hpke_kems@.len() <= 256,
        ensures
            list@.len() == self.supported_hpke_kems@.len(),
            forall|i: int|
                0 <= i < list@.len() ==> #[trigger] list@[i] == (
                    ((first_config_id + i) % 256) as u8,
                    self.supported_hpke_kems@[i],
                ),
    {
        let mut list: Vec<(u8, HpkeKemId)> = Vec::new();
        let mut i: usize = 0;
        while i < self.supported_hpke_kems.len()
            invariant
                i <= self.supported_hpke_kems@.len() <= 256,
                list@.len() == i,
                forall|j: int|
                    0 <= j < i ==> #[trigger] list@[j] == (
                        ((first_config_id + j) % 256) as u8,
                        self.supported_hpke_kems@[j],
                    ),
            decreases self.supported_hpke_kems@.len() - i,
        {
            let config_id = first_config_id.wrapping_add(i as u8);
            list.push((config_id, self.supported_hpke_kems[i]));
            i += 1;
        }
        list
    }
}

/// DAP query configuration.
#[derive(Clone, Debug, Eq, PartialEq)]
pub enum DapQueryConfig {
    /// The "time-interval" query type. Each report in the batch must fall
    /// into the time interval specified by the query.
    TimeInterval,
    /// The "fixed-size" query type. The Leader partitions the reports into
    /// arbitrary batches of roughly the same size.
    FixedSize { max_batch_size: u64 },
}

impl DapQueryConfig {
    /// A partial batch selector fits a query configuration of the same type.
    pub open spec fn fits_part_batch_sel(self, part_batch_sel: PartialBatchSelector) -> bool {
        (self is TimeInterval && part_batch_sel is TimeInterval) || (self is FixedSize
            && part_batch_sel is FixedSizeByBatchId)
    }

    /// A batch selector fits a query configuration of the same type.
    pub open spec fn fits_batch_sel(self, batch_sel: BatchSelector) -> bool {
        (self is TimeInterval && batch_sel is TimeInterval) || (self is FixedSize
            && batch_sel is FixedSizeByBatchId)
    }

    /// Whether the partial batch selector is of the query type of this
    /// configuration.
    pub fn is_valid_part_batch_sel(&self, part_batch_sel: &PartialBatchSelector) -> (r: bool)
        ensures
            r == self.fits_part_batch_sel(*part_batch_sel),
    {
        match (self, part_batch_sel) {
            (DapQueryConfig::TimeInterval, PartialBatchSelector::TimeInterval) => true,
            (
                DapQueryConfig::FixedSize { .. },
                PartialBatchSelector::FixedSizeByBatchId { .. },
            ) => true,
            _ => false,
        }
    }

    /// Whether the batch selector is of the query type of this configuration.
    pub fn is_valid_batch_sel(&self, batch_sel: &BatchSelector) -> (r: bool)
        ensures
            r == self.fits_batch_sel(*batch_sel),
    {
        match (self, batch_sel) {
            (DapQueryConfig::TimeInterval, BatchSelector::TimeInterval { .. }) => true,
            (DapQueryConfig::FixedSize { .. }, BatchSelector::FixedSizeByBatchId { .. }) => true,
            _ => false,
        }
    }
}

/// A batch bucket.
#[derive(Clone, Eq, Hash, PartialEq)]
pub enum DapBatchBucket<'a> {
    FixedSize { batch_id: &'a Id },
    TimeInterval { batch_window: Time },
}

/// The mathematical content of a batch bucket.
pub enum BucketView {
    FixedSize { batch_id: Seq<u8> },
    TimeInterval { batch_window: nat },
}

impl<'a> View for DapBatchBucket<'a> {
    type V = BucketView;

    open spec fn view(&self) -> BucketView {
        match self {
            DapBatchBucket::FixedSize { batch_id } => BucketView::FixedSize { batch_id: batch_id@ },
            DapBatchBucket::TimeInterval { batch_window } => BucketView::TimeInterval {
                batch_window: *batch_window as nat,
            },
        }
    }
}

impl<'a> DapBatchBucket<'a> {
    /// Whether two buckets are the same bucket.
    pub fn same(&self, other: &DapBatchBucket<'a>) -> (r: bool)
        ensures
            r == (self@ == other@),
    {
        match (self, other) {
            (
                DapBatchBucket::FixedSize { batch_id: left },
                DapBatchBucket::FixedSize { batch_id: right },
            ) => left.same(right),
            (
                DapBatchBucket::TimeInterval { batch_window: left },
                DapBatchBucket::TimeInterval { batch_window: right },
            ) => *left == *right,
            _ => false,
        }
    }
}

/// The start of the window of length `time_precision` that holds `time`.
pub open spec fn truncated(time: nat, time_precision: nat) -> nat {
    (time - time % time_precision) as nat
}

/// The bucket of a report with timestamp `time`, under the given partial
/// batch selector.
pub open spec fn bucket_of(
    part_batch_sel: PartialBatchSelector,
    time_precision: nat,
    time: nat,
) -> BucketView {
    match part_batch_sel {
        PartialBatchSelector::TimeInterval => BucketView::TimeInterval {
            batch_window: truncated(time, time_precision),
        },
        PartialBatchSelector::FixedSizeByBatchId { batch_id } => BucketView::FixedSize {
            batch_id: batch_id@,
        },
    }
}

/// The buckets that a batch selector takes in: for a time interval, one
/// window every `time_precision` seconds from the start of the interval, as
/// many as fit into its duration; for a batch ID, the one batch.
pub open spec fn selected_buckets(batch_sel: BatchSelector, time_precision: nat) -> Seq<BucketView> {
    match batch_sel {
        BatchSelector::TimeInterval { batch_interval } => Seq::new(
            batch_interval.duration as nat / time_precision,
            |i: int|
                BucketView::TimeInterval {
                    batch_window: (batch_interval.start + i * time_precision) as nat,
                },
        ),
        BatchSelector::FixedSizeByBatchId { batch_id } => seq![
            BucketView::FixedSize { batch_id: batch_id@ },
        ],
    }
}

/// No bucket occurs twice among the buckets that a batch selector takes in,
/// and a time interval takes in as many buckets as windows fit into its
/// duration.
pub proof fn lemma_selected_buckets(batch_sel: BatchSelector, time_precision: nat)
    requires
        time_precision > 0,
    ensures
        forall|i: int, j: int|
            0 <= i < j < selected_buckets(batch_sel, time_precision).len() ==> selected_buckets(
                batch_sel,
                time_precision,
            )[i] != selected_buckets(batch_sel, time_precision)[j],
        batch_sel matches BatchSelector::TimeInterval { batch_interval } ==> selected_buckets(
            batch_sel,
            time_precision,
        ).len() == batch_interval.duration as nat / time_precision,
{
    let span = selected_buckets(batch_sel, time_precision);
    let p = time_precision as int;
    assert forall|i: int, j: int| 0 <= i < j < span.len() implies span[i] != span[j] by {
        assert(i * p < j * p) by (nonlinear_arith)
            requires
                i < j,
                p > 0,
        ;
    }
}

/// Where a time interval starts at a multiple of `time_precision`, the
/// `i`-th bucket that it takes in is the bucket of every report whose
/// timestamp lies in the `i`-th window of the interval.
pub proof fn lemma_selected_bucket_holds(
    batch_interval: Interval,
    time_precision: nat,
    i: int,
    time: nat,
)
    requires
        time_precision > 0,
        batch_interval.start as nat % time_precision == 0,
        0 <= i < batch_interval.duration as nat / time_precision,
        batch_interval.start + i * time_precision <= time < batch_interval.start + i
            * time_precision + time_precision,
    ensures
        selected_buckets(BatchSelector::TimeInterval { batch_interval }, time_precision)[i]
            == bucket_of(PartialBatchSelector::TimeInterval, time_precision, time),
{
    let p = time_precision as int;
    let start = batch_interval.start as int;
    lemma_fundamental_div_mod(start, p);
    lemma_div_pos_is_pos(start, p);
    let k = (start / p + i) as nat;
    assert(k * p == start + i * p) by (nonlinear_arith)
        requires
            k == start / p + i,
            start == p * (start / p),
    ;
    lemma_window_start(time, time_precision);
    assert(k * time_precision <= time < (k * time_precision) + time_precision);
}

/// Every timestamp falls into exactly one window: the window that starts at
/// `time_precision` times the whole number of windows before `time`. It is
/// the only window that starts at a multiple of `time_precision` and holds
/// `time`.
pub proof fn lemma_window_start(time: nat, time_precision: nat)
    requires
        time_precision > 0,
    ensures
        truncated(time, time_precision) == (time / time_precision) * time_precision,
        truncated(time, time_precision) <= time < truncated(time, time_precision) + time_precision,
        time % time_precision <= time,
        forall|k: nat|
            k * time_precision <= time < #[trigger] (k * time_precision) + time_precision ==> k
                * time_precision == truncated(time, time_precision),
{
    let p = time_precision as int;
    let t = time as int;
    lemma_fundamental_div_mod(t, p);
    lemma_mod_division_less_than_divisor(t, p);
    lemma_div_pos_is_pos(t, p);
    assert(p * (t / p) == (t / p) * p) by (nonlinear_arith);
    assert forall|k: nat| k * time_precision <= time < #[trigger] (k * time_precision)
        + time_precision implies k * time_precision == truncated(time, time_precision) by {
        let q = t / p;
        let ki = k as int;
        assert(ki * p <= t < ki * p + p);
        assert(q * p <= t < q * p + p);
        assert(ki == q) by (nonlinear_arith)
            requires
                p > 0,
                ki * p <= t < ki * p + p,
                q * p <= t < q * p + p,
        ;
    }
}

/// Per-task DAP parameters.
#[derive(Clone)]
pub struct DapTaskConfig {
    /// The protocol version (i.e., which draft).
    pub version: DapVersion,
    /// Base URL of the Leader.
    pub leader_url: url::Url,
    /// Base URL of the Helper.
    pub helper_url: url::Url,
    /// Report granularity. Used by the Client to truncate the timestamp and
    /// by the Aggregators to constrain the batch interval of time-interval
    /// queries.
    pub time_precision: Duration,
    /// The time at which the task expires.
    pub expiration: Time,
    /// The smallest batch permitted for the task.
    pub min_batch_size: u64,
    /// The query configuration of the task.
    pub query: DapQueryConfig,
    /// The VDAF configuration of the task.
    pub vdaf: VdafConfig,
    /// VDAF verification key shared by the Aggregators.
    pub vdaf_verify_key: VdafVerifyKey,
    /// The Collector's HPKE configuration.
    pub collector_hpke_config: HpkeConfig,
}

impl DapTaskConfig {
    /// The time precision is positive, and the verification key is the one
    /// that the VDAF takes.
    pub open spec fn wf(self) -> bool {
        &&& self.time_precision > 0
        &&& self.vdaf is Prio3 <==> self.vdaf_verify_key is Prio3
    }

    /// The time-interval query for the window that holds `now`.
    pub fn query_for_current_batch_window(&self, now: u64) -> (q: Query)
        requires
            self.time_precision > 0,
        ensures
            q == (Query::TimeInterval {
                batch_interval: Interval {
                    start: truncated(now as nat, self.time_precision as nat) as u64,
                    duration: self.time_precision,
                },
            }),
    {
        proof {
            lemma_window_start(now as nat, self.time_precision as nat);
        }
        let start = now - (now % self.time_precision);
        Query::TimeInterval { batch_interval: Interval { start, duration: self.time_precision } }
    }

    /// The start of the window of length `time_precision` that holds `time`.
    pub fn truncate_time(&self, time: Time) -> (window: Time)
        requires
            self.time_precision > 0,
        ensures
            window == truncated(time as nat, self.time_precision as nat),
    {
        proof {
            lemma_window_start(time as nat, self.time_precision as nat);
        }
        time - (time % self.time_precision)
    }

    /// The bucket to which a report with timestamp `time` is assigned. Fails
    /// with a fatal error when the partial batch selector is not of the
    /// query type of the task.
    pub fn bucket_for<'a>(&self, part_batch_sel: &'a PartialBatchSelector, time: Time) -> (r: Result<
        DapBatchBucket<'a>,
        DapError,
    >)
        requires
            self.time_precision > 0,
        ensures
            match r {
                Ok(bucket) => {
                    &&& self.query.fits_part_batch_sel(*part_batch_sel)
                    &&& bucket@ == bucket_of(
                        *part_batch_sel,
                        self.time_precision as nat,
                        time as nat,
                    )
                },
                Err(e) => {
                    &&& !self.query.fits_part_batch_sel(*part_batch_sel)
                    &&& e matches DapError::Fatal(m)
                    &&& m@ == "partial batch selector not compatible with task"@
                },
            },
    {
        if !self.query.is_valid_part_batch_sel(part_batch_sel) {
            return Err(DapError::fatal("partial batch selector not compatible with task"));
        }
        Ok(self.bucket_in(part_batch_sel, time))
    }

    pub(crate) fn bucket_in<'a>(&self, part_batch_sel: &'a PartialBatchSelector, time: Time) -> (bucket:
        DapBatchBucket<'a>)
        requires
            self.time_precision > 0,
        ensures
            bucket@ == bucket_of(*part_batch_sel, self.time_precision as nat, time as nat),
    {
        match part_batch_sel {
            PartialBatchSelector::TimeInterval => DapBatchBucket::TimeInterval {
                batch_window: self.truncate_time(time),
            },
            PartialBatchSelector::FixedSizeByBatchId { batch_id } => DapBatchBucket::FixedSize {
                batch_id,
            },
        }
    }

    /// Return the batch span determined by the given batch selector. The
    /// span includes every bucket to which a report that matches the batch
    /// selector could be assigned, each once. Fails with a fatal error when
    /// the batch selector is not of the query type of the task.
    pub fn batch_span_for_sel<'a>(&self, batch_sel: &'a BatchSelector) -> (r: Result<
        Vec<DapBatchBucket<'a>>,
        DapError,
    >)
        requires
            self.time_precision > 0,
            batch_sel matches BatchSelector::TimeInterval { batch_interval } ==> {
                let windows = batch_interval.duration / self.time_precision;
                &&& windows <= usize::MAX
                &&& windows > 0 ==> batch_interval.start + (windows - 1) * self.time_precision
                    <= u64::MAX
            },
        ensures
            match r {
                Ok(span) => {
                    &&& self.query.fits_batch_sel(*batch_sel)
                    &&& span@.len() == selected_buckets(
                        *batch_sel,
                        self.time_precision as nat,
                    ).len()
                    &&& forall|i: int|
                        0 <= i < span@.len() ==> (#[trigger] span@[i])@ == selected_buckets(
                            *batch_sel,
                            self.time_precision as nat,
                        )[i]
                },
                Err(e) => {
                    &&& !self.query.fits_batch_sel(*batch_sel)
                    &&& e matches DapError::Fatal(m)
                    &&& m@ == "batch selector not compatible with task"@
                },
            },
    {
        if !self.query.is_valid_batch_sel(batch_sel) {
            return Err(DapError::fatal("batch selector not compatible with task"));
        }
        match batch_sel {
            BatchSelector::TimeInterval { batch_interval } => {
                let start = batch_interval.start;
                let windows = batch_interval.duration / self.time_precision;
                let mut span: Vec<DapBatchBucket<'a>> = Vec::new();
                let mut i: u64 = 0;
                while i < windows
                    invariant
                        i <= windows,
                        span@.len() == i,
                        windows > 0 ==> start + (windows - 1) * self.time_precision <= u64::MAX,
                        forall|j: int|
                            0 <= j < i ==> #[trigger] span@[j]@ == (BucketView::TimeInterval {
                                batch_window: (start + j * self.time_precision) as nat,
                            }),
                    decreases windows - i,
                {
                    assert(i * self.time_precision <= (windows - 1) * self.time_precision)
                        by (nonlinear_arith)
                        requires
                            i <= windows - 1,
                    ;
                    span.push(
                        DapBatchBucket::TimeInterval {
                            batch_window: start + i * self.time_precision,
                        },
                    );
                    i += 1;
                }
                Ok(span)
            },
            BatchSelector::FixedSizeByBatchId { batch_id } => {
                let mut span: Vec<DapBatchBucket<'a>> = Vec::new();
                span.push(DapBatchBucket::FixedSize { batch_id });
                Ok(span)
            },
        }
    }

    /// Check the timestamp of a report that arrives at time `now`. A report
    /// is not taken once the task has expired, nor when its timestamp lies
    /// further in the past than reports are stored for, nor when it lies
    /// further in the future than clocks may differ.
    pub fn check_report_time(&self, global_config: &DapGlobalConfig, now: Time, time: Time) -> (r:
        Result<(), TransitionFailure>)
        ensures
            match r {
                Ok(()) => {
                    &&& now <= self.expiration
                    &&& time >= now - global_config.report_storage_epoch_duration
                    &&& time <= now + global_config.report_storage_max_future_time_skew
                },
                Err(e) => if now > self.expiration {
                    e is TaskExpired
                } else if time < now - global_config.report_storage_epoch_duration {
                    e is ReportDropped
                } else {
                    &&& time > now + global_config.report_storage_max_future_time_skew
                    &&& e is ReportTooEarly
                },
            },
    {
        if now > self.expiration {
            Err(TransitionFailure::TaskExpired)
        } else if time < now && now - time > global_config.report_storage_epoch_duration {
            Err(TransitionFailure::ReportDropped)
        } else if time > now && time - now > global_config.report_storage_max_future_time_skew {
            Err(TransitionFailure::ReportTooEarly)
        } else {
            Ok(())
        }
    }

    /// Check if the batch is ready to be collected based on the report
    /// count. With a fixed-size query, a report count above the maximum
    /// batch size is an error.
    pub fn is_report_count_compatible(&self, report_count: u64) -> (r: Result<bool, DapAbort>)
        ensures
            match r {
                Ok(ready) => {
                    &&& self.query matches DapQueryConfig::FixedSize { max_batch_size }
                        ==> report_count <= max_batch_size
                    &&& ready == (report_count >= self.min_batch_size)
                },
                Err(e) => {
                    &&& self.query matches DapQueryConfig::FixedSize { max_batch_size }
                        && report_count > max_batch_size
                    &&& e is InvalidBatchSize
                },
            },
    {
        match self.query {
            DapQueryConfig::TimeInterval => (),
            DapQueryConfig::FixedSize { max_batch_size } => {
                if report_count > max_batch_size {
                    return Err(DapAbort::InvalidBatchSize);
                }
            },
        };
        Ok(report_count >= self.min_batch_size)
    }
}

} // verus!
