//! Batch spans: the reports of an aggregation job, grouped by bucket.
//!
//! A span is a list of buckets, each once, with what belongs to the bucket:
//! the aggregate share of its output shares, or its report metadata.

use crate::agg_share::{
    lemma_merge_all_fails_on, merge_all, out_share_views, AggregateShareView, DapAggregateShare,
    DapOutputShare,
};
use crate::error::DapError;
use crate::messages::{PartialBatchSelector, ReportMetadata};
use crate::task::{bucket_of, BucketView, DapBatchBucket, DapTaskConfig};
use vstd::prelude::*;

verus! {

/// The bucket of each output share, by the timestamp of its report.
pub open spec fn share_bucket(part_batch_sel: PartialBatchSelector, time_precision: nat) -> spec_fn(
    DapOutputShare,
) -> BucketView {
    |share: DapOutputShare| bucket_of(part_batch_sel, time_precision, share.time as nat)
}

/// The bucket of each report, by the timestamp in its metadata.
pub open spec fn metadata_bucket(
    part_batch_sel: PartialBatchSelector,
    time_precision: nat,
) -> spec_fn(ReportMetadata) -> BucketView {
    |metadata: ReportMetadata| bucket_of(part_batch_sel, time_precision, metadata.time as nat)
}

/// Whether `key` assigns an item to `bucket`.
pub open spec fn falls_into<A>(key: spec_fn(A) -> BucketView, bucket: BucketView) -> spec_fn(
    A,
) -> bool {
    |item: A| key(item) == bucket
}

/// The items among `items` that `key` assigns to `bucket`, in order.
pub open spec fn in_bucket<A>(items: Seq<A>, key: spec_fn(A) -> BucketView, bucket: BucketView) -> Seq<
    A,
> {
    items.filter(falls_into(key, bucket))
}

/// The bucket that `key` assigns to the `k`-th of `items`.
pub open spec fn bucket_at<A>(items: Seq<A>, key: spec_fn(A) -> BucketView, k: int) -> BucketView {
    key(items[k])
}

/// `buckets` lists the buckets of `items`: each item's bucket is listed, no
/// bucket is listed twice, and each listed bucket holds at least one item.
pub open spec fn lists_buckets_of<A>(
    buckets: Seq<BucketView>,
    items: Seq<A>,
    key: spec_fn(A) -> BucketView,
) -> bool {
    &&& buckets.no_duplicates()
    &&& forall|k: int| 0 <= k < items.len() ==> buckets.contains(#[trigger] bucket_at(items, key, k))
    &&& forall|i: int|
        0 <= i < buckets.len() ==> in_bucket(items, key, #[trigger] buckets[i]).len() > 0
}

/// The aggregate share of the output shares among `shares` that fall into
/// `bucket`, merged in order. `None` where some merge fails.
pub open spec fn bucket_aggregate(
    part_batch_sel: PartialBatchSelector,
    time_precision: nat,
    shares: Seq<DapOutputShare>,
    bucket: BucketView,
) -> Option<AggregateShareView> {
    merge_all(
        out_share_views(in_bucket(shares, share_bucket(part_batch_sel, time_precision), bucket)),
    )
}

/// The buckets of a span of aggregate shares.
pub open spec fn aggregate_span_buckets(span: Seq<(DapBatchBucket<'_>, DapAggregateShare)>) -> Seq<
    BucketView,
> {
    Seq::new(span.len(), |i: int| span[i].0@)
}

/// The buckets of a span of report metadata.
pub open spec fn metadata_span_buckets(
    span: Seq<(DapBatchBucket<'_>, Vec<&ReportMetadata>)>,
) -> Seq<BucketView> {
    Seq::new(span.len(), |i: int| span[i].0@)
}

/// The metadata that `group` refers to.
pub open spec fn referred(group: Seq<&ReportMetadata>) -> Seq<ReportMetadata> {
    Seq::new(group.len(), |j: int| *group[j])
}

/// `span` is the batch span of `shares`: it lists the buckets of the shares
/// and holds, for each bucket, the aggregate share of the shares in it.
pub open spec fn is_span_of_out_shares(
    span: Seq<(DapBatchBucket<'_>, DapAggregateShare)>,
    part_batch_sel: PartialBatchSelector,
    time_precision: nat,
    shares: Seq<DapOutputShare>,
) -> bool {
    &&& lists_buckets_of(
        aggregate_span_buckets(span),
        shares,
        share_bucket(part_batch_sel, time_precision),
    )
    &&& forall|i: int|
        0 <= i < span.len() ==> bucket_aggregate(
            part_batch_sel,
            time_precision,
            shares,
            (#[trigger] span[i]).0@,
        ) == Some(span[i].1@)
}

/// `span` is the batch span of reports with the given metadata: it lists the
/// buckets of the reports and holds, for each bucket, the metadata of the
/// reports in it, in order.
pub open spec fn is_span_of_metadata(
    span: Seq<(DapBatchBucket<'_>, Vec<&ReportMetadata>)>,
    part_batch_sel: PartialBatchSelector,
    time_precision: nat,
    report_meta: Seq<ReportMetadata>,
) -> bool {
    &&& lists_buckets_of(
        metadata_span_buckets(span),
        report_meta,
        metadata_bucket(part_batch_sel, time_precision),
    )
    &&& forall|i: int|
        0 <= i < span.len() ==> referred((#[trigger] span[i]).1@) == in_bucket(
            report_meta,
            metadata_bucket(part_batch_sel, time_precision),
            span[i].0@,
        )
}

/// Taking one more item extends the items of its bucket by it and leaves
/// the other buckets as they are.
pub proof fn lemma_in_bucket_step<A>(
    items: Seq<A>,
    key: spec_fn(A) -> BucketView,
    bucket: BucketView,
    k: int,
)
    requires
        0 <= k < items.len(),
    ensures
        in_bucket(items.take(k + 1), key, bucket) == if key(items[k]) == bucket {
            in_bucket(items.take(k), key, bucket).push(items[k])
        } else {
            in_bucket(items.take(k), key, bucket)
        },
{
    reveal(Seq::filter);
    assert(items.take(k + 1).drop_last() =~= items.take(k));
}

/// The items of a bucket among the first `k` items are the first of the
/// items of that bucket among all.
pub proof fn lemma_in_bucket_prefix<A>(
    items: Seq<A>,
    key: spec_fn(A) -> BucketView,
    bucket: BucketView,
    k: int,
)
    requires
        0 <= k <= items.len(),
    ensures
        in_bucket(items.take(k), key, bucket).len() <= in_bucket(items, key, bucket).len(),
        in_bucket(items.take(k), key, bucket) == in_bucket(items, key, bucket).take(
            in_bucket(items.take(k), key, bucket).len() as int,
        ),
{
    let pred = falls_into(key, bucket);
    assert(items =~= items.take(k) + items.skip(k));
    Seq::filter_distributes_over_add(items.take(k), items.skip(k), pred);
    assert(in_bucket(items.take(k), key, bucket) =~= in_bucket(items, key, bucket).take(
        in_bucket(items.take(k), key, bucket).len() as int,
    ));
}

/// A bucket that no item is assigned to holds no items.
pub proof fn lemma_in_bucket_none<A>(items: Seq<A>, key: spec_fn(A) -> BucketView, bucket: BucketView)
    requires
        forall|k: int| 0 <= k < items.len() ==> #[trigger] bucket_at(items, key, k) != bucket,
    ensures
        in_bucket(items, key, bucket).len() == 0,
{
    let pred = falls_into(key, bucket);
    assert forall|k: int| 0 <= k < items.len() implies !pred(#[trigger] items[k]) by {
        assert(bucket_at(items, key, k) != bucket);
    }
    items.lemma_all_neg_filter_empty(pred);
}

/// Taking one more item keeps a list of buckets the list of the buckets of
/// the items, where the bucket of the item is listed already or is put at
/// the end of the list.
pub proof fn lemma_lists_buckets_step<A>(
    before: Seq<BucketView>,
    after: Seq<BucketView>,
    items: Seq<A>,
    key: spec_fn(A) -> BucketView,
    k: int,
)
    requires
        0 <= k < items.len(),
        lists_buckets_of(before, items.take(k), key),
        after == before || (after == before.push(key(items[k])) && !before.contains(
            key(items[k]),
        )),
        after.contains(key(items[k])),
    ensures
        lists_buckets_of(after, items.take(k + 1), key),
{
    assert forall|j: int| 0 <= j < k + 1 implies after.contains(
        #[trigger] bucket_at(items.take(k + 1), key, j),
    ) by {
        if j < k {
            let b = bucket_at(items.take(k), key, j);
            assert(before.contains(b));
            let w = choose|w: int| 0 <= w < before.len() && before[w] == b;
            assert(after[w] == b);
        }
    }
    assert forall|i: int| 0 <= i < after.len() implies in_bucket(
        items.take(k + 1),
        key,
        #[trigger] after[i],
    ).len() > 0 by {
        lemma_in_bucket_step(items, key, after[i], k);
        if i < before.len() {
            assert(before[i] == after[i]);
        }
    }
}

/// The place of `bucket` in a span of aggregate shares, or the length of the
/// span where it has none.
fn find_aggregate<'a>(span: &Vec<(DapBatchBucket<'a>, DapAggregateShare)>, bucket: &DapBatchBucket<'a>) -> (idx: usize)
    ensures
        idx <= span@.len(),
        idx < span@.len() ==> span@[idx as int].0@ == bucket@,
        idx == span@.len() ==> !aggregate_span_buckets(span@).contains(bucket@),
{
    let mut idx: usize = 0;
    while idx < span.len()
        invariant
            idx <= span@.len(),
            forall|j: int| 0 <= j < idx ==> aggregate_span_buckets(span@)[j] != bucket@,
        decreases span@.len() - idx,
    {
        if span[idx].0.same(bucket) {
            return idx;
        }
        idx += 1;
    }
    idx
}

/// The place of `bucket` in a span of report metadata, or the length of the
/// span where it has none.
fn find_metadata<'a>(span: &Vec<(DapBatchBucket<'a>, Vec<&'a ReportMetadata>)>, bucket: &DapBatchBucket<'a>) -> (idx: usize)
    ensures
        idx <= span@.len(),
        idx < span@.len() ==> span@[idx as int].0@ == bucket@,
        idx == span@.len() ==> !metadata_span_buckets(span@).contains(bucket@),
{
    let mut idx: usize = 0;
    while idx < span.len()
        invariant
            idx <= span@.len(),
            forall|j: int| 0 <= j < idx ==> metadata_span_buckets(span@)[j] != bucket@,
        decreases span@.len() - idx,
    {
        if span[idx].0.same(bucket) {
            return idx;
        }
        idx += 1;
    }
    idx
}

impl DapTaskConfig {
    /// Compute the batch span of a sequence of output shares and, for each
    /// bucket in the span, aggregate the output shares of the bucket into an
    /// aggregate share.
    ///
    /// Fails with a fatal error when the partial batch selector is not of the
    /// query type of the task, or when the output shares of some bucket
    /// cannot be merged.
    pub fn batch_span_for_out_shares<'a>(
        &self,
        part_batch_sel: &'a PartialBatchSelector,
        out_shares: Vec<DapOutputShare>,
    ) -> (r: Result<Vec<(DapBatchBucket<'a>, DapAggregateShare)>, DapError>)
        requires
            self.time_precision > 0,
        ensures
            match r {
                Ok(span) => {
                    &&& self.query.fits_part_batch_sel(*part_batch_sel)
                    &&& is_span_of_out_shares(
                        span@,
                        *part_batch_sel,
                        self.time_precision as nat,
                        out_shares@,
                    )
                },
                Err(e) => {
                    &&& e is Fatal
                    &&& !self.query.fits_part_batch_sel(*part_batch_sel) ==> e->Fatal_0@
                        == "partial batch selector not compatible with task"@
                    &&& self.query.fits_part_batch_sel(*part_batch_sel) ==> exists|k: int|
                        0 <= k < out_shares@.len() && #[trigger] bucket_aggregate(
                            *part_batch_sel,
                            self.time_precision as nat,
                            out_shares@,
                            bucket_at(
                                out_shares@,
                                share_bucket(*part_batch_sel, self.time_precision as nat),
                                k,
                            ),
                        ) is None
                },
            },
    {
        if !self.query.is_valid_part_batch_sel(part_batch_sel) {
            return Err(DapError::fatal("partial batch selector not compatible with task"));
        }
        let ghost shares = out_shares@;
        let ghost sel = *part_batch_sel;
        let ghost tp = self.time_precision as nat;
        let ghost key = share_bucket(sel, tp);
        assert(shares.len() == out_shares.len());
        let mut span: Vec<(DapBatchBucket<'a>, DapAggregateShare)> = Vec::new();
        for out_share in it: out_shares.into_iter()
            invariant
                it.seq() == shares,
                shares.len() <= usize::MAX,
                self.time_precision > 0,
                self.query.fits_part_batch_sel(*part_batch_sel),
                sel == *part_batch_sel,
                tp == self.time_precision as nat,
                key == share_bucket(sel, tp),
                is_span_of_out_shares(span@, sel, tp, shares.take(it.index() as int)),
                forall|i: int| 0 <= i < span@.len() ==> (#[trigger] span@[i]).1.report_count <= it.index(),
        {
            let ghost k = it.index() as int;
            let ghost before = span@;
            let bucket = self.bucket_in(part_batch_sel, out_share.time);
            assert(bucket@ == bucket_at(shares, key, k));
            let idx = find_aggregate(&span, &bucket);
            if idx == span.len() {
                proof {
                    assert forall|j: int| 0 <= j < k implies #[trigger] bucket_at(
                        shares.take(k),
                        key,
                        j,
                    ) != bucket@ by {
                        assert(aggregate_span_buckets(before).contains(
                            bucket_at(shares.take(k), key, j),
                        ));
                    }
                    lemma_in_bucket_none(shares.take(k), key, bucket@);
                    assert(out_share_views(in_bucket(shares.take(k), key, bucket@)) =~= Seq::empty());
                }
                span.push((bucket, DapAggregateShare::default()));
            }
            let ghost middle = span@;
            assert(bucket_aggregate(sel, tp, shares.take(k), middle[idx as int].0@) == Some(
                middle[idx as int].1@,
            ));
            let next = DapAggregateShare {
                report_count: 1,
                checksum: out_share.checksum,
                data: Some(out_share.data),
            };
            assert(next@ == out_share@);
            proof {
                lemma_in_bucket_step(shares, key, bucket@, k);
                let pre = in_bucket(shares.take(k), key, bucket@);
                assert(out_share_views(pre.push(shares[k])) =~= out_share_views(pre).push(
                    out_share@,
                ));
                assert(out_share_views(pre).push(out_share@).drop_last() =~= out_share_views(pre));
            }
            let entry = &mut span[idx];
            match entry.1.merge(next) {
                Ok(()) => {},
                Err(e) => {
                    proof {
                        lemma_in_bucket_prefix(shares, key, bucket@, k + 1);
                        let part = in_bucket(shares.take(k + 1), key, bucket@);
                        let all = in_bucket(shares, key, bucket@);
                        assert(out_share_views(all).take(part.len() as int) =~= out_share_views(
                            part,
                        ));
                        lemma_merge_all_fails_on(out_share_views(all), part.len() as int);
                        assert(bucket_aggregate(sel, tp, shares, bucket_at(shares, key, k)) is None);
                    }
                    return Err(e);
                },
            }
            proof {
                let after = span@;
                assert(aggregate_span_buckets(middle) =~= aggregate_span_buckets(after));
                if idx == before.len() {
                    assert(aggregate_span_buckets(after) =~= aggregate_span_buckets(before).push(
                        bucket@,
                    ));
                } else {
                    assert(aggregate_span_buckets(after) =~= aggregate_span_buckets(before));
                }
                assert(aggregate_span_buckets(after)[idx as int] == bucket@);
                lemma_lists_buckets_step(
                    aggregate_span_buckets(before),
                    aggregate_span_buckets(after),
                    shares,
                    key,
                    k,
                );
                assert forall|i: int| 0 <= i < after.len() implies bucket_aggregate(
                    sel,
                    tp,
                    shares.take(k + 1),
                    (#[trigger] after[i]).0@,
                ) == Some(after[i].1@) && after[i].1.report_count <= k + 1 by {
                    lemma_in_bucket_step(shares, key, after[i].0@, k);
                    if i != idx {
                        assert(aggregate_span_buckets(after)[i] != aggregate_span_buckets(
                            after,
                        )[idx as int]);
                        assert(after[i] == middle[i]);
                        assert(middle[i] == before[i]);
                    }
                }
            }
        }
        assert(shares.take(shares.len() as int) =~= shares);
        Ok(span)
    }
}

impl DapTaskConfig {
    /// Return the batch span of a set of reports with the given metadata:
    /// for each bucket in the span, the metadata of the reports of the
    /// bucket, in the order given.
    ///
    /// Fails with a fatal error when the partial batch selector is not of the
    /// query type of the task.
    pub fn batch_span_for_meta<'a>(
        &self,
        part_batch_sel: &'a PartialBatchSelector,
        report_meta: &'a [ReportMetadata],
    ) -> (r: Result<Vec<(DapBatchBucket<'a>, Vec<&'a ReportMetadata>)>, DapError>)
        requires
            self.time_precision > 0,
        ensures
            match r {
                Ok(span) => {
                    &&& self.query.fits_part_batch_sel(*part_batch_sel)
                    &&& is_span_of_metadata(
                        span@,
                        *part_batch_sel,
                        self.time_precision as nat,
                        report_meta@,
                    )
                },
                Err(e) => {
                    &&& !self.query.fits_part_batch_sel(*part_batch_sel)
                    &&& e matches DapError::Fatal(m)
                    &&& m@ == "partial batch selector not compatible with task"@
                },
            },
    {
        if !self.query.is_valid_part_batch_sel(part_batch_sel) {
            return Err(DapError::fatal("partial batch selector not compatible with task"));
        }
        let ghost metas = report_meta@;
        let ghost sel = *part_batch_sel;
        let ghost tp = self.time_precision as nat;
        let ghost key = metadata_bucket(sel, tp);
        let mut span: Vec<(DapBatchBucket<'a>, Vec<&'a ReportMetadata>)> = Vec::new();
        let mut k: usize = 0;
        while k < report_meta.len()
            invariant
                k <= metas.len(),
                metas == report_meta@,
                self.time_precision > 0,
                sel == *part_batch_sel,
                tp == self.time_precision as nat,
                key == metadata_bucket(sel, tp),
                is_span_of_metadata(span@, sel, tp, metas.take(k as int)),
            decreases metas.len() - k,
        {
            let ghost before = span@;
            let metadata: &'a ReportMetadata = &report_meta[k];
            let bucket = self.bucket_in(part_batch_sel, metadata.time);
            assert(bucket@ == bucket_at(metas, key, k as int));
            let idx = find_metadata(&span, &bucket);
            if idx == span.len() {
                proof {
                    assert forall|j: int| 0 <= j < k implies #[trigger] bucket_at(
                        metas.take(k as int),
                        key,
                        j,
                    ) != bucket@ by {
                        assert(metadata_span_buckets(before).contains(
                            bucket_at(metas.take(k as int), key, j),
                        ));
                    }
                    lemma_in_bucket_none(metas.take(k as int), key, bucket@);
                }
                let group: Vec<&'a ReportMetadata> = Vec::new();
                assert(referred(group@) =~= in_bucket(metas.take(k as int), key, bucket@));
                span.push((bucket, group));
            }
            let ghost middle = span@;
            assert(referred(middle[idx as int].1@) == in_bucket(
                metas.take(k as int),
                key,
                middle[idx as int].0@,
            ));
            let entry = &mut span[idx];
            entry.1.push(metadata);
            proof {
                let after = span@;
                assert(metadata_span_buckets(middle) =~= metadata_span_buckets(after));
                if idx == before.len() {
                    assert(metadata_span_buckets(after) =~= metadata_span_buckets(before).push(
                        bucket@,
                    ));
                } else {
                    assert(metadata_span_buckets(after) =~= metadata_span_buckets(before));
                }
                assert(metadata_span_buckets(after)[idx as int] == bucket@);
                lemma_lists_buckets_step(
                    metadata_span_buckets(before),
                    metadata_span_buckets(after),
                    metas,
                    key,
                    k as int,
                );
                assert forall|i: int| 0 <= i < after.len() implies referred(
                    (#[trigger] after[i]).1@,
                ) == in_bucket(metas.take(k + 1), key, after[i].0@) by {
                    lemma_in_bucket_step(metas, key, after[i].0@, k as int);
                    if i != idx {
                        assert(metadata_span_buckets(after)[i] != metadata_span_buckets(
                            after,
                        )[idx as int]);
                        assert(after[i] == middle[i]);
                        assert(middle[i] == before[i]);
                    } else {
                        assert(referred(after[i].1@) =~= referred(middle[i].1@).push(
                            metas[k as int],
                        ));
                    }
                }
            }
            k += 1;
        }
        assert(metas.take(metas.len() as int) =~= metas);
        Ok(span)
    }
}

} // verus!
