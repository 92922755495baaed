//! Output shares and aggregate shares.
//!
//! An aggregate share is the sum of the output shares of a set of reports,
//! together with the number of reports and the XOR of their checksums.
//! Merging is associative and commutative, and the empty aggregate share is
//! its identity.

use crate::error::DapError;
use crate::vdaf::{ShareData, VdafAggregateShare, VdafError};
use vstd::arithmetic::div_mod::lemma_add_mod_noop_right;
use vstd::prelude::*;

verus! {

/// An output share produced by an Aggregator for a single report.
#[derive(Clone, Debug, PartialEq, Eq)]
pub struct DapOutputShare {
    /// Timestamp of the report.
    pub time: u64,
    pub checksum: [u8; 32],
    pub data: VdafAggregateShare,
}

/// An aggregate share computed by combining a set of output shares.
#[derive(Clone, Debug, PartialEq, Eq)]
pub struct DapAggregateShare {
    pub report_count: u64,
    pub checksum: [u8; 32],
    pub data: Option<VdafAggregateShare>,
}

/// The mathematical content of an aggregate share.
pub struct AggregateShareView {
    pub report_count: nat,
    pub checksum: Seq<u8>,
    pub data: Option<ShareData>,
}

/// The byte-wise XOR of two checksums.
pub open spec fn xor_bytes(a: Seq<u8>, b: Seq<u8>) -> Seq<u8> {
    Seq::new(a.len(), |i: int| a[i] ^ b[i])
}

impl AggregateShareView {
    /// The aggregate share of no reports.
    pub open spec fn zero() -> AggregateShareView {
        AggregateShareView { report_count: 0, checksum: Seq::new(32, |i: int| 0u8), data: None }
    }

    /// The checksum has 32 bytes, and data is absent exactly when no report
    /// has been counted.
    pub open spec fn wf(self) -> bool {
        &&& self.checksum.len() == 32
        &&& self.data is None <==> self.report_count == 0
    }

    /// The data of the merge of two aggregate shares, where they can be merged.
    pub open spec fn merged_data(self, other: AggregateShareView) -> Option<ShareData> {
        match (self.data, other.data) {
            (Some(left), Some(right)) => Some(left.sum(right)),
            (None, Some(right)) => Some(right),
            (_, None) => self.data,
        }
    }

    /// Two aggregate shares can be merged unless both hold data and the
    /// data differ in field or in length.
    pub open spec fn mergeable(self, other: AggregateShareView) -> bool {
        match (self.data, other.data) {
            (Some(left), Some(right)) => left.compatible(right),
            _ => true,
        }
    }

    /// The merge of two aggregate shares: counts add, checksums XOR, data
    /// add element-wise. `None` where the two cannot be merged.
    pub open spec fn merged(self, other: AggregateShareView) -> Option<AggregateShareView> {
        if self.mergeable(other) {
            Some(
                AggregateShareView {
                    report_count: self.report_count + other.report_count,
                    checksum: xor_bytes(self.checksum, other.checksum),
                    data: self.merged_data(other),
                },
            )
        } else {
            None
        }
    }
}

/// The merge of `acc`, where there is one, with `next`.
pub open spec fn merged_onto(acc: Option<AggregateShareView>, next: AggregateShareView) -> Option<
    AggregateShareView,
> {
    match acc {
        Some(a) => a.merged(next),
        None => None,
    }
}

/// The merge of `first` with `rest`, where there is one.
pub open spec fn merged_under(first: AggregateShareView, rest: Option<AggregateShareView>) -> Option<
    AggregateShareView,
> {
    match rest {
        Some(r) => first.merged(r),
        None => None,
    }
}

/// The aggregate share obtained by merging `shares` one after another into
/// the empty aggregate share. `None` where some merge fails.
pub open spec fn merge_all(shares: Seq<AggregateShareView>) -> Option<AggregateShareView>
    decreases shares.len(),
{
    if shares.len() == 0 {
        Some(AggregateShareView::zero())
    } else {
        merged_onto(merge_all(shares.drop_last()), shares.last())
    }
}

impl View for DapAggregateShare {
    type V = AggregateShareView;

    open spec fn view(&self) -> AggregateShareView {
        AggregateShareView {
            report_count: self.report_count as nat,
            checksum: self.checksum@,
            data: match self.data {
                Some(d) => Some(d@),
                None => None,
            },
        }
    }
}

impl View for DapOutputShare {
    type V = AggregateShareView;

    /// An output share counts as the aggregate share of its one report.
    open spec fn view(&self) -> AggregateShareView {
        AggregateShareView { report_count: 1, checksum: self.checksum@, data: Some(self.data@) }
    }
}

/// The aggregate-share content of each output share in `shares`.
pub open spec fn out_share_views(shares: Seq<DapOutputShare>) -> Seq<AggregateShareView> {
    Seq::new(shares.len(), |i: int| shares[i]@)
}

impl Default for DapAggregateShare {
    fn default() -> (r: Self)
        ensures
            r@ == AggregateShareView::zero(),
    {
        let r = DapAggregateShare { report_count: 0, checksum: [0u8; 32], data: None };
        assert(r@.checksum =~= AggregateShareView::zero().checksum);
        r
    }
}

impl DapAggregateShare {
    /// Merge `other` into this aggregate share. This method is run by an
    /// Aggregator.
    ///
    /// Fails with a fatal error, leaving this aggregate share as it was, when
    /// both hold data and the data are over different fields or differ in
    /// length.
    pub fn merge(&mut self, other: DapAggregateShare) -> (r: Result<(), DapError>)
        requires
            old(self).report_count + other.report_count <= u64::MAX,
        ensures
            match r {
                Ok(()) => {
                    &&& old(self)@.merged(other@) == Some(final(self)@)
                    &&& old(self)@.wf() && other@.wf() ==> final(self)@.wf()
                },
                Err(e) => {
                    &&& old(self)@.merged(other@) is None
                    &&& final(self)@ == old(self)@
                    &&& e is Fatal
                    &&& old(self)@.data->0.field != other@.data->0.field
                        ==> e->Fatal_0@ == "invalid aggregate share merge"@
                },
            },
    {
        let DapAggregateShare { report_count, checksum, data } = other;
        match data {
            None => {},
            Some(right) => {
                if self.data.is_none() {
                    self.data = Some(right);
                } else {
                    match &mut self.data {
                        Some(left) => {
                            match left.merge(&right) {
                                Ok(()) => {},
                                Err(None) => {
                                    return Err(DapError::fatal("invalid aggregate share merge"));
                                },
                                Err(Some(VdafError::Vdaf(message))) => {
                                    return Err(DapError::Fatal(message));
                                },
                                Err(Some(VdafError::Codec(message))) => {
                                    return Err(DapError::Fatal(message));
                                },
                            }
                        },
                        None => {},
                    }
                }
            },
        }
        self.report_count = self.report_count + report_count;
        let mut i: usize = 0;
        while i < 32
            invariant
                i <= 32,
                self.report_count == old(self).report_count + report_count,
                self@.data == old(self)@.merged_data(other@),
                forall|j: int| 0 <= j < i ==> self.checksum@[j] == old(self).checksum@[j] ^ checksum@[j],
                forall|j: int| i <= j < 32 ==> self.checksum@[j] == old(self).checksum@[j],
            decreases 32 - i,
        {
            self.checksum[i] = self.checksum[i] ^ checksum[i];
            i += 1;
        }
        assert(self@.checksum =~= xor_bytes(old(self)@.checksum, other@.checksum));
        Ok(())
    }

    /// Return `true` if the aggregate share contains no reports.
    pub fn empty(&self) -> (r: bool)
        ensures
            r == (self@.report_count == 0),
    {
        self.report_count == 0
    }

    /// Set the aggregate share to zero.
    pub fn reset(&mut self)
        ensures
            final(self)@ == AggregateShareView::zero(),
    {
        self.report_count = 0;
        self.checksum = [0u8; 32];
        self.data = None;
        assert(self@.checksum =~= AggregateShareView::zero().checksum);
    }
}

impl DapAggregateShare {
    /// Merge a sequence of output shares into a fresh aggregate share, in
    /// order. Fails with a fatal error when some merge on the way fails.
    pub fn try_from_out_shares(out_shares: Vec<DapOutputShare>) -> (r: Result<Self, DapError>)
        ensures
            match r {
                Ok(agg_share) => merge_all(out_share_views(out_shares@)) == Some(agg_share@),
                Err(e) => merge_all(out_share_views(out_shares@)) is None && e is Fatal,
            },
    {
        let ghost shares = out_shares@;
        let ghost views = out_share_views(shares);
        assert(shares.len() == out_shares.len());
        let mut agg_share = DapAggregateShare::default();
        assert(views.take(0) =~= Seq::empty());
        for out_share in it: out_shares.into_iter()
            invariant
                it.seq() == shares,
                shares.len() <= usize::MAX,
                views == out_share_views(shares),
                merge_all(views.take(it.index() as int)) == Some(agg_share@),
                agg_share.report_count == it.index(),
        {
            let ghost k = it.index() as int;
            assert(views.take(k + 1).drop_last() =~= views.take(k));
            assert(views.take(k + 1).last() == out_share@);
            let next = DapAggregateShare {
                report_count: 1,
                checksum: out_share.checksum,
                data: Some(out_share.data),
            };
            match agg_share.merge(next) {
                Ok(()) => {},
                Err(e) => {
                    proof {
                        lemma_merge_all_fails_on(views, k + 1);
                    }
                    return Err(e);
                },
            }
        }
        assert(views.take(shares.len() as int) =~= views);
        Ok(agg_share)
    }
}

/// Once merging a prefix of `shares` has failed, merging all of them fails.
pub proof fn lemma_merge_all_fails_on(shares: Seq<AggregateShareView>, k: int)
    requires
        0 <= k <= shares.len(),
        merge_all(shares.take(k)) is None,
    ensures
        merge_all(shares) is None,
    decreases shares.len() - k,
{
    if k == shares.len() {
        assert(shares.take(k) =~= shares);
    } else {
        assert(shares.take(k + 1).drop_last() =~= shares.take(k));
        lemma_merge_all_fails_on(shares, k + 1);
    }
}

/// Merging with the empty aggregate share, on either side, changes nothing.
pub proof fn lemma_merge_identity(a: AggregateShareView)
    requires
        a.wf(),
    ensures
        a.merged(AggregateShareView::zero()) == Some(a),
        AggregateShareView::zero().merged(a) == Some(a),
{
    let z = AggregateShareView::zero();
    assert forall|i: int| 0 <= i < 32 implies a.checksum[i] ^ z.checksum[i] == a.checksum[i]
        && z.checksum[i] ^ a.checksum[i] == a.checksum[i] by {
        let x = a.checksum[i];
        assert(x ^ 0u8 == x && 0u8 ^ x == x) by (bit_vector);
    }
    assert(xor_bytes(a.checksum, z.checksum) =~= a.checksum);
    assert(xor_bytes(z.checksum, a.checksum) =~= a.checksum);
}

/// The order of the two operands of a merge does not matter: both orders
/// fail, or both give the same aggregate share.
pub proof fn lemma_merge_commutative(a: AggregateShareView, b: AggregateShareView)
    requires
        a.wf(),
        b.wf(),
    ensures
        a.merged(b) == b.merged(a),
{
    if a.mergeable(b) {
        assert forall|i: int| 0 <= i < 32 implies a.checksum[i] ^ b.checksum[i] == b.checksum[i]
            ^ a.checksum[i] by {
            let x = a.checksum[i];
            let y = b.checksum[i];
            assert(x ^ y == y ^ x) by (bit_vector);
        }
        assert(xor_bytes(a.checksum, b.checksum) =~= xor_bytes(b.checksum, a.checksum));
        if a.data is Some && b.data is Some {
            let l = a.data->0;
            let r = b.data->0;
            assert(l.sum(r).elems =~= r.sum(l).elems);
        }
    }
}

/// Merging is associative: grouping three aggregate shares either way
/// fails in both groupings or gives the same aggregate share.
pub proof fn lemma_merge_associative(
    a: AggregateShareView,
    b: AggregateShareView,
    c: AggregateShareView,
)
    requires
        a.wf(),
        b.wf(),
        c.wf(),
    ensures
        merged_onto(a.merged(b), c) == merged_under(a, b.merged(c)),
{
    assert forall|i: int| 0 <= i < 32 implies (a.checksum[i] ^ b.checksum[i]) ^ c.checksum[i]
        == a.checksum[i] ^ (b.checksum[i] ^ c.checksum[i]) by {
        let x = a.checksum[i];
        let y = b.checksum[i];
        let z = c.checksum[i];
        assert((x ^ y) ^ z == x ^ (y ^ z)) by (bit_vector);
    }
    assert(xor_bytes(xor_bytes(a.checksum, b.checksum), c.checksum) =~= xor_bytes(
        a.checksum,
        xor_bytes(b.checksum, c.checksum),
    ));
    if a.data is Some && b.data is Some && c.data is Some {
        let x = a.data->0;
        let y = b.data->0;
        let z = c.data->0;
        if x.compatible(y) && y.compatible(z) {
            let p = x.field.modulus() as int;
            assert forall|i: int| 0 <= i < x.elems.len() implies x.sum(y).sum(z).elems[i] == x.sum(
                y.sum(z),
            ).elems[i] by {
                let u = x.elems[i] as int;
                let v = y.elems[i] as int;
                let w = z.elems[i] as int;
                lemma_add_mod_noop_right(w, u + v, p);
                lemma_add_mod_noop_right(u, v + w, p);
                assert((u + v) % p + w == w + (u + v) % p);
                assert(w + (u + v) == u + (v + w));
            }
            assert(x.sum(y).sum(z).elems =~= x.sum(y.sum(z)).elems);
        }
    }
}

/// Merging keeps aggregate shares well formed.
pub proof fn lemma_merge_preserves_wf(a: AggregateShareView, b: AggregateShareView)
    requires
        a.wf(),
        b.wf(),
        a.mergeable(b),
    ensures
        a.merged(b)->0.wf(),
{
}

} // verus!

