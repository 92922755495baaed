//! Aggregation job state of the Leader and the Helper, and the Helper's
//! state as bytes.
//!
//! The Helper may hand its state to the Leader between rounds. The encoding
//! is the partial batch selector followed, for each report, by the encoding
//! of the prepare state, the timestamp as eight bytes, and the report ID.

use crate::agg_share::DapOutputShare;
use crate::codec::{
    lemma_u64_roundtrip, put_bytes, put_u64, take_u64, u64_be, u64_from_be, CodecError,
};
use crate::error::DapError;
use crate::messages::{PartialBatchSelector, ReportId, Time, TransitionFailure};
use crate::vdaf::{
    prio2_decode_prepare_state, prio3_append_prepare_state, prio3_decode_prepare_state,
    PrepStateKind, PrepStateView, VdafConfig, VdafMessage, VdafState,
};
use std::fmt::Debug;
use vstd::arithmetic::div_mod::{
    lemma_div_multiples_vanish, lemma_mod_multiples_basic, lemma_mod_multiples_vanish,
    lemma_small_mod,
};
use vstd::prelude::*;

verus! {

/// The Leader's state after sending an aggregation initialization request.
#[derive(Debug)]
pub struct DapLeaderState {
    pub seq: Vec<(VdafState, VdafMessage, Time, ReportId)>,
}

/// The Leader's state after sending an aggregation continuation request.
#[derive(Debug)]
pub struct DapLeaderUncommitted {
    pub seq: Vec<(DapOutputShare, ReportId)>,
}

/// The Helper's state during the aggregation flow.
#[derive(Clone, Debug, PartialEq)]
pub struct DapHelperState {
    pub part_batch_sel: PartialBatchSelector,
    pub seq: Vec<(VdafState, Time, ReportId)>,
}

/// Leader state transition during the aggregation flow.
#[derive(Debug)]
pub enum DapLeaderTransition<M: Debug> {
    /// The Leader has produced the next outbound message and its state has
    /// been updated.
    Continue(DapLeaderState, M),
    /// The Leader has computed output shares, but is waiting on the Helper's
    /// answer before committing them.
    Uncommitted(DapLeaderUncommitted, M),
    /// The Leader has completed the aggregation flow without computing an
    /// aggregate share.
    Skip,
}

/// Helper state transition during the aggregation flow.
#[derive(Debug)]
pub enum DapHelperTransition<M: Debug> {
    /// The Helper has produced the next outbound message and its state has
    /// been updated.
    Continue(DapHelperState, M),
    /// The Helper has produced the last outbound message and has computed a
    /// sequence of output shares.
    Finish(Vec<DapOutputShare>, M),
}

/// What the Helper holds for one report: the prepare state, the timestamp
/// and the report ID.
pub struct HelperEntry {
    pub state: PrepStateView,
    pub time: Time,
    pub report_id: Seq<u8>,
}

/// The mathematical content of the Helper's state.
pub struct HelperStateView {
    pub part_batch_sel: PartialBatchSelector,
    pub seq: Seq<HelperEntry>,
}

/// The content of what the Helper holds for one report.
pub open spec fn entry_view(entry: (VdafState, Time, ReportId)) -> HelperEntry {
    HelperEntry { state: entry.0@, time: entry.1, report_id: entry.2@ }
}

impl View for DapHelperState {
    type V = HelperStateView;

    open spec fn view(&self) -> HelperStateView {
        HelperStateView {
            part_batch_sel: self.part_batch_sel,
            seq: Seq::new(self.seq@.len(), |i: int| entry_view(self.seq@[i])),
        }
    }
}

impl HelperEntry {
    /// The encoding of the entry: the prepare state, the timestamp, the ID.
    pub open spec fn encoded(self) -> Seq<u8> {
        self.state.bytes + u64_be(self.time) + self.report_id
    }

    /// The entry is one of the Helper under the given VDAF: its prepare state
    /// is of the kind and of the length that the VDAF gives the Helper's
    /// states, and its report ID has 16 bytes.
    pub open spec fn fits(self, vdaf_config: VdafConfig) -> bool {
        &&& self.state.kind == vdaf_config.state_kind()
        &&& self.state.bytes.len() == vdaf_config.helper_state_len()
        &&& self.report_id.len() == 16
    }
}

/// The encodings of `entries`, one after another.
pub open spec fn encoded_entries(entries: Seq<HelperEntry>) -> Seq<u8>
    decreases entries.len(),
{
    if entries.len() == 0 {
        Seq::empty()
    } else {
        encoded_entries(entries.drop_last()) + entries.last().encoded()
    }
}

/// The length of the encoding of one entry of the Helper under the given
/// VDAF.
pub open spec fn entry_len(vdaf_config: VdafConfig) -> nat {
    vdaf_config.helper_state_len() + 24
}

/// The entry that `chunk`, of the length of one entry, encodes.
pub open spec fn parsed_entry(vdaf_config: VdafConfig, chunk: Seq<u8>) -> HelperEntry {
    let n = vdaf_config.helper_state_len() as int;
    HelperEntry {
        state: PrepStateView { kind: vdaf_config.state_kind(), bytes: chunk.subrange(0, n) },
        time: u64_from_be(chunk.subrange(n, n + 8)),
        report_id: chunk.subrange(n + 8, n + 24),
    }
}

/// The entries that `data` encodes, one for each stretch of the length of
/// an entry.
pub open spec fn parsed_entries(vdaf_config: VdafConfig, data: Seq<u8>) -> Seq<HelperEntry> {
    Seq::new(
        data.len() / entry_len(vdaf_config),
        |i: int|
            parsed_entry(
                vdaf_config,
                data.subrange(i * entry_len(vdaf_config), (i + 1) * entry_len(vdaf_config)),
            ),
    )
}

/// Why a Helper state cannot be decoded.
pub enum HelperStateFault {
    /// The partial batch selector cannot be decoded.
    Selector(CodecError),
    /// A prepare state cannot be decoded: there is no VDAF for the
    /// configuration, or the input ends within the state.
    PrepState,
    /// The input ends within the timestamp or the report ID of an entry.
    Truncated,
}

impl HelperStateView {
    /// The encoding of the state: the partial batch selector, followed by
    /// the entries.
    pub open spec fn encoded(self) -> Seq<u8> {
        self.part_batch_sel.encoded() + encoded_entries(self.seq)
    }

    /// Each prepare state is of the kind of the given VDAF.
    pub open spec fn matches(self, vdaf_config: VdafConfig) -> bool {
        forall|i: int| 0 <= i < self.seq.len() ==> (#[trigger] self.seq[i]).state.kind
            == vdaf_config.state_kind()
    }

    /// The state is one of the Helper under the given VDAF: each entry is,
    /// and where there is an entry there is a VDAF for the configuration.
    pub open spec fn fits(self, vdaf_config: VdafConfig) -> bool {
        &&& forall|i: int| 0 <= i < self.seq.len() ==> (#[trigger] self.seq[i]).fits(vdaf_config)
        &&& self.seq.len() > 0 ==> vdaf_config.valid()
    }
}

/// Why `data` is not the encoding of a Helper state under the given VDAF, if
/// it is not.
pub open spec fn helper_state_fault(vdaf_config: VdafConfig, data: Seq<u8>) -> Option<
    HelperStateFault,
> {
    match PartialBatchSelector::decode_fault(data) {
        Some(e) => Some(HelperStateFault::Selector(e)),
        None => {
            let rest = data.len() - selector_len(data);
            let left = rest % (entry_len(vdaf_config) as int);
            if rest == 0 {
                None
            } else if !vdaf_config.valid() {
                Some(HelperStateFault::PrepState)
            } else if left == 0 {
                None
            } else if left < vdaf_config.helper_state_len() {
                Some(HelperStateFault::PrepState)
            } else {
                Some(HelperStateFault::Truncated)
            }
        },
    }
}

/// The length of the partial batch selector at the front of `data`.
pub open spec fn selector_len(data: Seq<u8>) -> int {
    if data[0] == crate::messages::QUERY_TYPE_TIME_INTERVAL {
        1
    } else {
        33
    }
}

/// Whether `e` is the error that decoding fails with on the given fault.
pub open spec fn reports_fault(e: DapError, fault: HelperStateFault) -> bool {
    match fault {
        HelperStateFault::Selector(c) => e matches DapError::Fatal(m) && m@ == "codec: "@ + c.text(),
        HelperStateFault::PrepState => e == DapError::Transition(TransitionFailure::VdafPrepError),
        HelperStateFault::Truncated => e matches DapError::Fatal(m) && m@ == "codec: I/O error"@,
    }
}

/// Read one entry of the Helper's state at `pos`.
fn decode_entry(vdaf_config: &VdafConfig, data: &[u8], pos: usize) -> (r: Result<
    ((VdafState, Time, ReportId), usize),
    DapError,
>)
    requires
        pos <= data@.len(),
    ensures
        match r {
            Ok((entry, next)) => {
                &&& vdaf_config.valid()
                &&& next == pos + entry_len(*vdaf_config)
                &&& next <= data@.len()
                &&& entry_view(entry) == parsed_entry(
                    *vdaf_config,
                    data@.subrange(pos as int, next as int),
                )
            },
            Err(e) => if !vdaf_config.valid() || data@.len() - pos
                < vdaf_config.helper_state_len() {
                reports_fault(e, HelperStateFault::PrepState)
            } else {
                &&& data@.len() - pos < entry_len(*vdaf_config)
                &&& reports_fault(e, HelperStateFault::Truncated)
            },
        },
{
    let remaining = &data[pos..data.len()];
    let state = match vdaf_config {
        VdafConfig::Prio3(prio3_config) => match prio3_decode_prepare_state(
            prio3_config,
            remaining,
        ) {
            Ok(state) => state,
            Err(e) => {
                return Err(DapError::from(e));
            },
        },
        VdafConfig::Prio2 { dimension } => match prio2_decode_prepare_state(
            *dimension,
            remaining,
        ) {
            Ok(state) => state,
            Err(e) => {
                return Err(e);
            },
        },
    };
    let ghost n = vdaf_config.helper_state_len() as int;
    let after_state = pos + state.encoded().len();
    let (time, after_time) = match take_u64(data, after_state) {
        Ok(read) => read,
        Err(e) => {
            proof {
                reveal_strlit("codec: ");
                reveal_strlit("I/O error");
                reveal_strlit("codec: I/O error");
                assert("codec: "@ + CodecError::Io.text() =~= "codec: I/O error"@);
            }
            return Err(DapError::from(e));
        },
    };
    let (report_id, next) = match ReportId::decode(data, after_time) {
        Ok(read) => read,
        Err(e) => {
            proof {
                reveal_strlit("codec: ");
                reveal_strlit("I/O error");
                reveal_strlit("codec: I/O error");
                assert("codec: "@ + CodecError::Io.text() =~= "codec: I/O error"@);
            }
            return Err(DapError::from(e));
        },
    };
    proof {
        let chunk = data@.subrange(pos as int, next as int);
        assert(chunk.subrange(0, n) =~= remaining@.subrange(0, n));
        assert(chunk.subrange(n, n + 8) =~= data@.subrange(after_state as int, after_state + 8));
        assert(chunk.subrange(n + 8, n + 24) =~= data@.subrange(after_time as int, after_time + 16));
    }
    Ok(((state, time, report_id), next))
}

impl DapHelperState {
    /// Encode the Helper state as a byte string.
    ///
    /// This method is used by the Helper in order to offload its state to
    /// the Leader. Fails with a fatal error when a prepare state is not a
    /// state of the given VDAF.
    pub fn get_encoded(&self, vdaf_config: &VdafConfig) -> (r: Result<Vec<u8>, DapError>)
        ensures
            match r {
                Ok(bytes) => self@.matches(*vdaf_config) && bytes@ == self@.encoded(),
                Err(e) => {
                    &&& !self@.matches(*vdaf_config)
                    &&& e matches DapError::Fatal(m)
                    &&& m@ == "VDAF config and prep state mismatch"@
                },
            },
    {
        let mut bytes: Vec<u8> = Vec::new();
        self.part_batch_sel.encode(&mut bytes);
        let ghost entries = self@.seq;
        assert(entries.take(0) =~= Seq::empty());
        let mut i: usize = 0;
        while i < self.seq.len()
            invariant
                i <= self.seq@.len(),
                entries == self@.seq,
                entries.len() == self.seq@.len(),
                bytes@ == self.part_batch_sel.encoded() + encoded_entries(entries.take(i as int)),
                forall|j: int| 0 <= j < i ==> (#[trigger] entries[j]).state.kind
                    == vdaf_config.state_kind(),
            decreases self.seq@.len() - i,
        {
            let ghost before = bytes@;
            let state = &self.seq[i].0;
            assert(entries[i as int] == entry_view(self.seq@[i as int]));
            match vdaf_config {
                VdafConfig::Prio3(prio3_config) => {
                    match prio3_append_prepare_state(&mut bytes, prio3_config, state) {
                        Ok(()) => {},
                        Err(e) => {
                            return Err(e);
                        },
                    }
                },
                VdafConfig::Prio2 { .. } => match state {
                    VdafState::Prio2(encoded) => {
                        put_bytes(&mut bytes, encoded.as_slice());
                    },
                    _ => {
                        return Err(DapError::fatal("VDAF config and prep state mismatch"));
                    },
                },
            }
            put_u64(&mut bytes, self.seq[i].1);
            self.seq[i].2.encode(&mut bytes);
            proof {
                assert(entries.take(i + 1).drop_last() =~= entries.take(i as int));
                assert(entries.take(i + 1).last() == entries[i as int]);
                assert(bytes@ =~= before + entries[i as int].encoded());
                assert(bytes@ =~= self.part_batch_sel.encoded() + encoded_entries(
                    entries.take(i + 1),
                ));
            }
            i += 1;
        }
        assert(entries.take(i as int) =~= entries);
        Ok(bytes)
    }

    /// Decode the Helper state from a byte string.
    ///
    /// The input has to hold a partial batch selector and, after it, whole
    /// entries only. Where it holds an entry, there has to be a VDAF for the
    /// configuration.
    pub fn get_decoded(vdaf_config: &VdafConfig, data: &[u8]) -> (r: Result<Self, DapError>)
        ensures
            match r {
                Ok(state) => {
                    &&& helper_state_fault(*vdaf_config, data@) is None
                    &&& state.part_batch_sel.encoded() == data@.subrange(0, selector_len(data@))
                    &&& state@.seq == parsed_entries(
                        *vdaf_config,
                        data@.skip(selector_len(data@)),
                    )
                },
                Err(e) => {
                    &&& helper_state_fault(*vdaf_config, data@) matches Some(fault)
                    &&& reports_fault(e, fault)
                },
            },
    {
        assert(data@.skip(0) =~= data@);
        let (part_batch_sel, start) = match PartialBatchSelector::decode(data, 0) {
            Ok(read) => read,
            Err(e) => {
                return Err(DapError::from(e));
            },
        };
        assert(start == selector_len(data@)) by {
            assert(part_batch_sel.encoded()[0] == data@.subrange(0, start as int)[0]);
        }
        let ghost rest = data@.skip(start as int);
        let ghost len = entry_len(*vdaf_config) as int;
        let mut seq: Vec<(VdafState, Time, ReportId)> = Vec::new();
        let mut pos: usize = start;
        assert(seq@.len() * len == 0) by (nonlinear_arith)
            requires
                seq@.len() == 0,
        ;
        while pos < data.len()
            invariant
                start <= pos <= data@.len(),
                start == selector_len(data@),
                PartialBatchSelector::decode_fault(data@) is None,
                rest == data@.skip(start as int),
                len == entry_len(*vdaf_config),
                pos - start == seq@.len() * len,
                seq@.len() > 0 ==> vdaf_config.valid(),
                forall|i: int|
                    0 <= i < seq@.len() ==> entry_view(#[trigger] seq@[i]) == parsed_entry(
                        *vdaf_config,
                        rest.subrange(i * len, (i + 1) * len),
                    ),
            decreases data@.len() - pos,
        {
            let ghost count = seq@.len() as int;
            let ghost left = data@.len() - pos;
            proof {
                lemma_mod_multiples_vanish(count, left, len);
                assert(len * count == count * len) by (nonlinear_arith);
                if left < len {
                    lemma_small_mod(left as nat, len as nat);
                }
            }
            match decode_entry(vdaf_config, data, pos) {
                Ok((entry, next)) => {
                    proof {
                        assert(rest.subrange(count * len, (count + 1) * len) =~= data@.subrange(
                            pos as int,
                            next as int,
                        )) by {
                            assert((count + 1) * len == count * len + len) by (nonlinear_arith);
                        }
                        assert((count + 1) * len == count * len + len) by (nonlinear_arith);
                    }
                    seq.push(entry);
                    pos = next;
                },
                Err(e) => {
                    return Err(e);
                },
            }
        }
        let state = DapHelperState { part_batch_sel, seq };
        proof {
            let count = seq@.len() as int;
            assert(rest.len() == count * len);
            lemma_mod_multiples_basic(count, len);
            lemma_div_multiples_vanish(count, len);
            assert(len * count == count * len) by (nonlinear_arith);
            assert(state@.seq =~= parsed_entries(*vdaf_config, rest));
        }
        Ok(state)
    }
}

/// An entry of the Helper is what its encoding encodes.
pub proof fn lemma_entry_roundtrip(vdaf_config: VdafConfig, entry: HelperEntry)
    requires
        entry.fits(vdaf_config),
    ensures
        entry.encoded().len() == entry_len(vdaf_config),
        parsed_entry(vdaf_config, entry.encoded()) == entry,
{
    let n = vdaf_config.helper_state_len() as int;
    let chunk = entry.encoded();
    lemma_u64_roundtrip(entry.time);
    assert(chunk.subrange(0, n) =~= entry.state.bytes);
    assert(chunk.subrange(n, n + 8) =~= u64_be(entry.time));
    assert(chunk.subrange(n + 8, n + 24) =~= entry.report_id);
}

/// The encoding of a sequence of entries of the Helper is made of
/// stretches of one length, the `i`-th of which encodes the `i`-th entry.
pub proof fn lemma_encoded_entries_stretches(vdaf_config: VdafConfig, entries: Seq<HelperEntry>)
    requires
        forall|i: int| 0 <= i < entries.len() ==> (#[trigger] entries[i]).fits(vdaf_config),
    ensures
        encoded_entries(entries).len() == entries.len() * entry_len(vdaf_config),
        forall|i: int|
            0 <= i < entries.len() ==> encoded_entries(entries).subrange(
                i * entry_len(vdaf_config),
                (i + 1) * entry_len(vdaf_config),
            ) == (#[trigger] entries[i]).encoded(),
    decreases entries.len(),
{
    let len = entry_len(vdaf_config) as int;
    if entries.len() == 0 {
        assert(entries.len() * len == 0) by (nonlinear_arith)
            requires
                entries.len() == 0,
        ;
    } else {
        let front = entries.drop_last();
        let n = front.len() as int;
        lemma_encoded_entries_stretches(vdaf_config, front);
        lemma_entry_roundtrip(vdaf_config, entries.last());
        assert((n + 1) * len == n * len + len) by (nonlinear_arith);
        assert forall|i: int| 0 <= i < entries.len() implies encoded_entries(entries).subrange(
            i * len,
            (i + 1) * len,
        ) == (#[trigger] entries[i]).encoded() by {
            assert((i + 1) * len == i * len + len) by (nonlinear_arith);
            if i < n {
                assert(i * len + len <= n * len) by (nonlinear_arith)
                    requires
                        i < n,
                        len >= 0,
                ;
                assert(0 <= i * len) by (nonlinear_arith)
                    requires
                        0 <= i,
                        len >= 0,
                ;
                assert(front[i] == entries[i]);
                assert(encoded_entries(entries).subrange(i * len, (i + 1) * len)
                    =~= encoded_entries(front).subrange(i * len, (i + 1) * len));
            } else {
                assert(encoded_entries(entries).subrange(i * len, (i + 1) * len)
                    =~= entries.last().encoded());
            }
        }
    }
}

/// Decoding the encoding of a Helper state gives the state back: the
/// encoding decodes without fault, to the partial batch selector and the
/// entries that were encoded.
pub proof fn lemma_helper_state_roundtrip(vdaf_config: VdafConfig, state: HelperStateView)
    requires
        state.fits(vdaf_config),
    ensures
        helper_state_fault(vdaf_config, state.encoded()) is None,
        state.encoded().subrange(0, selector_len(state.encoded()))
            == state.part_batch_sel.encoded(),
        parsed_entries(vdaf_config, state.encoded().skip(selector_len(state.encoded())))
            == state.seq,
{
    let data = state.encoded();
    let sel = state.part_batch_sel.encoded();
    let len = entry_len(vdaf_config) as int;
    let count = state.seq.len() as int;
    lemma_encoded_entries_stretches(vdaf_config, state.seq);
    assert(data[0] == sel[0]);
    assert(selector_len(data) == sel.len());
    assert(data.subrange(0, sel.len() as int) =~= sel);
    let rest = data.skip(sel.len() as int);
    assert(rest =~= encoded_entries(state.seq));
    lemma_mod_multiples_basic(count, len);
    lemma_div_multiples_vanish(count, len);
    assert(len * count == count * len) by (nonlinear_arith);
    if count > 0 {
        assert(count * len > 0) by (nonlinear_arith)
            requires
                count > 0,
                len > 0,
        ;
    }
    assert forall|i: int| 0 <= i < count implies parsed_entries(vdaf_config, rest)[i]
        == state.seq[i] by {
        lemma_entry_roundtrip(vdaf_config, state.seq[i]);
    }
    assert(parsed_entries(vdaf_config, rest) =~= state.seq);
}

/// Bytes after the encoding of a Helper state make decoding fail, unless
/// they are as long as a whole number of entries.
pub proof fn lemma_helper_state_trailing_bytes(
    vdaf_config: VdafConfig,
    state: HelperStateView,
    trailing: Seq<u8>,
)
    requires
        state.fits(vdaf_config),
        trailing.len() % entry_len(vdaf_config) != 0,
    ensures
        helper_state_fault(vdaf_config, state.encoded() + trailing) is Some,
{
    let data = state.encoded() + trailing;
    let sel = state.part_batch_sel.encoded();
    let len = entry_len(vdaf_config) as int;
    let count = state.seq.len() as int;
    let extra = trailing.len() as int;
    lemma_encoded_entries_stretches(vdaf_config, state.seq);
    assert(data[0] == sel[0]);
    assert(selector_len(data) == sel.len());
    assert(PartialBatchSelector::decode_fault(data) is None);
    let rest = data.len() - selector_len(data);
    assert(rest == count * len + extra);
    assert(rest == len * count + extra) by (nonlinear_arith)
        requires
            rest == count * len + extra,
    ;
    lemma_mod_multiples_vanish(count, extra, len);
    assert(rest % len == extra % len);
    assert(extra != 0) by {
        if extra == 0 {
            lemma_small_mod(0, len as nat);
        }
    }
    assert(rest != 0) by (nonlinear_arith)
        requires
            rest == count * len + extra,
            count >= 0,
            len >= 0,
            extra > 0,
    ;
}

} // verus!
