//! VDAF configuration and VDAF data in plain form.
//!
//! An aggregate share is a vector of field elements, each held as its
//! residue. The field arithmetic itself is done by `prio`.

use crate::codec::put_bytes;
use crate::error::DapError;
use crate::messages::TransitionFailure;
use prio::codec::{Encode, ParameterizedDecode};
use prio::field::{Field128, Field64, FieldPrio2};
use prio::vdaf::prio2::{Prio2, Prio2PrepareState};
use prio::vdaf::prio3::{Prio3, Prio3PrepareState};
use prio::vdaf::{Aggregatable, AggregateShare};
use std::io::Cursor;
use vstd::prelude::*;
use vstd::std_specs::convert::FromSpecImpl;

verus! {

/// The prime modulus of `Field64`.
pub const FIELD64_MODULUS: u64 = 18446744069414584321;

/// The prime modulus of `Field128`.
pub const FIELD128_MODULUS: u128 = 340282366920938462946865773367900766209;

/// The prime modulus of `FieldPrio2`.
pub const FIELD_PRIO2_MODULUS: u32 = 4293918721;

/// The largest dimension that Prio2 takes, plus one.
pub const PRIO2_DIMENSION_LIMIT: u32 = 524288;

/// A bound on the dimensions that are handed to prio, far above the
/// dimensions that Prio2 takes.
pub const PRIO2_INPUT_LEN_BOUND: u32 = 0x4000_0000;

/// Specification of a concrete VDAF.
#[derive(Clone, Debug, Eq, PartialEq)]
pub enum VdafConfig {
    Prio3(Prio3Config),
    Prio2 { dimension: u32 },
}

/// Supported data types for Prio3.
#[derive(Clone, Debug, Eq, PartialEq)]
pub enum Prio3Config {
    /// A 64-bit counter. The aggregate is the sum of the measurements, each `0` or `1`.
    Count,
    /// A histogram over 64-bit unsigned integers with the given bucket boundaries.
    Histogram { buckets: Vec<u64> },
    /// The sum of 64-bit unsigned integers, each in range `[0, 2^bits)`.
    Sum { bits: u32 },
}

/// What a prepare state is a state of.
#[derive(Clone, Copy, Debug, PartialEq, Eq, Structural)]
pub enum PrepStateKind {
    Prio2,
    Prio3Field64,
    Prio3Field128,
}

/// Each bucket boundary is above the ones before it.
pub open spec fn increasing(buckets: Seq<u64>) -> bool {
    forall|i: int, j: int| 0 <= i < j < buckets.len() ==> buckets[i] < buckets[j]
}

impl Prio3Config {
    /// Whether a Prio3 instance exists for the configuration: a sum takes at
    /// most 64 bits, and the bucket boundaries of a histogram increase.
    pub open spec fn valid(self) -> bool {
        match self {
            Prio3Config::Count => true,
            Prio3Config::Histogram { buckets } => {
                &&& buckets@.len() < u32::MAX
                &&& increasing(buckets@)
            },
            Prio3Config::Sum { bits } => bits <= 64,
        }
    }

    /// The kind of the prepare states of the configuration.
    pub open spec fn state_kind(self) -> PrepStateKind {
        match self {
            Prio3Config::Count => PrepStateKind::Prio3Field64,
            _ => PrepStateKind::Prio3Field128,
        }
    }

    /// The length of the encoding of a prepare state of the Helper: its seed
    /// and, where the VDAF uses joint randomness, the seed for that.
    pub open spec fn helper_state_len(self) -> nat {
        match self {
            Prio3Config::Count => 16,
            _ => 32,
        }
    }
}

impl VdafConfig {
    /// Whether a VDAF instance exists for the configuration.
    pub open spec fn valid(self) -> bool {
        match self {
            VdafConfig::Prio3(prio3_config) => prio3_config.valid(),
            VdafConfig::Prio2 { dimension } => dimension < PRIO2_DIMENSION_LIMIT,
        }
    }

    /// The kind of the prepare states of the configuration.
    pub open spec fn state_kind(self) -> PrepStateKind {
        match self {
            VdafConfig::Prio3(prio3_config) => prio3_config.state_kind(),
            VdafConfig::Prio2 { .. } => PrepStateKind::Prio2,
        }
    }

    /// The length of the encoding of a prepare state of the Helper.
    pub open spec fn helper_state_len(self) -> nat {
        match self {
            VdafConfig::Prio3(prio3_config) => prio3_config.helper_state_len(),
            VdafConfig::Prio2 { .. } => 32,
        }
    }
}

/// The state of an Aggregator during the preparation of one report, in its
/// wire encoding.
#[derive(Clone, Debug, PartialEq, Eq)]
pub enum VdafState {
    Prio2(Vec<u8>),
    Prio3Field64(Vec<u8>),
    Prio3Field128(Vec<u8>),
}

/// A message that an Aggregator sends during the preparation of one report,
/// in its wire encoding.
#[derive(Clone, Debug, PartialEq, Eq)]
pub enum VdafMessage {
    Prio2Share(Vec<u8>),
    Prio3ShareField64(Vec<u8>),
    Prio3ShareField128(Vec<u8>),
}

/// The mathematical content of a prepare state.
pub struct PrepStateView {
    pub kind: PrepStateKind,
    pub bytes: Seq<u8>,
}

impl View for VdafState {
    type V = PrepStateView;

    open spec fn view(&self) -> PrepStateView {
        match self {
            VdafState::Prio2(bytes) => PrepStateView { kind: PrepStateKind::Prio2, bytes: bytes@ },
            VdafState::Prio3Field64(bytes) => PrepStateView {
                kind: PrepStateKind::Prio3Field64,
                bytes: bytes@,
            },
            VdafState::Prio3Field128(bytes) => PrepStateView {
                kind: PrepStateKind::Prio3Field128,
                bytes: bytes@,
            },
        }
    }
}

impl VdafState {
    /// The encoding of the state.
    pub fn encoded(&self) -> (bytes: &Vec<u8>)
        ensures
            bytes@ == self@.bytes,
    {
        match self {
            VdafState::Prio2(bytes) => bytes,
            VdafState::Prio3Field64(bytes) => bytes,
            VdafState::Prio3Field128(bytes) => bytes,
        }
    }
}

/// VDAF errors, each with the message of the error that prio reported.
#[derive(Debug)]
pub enum VdafError {
    /// A value could not be decoded.
    Codec(String),
    /// The VDAF rejected its input.
    Vdaf(String),
}

impl FromSpecImpl<VdafError> for DapError {
    open spec fn obeys_from_spec() -> bool {
        true
    }

    open spec fn from_spec(e: VdafError) -> DapError {
        DapError::Transition(TransitionFailure::VdafPrepError)
    }
}

impl From<VdafError> for DapError {
    /// A failure of the VDAF blocks the report that it occurred for.
    fn from(e: VdafError) -> (r: DapError) {
        match e {
            VdafError::Codec(..) | VdafError::Vdaf(..) => DapError::Transition(
                TransitionFailure::VdafPrepError,
            ),
        }
    }
}

/// Decodes a prepare state of the Helper from the front of `bytes`, with
/// `Prio3PrepareState::decode_with_param` of prio for a two-party
/// `Prio3Aes128Count`, and returns it encoded again. The state is the
/// Helper's seed of 16 bytes, so decoding succeeds exactly when there are
/// that many bytes, and the state is those bytes.
#[verifier::external_body]
pub(crate) fn prio3_count_decode_state(bytes: &[u8]) -> (r: Result<Vec<u8>, VdafError>)
    ensures
        r is Ok <==> 16 <= bytes@.len(),
        r matches Ok(state) ==> state@ == bytes@.subrange(0, 16),
{
    let vdaf = Prio3::new_aes128_count(2).map_err(|e| VdafError::Vdaf(e.to_string()))?;
    let state = Prio3PrepareState::decode_with_param(&(&vdaf, 1), &mut Cursor::new(bytes))
        .map_err(|e| VdafError::Codec(e.to_string()))?;
    Ok(state.get_encoded())
}

/// Decodes a prepare state of the Helper from the front of `bytes`, with
/// `Prio3PrepareState::decode_with_param` of prio for a two-party
/// `Prio3Aes128Histogram`, and returns it encoded again. There is such a
/// VDAF when there are fewer than `u32::MAX` bucket boundaries and they
/// increase. The state is the Helper's seed and the seed of the joint
/// randomness, 32 bytes in all.
#[verifier::external_body]
pub(crate) fn prio3_histogram_decode_state(buckets: &Vec<u64>, bytes: &[u8]) -> (r: Result<
    Vec<u8>,
    VdafError,
>)
    ensures
        r is Ok <==> {
            &&& buckets@.len() < u32::MAX
            &&& increasing(buckets@)
            &&& 32 <= bytes@.len()
        },
        r matches Ok(state) ==> state@ == bytes@.subrange(0, 32),
{
    let vdaf = Prio3::new_aes128_histogram(2, buckets).map_err(|e| VdafError::Vdaf(e.to_string()))?;
    let state = Prio3PrepareState::decode_with_param(&(&vdaf, 1), &mut Cursor::new(bytes))
        .map_err(|e| VdafError::Codec(e.to_string()))?;
    Ok(state.get_encoded())
}

/// Decodes a prepare state of the Helper from the front of `bytes`, with
/// `Prio3PrepareState::decode_with_param` of prio for a two-party
/// `Prio3Aes128Sum`, and returns it encoded again. There is such a VDAF when
/// `bits` is at most 64. The state is the Helper's seed and the seed of the
/// joint randomness, 32 bytes in all.
#[verifier::external_body]
pub(crate) fn prio3_sum_decode_state(bits: u32, bytes: &[u8]) -> (r: Result<Vec<u8>, VdafError>)
    ensures
        r is Ok <==> (bits <= 64 && 32 <= bytes@.len()),
        r matches Ok(state) ==> state@ == bytes@.subrange(0, 32),
{
    let vdaf = Prio3::new_aes128_sum(2, bits).map_err(|e| VdafError::Vdaf(e.to_string()))?;
    let state = Prio3PrepareState::decode_with_param(&(&vdaf, 1), &mut Cursor::new(bytes))
        .map_err(|e| VdafError::Codec(e.to_string()))?;
    Ok(state.get_encoded())
}

/// Decodes a prepare state of the Helper from the front of `bytes`, with
/// `Prio2PrepareState::decode_with_param` of prio, and returns it encoded
/// again. There is a Prio2 instance for inputs of length `input_len` when
/// twice the next power of two above `input_len` is at most 2^20, which is
/// when `input_len` is below 2^19. The state is the Helper's seed of 32
/// bytes. prio computes that power of two in `usize`; `input_len` is to be
/// below 2^30 so that this cannot overflow.
#[verifier::external_body]
pub(crate) fn prio2_decode_state(input_len: usize, bytes: &[u8]) -> (r: Result<Vec<u8>, VdafError>)
    requires
        input_len < PRIO2_INPUT_LEN_BOUND,
    ensures
        r is Ok <==> (input_len < PRIO2_DIMENSION_LIMIT && 32 <= bytes@.len()),
        r matches Ok(state) ==> state@ == bytes@.subrange(0, 32),
{
    let vdaf = Prio2::new(input_len).map_err(|e| VdafError::Vdaf(e.to_string()))?;
    let state = Prio2PrepareState::decode_with_param(&(&vdaf, 1), &mut Cursor::new(bytes))
        .map_err(|e| VdafError::Codec(e.to_string()))?;
    Ok(state.get_encoded())
}

/// Append the encoding of a Prio3 prepare state. Fails with a fatal error,
/// appending nothing, when the state is not a state of the configured VDAF.
pub(crate) fn prio3_append_prepare_state(
    bytes: &mut Vec<u8>,
    config: &Prio3Config,
    state: &VdafState,
) -> (r: Result<(), DapError>)
    ensures
        r is Ok <==> state@.kind == config.state_kind(),
        r is Ok ==> final(bytes)@ == old(bytes)@ + state@.bytes,
        r is Err ==> final(bytes)@ == old(bytes)@,
        r matches Err(e) ==> (e matches DapError::Fatal(m) && m@
            == "VDAF config and prep state mismatch"@),
{
    match (config, state) {
        (Prio3Config::Count, VdafState::Prio3Field64(encoded)) => {
            put_bytes(bytes, encoded.as_slice());
            Ok(())
        },
        (Prio3Config::Histogram { .. }, VdafState::Prio3Field128(encoded)) => {
            put_bytes(bytes, encoded.as_slice());
            Ok(())
        },
        (Prio3Config::Sum { .. }, VdafState::Prio3Field128(encoded)) => {
            put_bytes(bytes, encoded.as_slice());
            Ok(())
        },
        _ => Err(DapError::fatal("VDAF config and prep state mismatch")),
    }
}

/// Decode a Prio3 prepare state of the Helper from the front of `bytes`.
/// Fails when there is no VDAF for the configuration or the input is too
/// short.
pub(crate) fn prio3_decode_prepare_state(config: &Prio3Config, bytes: &[u8]) -> (r: Result<
    VdafState,
    VdafError,
>)
    ensures
        r is Ok <==> config.valid() && bytes@.len() >= config.helper_state_len(),
        r matches Ok(state) ==> state@ == (PrepStateView {
            kind: config.state_kind(),
            bytes: bytes@.subrange(0, config.helper_state_len() as int),
        }),
{
    match config {
        Prio3Config::Count => match prio3_count_decode_state(bytes) {
            Ok(encoded) => Ok(VdafState::Prio3Field64(encoded)),
            Err(e) => Err(e),
        },
        Prio3Config::Histogram { buckets } => match prio3_histogram_decode_state(buckets, bytes) {
            Ok(encoded) => Ok(VdafState::Prio3Field128(encoded)),
            Err(e) => Err(e),
        },
        Prio3Config::Sum { bits } => match prio3_sum_decode_state(*bits, bytes) {
            Ok(encoded) => Ok(VdafState::Prio3Field128(encoded)),
            Err(e) => Err(e),
        },
    }
}

/// Decode a Prio2 prepare state of the Helper from the front of `bytes`.
/// Fails, with the failure that blocks a report, when there is no VDAF for
/// the dimension or the input is too short.
pub(crate) fn prio2_decode_prepare_state(dimension: u32, bytes: &[u8]) -> (r: Result<
    VdafState,
    DapError,
>)
    ensures
        r is Ok <==> dimension < PRIO2_DIMENSION_LIMIT && bytes@.len() >= 32,
        r matches Ok(state) ==> state@ == (PrepStateView {
            kind: PrepStateKind::Prio2,
            bytes: bytes@.subrange(0, 32),
        }),
        r matches Err(e) ==> e == DapError::Transition(TransitionFailure::VdafPrepError),
{
    if dimension >= PRIO2_INPUT_LEN_BOUND {
        return Err(DapError::Transition(TransitionFailure::VdafPrepError));
    }
    match prio2_decode_state(dimension as usize, bytes) {
        Ok(encoded) => Ok(VdafState::Prio2(encoded)),
        Err(e) => Err(DapError::from(e)),
    }
}

/// VDAF verification key.
#[derive(Clone, Debug, PartialEq, Eq)]
pub enum VdafVerifyKey {
    Prio3([u8; 16]),
    Prio2([u8; 32]),
}

/// The finite fields that aggregate shares are vectors over.
#[derive(Clone, Copy, Debug, PartialEq, Eq, Structural)]
pub enum FieldKind {
    Field64,
    Field128,
    FieldPrio2,
}

impl FieldKind {
    /// The prime modulus of the field.
    pub open spec fn modulus(self) -> nat {
        match self {
            FieldKind::Field64 => FIELD64_MODULUS as nat,
            FieldKind::Field128 => FIELD128_MODULUS as nat,
            FieldKind::FieldPrio2 => FIELD_PRIO2_MODULUS as nat,
        }
    }
}

/// An aggregate share: a vector of field elements, tagged by field. Each
/// element is held as its residue.
#[derive(Clone, Debug, PartialEq, Eq)]
pub enum VdafAggregateShare {
    Field64(Vec<u64>),
    Field128(Vec<u128>),
    FieldPrio2(Vec<u32>),
}

/// The mathematical content of an aggregate share.
pub struct ShareData {
    pub field: FieldKind,
    pub elems: Seq<nat>,
}

impl View for VdafAggregateShare {
    type V = ShareData;

    open spec fn view(&self) -> ShareData {
        match self {
            VdafAggregateShare::Field64(v) => ShareData {
                field: FieldKind::Field64,
                elems: Seq::new(v@.len(), |i: int| v@[i] as nat),
            },
            VdafAggregateShare::Field128(v) => ShareData {
                field: FieldKind::Field128,
                elems: Seq::new(v@.len(), |i: int| v@[i] as nat),
            },
            VdafAggregateShare::FieldPrio2(v) => ShareData {
                field: FieldKind::FieldPrio2,
                elems: Seq::new(v@.len(), |i: int| v@[i] as nat),
            },
        }
    }
}

/// The element-wise sum of two vectors over the field with modulus `p`.
pub open spec fn field_vec_sum(a: Seq<nat>, b: Seq<nat>, p: nat) -> Seq<nat> {
    Seq::new(a.len(), |i: int| (a[i] + b[i]) % p)
}

impl ShareData {
    /// Two shares can be summed when they are over the same field and have
    /// the same length.
    pub open spec fn compatible(self, other: ShareData) -> bool {
        self.field == other.field && self.elems.len() == other.elems.len()
    }

    /// The element-wise sum of two compatible shares.
    pub open spec fn sum(self, other: ShareData) -> ShareData {
        ShareData {
            field: self.field,
            elems: field_vec_sum(self.elems, other.elems, self.field.modulus()),
        }
    }
}

/// `Aggregatable::merge` of prio for `AggregateShare<Field64>`, on vectors of
/// residues. Each residue is made a field element with `Field64::from` and
/// each element of the result a residue again. The merge fails, leaving
/// `left` as it was, exactly when the lengths differ; otherwise each element
/// of `left` becomes its sum with the element at the same place in `right`,
/// reduced modulo the prime of the field.
#[verifier::external_body]
pub(crate) fn field64_merge(left: &mut Vec<u64>, right: &Vec<u64>) -> (r: Result<(), VdafError>)
    ensures
        r is Ok <==> old(left)@.len() == right@.len(),
        r is Ok ==> final(left)@.len() == right@.len() && forall|i: int|
            0 <= i < right@.len() ==> final(left)@[i] as int == (old(left)@[i] + right@[i]) % (
            FIELD64_MODULUS as int),
        r is Err ==> final(left)@ == old(left)@,
{
    let mut acc = AggregateShare::from(
        left.iter().map(|x| Field64::from(*x)).collect::<Vec<Field64>>(),
    );
    let other = AggregateShare::from(
        right.iter().map(|x| Field64::from(*x)).collect::<Vec<Field64>>(),
    );
    acc.merge(&other).map_err(|e| VdafError::Vdaf(e.to_string()))?;
    *left = acc.as_ref().iter().map(|x| u64::from(*x)).collect();
    Ok(())
}

/// `Aggregatable::merge` of prio for `AggregateShare<Field128>`, on vectors
/// of residues. Each residue is made a field element with `Field128::from`
/// and each element of the result a residue again. The merge fails, leaving
/// `left` as it was, exactly when the lengths differ; otherwise each element
/// of `left` becomes its sum with the element at the same place in `right`,
/// reduced modulo the prime of the field.
#[verifier::external_body]
pub(crate) fn field128_merge(left: &mut Vec<u128>, right: &Vec<u128>) -> (r: Result<(), VdafError>)
    ensures
        r is Ok <==> old(left)@.len() == right@.len(),
        r is Ok ==> final(left)@.len() == right@.len() && forall|i: int|
            0 <= i < right@.len() ==> final(left)@[i] as int == (old(left)@[i] + right@[i]) % (
            FIELD128_MODULUS as int),
        r is Err ==> final(left)@ == old(left)@,
{
    let mut acc = AggregateShare::from(
        left.iter().map(|x| Field128::from(*x)).collect::<Vec<Field128>>(),
    );
    let other = AggregateShare::from(
        right.iter().map(|x| Field128::from(*x)).collect::<Vec<Field128>>(),
    );
    acc.merge(&other).map_err(|e| VdafError::Vdaf(e.to_string()))?;
    *left = acc.as_ref().iter().map(|x| u128::from(*x)).collect();
    Ok(())
}

/// `Aggregatable::merge` of prio for `AggregateShare<FieldPrio2>`, on
/// vectors of residues. Each residue is made a field element with
/// `FieldPrio2::from` and each element of the result a residue again. The
/// merge fails, leaving `left` as it was, exactly when the lengths differ;
/// otherwise each element of `left` becomes its sum with the element at the
/// same place in `right`, reduced modulo the prime of the field.
#[verifier::external_body]
pub(crate) fn field_prio2_merge(left: &mut Vec<u32>, right: &Vec<u32>) -> (r: Result<(), VdafError>)
    ensures
        r is Ok <==> old(left)@.len() == right@.len(),
        r is Ok ==> final(left)@.len() == right@.len() && forall|i: int|
            0 <= i < right@.len() ==> final(left)@[i] as int == (old(left)@[i] + right@[i]) % (
            FIELD_PRIO2_MODULUS as int),
        r is Err ==> final(left)@ == old(left)@,
{
    let mut acc = AggregateShare::from(
        left.iter().map(|x| FieldPrio2::from(*x)).collect::<Vec<FieldPrio2>>(),
    );
    let other = AggregateShare::from(
        right.iter().map(|x| FieldPrio2::from(*x)).collect::<Vec<FieldPrio2>>(),
    );
    acc.merge(&other).map_err(|e| VdafError::Vdaf(e.to_string()))?;
    *left = acc.as_ref().iter().map(|x| u32::from(*x)).collect();
    Ok(())
}

impl VdafAggregateShare {
    /// Add `other` into this share, element by element. Fails, leaving this
    /// share as it was, when the two are over different fields (with no
    /// error value) or differ in length (with the error that prio reports).
    pub(crate) fn merge(&mut self, other: &VdafAggregateShare) -> (r: Result<
        (),
        Option<VdafError>,
    >)
        ensures
            r is Ok <==> old(self)@.compatible(other@),
            r is Ok ==> final(self)@ == old(self)@.sum(other@),
            r is Err ==> final(self)@ == old(self)@,
            r matches Err(e) ==> (e is None <==> old(self)@.field != other@.field),
    {
        let r = match (&mut *self, other) {
            (VdafAggregateShare::Field64(left), VdafAggregateShare::Field64(right)) => {
                match field64_merge(left, right) {
                    Ok(()) => Ok(()),
                    Err(e) => Err(Some(e)),
                }
            },
            (VdafAggregateShare::Field128(left), VdafAggregateShare::Field128(right)) => {
                match field128_merge(left, right) {
                    Ok(()) => Ok(()),
                    Err(e) => Err(Some(e)),
                }
            },
            (VdafAggregateShare::FieldPrio2(left), VdafAggregateShare::FieldPrio2(right)) => {
                match field_prio2_merge(left, right) {
                    Ok(()) => Ok(()),
                    Err(e) => Err(Some(e)),
                }
            },
            _ => Err(None),
        };
        proof {
            if r is Ok {
                assert(self@.elems =~= old(self)@.sum(other@).elems);
            } else {
                assert(self@.elems =~= old(self)@.elems);
            }
        }
        r
    }
}

} // verus!
