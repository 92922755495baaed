//! Protocol messages and identifiers.

use crate::codec::{
    lemma_u64_bytes_roundtrip, lemma_u64_roundtrip, put_bytes, put_u64, take_u64, take_u8, u64_be,
    u64_from_be, CodecError,
};
use crate::text::hex_encode;
use vstd::prelude::*;

verus! {

/// The type code of the taskprov extension.
pub const EXTENSION_TASKPROV: u16 = 0xff00;

/// The byte that stands for the time-interval query type.
pub const QUERY_TYPE_TIME_INTERVAL: u8 = 1;

/// The byte that stands for the fixed-size query type.
pub const QUERY_TYPE_FIXED_SIZE: u8 = 2;

/// A duration, in seconds.
pub type Duration = u64;

/// Seconds elapsed since the beginning of UNIX time.
pub type Time = u64;

/// A 32-byte identifier, used for tasks and batches.
#[derive(Clone, Copy, Debug, Default, Hash, PartialEq, Eq)]
pub struct Id(pub [u8; 32]);

/// A 16-byte report identifier.
#[derive(Clone, Copy, Debug, Default, Hash, PartialEq, Eq)]
pub struct ReportId(pub [u8; 16]);

impl View for Id {
    type V = Seq<u8>;

    open spec fn view(&self) -> Seq<u8> {
        self.0@
    }
}

impl View for ReportId {
    type V = Seq<u8>;

    open spec fn view(&self) -> Seq<u8> {
        self.0@
    }
}

impl Id {
    /// Whether two identifiers hold the same bytes.
    pub fn same(&self, other: &Id) -> (r: bool)
        ensures
            r == (self@ == other@),
    {
        let mut i: usize = 0;
        while i < 32
            invariant
                i <= 32,
                forall|j: int| 0 <= j < i ==> self.0@[j] == other.0@[j],
            decreases 32 - i,
        {
            if self.0[i] != other.0[i] {
                return false;
            }
            i += 1;
        }
        assert(self@ =~= other@);
        true
    }
}

impl Id {
    /// The identifier as a hex string.
    pub fn to_hex(&self) -> (s: String)
        ensures
            s@ == crate::text::hex_chars(self@),
    {
        hex_encode(self.0.as_slice())
    }

    /// Append the 32 bytes of the identifier to `bytes`.
    pub fn encode(&self, bytes: &mut Vec<u8>)
        ensures
            final(bytes)@ == old(bytes)@ + self@,
    {
        put_bytes(bytes, self.0.as_slice());
    }

    /// Read an identifier at `pos`.
    pub fn decode(bytes: &[u8], pos: usize) -> (r: Result<(Id, usize), CodecError>)
        requires
            pos <= bytes@.len(),
        ensures
            match r {
                Ok((id, next)) => {
                    &&& pos + 32 <= bytes@.len()
                    &&& next == pos + 32
                    &&& id@ == bytes@.subrange(pos as int, pos + 32)
                },
                Err(e) => pos + 32 > bytes@.len() && e is Io,
            },
    {
        if bytes.len() - pos < 32 {
            return Err(CodecError::Io);
        }
        let mut data = [0u8; 32];
        let mut i: usize = 0;
        while i < 32
            invariant
                i <= 32,
                pos + 32 <= bytes@.len() <= usize::MAX,
                forall|j: int| 0 <= j < i ==> data@[j] == bytes@[pos + j],
            decreases 32 - i,
        {
            data[i] = bytes[pos + i];
            i += 1;
        }
        assert(data@ =~= bytes@.subrange(pos as int, pos + 32));
        Ok((Id(data), pos + 32))
    }
}

impl ReportId {
    /// The identifier as a hex string.
    pub fn to_hex(&self) -> (s: String)
        ensures
            s@ == crate::text::hex_chars(self@),
    {
        hex_encode(self.0.as_slice())
    }

    /// Append the 16 bytes of the identifier to `bytes`.
    pub fn encode(&self, bytes: &mut Vec<u8>)
        ensures
            final(bytes)@ == old(bytes)@ + self@,
    {
        put_bytes(bytes, self.0.as_slice());
    }

    /// Read a report identifier at `pos`.
    pub fn decode(bytes: &[u8], pos: usize) -> (r: Result<(ReportId, usize), CodecError>)
        requires
            pos <= bytes@.len(),
        ensures
            match r {
                Ok((id, next)) => {
                    &&& pos + 16 <= bytes@.len()
                    &&& next == pos + 16
                    &&& id@ == bytes@.subrange(pos as int, pos + 16)
                },
                Err(e) => pos + 16 > bytes@.len() && e is Io,
            },
    {
        if bytes.len() - pos < 16 {
            return Err(CodecError::Io);
        }
        let mut data = [0u8; 16];
        let mut i: usize = 0;
        while i < 16
            invariant
                i <= 16,
                pos + 16 <= bytes@.len() <= usize::MAX,
                forall|j: int| 0 <= j < i ==> data@[j] == bytes@[pos + j],
            decreases 16 - i,
        {
            data[i] = bytes[pos + i];
            i += 1;
        }
        assert(data@ =~= bytes@.subrange(pos as int, pos + 16));
        Ok((ReportId(data), pos + 16))
    }

    /// Decode a report identifier from exactly the bytes given.
    pub fn get_decoded(bytes: &[u8]) -> (r: Result<ReportId, CodecError>)
        ensures
            match r {
                Ok(id) => bytes@.len() == 16 && id@ == bytes@,
                Err(e) => if bytes@.len() < 16 {
                    e is Io
                } else {
                    bytes@.len() > 16 && e == CodecError::BytesLeftOver((bytes@.len() - 16) as usize)
                },
            },
    {
        match ReportId::decode(bytes, 0) {
            Ok((id, next)) => {
                if next != bytes.len() {
                    return Err(CodecError::BytesLeftOver(bytes.len() - next));
                }
                assert(bytes@.subrange(0, 16) =~= bytes@);
                Ok(id)
            },
            Err(e) => Err(e),
        }
    }
}

/// The reason a single report was rejected during aggregation.
#[derive(Clone, Copy, Debug, PartialEq, Eq, Structural)]
pub enum TransitionFailure {
    BatchCollected,
    ReportReplayed,
    ReportDropped,
    HpkeUnknownConfigId,
    HpkeDecryptError,
    VdafPrepError,
    BatchSaturated,
    TaskExpired,
    UnrecognizedMessage,
    ReportTooEarly,
}

/// A time interval, from `start` up to but excluding `start + duration`.
#[derive(Clone, Copy, Debug, PartialEq, Eq)]
pub struct Interval {
    pub start: Time,
    pub duration: Duration,
}

/// A query issued by the Collector.
#[derive(Clone, Debug, PartialEq, Eq)]
pub enum Query {
    TimeInterval { batch_interval: Interval },
    FixedSizeByBatchId { batch_id: Id },
    FixedSizeCurrentBatch,
}

/// A batch selector: what the Leader asks the Helper to release.
#[derive(Clone, Debug, PartialEq, Eq)]
pub enum BatchSelector {
    TimeInterval { batch_interval: Interval },
    FixedSizeByBatchId { batch_id: Id },
}

/// A partial batch selector: what the Leader tells the Helper about the
/// batch while reports are being aggregated.
#[derive(Clone, Debug, PartialEq, Eq)]
pub enum PartialBatchSelector {
    TimeInterval,
    FixedSizeByBatchId { batch_id: Id },
}

impl PartialBatchSelector {
    /// The encoding of the selector: the byte of its query type and, for the
    /// fixed-size type, the batch ID.
    pub open spec fn encoded(self) -> Seq<u8> {
        match self {
            PartialBatchSelector::TimeInterval => seq![QUERY_TYPE_TIME_INTERVAL],
            PartialBatchSelector::FixedSizeByBatchId { batch_id } => seq![QUERY_TYPE_FIXED_SIZE]
                + batch_id@,
        }
    }

    /// Append the encoding of the selector to `bytes`.
    pub fn encode(&self, bytes: &mut Vec<u8>)
        ensures
            final(bytes)@ == old(bytes)@ + self.encoded(),
    {
        match self {
            PartialBatchSelector::TimeInterval => {
                bytes.push(QUERY_TYPE_TIME_INTERVAL);
                assert(bytes@ =~= old(bytes)@ + self.encoded());
            },
            PartialBatchSelector::FixedSizeByBatchId { batch_id } => {
                bytes.push(QUERY_TYPE_FIXED_SIZE);
                batch_id.encode(bytes);
                assert(bytes@ =~= old(bytes)@ + self.encoded());
            },
        }
    }

    /// Read a selector at `pos`. The input has to hold the byte of a query
    /// type and, for the fixed-size type, the 32 bytes of a batch ID.
    pub fn decode(bytes: &[u8], pos: usize) -> (r: Result<
        (PartialBatchSelector, usize),
        CodecError,
    >)
        requires
            pos <= bytes@.len(),
        ensures
            match r {
                Ok((sel, next)) => {
                    &&& next == pos + sel.encoded().len()
                    &&& next <= bytes@.len()
                    &&& sel.encoded() == bytes@.subrange(pos as int, next as int)
                },
                Err(e) => e == PartialBatchSelector::decode_fault(bytes@.skip(pos as int))->0,
            },
            r is Ok <==> PartialBatchSelector::decode_fault(bytes@.skip(pos as int)) is None,
    {
        let (query_type, next) = match take_u8(bytes, pos) {
            Ok(read) => read,
            Err(e) => {
                return Err(e);
            },
        };
        if query_type == QUERY_TYPE_TIME_INTERVAL {
            let sel = PartialBatchSelector::TimeInterval;
            assert(sel.encoded() =~= bytes@.subrange(pos as int, next as int));
            Ok((sel, next))
        } else if query_type == QUERY_TYPE_FIXED_SIZE {
            match Id::decode(bytes, next) {
                Ok((batch_id, end)) => {
                    let sel = PartialBatchSelector::FixedSizeByBatchId { batch_id };
                    assert(sel.encoded() =~= bytes@.subrange(pos as int, end as int));
                    Ok((sel, end))
                },
                Err(e) => Err(e),
            }
        } else {
            Err(CodecError::UnexpectedValue)
        }
    }

    /// Why no selector can be read from the front of `data`, if none can:
    /// the input ends too early, or its first byte is no query type.
    pub open spec fn decode_fault(data: Seq<u8>) -> Option<CodecError> {
        if data.len() == 0 {
            Some(CodecError::Io)
        } else if data[0] == QUERY_TYPE_TIME_INTERVAL {
            None
        } else if data[0] == QUERY_TYPE_FIXED_SIZE {
            if data.len() < 33 {
                Some(CodecError::Io)
            } else {
                None
            }
        } else {
            Some(CodecError::UnexpectedValue)
        }
    }
}

/// A report extension.
#[derive(Clone, Debug, PartialEq, Eq)]
pub enum Extension {
    Taskprov { payload: Vec<u8> },
    Unhandled { typ: u16, payload: Vec<u8> },
}

/// Report metadata.
#[derive(Clone, Debug, PartialEq, Eq)]
pub struct ReportMetadata {
    pub id: ReportId,
    pub time: Time,
    pub extensions: Vec<Extension>,
}

/// An HPKE ciphertext.
#[derive(Clone, Debug, PartialEq, Eq)]
pub struct HpkeCiphertext {
    pub config_id: u8,
    pub enc: Vec<u8>,
    pub payload: Vec<u8>,
}

/// A report generated by a Client.
///
/// The task ID is part of the report in the earliest protocol version only;
/// in later versions it travels with the request that carries the report.
#[derive(Clone, Debug, PartialEq, Eq)]
pub struct Report {
    pub task_id: Option<Id>,
    pub metadata: ReportMetadata,
    pub public_share: Vec<u8>,
    pub encrypted_input_shares: Vec<HpkeCiphertext>,
}

/// Codepoint of an HPKE key encapsulation mechanism.
#[derive(Clone, Copy, Debug, PartialEq, Eq)]
pub enum HpkeKemId {
    P256HkdfSha256,
    X25519HkdfSha256,
    NotImplemented(u16),
}

/// Codepoint of an HPKE key derivation function.
#[derive(Clone, Copy, Debug, PartialEq, Eq)]
pub enum HpkeKdfId {
    HkdfSha256,
    NotImplemented(u16),
}

/// Codepoint of an HPKE AEAD.
#[derive(Clone, Copy, Debug, PartialEq, Eq)]
pub enum HpkeAeadId {
    Aes128Gcm,
    NotImplemented(u16),
}

/// The HPKE public key configuration of a Server.
#[derive(Clone, Debug, PartialEq, Eq)]
pub struct HpkeConfig {
    pub id: u8,
    pub kem_id: HpkeKemId,
    pub kdf_id: HpkeKdfId,
    pub aead_id: HpkeAeadId,
    pub public_key: Vec<u8>,
}

/// The Leader's answer to a collect request that has completed.
#[derive(Clone, Debug, PartialEq, Eq)]
pub struct CollectResp {
    pub part_batch_sel: PartialBatchSelector,
    pub report_count: u64,
    pub encrypted_agg_shares: Vec<HpkeCiphertext>,
}

impl Interval {
    /// The encoding of the interval: its start and its duration, eight bytes
    /// each.
    pub open spec fn encoded(self) -> Seq<u8> {
        u64_be(self.start) + u64_be(self.duration)
    }

    /// Append the encoding of the interval to `bytes`.
    pub fn encode(&self, bytes: &mut Vec<u8>)
        ensures
            final(bytes)@ == old(bytes)@ + self.encoded(),
    {
        put_u64(bytes, self.start);
        put_u64(bytes, self.duration);
        assert(bytes@ =~= old(bytes)@ + self.encoded());
    }

    /// Read an interval at `pos`.
    pub fn decode(bytes: &[u8], pos: usize) -> (r: Result<(Interval, usize), CodecError>)
        requires
            pos <= bytes@.len(),
        ensures
            match r {
                Ok((interval, next)) => {
                    &&& pos + 16 <= bytes@.len()
                    &&& next == pos + 16
                    &&& interval.start == u64_from_be(bytes@.subrange(pos as int, pos + 8))
                    &&& interval.duration == u64_from_be(bytes@.subrange(pos + 8, pos + 16))
                },
                Err(e) => pos + 16 > bytes@.len() && e is Io,
            },
    {
        let (start, after_start) = match take_u64(bytes, pos) {
            Ok(read) => read,
            Err(e) => {
                return Err(e);
            },
        };
        match take_u64(bytes, after_start) {
            Ok((duration, next)) => Ok((Interval { start, duration }, next)),
            Err(e) => Err(e),
        }
    }
}

impl BatchSelector {
    /// The encoding of the selector: the byte of its query type, followed by
    /// the batch interval or the batch ID.
    pub open spec fn encoded(self) -> Seq<u8> {
        match self {
            BatchSelector::TimeInterval { batch_interval } => seq![QUERY_TYPE_TIME_INTERVAL]
                + batch_interval.encoded(),
            BatchSelector::FixedSizeByBatchId { batch_id } => seq![QUERY_TYPE_FIXED_SIZE]
                + batch_id@,
        }
    }

    /// Why no selector can be read from the front of `data`, if none can:
    /// the input ends too early, or its first byte is no query type.
    pub open spec fn decode_fault(data: Seq<u8>) -> Option<CodecError> {
        if data.len() == 0 {
            Some(CodecError::Io)
        } else if data[0] == QUERY_TYPE_TIME_INTERVAL {
            if data.len() < 17 {
                Some(CodecError::Io)
            } else {
                None
            }
        } else if data[0] == QUERY_TYPE_FIXED_SIZE {
            if data.len() < 33 {
                Some(CodecError::Io)
            } else {
                None
            }
        } else {
            Some(CodecError::UnexpectedValue)
        }
    }

    /// Append the encoding of the selector to `bytes`.
    pub fn encode(&self, bytes: &mut Vec<u8>)
        ensures
            final(bytes)@ == old(bytes)@ + self.encoded(),
    {
        match self {
            BatchSelector::TimeInterval { batch_interval } => {
                bytes.push(QUERY_TYPE_TIME_INTERVAL);
                batch_interval.encode(bytes);
                assert(bytes@ =~= old(bytes)@ + self.encoded());
            },
            BatchSelector::FixedSizeByBatchId { batch_id } => {
                bytes.push(QUERY_TYPE_FIXED_SIZE);
                batch_id.encode(bytes);
                assert(bytes@ =~= old(bytes)@ + self.encoded());
            },
        }
    }

    /// Read a selector at `pos`.
    pub fn decode(bytes: &[u8], pos: usize) -> (r: Result<(BatchSelector, usize), CodecError>)
        requires
            pos <= bytes@.len(),
        ensures
            match r {
                Ok((sel, next)) => {
                    &&& next == pos + sel.encoded().len()
                    &&& next <= bytes@.len()
                    &&& sel.encoded() == bytes@.subrange(pos as int, next as int)
                },
                Err(e) => e == BatchSelector::decode_fault(bytes@.skip(pos as int))->0,
            },
            r is Ok <==> BatchSelector::decode_fault(bytes@.skip(pos as int)) is None,
    {
        let (query_type, next) = match take_u8(bytes, pos) {
            Ok(read) => read,
            Err(e) => {
                return Err(e);
            },
        };
        if query_type == QUERY_TYPE_TIME_INTERVAL {
            match Interval::decode(bytes, next) {
                Ok((batch_interval, end)) => {
                    let sel = BatchSelector::TimeInterval { batch_interval };
                    proof {
                        lemma_u64_bytes_roundtrip(bytes@.subrange(next as int, next + 8));
                        lemma_u64_bytes_roundtrip(bytes@.subrange(next + 8, next + 16));
                        assert(sel.encoded() =~= bytes@.subrange(pos as int, end as int));
                    }
                    Ok((sel, end))
                },
                Err(e) => Err(e),
            }
        } else if query_type == QUERY_TYPE_FIXED_SIZE {
            match Id::decode(bytes, next) {
                Ok((batch_id, end)) => {
                    let sel = BatchSelector::FixedSizeByBatchId { batch_id };
                    assert(sel.encoded() =~= bytes@.subrange(pos as int, end as int));
                    Ok((sel, end))
                },
                Err(e) => Err(e),
            }
        } else {
            Err(CodecError::UnexpectedValue)
        }
    }
}

/// A partial batch selector is given by its encoding.
pub proof fn lemma_partial_batch_selector_encoding_injective(a: PartialBatchSelector, b: PartialBatchSelector)
    requires
        a.encoded() == b.encoded(),
    ensures
        a == b,
{
    match (a, b) {
        (
            PartialBatchSelector::FixedSizeByBatchId { batch_id: x },
            PartialBatchSelector::FixedSizeByBatchId { batch_id: y },
        ) => {
            assert(x@ =~= a.encoded().skip(1));
            assert(y@ =~= b.encoded().skip(1));
            assert(x.0 =~= y.0);
        },
        (PartialBatchSelector::TimeInterval, PartialBatchSelector::TimeInterval) => {},
        (PartialBatchSelector::TimeInterval, PartialBatchSelector::FixedSizeByBatchId { batch_id }) => {
            assert(a.encoded()[0] == 1);
            assert(b.encoded()[0] == 2);
        },
        (PartialBatchSelector::FixedSizeByBatchId { batch_id }, PartialBatchSelector::TimeInterval) => {
            assert(a.encoded()[0] == 2);
            assert(b.encoded()[0] == 1);
        },
    }
}

/// A batch selector is given by its encoding.
pub proof fn lemma_batch_selector_encoding_injective(a: BatchSelector, b: BatchSelector)
    requires
        a.encoded() == b.encoded(),
    ensures
        a == b,
{
    match (a, b) {
        (
            BatchSelector::FixedSizeByBatchId { batch_id: x },
            BatchSelector::FixedSizeByBatchId { batch_id: y },
        ) => {
            assert(x@ =~= a.encoded().skip(1));
            assert(y@ =~= b.encoded().skip(1));
            assert(x.0 =~= y.0);
        },
        (
            BatchSelector::TimeInterval { batch_interval: x },
            BatchSelector::TimeInterval { batch_interval: y },
        ) => {
            lemma_u64_roundtrip(x.start);
            lemma_u64_roundtrip(x.duration);
            lemma_u64_roundtrip(y.start);
            lemma_u64_roundtrip(y.duration);
            assert(u64_be(x.start) =~= a.encoded().subrange(1, 9));
            assert(u64_be(y.start) =~= b.encoded().subrange(1, 9));
            assert(u64_be(x.duration) =~= a.encoded().subrange(9, 17));
            assert(u64_be(y.duration) =~= b.encoded().subrange(9, 17));
        },
        (BatchSelector::TimeInterval { .. }, BatchSelector::FixedSizeByBatchId { .. }) => {
            assert(a.encoded()[0] == 1);
            assert(b.encoded()[0] == 2);
        },
        (BatchSelector::FixedSizeByBatchId { .. }, BatchSelector::TimeInterval { .. }) => {
            assert(a.encoded()[0] == 2);
            assert(b.encoded()[0] == 1);
        },
    }
}

} // verus!
