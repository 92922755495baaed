//! The three-tier fault model and the peer-visible abort taxonomy.
//!
//! A fatal error is an invariant violation inside the core, an abort is a
//! protocol violation that a peer gets to see, and a transition failure
//! blocks a single report within an aggregation job.

use crate::codec::CodecError;
use crate::messages::TransitionFailure;
use vstd::prelude::*;
use vstd::std_specs::convert::FromSpecImpl;
use vstd::string::StringExecFns;

verus! {

/// DAP errors.
#[derive(Debug)]
pub enum DapError {
    /// Fatal error. If this triggers an abort, it is reported as an internal error.
    Fatal(String),
    /// Error triggered by the peer, resulting in an abort.
    Abort(DapAbort),
    /// Transition failure. Blocks processing of one report and may, under
    /// certain conditions, trigger an abort.
    Transition(TransitionFailure),
}

/// DAP aborts.
#[derive(Debug)]
pub enum DapAbort {
    /// Bad request, with a description of what could not be handled.
    BadRequest(String),
    /// Invalid batch.
    BatchInvalid,
    /// Batch mismatch.
    BatchMismatch,
    /// The Collector has requested an aggregate share that it has collected in the past.
    BatchOverlap,
    /// Internal error, with the message of its cause.
    Internal(String),
    /// Unsupported or unknown DAP version.
    InvalidProtocolVersion,
    /// Invalid batch size, either too small or too large.
    InvalidBatchSize,
    /// A server has opted out of a task configuration.
    InvalidTask,
    /// Request with missing task ID.
    MissingTaskId,
    /// Query mismatch.
    QueryMismatch,
    /// A report has been uploaded a second time.
    ReplayedReport,
    /// A report has been uploaded for a task that has expired.
    ReportTooLate,
    /// A report pertains to a batch that has already been collected.
    StaleReport,
    /// Unauthorized HTTP request.
    UnauthorizedRequest,
    /// The Helper does not recognize the indicated aggregation job.
    UnrecognizedAggregationJob,
    /// A report share is encrypted under an unrecognized HPKE configuration.
    UnrecognizedHpkeConfig,
    /// Malformed or unexpected message.
    UnrecognizedMessage,
    /// Unrecognized task ID.
    UnrecognizedTask,
}

/// A problem details document compatible with RFC 7807.
#[derive(Debug)]
pub struct ProblemDetails {
    pub typ: String,
    pub taskid: Option<String>,
    pub instance: Option<String>,
    pub detail: Option<String>,
}

/// What every problem type starts with.
pub open spec fn problem_type_prefix() -> Seq<char> {
    "urn:ietf:params:ppm:dap:error:"@
}

/// The message of the abort that a transition failure other than a collected
/// batch or a replayed report turns into.
pub open spec fn unhandled_transition_message() -> Seq<char> {
    "fatal error: unhandled transition failure"@
}

impl TransitionFailure {
    /// The name of the failure, followed by its code in parentheses.
    pub open spec fn text(self) -> Seq<char> {
        match self {
            TransitionFailure::BatchCollected => "batch-collected(0)"@,
            TransitionFailure::ReportReplayed => "report-replayed(1)"@,
            TransitionFailure::ReportDropped => "report-dropped(2)"@,
            TransitionFailure::HpkeUnknownConfigId => "hpke-unknown-config-id(3)"@,
            TransitionFailure::HpkeDecryptError => "hpke-decrypt-error(4)"@,
            TransitionFailure::VdafPrepError => "vdaf-prep-error(5)"@,
            TransitionFailure::BatchSaturated => "batch-saturated(6)"@,
            TransitionFailure::TaskExpired => "task-expired(7)"@,
            TransitionFailure::UnrecognizedMessage => "unrecognized-message(8)"@,
            TransitionFailure::ReportTooEarly => "report-too-early(9)"@,
        }
    }

    /// The name of the failure, followed by its code in parentheses.
    pub fn as_str(&self) -> (s: &'static str)
        ensures
            s@ == self.text(),
    {
        match self {
            TransitionFailure::BatchCollected => "batch-collected(0)",
            TransitionFailure::ReportReplayed => "report-replayed(1)",
            TransitionFailure::ReportDropped => "report-dropped(2)",
            TransitionFailure::HpkeUnknownConfigId => "hpke-unknown-config-id(3)",
            TransitionFailure::HpkeDecryptError => "hpke-decrypt-error(4)",
            TransitionFailure::VdafPrepError => "vdaf-prep-error(5)",
            TransitionFailure::BatchSaturated => "batch-saturated(6)",
            TransitionFailure::TaskExpired => "task-expired(7)",
            TransitionFailure::UnrecognizedMessage => "unrecognized-message(8)",
            TransitionFailure::ReportTooEarly => "report-too-early(9)",
        }
    }
}

impl DapAbort {
    /// The last component of the abort's problem type.
    pub open spec fn kind(self) -> Seq<char> {
        match self {
            DapAbort::BadRequest(_) => "badRequest"@,
            DapAbort::BatchInvalid => "batchInvalid"@,
            DapAbort::BatchMismatch => "batchMismatch"@,
            DapAbort::BatchOverlap => "batchOverlap"@,
            DapAbort::Internal(_) => "internalError"@,
            DapAbort::InvalidProtocolVersion => "invalidProtocolVersion"@,
            DapAbort::InvalidBatchSize => "invalidBatchSize"@,
            DapAbort::InvalidTask => "invalidTask"@,
            DapAbort::MissingTaskId => "missingTaskID"@,
            DapAbort::QueryMismatch => "queryMismatch"@,
            DapAbort::ReplayedReport => "replayedReport"@,
            DapAbort::ReportTooLate => "reportTooLate"@,
            DapAbort::StaleReport => "staleReport"@,
            DapAbort::UnauthorizedRequest => "unauthorizedRequest"@,
            DapAbort::UnrecognizedAggregationJob => "unrecognizedAggregationJob"@,
            DapAbort::UnrecognizedHpkeConfig => "unrecognizedHpkeConfig"@,
            DapAbort::UnrecognizedMessage => "unrecognizedMessage"@,
            DapAbort::UnrecognizedTask => "unrecognizedTask"@,
        }
    }

    /// The detail that the abort's problem document carries: the description
    /// of a bad request, the cause of an internal error, and nothing for the
    /// other kinds.
    pub open spec fn detail(self) -> Option<Seq<char>> {
        match self {
            DapAbort::BadRequest(s) => Some(s@),
            DapAbort::Internal(s) => Some(s@),
            _ => None,
        }
    }

    /// What the abort displays as: the cause for an internal error, and the
    /// kind otherwise.
    pub open spec fn text(self) -> Seq<char> {
        match self {
            DapAbort::Internal(s) => s@,
            _ => self.kind(),
        }
    }

    fn kind_str(&self) -> (s: &'static str)
        ensures
            s@ == self.kind(),
    {
        match self {
            DapAbort::BadRequest(_) => "badRequest",
            DapAbort::BatchInvalid => "batchInvalid",
            DapAbort::BatchMismatch => "batchMismatch",
            DapAbort::BatchOverlap => "batchOverlap",
            DapAbort::Internal(_) => "internalError",
            DapAbort::InvalidProtocolVersion => "invalidProtocolVersion",
            DapAbort::InvalidBatchSize => "invalidBatchSize",
            DapAbort::InvalidTask => "invalidTask",
            DapAbort::MissingTaskId => "missingTaskID",
            DapAbort::QueryMismatch => "queryMismatch",
            DapAbort::ReplayedReport => "replayedReport",
            DapAbort::ReportTooLate => "reportTooLate",
            DapAbort::StaleReport => "staleReport",
            DapAbort::UnauthorizedRequest => "unauthorizedRequest",
            DapAbort::UnrecognizedAggregationJob => "unrecognizedAggregationJob",
            DapAbort::UnrecognizedHpkeConfig => "unrecognizedHpkeConfig",
            DapAbort::UnrecognizedMessage => "unrecognizedMessage",
            DapAbort::UnrecognizedTask => "unrecognizedTask",
        }
    }

    /// The abort as text.
    pub fn to_string(&self) -> (s: String)
        ensures
            s@ == self.text(),
    {
        match self {
            DapAbort::Internal(cause) => cause.clone(),
            _ => String::from_str(self.kind_str()),
        }
    }

    /// Construct a problem details document for this abort.
    pub fn to_problem_details(&self) -> (pd: ProblemDetails)
        ensures
            pd.typ@ == problem_type_prefix() + self.kind(),
            pd.taskid is None,
            pd.instance is None,
            match self.detail() {
                Some(d) => pd.detail matches Some(s) && s@ == d,
                None => pd.detail is None,
            },
    {
        let detail = match self {
            DapAbort::BadRequest(s) => Some(s.clone()),
            DapAbort::Internal(s) => Some(s.clone()),
            _ => None,
        };
        let mut typ = String::from_str("urn:ietf:params:ppm:dap:error:");
        typ.append(self.kind_str());
        ProblemDetails { typ, taskid: None, instance: None, detail }
    }
}

impl DapError {
    /// Create a fatal error.
    pub fn fatal(s: &'static str) -> (e: Self)
        ensures
            e matches DapError::Fatal(m) && m@ == s@,
    {
        DapError::Fatal(String::from_str(s))
    }

    /// What the error displays as.
    pub open spec fn text(self) -> Seq<char> {
        match self {
            DapError::Fatal(s) => "fatal error: "@ + s@,
            DapError::Abort(a) => "abort: "@ + a.text(),
            DapError::Transition(t) => "transition error: "@ + t.text(),
        }
    }

    /// The error as text.
    pub fn to_string(&self) -> (s: String)
        ensures
            s@ == self.text(),
    {
        match self {
            DapError::Fatal(m) => {
                let mut s = String::from_str("fatal error: ");
                s.append(m.as_str());
                s
            },
            DapError::Abort(a) => {
                let mut s = String::from_str("abort: ");
                let t = a.to_string();
                s.append(t.as_str());
                s
            },
            DapError::Transition(t) => {
                let mut s = String::from_str("transition error: ");
                s.append(t.as_str());
                s
            },
        }
    }
}

/// `Error` of `serde_json`. Nothing is known of what is inside.
#[verifier::external_type_specification]
#[verifier::external_body]
pub struct ExSerdeJsonError(serde_json::Error);

/// `FromHexError` of the hex crate. Nothing is known of what is inside.
#[verifier::external_type_specification]
#[verifier::external_body]
pub struct ExFromHexError(hex::FromHexError);

/// The message that an error of `serde_json` displays, by its `to_string`.
/// Nothing is claimed of the message.
#[verifier::external_body]
fn serde_json_error_message(e: &serde_json::Error) -> (s: String) {
    e.to_string()
}

/// The message that a `FromHexError` of the hex crate displays, by its
/// `to_string`. Nothing is claimed of the message.
#[verifier::external_body]
fn from_hex_error_message(e: &hex::FromHexError) -> (s: String) {
    e.to_string()
}

impl FromSpecImpl<serde_json::Error> for DapError {
    open spec fn obeys_from_spec() -> bool {
        false
    }

    open spec fn from_spec(e: serde_json::Error) -> DapError {
        arbitrary()
    }
}

impl From<serde_json::Error> for DapError {
    /// A JSON error is fatal. Its message follows `serde_json: `.
    fn from(e: serde_json::Error) -> (r: DapError)
        ensures
            r matches DapError::Fatal(m) && "serde_json: "@.is_prefix_of(m@),
    {
        let mut s = String::from_str("serde_json: ");
        let message = serde_json_error_message(&e);
        s.append(message.as_str());
        DapError::Fatal(s)
    }
}

impl FromSpecImpl<hex::FromHexError> for DapError {
    open spec fn obeys_from_spec() -> bool {
        false
    }

    open spec fn from_spec(e: hex::FromHexError) -> DapError {
        arbitrary()
    }
}

impl From<hex::FromHexError> for DapError {
    /// A failure to decode hexadecimal is fatal. Its message follows `from hex: `.
    fn from(e: hex::FromHexError) -> (r: DapError)
        ensures
            r matches DapError::Fatal(m) && "from hex: "@.is_prefix_of(m@),
    {
        let mut s = String::from_str("from hex: ");
        let message = from_hex_error_message(&e);
        s.append(message.as_str());
        DapError::Fatal(s)
    }
}

impl FromSpecImpl<CodecError> for DapError {
    open spec fn obeys_from_spec() -> bool {
        false
    }

    open spec fn from_spec(e: CodecError) -> DapError {
        arbitrary()
    }
}

impl From<CodecError> for DapError {
    /// A codec error inside the core is fatal. Its message follows `codec: `.
    fn from(e: CodecError) -> (r: DapError)
        ensures
            r matches DapError::Fatal(m) && m@ == "codec: "@ + e.text(),
    {
        let mut s = String::from_str("codec: ");
        let message = e.to_string();
        s.append(message.as_str());
        DapError::Fatal(s)
    }
}

impl FromSpecImpl<CodecError> for DapAbort {
    open spec fn obeys_from_spec() -> bool {
        true
    }

    open spec fn from_spec(e: CodecError) -> DapAbort {
        DapAbort::UnrecognizedMessage
    }
}

impl From<CodecError> for DapAbort {
    /// A message of a peer that cannot be decoded is an unrecognized message.
    fn from(e: CodecError) -> (r: DapAbort) {
        DapAbort::UnrecognizedMessage
    }
}

impl FromSpecImpl<DapError> for DapAbort {
    open spec fn obeys_from_spec() -> bool {
        false
    }

    open spec fn from_spec(e: DapError) -> DapAbort {
        arbitrary()
    }
}

impl From<DapError> for DapAbort {
    /// A fatal error shows as an internal error whose cause is the text of
    /// the error, an abort stays what it is, and a transition failure turns
    /// into the abort that stands for it.
    fn from(e: DapError) -> (abort: DapAbort)
        ensures
            e is Fatal ==> (abort matches DapAbort::Internal(m) && m@ == e.text()),
            e matches DapError::Abort(a) ==> abort == a,
            e matches DapError::Transition(t) ==> {
                &&& t is BatchCollected ==> abort is StaleReport
                &&& t is ReportReplayed ==> abort is ReplayedReport
                &&& !(t is BatchCollected) && !(t is ReportReplayed) ==> (abort matches DapAbort::Internal(
                    m,
                ) && m@ == unhandled_transition_message())
            },
    {
        match e {
            DapError::Fatal(s) => {
                let e = DapError::Fatal(s);
                DapAbort::Internal(e.to_string())
            },
            DapError::Abort(a) => a,
            DapError::Transition(t) => DapAbort::from(t),
        }
    }
}

impl FromSpecImpl<TransitionFailure> for DapAbort {
    open spec fn obeys_from_spec() -> bool {
        false
    }

    open spec fn from_spec(failure_reason: TransitionFailure) -> DapAbort {
        arbitrary()
    }
}

impl From<TransitionFailure> for DapAbort {
    /// A collected batch shows to the peer as a stale report and a replayed
    /// report as such. Any other transition failure that gets this far is an
    /// internal error.
    fn from(failure_reason: TransitionFailure) -> (abort: DapAbort)
        ensures
            failure_reason is BatchCollected ==> abort is StaleReport,
            failure_reason is ReportReplayed ==> abort is ReplayedReport,
            !(failure_reason is BatchCollected) && !(failure_reason is ReportReplayed) ==> (abort
                matches DapAbort::Internal(m) && m@ == unhandled_transition_message()),
    {
        match failure_reason {
            TransitionFailure::BatchCollected => DapAbort::StaleReport,
            TransitionFailure::ReportReplayed => DapAbort::ReplayedReport,
            _ => {
                let e = DapError::fatal("unhandled transition failure");
                let m = e.to_string();
                proof {
                    reveal_strlit("fatal error: ");
                    reveal_strlit("unhandled transition failure");
                    reveal_strlit("fatal error: unhandled transition failure");
                    assert(m@ =~= unhandled_transition_message());
                }
                DapAbort::Internal(m)
            },
        }
    }
}

} // verus!
