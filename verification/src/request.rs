//! Requests, responses, and what Clients and Collectors hand in and get back.

use crate::error::DapAbort;
use crate::messages::{CollectResp, Id};
use crate::version::DapVersion;
use vstd::prelude::*;

verus! {

/// A measurement from which a Client generates a report.
#[derive(Clone, Debug, PartialEq, Eq)]
pub enum DapMeasurement {
    U64(u64),
    U32Vec(Vec<u32>),
}

/// The aggregate result computed by the Collector.
#[derive(Debug, PartialEq, Eq)]
pub enum DapAggregateResult {
    U32Vec(Vec<u32>),
    U64(u64),
    U128(u128),
    U128Vec(Vec<u128>),
}

/// DAP request.
#[derive(Debug)]
pub struct DapRequest<S> {
    pub version: DapVersion,
    pub media_type: Option<&'static str>,
    pub task_id: Option<Id>,
    pub payload: Vec<u8>,
    pub url: url::Url,
    pub sender_auth: Option<S>,
}

impl<S> DapRequest<S> {
    /// The task ID of the request. A request without one counts as a
    /// message that could not be decoded.
    pub fn task_id(&self) -> (r: Result<&Id, DapAbort>)
        ensures
            match r {
                Ok(id) => self.task_id == Some(*id),
                Err(e) => self.task_id is None && e is UnrecognizedMessage,
            },
    {
        match &self.task_id {
            Some(id) => Ok(id),
            None => Err(DapAbort::UnrecognizedMessage),
        }
    }
}

/// DAP response.
#[derive(Debug)]
pub struct DapResponse {
    pub media_type: Option<&'static str>,
    pub payload: Vec<u8>,
}

/// Status of a collect job.
#[derive(Debug, PartialEq, Eq)]
pub enum DapCollectJob {
    Done(CollectResp),
    Pending,
    Unknown,
}

/// Telemetry information for the Leader's processing loop.
#[derive(Debug)]
pub struct DapLeaderProcessTelemetry {
    /// Number of collect requests completed.
    pub reports_collected: u64,
    /// The number of reports aggregated.
    pub reports_aggregated: u64,
    /// The number of reports processed.
    pub reports_processed: u64,
}

impl Default for DapLeaderProcessTelemetry {
    fn default() -> (t: Self)
        ensures
            t.reports_collected == 0,
            t.reports_aggregated == 0,
            t.reports_processed == 0,
    {
        DapLeaderProcessTelemetry { reports_collected: 0, reports_aggregated: 0, reports_processed: 0 }
    }
}

} // verus!
