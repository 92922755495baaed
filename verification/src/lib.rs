//! Core protocol logic of the Distributed Aggregation Protocol (DAP): the
//! aggregate-share algebra, batch bucketing, the Helper's state encoding, task
//! and global configuration, and the abort taxonomy.
//!
//! VDAF data is held in plain form (vectors of field residues, prepare states
//! in their wire encoding). Field arithmetic and the prepare-state codec are
//! done by the `prio` crate behind small trusted functions in [`vdaf`].

pub mod agg_share;
pub mod batch;
pub mod codec;
pub mod durable;
pub mod error;
pub mod messages;
pub mod report;
pub mod request;
pub mod state;
pub mod task;
pub mod text;
pub mod vdaf;
pub mod version;

pub use agg_share::{DapAggregateShare, DapOutputShare};
pub use error::{DapAbort, DapError, ProblemDetails};
pub use request::{
    DapAggregateResult, DapCollectJob, DapLeaderProcessTelemetry, DapMeasurement, DapRequest,
    DapResponse,
};
pub use state::{
    DapHelperState, DapHelperTransition, DapLeaderState, DapLeaderTransition, DapLeaderUncommitted,
};
pub use task::{DapBatchBucket, DapGlobalConfig, DapQueryConfig, DapTaskConfig};
pub use vdaf::{Prio3Config, VdafConfig};
pub use version::DapVersion;
