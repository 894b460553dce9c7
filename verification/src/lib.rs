//! Lifecycle orchestration of microVMs: a state machine over VM records,
//! the jobs that drive it and the read-only queries on it.
pub mod errors;
pub mod jobs;
pub mod laws;
pub mod lifecycle;
pub mod model;
pub mod order;
pub mod provider;
pub mod query;
pub mod runner;

pub use errors::{BlueprintError, BlueprintResult};
pub use jobs::{job_response, LifecycleJob, JOB_CREATE, JOB_DESTROY, JOB_SNAPSHOT, JOB_START, JOB_STOP};
pub use model::{VmStatus, VmView};
pub use provider::{InMemoryVmProvider, VmProvider, VmQuery};
pub use query::{list_reply, vm_reply, QueryReply};
pub use runner::JobRunner;
