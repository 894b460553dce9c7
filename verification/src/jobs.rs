//! Lifecycle jobs: their on-chain identifiers, what each one does to the VM
//! table, and the answer a job gives back.
use vstd::prelude::*;

use crate::errors::{error_message, BlueprintResult};
use crate::lifecycle::{
    create_step, destroy_step, snapshot_step, start_step, stop_step, Outcome, VmTable,
};

verus! {

/// Create a new microVM.
pub const JOB_CREATE: u8 = 0;

/// Start a stopped or newly created microVM.
pub const JOB_START: u8 = 1;

/// Stop a running microVM.
pub const JOB_STOP: u8 = 2;

/// Capture microVM state as a named snapshot.
pub const JOB_SNAPSHOT: u8 = 3;

/// Tear down a microVM.
pub const JOB_DESTROY: u8 = 4;

/// A lifecycle operation with its arguments, as a job call carries it.
#[derive(Debug)]
pub enum LifecycleJob {
    Create { vm_id: String },
    Start { vm_id: String },
    Stop { vm_id: String },
    Snapshot { vm_id: String, snapshot_id: String },
    Destroy { vm_id: String },
}

impl LifecycleJob {
    /// The VM the job is about.
    pub open spec fn target(&self) -> Seq<char> {
        match self {
            LifecycleJob::Create { vm_id } => vm_id@,
            LifecycleJob::Start { vm_id } => vm_id@,
            LifecycleJob::Stop { vm_id } => vm_id@,
            LifecycleJob::Snapshot { vm_id, .. } => vm_id@,
            LifecycleJob::Destroy { vm_id } => vm_id@,
        }
    }
}

/// What a job does to the table and what it answers.
pub open spec fn job_step(vms: VmTable, job: LifecycleJob) -> Outcome {
    match job {
        LifecycleJob::Create { vm_id } => create_step(vms, vm_id@),
        LifecycleJob::Start { vm_id } => start_step(vms, vm_id@),
        LifecycleJob::Stop { vm_id } => stop_step(vms, vm_id@),
        LifecycleJob::Snapshot { vm_id, snapshot_id } => snapshot_step(vms, vm_id@, snapshot_id@),
        LifecycleJob::Destroy { vm_id } => destroy_step(vms, vm_id@),
    }
}

/// The answer a job call gives: `true` when the operation succeeded, the error's
/// message when it failed.
pub fn job_response(r: BlueprintResult<()>) -> (out: Result<bool, String>)
    ensures
        r is Ok ==> out == Ok::<bool, String>(true),
        r matches Err(e) ==> out matches Err(m) && m@ == error_message(e@),
{
    match r {
        Ok(()) => Ok(true),
        Err(e) => Err(e.message()),
    }
}

} // verus!
