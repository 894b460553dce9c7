//! Runs lifecycle jobs against a provider.
use vstd::prelude::*;

use crate::errors::{outcome_view, BlueprintResult};
use crate::jobs::{job_step, LifecycleJob};
use crate::provider::{performs, VmProvider};

verus! {

/// Dispatches lifecycle jobs to the provider it holds.
#[derive(Debug)]
pub struct JobRunner<P> {
    provider: P,
}

impl<P: VmProvider> JobRunner<P> {
    /// The provider this runner drives.
    pub closed spec fn held(&self) -> P {
        self.provider
    }

    /// A runner that drives `provider`.
    pub fn new(provider: P) -> (r: Self)
        ensures
            r.held() == provider,
    {
        Self { provider }
    }

    /// The provider this runner drives.
    pub fn provider(&self) -> (p: &P)
        ensures
            *p == self.held(),
    {
        &self.provider
    }

    /// Runs one job: the provider performs the job's operation and its answer is
    /// returned.
    pub fn execute(&mut self, job: LifecycleJob) -> (r: BlueprintResult<()>)
        ensures
            final(self).held().unavailable() == old(self).held().unavailable(),
            performs(
                old(self).held().unavailable(),
                old(self).held().lifecycle_view(),
                final(self).held().lifecycle_view(),
                outcome_view(r),
                job_step(old(self).held().lifecycle_view(), job),
            ),
    {
        match job {
            LifecycleJob::Create { vm_id } => self.provider.create_vm(vm_id.as_str()),
            LifecycleJob::Start { vm_id } => self.provider.start_vm(vm_id.as_str()),
            LifecycleJob::Stop { vm_id } => self.provider.stop_vm(vm_id.as_str()),
            LifecycleJob::Snapshot { vm_id, snapshot_id } => {
                self.provider.snapshot_vm(vm_id.as_str(), snapshot_id.as_str())
            },
            LifecycleJob::Destroy { vm_id } => self.provider.destroy_vm(vm_id.as_str()),
        }
    }
}

} // verus!
