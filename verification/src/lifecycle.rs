//! The lifecycle state machine: what each operation does to the table of VMs
//! and what it answers.
use vstd::prelude::*;

use crate::errors::ErrorView;
use crate::model::{status_name, VmState, VmStatus};

verus! {

/// The abstract table of VMs, keyed by identifier.
pub type VmTable = Map<Seq<char>, VmState>;

/// What an operation leaves behind and what it answers.
pub type Outcome = (VmTable, Result<(), ErrorView>);

/// A freshly provisioned VM.
pub open spec fn fresh_vm() -> VmState {
    VmState { status: VmStatus::Created, snapshots: Seq::empty() }
}

/// The refusal of a move from `status` towards `to`.
pub open spec fn refused(vm_id: Seq<char>, status: VmStatus, to: Seq<char>) -> ErrorView {
    ErrorView::InvalidTransition { vm_id, from: status_name(status), to }
}

/// The table with the VM `vm_id` set to `status`.
pub open spec fn with_status(vms: VmTable, vm_id: Seq<char>, status: VmStatus) -> VmTable {
    vms.insert(vm_id, VmState { status, snapshots: vms[vm_id].snapshots })
}

/// Provision a VM: refused if the identifier is in use.
pub open spec fn create_step(vms: VmTable, vm_id: Seq<char>) -> Outcome {
    if vms.contains_key(vm_id) {
        (vms, Err(ErrorView::VmAlreadyExists(vm_id)))
    } else {
        (vms.insert(vm_id, fresh_vm()), Ok(()))
    }
}

/// Start a created or stopped VM.
pub open spec fn start_step(vms: VmTable, vm_id: Seq<char>) -> Outcome {
    if !vms.contains_key(vm_id) {
        (vms, Err(ErrorView::VmNotFound(vm_id)))
    } else {
        match vms[vm_id].status {
            VmStatus::Created | VmStatus::Stopped => (
                with_status(vms, vm_id, VmStatus::Running),
                Ok(()),
            ),
            other => (vms, Err(refused(vm_id, other, "running"@))),
        }
    }
}

/// Stop a running VM.
pub open spec fn stop_step(vms: VmTable, vm_id: Seq<char>) -> Outcome {
    if !vms.contains_key(vm_id) {
        (vms, Err(ErrorView::VmNotFound(vm_id)))
    } else {
        match vms[vm_id].status {
            VmStatus::Running => (with_status(vms, vm_id, VmStatus::Stopped), Ok(())),
            other => (vms, Err(refused(vm_id, other, "stopped"@))),
        }
    }
}

/// Record a named snapshot of a VM that is not destroyed; names do not repeat.
pub open spec fn snapshot_step(vms: VmTable, vm_id: Seq<char>, snapshot_id: Seq<char>) -> Outcome {
    if !vms.contains_key(vm_id) {
        (vms, Err(ErrorView::VmNotFound(vm_id)))
    } else if vms[vm_id].status == VmStatus::Destroyed {
        (vms, Err(refused(vm_id, VmStatus::Destroyed, "snapshot"@)))
    } else if vms[vm_id].snapshots.contains(snapshot_id) {
        (vms, Err(ErrorView::SnapshotAlreadyExists { vm_id, snapshot_id }))
    } else {
        (
            vms.insert(
                vm_id,
                VmState {
                    status: vms[vm_id].status,
                    snapshots: vms[vm_id].snapshots.push(snapshot_id),
                },
            ),
            Ok(()),
        )
    }
}

/// Tear down a VM that is not destroyed yet; its record stays.
pub open spec fn destroy_step(vms: VmTable, vm_id: Seq<char>) -> Outcome {
    if !vms.contains_key(vm_id) {
        (vms, Err(ErrorView::VmNotFound(vm_id)))
    } else if vms[vm_id].status == VmStatus::Destroyed {
        (vms, Err(refused(vm_id, VmStatus::Destroyed, "destroyed"@)))
    } else {
        (with_status(vms, vm_id, VmStatus::Destroyed), Ok(()))
    }
}

} // verus!
