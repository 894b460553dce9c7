//! Properties of the lifecycle that hold for every table and every job.
use vstd::prelude::*;

use crate::jobs::{job_step, LifecycleJob};
use crate::errors::ErrorView;
use crate::lifecycle::{
    create_step, destroy_step, fresh_vm, snapshot_step, start_step, stop_step, VmTable,
};
use crate::model::{distinct_names, status_name, VmStatus, VmView};
use crate::order::lemma_id_order;
use crate::provider::{lists_table, reports_snapshots, reports_vm};

verus! {

/// The lifecycle edges: a VM stays where it is, starts from created or stopped,
/// stops from running, or is destroyed from any status but destroyed.
pub open spec fn lifecycle_edge(from: VmStatus, to: VmStatus) -> bool {
    ||| from == to
    ||| to == VmStatus::Running && (from == VmStatus::Created || from == VmStatus::Stopped)
    ||| from == VmStatus::Running && to == VmStatus::Stopped
    ||| from != VmStatus::Destroyed && to == VmStatus::Destroyed
}

/// When a job may succeed, as the provider contract documents it: create needs an
/// unused identifier; start needs a created or stopped VM; stop a running one;
/// snapshot a VM that is not destroyed and a name it has not used; destroy a VM
/// that is not destroyed yet.
pub open spec fn job_permitted(vms: VmTable, job: LifecycleJob) -> bool {
    match job {
        LifecycleJob::Create { vm_id } => !vms.contains_key(vm_id@),
        LifecycleJob::Start { vm_id } => vms.contains_key(vm_id@) && (vms[vm_id@].status
            == VmStatus::Created || vms[vm_id@].status == VmStatus::Stopped),
        LifecycleJob::Stop { vm_id } => vms.contains_key(vm_id@) && vms[vm_id@].status
            == VmStatus::Running,
        LifecycleJob::Snapshot { vm_id, snapshot_id } => vms.contains_key(vm_id@)
            && vms[vm_id@].status != VmStatus::Destroyed && !vms[vm_id@].snapshots.contains(
            snapshot_id@,
        ),
        LifecycleJob::Destroy { vm_id } => vms.contains_key(vm_id@) && vms[vm_id@].status
            != VmStatus::Destroyed,
    }
}

/// A job succeeds exactly when it is permitted.
pub proof fn law_success_iff_permitted(vms: VmTable, job: LifecycleJob)
    ensures
        job_step(vms, job).1 is Ok <==> job_permitted(vms, job),
{
}

/// A refused job leaves the table as it was.
pub proof fn law_refusal_changes_nothing(vms: VmTable, job: LifecycleJob)
    ensures
        job_step(vms, job).1 is Err ==> job_step(vms, job).0 == vms,
{
}

/// A job changes no VM but its own, and no VM is ever forgotten.
pub proof fn law_job_is_local(vms: VmTable, job: LifecycleJob, k: Seq<char>)
    ensures
        vms.contains_key(k) ==> job_step(vms, job).0.contains_key(k),
        k != job.target() ==> job_step(vms, job).0.contains_key(k) == vms.contains_key(k),
        k != job.target() && vms.contains_key(k) ==> job_step(vms, job).0[k] == vms[k],
{
}

/// Destroyed is terminal: every job about a destroyed VM is refused.
pub proof fn law_destroyed_is_terminal(vms: VmTable, job: LifecycleJob)
    requires
        vms.contains_key(job.target()),
        vms[job.target()].status == VmStatus::Destroyed,
    ensures
        job_step(vms, job).1 is Err,
        job_step(vms, job).0 == vms,
{
}

/// Statuses move only along lifecycle edges, and a VM comes into being created,
/// with no snapshots.
pub proof fn law_status_follows_edges(vms: VmTable, job: LifecycleJob, k: Seq<char>)
    ensures
        vms.contains_key(k) ==> lifecycle_edge(vms[k].status, job_step(vms, job).0[k].status),
        !vms.contains_key(k) && job_step(vms, job).0.contains_key(k) ==> job_step(vms, job).0[k]
            == fresh_vm(),
{
}

/// Snapshots are append-only: a VM's earlier snapshot names stay, in order.
pub proof fn law_snapshots_append_only(vms: VmTable, job: LifecycleJob, k: Seq<char>)
    requires
        vms.contains_key(k),
    ensures
        vms[k].snapshots.is_prefix_of(job_step(vms, job).0[k].snapshots),
{
    let after = job_step(vms, job).0[k].snapshots;
    assert(after.take(vms[k].snapshots.len() as int) =~= vms[k].snapshots);
}

/// No VM ever holds two snapshots of the same name.
pub proof fn law_snapshot_names_stay_distinct(vms: VmTable, job: LifecycleJob)
    requires
        forall|k: Seq<char>| #[trigger] vms.contains_key(k) ==> distinct_names(vms[k].snapshots),
    ensures
        forall|k: Seq<char>| #[trigger]
            job_step(vms, job).0.contains_key(k) ==> distinct_names(
                job_step(vms, job).0[k].snapshots,
            ),
{
    let after = job_step(vms, job).0;
    assert forall|k: Seq<char>| #[trigger] after.contains_key(k) implies distinct_names(
        after[k].snapshots,
    ) by {
        if vms.contains_key(k) {
            if let LifecycleJob::Snapshot { vm_id, snapshot_id } = job {
                if k == vm_id@ && job_step(vms, job).1 is Ok {
                    let old_names = vms[k].snapshots;
                    let new_names = after[k].snapshots;
                    assert forall|a: int, b: int| 0 <= a < b < new_names.len() implies new_names[a]
                        != new_names[b] by {
                        if b == old_names.len() {
                            assert(old_names[a] == new_names[a]);
                        }
                    }
                }
            }
        } else {
            assert(after[k].snapshots =~= Seq::empty());
        }
    }
}

/// A VM that was just created is created and has no snapshots.
pub proof fn law_created_vm_is_fresh(vms: VmTable, vm_id: Seq<char>)
    requires
        create_step(vms, vm_id).1 is Ok,
    ensures
        create_step(vms, vm_id).0[vm_id] == fresh_vm(),
        create_step(vms, vm_id).0.remove(vm_id) == vms,
{
    assert(create_step(vms, vm_id).0.remove(vm_id) =~= vms);
}

/// Stopping a VM and starting it again gives back the table as it was.
pub proof fn law_stop_then_start_restores(vms: VmTable, vm_id: Seq<char>)
    requires
        stop_step(vms, vm_id).1 is Ok,
    ensures
        start_step(stop_step(vms, vm_id).0, vm_id).1 is Ok,
        start_step(stop_step(vms, vm_id).0, vm_id).0 == vms,
{
    assert(start_step(stop_step(vms, vm_id).0, vm_id).0 =~= vms);
}

/// A successful create adds the VM, created with no snapshots, and nothing else.
pub proof fn law_create_effect(vms: VmTable, vm_id: Seq<char>)
    ensures
        create_step(vms, vm_id).1 is Ok ==> {
            let after = create_step(vms, vm_id).0;
            &&& !vms.contains_key(vm_id)
            &&& after.contains_key(vm_id)
            &&& after[vm_id].status == VmStatus::Created
            &&& after[vm_id].snapshots.len() == 0
            &&& after.dom() == vms.dom().insert(vm_id)
        },
{
}

/// A successful start leaves the VM running, with its snapshots as they were.
pub proof fn law_start_effect(vms: VmTable, vm_id: Seq<char>)
    ensures
        start_step(vms, vm_id).1 is Ok ==> {
            let after = start_step(vms, vm_id).0;
            &&& vms.contains_key(vm_id)
            &&& after.contains_key(vm_id)
            &&& after[vm_id].status == VmStatus::Running
            &&& after[vm_id].snapshots == vms[vm_id].snapshots
            &&& after.dom() == vms.dom()
        },
        vms.contains_key(vm_id) && (vms[vm_id].status == VmStatus::Created || vms[vm_id].status
            == VmStatus::Stopped) ==> start_step(vms, vm_id).1 is Ok,
{
}

/// A successful stop leaves the VM stopped, with its snapshots as they were.
pub proof fn law_stop_effect(vms: VmTable, vm_id: Seq<char>)
    ensures
        stop_step(vms, vm_id).1 is Ok ==> {
            let after = stop_step(vms, vm_id).0;
            &&& vms.contains_key(vm_id)
            &&& vms[vm_id].status == VmStatus::Running
            &&& after.contains_key(vm_id)
            &&& after[vm_id].status == VmStatus::Stopped
            &&& after[vm_id].snapshots == vms[vm_id].snapshots
            &&& after.dom() == vms.dom()
        },
        vms.contains_key(vm_id) && vms[vm_id].status == VmStatus::Running ==> stop_step(
            vms,
            vm_id,
        ).1 is Ok,
{
}

/// A successful snapshot appends the name and leaves the VM's status alone.
pub proof fn law_snapshot_effect(vms: VmTable, vm_id: Seq<char>, snapshot_id: Seq<char>)
    ensures
        snapshot_step(vms, vm_id, snapshot_id).1 is Ok ==> {
            let after = snapshot_step(vms, vm_id, snapshot_id).0;
            &&& vms.contains_key(vm_id)
            &&& after.contains_key(vm_id)
            &&& after[vm_id].status == vms[vm_id].status
            &&& after[vm_id].snapshots.len() == vms[vm_id].snapshots.len() + 1
            &&& after[vm_id].snapshots.last() == snapshot_id
            &&& after[vm_id].snapshots.drop_last() == vms[vm_id].snapshots
            &&& after.dom() == vms.dom()
        },
{
    if snapshot_step(vms, vm_id, snapshot_id).1 is Ok {
        let after = snapshot_step(vms, vm_id, snapshot_id).0;
        assert(after[vm_id].snapshots.drop_last() =~= vms[vm_id].snapshots);
        assert(after.dom() =~= vms.dom());
    }
}

/// A successful destroy leaves the VM destroyed, with its snapshots as they were.
pub proof fn law_destroy_effect(vms: VmTable, vm_id: Seq<char>)
    ensures
        destroy_step(vms, vm_id).1 is Ok ==> {
            let after = destroy_step(vms, vm_id).0;
            &&& vms.contains_key(vm_id)
            &&& vms[vm_id].status != VmStatus::Destroyed
            &&& after.contains_key(vm_id)
            &&& after[vm_id].status == VmStatus::Destroyed
            &&& after[vm_id].snapshots == vms[vm_id].snapshots
            &&& after.dom() == vms.dom()
        },
        vms.contains_key(vm_id) && vms[vm_id].status != VmStatus::Destroyed ==> destroy_step(
            vms,
            vm_id,
        ).1 is Ok,
{
}

/// The status a successful job leaves its VM in: created, running, stopped or
/// destroyed after a create, start, stop or destroy job; unchanged after a snapshot.
pub open spec fn status_after(job: LifecycleJob, before: VmStatus) -> VmStatus {
    match job {
        LifecycleJob::Create { .. } => VmStatus::Created,
        LifecycleJob::Start { .. } => VmStatus::Running,
        LifecycleJob::Stop { .. } => VmStatus::Stopped,
        LifecycleJob::Snapshot { .. } => before,
        LifecycleJob::Destroy { .. } => VmStatus::Destroyed,
    }
}

/// Each job does exactly its own operation: a successful job leaves its VM in the
/// status its kind names; only a snapshot job adds a snapshot name (its own, at the
/// end) and every other job keeps the VM's snapshots (a created VM has none).
pub proof fn law_job_effect(vms: VmTable, job: LifecycleJob)
    ensures
        job_step(vms, job).1 is Ok ==> {
            let after = job_step(vms, job).0;
            let id = job.target();
            &&& after.contains_key(id)
            &&& after[id].status == status_after(job, vms[id].status)
            &&& match job {
                LifecycleJob::Create { .. } => after[id].snapshots.len() == 0,
                LifecycleJob::Snapshot { snapshot_id, .. } => after[id].snapshots
                    == vms[id].snapshots.push(snapshot_id@),
                _ => after[id].snapshots == vms[id].snapshots,
            }
        },
{
}

/// What a refused job answers: an unknown VM is not found, a used identifier
/// already exists, a repeated snapshot name already exists, and a status that
/// does not allow the job is reported with the move it refused.
pub proof fn law_refusal_answers(vms: VmTable, job: LifecycleJob)
    ensures
        ({
            let id = job.target();
            let r = job_step(vms, job).1;
            match job {
                LifecycleJob::Create { .. } => vms.contains_key(id) ==> r == Err::<(), ErrorView>(
                    ErrorView::VmAlreadyExists(id),
                ),
                LifecycleJob::Start { .. } => {
                    &&& !vms.contains_key(id) ==> r == Err::<(), ErrorView>(ErrorView::VmNotFound(id))
                    &&& vms.contains_key(id) && (vms[id].status == VmStatus::Running || vms[id].status
                        == VmStatus::Destroyed) ==> r == Err::<(), ErrorView>(
                        ErrorView::InvalidTransition {
                            vm_id: id,
                            from: status_name(vms[id].status),
                            to: "running"@,
                        },
                    )
                },
                LifecycleJob::Stop { .. } => {
                    &&& !vms.contains_key(id) ==> r == Err::<(), ErrorView>(ErrorView::VmNotFound(id))
                    &&& vms.contains_key(id) && vms[id].status != VmStatus::Running ==> r == Err::<
                        (),
                        ErrorView,
                    >(
                        ErrorView::InvalidTransition {
                            vm_id: id,
                            from: status_name(vms[id].status),
                            to: "stopped"@,
                        },
                    )
                },
                LifecycleJob::Snapshot { snapshot_id, .. } => {
                    &&& !vms.contains_key(id) ==> r == Err::<(), ErrorView>(ErrorView::VmNotFound(id))
                    &&& vms.contains_key(id) && vms[id].status == VmStatus::Destroyed ==> r == Err::<
                        (),
                        ErrorView,
                    >(
                        ErrorView::InvalidTransition {
                            vm_id: id,
                            from: "destroyed"@,
                            to: "snapshot"@,
                        },
                    )
                    &&& vms.contains_key(id) && vms[id].status != VmStatus::Destroyed
                        && vms[id].snapshots.contains(snapshot_id@) ==> r == Err::<(), ErrorView>(
                        ErrorView::SnapshotAlreadyExists { vm_id: id, snapshot_id: snapshot_id@ },
                    )
                },
                LifecycleJob::Destroy { .. } => {
                    &&& !vms.contains_key(id) ==> r == Err::<(), ErrorView>(ErrorView::VmNotFound(id))
                    &&& vms.contains_key(id) && vms[id].status == VmStatus::Destroyed ==> r == Err::<
                        (),
                        ErrorView,
                    >(
                        ErrorView::InvalidTransition {
                            vm_id: id,
                            from: "destroyed"@,
                            to: "destroyed"@,
                        },
                    )
                },
            }
        }),
{
}

/// A listing names every VM once.
pub proof fn law_listing_has_no_duplicates(views: Seq<VmView>, vms: VmTable)
    requires
        lists_table(views, vms),
    ensures
        forall|i: int, j: int|
            0 <= i < j < views.len() ==> #[trigger] views[i].vm_id@ != #[trigger] views[j].vm_id@,
{
    assert forall|i: int, j: int| 0 <= i < j < views.len() implies #[trigger] views[i].vm_id@
        != #[trigger] views[j].vm_id@ by {
        lemma_id_order(views[i].vm_id@, views[j].vm_id@, views[i].vm_id@);
    }
}

/// Queries agree: a VM that a lookup finds appears in the listing with the same
/// status and snapshots, and its snapshot query gives those snapshots.
pub proof fn law_queries_agree(
    views: Seq<VmView>,
    vms: VmTable,
    vm_id: Seq<char>,
    found: VmView,
    names: Vec<String>,
)
    requires
        lists_table(views, vms),
        reports_vm(Some(found), vm_id, vms),
        reports_snapshots(Some(names), vm_id, vms),
    ensures
        exists|i: int| 0 <= i < views.len() && #[trigger] views[i].state() == found.state(),
        found.state().1.snapshots == crate::model::names_view(names@),
{
    let i = choose|i: int| 0 <= i < views.len() && #[trigger] views[i].vm_id@ == vm_id;
    assert(views[i].state() == found.state());
}

/// A VM that a lookup does not find is not in the listing.
pub proof fn law_missing_vm_is_unlisted(views: Seq<VmView>, vms: VmTable, vm_id: Seq<char>)
    requires
        lists_table(views, vms),
        reports_vm(None, vm_id, vms),
    ensures
        forall|i: int| 0 <= i < views.len() ==> #[trigger] views[i].vm_id@ != vm_id,
{
}

} // verus!
