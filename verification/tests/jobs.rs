use microvm_blueprint_lib::{
    InMemoryVmProvider, JobRunner, LifecycleJob, VmQuery, VmStatus, JOB_CREATE, JOB_DESTROY,
    JOB_SNAPSHOT, JOB_START, JOB_STOP,
};

#[test]
fn job_ids_are_unique() {
    let ids = [JOB_CREATE, JOB_START, JOB_STOP, JOB_SNAPSHOT, JOB_DESTROY];
    for i in 0..ids.len() {
        for j in (i + 1)..ids.len() {
            assert_ne!(ids[i], ids[j], "Job IDs at positions {i} and {j} collide");
        }
    }
}

#[test]
fn job_ids_are_sequential() {
    assert_eq!(JOB_CREATE, 0);
    assert_eq!(JOB_START, 1);
    assert_eq!(JOB_STOP, 2);
    assert_eq!(JOB_SNAPSHOT, 3);
    assert_eq!(JOB_DESTROY, 4);
}

#[test]
fn executes_lifecycle_jobs() {
    let provider = InMemoryVmProvider::default();
    let mut runner = JobRunner::new(provider);

    runner
        .execute(LifecycleJob::Create {
            vm_id: "vm-a".to_owned(),
        })
        .expect("create should succeed");
    runner
        .execute(LifecycleJob::Start {
            vm_id: "vm-a".to_owned(),
        })
        .expect("start should succeed");
    runner
        .execute(LifecycleJob::Snapshot {
            vm_id: "vm-a".to_owned(),
            snapshot_id: "snap-1".to_owned(),
        })
        .expect("snapshot should succeed");
    runner
        .execute(LifecycleJob::Stop {
            vm_id: "vm-a".to_owned(),
        })
        .expect("stop should succeed");
    runner
        .execute(LifecycleJob::Destroy {
            vm_id: "vm-a".to_owned(),
        })
        .expect("destroy should succeed");

    let vm = runner
        .provider()
        .get_vm("vm-a")
        .expect("query should succeed")
        .expect("vm should exist");

    assert_eq!(vm.status, VmStatus::Destroyed);
    assert_eq!(vm.snapshots, vec!["snap-1".to_owned()]);
}
