use microvm_blueprint_lib::{
    job_response, list_reply, vm_reply, BlueprintError, InMemoryVmProvider, JobRunner,
    LifecycleJob, QueryReply, VmProvider, VmQuery, VmStatus, VmView,
};

fn ids(provider: &InMemoryVmProvider) -> Vec<String> {
    provider.list_vms().expect("list").into_iter().map(|v| v.vm_id).collect()
}

fn snapshot_of(provider: &InMemoryVmProvider) -> Vec<(String, VmStatus, Vec<String>)> {
    provider
        .list_vms()
        .expect("list")
        .into_iter()
        .map(|v| (v.vm_id, v.status, v.snapshots))
        .collect()
}

#[test]
fn error_messages_name_the_vm() {
    assert_eq!(
        BlueprintError::VmAlreadyExists("vm-a".to_owned()).message(),
        "vm 'vm-a' already exists"
    );
    assert_eq!(BlueprintError::VmNotFound("vm-b".to_owned()).message(), "vm 'vm-b' not found");
    assert_eq!(
        BlueprintError::InvalidTransition {
            vm_id: "vm-c".to_owned(),
            from: "created",
            to: "stopped"
        }
        .message(),
        "invalid vm transition for 'vm-c': created -> stopped"
    );
    assert_eq!(
        BlueprintError::SnapshotAlreadyExists {
            vm_id: "vm-d".to_owned(),
            snapshot_id: "snap-1".to_owned()
        }
        .message(),
        "snapshot 'snap-1' already exists for vm 'vm-d'"
    );
    assert_eq!(BlueprintError::StatePoisoned.message(), "provider state lock poisoned");
}

#[test]
fn refusals_report_the_transition() {
    let mut provider = InMemoryVmProvider::default();
    provider.create_vm("vm-a").expect("create");
    assert_eq!(
        provider.stop_vm("vm-a").unwrap_err().message(),
        "invalid vm transition for 'vm-a': created -> stopped"
    );
    provider.start_vm("vm-a").expect("start");
    assert_eq!(
        provider.start_vm("vm-a").unwrap_err().message(),
        "invalid vm transition for 'vm-a': running -> running"
    );
    provider.destroy_vm("vm-a").expect("destroy");
    assert_eq!(
        provider.snapshot_vm("vm-a", "s").unwrap_err().message(),
        "invalid vm transition for 'vm-a': destroyed -> snapshot"
    );
    assert_eq!(
        provider.destroy_vm("vm-a").unwrap_err().message(),
        "invalid vm transition for 'vm-a': destroyed -> destroyed"
    );
    assert_eq!(
        provider.stop_vm("vm-a").unwrap_err().message(),
        "invalid vm transition for 'vm-a': destroyed -> stopped"
    );
    assert_eq!(
        provider.start_vm("vm-a").unwrap_err().message(),
        "invalid vm transition for 'vm-a': destroyed -> running"
    );
}

#[test]
fn status_names_are_snake_case() {
    assert_eq!(VmStatus::Created.as_str(), "created");
    assert_eq!(VmStatus::Running.as_str(), "running");
    assert_eq!(VmStatus::Stopped.as_str(), "stopped");
    assert_eq!(VmStatus::Destroyed.as_str(), "destroyed");
}

#[test]
fn not_found_errors_for_every_operation() {
    let mut provider = InMemoryVmProvider::default();
    assert!(matches!(provider.stop_vm("x"), Err(BlueprintError::VmNotFound(id)) if id == "x"));
    assert!(matches!(provider.snapshot_vm("x", "s"), Err(BlueprintError::VmNotFound(_))));
    assert!(matches!(provider.destroy_vm("x"), Err(BlueprintError::VmNotFound(_))));
    assert!(ids(&provider).is_empty());
}

#[test]
fn refused_operation_changes_nothing() {
    let mut provider = InMemoryVmProvider::default();
    provider.create_vm("vm-a").expect("create");
    provider.snapshot_vm("vm-a", "snap-1").expect("snapshot");
    let before = snapshot_of(&provider);
    assert!(provider.create_vm("vm-a").is_err());
    assert!(provider.stop_vm("vm-a").is_err());
    assert!(provider.snapshot_vm("vm-a", "snap-1").is_err());
    assert!(provider.start_vm("vm-b").is_err());
    assert_eq!(snapshot_of(&provider), before);
}

#[test]
fn destroyed_vm_refuses_every_job() {
    let mut provider = InMemoryVmProvider::default();
    provider.create_vm("vm-a").expect("create");
    provider.snapshot_vm("vm-a", "snap-1").expect("snapshot");
    provider.destroy_vm("vm-a").expect("destroy");
    let before = snapshot_of(&provider);
    assert!(provider.create_vm("vm-a").is_err());
    assert!(provider.start_vm("vm-a").is_err());
    assert!(provider.stop_vm("vm-a").is_err());
    assert!(provider.snapshot_vm("vm-a", "snap-2").is_err());
    assert!(provider.destroy_vm("vm-a").is_err());
    assert_eq!(snapshot_of(&provider), before);
}

#[test]
fn jobs_touch_only_their_vm() {
    let mut provider = InMemoryVmProvider::default();
    provider.create_vm("vm-a").expect("create a");
    provider.create_vm("vm-b").expect("create b");
    provider.start_vm("vm-a").expect("start a");
    provider.snapshot_vm("vm-a", "snap-1").expect("snap a");
    let b = provider.get_vm("vm-b").expect("query").expect("exists");
    assert_eq!(b.status, VmStatus::Created);
    assert!(b.snapshots.is_empty());
}

#[test]
fn created_vm_is_fresh() {
    let mut provider = InMemoryVmProvider::default();
    provider.create_vm("vm-new").expect("create");
    let vm = provider.get_vm("vm-new").expect("query").expect("exists");
    assert_eq!(vm.vm_id, "vm-new");
    assert_eq!(vm.status, VmStatus::Created);
    assert!(vm.snapshots.is_empty());
}

#[test]
fn stop_then_start_restores_running_vm() {
    let mut provider = InMemoryVmProvider::default();
    provider.create_vm("vm-a").expect("create");
    provider.start_vm("vm-a").expect("start");
    provider.snapshot_vm("vm-a", "snap-1").expect("snapshot");
    let before = snapshot_of(&provider);
    provider.stop_vm("vm-a").expect("stop");
    provider.start_vm("vm-a").expect("start again");
    assert_eq!(snapshot_of(&provider), before);
}

#[test]
fn listing_orders_identifiers_by_bytes() {
    let mut provider = InMemoryVmProvider::default();
    for id in ["vm-2", "a", "vm-10", "B", "\u{e9}", "z", "vm-1", ""] {
        provider.create_vm(id).expect("create");
    }
    let mut expected: Vec<String> =
        ["vm-2", "a", "vm-10", "B", "\u{e9}", "z", "vm-1", ""].iter().map(|s| s.to_string()).collect();
    expected.sort();
    assert_eq!(ids(&provider), expected);
    assert_eq!(ids(&provider), vec!["", "B", "a", "vm-1", "vm-10", "vm-2", "z", "\u{e9}"]);
}

#[test]
fn listing_agrees_with_lookups() {
    let mut provider = InMemoryVmProvider::default();
    provider.create_vm("vm-b").expect("create b");
    provider.create_vm("vm-a").expect("create a");
    provider.start_vm("vm-b").expect("start b");
    provider.snapshot_vm("vm-b", "s1").expect("snap");
    for view in provider.list_vms().expect("list") {
        let single = provider.get_vm(&view.vm_id).expect("query").expect("exists");
        assert_eq!(single.status, view.status);
        assert_eq!(single.snapshots, view.snapshots);
        let snaps = provider.list_snapshots(&view.vm_id).expect("query").expect("exists");
        assert_eq!(snaps, view.snapshots);
    }
}

#[test]
fn snapshots_keep_their_order() {
    let mut provider = InMemoryVmProvider::default();
    provider.create_vm("vm-a").expect("create");
    provider.snapshot_vm("vm-a", "zeta").expect("zeta");
    provider.snapshot_vm("vm-a", "alpha").expect("alpha");
    provider.stop_vm("vm-a").unwrap_err();
    provider.snapshot_vm("vm-a", "mid").expect("mid");
    let snaps = provider.list_snapshots("vm-a").expect("query").expect("exists");
    assert_eq!(snaps, vec!["zeta", "alpha", "mid"]);
}

#[test]
fn snapshot_names_are_per_vm() {
    let mut provider = InMemoryVmProvider::default();
    provider.create_vm("vm-a").expect("create a");
    provider.create_vm("vm-b").expect("create b");
    provider.snapshot_vm("vm-a", "snap-1").expect("snap a");
    provider.snapshot_vm("vm-b", "snap-1").expect("same name on another vm");
    let err = provider.snapshot_vm("vm-b", "snap-1").unwrap_err();
    assert_eq!(err.message(), "snapshot 'snap-1' already exists for vm 'vm-b'");
}

#[test]
fn job_response_reports_success_or_message() {
    assert_eq!(job_response(Ok(())), Ok(true));
    assert_eq!(
        job_response(Err(BlueprintError::VmNotFound("vm-z".to_owned()))),
        Err("vm 'vm-z' not found".to_owned())
    );
    let mut provider = InMemoryVmProvider::default();
    assert_eq!(job_response(provider.create_vm("vm-a")), Ok(true));
    assert_eq!(
        job_response(provider.create_vm("vm-a")),
        Err("vm 'vm-a' already exists".to_owned())
    );
}

#[test]
fn runner_passes_refusals_through() {
    let mut runner = JobRunner::new(InMemoryVmProvider::default());
    runner
        .execute(LifecycleJob::Create { vm_id: "vm-a".to_owned() })
        .expect("create");
    let err = runner
        .execute(LifecycleJob::Stop { vm_id: "vm-a".to_owned() })
        .unwrap_err();
    assert!(matches!(err, BlueprintError::InvalidTransition { from: "created", to: "stopped", .. }));
    let err = runner
        .execute(LifecycleJob::Snapshot { vm_id: "vm-x".to_owned(), snapshot_id: "s".to_owned() })
        .unwrap_err();
    assert!(matches!(err, BlueprintError::VmNotFound(_)));
    let vm = runner.provider().get_vm("vm-a").expect("query").expect("exists");
    assert_eq!(vm.status, VmStatus::Created);
}

#[test]
fn vm_reply_maps_results_to_status_codes() {
    let view = VmView { vm_id: "vm-a".to_owned(), status: VmStatus::Running, snapshots: vec![] };
    let found = vm_reply("vm-a", Ok(Some(view)));
    assert_eq!(found.status_code(), 200);
    assert!(matches!(found, QueryReply::Found(v) if v.vm_id == "vm-a"));

    let missing = vm_reply::<VmView>("vm-q", Ok(None));
    assert_eq!(missing.status_code(), 404);
    assert!(matches!(missing, QueryReply::NotFound(m) if m == "vm 'vm-q' not found"));

    let failed = vm_reply::<Vec<String>>("vm-q", Err(BlueprintError::StatePoisoned));
    assert_eq!(failed.status_code(), 500);
    assert!(matches!(failed, QueryReply::Failed(m) if m == "provider state lock poisoned"));
}

#[test]
fn list_reply_maps_results_to_status_codes() {
    let ok = list_reply(Ok(vec![1u8, 2]));
    assert_eq!(ok.status_code(), 200);
    assert!(matches!(ok, QueryReply::Found(v) if v == vec![1u8, 2]));
    let err = list_reply::<Vec<u8>>(Err(BlueprintError::StatePoisoned));
    assert_eq!(err.status_code(), 500);
    assert!(matches!(err, QueryReply::Failed(m) if m == "provider state lock poisoned"));
}

#[test]
fn queries_answer_from_provider() {
    let mut provider = InMemoryVmProvider::default();
    provider.create_vm("vm-a").expect("create");
    let reply = vm_reply("vm-a", provider.list_snapshots("vm-a"));
    assert!(matches!(reply, QueryReply::Found(ref s) if s.is_empty()));
    let reply = vm_reply("nope", provider.get_vm("nope"));
    assert_eq!(reply.status_code(), 404);
}

#[test]
fn listing_names_each_vm_once() {
    let mut provider = InMemoryVmProvider::default();
    provider.create_vm("vm-a").expect("create");
    assert!(provider.create_vm("vm-a").is_err());
    provider.destroy_vm("vm-a").expect("destroy");
    assert!(provider.create_vm("vm-a").is_err());
    assert_eq!(ids(&provider), vec!["vm-a"]);
    assert!(provider.get_vm("vm-b").expect("query").is_none());
}
