//! Provider contracts and the in-memory provider.
//!
//! [`VmProvider`] holds the state-changing operations that lifecycle jobs run,
//! [`VmQuery`] the read-only ones that query surfaces serve.
//! [`InMemoryVmProvider`] implements both.
use vstd::prelude::*;

use crate::errors::{outcome_view, BlueprintError, BlueprintResult, ErrorView};
use crate::lifecycle::{
    create_step, destroy_step, fresh_vm, snapshot_step, start_step, stop_step, with_status,
    Outcome, VmTable,
};
use crate::model::{clone_names, distinct_names, names_view, VmState, VmStatus, VmView};
use crate::order::{compare_ids, id_lt, lemma_id_order, IdOrder};

verus! {

/// `views` lists every VM of `vms` once, sorted by identifier, with its state.
pub open spec fn lists_table(views: Seq<VmView>, vms: VmTable) -> bool {
    &&& forall|i: int|
        0 <= i < views.len() ==> vms.contains_key(#[trigger] views[i].vm_id@) && vms[views[i].vm_id@]
            == views[i].state().1
    &&& forall|k: Seq<char>|
        vms.contains_key(k) ==> exists|i: int| 0 <= i < views.len() && #[trigger] views[i].vm_id@ == k
    &&& forall|i: int, j: int|
        0 <= i < j < views.len() ==> id_lt(#[trigger] views[i].vm_id@, #[trigger] views[j].vm_id@)
}

/// `found` is the VM `vm_id` of `vms`, or `None` where there is none.
pub open spec fn reports_vm(found: Option<VmView>, vm_id: Seq<char>, vms: VmTable) -> bool {
    match found {
        Some(v) => vms.contains_key(vm_id) && v.state() == (vm_id, vms[vm_id]),
        None => !vms.contains_key(vm_id),
    }
}

/// `found` holds the snapshot names of the VM `vm_id` of `vms`, or is `None` where
/// there is no such VM.
pub open spec fn reports_snapshots(found: Option<Vec<String>>, vm_id: Seq<char>, vms: VmTable) -> bool {
    match found {
        Some(names) => vms.contains_key(vm_id) && names_view(names@) == vms[vm_id].snapshots,
        None => !vms.contains_key(vm_id),
    }
}

/// What a provider does for one operation whose state-machine outcome is `step`:
/// while its state cannot be reached (a poisoned lock) it answers `StatePoisoned`
/// and changes nothing; otherwise it ends in the table `step` prescribes and gives
/// the answer `step` prescribes.
pub open spec fn performs(
    unavailable: bool,
    before: VmTable,
    after: VmTable,
    r: Result<(), ErrorView>,
    step: Outcome,
) -> bool {
    if unavailable {
        after == before && r == Err::<(), ErrorView>(ErrorView::StatePoisoned)
    } else {
        after == step.0 && r == step.1
    }
}

/// State-changing operations on microVMs, executed by lifecycle jobs.
///
/// Each operation does what the lifecycle state machine prescribes, unless the
/// provider's state cannot be reached; then it answers `StatePoisoned`.
pub trait VmProvider: Send + Sync + 'static {
    /// The VMs this provider knows.
    spec fn lifecycle_view(&self) -> VmTable;

    /// The provider's state cannot be reached (its lock is poisoned).
    spec fn unavailable(&self) -> bool;

    /// Provision a new microVM. Fails if `vm_id` is already in use.
    fn create_vm(&mut self, vm_id: &str) -> (r: BlueprintResult<()>)
        ensures
            final(self).unavailable() == old(self).unavailable(),
            performs(
                old(self).unavailable(),
                old(self).lifecycle_view(),
                final(self).lifecycle_view(),
                outcome_view(r),
                create_step(old(self).lifecycle_view(), vm_id@),
            ),
    ;

    /// Start a created or stopped microVM. Fails if already running or destroyed.
    fn start_vm(&mut self, vm_id: &str) -> (r: BlueprintResult<()>)
        ensures
            final(self).unavailable() == old(self).unavailable(),
            performs(
                old(self).unavailable(),
                old(self).lifecycle_view(),
                final(self).lifecycle_view(),
                outcome_view(r),
                start_step(old(self).lifecycle_view(), vm_id@),
            ),
    ;

    /// Stop a running microVM. Fails if not currently running.
    fn stop_vm(&mut self, vm_id: &str) -> (r: BlueprintResult<()>)
        ensures
            final(self).unavailable() == old(self).unavailable(),
            performs(
                old(self).unavailable(),
                old(self).lifecycle_view(),
                final(self).lifecycle_view(),
                outcome_view(r),
                stop_step(old(self).lifecycle_view(), vm_id@),
            ),
    ;

    /// Capture the state of a microVM as a named snapshot.
    /// Fails if the VM is destroyed or the snapshot name already exists.
    fn snapshot_vm(&mut self, vm_id: &str, snapshot_id: &str) -> (r: BlueprintResult<()>)
        ensures
            final(self).unavailable() == old(self).unavailable(),
            performs(
                old(self).unavailable(),
                old(self).lifecycle_view(),
                final(self).lifecycle_view(),
                outcome_view(r),
                snapshot_step(old(self).lifecycle_view(), vm_id@, snapshot_id@),
            ),
    ;

    /// Tear down a microVM. Terminal state: it cannot be restarted.
    fn destroy_vm(&mut self, vm_id: &str) -> (r: BlueprintResult<()>)
        ensures
            final(self).unavailable() == old(self).unavailable(),
            performs(
                old(self).unavailable(),
                old(self).lifecycle_view(),
                final(self).lifecycle_view(),
                outcome_view(r),
                destroy_step(old(self).lifecycle_view(), vm_id@),
            ),
    ;
}

/// Read-only queries against microVM state, used by query surfaces.
///
/// Each query answers from the provider's table, unless the provider's state
/// cannot be reached; then it answers `StatePoisoned`.
pub trait VmQuery: Send + Sync + 'static {
    /// The VMs this provider knows.
    spec fn query_view(&self) -> VmTable;

    /// The provider's state cannot be reached (its lock is poisoned).
    spec fn query_unavailable(&self) -> bool;

    /// Return all known VMs, sorted by identifier.
    fn list_vms(&self) -> (r: BlueprintResult<Vec<VmView>>)
        ensures
            !self.query_unavailable() ==> (r matches Ok(views) && lists_table(views@, self.query_view())),
            self.query_unavailable() ==> (r matches Err(e) && e@ == ErrorView::StatePoisoned),
    ;

    /// Return a single VM by identifier, or `None` if it does not exist.
    fn get_vm(&self, vm_id: &str) -> (r: BlueprintResult<Option<VmView>>)
        ensures
            !self.query_unavailable() ==> (r matches Ok(found) && reports_vm(found, vm_id@, self.query_view())),
            self.query_unavailable() ==> (r matches Err(e) && e@ == ErrorView::StatePoisoned),
    ;

    /// Return the snapshot names for a VM, or `None` if the VM does not exist.
    fn list_snapshots(&self, vm_id: &str) -> (r: BlueprintResult<Option<Vec<String>>>)
        ensures
            !self.query_unavailable() ==> (r matches Ok(found) && reports_snapshots(found, vm_id@, self.query_view())),
            self.query_unavailable() ==> (r matches Err(e) && e@ == ErrorView::StatePoisoned),
    ;
}

#[derive(Debug)]
struct VmRecord {
    status: VmStatus,
    snapshots: Vec<String>,
}

impl VmRecord {
    spec fn state(&self) -> VmState {
        VmState { status: self.status, snapshots: names_view(self.snapshots@) }
    }

    fn view(&self, vm_id: &str) -> (r: VmView)
        ensures
            r.state() == (vm_id@, self.state()),
    {
        VmView { vm_id: vm_id.to_owned(), status: self.status, snapshots: clone_names(&self.snapshots) }
    }
}

#[derive(Debug)]
struct VmEntry {
    vm_id: String,
    record: VmRecord,
}

/// The table that a sequence of entries holds.
spec fn table_of(entries: Seq<VmEntry>) -> VmTable {
    Map::new(
        |k: Seq<char>| exists|i: int| 0 <= i < entries.len() && entries[i].vm_id@ == k,
        |k: Seq<char>|
            entries[choose|i: int| 0 <= i < entries.len() && entries[i].vm_id@ == k].record.state(),
    )
}

spec fn sorted_ids(entries: Seq<VmEntry>) -> bool {
    forall|i: int, j: int|
        0 <= i < j < entries.len() ==> id_lt(#[trigger] entries[i].vm_id@, #[trigger] entries[j].vm_id@)
}

spec fn entries_wf(entries: Seq<VmEntry>) -> bool {
    &&& sorted_ids(entries)
    &&& forall|i: int|
        0 <= i < entries.len() ==> distinct_names(#[trigger] entries[i].record.state().snapshots)
}

proof fn lemma_table_at(entries: Seq<VmEntry>, i: int)
    requires
        sorted_ids(entries),
        0 <= i < entries.len(),
    ensures
        table_of(entries).contains_key(entries[i].vm_id@),
        table_of(entries)[entries[i].vm_id@] == entries[i].record.state(),
{
    let k = entries[i].vm_id@;
    assert(0 <= i < entries.len() && entries[i].vm_id@ == k);
    let j = choose|j: int| 0 <= j < entries.len() && entries[j].vm_id@ == k;
    lemma_id_order(k, k, k);
    if j < i {
        assert(id_lt(entries[j].vm_id@, entries[i].vm_id@));
    } else if i < j {
        assert(id_lt(entries[i].vm_id@, entries[j].vm_id@));
    }
}

proof fn lemma_table_insert(entries: Seq<VmEntry>, pos: int, e: VmEntry)
    requires
        sorted_ids(entries),
        0 <= pos <= entries.len(),
        sorted_ids(entries.insert(pos, e)),
    ensures
        table_of(entries.insert(pos, e)) == table_of(entries).insert(e.vm_id@, e.record.state()),
{
    let n = entries.insert(pos, e);
    let want = table_of(entries).insert(e.vm_id@, e.record.state());
    assert forall|k: Seq<char>| #[trigger] table_of(n).contains_key(k) == want.contains_key(k) by {
        if table_of(n).contains_key(k) {
            let j = choose|j: int| 0 <= j < n.len() && n[j].vm_id@ == k;
            if j < pos {
                assert(entries[j].vm_id@ == k);
            } else if j > pos {
                assert(entries[j - 1].vm_id@ == k);
            }
        }
        if table_of(entries).contains_key(k) {
            let j = choose|j: int| 0 <= j < entries.len() && entries[j].vm_id@ == k;
            if j < pos {
                assert(n[j].vm_id@ == k);
            } else {
                assert(n[j + 1].vm_id@ == k);
            }
        }
        if k == e.vm_id@ {
            assert(n[pos].vm_id@ == k);
        }
    }
    assert forall|k: Seq<char>| #[trigger] table_of(n).contains_key(k) implies table_of(n)[k]
        == want[k] by {
        let j = choose|j: int| 0 <= j < n.len() && n[j].vm_id@ == k;
        lemma_table_at(n, j);
        lemma_id_order(k, k, k);
        if j < pos {
            assert(id_lt(n[j].vm_id@, n[pos].vm_id@));
            lemma_table_at(entries, j);
        } else if j > pos {
            assert(id_lt(n[pos].vm_id@, n[j].vm_id@));
            lemma_table_at(entries, j - 1);
        }
    }
    assert(table_of(n) =~= want);
}

proof fn lemma_table_update(entries: Seq<VmEntry>, i: int, e: VmEntry)
    requires
        sorted_ids(entries),
        0 <= i < entries.len(),
        e.vm_id@ == entries[i].vm_id@,
    ensures
        sorted_ids(entries.update(i, e)),
        table_of(entries.update(i, e)) == table_of(entries).insert(e.vm_id@, e.record.state()),
{
    let n = entries.update(i, e);
    assert(sorted_ids(n)) by {
        assert forall|a: int, b: int| 0 <= a < b < n.len() implies id_lt(
            #[trigger] n[a].vm_id@,
            #[trigger] n[b].vm_id@,
        ) by {
            assert(id_lt(entries[a].vm_id@, entries[b].vm_id@));
        }
    }
    let want = table_of(entries).insert(e.vm_id@, e.record.state());
    lemma_table_at(entries, i);
    assert forall|k: Seq<char>| #[trigger] table_of(n).contains_key(k) == want.contains_key(k) by {
        if table_of(n).contains_key(k) {
            let j = choose|j: int| 0 <= j < n.len() && n[j].vm_id@ == k;
            assert(entries[j].vm_id@ == k);
        }
        if table_of(entries).contains_key(k) {
            let j = choose|j: int| 0 <= j < entries.len() && entries[j].vm_id@ == k;
            assert(n[j].vm_id@ == k);
        }
    }
    assert forall|k: Seq<char>| #[trigger] table_of(n).contains_key(k) implies table_of(n)[k]
        == want[k] by {
        let j = choose|j: int| 0 <= j < n.len() && n[j].vm_id@ == k;
        lemma_table_at(n, j);
        lemma_id_order(k, k, k);
        if j != i {
            if j < i {
                assert(id_lt(entries[j].vm_id@, entries[i].vm_id@));
            } else {
                assert(id_lt(entries[i].vm_id@, entries[j].vm_id@));
            }
            lemma_table_at(entries, j);
        }
    }
    assert(table_of(n) =~= want);
}

/// Where `vm_id` stands among sorted entries: `Ok` with its index, or `Err` with
/// the index at which it would be inserted.
fn find(entries: &Vec<VmEntry>, vm_id: &str) -> (r: Result<usize, usize>)
    requires
        sorted_ids(entries@),
    ensures
        r matches Ok(i) ==> i < entries@.len() && entries@[i as int].vm_id@ == vm_id@,
        r matches Err(p) ==> {
            &&& p <= entries@.len()
            &&& !table_of(entries@).contains_key(vm_id@)
            &&& forall|j: int| 0 <= j < p ==> id_lt(#[trigger] entries@[j].vm_id@, vm_id@)
            &&& forall|j: int| p <= j < entries@.len() ==> id_lt(vm_id@, #[trigger] entries@[j].vm_id@)
        },
{
    let mut i: usize = 0;
    while i < entries.len()
        invariant
            i <= entries@.len(),
            sorted_ids(entries@),
            forall|j: int| 0 <= j < i ==> id_lt(#[trigger] entries@[j].vm_id@, vm_id@),
        decreases entries@.len() - i,
    {
        match compare_ids(entries[i].vm_id.as_str(), vm_id) {
            IdOrder::Less => {
                i = i + 1;
            },
            IdOrder::Equal => {
                return Ok(i);
            },
            IdOrder::Greater => {
                proof {
                    assert forall|j: int| i <= j < entries@.len() implies id_lt(
                        vm_id@,
                        #[trigger] entries@[j].vm_id@,
                    ) by {
                        if j > i {
                            lemma_id_order(vm_id@, entries@[i as int].vm_id@, entries@[j].vm_id@);
                        }
                    }
                    lemma_absent(entries@, vm_id@);
                }
                return Err(i);
            },
        }
    }
    proof {
        lemma_absent(entries@, vm_id@);
    }
    Err(i)
}

/// An identifier that every entry sorts strictly before or after is not in the table.
proof fn lemma_absent(entries: Seq<VmEntry>, k: Seq<char>)
    requires
        forall|j: int|
            0 <= j < entries.len() ==> id_lt(#[trigger] entries[j].vm_id@, k) || id_lt(
                k,
                entries[j].vm_id@,
            ),
    ensures
        !table_of(entries).contains_key(k),
{
    lemma_id_order(k, k, k);
    if table_of(entries).contains_key(k) {
        let j = choose|j: int| 0 <= j < entries.len() && entries[j].vm_id@ == k;
        assert(id_lt(entries[j].vm_id@, k) || id_lt(k, entries[j].vm_id@));
    }
}

/// Whether `names` holds `name`.
fn holds_name(names: &Vec<String>, name: &String) -> (r: bool)
    ensures
        r == names_view(names@).contains(name@),
{
    let mut i: usize = 0;
    while i < names.len()
        invariant
            i <= names@.len(),
            forall|j: int| 0 <= j < i ==> names@[j]@ != name@,
        decreases names@.len() - i,
    {
        if names[i] == *name {
            assert(names_view(names@)[i as int] == name@);
            return true;
        }
        i = i + 1;
    }
    proof {
        if names_view(names@).contains(name@) {
            let j = choose|j: int| 0 <= j < names_view(names@).len() && names_view(names@)[j] == name@;
            assert(names@[j]@ == name@);
        }
    }
    false
}

/// In-memory VM provider for development and testing.
///
/// Its VMs are held sorted by identifier, so that no identifier occurs twice and
/// listings come out in order.
#[derive(Debug)]
pub struct InMemoryVmProvider {
    entries: Vec<VmEntry>,
}

impl InMemoryVmProvider {
    /// The VMs this provider holds, keyed by identifier.
    pub closed spec fn vms(&self) -> VmTable {
        table_of(self.entries@)
    }

    #[verifier::type_invariant]
    spec fn wf(&self) -> bool {
        entries_wf(self.entries@)
    }

    /// Sets the status of the VM at index `i`.
    fn set_status(&mut self, i: usize, status: VmStatus)
        requires
            i < old(self).entries@.len(),
        ensures
            final(self).vms() == with_status(old(self).vms(), old(self).entries@[i as int].vm_id@, status),
    {
        proof {
            use_type_invariant(&*self);
            lemma_table_at(self.entries@, i as int);
        }
        let mut entries: Vec<VmEntry> = Vec::new();
        std::mem::swap(&mut entries, &mut self.entries);
        let ghost before = entries@;
        entries[i].record.status = status;
        proof {
            lemma_table_update(before, i as int, entries@[i as int]);
            assert(entries@ == before.update(i as int, entries@[i as int]));
            assert forall|j: int| 0 <= j < entries@.len() implies distinct_names(
                #[trigger] entries@[j].record.state().snapshots,
            ) by {
                assert(before[j].record.state().snapshots == entries@[j].record.state().snapshots);
            }
        }
        self.entries = entries;
    }
}

impl Default for InMemoryVmProvider {
    fn default() -> (r: Self)
        ensures
            r.vms() == Map::<Seq<char>, VmState>::empty(),
    {
        let r = InMemoryVmProvider { entries: Vec::new() };
        assert(r.vms() =~= Map::<Seq<char>, VmState>::empty());
        r
    }
}

impl VmProvider for InMemoryVmProvider {
    open spec fn lifecycle_view(&self) -> VmTable {
        self.vms()
    }

    open spec fn unavailable(&self) -> bool {
        false
    }

    fn create_vm(&mut self, vm_id: &str) -> (r: BlueprintResult<()>)
    {
        proof {
            use_type_invariant(&*self);
        }
        match find(&self.entries, vm_id) {
            Ok(i) => {
                proof {
                    lemma_table_at(self.entries@, i as int);
                }
                Err(BlueprintError::VmAlreadyExists(vm_id.to_owned()))
            },
            Err(pos) => {
                let entry = VmEntry {
                    vm_id: vm_id.to_owned(),
                    record: VmRecord { status: VmStatus::Created, snapshots: Vec::new() },
                };
                let mut entries: Vec<VmEntry> = Vec::new();
                std::mem::swap(&mut entries, &mut self.entries);
                let ghost before = entries@;
                entries.insert(pos, entry);
                proof {
                    assert(sorted_ids(entries@)) by {
                        assert forall|a: int, b: int| 0 <= a < b < entries@.len() implies id_lt(
                            #[trigger] entries@[a].vm_id@,
                            #[trigger] entries@[b].vm_id@,
                        ) by {
                            if a < pos && b < pos {
                                assert(id_lt(before[a].vm_id@, before[b].vm_id@));
                            } else if a < pos && b == pos {
                            } else if a < pos {
                                assert(id_lt(before[a].vm_id@, before[b - 1].vm_id@));
                            } else if a == pos {
                            } else {
                                assert(id_lt(before[a - 1].vm_id@, before[b - 1].vm_id@));
                            }
                        }
                    }
                    assert forall|j: int| 0 <= j < entries@.len() implies distinct_names(
                        #[trigger] entries@[j].record.state().snapshots,
                    ) by {
                        if j < pos {
                            assert(entries@[j] == before[j]);
                        } else if j > pos {
                            assert(entries@[j] == before[j - 1]);
                        } else {
                            assert(entries@[j].record.state().snapshots =~= Seq::empty());
                        }
                    }
                    lemma_table_insert(before, pos as int, entries@[pos as int]);
                    assert(names_view(entries@[pos as int].record.snapshots@) =~= Seq::empty());
                    assert(entries@[pos as int].record.state() == fresh_vm());
                }
                self.entries = entries;
                Ok(())
            },
        }
    }

    fn start_vm(&mut self, vm_id: &str) -> (r: BlueprintResult<()>)
    {
        proof {
            use_type_invariant(&*self);
        }
        match find(&self.entries, vm_id) {
            Ok(i) => {
                proof {
                    lemma_table_at(self.entries@, i as int);
                }
                let status = self.entries[i].record.status;
                match status {
                    VmStatus::Created | VmStatus::Stopped => {
                        self.set_status(i, VmStatus::Running);
                        Ok(())
                    },
                    other => Err(
                        BlueprintError::InvalidTransition {
                            vm_id: vm_id.to_owned(),
                            from: other.as_str(),
                            to: "running",
                        },
                    ),
                }
            },
            Err(_) => Err(BlueprintError::VmNotFound(vm_id.to_owned())),
        }
    }

    fn stop_vm(&mut self, vm_id: &str) -> (r: BlueprintResult<()>)
    {
        proof {
            use_type_invariant(&*self);
        }
        match find(&self.entries, vm_id) {
            Ok(i) => {
                proof {
                    lemma_table_at(self.entries@, i as int);
                }
                let status = self.entries[i].record.status;
                match status {
                    VmStatus::Running => {
                        self.set_status(i, VmStatus::Stopped);
                        Ok(())
                    },
                    other => Err(
                        BlueprintError::InvalidTransition {
                            vm_id: vm_id.to_owned(),
                            from: other.as_str(),
                            to: "stopped",
                        },
                    ),
                }
            },
            Err(_) => Err(BlueprintError::VmNotFound(vm_id.to_owned())),
        }
    }

    fn snapshot_vm(&mut self, vm_id: &str, snapshot_id: &str) -> (r: BlueprintResult<()>)
    {
        proof {
            use_type_invariant(&*self);
        }
        match find(&self.entries, vm_id) {
            Ok(i) => {
                proof {
                    lemma_table_at(self.entries@, i as int);
                }
                if self.entries[i].record.status == VmStatus::Destroyed {
                    return Err(
                        BlueprintError::InvalidTransition {
                            vm_id: vm_id.to_owned(),
                            from: VmStatus::Destroyed.as_str(),
                            to: "snapshot",
                        },
                    );
                }
                let name = snapshot_id.to_owned();
                if holds_name(&self.entries[i].record.snapshots, &name) {
                    return Err(
                        BlueprintError::SnapshotAlreadyExists {
                            vm_id: vm_id.to_owned(),
                            snapshot_id: name,
                        },
                    );
                }
                let mut entries: Vec<VmEntry> = Vec::new();
                std::mem::swap(&mut entries, &mut self.entries);
                let ghost before = entries@;
                entries[i].record.snapshots.push(name);
                proof {
                    assert(names_view(entries@[i as int].record.snapshots@) =~= names_view(
                        before[i as int].record.snapshots@,
                    ).push(snapshot_id@));
                    lemma_table_update(before, i as int, entries@[i as int]);
                    assert(entries@ == before.update(i as int, entries@[i as int]));
                    assert forall|j: int| 0 <= j < entries@.len() implies distinct_names(
                        #[trigger] entries@[j].record.state().snapshots,
                    ) by {
                        if j != i {
                            assert(entries@[j] == before[j]);
                        } else {
                            let old_names = before[j].record.state().snapshots;
                            assert(distinct_names(old_names));
                            assert(!old_names.contains(snapshot_id@));
                            let new_names = entries@[j].record.state().snapshots;
                            assert forall|a: int, b: int| 0 <= a < b < new_names.len() implies new_names[a]
                                != new_names[b] by {
                                if b == old_names.len() {
                                    assert(old_names[a] == new_names[a]);
                                }
                            }
                        }
                    }
                }
                self.entries = entries;
                Ok(())
            },
            Err(_) => Err(BlueprintError::VmNotFound(vm_id.to_owned())),
        }
    }

    fn destroy_vm(&mut self, vm_id: &str) -> (r: BlueprintResult<()>)
    {
        proof {
            use_type_invariant(&*self);
        }
        match find(&self.entries, vm_id) {
            Ok(i) => {
                proof {
                    lemma_table_at(self.entries@, i as int);
                }
                if self.entries[i].record.status == VmStatus::Destroyed {
                    return Err(
                        BlueprintError::InvalidTransition {
                            vm_id: vm_id.to_owned(),
                            from: VmStatus::Destroyed.as_str(),
                            to: "destroyed",
                        },
                    );
                }
                self.set_status(i, VmStatus::Destroyed);
                Ok(())
            },
            Err(_) => Err(BlueprintError::VmNotFound(vm_id.to_owned())),
        }
    }
}

impl VmQuery for InMemoryVmProvider {
    open spec fn query_view(&self) -> VmTable {
        self.vms()
    }

    open spec fn query_unavailable(&self) -> bool {
        false
    }

    fn list_vms(&self) -> (r: BlueprintResult<Vec<VmView>>)
    {
        proof {
            use_type_invariant(self);
        }
        let mut views: Vec<VmView> = Vec::new();
        for i in 0..self.entries.len()
            invariant
                views@.len() == i,
                sorted_ids(self.entries@),
                forall|j: int|
                    0 <= j < i ==> (#[trigger] views@[j]).state() == (
                        self.entries@[j].vm_id@,
                        self.entries@[j].record.state(),
                    ),
        {
            let v = self.entries[i].record.view(self.entries[i].vm_id.as_str());
            views.push(v);
        }
        proof {
            let es = self.entries@;
            assert forall|i: int| 0 <= i < views@.len() implies self.vms().contains_key(
                #[trigger] views@[i].vm_id@,
            ) && self.vms()[views@[i].vm_id@] == views@[i].state().1 by {
                lemma_table_at(es, i);
            }
            assert forall|k: Seq<char>| self.vms().contains_key(k) implies exists|i: int|
                0 <= i < views@.len() && #[trigger] views@[i].vm_id@ == k by {
                let j = choose|j: int| 0 <= j < es.len() && es[j].vm_id@ == k;
                assert(views@[j].vm_id@ == k);
            }
            assert forall|i: int, j: int| 0 <= i < j < views@.len() implies id_lt(
                #[trigger] views@[i].vm_id@,
                #[trigger] views@[j].vm_id@,
            ) by {
                assert(id_lt(es[i].vm_id@, es[j].vm_id@));
            }
        }
        Ok(views)
    }

    fn get_vm(&self, vm_id: &str) -> (r: BlueprintResult<Option<VmView>>)
    {
        proof {
            use_type_invariant(self);
        }
        match find(&self.entries, vm_id) {
            Ok(i) => {
                proof {
                    lemma_table_at(self.entries@, i as int);
                }
                Ok(Some(self.entries[i].record.view(vm_id)))
            },
            Err(_) => Ok(None),
        }
    }

    fn list_snapshots(&self, vm_id: &str) -> (r: BlueprintResult<Option<Vec<String>>>)
    {
        proof {
            use_type_invariant(self);
        }
        match find(&self.entries, vm_id) {
            Ok(i) => {
                proof {
                    lemma_table_at(self.entries@, i as int);
                }
                Ok(Some(clone_names(&self.entries[i].record.snapshots)))
            },
            Err(_) => Ok(None),
        }
    }
}

} // verus!
