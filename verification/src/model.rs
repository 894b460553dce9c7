//! The read model of a microVM and its abstract state.
use vstd::prelude::*;

verus! {

/// Lifecycle status of a microVM.
#[derive(Clone, Copy, Debug, PartialEq, Eq, Structural)]
pub enum VmStatus {
    Created,
    Running,
    Stopped,
    Destroyed,
}

/// The snake_case name of a status, as it is shown to users.
pub open spec fn status_name(s: VmStatus) -> Seq<char> {
    match s {
        VmStatus::Created => "created"@,
        VmStatus::Running => "running"@,
        VmStatus::Stopped => "stopped"@,
        VmStatus::Destroyed => "destroyed"@,
    }
}

impl VmStatus {
    /// The snake_case name of this status.
    pub fn as_str(&self) -> (r: &'static str)
        ensures
            r@ == status_name(*self),
    {
        match self {
            VmStatus::Created => "created",
            VmStatus::Running => "running",
            VmStatus::Stopped => "stopped",
            VmStatus::Destroyed => "destroyed",
        }
    }
}

/// Abstract state of one microVM: its status and its snapshot names, oldest first.
pub struct VmState {
    pub status: VmStatus,
    pub snapshots: Seq<Seq<char>>,
}

/// The contents of a list of names.
pub open spec fn names_view(names: Seq<String>) -> Seq<Seq<char>> {
    names.map_values(|s: String| s@)
}

/// No name occurs twice.
pub open spec fn distinct_names(names: Seq<Seq<char>>) -> bool {
    forall|i: int, j: int| 0 <= i < j < names.len() ==> names[i] != names[j]
}

/// A microVM as queries report it.
#[derive(Debug, Clone)]
pub struct VmView {
    pub vm_id: String,
    pub status: VmStatus,
    pub snapshots: Vec<String>,
}

impl VmView {
    /// The identifier and abstract state this view reports.
    pub open spec fn state(&self) -> (Seq<char>, VmState) {
        (self.vm_id@, VmState { status: self.status, snapshots: names_view(self.snapshots@) })
    }
}

/// Copies a list of names.
pub fn clone_names(names: &Vec<String>) -> (r: Vec<String>)
    ensures
        r@ == names@,
{
    let mut r: Vec<String> = Vec::new();
    for i in 0..names.len()
        invariant
            r@ == names@.take(i as int),
    {
        r.push(names[i].clone());
        assert(r@ =~= names@.take(i + 1));
    }
    assert(names@.take(names.len() as int) =~= names@);
    r
}

} // verus!
