//! Errors of lifecycle operations and the messages they are reported with.
use vstd::prelude::*;
use vstd::string::StringExecFns;

verus! {

/// An error of a lifecycle operation or query.
#[derive(Debug)]
pub enum BlueprintError {
    /// A VM with this identifier exists already.
    VmAlreadyExists(String),
    /// No VM has this identifier.
    VmNotFound(String),
    /// The VM's status does not allow the operation.
    InvalidTransition { vm_id: String, from: &'static str, to: &'static str },
    /// The VM has a snapshot of this name already.
    SnapshotAlreadyExists { vm_id: String, snapshot_id: String },
    /// The provider's shared state could not be locked.
    StatePoisoned,
}

/// Result of a lifecycle operation or query.
pub type BlueprintResult<T> = Result<T, BlueprintError>;

/// The contents of a [`BlueprintError`].
pub enum ErrorView {
    VmAlreadyExists(Seq<char>),
    VmNotFound(Seq<char>),
    InvalidTransition { vm_id: Seq<char>, from: Seq<char>, to: Seq<char> },
    SnapshotAlreadyExists { vm_id: Seq<char>, snapshot_id: Seq<char> },
    StatePoisoned,
}

impl View for BlueprintError {
    type V = ErrorView;

    open spec fn view(&self) -> ErrorView {
        match self {
            BlueprintError::VmAlreadyExists(id) => ErrorView::VmAlreadyExists(id@),
            BlueprintError::VmNotFound(id) => ErrorView::VmNotFound(id@),
            BlueprintError::InvalidTransition { vm_id, from, to } => ErrorView::InvalidTransition {
                vm_id: vm_id@,
                from: from@,
                to: to@,
            },
            BlueprintError::SnapshotAlreadyExists { vm_id, snapshot_id } =>
                ErrorView::SnapshotAlreadyExists { vm_id: vm_id@, snapshot_id: snapshot_id@ },
            BlueprintError::StatePoisoned => ErrorView::StatePoisoned,
        }
    }
}

/// The contents of a result whose success carries nothing.
pub open spec fn outcome_view(r: BlueprintResult<()>) -> Result<(), ErrorView> {
    match r {
        Ok(()) => Ok(()),
        Err(e) => Err(e@),
    }
}

/// The message an error is reported with.
pub open spec fn error_message(e: ErrorView) -> Seq<char> {
    match e {
        ErrorView::VmAlreadyExists(id) => "vm '"@ + id + "' already exists"@,
        ErrorView::VmNotFound(id) => "vm '"@ + id + "' not found"@,
        ErrorView::InvalidTransition { vm_id, from, to } => "invalid vm transition for '"@ + vm_id
            + "': "@ + from + " -> "@ + to,
        ErrorView::SnapshotAlreadyExists { vm_id, snapshot_id } => "snapshot '"@ + snapshot_id
            + "' already exists for vm '"@ + vm_id + "'"@,
        ErrorView::StatePoisoned => "provider state lock poisoned"@,
    }
}

impl BlueprintError {
    /// The message this error is reported with.
    pub fn message(&self) -> (r: String)
        ensures
            r@ == error_message(self@),
    {
        match self {
            BlueprintError::VmAlreadyExists(id) => {
                let mut s = String::from_str("vm '");
                s.append(id.as_str());
                s.append("' already exists");
                s
            },
            BlueprintError::VmNotFound(id) => {
                let mut s = String::from_str("vm '");
                s.append(id.as_str());
                s.append("' not found");
                s
            },
            BlueprintError::InvalidTransition { vm_id, from, to } => {
                let mut s = String::from_str("invalid vm transition for '");
                s.append(vm_id.as_str());
                s.append("': ");
                s.append(from);
                s.append(" -> ");
                s.append(to);
                s
            },
            BlueprintError::SnapshotAlreadyExists { vm_id, snapshot_id } => {
                let mut s = String::from_str("snapshot '");
                s.append(snapshot_id.as_str());
                s.append("' already exists for vm '");
                s.append(vm_id.as_str());
                s.append("'");
                s
            },
            BlueprintError::StatePoisoned => String::from_str("provider state lock poisoned"),
        }
    }
}

} // verus!
