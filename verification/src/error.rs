//! Why a door session or a maintenance run ends without success.

use vstd::prelude::*;

verus! {

/// The ways in which a request can fail.
#[derive(Debug, Clone, PartialEq, Eq)]
pub enum DoorError {
    /// The configuration names no door of that name.
    UnknownDoor { door: String },
    /// Neither podman nor docker was found, and no engine is configured.
    EngineNotFound,
    /// The engine's version banner names neither podman nor docker.
    UnknownEngine,
    /// The caller is no sysop and asked for what only sysops may do.
    PermissionDenied,
    /// The identity to switch to does not exist.
    UnknownUser,
    /// The door has no commands configured for the maintenance operation.
    NotConfigured { command: String, door: String },
    /// The door's lock is held in a mode that excludes the caller.
    DoorBusy { door: String },
    /// Every node of the door is claimed.
    AllNodesBusy { door: String },
    /// The container did not start: it left with `code` (`None` where the
    /// engine gave no exit code, or printed no readable container id).
    LaunchFailed { door: String, code: Option<i32> },
    /// A lock file or a workspace path could not be opened, written or
    /// removed.
    Io { path: String },
    /// No template of that name is known.
    UnknownTemplate { name: String },
    /// A template could not be rendered: it is no template, it asks for what
    /// cannot be had, or it holds a partial tag, which is not accepted.
    Render,
    /// The engine's listing of containers left with `code` (`None` where
    /// the system gave no exit code), which is not 0.
    ListingFailed { code: Option<i32> },
    /// The engine's listing of containers is no text.
    ListingUnreadable,
    /// A session's container carries a node label that is no node number.
    BadNodeLabel,
    /// The list of sessions could not be written in the format asked for.
    Unwritable,
    /// The caller reported an outcome that the pending action cannot have.
    Unexpected,
}

/// The mathematical value of a `DoorError`.
pub enum DoorErrorView {
    UnknownDoor { door: Seq<char> },
    EngineNotFound,
    UnknownEngine,
    PermissionDenied,
    UnknownUser,
    NotConfigured { command: Seq<char>, door: Seq<char> },
    DoorBusy { door: Seq<char> },
    AllNodesBusy { door: Seq<char> },
    LaunchFailed { door: Seq<char>, code: Option<i32> },
    Io { path: Seq<char> },
    UnknownTemplate { name: Seq<char> },
    Render,
    ListingFailed { code: Option<i32> },
    ListingUnreadable,
    BadNodeLabel,
    Unwritable,
    Unexpected,
}

impl View for DoorError {
    type V = DoorErrorView;

    open spec fn view(&self) -> DoorErrorView {
        match *self {
            DoorError::UnknownDoor { door } => DoorErrorView::UnknownDoor { door: door@ },
            DoorError::EngineNotFound => DoorErrorView::EngineNotFound,
            DoorError::UnknownEngine => DoorErrorView::UnknownEngine,
            DoorError::PermissionDenied => DoorErrorView::PermissionDenied,
            DoorError::UnknownUser => DoorErrorView::UnknownUser,
            DoorError::NotConfigured { command, door } => DoorErrorView::NotConfigured {
                command: command@,
                door: door@,
            },
            DoorError::DoorBusy { door } => DoorErrorView::DoorBusy { door: door@ },
            DoorError::AllNodesBusy { door } => DoorErrorView::AllNodesBusy { door: door@ },
            DoorError::LaunchFailed { door, code } => DoorErrorView::LaunchFailed {
                door: door@,
                code,
            },
            DoorError::Io { path } => DoorErrorView::Io { path: path@ },
            DoorError::UnknownTemplate { name } => DoorErrorView::UnknownTemplate { name: name@ },
            DoorError::Render => DoorErrorView::Render,
            DoorError::ListingFailed { code } => DoorErrorView::ListingFailed { code },
            DoorError::ListingUnreadable => DoorErrorView::ListingUnreadable,
            DoorError::BadNodeLabel => DoorErrorView::BadNodeLabel,
            DoorError::Unwritable => DoorErrorView::Unwritable,
            DoorError::Unexpected => DoorErrorView::Unexpected,
        }
    }
}

} // verus!
