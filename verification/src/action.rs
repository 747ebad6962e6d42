//! What the library asks its caller to do, and what the caller reports back.
//!
//! A session never touches a file, a lock or a process. It hands out one
//! `DoorAction` at a time; the caller performs it and answers with the
//! `DoorEvent` that tells how it went.

use crate::config::{CommandLine, CommandLineView};
use crate::dos::{DosFile, DosFileView};
use vstd::prelude::*;

verus! {

/// One piece of outside work.
#[derive(Debug, Clone, PartialEq, Eq)]
pub enum DoorAction {
    /// Open the lock file at `path`, creating it where it is missing, and
    /// try once to lock it shared. Answer: `Acquired`, `Refused`, `Failed`.
    LockShared { path: String },
    /// Open the lock file at `path`, creating it where it is missing, and
    /// lock it exclusively: waiting for it where `wait` holds, trying once
    /// otherwise. Answer: `Acquired`, `Refused`, `Failed`.
    LockExclusive { path: String, wait: bool },
    /// Remove the directory `dir` with everything in it, where it exists,
    /// and create it anew. Answer: `Completed`, `Failed`.
    ResetWorkspace { dir: String },
    /// Write the file. Answer: `Completed`, `Failed`.
    WriteFile { file: DosFile },
    /// Start the command and go on without waiting for it, keeping what it
    /// prints where `capture` holds. Answer: `Completed`, `Failed`.
    Spawn { command: CommandLine, capture: bool },
    /// Wait for the command that was started to end. Answer: `Exited`,
    /// `Failed`.
    AwaitExit,
    /// Release the lock held on the file at `path`. Answer: `Completed`,
    /// `Failed`.
    Unlock { path: String },
    /// Run the command on the caller's terminal until it ends. Answer:
    /// `Completed`, `Failed`.
    Run { command: CommandLine },
    /// Nothing is left to do.
    Finish,
}

/// The mathematical value of a `DoorAction`.
pub enum DoorActionView {
    LockShared { path: Seq<char> },
    LockExclusive { path: Seq<char>, wait: bool },
    ResetWorkspace { dir: Seq<char> },
    WriteFile { file: DosFileView },
    Spawn { command: CommandLineView, capture: bool },
    AwaitExit,
    Unlock { path: Seq<char> },
    Run { command: CommandLineView },
    Finish,
}

impl View for DoorAction {
    type V = DoorActionView;

    open spec fn view(&self) -> DoorActionView {
        match *self {
            DoorAction::LockShared { path } => DoorActionView::LockShared { path: path@ },
            DoorAction::LockExclusive { path, wait } => DoorActionView::LockExclusive {
                path: path@,
                wait,
            },
            DoorAction::ResetWorkspace { dir } => DoorActionView::ResetWorkspace { dir: dir@ },
            DoorAction::WriteFile { file } => DoorActionView::WriteFile { file: file@ },
            DoorAction::Spawn { command, capture } => DoorActionView::Spawn {
                command: command@,
                capture,
            },
            DoorAction::AwaitExit => DoorActionView::AwaitExit,
            DoorAction::Unlock { path } => DoorActionView::Unlock { path: path@ },
            DoorAction::Run { command } => DoorActionView::Run { command: command@ },
            DoorAction::Finish => DoorActionView::Finish,
        }
    }
}

/// How a piece of outside work went.
#[derive(Debug, Clone, PartialEq, Eq)]
pub enum DoorEvent {
    /// The lock was granted.
    Acquired,
    /// The lock is held by another in a mode that excludes the request.
    Refused,
    /// The work was done.
    Completed,
    /// The command ended: with this exit code, where the system gave one,
    /// having printed `output`.
    Exited { code: Option<i32>, output: Vec<u8> },
    /// The work could not be done.
    Failed,
}

} // verus!
