//! What a caller asks for, as the command line gives it.

use vstd::prelude::*;

verus! {

/// A request to play a door.
#[derive(Debug, Clone, PartialEq, Eq)]
pub struct LaunchArgs {
    /// The door's name.
    pub door: String,
    /// Sysops only: the login name to run the door for.
    pub user: Option<String>,
    /// Sysops only: the user id to run the door for.
    pub user_id: Option<u32>,
    /// Sysops only: the name to show inside the door.
    pub display_name: Option<String>,
    /// Whether the terminal gets the door's output as the door writes it.
    pub raw: bool,
}

/// A request to run one of a door's maintenance commands.
#[derive(Debug, Clone, PartialEq, Eq)]
pub struct SysopCmdArgs {
    /// The door's name.
    pub door: String,
    /// Whether to give up at once where the door is busy.
    pub nowait: bool,
}

/// How the list of sessions is written.
#[derive(Debug, Clone, Copy, PartialEq, Eq, Structural)]
pub enum OutputFormat {
    JSON,
    YAML,
}

/// A request to list who is playing.
#[derive(Debug, Clone, PartialEq, Eq)]
pub struct WhoArgs {
    /// Only the sessions of this door.
    pub door: Option<String>,
    /// Write the list in this format rather than as a table.
    pub format: Option<OutputFormat>,
}

impl LaunchArgs {
    /// Whether the request names another identity to run the door for.
    pub open spec fn spec_switches_user(&self) -> bool {
        self.user is Some || self.user_id is Some || self.display_name is Some
    }

    /// Whether the request names another identity to run the door for.
    pub fn switches_user(&self) -> (switches: bool)
        ensures
            switches == self.spec_switches_user(),
    {
        self.user.is_some() || self.user_id.is_some() || self.display_name.is_some()
    }
}

} // verus!
