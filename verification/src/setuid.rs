//! Giving up the identity of the caller for that of the program's owner,
//! once, before any path is touched.

use vstd::prelude::*;

verus! {

/// The three ids of a process, user or group: real, effective and saved.
#[derive(Debug, Clone, Copy, PartialEq, Eq, Structural)]
pub struct Ids {
    pub real_id: u32,
    pub effective_id: u32,
    pub saved_id: u32,
}

/// What a process has to change of its ids.
#[derive(Debug, Clone, Copy, PartialEq, Eq, Structural)]
pub struct Privileges {
    /// The user ids to take, where they are to change. The environment of
    /// the process is then to be changed as `environment` says, for the
    /// account of the saved user id.
    pub user: Option<Ids>,
    /// The group ids to take, where they are to change.
    pub group: Option<Ids>,
}

/// The ids to take where the effective id differs from the real one: the
/// effective id becomes the real one too, and the real one is saved.
pub open spec fn spec_ids(own: u32, effective: u32) -> Option<Ids> {
    if effective != own {
        Some(Ids { real_id: effective, effective_id: effective, saved_id: own })
    } else {
        None
    }
}

/// What a process with these real and effective ids has to change of them.
/// One that runs under its own ids changes nothing.
pub fn setuid(uid: u32, euid: u32, gid: u32, egid: u32) -> (change: Privileges)
    ensures
        change.user == spec_ids(uid, euid),
        change.group == spec_ids(gid, egid),
{
    let user = if euid != uid {
        Some(Ids { real_id: euid, effective_id: euid, saved_id: uid })
    } else {
        None
    };
    let group = if egid != gid {
        Some(Ids { real_id: egid, effective_id: egid, saved_id: gid })
    } else {
        None
    };
    Privileges { user, group }
}

/// One change to the environment: the variable, and its new value or `None`
/// to remove it.
pub type Change = (String, Option<String>);

/// The value of a `Change`.
pub open spec fn change_view(change: Change) -> (Seq<char>, Option<Seq<char>>) {
    (change.0@, crate::text::opt_view(change.1))
}

/// The environment after the user ids have changed: the login names and the
/// home directory are those of the account, and what pointed to the former
/// user's desktop session is gone.
pub open spec fn spec_environment(name: Seq<char>, home: Seq<char>) -> Seq<
    (Seq<char>, Option<Seq<char>>),
> {
    seq![
        ("LOGNAME"@, Some(name)),
        ("USER"@, Some(name)),
        ("HOME"@, Some(home)),
        ("XDG_RUNTIME_DIR"@, None),
        ("DBUS_SESSION_BUS_ADDRESS"@, None),
    ]
}

/// The changes to make to the environment once the user ids have changed,
/// for the account with this login name and home directory.
pub fn environment(name: &str, home: &str) -> (changes: Vec<Change>)
    ensures
        changes@.map_values(|c: Change| change_view(c)) == spec_environment(name@, home@),
{
    let mut changes: Vec<Change> = Vec::new();
    changes.push(("LOGNAME".to_owned(), Some(name.to_owned())));
    changes.push(("USER".to_owned(), Some(name.to_owned())));
    changes.push(("HOME".to_owned(), Some(home.to_owned())));
    changes.push(("XDG_RUNTIME_DIR".to_owned(), None));
    changes.push(("DBUS_SESSION_BUS_ADDRESS".to_owned(), None));
    assert(changes@.map_values(|c: Change| change_view(c)) =~= spec_environment(name@, home@));
    changes
}

} // verus!
