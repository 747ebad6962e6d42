//! Who is calling: the identity a door runs for.

use crate::text::{before_first, split_once};
use vstd::prelude::*;

verus! {

/// A caller: numeric id, login name, and the name shown inside doors.
#[derive(Debug, PartialEq, Eq)]
pub struct User {
    pub uid: u32,
    pub username: String,
    pub display_name: String,
}

/// The mathematical value of a `User`.
pub struct UserView {
    pub uid: u32,
    pub username: Seq<char>,
    pub display_name: Seq<char>,
}

impl View for User {
    type V = UserView;

    open spec fn view(&self) -> UserView {
        UserView { uid: self.uid, username: self.username@, display_name: self.display_name@ }
    }
}

impl Clone for User {
    fn clone(&self) -> (copy: User)
        ensures
            copy == *self,
    {
        User {
            uid: self.uid,
            username: self.username.clone(),
            display_name: self.display_name.clone(),
        }
    }
}

/// Which account record has to be fetched to know an identity.
#[derive(Debug, Clone, PartialEq, Eq)]
pub enum IdentityLookup {
    /// None: the identity is known already.
    NotNeeded,
    /// The record of the process's own user id.
    CurrentUid,
    /// The record of this user id.
    ByUid(u32),
    /// The record of this login name.
    ByName(String),
}

/// The mathematical value of an `IdentityLookup`.
pub enum IdentityLookupView {
    NotNeeded,
    CurrentUid,
    ByUid(u32),
    ByName(Seq<char>),
}

impl View for IdentityLookup {
    type V = IdentityLookupView;

    open spec fn view(&self) -> IdentityLookupView {
        match *self {
            IdentityLookup::NotNeeded => IdentityLookupView::NotNeeded,
            IdentityLookup::CurrentUid => IdentityLookupView::CurrentUid,
            IdentityLookup::ByUid(uid) => IdentityLookupView::ByUid(uid),
            IdentityLookup::ByName(name) => IdentityLookupView::ByName(name@),
        }
    }
}

/// The name shown for an account: the first comma-separated field of its
/// comment where the comment is not empty, the login name otherwise.
pub open spec fn spec_display_name(name: Seq<char>, gecos: Seq<char>) -> Seq<char> {
    if gecos.len() == 0 {
        name
    } else {
        before_first(gecos, ',')
    }
}

impl User {
    /// The user that an account record describes.
    pub fn from_pwent(uid: u32, name: &str, gecos: &str) -> (user: User)
        ensures
            user@ == (UserView {
                uid,
                username: name@,
                display_name: spec_display_name(name@, gecos@),
            }),
    {
        let display_name = if gecos.is_empty() {
            name.to_owned()
        } else {
            split_once(gecos, ',').0
        };
        User { uid, username: name.to_owned(), display_name }
    }

    /// Whose record says who is calling: the user that `sudo` names, else
    /// the one that `doas` names, else the process's own user id.
    pub fn calling_user(sudo_user: Option<String>, doas_user: Option<String>) -> (lookup:
        IdentityLookup)
        ensures
            lookup@ == match (sudo_user, doas_user) {
                (Some(name), _) => IdentityLookupView::ByName(name@),
                (None, Some(name)) => IdentityLookupView::ByName(name@),
                (None, None) => IdentityLookupView::CurrentUid,
            },
    {
        match sudo_user {
            Some(name) => IdentityLookup::ByName(name),
            None => match doas_user {
                Some(name) => IdentityLookup::ByName(name),
                None => IdentityLookup::CurrentUid,
            },
        }
    }
}

} // verus!
