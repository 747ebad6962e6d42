//! The configuration of one invocation: directories, doors, the caller and
//! the container engine, and the command lines built from them.

use crate::container::ContainerEngine;
use crate::error::{DoorError, DoorErrorView};
use crate::text::{
    clone_opt, contains_text, decimal, format_integer, join_path, joined, opt_view, pairs,
    same_text, views,
};
use crate::user::{IdentityLookup, IdentityLookupView, User, UserView};
use vstd::prelude::*;

verus! {

/// The container image that runs doors where the configuration names none.
pub fn default_dosemu_image() -> (image: String)
    ensures
        image@ == "ghcr.io/jordemort/doorman-dosemu:main"@,
{
    "ghcr.io/jordemort/doorman-dosemu:main".to_owned()
}

/// The number of nodes of a door where the configuration names none.
pub fn default_max_nodes() -> (nodes: i8)
    ensures
        nodes == 1,
{
    1
}

/// The settings of the configuration file that do not belong to one door,
/// as written: what is absent there is `None` here.
#[derive(Debug, Clone, PartialEq, Eq)]
pub struct Options {
    /// Where persistent data lives.
    pub datadir: Option<String>,
    /// Where lock files and session workspaces live.
    pub rundir: Option<String>,
    /// The login names of the sysops.
    pub sysops: Option<Vec<String>>,
    /// The container engine's binary.
    pub engine_path: Option<String>,
    /// Whether the engine is rootless podman.
    pub rootless_podman: Option<bool>,
    /// The container image that runs doors.
    pub dosemu_image: String,
}

/// What the configuration says of one door.
#[derive(Debug, PartialEq, Eq)]
pub struct DoorOptions {
    /// The door's files on the host.
    pub door_path: String,
    /// How many callers may play at once: the nodes are `1..=max_nodes`.
    pub max_nodes: i8,
    /// The DOS commands that start the door.
    pub launch_commands: String,
    /// The DOS commands that start the door's configuration program.
    pub configure_commands: Option<String>,
    /// The DOS commands of the door's nightly maintenance.
    pub nightly_commands: Option<String>,
}

impl Clone for DoorOptions {
    fn clone(&self) -> (copy: DoorOptions)
        ensures
            copy == *self,
    {
        DoorOptions {
            door_path: self.door_path.clone(),
            max_nodes: self.max_nodes,
            launch_commands: self.launch_commands.clone(),
            configure_commands: clone_opt(&self.configure_commands),
            nightly_commands: clone_opt(&self.nightly_commands),
        }
    }
}

/// A configured door.
#[derive(Debug, PartialEq, Eq)]
pub struct Door {
    pub name: String,
    pub options: DoorOptions,
}

impl Clone for Door {
    fn clone(&self) -> (copy: Door)
        ensures
            copy == *self,
    {
        Door { name: self.name.clone(), options: self.options.clone() }
    }
}

/// A program and its arguments.
#[derive(Debug, Clone, PartialEq, Eq)]
pub struct CommandLine {
    pub program: String,
    pub args: Vec<String>,
}

/// The mathematical value of a `CommandLine`.
pub struct CommandLineView {
    pub program: Seq<char>,
    pub args: Seq<Seq<char>>,
}

impl View for CommandLine {
    type V = CommandLineView;

    open spec fn view(&self) -> CommandLineView {
        CommandLineView { program: self.program@, args: views(self.args@) }
    }
}

/// Everything one invocation knows.
#[derive(Debug, Clone, PartialEq, Eq)]
pub struct Config {
    pub datadir: String,
    pub rundir: String,
    /// The identity that doors run for.
    pub user: User,
    pub dosemu_image: String,
    /// The user id of the process.
    pub uid: u32,
    /// The group id of the process.
    pub gid: u32,
    /// The login names of the sysops.
    pub sysops: Vec<String>,
    /// The doors. No two have one name where the configuration was made
    /// by `load`; a door is looked up as the first of its name.
    pub doors: Vec<Door>,
    pub engine: ContainerEngine,
}

/// The first door of that name.
pub open spec fn spec_find_door(doors: Seq<Door>, name: Seq<char>) -> Option<Door>
    decreases doors.len(),
{
    if doors.len() == 0 {
        None
    } else if doors[0].name@ == name {
        Some(doors[0])
    } else {
        spec_find_door(doors.skip(1), name)
    }
}

/// Whether no two doors have one name.
pub open spec fn distinct_names(doors: Seq<Door>) -> bool {
    forall|i: int, j: int|
        0 <= i < j < doors.len() ==> (#[trigger] doors[i]).name@ != (#[trigger] doors[j]).name@
}

/// The place of the first door of that name, or the number of doors where
/// there is none.
pub open spec fn spec_door_index(doors: Seq<Door>, name: Seq<char>) -> int
    decreases doors.len(),
{
    if doors.len() == 0 || doors[0].name@ == name {
        0
    } else {
        1 + spec_door_index(doors.skip(1), name)
    }
}

/// The doors with `door` among them: in the place of the first door of its
/// name, where there is one, and at the end otherwise.
pub open spec fn spec_with_door(doors: Seq<Door>, door: Door) -> Seq<Door> {
    let at = spec_door_index(doors, door.name@);
    if at < doors.len() {
        doors.update(at, door)
    } else {
        doors.push(door)
    }
}

/// The doors of a list with each name once: a door takes the place of an
/// earlier one of its name.
pub open spec fn spec_doors(listed: Seq<Door>) -> Seq<Door>
    decreases listed.len(),
{
    if listed.len() == 0 {
        Seq::empty()
    } else {
        spec_with_door(spec_doors(listed.drop_last()), listed.last())
    }
}

/// The place of a door is the first that holds a door of its name.
pub proof fn lemma_door_index(doors: Seq<Door>, name: Seq<char>)
    ensures
        0 <= spec_door_index(doors, name) <= doors.len(),
        spec_door_index(doors, name) < doors.len() ==> doors[spec_door_index(doors, name)].name@
            == name,
        forall|i: int| 0 <= i < spec_door_index(doors, name) ==> (#[trigger] doors[i]).name@ != name,
        spec_find_door(doors, name) == if spec_door_index(doors, name) < doors.len() {
            Some(doors[spec_door_index(doors, name)])
        } else {
            None
        },
    decreases doors.len(),
{
    if doors.len() == 0 || doors[0].name@ == name {
    } else {
        let rest = doors.skip(1);
        lemma_door_index(rest, name);
        assert forall|i: int| 0 <= i < spec_door_index(doors, name) implies (#[trigger] doors[i]).name@
            != name by {
            if i > 0 {
                assert(rest[i - 1] == doors[i]);
            }
        }
    }
}

/// Any place that is the first to hold a door of that name is the place
/// of the door.
pub proof fn lemma_door_index_is(doors: Seq<Door>, name: Seq<char>, at: int)
    requires
        0 <= at <= doors.len(),
        at < doors.len() ==> doors[at].name@ == name,
        forall|i: int| 0 <= i < at ==> (#[trigger] doors[i]).name@ != name,
    ensures
        spec_door_index(doors, name) == at,
{
    lemma_door_index(doors, name);
    let found = spec_door_index(doors, name);
    if found < at {
        assert(doors[found].name@ != name);
    } else if at < found {
        assert(doors[at].name@ != name);
    }
}

/// Among doors with distinct names a door that is set is the door of its
/// name, the doors of all other names stay, and the names stay distinct.
pub proof fn lemma_with_door(doors: Seq<Door>, door: Door)
    requires
        distinct_names(doors),
    ensures
        distinct_names(spec_with_door(doors, door)),
        spec_find_door(spec_with_door(doors, door), door.name@) == Some(door),
        forall|name: Seq<char>|
            name != door.name@ ==> #[trigger] spec_find_door(spec_with_door(doors, door), name)
                == spec_find_door(doors, name),
{
    let with = spec_with_door(doors, door);
    let at = spec_door_index(doors, door.name@);
    lemma_door_index(doors, door.name@);
    assert forall|i: int, j: int| 0 <= i < j < with.len() implies (#[trigger] with[i]).name@ != (
    #[trigger] with[j]).name@ by {
        if at < doors.len() {
            if i == at {
                assert(with[j] == doors[j]);
                assert(doors[at].name@ != doors[j].name@);
            } else if j == at {
                assert(with[i] == doors[i]);
                assert(doors[i].name@ != doors[at].name@);
            } else {
                assert(with[i] == doors[i] && with[j] == doors[j]);
            }
        } else {
            if j < doors.len() {
                assert(with[i] == doors[i] && with[j] == doors[j]);
            } else {
                assert(with[i] == doors[i]);
            }
        }
    }
    assert forall|i: int| 0 <= i < at implies (#[trigger] with[i]).name@ != door.name@ by {
        assert(with[i] == doors[i]);
    }
    lemma_door_index_is(with, door.name@, at);
    lemma_door_index(with, door.name@);
    assert forall|name: Seq<char>| name != door.name@ implies #[trigger] spec_find_door(with, name)
        == spec_find_door(doors, name) by {
        lemma_door_index(doors, name);
        let found = spec_door_index(doors, name);
        assert forall|i: int| 0 <= i < found implies (#[trigger] with[i]).name@ != name by {
            if i != at {
                assert(with[i] == doors[i]);
            }
        }
        if found < doors.len() {
            assert(found != at);
            assert(with[found] == doors[found]);
            lemma_door_index_is(with, name, found);
        } else {
            assert(with.len() >= doors.len());
            assert forall|i: int| 0 <= i < with.len() implies (#[trigger] with[i]).name@ != name by {
                if i < doors.len() && i != at {
                    assert(with[i] == doors[i]);
                }
            }
            lemma_door_index_is(with, name, with.len() as int);
        }
        lemma_door_index(with, name);
    }
}

/// The doors of a list have distinct names.
pub proof fn lemma_doors_distinct(listed: Seq<Door>)
    ensures
        distinct_names(spec_doors(listed)),
    decreases listed.len(),
{
    if listed.len() > 0 {
        lemma_doors_distinct(listed.drop_last());
        lemma_with_door(spec_doors(listed.drop_last()), listed.last());
    }
}

/// Sets a door among doors: in the place of the first door of its name,
/// where there is one, and at the end otherwise.
pub fn set_door(doors: &mut Vec<Door>, door: Door)
    ensures
        final(doors)@ == spec_with_door(old(doors)@, door),
{
    let mut i: usize = 0;
    while i < doors.len()
        invariant
            i <= doors.len(),
            doors@ == old(doors)@,
            forall|j: int| 0 <= j < i ==> (#[trigger] doors@[j]).name@ != door.name@,
        decreases doors.len() - i,
    {
        if same_text(doors[i].name.as_str(), door.name.as_str()) {
            proof {
                lemma_door_index_is(doors@, door.name@, i as int);
            }
            doors.set(i, door);
            return ;
        }
        i += 1;
    }
    proof {
        lemma_door_index_is(doors@, door.name@, i as int);
    }
    doors.push(door);
}

/// The run directory: the configured one; else the platform's runtime
/// directory; else `run` inside the data directory.
pub open spec fn spec_rundir(
    configured: Option<Seq<char>>,
    runtime_dir: Option<Seq<char>>,
    datadir: Seq<char>,
) -> Seq<char> {
    match configured {
        Some(dir) => dir,
        None => match runtime_dir {
            Some(dir) => dir,
            None => joined(datadir, "run"@),
        },
    }
}

/// Which account record a switch of identity needs: none where both a user
/// id and a login name are given, or neither.
pub open spec fn spec_identity_lookup(
    username: Option<Seq<char>>,
    uid: Option<u32>,
) -> IdentityLookupView {
    match (uid, username) {
        (Some(_), Some(_)) => IdentityLookupView::NotNeeded,
        (Some(id), None) => IdentityLookupView::ByUid(id),
        (None, Some(name)) => IdentityLookupView::ByName(name),
        (None, None) => IdentityLookupView::NotNeeded,
    }
}

/// Which account record `Config::switch_user` needs for these arguments.
pub fn identity_lookup(username: &Option<String>, uid: Option<u32>) -> (lookup: IdentityLookup)
    ensures
        lookup@ == spec_identity_lookup(opt_view(*username), uid),
{
    match uid {
        Some(id) => match username {
            Some(_) => IdentityLookup::NotNeeded,
            None => IdentityLookup::ByUid(id),
        },
        None => match username {
            Some(name) => IdentityLookup::ByName(name.clone()),
            None => IdentityLookup::NotNeeded,
        },
    }
}

/// `user` with another display name, where one is given.
pub open spec fn spec_renamed(user: UserView, display_name: Option<Seq<char>>) -> UserView {
    match display_name {
        Some(name) => UserView { display_name: name, ..user },
        None => user,
    }
}

/// The identity after a switch, or `None` where the account record that the
/// switch needs was not found. A user id together with a login name are
/// taken as given, shown under the display name or else the login name. One
/// of the two alone names an account, whose record `found` is then the
/// identity; with neither the current identity stays. In both of these
/// cases a given display name replaces the record's.
pub open spec fn spec_switched(
    current: UserView,
    username: Option<Seq<char>>,
    uid: Option<u32>,
    display_name: Option<Seq<char>>,
    found: Option<UserView>,
) -> Option<UserView> {
    match (uid, username) {
        (Some(id), Some(name)) => Some(
            UserView {
                uid: id,
                username: name,
                display_name: match display_name {
                    Some(shown) => shown,
                    None => name,
                },
            },
        ),
        (None, None) => Some(spec_renamed(current, display_name)),
        _ => match found {
            Some(user) => Some(spec_renamed(user, display_name)),
            None => None,
        },
    }
}

/// The view of a user that may be absent.
pub open spec fn opt_user_view(user: Option<User>) -> Option<UserView> {
    match user {
        Some(u) => Some(u@),
        None => None,
    }
}

/// One flag of a command line: `prefix`, `key`, `separator`, `value`.
pub open spec fn spec_flag(
    prefix: Seq<char>,
    separator: Seq<char>,
    entry: (Seq<char>, Seq<char>),
) -> Seq<char> {
    prefix + entry.0 + separator + entry.1
}

/// One flag for each entry, in the entries' order.
pub open spec fn spec_flags(
    prefix: Seq<char>,
    separator: Seq<char>,
    entries: Seq<(Seq<char>, Seq<char>)>,
) -> Seq<Seq<char>> {
    entries.map_values(|entry: (Seq<char>, Seq<char>)| spec_flag(prefix, separator, entry))
}

/// The flags that every run starts with: the user and group to run as, and
/// the three temporary file systems.
pub open spec fn spec_fixed_flags(uid: u32, gid: u32) -> Seq<Seq<char>> {
    seq![
        "--user="@ + decimal(uid as int) + ":"@ + decimal(gid as int),
        "--tmpfs=/run/user"@,
        "--tmpfs=/tmp"@,
        "--tmpfs=/var/tmp"@,
    ]
}

/// The flags that only rootless podman gets, after all others.
pub open spec fn spec_rootless_flags(rootless: bool) -> Seq<Seq<char>> {
    if rootless {
        seq!["--userns=keep-id"@, "--passwd=false"@]
    } else {
        Seq::empty()
    }
}

/// The arguments of a `run`, in order: the fixed flags; a `-v` for each
/// volume, an `-e` for each variable of the environment and an `-l` for each
/// label; the rootless flags.
pub open spec fn spec_run_args(
    uid: u32,
    gid: u32,
    rootless: bool,
    env: Seq<(Seq<char>, Seq<char>)>,
    volumes: Seq<(Seq<char>, Seq<char>)>,
    labels: Seq<(Seq<char>, Seq<char>)>,
) -> Seq<Seq<char>> {
    spec_fixed_flags(uid, gid) + spec_flags("-v"@, ":"@, volumes) + spec_flags("-e"@, "="@, env)
        + spec_flags("-l"@, "="@, labels) + spec_rootless_flags(rootless)
}

/// Whether no two entries have one key.
pub open spec fn distinct_keys(entries: Seq<(Seq<char>, Seq<char>)>) -> bool {
    forall|i: int, j: int|
        0 <= i < j < entries.len() ==> (#[trigger] entries[i]).0 != (#[trigger] entries[j]).0
}

/// The place of the first entry of that key, or the number of entries
/// where there is none.
pub open spec fn spec_key_index(entries: Seq<(Seq<char>, Seq<char>)>, key: Seq<char>) -> int
    decreases entries.len(),
{
    if entries.len() == 0 || entries[0].0 == key {
        0
    } else {
        1 + spec_key_index(entries.skip(1), key)
    }
}

/// The entries with `key` set to `value`: in place where the key is there
/// already, at the end otherwise.
pub open spec fn spec_with_entry(
    entries: Seq<(Seq<char>, Seq<char>)>,
    key: Seq<char>,
    value: Seq<char>,
) -> Seq<(Seq<char>, Seq<char>)> {
    let at = spec_key_index(entries, key);
    if at < entries.len() {
        entries.update(at, (key, value))
    } else {
        entries.push((key, value))
    }
}

/// The place of a key is the first that holds an entry of the key.
pub proof fn lemma_key_index(entries: Seq<(Seq<char>, Seq<char>)>, key: Seq<char>)
    ensures
        0 <= spec_key_index(entries, key) <= entries.len(),
        spec_key_index(entries, key) < entries.len() ==> entries[spec_key_index(entries, key)].0
            == key,
        forall|i: int| 0 <= i < spec_key_index(entries, key) ==> (#[trigger] entries[i]).0 != key,
    decreases entries.len(),
{
    if entries.len() == 0 || entries[0].0 == key {
    } else {
        let rest = entries.skip(1);
        lemma_key_index(rest, key);
        assert forall|i: int| 0 <= i < spec_key_index(entries, key) implies (
        #[trigger] entries[i]).0 != key by {
            if i > 0 {
                assert(rest[i - 1] == entries[i]);
            }
        }
    }
}

/// Any place that is the first to hold an entry of the key is the place of
/// the key.
pub proof fn lemma_key_index_is(entries: Seq<(Seq<char>, Seq<char>)>, key: Seq<char>, at: int)
    requires
        0 <= at <= entries.len(),
        at < entries.len() ==> entries[at].0 == key,
        forall|i: int| 0 <= i < at ==> (#[trigger] entries[i]).0 != key,
    ensures
        spec_key_index(entries, key) == at,
{
    lemma_key_index(entries, key);
    let found = spec_key_index(entries, key);
    if found < at {
        assert(entries[found].0 != key);
    } else if at < found {
        assert(entries[at].0 != key);
    }
}

/// Entries with distinct keys keep distinct keys when a key is set.
pub proof fn lemma_with_entry(
    entries: Seq<(Seq<char>, Seq<char>)>,
    key: Seq<char>,
    value: Seq<char>,
)
    requires
        distinct_keys(entries),
    ensures
        distinct_keys(spec_with_entry(entries, key, value)),
{
    let with = spec_with_entry(entries, key, value);
    let at = spec_key_index(entries, key);
    lemma_key_index(entries, key);
    assert forall|i: int, j: int| 0 <= i < j < with.len() implies (#[trigger] with[i]).0 != (
    #[trigger] with[j]).0 by {
        if at < entries.len() {
            if i == at {
                assert(with[j] == entries[j]);
                assert(entries[at].0 != entries[j].0);
            } else if j == at {
                assert(with[i] == entries[i]);
                assert(entries[i].0 != entries[at].0);
            } else {
                assert(with[i] == entries[i] && with[j] == entries[j]);
            }
        } else {
            if j < entries.len() {
                assert(with[i] == entries[i] && with[j] == entries[j]);
            } else {
                assert(with[i] == entries[i]);
            }
        }
    }
}

/// Sets `key` to `value` among entries: in place where the key is there
/// already, at the end otherwise.
pub fn set_entry(entries: &mut Vec<(String, String)>, key: String, value: String)
    ensures
        pairs(final(entries)@) == spec_with_entry(pairs(old(entries)@), key@, value@),
{
    let ghost before = pairs(entries@);
    let mut i: usize = 0;
    while i < entries.len()
        invariant
            i <= entries.len(),
            entries@ == old(entries)@,
            before == pairs(entries@),
            forall|j: int| 0 <= j < i ==> (#[trigger] before[j]).0 != key@,
        decreases entries.len() - i,
    {
        assert(before[i as int] == (entries@[i as int].0@, entries@[i as int].1@));
        if same_text(entries[i].0.as_str(), key.as_str()) {
            proof {
                lemma_key_index_is(before, key@, i as int);
            }
            entries.set(i, (key, value));
            assert(pairs(entries@) =~= before.update(i as int, (key@, value@)));
            return ;
        }
        i += 1;
    }
    proof {
        lemma_key_index_is(before, key@, i as int);
    }
    entries.push((key, value));
    assert(pairs(entries@) =~= before.push((key@, value@)));
}

/// `prefix`, then the entry's key, `separator`, and the entry's value.
fn flag(prefix: &str, separator: &str, entry: &(String, String)) -> (text: String)
    ensures
        text@ == spec_flag(prefix@, separator@, (entry.0@, entry.1@)),
{
    let mut text = prefix.to_owned();
    text.append(entry.0.as_str());
    text.append(separator);
    text.append(entry.1.as_str());
    text
}

/// Appends one flag for each entry.
fn push_flags(
    args: &mut Vec<String>,
    prefix: &str,
    separator: &str,
    entries: &Vec<(String, String)>,
)
    ensures
        views(final(args)@) == views(old(args)@) + spec_flags(
            prefix@,
            separator@,
            pairs(entries@),
        ),
{
    let ghost start = views(args@);
    let ghost flags = spec_flags(prefix@, separator@, pairs(entries@));
    let mut i: usize = 0;
    assert(views(args@) =~= start + flags.take(0));
    while i < entries.len()
        invariant
            i <= entries.len(),
            flags == spec_flags(prefix@, separator@, pairs(entries@)),
            views(args@) == start + flags.take(i as int),
        decreases entries.len() - i,
    {
        let ghost before = args@;
        let text = flag(prefix, separator, &entries[i]);
        args.push(text);
        proof {
            assert(flags[i as int] == text@);
            assert(views(args@) =~= views(before).push(text@));
            assert(flags.take(i + 1) =~= flags.take(i as int).push(text@));
            assert(views(args@) =~= start + flags.take(i + 1));
        }
        i += 1;
    }
    assert(flags.take(i as int) =~= flags);
}

impl Config {
    /// Whether no two doors of the configuration have one name.
    pub open spec fn spec_wf(&self) -> bool {
        distinct_names(self.doors@)
    }

    /// The configuration that follows from what was read: the caller, the
    /// configuration file's settings and doors, the platform's directories
    /// for this program, the ids of the process, and the engine found.
    /// Absent settings take their defaults: the platform's data directory;
    /// the platform's runtime directory, or else `run` inside the data
    /// directory; no sysops. Of two doors of one name the later one counts.
    pub fn load(
        user: User,
        options: Options,
        doors: Vec<Door>,
        data_dir: String,
        runtime_dir: Option<String>,
        uid: u32,
        gid: u32,
        engine: ContainerEngine,
    ) -> (config: Config)
        ensures
            config.spec_wf(),
            config.user == user,
            config.doors@ == spec_doors(doors@),
            config.uid == uid,
            config.gid == gid,
            config.engine == engine,
            config.dosemu_image == options.dosemu_image,
            config.datadir@ == match options.datadir {
                Some(dir) => dir@,
                None => data_dir@,
            },
            config.rundir@ == spec_rundir(
                opt_view(options.rundir),
                opt_view(runtime_dir),
                config.datadir@,
            ),
            views(config.sysops@) == match options.sysops {
                Some(names) => views(names@),
                None => Seq::empty(),
            },
    {
        let datadir = match options.datadir {
            Some(dir) => dir,
            None => data_dir,
        };
        let rundir = match options.rundir {
            Some(dir) => dir,
            None => match runtime_dir {
                Some(dir) => dir,
                None => join_path(datadir.as_str(), "run"),
            },
        };
        let sysops = match options.sysops {
            Some(names) => names,
            None => Vec::new(),
        };
        assert(views(sysops@) =~= match options.sysops {
            Some(names) => views(names@),
            None => Seq::empty(),
        });
        let mut unique: Vec<Door> = Vec::new();
        for door in it: doors
            invariant
                it.seq() == doors@,
                unique@ == spec_doors(doors@.take(it.index())),
        {
            proof {
                assert(doors@.take(it.index() + 1).drop_last() =~= doors@.take(it.index()));
            }
            set_door(&mut unique, door);
        }
        proof {
            assert(doors@.take(doors@.len() as int) =~= doors@);
            lemma_doors_distinct(doors@);
        }
        Config {
            datadir,
            rundir,
            user,
            dosemu_image: options.dosemu_image,
            uid,
            gid,
            sysops,
            doors: unique,
            engine,
        }
    }

    /// The container engine's binary: the configured path where there is
    /// one; otherwise `PATH` is searched for podman, and only when that
    /// fails for docker.
    pub fn container_engine_path(configured: &Option<String>) -> (path: Result<String, DoorError>)
        ensures
            configured is Some ==> path is Ok && path->Ok_0@ == configured->0@,
            path is Err ==> path->Err_0@ == DoorErrorView::EngineNotFound,
    {
        crate::container::find_engine_path(configured)
    }

    /// The container engine that was found when the configuration was
    /// loaded.
    pub fn container_engine(&self) -> (engine: ContainerEngine)
        ensures
            engine == self.engine,
    {
        self.engine.clone()
    }

    /// The door of that name, or the error that there is none.
    pub fn get_door(&self, name: &str) -> (door: Result<Door, DoorError>)
        ensures
            match spec_find_door(self.doors@, name@) {
                Some(found) => door == Ok::<Door, DoorError>(found),
                None => door is Err && door->Err_0@ == (DoorErrorView::UnknownDoor { door: name@ }),
            },
    {
        let mut i: usize = 0;
        assert(self.doors@.skip(0) =~= self.doors@);
        while i < self.doors.len()
            invariant
                i <= self.doors.len(),
                spec_find_door(self.doors@, name@) == spec_find_door(
                    self.doors@.skip(i as int),
                    name@,
                ),
            decreases self.doors.len() - i,
        {
            assert(self.doors@.skip(i as int)[0] == self.doors@[i as int]);
            if same_text(self.doors[i].name.as_str(), name) {
                return Ok(self.doors[i].clone());
            }
            assert(self.doors@.skip(i as int).skip(1) =~= self.doors@.skip(i + 1));
            i += 1;
        }
        Err(DoorError::UnknownDoor { door: name.to_owned() })
    }

    /// Whether the caller is a sysop: the user the process runs as, root, or
    /// one of the configured sysops.
    pub open spec fn spec_is_sysop(&self) -> bool {
        self.user.uid == self.uid || self.user.uid == 0 || views(self.sysops@).contains(
            self.user.username@,
        )
    }

    /// Whether the caller is a sysop.
    pub fn is_sysop(&self) -> (sysop: bool)
        ensures
            sysop == self.spec_is_sysop(),
    {
        if self.user.uid == self.uid || self.user.uid == 0 {
            true
        } else {
            contains_text(&self.sysops, self.user.username.as_str())
        }
    }

    /// Makes doors run for another identity. Only a sysop may; `found` is
    /// the account record that `identity_lookup` asked for, or `None` where
    /// there is no such account. On an error nothing changes.
    pub fn switch_user(
        &mut self,
        username: &Option<String>,
        uid: Option<u32>,
        display_name: &Option<String>,
        found: Option<User>,
    ) -> (done: Result<(), DoorError>)
        ensures
            final(self).datadir == old(self).datadir,
            final(self).rundir == old(self).rundir,
            final(self).dosemu_image == old(self).dosemu_image,
            final(self).uid == old(self).uid,
            final(self).gid == old(self).gid,
            final(self).sysops == old(self).sysops,
            final(self).doors == old(self).doors,
            final(self).engine == old(self).engine,
            !old(self).spec_is_sysop() ==> done is Err && done->Err_0@
                == DoorErrorView::PermissionDenied && final(self).user == old(self).user,
            old(self).spec_is_sysop() ==> match spec_switched(
                old(self).user@,
                opt_view(*username),
                uid,
                opt_view(*display_name),
                opt_user_view(found),
            ) {
                Some(user) => done is Ok && final(self).user@ == user,
                None => done is Err && done->Err_0@ == DoorErrorView::UnknownUser
                    && final(self).user == old(self).user,
            },
    {
        if !self.is_sysop() {
            return Err(DoorError::PermissionDenied);
        }
        let mut user = match (uid, username) {
            (Some(id), Some(name)) => {
                let shown = match display_name {
                    Some(shown) => shown.clone(),
                    None => name.clone(),
                };
                self.user = User { uid: id, username: name.clone(), display_name: shown };
                return Ok(());
            },
            (None, None) => self.user.clone(),
            _ => match found {
                Some(user) => user,
                None => {
                    return Err(DoorError::UnknownUser);
                },
            },
        };
        match display_name {
            Some(shown) => {
                user.display_name = shown.clone();
            },
            None => {},
        }
        self.user = user;
        Ok(())
    }

    /// The arguments of a `run` of the container engine for this
    /// environment, these volumes (host path, path in the container) and
    /// these labels.
    pub fn run_args(
        &self,
        env: &Vec<(String, String)>,
        volumes: &Vec<(String, String)>,
        labels: &Vec<(String, String)>,
    ) -> (args: Vec<String>)
        ensures
            views(args@) == spec_run_args(
                self.uid,
                self.gid,
                self.engine.rootless_podman,
                pairs(env@),
                pairs(volumes@),
                pairs(labels@),
            ),
    {
        let mut user_flag = "--user=".to_owned();
        user_flag.append(format_integer(self.uid as i64).as_str());
        user_flag.append(":");
        user_flag.append(format_integer(self.gid as i64).as_str());
        let mut args: Vec<String> = Vec::new();
        args.push(user_flag);
        args.push("--tmpfs=/run/user".to_owned());
        args.push("--tmpfs=/tmp".to_owned());
        args.push("--tmpfs=/var/tmp".to_owned());
        assert(views(args@) =~= spec_fixed_flags(self.uid, self.gid));
        push_flags(&mut args, "-v", ":", volumes);
        push_flags(&mut args, "-e", "=", env);
        push_flags(&mut args, "-l", "=", labels);
        let ghost before = args@;
        if self.engine.rootless_podman {
            args.push("--userns=keep-id".to_owned());
            args.push("--passwd=false".to_owned());
        }
        assert(views(args@) =~= views(before) + spec_rootless_flags(self.engine.rootless_podman));
        args
    }

    /// The engine's command line for `command`, yet without arguments.
    pub fn container_command(&self, command: &str) -> (line: CommandLine)
        ensures
            line@ == (CommandLineView { program: self.engine.path@, args: seq![command@] }),
    {
        let mut args: Vec<String> = Vec::new();
        args.push(command.to_owned());
        assert(views(args@) =~= seq![command@]);
        CommandLine { program: self.engine.path.clone(), args }
    }

    /// The engine's command line for a `run` with this environment, these
    /// volumes and these labels; the image and its command are yet to
    /// follow.
    pub fn run_container(
        &self,
        env: &Vec<(String, String)>,
        volumes: &Vec<(String, String)>,
        labels: &Vec<(String, String)>,
    ) -> (line: CommandLine)
        ensures
            line@ == (CommandLineView {
                program: self.engine.path@,
                args: seq!["run"@] + spec_run_args(
                    self.uid,
                    self.gid,
                    self.engine.rootless_podman,
                    pairs(env@),
                    pairs(volumes@),
                    pairs(labels@),
                ),
            }),
    {
        let mut line = self.container_command("run");
        let mut rest = self.run_args(env, volumes, labels);
        let ghost head = line.args@;
        let ghost tail = rest@;
        line.args.append(&mut rest);
        assert(views(line.args@) =~= views(head) + views(tail));
        line
    }
}

} // verus!
