//! Playing a door: one caller, one node, one container.
//!
//! A session is a state machine. `launch` checks the request and hands out
//! the first action; `Session::step` takes the outcome of the pending action
//! and hands out the next one, until the state is `Done` or `Failed`.

use crate::action::{DoorAction, DoorActionView, DoorEvent};
use crate::args::{LaunchArgs, SysopCmdArgs};
use crate::config::{
    identity_lookup, opt_user_view, set_entry, spec_find_door, spec_run_args, spec_switched,
    spec_with_entry, CommandLine, CommandLineView, Config, Door,
};
use crate::dos::{file_result, spec_render_string, spec_write_dos, DosFile, DosFileView, Templates};
use crate::error::{DoorError, DoorErrorView};
use crate::json::{lemma_members_view, members_view, Json, JsonView};
use crate::text::{
    decimal, decode_text, format_integer, join_path, join_text, joined, opt_view, pairs, trim_text,
    trimmed, uppercased, views,
};
use crate::user::{User, UserView};
use vstd::prelude::*;
use vstd::utf8::{decode_utf8, valid_utf8};

verus! {

// ---------------------------------------------------------------------------
// Where things live
// ---------------------------------------------------------------------------

/// The lock file of a door: `{rundir}/{door}.lock`.
pub open spec fn spec_door_lock_path(rundir: Seq<char>, door: Seq<char>) -> Seq<char> {
    joined(rundir, door + ".lock"@)
}

/// The lock file of a node: `{rundir}/{door}.{node}.lock`.
pub open spec fn spec_node_lock_path(rundir: Seq<char>, door: Seq<char>, node: i8) -> Seq<char> {
    joined(rundir, door + "."@ + decimal(node as int) + ".lock"@)
}

/// The workspace of a node: `{rundir}/{door}.{node}`.
pub open spec fn spec_node_rundir(rundir: Seq<char>, door: Seq<char>, node: i8) -> Seq<char> {
    joined(rundir, door + "."@ + decimal(node as int))
}

/// The workspace of a door's maintenance: `{rundir}/{door}.sysop`.
pub open spec fn spec_sysop_rundir(rundir: Seq<char>, door: Seq<char>) -> Seq<char> {
    joined(rundir, door + ".sysop"@)
}

/// The lock file of a door.
pub fn door_lock_path(rundir: &str, door: &str) -> (path: String)
    ensures
        path@ == spec_door_lock_path(rundir@, door@),
{
    let name = join_text(door, ".lock");
    join_path(rundir, name.as_str())
}

/// The lock file of a node.
pub fn node_lock_path(rundir: &str, door: &str, node: i8) -> (path: String)
    ensures
        path@ == spec_node_lock_path(rundir@, door@, node),
{
    let mut name = join_text(door, ".");
    name.append(format_integer(node as i64).as_str());
    name.append(".lock");
    join_path(rundir, name.as_str())
}

/// The workspace of a node.
pub fn node_rundir(rundir: &str, door: &str, node: i8) -> (path: String)
    ensures
        path@ == spec_node_rundir(rundir@, door@, node),
{
    let mut name = join_text(door, ".");
    name.append(format_integer(node as i64).as_str());
    join_path(rundir, name.as_str())
}

/// The workspace of a door's maintenance.
pub fn sysop_rundir(rundir: &str, door: &str) -> (path: String)
    ensures
        path@ == spec_sysop_rundir(rundir@, door@),
{
    let name = join_text(door, ".sysop");
    join_path(rundir, name.as_str())
}

/// The terminal type handed to a door: the caller's, or `xterm` where the
/// caller has none.
pub fn get_term(term: Option<String>) -> (name: String)
    ensures
        name@ == match term {
            Some(t) => t@,
            None => "xterm"@,
        },
{
    match term {
        Some(t) => t,
        None => "xterm".to_owned(),
    }
}

// ---------------------------------------------------------------------------
// Template variables
// ---------------------------------------------------------------------------

/// The variables of the templates of a play session: the user with `uid`,
/// `username` and `display_name`, the `node`, and the `current_time`.
pub open spec fn spec_launch_vars(user: UserView, node: i8, time: Seq<char>) -> JsonView {
    JsonView::Object(
        seq![
            (
                "user"@,
                JsonView::Object(
                    seq![
                        ("uid"@, JsonView::Number(Some(user.uid as i64))),
                        ("username"@, JsonView::Text(user.username)),
                        ("display_name"@, JsonView::Text(user.display_name)),
                    ],
                ),
            ),
            ("node"@, JsonView::Number(Some(node as i64))),
            ("current_time"@, JsonView::Text(time)),
        ],
    )
}

/// The variables of the batch file's template: the `commands` to run.
pub open spec fn spec_batch_vars(commands: Seq<char>) -> JsonView {
    JsonView::Object(seq![("commands"@, JsonView::Text(commands))])
}

/// The variables of the templates of a play session.
pub fn launch_vars(user: &User, node: i8, time: &str) -> (vars: Json)
    ensures
        vars@ == spec_launch_vars(user@, node, time@),
{
    let mut account: Vec<(String, Json)> = Vec::new();
    account.push(("uid".to_owned(), Json::Number(Some(user.uid as i64))));
    account.push(("username".to_owned(), Json::Text(user.username.clone())));
    account.push(("display_name".to_owned(), Json::Text(user.display_name.clone())));
    let ghost account_view = members_view(account@);
    proof {
        lemma_members_view(account@);
        assert(account_view =~= seq![
            ("uid"@, JsonView::Number(Some(user.uid as i64))),
            ("username"@, JsonView::Text(user.username@)),
            ("display_name"@, JsonView::Text(user.display_name@)),
        ]);
    }
    let mut members: Vec<(String, Json)> = Vec::new();
    members.push(("user".to_owned(), Json::Object(account)));
    members.push(("node".to_owned(), Json::Number(Some(node as i64))));
    members.push(("current_time".to_owned(), Json::Text(time.to_owned())));
    proof {
        lemma_members_view(members@);
        assert(members_view(members@) =~= seq![
            ("user"@, JsonView::Object(account_view)),
            ("node"@, JsonView::Number(Some(node as i64))),
            ("current_time"@, JsonView::Text(time@)),
        ]);
    }
    Json::Object(members)
}

/// The variables of the batch file's template.
pub fn batch_vars(commands: &str) -> (vars: Json)
    ensures
        vars@ == spec_batch_vars(commands@),
{
    let mut members: Vec<(String, Json)> = Vec::new();
    members.push(("commands".to_owned(), Json::Text(commands.to_owned())));
    proof {
        lemma_members_view(members@);
        assert(members_view(members@) =~= seq![("commands"@, JsonView::Text(commands@))]);
    }
    Json::Object(members)
}

// ---------------------------------------------------------------------------
// The play session
// ---------------------------------------------------------------------------

/// Where a play session stands. Each state names what has been reached; the
/// action that is pending in it is the work that leads on to the next.
#[derive(Debug, Clone, PartialEq, Eq)]
pub enum SessionState {
    /// Nothing is held. Pending: the door's lock, shared.
    Idle,
    /// The door is locked, shared, and stays so to the end. Pending: the
    /// exclusive lock of node `node`; the nodes below it are taken.
    NodeScanning { node: i8 },
    /// The node is claimed. Pending: its workspace, emptied and created.
    NodeClaimed { node: i8 },
    /// The workspace is empty. Pending: the door's drop file.
    WorkspaceCleared { node: i8 },
    /// The drop file is written. Pending: the batch file.
    DropFileWritten { node: i8 },
    /// The workspace is complete. Pending: the start of the container.
    WorkspaceStaged { node: i8 },
    /// The container was started. Pending: its sign that the door is ready.
    ContainerStarting { node: i8 },
    /// The door is ready in the container `container`. Pending: the release
    /// of the node's lock.
    ContainerReady { node: i8, container: String },
    /// The node's lock is released. Pending: the caller's stay in the door.
    Attached { node: i8, container: String },
    /// The caller has left the door.
    Done,
    /// The session ended on an error.
    Failed(DoorError),
}

/// The mathematical value of a `SessionState`.
pub enum SessionStateView {
    Idle,
    NodeScanning { node: i8 },
    NodeClaimed { node: i8 },
    WorkspaceCleared { node: i8 },
    DropFileWritten { node: i8 },
    WorkspaceStaged { node: i8 },
    ContainerStarting { node: i8 },
    ContainerReady { node: i8, container: Seq<char> },
    Attached { node: i8, container: Seq<char> },
    Done,
    Failed(DoorErrorView),
}

impl View for SessionState {
    type V = SessionStateView;

    open spec fn view(&self) -> SessionStateView {
        match *self {
            SessionState::Idle => SessionStateView::Idle,
            SessionState::NodeScanning { node } => SessionStateView::NodeScanning { node },
            SessionState::NodeClaimed { node } => SessionStateView::NodeClaimed { node },
            SessionState::WorkspaceCleared { node } => SessionStateView::WorkspaceCleared { node },
            SessionState::DropFileWritten { node } => SessionStateView::DropFileWritten { node },
            SessionState::WorkspaceStaged { node } => SessionStateView::WorkspaceStaged { node },
            SessionState::ContainerStarting { node } => SessionStateView::ContainerStarting {
                node,
            },
            SessionState::ContainerReady { node, container } => SessionStateView::ContainerReady {
                node,
                container: container@,
            },
            SessionState::Attached { node, container } => SessionStateView::Attached {
                node,
                container: container@,
            },
            SessionState::Done => SessionStateView::Done,
            SessionState::Failed(error) => SessionStateView::Failed(error@),
        }
    }
}

/// One caller's play of one door.
#[derive(Debug, Clone, PartialEq, Eq)]
pub struct Session {
    pub config: Config,
    pub door: Door,
    /// Whether the terminal gets the door's output as the door writes it.
    pub raw: bool,
    /// The caller's terminal type.
    pub term: String,
    pub templates: Templates,
    /// The local time of day at which the session began, as `HH:MM`.
    pub current_time: String,
}

/// The end of a session on an error.
pub open spec fn spec_fail(error: DoorErrorView) -> (SessionStateView, DoorActionView) {
    (SessionStateView::Failed(error), DoorActionView::Finish)
}

fn fail(error: DoorError) -> (next: (SessionState, DoorAction))
    ensures
        (next.0@, next.1@) == spec_fail(error@),
{
    (SessionState::Failed(error), DoorAction::Finish)
}

impl Session {
    /// The door's lock file.
    pub open spec fn spec_door_lock(&self) -> Seq<char> {
        spec_door_lock_path(self.config.rundir@, self.door.name@)
    }

    /// The lock file of a node.
    pub open spec fn spec_node_lock(&self, node: i8) -> Seq<char> {
        spec_node_lock_path(self.config.rundir@, self.door.name@, node)
    }

    /// The workspace of a node.
    pub open spec fn spec_workspace(&self, node: i8) -> Seq<char> {
        spec_node_rundir(self.config.rundir@, self.door.name@, node)
    }

    /// The engine's binary, which is named when a process fails.
    pub open spec fn spec_engine(&self) -> Seq<char> {
        self.config.engine.path@
    }

    /// The template variables of the session on a node.
    pub open spec fn spec_vars(&self, node: i8) -> JsonView {
        spec_launch_vars(self.config.user@, node, self.current_time@)
    }

    /// The environment of the container: the terminal type, and whether its
    /// output goes out as the door writes it.
    pub open spec fn spec_env(&self) -> Seq<(Seq<char>, Seq<char>)> {
        seq![
            ("TERM"@, self.term@),
            (
                "DOORMAN_RAW"@,
                if self.raw {
                    "1"@
                } else {
                    "0"@
                },
            ),
        ]
    }

    /// The volumes of the container, each host path once: the workspace, the
    /// door's files, the door's lock file and the node's lock file.
    pub open spec fn spec_volumes(&self, node: i8) -> Seq<(Seq<char>, Seq<char>)> {
        spec_with_entry(
            spec_with_entry(
                spec_with_entry(
                    seq![(self.spec_workspace(node), "/mnt/doorman"@)],
                    self.door.options.door_path@,
                    "/mnt/door"@,
                ),
                self.spec_door_lock(),
                "/mnt/door.lock"@,
            ),
            self.spec_node_lock(node),
            "/mnt/node.lock"@,
        )
    }

    /// The labels of the container: door, node, user and workspace.
    pub open spec fn spec_labels(&self, node: i8) -> Seq<(Seq<char>, Seq<char>)> {
        seq![
            ("doorman.door"@, self.door.name@),
            ("doorman.node"@, decimal(node as int)),
            ("doorman.user"@, self.config.user.username@),
            ("doorman.rundir"@, self.spec_workspace(node)),
        ]
    }

    /// The command that starts the container: a detached `run` of the image
    /// with `wait-for-launch.sh`, which prints the container's id once the
    /// door is ready.
    pub open spec fn spec_run_command(&self, node: i8) -> CommandLineView {
        CommandLineView {
            program: self.spec_engine(),
            args: seq!["run"@] + spec_run_args(
                self.config.uid,
                self.config.gid,
                self.config.engine.rootless_podman,
                self.spec_env(),
                self.spec_volumes(node),
                self.spec_labels(node),
            ) + seq!["-d"@, self.config.dosemu_image@, "wait-for-launch.sh"@],
        }
    }

    /// The command that puts the caller into the door: `launch.sh`, run on a
    /// terminal inside the container.
    pub open spec fn spec_attach_command(&self, container: Seq<char>) -> CommandLineView {
        CommandLineView {
            program: self.spec_engine(),
            args: seq!["exec"@, "-ti"@, container, "launch.sh"@],
        }
    }

    /// The door's drop file, `door.sys`.
    pub open spec fn spec_drop_file(&self, node: i8) -> Result<DosFileView, DoorErrorView> {
        spec_write_dos(
            pairs(self.templates.assets@),
            "door.sys"@,
            self.spec_workspace(node),
            self.spec_vars(node),
        )
    }

    /// The batch file, `doorman.bat`, which holds the door's launch commands
    /// rendered with the session's variables.
    pub open spec fn spec_batch_file(&self, node: i8) -> Result<DosFileView, DoorErrorView> {
        match spec_render_string(self.door.options.launch_commands@, self.spec_vars(node)) {
            Ok(commands) => spec_write_dos(
                pairs(self.templates.assets@),
                "doorman.bat"@,
                self.spec_workspace(node),
                spec_batch_vars(commands),
            ),
            Err(error) => Err(error),
        }
    }

    /// Where a file of the workspace stands.
    pub open spec fn spec_file_path(&self, node: i8, name: Seq<char>) -> Seq<char> {
        joined(self.spec_workspace(node), uppercased(name))
    }

    /// The attempt on node `node`, or the end of the scan where the door has
    /// no such node.
    pub open spec fn spec_scan(&self, node: int) -> (SessionStateView, DoorActionView) {
        if 1 <= node <= self.door.options.max_nodes {
            (
                SessionStateView::NodeScanning { node: node as i8 },
                DoorActionView::LockExclusive {
                    path: self.spec_node_lock(node as i8),
                    wait: false,
                },
            )
        } else {
            spec_fail(DoorErrorView::AllNodesBusy { door: self.door.name@ })
        }
    }

    /// The first action of a session: the door's lock, shared.
    pub open spec fn spec_first_action(&self) -> DoorActionView {
        DoorActionView::LockShared { path: self.spec_door_lock() }
    }

    /// What follows a written file or a failure to write it.
    pub open spec fn spec_after_write(
        &self,
        event: DoorEvent,
        path: Seq<char>,
        next: (SessionStateView, DoorActionView),
    ) -> (SessionStateView, DoorActionView) {
        match event {
            DoorEvent::Completed => next,
            DoorEvent::Failed => spec_fail(DoorErrorView::Io { path }),
            _ => spec_fail(DoorErrorView::Unexpected),
        }
    }

    /// The state after `event`, and the action that is pending in it.
    ///
    /// The door's lock is asked for first, and a refusal means maintenance:
    /// `DoorBusy`. The nodes are then tried in ascending order from 1; the
    /// first lock granted claims the node, and a refusal at the door's last
    /// node ends the session with `AllNodesBusy`. The workspace is emptied
    /// before anything is written to it. The container must leave with exit
    /// code 0 and print its id, else the session ends with `LaunchFailed`.
    /// The node's lock is released before the caller enters the door. A
    /// path that could not be used ends the session with `Io`. `Done` and
    /// `Failed` are final.
    pub open spec fn spec_step(&self, state: SessionStateView, event: DoorEvent) -> (
        SessionStateView,
        DoorActionView,
    ) {
        match state {
            SessionStateView::Idle => match event {
                DoorEvent::Acquired => self.spec_scan(1),
                DoorEvent::Refused => spec_fail(DoorErrorView::DoorBusy { door: self.door.name@ }),
                DoorEvent::Failed => spec_fail(DoorErrorView::Io { path: self.spec_door_lock() }),
                _ => spec_fail(DoorErrorView::Unexpected),
            },
            SessionStateView::NodeScanning { node } => match event {
                DoorEvent::Acquired => (
                    SessionStateView::NodeClaimed { node },
                    DoorActionView::ResetWorkspace { dir: self.spec_workspace(node) },
                ),
                DoorEvent::Refused => self.spec_scan(node + 1),
                DoorEvent::Failed => spec_fail(
                    DoorErrorView::Io { path: self.spec_node_lock(node) },
                ),
                _ => spec_fail(DoorErrorView::Unexpected),
            },
            SessionStateView::NodeClaimed { node } => match event {
                DoorEvent::Completed => match self.spec_drop_file(node) {
                    Ok(file) => (
                        SessionStateView::WorkspaceCleared { node },
                        DoorActionView::WriteFile { file },
                    ),
                    Err(error) => spec_fail(error),
                },
                DoorEvent::Failed => spec_fail(
                    DoorErrorView::Io { path: self.spec_workspace(node) },
                ),
                _ => spec_fail(DoorErrorView::Unexpected),
            },
            SessionStateView::WorkspaceCleared { node } => self.spec_after_write(
                event,
                self.spec_file_path(node, "door.sys"@),
                match self.spec_batch_file(node) {
                    Ok(file) => (
                        SessionStateView::DropFileWritten { node },
                        DoorActionView::WriteFile { file },
                    ),
                    Err(error) => spec_fail(error),
                },
            ),
            SessionStateView::DropFileWritten { node } => self.spec_after_write(
                event,
                self.spec_file_path(node, "doorman.bat"@),
                (
                    SessionStateView::WorkspaceStaged { node },
                    DoorActionView::Spawn { command: self.spec_run_command(node), capture: true },
                ),
            ),
            SessionStateView::WorkspaceStaged { node } => match event {
                DoorEvent::Completed => (
                    SessionStateView::ContainerStarting { node },
                    DoorActionView::AwaitExit,
                ),
                DoorEvent::Failed => spec_fail(DoorErrorView::Io { path: self.spec_engine() }),
                _ => spec_fail(DoorErrorView::Unexpected),
            },
            SessionStateView::ContainerStarting { node } => match event {
                DoorEvent::Exited { code, output } => if code == Some(0i32) && valid_utf8(output@)
                    && trimmed(decode_utf8(output@)).len() > 0 {
                    (
                        SessionStateView::ContainerReady {
                            node,
                            container: trimmed(decode_utf8(output@)),
                        },
                        DoorActionView::Unlock { path: self.spec_node_lock(node) },
                    )
                } else {
                    spec_fail(DoorErrorView::LaunchFailed { door: self.door.name@, code })
                },
                DoorEvent::Failed => spec_fail(DoorErrorView::Io { path: self.spec_engine() }),
                _ => spec_fail(DoorErrorView::Unexpected),
            },
            SessionStateView::ContainerReady { node, container } => match event {
                DoorEvent::Completed => (
                    SessionStateView::Attached { node, container },
                    DoorActionView::Run { command: self.spec_attach_command(container) },
                ),
                DoorEvent::Failed => spec_fail(
                    DoorErrorView::Io { path: self.spec_node_lock(node) },
                ),
                _ => spec_fail(DoorErrorView::Unexpected),
            },
            SessionStateView::Attached { node, container } => match event {
                DoorEvent::Completed => (SessionStateView::Done, DoorActionView::Finish),
                DoorEvent::Failed => spec_fail(DoorErrorView::Io { path: self.spec_engine() }),
                _ => spec_fail(DoorErrorView::Unexpected),
            },
            SessionStateView::Done => (SessionStateView::Done, DoorActionView::Finish),
            SessionStateView::Failed(error) => (
                SessionStateView::Failed(error),
                DoorActionView::Finish,
            ),
        }
    }

    fn door_lock(&self) -> (path: String)
        ensures
            path@ == self.spec_door_lock(),
    {
        door_lock_path(self.config.rundir.as_str(), self.door.name.as_str())
    }

    fn node_lock(&self, node: i8) -> (path: String)
        ensures
            path@ == self.spec_node_lock(node),
    {
        node_lock_path(self.config.rundir.as_str(), self.door.name.as_str(), node)
    }

    fn workspace(&self, node: i8) -> (path: String)
        ensures
            path@ == self.spec_workspace(node),
    {
        node_rundir(self.config.rundir.as_str(), self.door.name.as_str(), node)
    }

    fn file_path(&self, node: i8, name: &str) -> (path: String)
        ensures
            path@ == self.spec_file_path(node, name@),
    {
        let dir = self.workspace(node);
        let upper = name.to_uppercase();
        join_path(dir.as_str(), upper.as_str())
    }

    fn engine_failure(&self) -> (next: (SessionState, DoorAction))
        ensures
            (next.0@, next.1@) == spec_fail(DoorErrorView::Io { path: self.spec_engine() }),
    {
        fail(DoorError::Io { path: self.config.engine.path.clone() })
    }

    fn scan(&self, node: i8) -> (next: (SessionState, DoorAction))
        ensures
            (next.0@, next.1@) == self.spec_scan(node as int),
    {
        if 1 <= node && node <= self.door.options.max_nodes {
            (
                SessionState::NodeScanning { node },
                DoorAction::LockExclusive { path: self.node_lock(node), wait: false },
            )
        } else {
            fail(DoorError::AllNodesBusy { door: self.door.name.clone() })
        }
    }

    /// The command that starts the container of the session on `node`.
    pub fn run_command(&self, node: i8) -> (command: CommandLine)
        ensures
            command@ == self.spec_run_command(node),
    {
        let mut env: Vec<(String, String)> = Vec::new();
        env.push(("TERM".to_owned(), self.term.clone()));
        let raw = if self.raw {
            "1".to_owned()
        } else {
            "0".to_owned()
        };
        env.push(("DOORMAN_RAW".to_owned(), raw));
        assert(pairs(env@) =~= self.spec_env());

        let mut volumes: Vec<(String, String)> = Vec::new();
        volumes.push((self.workspace(node), "/mnt/doorman".to_owned()));
        assert(pairs(volumes@) =~= seq![(self.spec_workspace(node), "/mnt/doorman"@)]);
        set_entry(&mut volumes, self.door.options.door_path.clone(), "/mnt/door".to_owned());
        set_entry(&mut volumes, self.door_lock(), "/mnt/door.lock".to_owned());
        set_entry(&mut volumes, self.node_lock(node), "/mnt/node.lock".to_owned());

        let mut labels: Vec<(String, String)> = Vec::new();
        labels.push(("doorman.door".to_owned(), self.door.name.clone()));
        labels.push(("doorman.node".to_owned(), format_integer(node as i64)));
        labels.push(("doorman.user".to_owned(), self.config.user.username.clone()));
        labels.push(("doorman.rundir".to_owned(), self.workspace(node)));
        assert(pairs(labels@) =~= self.spec_labels(node));

        let mut command = self.config.run_container(&env, &volumes, &labels);
        let ghost before = command.args@;
        command.args.push("-d".to_owned());
        command.args.push(self.config.dosemu_image.clone());
        command.args.push("wait-for-launch.sh".to_owned());
        assert(views(command.args@) =~= views(before) + seq![
            "-d"@,
            self.config.dosemu_image@,
            "wait-for-launch.sh"@,
        ]);
        command
    }

    /// The command that puts the caller into the door that runs in
    /// `container`.
    pub fn attach_command(&self, container: &str) -> (command: CommandLine)
        ensures
            command@ == self.spec_attach_command(container@),
    {
        let mut command = self.config.container_command("exec");
        let ghost before = command.args@;
        command.args.push("-ti".to_owned());
        command.args.push(container.to_owned());
        command.args.push("launch.sh".to_owned());
        assert(views(command.args@) =~= views(before) + seq!["-ti"@, container@, "launch.sh"@]);
        assert(views(command.args@) =~= seq!["exec"@, "-ti"@, container@, "launch.sh"@]);
        command
    }

    /// The door's drop file for the session on `node`.
    pub fn drop_file(&self, node: i8) -> (file: Result<DosFile, DoorError>)
        ensures
            file_result(file) == self.spec_drop_file(node),
    {
        let vars = launch_vars(&self.config.user, node, self.current_time.as_str());
        let dir = self.workspace(node);
        self.templates.write_dos("door.sys", dir.as_str(), &vars)
    }

    /// The batch file for the session on `node`.
    pub fn batch_file(&self, node: i8) -> (file: Result<DosFile, DoorError>)
        ensures
            file_result(file) == self.spec_batch_file(node),
    {
        let vars = launch_vars(&self.config.user, node, self.current_time.as_str());
        match self.templates.render_string(self.door.options.launch_commands.as_str(), &vars) {
            Ok(commands) => {
                let dir = self.workspace(node);
                self.templates.write_dos(
                    "doorman.bat",
                    dir.as_str(),
                    &batch_vars(commands.as_str()),
                )
            },
            Err(error) => Err(error),
        }
    }

    /// The first action of the session.
    pub fn first_action(&self) -> (action: DoorAction)
        ensures
            action@ == self.spec_first_action(),
    {
        DoorAction::LockShared { path: self.door_lock() }
    }

    /// Takes the outcome of the pending action and hands out the next
    /// state and the action that is pending in it.
    pub fn step(&self, state: SessionState, event: DoorEvent) -> (next: (
        SessionState,
        DoorAction,
    ))
        ensures
            (next.0@, next.1@) == self.spec_step(state@, event),
    {
        match state {
            SessionState::Idle => match event {
                DoorEvent::Acquired => self.scan(1),
                DoorEvent::Refused => fail(DoorError::DoorBusy { door: self.door.name.clone() }),
                DoorEvent::Failed => fail(DoorError::Io { path: self.door_lock() }),
                _ => fail(DoorError::Unexpected),
            },
            SessionState::NodeScanning { node } => match event {
                DoorEvent::Acquired => (
                    SessionState::NodeClaimed { node },
                    DoorAction::ResetWorkspace { dir: self.workspace(node) },
                ),
                DoorEvent::Refused => if node < self.door.options.max_nodes {
                    self.scan(node + 1)
                } else {
                    fail(DoorError::AllNodesBusy { door: self.door.name.clone() })
                },
                DoorEvent::Failed => fail(DoorError::Io { path: self.node_lock(node) }),
                _ => fail(DoorError::Unexpected),
            },
            SessionState::NodeClaimed { node } => match event {
                DoorEvent::Completed => match self.drop_file(node) {
                    Ok(file) => (
                        SessionState::WorkspaceCleared { node },
                        DoorAction::WriteFile { file },
                    ),
                    Err(error) => fail(error),
                },
                DoorEvent::Failed => fail(DoorError::Io { path: self.workspace(node) }),
                _ => fail(DoorError::Unexpected),
            },
            SessionState::WorkspaceCleared { node } => match event {
                DoorEvent::Completed => match self.batch_file(node) {
                    Ok(file) => (
                        SessionState::DropFileWritten { node },
                        DoorAction::WriteFile { file },
                    ),
                    Err(error) => fail(error),
                },
                DoorEvent::Failed => fail(DoorError::Io { path: self.file_path(node, "door.sys") }),
                _ => fail(DoorError::Unexpected),
            },
            SessionState::DropFileWritten { node } => match event {
                DoorEvent::Completed => (
                    SessionState::WorkspaceStaged { node },
                    DoorAction::Spawn { command: self.run_command(node), capture: true },
                ),
                DoorEvent::Failed => fail(
                    DoorError::Io { path: self.file_path(node, "doorman.bat") },
                ),
                _ => fail(DoorError::Unexpected),
            },
            SessionState::WorkspaceStaged { node } => match event {
                DoorEvent::Completed => (
                    SessionState::ContainerStarting { node },
                    DoorAction::AwaitExit,
                ),
                DoorEvent::Failed => self.engine_failure(),
                _ => fail(DoorError::Unexpected),
            },
            SessionState::ContainerStarting { node } => match event {
                DoorEvent::Exited { code, output } => {
                    let started = match code {
                        Some(c) => c == 0,
                        None => false,
                    };
                    let printed = if started {
                        decode_text(output)
                    } else {
                        None
                    };
                    match printed {
                        Some(text) => {
                            let container = trim_text(text.as_str());
                            if container.as_str().is_empty() {
                                fail(
                                    DoorError::LaunchFailed { door: self.door.name.clone(), code },
                                )
                            } else {
                                (
                                    SessionState::ContainerReady {
                                        node,
                                        container,
                                    },
                                    DoorAction::Unlock { path: self.node_lock(node) },
                                )
                            }
                        },
                        None => fail(
                            DoorError::LaunchFailed { door: self.door.name.clone(), code },
                        ),
                    }
                },
                DoorEvent::Failed => self.engine_failure(),
                _ => fail(DoorError::Unexpected),
            },
            SessionState::ContainerReady { node, container } => match event {
                DoorEvent::Completed => {
                    let command = self.attach_command(container.as_str());
                    (SessionState::Attached { node, container }, DoorAction::Run { command })
                },
                DoorEvent::Failed => fail(DoorError::Io { path: self.node_lock(node) }),
                _ => fail(DoorError::Unexpected),
            },
            SessionState::Attached { node, container } => match event {
                DoorEvent::Completed => (SessionState::Done, DoorAction::Finish),
                DoorEvent::Failed => self.engine_failure(),
                _ => fail(DoorError::Unexpected),
            },
            SessionState::Done => (SessionState::Done, DoorAction::Finish),
            SessionState::Failed(error) => (SessionState::Failed(error), DoorAction::Finish),
        }
    }
}

// ---------------------------------------------------------------------------
// Starting a play session
// ---------------------------------------------------------------------------

/// `chrono::Local::now` and `DateTime::format`: the local time of the
/// moment of the call, written as `format` says. Nothing is promised of the
/// text: it depends on the clock and on the machine's time zone.
#[verifier::external_body]
fn local_time(format: &str) -> (text: String)
    requires
        format@ == "%H:%M"@,
{
    chrono::Local::now().format(format).to_string()
}

/// The identity that a request runs the door for: the caller's, or the one
/// the request switches to. `None` where the switch needs an account record
/// and `found` holds none.
pub open spec fn spec_launch_user(args: LaunchArgs, config: Config, found: Option<User>) -> Option<
    UserView,
> {
    if args.spec_switches_user() {
        spec_switched(
            config.user@,
            opt_view(args.user),
            args.user_id,
            opt_view(args.display_name),
            opt_user_view(found),
        )
    } else {
        Some(config.user@)
    }
}

/// Why a request to play cannot start, if it cannot: the door is unknown;
/// or the request switches identity and the caller is no sysop, or the
/// account it names does not exist.
pub open spec fn spec_launch_error(args: LaunchArgs, config: Config, found: Option<User>) -> Option<
    DoorErrorView,
> {
    if spec_find_door(config.doors@, args.door@) is None {
        Some(DoorErrorView::UnknownDoor { door: args.door@ })
    } else if args.spec_switches_user() && !config.spec_is_sysop() {
        Some(DoorErrorView::PermissionDenied)
    } else if spec_launch_user(args, config, found) is None {
        Some(DoorErrorView::UnknownUser)
    } else {
        None
    }
}

/// Whether `started` is what a request to play leads to, whatever the time
/// of day: the error that `spec_launch_error` names; or else the session
/// for the door, the identity, the terminal (`xterm` where the caller has
/// none) and the templates, with the door's shared lock as its first action.
pub open spec fn spec_launched(
    args: LaunchArgs,
    config: Config,
    found: Option<User>,
    term: Option<String>,
    templates: Templates,
    started: Result<(Session, DoorAction), DoorError>,
) -> bool {
    match spec_launch_error(args, config, found) {
        Some(error) => started is Err && started->Err_0@ == error,
        None => {
            &&& started matches Ok((session, action))
            &&& Some(session.door) == spec_find_door(config.doors@, args.door@)
            &&& Some(session.config.user@) == spec_launch_user(args, config, found)
            &&& session.config.datadir == config.datadir
            &&& session.config.rundir == config.rundir
            &&& session.config.dosemu_image == config.dosemu_image
            &&& session.config.uid == config.uid
            &&& session.config.gid == config.gid
            &&& session.config.sysops == config.sysops
            &&& session.config.doors == config.doors
            &&& session.config.engine == config.engine
            &&& session.raw == args.raw
            &&& session.term@ == match term {
                Some(t) => t@,
                None => "xterm"@,
            }
            &&& session.templates == templates
            &&& action@ == session.spec_first_action()
        },
    }
}

/// Starts a play session at a given time of day, `current_time`, which the
/// door's templates show. `found` is the account record that
/// `identity_lookup` asks for on `args.user` and `args.user_id`, or `None`
/// where there is no such account; `term` is the caller's terminal type.
pub fn launch_at(
    args: &LaunchArgs,
    config: Config,
    found: Option<User>,
    term: Option<String>,
    templates: Templates,
    current_time: String,
) -> (started: Result<(Session, DoorAction), DoorError>)
    ensures
        spec_launched(*args, config, found, term, templates, started),
        started matches Ok((session, _)) ==> session.current_time == current_time,
{
    let mut config = config;
    let door = match config.get_door(args.door.as_str()) {
        Ok(door) => door,
        Err(error) => {
            return Err(error);
        },
    };
    if args.switches_user() {
        match config.switch_user(&args.user, args.user_id, &args.display_name, found) {
            Ok(()) => {},
            Err(error) => {
                return Err(error);
            },
        }
    }
    let session = Session {
        config,
        door,
        raw: args.raw,
        term: get_term(term),
        templates,
        current_time,
    };
    let action = session.first_action();
    Ok((session, action))
}

/// Starts a play session now: `launch_at` with the local time of day.
pub fn launch(
    args: &LaunchArgs,
    config: Config,
    found: Option<User>,
    term: Option<String>,
    templates: Templates,
) -> (started: Result<(Session, DoorAction), DoorError>)
    ensures
        spec_launched(*args, config, found, term, templates, started),
{
    let current_time = local_time("%H:%M");
    launch_at(args, config, found, term, templates, current_time)
}

// ---------------------------------------------------------------------------
// Maintenance
// ---------------------------------------------------------------------------

/// Where a maintenance run stands. `configure` and `nightly` take a request
/// from idle through authorization; the states here follow.
#[derive(Debug, Clone, PartialEq, Eq)]
pub enum MaintenanceState {
    /// The caller is authorized. Pending: the door's lock, exclusive.
    DoorLockAttempt,
    /// The door is locked: nobody plays, nobody else maintains. Pending: the
    /// maintenance workspace, emptied and created.
    DoorLocked,
    /// The workspace is empty. Pending: the batch file.
    WorkspaceCleared,
    /// The workspace is complete. Pending: the start of the container.
    WorkspaceStaged,
    /// The container runs. Pending: the release of the door's lock.
    ContainerRunning,
    /// The door's lock is released. Pending: the end of the container.
    Released,
    /// The container has ended.
    Done,
    /// The run ended on an error.
    Failed(DoorError),
}

/// The mathematical value of a `MaintenanceState`.
pub enum MaintenanceStateView {
    DoorLockAttempt,
    DoorLocked,
    WorkspaceCleared,
    WorkspaceStaged,
    ContainerRunning,
    Released,
    Done,
    Failed(DoorErrorView),
}

impl View for MaintenanceState {
    type V = MaintenanceStateView;

    open spec fn view(&self) -> MaintenanceStateView {
        match *self {
            MaintenanceState::DoorLockAttempt => MaintenanceStateView::DoorLockAttempt,
            MaintenanceState::DoorLocked => MaintenanceStateView::DoorLocked,
            MaintenanceState::WorkspaceCleared => MaintenanceStateView::WorkspaceCleared,
            MaintenanceState::WorkspaceStaged => MaintenanceStateView::WorkspaceStaged,
            MaintenanceState::ContainerRunning => MaintenanceStateView::ContainerRunning,
            MaintenanceState::Released => MaintenanceStateView::Released,
            MaintenanceState::Done => MaintenanceStateView::Done,
            MaintenanceState::Failed(error) => MaintenanceStateView::Failed(error@),
        }
    }
}

/// One run of a door's maintenance command.
#[derive(Debug, Clone, PartialEq, Eq)]
pub struct Maintenance<'a> {
    pub config: &'a Config,
    pub door: Door,
    /// The operation: `configure` or `nightly`.
    pub command: String,
    /// The DOS commands of the operation.
    pub commands: String,
    /// Whether to give up at once where the door is busy.
    pub nowait: bool,
    /// The caller's terminal type.
    pub term: String,
    pub templates: Templates,
}

/// The end of a maintenance run on an error.
pub open spec fn spec_abort(error: DoorErrorView) -> (MaintenanceStateView, DoorActionView) {
    (MaintenanceStateView::Failed(error), DoorActionView::Finish)
}

fn abort(error: DoorError) -> (next: (MaintenanceState, DoorAction))
    ensures
        (next.0@, next.1@) == spec_abort(error@),
{
    (MaintenanceState::Failed(error), DoorAction::Finish)
}

impl<'a> Maintenance<'a> {
    /// The door's lock file.
    pub open spec fn spec_door_lock(&self) -> Seq<char> {
        spec_door_lock_path(self.config.rundir@, self.door.name@)
    }

    /// The maintenance workspace.
    pub open spec fn spec_workspace(&self) -> Seq<char> {
        spec_sysop_rundir(self.config.rundir@, self.door.name@)
    }

    /// The engine's binary, which is named when a process fails.
    pub open spec fn spec_engine(&self) -> Seq<char> {
        self.config.engine.path@
    }

    /// The environment of the container: the terminal type.
    pub open spec fn spec_env(&self) -> Seq<(Seq<char>, Seq<char>)> {
        seq![("TERM"@, self.term@)]
    }

    /// The volumes of the container, each host path once: the workspace, the
    /// door's files and the door's lock file.
    pub open spec fn spec_volumes(&self) -> Seq<(Seq<char>, Seq<char>)> {
        spec_with_entry(
            spec_with_entry(
                seq![(self.spec_workspace(), "/mnt/doorman"@)],
                self.door.options.door_path@,
                "/mnt/door"@,
            ),
            self.spec_door_lock(),
            "/mnt/door.lock"@,
        )
    }

    /// The labels of the container: door, command, user and workspace.
    pub open spec fn spec_labels(&self) -> Seq<(Seq<char>, Seq<char>)> {
        seq![
            ("doorman.door"@, self.door.name@),
            ("doorman.command"@, self.command@),
            ("doorman.user"@, self.config.user.username@),
            ("doorman.rundir"@, self.spec_workspace()),
        ]
    }

    /// The command that runs the maintenance: a `run` of the image on the
    /// caller's terminal, with the script named after the operation.
    pub open spec fn spec_run_command(&self) -> CommandLineView {
        CommandLineView {
            program: self.spec_engine(),
            args: seq!["run"@] + spec_run_args(
                self.config.uid,
                self.config.gid,
                self.config.engine.rootless_podman,
                self.spec_env(),
                self.spec_volumes(),
                self.spec_labels(),
            ) + seq!["-ti"@, self.config.dosemu_image@, self.command@ + ".sh"@],
        }
    }

    /// The batch file, `doorman.bat`, which holds the operation's commands.
    pub open spec fn spec_batch_file(&self) -> Result<DosFileView, DoorErrorView> {
        spec_write_dos(
            pairs(self.templates.assets@),
            "doorman.bat"@,
            self.spec_workspace(),
            spec_batch_vars(self.commands@),
        )
    }

    /// The first action of a run: the door's lock, exclusive, waited for
    /// unless the request says not to.
    pub open spec fn spec_first_action(&self) -> DoorActionView {
        DoorActionView::LockExclusive { path: self.spec_door_lock(), wait: !self.nowait }
    }

    /// The state after `event`, and the action that is pending in it.
    ///
    /// A refused lock ends the run with `DoorBusy`. The workspace is emptied
    /// before the batch file is written. The door's lock is released as soon
    /// as the container has been started, not when it ends. A path that
    /// could not be used ends the run with `Io`. `Done` and `Failed` are
    /// final.
    pub open spec fn spec_step(&self, state: MaintenanceStateView, event: DoorEvent) -> (
        MaintenanceStateView,
        DoorActionView,
    ) {
        match state {
            MaintenanceStateView::DoorLockAttempt => match event {
                DoorEvent::Acquired => (
                    MaintenanceStateView::DoorLocked,
                    DoorActionView::ResetWorkspace { dir: self.spec_workspace() },
                ),
                DoorEvent::Refused => spec_abort(
                    DoorErrorView::DoorBusy { door: self.door.name@ },
                ),
                DoorEvent::Failed => spec_abort(DoorErrorView::Io { path: self.spec_door_lock() }),
                _ => spec_abort(DoorErrorView::Unexpected),
            },
            MaintenanceStateView::DoorLocked => match event {
                DoorEvent::Completed => match self.spec_batch_file() {
                    Ok(file) => (
                        MaintenanceStateView::WorkspaceCleared,
                        DoorActionView::WriteFile { file },
                    ),
                    Err(error) => spec_abort(error),
                },
                DoorEvent::Failed => spec_abort(DoorErrorView::Io { path: self.spec_workspace() }),
                _ => spec_abort(DoorErrorView::Unexpected),
            },
            MaintenanceStateView::WorkspaceCleared => match event {
                DoorEvent::Completed => (
                    MaintenanceStateView::WorkspaceStaged,
                    DoorActionView::Spawn { command: self.spec_run_command(), capture: false },
                ),
                DoorEvent::Failed => spec_abort(
                    DoorErrorView::Io {
                        path: joined(self.spec_workspace(), uppercased("doorman.bat"@)),
                    },
                ),
                _ => spec_abort(DoorErrorView::Unexpected),
            },
            MaintenanceStateView::WorkspaceStaged => match event {
                DoorEvent::Completed => (
                    MaintenanceStateView::ContainerRunning,
                    DoorActionView::Unlock { path: self.spec_door_lock() },
                ),
                DoorEvent::Failed => spec_abort(DoorErrorView::Io { path: self.spec_engine() }),
                _ => spec_abort(DoorErrorView::Unexpected),
            },
            MaintenanceStateView::ContainerRunning => match event {
                DoorEvent::Completed => (
                    MaintenanceStateView::Released,
                    DoorActionView::AwaitExit,
                ),
                DoorEvent::Failed => spec_abort(DoorErrorView::Io { path: self.spec_door_lock() }),
                _ => spec_abort(DoorErrorView::Unexpected),
            },
            MaintenanceStateView::Released => match event {
                DoorEvent::Exited { code, output } => (
                    MaintenanceStateView::Done,
                    DoorActionView::Finish,
                ),
                DoorEvent::Failed => spec_abort(DoorErrorView::Io { path: self.spec_engine() }),
                _ => spec_abort(DoorErrorView::Unexpected),
            },
            MaintenanceStateView::Done => (MaintenanceStateView::Done, DoorActionView::Finish),
            MaintenanceStateView::Failed(error) => (
                MaintenanceStateView::Failed(error),
                DoorActionView::Finish,
            ),
        }
    }

    fn door_lock(&self) -> (path: String)
        ensures
            path@ == self.spec_door_lock(),
    {
        door_lock_path(self.config.rundir.as_str(), self.door.name.as_str())
    }

    fn workspace(&self) -> (path: String)
        ensures
            path@ == self.spec_workspace(),
    {
        sysop_rundir(self.config.rundir.as_str(), self.door.name.as_str())
    }

    fn engine_failure(&self) -> (next: (MaintenanceState, DoorAction))
        ensures
            (next.0@, next.1@) == spec_abort(DoorErrorView::Io { path: self.spec_engine() }),
    {
        abort(DoorError::Io { path: self.config.engine.path.clone() })
    }

    /// The command that runs the maintenance.
    pub fn run_command(&self) -> (command: CommandLine)
        ensures
            command@ == self.spec_run_command(),
    {
        let mut env: Vec<(String, String)> = Vec::new();
        env.push(("TERM".to_owned(), self.term.clone()));
        assert(pairs(env@) =~= self.spec_env());

        let mut volumes: Vec<(String, String)> = Vec::new();
        volumes.push((self.workspace(), "/mnt/doorman".to_owned()));
        assert(pairs(volumes@) =~= seq![(self.spec_workspace(), "/mnt/doorman"@)]);
        set_entry(&mut volumes, self.door.options.door_path.clone(), "/mnt/door".to_owned());
        set_entry(&mut volumes, self.door_lock(), "/mnt/door.lock".to_owned());

        let mut labels: Vec<(String, String)> = Vec::new();
        labels.push(("doorman.door".to_owned(), self.door.name.clone()));
        labels.push(("doorman.command".to_owned(), self.command.clone()));
        labels.push(("doorman.user".to_owned(), self.config.user.username.clone()));
        labels.push(("doorman.rundir".to_owned(), self.workspace()));
        assert(pairs(labels@) =~= self.spec_labels());

        let mut command = self.config.run_container(&env, &volumes, &labels);
        let ghost before = command.args@;
        command.args.push("-ti".to_owned());
        command.args.push(self.config.dosemu_image.clone());
        command.args.push(join_text(self.command.as_str(), ".sh"));
        assert(views(command.args@) =~= views(before) + seq![
            "-ti"@,
            self.config.dosemu_image@,
            self.command@ + ".sh"@,
        ]);
        command
    }

    /// The batch file of the run.
    pub fn batch_file(&self) -> (file: Result<DosFile, DoorError>)
        ensures
            file_result(file) == self.spec_batch_file(),
    {
        let dir = self.workspace();
        self.templates.write_dos("doorman.bat", dir.as_str(), &batch_vars(self.commands.as_str()))
    }

    /// The first action of the run.
    pub fn first_action(&self) -> (action: DoorAction)
        ensures
            action@ == self.spec_first_action(),
    {
        DoorAction::LockExclusive { path: self.door_lock(), wait: !self.nowait }
    }

    /// Takes the outcome of the pending action and hands out the next
    /// state and the action that is pending in it.
    pub fn step(&self, state: MaintenanceState, event: DoorEvent) -> (next: (
        MaintenanceState,
        DoorAction,
    ))
        ensures
            (next.0@, next.1@) == self.spec_step(state@, event),
    {
        match state {
            MaintenanceState::DoorLockAttempt => match event {
                DoorEvent::Acquired => (
                    MaintenanceState::DoorLocked,
                    DoorAction::ResetWorkspace { dir: self.workspace() },
                ),
                DoorEvent::Refused => abort(DoorError::DoorBusy { door: self.door.name.clone() }),
                DoorEvent::Failed => abort(DoorError::Io { path: self.door_lock() }),
                _ => abort(DoorError::Unexpected),
            },
            MaintenanceState::DoorLocked => match event {
                DoorEvent::Completed => match self.batch_file() {
                    Ok(file) => (
                        MaintenanceState::WorkspaceCleared,
                        DoorAction::WriteFile { file },
                    ),
                    Err(error) => abort(error),
                },
                DoorEvent::Failed => abort(DoorError::Io { path: self.workspace() }),
                _ => abort(DoorError::Unexpected),
            },
            MaintenanceState::WorkspaceCleared => match event {
                DoorEvent::Completed => (
                    MaintenanceState::WorkspaceStaged,
                    DoorAction::Spawn { command: self.run_command(), capture: false },
                ),
                DoorEvent::Failed => {
                    let dir = self.workspace();
                    let upper = "doorman.bat".to_uppercase();
                    abort(DoorError::Io { path: join_path(dir.as_str(), upper.as_str()) })
                },
                _ => abort(DoorError::Unexpected),
            },
            MaintenanceState::WorkspaceStaged => match event {
                DoorEvent::Completed => (
                    MaintenanceState::ContainerRunning,
                    DoorAction::Unlock { path: self.door_lock() },
                ),
                DoorEvent::Failed => self.engine_failure(),
                _ => abort(DoorError::Unexpected),
            },
            MaintenanceState::ContainerRunning => match event {
                DoorEvent::Completed => (MaintenanceState::Released, DoorAction::AwaitExit),
                DoorEvent::Failed => abort(DoorError::Io { path: self.door_lock() }),
                _ => abort(DoorError::Unexpected),
            },
            MaintenanceState::Released => match event {
                DoorEvent::Exited { code, output } => (MaintenanceState::Done, DoorAction::Finish),
                DoorEvent::Failed => self.engine_failure(),
                _ => abort(DoorError::Unexpected),
            },
            MaintenanceState::Done => (MaintenanceState::Done, DoorAction::Finish),
            MaintenanceState::Failed(error) => (MaintenanceState::Failed(error), DoorAction::Finish),
        }
    }
}

/// Why a maintenance run cannot start, if it cannot: the caller is no
/// sysop; or the door has no commands for the operation.
pub open spec fn spec_sysop_error(
    config: Config,
    door: Door,
    command: Seq<char>,
    template: Option<String>,
) -> Option<DoorErrorView> {
    if !config.spec_is_sysop() {
        Some(DoorErrorView::PermissionDenied)
    } else if template is None {
        Some(DoorErrorView::NotConfigured { command, door: door.name@ })
    } else {
        None
    }
}

/// Whether `started` is what a request for the operation `command` on
/// `door` leads to: the error that `spec_sysop_error` names; or else the run
/// of the operation's commands, with the door's exclusive lock as its first
/// action.
pub open spec fn spec_sysop_started(
    args: SysopCmdArgs,
    config: &Config,
    door: Door,
    command: Seq<char>,
    template: Option<String>,
    term: Option<String>,
    templates: Templates,
    started: Result<(Maintenance, DoorAction), DoorError>,
) -> bool {
    match spec_sysop_error(*config, door, command, template) {
        Some(error) => started is Err && started->Err_0@ == error,
        None => {
            &&& started matches Ok((run, action))
            &&& run.config == config
            &&& run.door == door
            &&& run.command@ == command
            &&& Some(run.commands) == template
            &&& run.nowait == args.nowait
            &&& run.term@ == match term {
                Some(t) => t@,
                None => "xterm"@,
            }
            &&& run.templates == templates
            &&& action@ == run.spec_first_action()
        },
    }
}

/// Starts the maintenance operation `command` of a door, whose commands are
/// `template`. Only a sysop may, and only an operation that the door has
/// commands for; both are settled before any lock is asked for.
pub fn sysop_command<'a>(
    args: &SysopCmdArgs,
    config: &'a Config,
    door: Door,
    command: &str,
    template: &Option<String>,
    term: Option<String>,
    templates: Templates,
) -> (started: Result<(Maintenance<'a>, DoorAction), DoorError>)
    ensures
        spec_sysop_started(*args, config, door, command@, *template, term, templates, started),
{
    if !config.is_sysop() {
        return Err(DoorError::PermissionDenied);
    }
    let commands = match template {
        Some(commands) => commands.clone(),
        None => {
            return Err(
                DoorError::NotConfigured { command: command.to_owned(), door: door.name.clone() },
            );
        },
    };
    let run = Maintenance {
        config,
        door,
        command: command.to_owned(),
        commands,
        nowait: args.nowait,
        term: get_term(term),
        templates,
    };
    let action = run.first_action();
    Ok((run, action))
}

/// Whether `started` is what a request for an operation leads to, where
/// `template` tells the operation's commands of a door: the error that the
/// door is unknown, or what `sysop_command` gives for the door.
pub open spec fn spec_maintenance_started(
    args: SysopCmdArgs,
    config: &Config,
    command: Seq<char>,
    template: spec_fn(Door) -> Option<String>,
    term: Option<String>,
    templates: Templates,
    started: Result<(Maintenance, DoorAction), DoorError>,
) -> bool {
    match spec_find_door(config.doors@, args.door@) {
        Some(door) => spec_sysop_started(
            args,
            config,
            door,
            command,
            template(door),
            term,
            templates,
            started,
        ),
        None => started is Err && started->Err_0@ == (DoorErrorView::UnknownDoor {
            door: args.door@,
        }),
    }
}

/// Starts a door's configuration program: the operation `configure`, with
/// the door's `configure_commands`.
pub fn configure<'a>(
    args: &SysopCmdArgs,
    config: &'a Config,
    term: Option<String>,
    templates: Templates,
) -> (started: Result<(Maintenance<'a>, DoorAction), DoorError>)
    ensures
        spec_maintenance_started(
            *args,
            config,
            "configure"@,
            |door: Door| door.options.configure_commands,
            term,
            templates,
            started,
        ),
{
    let door = match config.get_door(args.door.as_str()) {
        Ok(door) => door,
        Err(error) => {
            return Err(error);
        },
    };
    let template = crate::text::clone_opt(&door.options.configure_commands);
    sysop_command(args, config, door, "configure", &template, term, templates)
}

/// Starts a door's nightly maintenance: the operation `nightly`, with the
/// door's `nightly_commands`.
pub fn nightly<'a>(
    args: &SysopCmdArgs,
    config: &'a Config,
    term: Option<String>,
    templates: Templates,
) -> (started: Result<(Maintenance<'a>, DoorAction), DoorError>)
    ensures
        spec_maintenance_started(
            *args,
            config,
            "nightly"@,
            |door: Door| door.options.nightly_commands,
            term,
            templates,
            started,
        ),
{
    let door = match config.get_door(args.door.as_str()) {
        Ok(door) => door,
        Err(error) => {
            return Err(error);
        },
    };
    let template = crate::text::clone_opt(&door.options.nightly_commands);
    sysop_command(args, config, door, "nightly", &template, term, templates)
}

// ---------------------------------------------------------------------------
// What the protocol guarantees
// ---------------------------------------------------------------------------

impl SessionStateView {
    /// Whether the session holds the door's lock, shared: from the scan of
    /// the nodes to the caller's stay in the door.
    pub open spec fn holds_door(self) -> bool {
        !(self is Idle || self is Done || self is Failed)
    }

    /// Whether the session holds the lock of a node, and which: from the
    /// claim until the door is ready in its container.
    pub open spec fn holds_node(self) -> Option<i8> {
        match self {
            SessionStateView::NodeClaimed { node } => Some(node),
            SessionStateView::WorkspaceCleared { node } => Some(node),
            SessionStateView::DropFileWritten { node } => Some(node),
            SessionStateView::WorkspaceStaged { node } => Some(node),
            SessionStateView::ContainerStarting { node } => Some(node),
            SessionStateView::ContainerReady { node, container } => Some(node),
            _ => None,
        }
    }

    /// Whether the session is over.
    pub open spec fn is_final(self) -> bool {
        self is Done || self is Failed
    }
}

/// Locks are taken door first, node second: a node's lock is asked for only
/// by a session that holds the door's lock, and the door's lock is got in
/// no other way than by the grant of the session's first request.
pub proof fn lemma_door_before_node(session: Session, state: SessionStateView, event: DoorEvent)
    ensures
        session.spec_step(state, event).1 is LockExclusive ==> session.spec_step(
            state,
            event,
        ).0.holds_door(),
        session.spec_step(state, event).0.holds_door() ==> state.holds_door() || (state is Idle
            && event is Acquired),
        !(session.spec_step(state, event).1 is LockShared),
{
}

/// A node is claimed only by the grant of its lock, is held while its
/// workspace is staged and its container started, and is given back before
/// the caller enters the door: the caller's stay begins only once the
/// release of the lock of the session's node has succeeded.
pub proof fn lemma_node_lock(session: Session, state: SessionStateView, event: DoorEvent)
    ensures
        ({
            let next = session.spec_step(state, event);
            &&& next.0.holds_node() is Some && state.holds_node() is None ==> state
                == (SessionStateView::NodeScanning { node: next.0.holds_node()->0 }) && event
                is Acquired
            &&& next.0.holds_node() is Some && state.holds_node() is Some ==> next.0.holds_node()
                == state.holds_node()
            &&& next.0 is ContainerReady ==> next.1 == (DoorActionView::Unlock {
                path: session.spec_node_lock(next.0.holds_node()->0),
            })
            &&& next.0 is Attached ==> state is ContainerReady && event is Completed
            &&& next.1 is Unlock ==> next.0 is ContainerReady
        }),
{
}

/// A session that is over stays as it is and asks for nothing more; a
/// session that is not over asks for more than nothing.
pub proof fn lemma_final(session: Session, state: SessionStateView, event: DoorEvent)
    ensures
        state.is_final() ==> session.spec_step(state, event) == (state, DoorActionView::Finish),
        session.spec_step(state, event).1 is Finish <==> session.spec_step(
            state,
            event,
        ).0.is_final(),
{
}

/// The volumes of a play session name each host path once.
pub proof fn lemma_volumes_distinct(session: Session, node: i8)
    ensures
        crate::config::distinct_keys(session.spec_volumes(node)),
{
    let first = seq![(session.spec_workspace(node), "/mnt/doorman"@)];
    let second = spec_with_entry(first, session.door.options.door_path@, "/mnt/door"@);
    let third = spec_with_entry(second, session.spec_door_lock(), "/mnt/door.lock"@);
    crate::config::lemma_with_entry(first, session.door.options.door_path@, "/mnt/door"@);
    crate::config::lemma_with_entry(second, session.spec_door_lock(), "/mnt/door.lock"@);
    crate::config::lemma_with_entry(third, session.spec_node_lock(node), "/mnt/node.lock"@);
}

impl Session {
    /// A bound on the number of actions that a session in this state still
    /// asks for.
    pub open spec fn spec_remaining(&self, state: SessionStateView) -> nat {
        match state {
            SessionStateView::Idle => (10 + if self.door.options.max_nodes > 0 {
                self.door.options.max_nodes as int
            } else {
                0
            }) as nat,
            SessionStateView::NodeScanning { node } => (9 + if node <= self.door.options.max_nodes {
                self.door.options.max_nodes - node
            } else {
                0
            }) as nat,
            SessionStateView::NodeClaimed { node } => 8,
            SessionStateView::WorkspaceCleared { node } => 7,
            SessionStateView::DropFileWritten { node } => 6,
            SessionStateView::WorkspaceStaged { node } => 5,
            SessionStateView::ContainerStarting { node } => 4,
            SessionStateView::ContainerReady { node, container } => 3,
            SessionStateView::Attached { node, container } => 2,
            SessionStateView::Done => 0,
            SessionStateView::Failed(error) => 0,
        }
    }
}

/// Nothing is tried twice: with every outcome a session that is not over
/// comes closer to its end, so that it is over after at most as many
/// actions as the door has nodes, and ten more.
pub proof fn lemma_progress(session: Session, state: SessionStateView, event: DoorEvent)
    requires
        !state.is_final(),
    ensures
        session.spec_remaining(session.spec_step(state, event).0) < session.spec_remaining(state),
{
}

/// The files of a workspace: what stands at each path.
pub type Files = Map<Seq<char>, Seq<u8>>;

/// What an action that is carried out leaves of the files of the workspace
/// `dir`: to reset the workspace leaves none, to write a file adds it.
pub open spec fn spec_effect(files: Files, dir: Seq<char>, action: DoorActionView) -> Files {
    match action {
        DoorActionView::ResetWorkspace { dir: reset } => if reset == dir {
            Map::empty()
        } else {
            files
        },
        DoorActionView::WriteFile { file } => files.insert(file.path, file.bytes),
        _ => files,
    }
}

/// The files of the workspace of `node` once a session has claimed the node
/// and staged its workspace as far as it got, every action having
/// succeeded, where `files` stood there before.
pub open spec fn spec_staged(session: Session, node: i8, files: Files) -> Files {
    let dir = session.spec_workspace(node);
    let claimed = session.spec_step(
        SessionStateView::NodeScanning { node },
        DoorEvent::Acquired,
    );
    let cleared = session.spec_step(claimed.0, DoorEvent::Completed);
    let dropped = session.spec_step(cleared.0, DoorEvent::Completed);
    spec_effect(
        spec_effect(spec_effect(files, dir, claimed.1), dir, cleared.1),
        dir,
        dropped.1,
    )
}

/// A workspace is never reused: whatever stood in it before a claim, after
/// the claim it holds what the session wrote and nothing else. The first
/// thing a claim does to its workspace is to empty it.
pub proof fn lemma_workspace_fresh(session: Session, node: i8, files: Files)
    ensures
        session.spec_step(SessionStateView::NodeScanning { node }, DoorEvent::Acquired).1
            == (DoorActionView::ResetWorkspace { dir: session.spec_workspace(node) }),
        spec_staged(session, node, files) == spec_staged(session, node, Map::empty()),
        forall|path: Seq<char>| #[trigger]
            spec_staged(session, node, files).contains_key(path) ==> path
                == session.spec_file_path(node, "door.sys"@) || path == session.spec_file_path(
                node,
                "doorman.bat"@,
            ),
{
}

/// A file is written only into a workspace that the session has emptied:
/// the action that follows the claim of a node is the reset of its
/// workspace, and only the two states after it hand out a file.
pub proof fn lemma_write_after_reset(session: Session, state: SessionStateView, event: DoorEvent)
    ensures
        session.spec_step(state, event).1 is WriteFile ==> event is Completed && (state
            is NodeClaimed || state is WorkspaceCleared),
        session.spec_step(state, event).0 is NodeClaimed ==> session.spec_step(state, event).1
            is ResetWorkspace,
{
}

impl MaintenanceStateView {
    /// Whether the run holds the door's lock, exclusively: from the grant
    /// until the container has been started.
    pub open spec fn holds_door(self) -> bool {
        self is DoorLocked || self is WorkspaceCleared || self is WorkspaceStaged
            || self is ContainerRunning
    }
}

/// Maintenance touches the workspace and starts its container only while
/// it holds the door's lock, which it gets in no other way than by the
/// grant of its first request, and gives back as soon as the container has
/// been started.
pub proof fn lemma_maintenance_lock(run: Maintenance, state: MaintenanceStateView, event: DoorEvent)
    ensures
        ({
            let next = run.spec_step(state, event);
            &&& next.0.holds_door() ==> state.holds_door() || (state is DoorLockAttempt && event
                is Acquired)
            &&& (next.1 is ResetWorkspace || next.1 is WriteFile || next.1 is Spawn)
                ==> next.0.holds_door()
            &&& next.0 is ContainerRunning ==> next.1 == (DoorActionView::Unlock {
                path: run.spec_door_lock(),
            })
            &&& next.0 is Released ==> state is ContainerRunning && event is Completed
        }),
{
}

} // verus!
