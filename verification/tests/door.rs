use doorman::action::{DoorAction, DoorEvent};
use doorman::args::{LaunchArgs, SysopCmdArgs};
use doorman::config::{CommandLine, Config, Door, DoorOptions};
use doorman::container::ContainerEngine;
use doorman::door::{
    batch_vars, configure, door_lock_path, get_term, launch, launch_at, launch_vars, nightly,
    node_lock_path, node_rundir, sysop_command, sysop_rundir, Maintenance, MaintenanceState,
    Session, SessionState,
};
use doorman::dos::{DosFile, Templates};
use doorman::error::DoorError;
use doorman::json::Json;
use doorman::locks::{LockFile, LockMode};
use doorman::user::User;
use std::collections::BTreeMap;

fn alice() -> User {
    User { uid: 1000, username: "alice".to_string(), display_name: "Alice A".to_string() }
}

fn lord(max_nodes: i8) -> Door {
    Door {
        name: "lord".to_string(),
        options: DoorOptions {
            door_path: "/doors/lord".to_string(),
            max_nodes,
            launch_commands: "lord.exe /n{{node}} {{user.username}}".to_string(),
            configure_commands: Some("lordcfg.exe".to_string()),
            nightly_commands: None,
        },
    }
}

fn config(caller: User, max_nodes: i8) -> Config {
    Config {
        datadir: "/var/lib/doorman".to_string(),
        rundir: "/run/doorman".to_string(),
        user: caller,
        dosemu_image: "img".to_string(),
        uid: 1000,
        gid: 100,
        sysops: vec!["sysop".to_string()],
        doors: vec![lord(max_nodes)],
        engine: ContainerEngine { path: "/usr/bin/podman".to_string(), rootless_podman: true },
    }
}

fn templates() -> Templates {
    Templates::new(vec![
        (
            "door.sys.hbr".to_string(),
            "{{user.display_name}}\n{{node}}\n{{current_time}}\n".to_string(),
        ),
        ("doorman.bat.hbr".to_string(), "@echo off\n{{commands}}\n".to_string()),
    ])
}

fn play(door: &str) -> LaunchArgs {
    LaunchArgs { door: door.to_string(), user: None, user_id: None, display_name: None, raw: false }
}

fn start(max_nodes: i8) -> (Session, DoorAction) {
    launch_at(
        &play("lord"),
        config(alice(), max_nodes),
        None,
        Some("ansi".to_string()),
        templates(),
        "12:34".to_string(),
    )
    .unwrap()
}

fn strings(items: &[&str]) -> Vec<String> {
    items.iter().map(|s| s.to_string()).collect()
}

/// The outside world of the tests: lock files, workspace files, and
/// containers that print their number as their id.
struct World {
    locks: BTreeMap<String, LockFile>,
    files: BTreeMap<String, Vec<u8>>,
    started: u32,
}

impl World {
    fn new() -> World {
        World { locks: BTreeMap::new(), files: BTreeMap::new(), started: 0 }
    }

    fn lock(&mut self, path: &str, mode: LockMode) -> DoorEvent {
        let file = self.locks.entry(path.to_string()).or_insert_with(LockFile::new);
        if file.try_lock(mode) {
            DoorEvent::Acquired
        } else {
            DoorEvent::Refused
        }
    }

    fn perform(&mut self, action: &DoorAction) -> DoorEvent {
        match action {
            DoorAction::LockShared { path } => self.lock(path, LockMode::Shared),
            DoorAction::LockExclusive { path, .. } => self.lock(path, LockMode::Exclusive),
            DoorAction::ResetWorkspace { dir } => {
                let inside = format!("{}/", dir);
                self.files.retain(|path, _| !path.starts_with(&inside));
                DoorEvent::Completed
            }
            DoorAction::WriteFile { file } => {
                self.files.insert(file.path.clone(), file.bytes.clone());
                DoorEvent::Completed
            }
            DoorAction::Spawn { .. } => {
                self.started += 1;
                DoorEvent::Completed
            }
            DoorAction::AwaitExit => DoorEvent::Exited {
                code: Some(0),
                output: format!("c{}\n", self.started).into_bytes(),
            },
            DoorAction::Unlock { path } => {
                self.locks.get_mut(path).unwrap().unlock(LockMode::Exclusive);
                DoorEvent::Completed
            }
            DoorAction::Run { .. } => DoorEvent::Completed,
            DoorAction::Finish => panic!("nothing is pending"),
        }
    }

    fn held(&self, path: &str) -> LockFile {
        self.locks.get(path).copied().unwrap_or(LockFile::new())
    }
}

/// Runs a session from its first action until it is over or `stop` holds.
fn run(
    world: &mut World,
    session: &Session,
    first: DoorAction,
    stop: fn(&SessionState) -> bool,
) -> (SessionState, DoorAction) {
    let mut state = SessionState::Idle;
    let mut action = first;
    loop {
        if action == DoorAction::Finish || stop(&state) {
            return (state, action);
        }
        let event = world.perform(&action);
        let next = session.step(state, event);
        state = next.0;
        action = next.1;
    }
}

fn claimed(state: &SessionState) -> bool {
    matches!(state, SessionState::NodeClaimed { .. })
}

fn attached(state: &SessionState) -> bool {
    matches!(state, SessionState::Attached { .. })
}

fn staged(state: &SessionState) -> bool {
    matches!(state, SessionState::WorkspaceStaged { .. })
}

fn never(_: &SessionState) -> bool {
    false
}

fn all_busy() -> SessionState {
    SessionState::Failed(DoorError::AllNodesBusy { door: "lord".to_string() })
}

#[test]
fn paths_are_built_from_run_directory_door_and_node() {
    assert_eq!(door_lock_path("/run/doorman", "lord"), "/run/doorman/lord.lock");
    assert_eq!(node_lock_path("/run/doorman", "lord", 2), "/run/doorman/lord.2.lock");
    assert_eq!(node_rundir("/run/doorman", "lord", 127), "/run/doorman/lord.127");
    assert_eq!(sysop_rundir("/run/doorman/", "lord"), "/run/doorman/lord.sysop");
}

#[test]
fn the_terminal_defaults_to_xterm() {
    assert_eq!(get_term(Some("vt100".to_string())), "vt100");
    assert_eq!(get_term(None), "xterm");
}

#[test]
fn launch_vars_hold_user_node_and_time() {
    let object = |members: Vec<(&str, Json)>| {
        Json::Object(members.into_iter().map(|(k, v)| (k.to_string(), v)).collect())
    };
    assert_eq!(
        launch_vars(&alice(), 2, "23:59"),
        object(vec![
            (
                "user",
                object(vec![
                    ("uid", Json::Number(Some(1000))),
                    ("username", Json::Text("alice".to_string())),
                    ("display_name", Json::Text("Alice A".to_string())),
                ]),
            ),
            ("node", Json::Number(Some(2))),
            ("current_time", Json::Text("23:59".to_string())),
        ])
    );
    assert_eq!(
        batch_vars("dir"),
        object(vec![("commands", Json::Text("dir".to_string()))])
    );
}

#[test]
fn launch_starts_with_the_shared_lock_of_the_door() {
    let (session, action) = start(2);
    assert_eq!(action, DoorAction::LockShared { path: "/run/doorman/lord.lock".to_string() });
    assert_eq!(session.door, lord(2));
    assert_eq!(session.config, config(alice(), 2));
    assert_eq!(session.term, "ansi");
    assert_eq!(session.current_time, "12:34");
    assert!(!session.raw);
    assert_eq!(session.first_action(), action);
}

#[test]
fn launch_reads_the_clock() {
    let (session, action) = launch(&play("lord"), config(alice(), 2), None, None, templates()).unwrap();
    assert_eq!(action, DoorAction::LockShared { path: "/run/doorman/lord.lock".to_string() });
    assert_eq!(session.term, "xterm");
    let time: Vec<char> = session.current_time.chars().collect();
    assert_eq!(time.len(), 5);
    assert_eq!(time[2], ':');
    assert!(time[0].is_ascii_digit() && time[1].is_ascii_digit());
    assert!(time[3].is_ascii_digit() && time[4].is_ascii_digit());
}

#[test]
fn launch_reports_an_unknown_door() {
    let started = launch_at(&play("zork"), config(alice(), 2), None, None, templates(), "00:00".to_string());
    assert_eq!(started, Err(DoorError::UnknownDoor { door: "zork".to_string() }));
}

#[test]
fn launch_for_another_user_is_for_sysops_only() {
    let mallory = User { uid: 2000, username: "mallory".to_string(), display_name: "M".to_string() };
    let mut args = play("lord");
    args.display_name = Some("Alice".to_string());
    let started = launch_at(&args, config(mallory, 2), None, None, templates(), "00:00".to_string());
    assert_eq!(started, Err(DoorError::PermissionDenied));
}

#[test]
fn launch_reports_an_unknown_door_before_a_missing_permission() {
    let mallory = User { uid: 2000, username: "mallory".to_string(), display_name: "M".to_string() };
    let mut args = play("zork");
    args.user = Some("alice".to_string());
    let started = launch_at(&args, config(mallory, 2), None, None, templates(), "00:00".to_string());
    assert_eq!(started, Err(DoorError::UnknownDoor { door: "zork".to_string() }));
}

#[test]
fn launch_reports_an_account_that_does_not_exist() {
    let mut args = play("lord");
    args.user = Some("ghost".to_string());
    let started = launch_at(&args, config(alice(), 2), None, None, templates(), "00:00".to_string());
    assert_eq!(started, Err(DoorError::UnknownUser));
}

#[test]
fn launch_switches_to_the_user_that_was_asked_for() {
    let bob = User { uid: 7, username: "bob".to_string(), display_name: "Bob".to_string() };
    let mut args = play("lord");
    args.user = Some("bob".to_string());
    args.raw = true;
    let (session, _) =
        launch_at(&args, config(alice(), 2), Some(bob.clone()), None, templates(), "00:00".to_string())
            .unwrap();
    assert_eq!(session.config.user, bob);
    assert!(session.raw);
}

#[test]
fn a_session_runs_from_the_lock_of_the_door_to_the_end() {
    let (session, first) = start(2);
    let lock = |path: &str| DoorAction::LockExclusive { path: path.to_string(), wait: false };

    let next = session.step(SessionState::Idle, DoorEvent::Acquired);
    assert_eq!(next, (SessionState::NodeScanning { node: 1 }, lock("/run/doorman/lord.1.lock")));
    let next = session.step(next.0, DoorEvent::Acquired);
    assert_eq!(
        next,
        (
            SessionState::NodeClaimed { node: 1 },
            DoorAction::ResetWorkspace { dir: "/run/doorman/lord.1".to_string() },
        )
    );
    let next = session.step(next.0, DoorEvent::Completed);
    assert_eq!(
        next,
        (
            SessionState::WorkspaceCleared { node: 1 },
            DoorAction::WriteFile {
                file: DosFile {
                    path: "/run/doorman/lord.1/DOOR.SYS".to_string(),
                    bytes: b"Alice A\r\n1\r\n12:34\r\n".to_vec(),
                },
            },
        )
    );
    let next = session.step(next.0, DoorEvent::Completed);
    assert_eq!(
        next,
        (
            SessionState::DropFileWritten { node: 1 },
            DoorAction::WriteFile {
                file: DosFile {
                    path: "/run/doorman/lord.1/DOORMAN.BAT".to_string(),
                    bytes: b"@echo off\r\nlord.exe /n1 alice\r\n".to_vec(),
                },
            },
        )
    );
    let next = session.step(next.0, DoorEvent::Completed);
    assert_eq!(
        next,
        (
            SessionState::WorkspaceStaged { node: 1 },
            DoorAction::Spawn {
                command: CommandLine {
                    program: "/usr/bin/podman".to_string(),
                    args: strings(&[
                        "run",
                        "--user=1000:100",
                        "--tmpfs=/run/user",
                        "--tmpfs=/tmp",
                        "--tmpfs=/var/tmp",
                        "-v/run/doorman/lord.1:/mnt/doorman",
                        "-v/doors/lord:/mnt/door",
                        "-v/run/doorman/lord.lock:/mnt/door.lock",
                        "-v/run/doorman/lord.1.lock:/mnt/node.lock",
                        "-eTERM=ansi",
                        "-eDOORMAN_RAW=0",
                        "-ldoorman.door=lord",
                        "-ldoorman.node=1",
                        "-ldoorman.user=alice",
                        "-ldoorman.rundir=/run/doorman/lord.1",
                        "--userns=keep-id",
                        "--passwd=false",
                        "-d",
                        "img",
                        "wait-for-launch.sh",
                    ]),
                },
                capture: true,
            },
        )
    );
    let next = session.step(next.0, DoorEvent::Completed);
    assert_eq!(next, (SessionState::ContainerStarting { node: 1 }, DoorAction::AwaitExit));
    let next = session.step(
        next.0,
        DoorEvent::Exited { code: Some(0), output: b"  0123abc\n".to_vec() },
    );
    assert_eq!(
        next,
        (
            SessionState::ContainerReady { node: 1, container: "0123abc".to_string() },
            DoorAction::Unlock { path: "/run/doorman/lord.1.lock".to_string() },
        )
    );
    let next = session.step(next.0, DoorEvent::Completed);
    assert_eq!(
        next,
        (
            SessionState::Attached { node: 1, container: "0123abc".to_string() },
            DoorAction::Run {
                command: CommandLine {
                    program: "/usr/bin/podman".to_string(),
                    args: strings(&["exec", "-ti", "0123abc", "launch.sh"]),
                },
            },
        )
    );
    let next = session.step(next.0, DoorEvent::Completed);
    assert_eq!(next, (SessionState::Done, DoorAction::Finish));
    assert_eq!(first, session.first_action());
}

#[test]
fn a_raw_session_says_so_in_its_environment() {
    let mut args = play("lord");
    args.raw = true;
    let (session, _) =
        launch_at(&args, config(alice(), 2), None, None, templates(), "00:00".to_string()).unwrap();
    let command = session.run_command(2);
    assert!(command.args.contains(&"-eDOORMAN_RAW=1".to_string()));
    assert!(command.args.contains(&"-eTERM=xterm".to_string()));
    assert!(command.args.contains(&"-ldoorman.node=2".to_string()));
}

#[test]
fn a_host_path_is_mounted_once() {
    let mut settings = config(alice(), 2);
    settings.doors[0].options.door_path = "/run/doorman/lord.1".to_string();
    let (session, _) =
        launch_at(&play("lord"), settings, None, None, templates(), "00:00".to_string()).unwrap();
    let volumes: Vec<String> =
        session.run_command(1).args.into_iter().filter(|a| a.starts_with("-v")).collect();
    assert_eq!(
        volumes,
        strings(&[
            "-v/run/doorman/lord.1:/mnt/door",
            "-v/run/doorman/lord.lock:/mnt/door.lock",
            "-v/run/doorman/lord.1.lock:/mnt/node.lock",
        ])
    );
}

#[test]
fn a_refused_door_lock_means_that_the_door_is_busy() {
    let (session, _) = start(2);
    assert_eq!(
        session.step(SessionState::Idle, DoorEvent::Refused),
        (SessionState::Failed(DoorError::DoorBusy { door: "lord".to_string() }), DoorAction::Finish)
    );
}

#[test]
fn a_refused_node_lock_leads_to_the_next_node() {
    let (session, _) = start(2);
    assert_eq!(
        session.step(SessionState::NodeScanning { node: 1 }, DoorEvent::Refused),
        (
            SessionState::NodeScanning { node: 2 },
            DoorAction::LockExclusive { path: "/run/doorman/lord.2.lock".to_string(), wait: false },
        )
    );
}

#[test]
fn a_refused_lock_of_the_last_node_means_that_all_nodes_are_busy() {
    let (session, _) = start(2);
    assert_eq!(
        session.step(SessionState::NodeScanning { node: 2 }, DoorEvent::Refused),
        (all_busy(), DoorAction::Finish)
    );
}

#[test]
fn a_door_without_nodes_is_always_busy() {
    let (session, _) = start(0);
    assert_eq!(session.step(SessionState::Idle, DoorEvent::Acquired), (all_busy(), DoorAction::Finish));
    let (session, _) = start(-3);
    assert_eq!(session.step(SessionState::Idle, DoorEvent::Acquired), (all_busy(), DoorAction::Finish));
}

#[test]
fn the_scan_ends_at_the_highest_node_number() {
    let (session, _) = start(127);
    assert_eq!(
        session.step(SessionState::NodeScanning { node: 127 }, DoorEvent::Refused),
        (all_busy(), DoorAction::Finish)
    );
}

#[test]
fn a_container_that_fails_to_start_fails_the_launch() {
    let (session, _) = start(2);
    for code in [Some(1), Some(125), Some(-1), None] {
        assert_eq!(
            session.step(
                SessionState::ContainerStarting { node: 1 },
                DoorEvent::Exited { code, output: b"abc\n".to_vec() },
            ),
            (
                SessionState::Failed(DoorError::LaunchFailed { door: "lord".to_string(), code }),
                DoorAction::Finish,
            )
        );
    }
}

#[test]
fn a_container_id_that_is_no_text_fails_the_launch() {
    let (session, _) = start(2);
    assert_eq!(
        session.step(
            SessionState::ContainerStarting { node: 1 },
            DoorEvent::Exited { code: Some(0), output: vec![0xff, 0xfe] },
        ),
        (
            SessionState::Failed(DoorError::LaunchFailed { door: "lord".to_string(), code: Some(0) }),
            DoorAction::Finish,
        )
    );
}

#[test]
fn a_missing_container_id_fails_the_launch() {
    let (session, _) = start(2);
    for output in ["", "\n", "  \t\r\n"] {
        assert_eq!(
            session.step(
                SessionState::ContainerStarting { node: 1 },
                DoorEvent::Exited { code: Some(0), output: output.as_bytes().to_vec() },
            ),
            (
                SessionState::Failed(DoorError::LaunchFailed {
                    door: "lord".to_string(),
                    code: Some(0),
                }),
                DoorAction::Finish,
            )
        );
    }
}

#[test]
fn a_failure_names_the_path_that_could_not_be_used() {
    let (session, _) = start(2);
    let failed = |state: SessionState| match session.step(state, DoorEvent::Failed) {
        (SessionState::Failed(DoorError::Io { path }), DoorAction::Finish) => path,
        other => panic!("{:?}", other),
    };
    let id = || "c1".to_string();
    assert_eq!(failed(SessionState::Idle), "/run/doorman/lord.lock");
    assert_eq!(failed(SessionState::NodeScanning { node: 2 }), "/run/doorman/lord.2.lock");
    assert_eq!(failed(SessionState::NodeClaimed { node: 2 }), "/run/doorman/lord.2");
    assert_eq!(failed(SessionState::WorkspaceCleared { node: 2 }), "/run/doorman/lord.2/DOOR.SYS");
    assert_eq!(failed(SessionState::DropFileWritten { node: 2 }), "/run/doorman/lord.2/DOORMAN.BAT");
    assert_eq!(failed(SessionState::WorkspaceStaged { node: 2 }), "/usr/bin/podman");
    assert_eq!(failed(SessionState::ContainerStarting { node: 2 }), "/usr/bin/podman");
    assert_eq!(
        failed(SessionState::ContainerReady { node: 2, container: id() }),
        "/run/doorman/lord.2.lock"
    );
    assert_eq!(failed(SessionState::Attached { node: 2, container: id() }), "/usr/bin/podman");
}

#[test]
fn an_outcome_that_the_pending_action_cannot_have_ends_the_session() {
    let (session, _) = start(2);
    let unexpected = (SessionState::Failed(DoorError::Unexpected), DoorAction::Finish);
    assert_eq!(session.step(SessionState::Idle, DoorEvent::Completed), unexpected);
    assert_eq!(session.step(SessionState::NodeClaimed { node: 1 }, DoorEvent::Acquired), unexpected);
    assert_eq!(session.step(SessionState::ContainerStarting { node: 1 }, DoorEvent::Completed), unexpected);
    assert_eq!(
        session.step(
            SessionState::Idle,
            DoorEvent::Exited { code: Some(0), output: vec![] },
        ),
        unexpected
    );
}

#[test]
fn a_session_that_is_over_stays_over() {
    let (session, _) = start(2);
    for event in [DoorEvent::Acquired, DoorEvent::Refused, DoorEvent::Completed, DoorEvent::Failed] {
        assert_eq!(session.step(SessionState::Done, event), (SessionState::Done, DoorAction::Finish));
    }
    assert_eq!(
        session.step(SessionState::Failed(DoorError::PermissionDenied), DoorEvent::Acquired),
        (SessionState::Failed(DoorError::PermissionDenied), DoorAction::Finish)
    );
}

#[test]
fn a_missing_template_ends_the_session_before_anything_is_written() {
    let (mut session, _) = start(2);
    session.templates = Templates::new(vec![]);
    assert_eq!(
        session.step(SessionState::NodeClaimed { node: 1 }, DoorEvent::Completed),
        (
            SessionState::Failed(DoorError::UnknownTemplate { name: "door.sys".to_string() }),
            DoorAction::Finish,
        )
    );
}

#[test]
fn launch_commands_that_cannot_be_rendered_end_the_session() {
    let (mut session, _) = start(2);
    session.door.options.launch_commands = "{{#each}".to_string();
    assert_eq!(
        session.step(SessionState::WorkspaceCleared { node: 1 }, DoorEvent::Completed),
        (SessionState::Failed(DoorError::Render), DoorAction::Finish)
    );
    session.door.options.launch_commands = "{{> other}}".to_string();
    assert_eq!(
        session.step(SessionState::WorkspaceCleared { node: 1 }, DoorEvent::Completed),
        (SessionState::Failed(DoorError::Render), DoorAction::Finish)
    );
}

#[test]
fn more_claimants_than_nodes_leave_the_rest_with_all_nodes_busy() {
    for nodes in 0..5i8 {
        let mut world = World::new();
        let mut outcomes = Vec::new();
        for _ in 0..=nodes {
            let (session, first) = start(nodes);
            outcomes.push(run(&mut world, &session, first, claimed).0);
        }
        let mut expected: Vec<SessionState> =
            (1..=nodes).map(|node| SessionState::NodeClaimed { node }).collect();
        expected.push(all_busy());
        assert_eq!(outcomes, expected);
        let holders = world.locks.iter().filter(|(path, file)| file.exclusive && path.contains("lord.")).count();
        assert_eq!(holders, nodes as usize);
    }
}

#[test]
fn the_lowest_free_node_is_selected() {
    let mut world = World::new();
    assert_eq!(world.lock("/run/doorman/lord.2.lock", LockMode::Exclusive), DoorEvent::Acquired);
    assert_eq!(world.lock("/run/doorman/lord.3.lock", LockMode::Exclusive), DoorEvent::Acquired);
    for _ in 0..3 {
        let mut again = World { locks: world.locks.clone(), files: BTreeMap::new(), started: 0 };
        let (session, first) = start(3);
        assert_eq!(run(&mut again, &session, first, claimed).0, SessionState::NodeClaimed { node: 1 });
    }
}

#[test]
fn a_free_node_between_busy_ones_is_found() {
    let mut world = World::new();
    world.lock("/run/doorman/lord.1.lock", LockMode::Exclusive);
    world.lock("/run/doorman/lord.3.lock", LockMode::Exclusive);
    let (session, first) = start(3);
    assert_eq!(run(&mut world, &session, first, claimed).0, SessionState::NodeClaimed { node: 2 });
}

#[test]
fn maintenance_is_refused_while_somebody_plays() {
    let mut world = World::new();
    let (session, first) = start(2);
    assert!(matches!(run(&mut world, &session, first, attached).0, SessionState::Attached { .. }));
    assert_eq!(world.held("/run/doorman/lord.lock"), LockFile { shared: 1, exclusive: false });

    let settings = config(alice(), 2);
    let args = SysopCmdArgs { door: "lord".to_string(), nowait: true };
    let (maintenance, action) = configure(&args, &settings, None, templates()).unwrap();
    let event = world.perform(&action);
    assert_eq!(event, DoorEvent::Refused);
    assert_eq!(
        maintenance.step(MaintenanceState::DoorLockAttempt, event),
        (
            MaintenanceState::Failed(DoorError::DoorBusy { door: "lord".to_string() }),
            DoorAction::Finish,
        )
    );
    assert_eq!(world.held("/run/doorman/lord.lock"), LockFile { shared: 1, exclusive: false });
}

#[test]
fn play_is_refused_while_the_door_is_maintained() {
    let mut world = World::new();
    let settings = config(alice(), 2);
    let args = SysopCmdArgs { door: "lord".to_string(), nowait: false };
    let (maintenance, action) = configure(&args, &settings, None, templates()).unwrap();
    let event = world.perform(&action);
    assert_eq!(
        maintenance.step(MaintenanceState::DoorLockAttempt, event).0,
        MaintenanceState::DoorLocked
    );

    let (session, first) = start(2);
    assert_eq!(
        run(&mut world, &session, first, never).0,
        SessionState::Failed(DoorError::DoorBusy { door: "lord".to_string() })
    );
    assert_eq!(world.held("/run/doorman/lord.lock"), LockFile { shared: 0, exclusive: true });
    assert_eq!(world.held("/run/doorman/lord.1.lock"), LockFile::new());
}

#[test]
fn nothing_of_an_earlier_session_is_left_in_the_workspace() {
    let mut world = World::new();
    let (first_session, first) = start(1);
    assert_eq!(run(&mut world, &first_session, first, never).0, SessionState::Done);
    world.files.insert("/run/doorman/lord.1/SAVEGAME.DAT".to_string(), b"stale".to_vec());
    world.files.insert("/run/doorman/lord.10/KEEP.DAT".to_string(), b"other".to_vec());
    world.locks.get_mut("/run/doorman/lord.lock").unwrap().unlock(LockMode::Shared);

    let bob = User { uid: 7, username: "bob".to_string(), display_name: "Bob".to_string() };
    let (second_session, first) = launch_at(
        &play("lord"),
        config(bob, 1),
        None,
        None,
        templates(),
        "23:59".to_string(),
    )
    .unwrap();
    assert_eq!(
        run(&mut world, &second_session, first, staged).0,
        SessionState::WorkspaceStaged { node: 1 }
    );
    let inside: Vec<(&String, &Vec<u8>)> =
        world.files.iter().filter(|(path, _)| path.starts_with("/run/doorman/lord.1/")).collect();
    assert_eq!(
        inside,
        vec![
            (&"/run/doorman/lord.1/DOOR.SYS".to_string(), &b"Bob\r\n1\r\n23:59\r\n".to_vec()),
            (&"/run/doorman/lord.1/DOORMAN.BAT".to_string(), &b"@echo off\r\nlord.exe /n1 bob\r\n".to_vec()),
        ]
    );
    assert_eq!(world.files.get("/run/doorman/lord.10/KEEP.DAT"), Some(&b"other".to_vec()));
}

#[test]
fn the_workspace_is_emptied_before_anything_is_written() {
    let (session, first) = start(1);
    let mut world = World::new();
    let mut state = SessionState::Idle;
    let mut action = first;
    let mut seen = Vec::new();
    while action != DoorAction::Finish {
        seen.push(match &action {
            DoorAction::ResetWorkspace { .. } => "reset",
            DoorAction::WriteFile { .. } => "write",
            _ => "",
        });
        let event = world.perform(&action);
        let next = session.step(state, event);
        state = next.0;
        action = next.1;
    }
    let work: Vec<&str> = seen.into_iter().filter(|what| !what.is_empty()).collect();
    assert_eq!(work, vec!["reset", "write", "write"]);
}

#[test]
fn two_nodes_serve_two_callers_and_a_freed_node_is_claimed_again() {
    let mut world = World::new();
    let first_caller = start(2);
    let second_caller = start(2);
    let third_caller = start(2);
    let fourth_caller = start(2);

    // Each of the first two calls stands with its container starting when the next call comes.
    let starting = |state: &SessionState| matches!(state, SessionState::ContainerStarting { .. });
    let (first_state, first_action) = run(&mut world, &first_caller.0, first_caller.1, starting);
    assert_eq!(first_state, SessionState::ContainerStarting { node: 1 });
    let (second_state, second_action) = run(&mut world, &second_caller.0, second_caller.1, starting);
    assert_eq!(second_state, SessionState::ContainerStarting { node: 2 });
    assert_eq!(run(&mut world, &third_caller.0, third_caller.1, never).0, all_busy());

    // The second caller's session goes on to its end, which gives node 2 back.
    let mut state = second_state;
    let mut action = second_action;
    while action != DoorAction::Finish {
        let event = world.perform(&action);
        let next = second_caller.0.step(state, event);
        state = next.0;
        action = next.1;
    }
    assert_eq!(state, SessionState::Done);
    assert_eq!(world.held("/run/doorman/lord.2.lock"), LockFile::new());
    assert_eq!(world.held("/run/doorman/lord.1.lock"), LockFile { shared: 0, exclusive: true });

    assert_eq!(
        run(&mut world, &fourth_caller.0, fourth_caller.1, claimed).0,
        SessionState::NodeClaimed { node: 2 }
    );
    assert_eq!(first_action, DoorAction::AwaitExit);
}

#[test]
fn a_node_is_free_for_locking_while_its_container_still_runs() {
    // Known boundary: the node's lock guards the assignment of the slot, not the life of the
    // container. A caller who is in the door no longer holds it.
    let mut world = World::new();
    let (session, first) = start(2);
    assert_eq!(
        run(&mut world, &session, first, attached).0,
        SessionState::Attached { node: 1, container: "c1".to_string() }
    );
    assert_eq!(world.held("/run/doorman/lord.1.lock"), LockFile::new());
    let (next_session, first) = start(2);
    assert_eq!(run(&mut world, &next_session, first, claimed).0, SessionState::NodeClaimed { node: 1 });
}

#[test]
fn the_door_lock_is_kept_to_the_end_of_the_session() {
    let mut world = World::new();
    let (session, first) = start(2);
    assert_eq!(run(&mut world, &session, first, never).0, SessionState::Done);
    assert_eq!(world.held("/run/doorman/lord.lock"), LockFile { shared: 1, exclusive: false });
}

fn maintenance<'a>(settings: &'a Config, nowait: bool) -> (Maintenance<'a>, DoorAction) {
    let args = SysopCmdArgs { door: "lord".to_string(), nowait };
    configure(&args, settings, Some("ansi".to_string()), templates()).unwrap()
}

#[test]
fn maintenance_waits_for_the_door_unless_told_not_to() {
    let settings = config(alice(), 2);
    assert_eq!(
        maintenance(&settings, false).1,
        DoorAction::LockExclusive { path: "/run/doorman/lord.lock".to_string(), wait: true }
    );
    assert_eq!(
        maintenance(&settings, true).1,
        DoorAction::LockExclusive { path: "/run/doorman/lord.lock".to_string(), wait: false }
    );
}

#[test]
fn maintenance_is_for_sysops_only() {
    let mallory = User { uid: 2000, username: "mallory".to_string(), display_name: "M".to_string() };
    let settings = config(mallory, 2);
    let args = SysopCmdArgs { door: "lord".to_string(), nowait: false };
    assert_eq!(configure(&args, &settings, None, templates()), Err(DoorError::PermissionDenied));
    assert_eq!(nightly(&args, &settings, None, templates()), Err(DoorError::PermissionDenied));
}

#[test]
fn maintenance_needs_configured_commands() {
    let settings = config(alice(), 2);
    let args = SysopCmdArgs { door: "lord".to_string(), nowait: false };
    assert_eq!(
        nightly(&args, &settings, None, templates()),
        Err(DoorError::NotConfigured { command: "nightly".to_string(), door: "lord".to_string() })
    );
}

#[test]
fn maintenance_checks_permission_before_configuration() {
    let mallory = User { uid: 2000, username: "mallory".to_string(), display_name: "M".to_string() };
    let settings = config(mallory, 2);
    let args = SysopCmdArgs { door: "lord".to_string(), nowait: false };
    assert_eq!(
        sysop_command(&args, &settings, lord(2), "nightly", &None, None, templates()),
        Err(DoorError::PermissionDenied)
    );
}

#[test]
fn maintenance_reports_an_unknown_door() {
    let settings = config(alice(), 2);
    let args = SysopCmdArgs { door: "zork".to_string(), nowait: false };
    assert_eq!(
        configure(&args, &settings, None, templates()),
        Err(DoorError::UnknownDoor { door: "zork".to_string() })
    );
}

#[test]
fn nightly_runs_the_nightly_commands() {
    let mut settings = config(alice(), 2);
    settings.doors[0].options.nightly_commands = Some("maint.bat".to_string());
    let args = SysopCmdArgs { door: "lord".to_string(), nowait: true };
    let (run, _) = nightly(&args, &settings, None, templates()).unwrap();
    assert_eq!(run.command, "nightly");
    assert_eq!(run.commands, "maint.bat");
    assert!(run.nowait);
    assert_eq!(run.term, "xterm");
}

#[test]
fn a_maintenance_run_goes_from_the_lock_of_the_door_to_the_end() {
    let settings = config(alice(), 2);
    let (run, first) = maintenance(&settings, false);
    assert_eq!(run.first_action(), first);

    let next = run.step(MaintenanceState::DoorLockAttempt, DoorEvent::Acquired);
    assert_eq!(
        next,
        (
            MaintenanceState::DoorLocked,
            DoorAction::ResetWorkspace { dir: "/run/doorman/lord.sysop".to_string() },
        )
    );
    let next = run.step(next.0, DoorEvent::Completed);
    assert_eq!(
        next,
        (
            MaintenanceState::WorkspaceCleared,
            DoorAction::WriteFile {
                file: DosFile {
                    path: "/run/doorman/lord.sysop/DOORMAN.BAT".to_string(),
                    bytes: b"@echo off\r\nlordcfg.exe\r\n".to_vec(),
                },
            },
        )
    );
    let next = run.step(next.0, DoorEvent::Completed);
    assert_eq!(
        next,
        (
            MaintenanceState::WorkspaceStaged,
            DoorAction::Spawn {
                command: CommandLine {
                    program: "/usr/bin/podman".to_string(),
                    args: strings(&[
                        "run",
                        "--user=1000:100",
                        "--tmpfs=/run/user",
                        "--tmpfs=/tmp",
                        "--tmpfs=/var/tmp",
                        "-v/run/doorman/lord.sysop:/mnt/doorman",
                        "-v/doors/lord:/mnt/door",
                        "-v/run/doorman/lord.lock:/mnt/door.lock",
                        "-eTERM=ansi",
                        "-ldoorman.door=lord",
                        "-ldoorman.command=configure",
                        "-ldoorman.user=alice",
                        "-ldoorman.rundir=/run/doorman/lord.sysop",
                        "--userns=keep-id",
                        "--passwd=false",
                        "-ti",
                        "img",
                        "configure.sh",
                    ]),
                },
                capture: false,
            },
        )
    );
    let next = run.step(next.0, DoorEvent::Completed);
    assert_eq!(
        next,
        (
            MaintenanceState::ContainerRunning,
            DoorAction::Unlock { path: "/run/doorman/lord.lock".to_string() },
        )
    );
    let next = run.step(next.0, DoorEvent::Completed);
    assert_eq!(next, (MaintenanceState::Released, DoorAction::AwaitExit));
    let next = run.step(next.0, DoorEvent::Exited { code: Some(3), output: vec![] });
    assert_eq!(next, (MaintenanceState::Done, DoorAction::Finish));
    let next = run.step(next.0, DoorEvent::Completed);
    assert_eq!(next, (MaintenanceState::Done, DoorAction::Finish));
}

#[test]
fn a_maintenance_failure_names_the_path_that_could_not_be_used() {
    let settings = config(alice(), 2);
    let (run, _) = maintenance(&settings, false);
    let failed = |state: MaintenanceState| match run.step(state, DoorEvent::Failed) {
        (MaintenanceState::Failed(DoorError::Io { path }), DoorAction::Finish) => path,
        other => panic!("{:?}", other),
    };
    assert_eq!(failed(MaintenanceState::DoorLockAttempt), "/run/doorman/lord.lock");
    assert_eq!(failed(MaintenanceState::DoorLocked), "/run/doorman/lord.sysop");
    assert_eq!(failed(MaintenanceState::WorkspaceCleared), "/run/doorman/lord.sysop/DOORMAN.BAT");
    assert_eq!(failed(MaintenanceState::WorkspaceStaged), "/usr/bin/podman");
    assert_eq!(failed(MaintenanceState::ContainerRunning), "/run/doorman/lord.lock");
    assert_eq!(failed(MaintenanceState::Released), "/usr/bin/podman");
}

#[test]
fn a_maintenance_run_rejects_outcomes_that_cannot_be() {
    let settings = config(alice(), 2);
    let (run, _) = maintenance(&settings, false);
    let unexpected = (MaintenanceState::Failed(DoorError::Unexpected), DoorAction::Finish);
    assert_eq!(run.step(MaintenanceState::DoorLockAttempt, DoorEvent::Completed), unexpected);
    assert_eq!(run.step(MaintenanceState::Released, DoorEvent::Completed), unexpected);
    assert_eq!(
        run.step(MaintenanceState::Failed(DoorError::Unexpected), DoorEvent::Acquired),
        unexpected
    );
}

#[test]
fn the_door_is_free_again_once_the_maintenance_container_runs() {
    let mut world = World::new();
    let settings = config(alice(), 2);
    let (run, first) = maintenance(&settings, true);
    let mut state = MaintenanceState::DoorLockAttempt;
    let mut action = first;
    while state != MaintenanceState::Released {
        let event = world.perform(&action);
        let next = run.step(state, event);
        state = next.0;
        action = next.1;
    }
    assert_eq!(world.held("/run/doorman/lord.lock"), LockFile::new());
    assert_eq!(action, DoorAction::AwaitExit);
}
