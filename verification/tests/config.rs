use doorman::config::{
    default_dosemu_image, default_max_nodes, identity_lookup, set_door, set_entry, CommandLine,
    Config, Door, DoorOptions, Options,
};
use doorman::container::ContainerEngine;
use doorman::error::DoorError;
use doorman::user::{IdentityLookup, User};

fn user(uid: u32, name: &str) -> User {
    User { uid, username: name.to_string(), display_name: name.to_uppercase() }
}

fn door(name: &str, max_nodes: i8) -> Door {
    Door {
        name: name.to_string(),
        options: DoorOptions {
            door_path: format!("/doors/{}", name),
            max_nodes,
            launch_commands: "start.bat".to_string(),
            configure_commands: Some("setup.exe".to_string()),
            nightly_commands: None,
        },
    }
}

fn config(caller: User) -> Config {
    Config {
        datadir: "/var/lib/doorman".to_string(),
        rundir: "/run/doorman".to_string(),
        user: caller,
        dosemu_image: "img".to_string(),
        uid: 1000,
        gid: 100,
        sysops: vec!["sysop".to_string()],
        doors: vec![door("lord", 2), door("tw2002", 1)],
        engine: ContainerEngine { path: "/usr/bin/podman".to_string(), rootless_podman: false },
    }
}

fn entries(items: &[(&str, &str)]) -> Vec<(String, String)> {
    items.iter().map(|(k, v)| (k.to_string(), v.to_string())).collect()
}

fn no_options() -> Options {
    Options {
        datadir: None,
        rundir: None,
        sysops: None,
        engine_path: None,
        rootless_podman: None,
        dosemu_image: default_dosemu_image(),
    }
}

#[test]
fn defaults_are_one_node_and_the_stock_image() {
    assert_eq!(default_max_nodes(), 1);
    assert_eq!(default_dosemu_image(), "ghcr.io/jordemort/doorman-dosemu:main");
}

#[test]
fn load_takes_the_platform_directories_by_default() {
    let loaded = Config::load(
        user(1000, "alice"),
        no_options(),
        vec![door("lord", 2)],
        "/home/alice/.local/share/doorman".to_string(),
        Some("/run/user/1000/doorman".to_string()),
        1000,
        100,
        ContainerEngine { path: "/usr/bin/docker".to_string(), rootless_podman: false },
    );
    assert_eq!(loaded.datadir, "/home/alice/.local/share/doorman");
    assert_eq!(loaded.rundir, "/run/user/1000/doorman");
    assert_eq!(loaded.sysops, Vec::<String>::new());
    assert_eq!(loaded.dosemu_image, "ghcr.io/jordemort/doorman-dosemu:main");
    assert_eq!(loaded.user, user(1000, "alice"));
    assert_eq!(loaded.doors, vec![door("lord", 2)]);
    assert_eq!(loaded.uid, 1000);
    assert_eq!(loaded.gid, 100);
    assert_eq!(loaded.engine.path, "/usr/bin/docker");
}

#[test]
fn load_puts_the_run_directory_into_the_data_directory_without_a_runtime_directory() {
    let loaded = Config::load(
        user(1000, "alice"),
        no_options(),
        vec![],
        "/data".to_string(),
        None,
        1000,
        100,
        ContainerEngine { path: "p".to_string(), rootless_podman: false },
    );
    assert_eq!(loaded.rundir, "/data/run");
}

#[test]
fn load_prefers_what_is_configured() {
    let options = Options {
        datadir: Some("/srv/doorman".to_string()),
        rundir: Some("/srv/run".to_string()),
        sysops: Some(vec!["root".to_string(), "sysop".to_string()]),
        engine_path: None,
        rootless_podman: Some(true),
        dosemu_image: "custom:latest".to_string(),
    };
    let loaded = Config::load(
        user(1, "a"),
        options,
        vec![],
        "/data".to_string(),
        Some("/runtime".to_string()),
        1,
        1,
        ContainerEngine { path: "p".to_string(), rootless_podman: true },
    );
    assert_eq!(loaded.datadir, "/srv/doorman");
    assert_eq!(loaded.rundir, "/srv/run");
    assert_eq!(loaded.sysops, vec!["root".to_string(), "sysop".to_string()]);
    assert_eq!(loaded.dosemu_image, "custom:latest");
}

#[test]
fn load_derives_the_run_directory_from_a_configured_data_directory() {
    let mut options = no_options();
    options.datadir = Some("/srv/doorman".to_string());
    let loaded = Config::load(
        user(1, "a"),
        options,
        vec![],
        "/data".to_string(),
        None,
        1,
        1,
        ContainerEngine { path: "p".to_string(), rootless_podman: true },
    );
    assert_eq!(loaded.rundir, "/srv/doorman/run");
}

#[test]
fn get_door_finds_a_door_by_name() {
    assert_eq!(config(user(1000, "alice")).get_door("tw2002"), Ok(door("tw2002", 1)));
}

#[test]
fn get_door_reports_an_unknown_door() {
    assert_eq!(
        config(user(1000, "alice")).get_door("zork"),
        Err(DoorError::UnknownDoor { door: "zork".to_string() })
    );
}

#[test]
fn get_door_takes_the_first_of_two_doors_of_one_name() {
    let mut both = config(user(1000, "alice"));
    both.doors = vec![door("lord", 2), door("lord", 5)];
    assert_eq!(both.get_door("lord"), Ok(door("lord", 2)));
}

#[test]
fn the_user_the_process_runs_as_is_a_sysop() {
    assert!(config(user(1000, "alice")).is_sysop());
}

#[test]
fn root_is_a_sysop() {
    assert!(config(user(0, "root")).is_sysop());
}

#[test]
fn a_configured_sysop_is_a_sysop() {
    assert!(config(user(2000, "sysop")).is_sysop());
}

#[test]
fn anybody_else_is_no_sysop() {
    assert!(!config(user(2000, "mallory")).is_sysop());
}

#[test]
fn identity_lookup_tells_which_record_is_needed() {
    assert_eq!(identity_lookup(&None, None), IdentityLookup::NotNeeded);
    assert_eq!(identity_lookup(&Some("bob".to_string()), Some(7)), IdentityLookup::NotNeeded);
    assert_eq!(identity_lookup(&None, Some(7)), IdentityLookup::ByUid(7));
    assert_eq!(
        identity_lookup(&Some("bob".to_string()), None),
        IdentityLookup::ByName("bob".to_string())
    );
}

#[test]
fn switch_user_is_for_sysops_only() {
    let mut current = config(user(2000, "mallory"));
    let before = config(user(2000, "mallory"));
    assert_eq!(
        current.switch_user(&Some("bob".to_string()), Some(7), &None, None),
        Err(DoorError::PermissionDenied)
    );
    assert_eq!(current, before);
}

#[test]
fn switch_user_takes_id_and_name_as_given() {
    let mut current = config(user(1000, "alice"));
    assert_eq!(current.switch_user(&Some("bob".to_string()), Some(7), &None, None), Ok(()));
    assert_eq!(
        current.user,
        User { uid: 7, username: "bob".to_string(), display_name: "bob".to_string() }
    );
}

#[test]
fn switch_user_takes_a_given_display_name() {
    let mut current = config(user(1000, "alice"));
    assert_eq!(
        current.switch_user(&Some("bob".to_string()), Some(7), &Some("Bob B.".to_string()), None),
        Ok(())
    );
    assert_eq!(
        current.user,
        User { uid: 7, username: "bob".to_string(), display_name: "Bob B.".to_string() }
    );
}

#[test]
fn switch_user_takes_the_record_that_was_looked_up() {
    let mut current = config(user(1000, "alice"));
    let record = User { uid: 7, username: "bob".to_string(), display_name: "Robert".to_string() };
    assert_eq!(current.switch_user(&Some("bob".to_string()), None, &None, Some(record.clone())), Ok(()));
    assert_eq!(current.user, record);
}

#[test]
fn switch_user_renames_the_record_that_was_looked_up() {
    let mut current = config(user(1000, "alice"));
    let record = User { uid: 7, username: "bob".to_string(), display_name: "Robert".to_string() };
    assert_eq!(
        current.switch_user(&None, Some(7), &Some("Bobby".to_string()), Some(record)),
        Ok(())
    );
    assert_eq!(
        current.user,
        User { uid: 7, username: "bob".to_string(), display_name: "Bobby".to_string() }
    );
}

#[test]
fn switch_user_reports_an_account_that_does_not_exist() {
    let mut current = config(user(1000, "alice"));
    assert_eq!(
        current.switch_user(&Some("ghost".to_string()), None, &None, None),
        Err(DoorError::UnknownUser)
    );
    assert_eq!(current.user, user(1000, "alice"));
}

#[test]
fn switch_user_with_a_display_name_alone_renames_the_caller() {
    let mut current = config(user(1000, "alice"));
    assert_eq!(current.switch_user(&None, None, &Some("Queen".to_string()), None), Ok(()));
    assert_eq!(
        current.user,
        User { uid: 1000, username: "alice".to_string(), display_name: "Queen".to_string() }
    );
}

#[test]
fn run_args_start_with_the_fixed_flags() {
    let args = config(user(1000, "alice")).run_args(&vec![], &vec![], &vec![]);
    assert_eq!(
        args,
        vec!["--user=1000:100", "--tmpfs=/run/user", "--tmpfs=/tmp", "--tmpfs=/var/tmp"]
    );
}

#[test]
fn run_args_carry_volumes_then_environment_then_labels() {
    let args = config(user(1000, "alice")).run_args(
        &entries(&[("TERM", "ansi"), ("X", "")]),
        &entries(&[("/a", "/mnt/a"), ("/b", "/mnt/b")]),
        &entries(&[("doorman.door", "lord")]),
    );
    assert_eq!(
        args,
        vec![
            "--user=1000:100",
            "--tmpfs=/run/user",
            "--tmpfs=/tmp",
            "--tmpfs=/var/tmp",
            "-v/a:/mnt/a",
            "-v/b:/mnt/b",
            "-eTERM=ansi",
            "-eX=",
            "-ldoorman.door=lord",
        ]
    );
}

#[test]
fn run_args_end_with_the_rootless_flags_for_rootless_podman() {
    let mut rootless = config(user(1000, "alice"));
    rootless.engine.rootless_podman = true;
    let args = rootless.run_args(&vec![], &vec![], &entries(&[("k", "v")]));
    assert_eq!(
        args,
        vec![
            "--user=1000:100",
            "--tmpfs=/run/user",
            "--tmpfs=/tmp",
            "--tmpfs=/var/tmp",
            "-lk=v",
            "--userns=keep-id",
            "--passwd=false",
        ]
    );
}

#[test]
fn container_command_names_the_engine_and_the_command() {
    assert_eq!(
        config(user(1000, "alice")).container_command("exec"),
        CommandLine { program: "/usr/bin/podman".to_string(), args: vec!["exec".to_string()] }
    );
}

#[test]
fn run_container_is_a_run_with_the_run_args() {
    let line = config(user(1000, "alice")).run_container(&entries(&[("A", "b")]), &vec![], &vec![]);
    assert_eq!(line.program, "/usr/bin/podman");
    assert_eq!(
        line.args,
        vec!["run", "--user=1000:100", "--tmpfs=/run/user", "--tmpfs=/tmp", "--tmpfs=/var/tmp", "-eA=b"]
    );
}

#[test]
fn set_entry_adds_a_new_key_at_the_end() {
    let mut list = entries(&[("a", "1")]);
    set_entry(&mut list, "b".to_string(), "2".to_string());
    assert_eq!(list, entries(&[("a", "1"), ("b", "2")]));
}

#[test]
fn set_entry_replaces_the_value_of_a_key_in_place() {
    let mut list = entries(&[("a", "1"), ("b", "2"), ("c", "3")]);
    set_entry(&mut list, "b".to_string(), "9".to_string());
    assert_eq!(list, entries(&[("a", "1"), ("b", "9"), ("c", "3")]));
}

#[test]
fn set_entry_starts_an_empty_list() {
    let mut list = Vec::new();
    set_entry(&mut list, "a".to_string(), "1".to_string());
    assert_eq!(list, entries(&[("a", "1")]));
}

#[test]
fn the_configured_engine_path_is_taken_as_it_is() {
    assert_eq!(
        Config::container_engine_path(&Some("/opt/bin/engine".to_string())),
        Ok("/opt/bin/engine".to_string())
    );
}

#[test]
fn the_engine_of_a_configuration_is_the_one_it_was_loaded_with() {
    assert_eq!(
        config(user(1000, "alice")).container_engine(),
        ContainerEngine { path: "/usr/bin/podman".to_string(), rootless_podman: false }
    );
}

#[test]
fn load_keeps_each_door_name_once() {
    let loaded = Config::load(
        user(1, "a"),
        no_options(),
        vec![door("lord", 2), door("tw2002", 1), door("lord", 5), door("zork", 1)],
        "/data".to_string(),
        None,
        1,
        1,
        ContainerEngine { path: "p".to_string(), rootless_podman: true },
    );
    assert_eq!(loaded.doors, vec![door("lord", 5), door("tw2002", 1), door("zork", 1)]);
    assert_eq!(loaded.get_door("lord"), Ok(door("lord", 5)));
}

#[test]
fn set_door_replaces_or_appends() {
    let mut doors = vec![door("a", 1), door("b", 1)];
    set_door(&mut doors, door("b", 9));
    assert_eq!(doors, vec![door("a", 1), door("b", 9)]);
    set_door(&mut doors, door("c", 3));
    assert_eq!(doors, vec![door("a", 1), door("b", 9), door("c", 3)]);
    let mut none = Vec::new();
    set_door(&mut none, door("a", 1));
    assert_eq!(none, vec![door("a", 1)]);
}
