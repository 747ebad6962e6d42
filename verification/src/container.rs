//! The container engine: which tool it is, where it lives, and whether it
//! runs rootless.

use crate::error::{DoorError, DoorErrorView};
use crate::json::{opt_json_view, parsed, Json, JsonView};
use crate::text::{decode_text, has_prefix, opt_view, starts_with, uppercased};
use vstd::prelude::*;
use vstd::utf8::{decode_utf8, valid_utf8};

verus! {

/// The two container tools the library can drive.
#[derive(Debug, Clone, Copy, PartialEq, Eq, Structural)]
pub enum EngineKind {
    Podman,
    Docker,
}

/// A container engine as found at startup.
#[derive(Debug, PartialEq, Eq)]
pub struct ContainerEngine {
    /// The engine's binary.
    pub path: String,
    /// Whether the engine is podman without root: runs then need the flags
    /// that keep the caller's user id.
    pub rootless_podman: bool,
}

impl Clone for ContainerEngine {
    fn clone(&self) -> (copy: ContainerEngine)
        ensures
            copy == *self,
    {
        ContainerEngine { path: self.path.clone(), rootless_podman: self.rootless_podman }
    }
}

/// `which::which`: looks for an executable of that name along `PATH`. The
/// outer `Option` tells whether one was found, the inner one its path where
/// the path is text. What is found depends on the machine, so nothing is
/// promised of the result; only the two engines are ever asked for.
#[verifier::external_body]
fn which_path(name: &str) -> (found: Option<Option<String>>)
    requires
        name@ == "podman"@ || name@ == "docker"@,
{
    which::which(name).ok().map(|found| found.into_os_string().into_string().ok())
}

/// The path of what a search found, where it found something whose path is
/// text. An engine at a path that is no text cannot be named in a command
/// line, and counts as not found.
pub fn found_path(found: Option<Option<String>>) -> (path: Option<String>)
    ensures
        path == match found {
            Some(Some(text)) => Some(text),
            _ => None,
        },
{
    match found {
        Some(Some(text)) => Some(text),
        _ => None,
    }
}

/// The engine to use: the configured one; else podman; else docker.
pub open spec fn spec_engine_path(
    configured: Option<Seq<char>>,
    podman: Option<Seq<char>>,
    docker: Option<Seq<char>>,
) -> Option<Seq<char>> {
    if configured is Some {
        configured
    } else if podman is Some {
        podman
    } else {
        docker
    }
}

/// Picks the engine's binary from what is configured and what was found:
/// the configured path wins, podman is preferred to docker, and with none
/// of the three the configuration is at fault.
pub fn choose_engine_path(
    configured: Option<String>,
    podman: Option<String>,
    docker: Option<String>,
) -> (path: Result<String, DoorError>)
    ensures
        match spec_engine_path(opt_view(configured), opt_view(podman), opt_view(docker)) {
            Some(chosen) => path is Ok && path->Ok_0@ == chosen,
            None => path is Err && path->Err_0@ == DoorErrorView::EngineNotFound,
        },
{
    match configured {
        Some(path) => Ok(path),
        None => match podman {
            Some(path) => Ok(path),
            None => match docker {
                Some(path) => Ok(path),
                None => Err(DoorError::EngineNotFound),
            },
        },
    }
}

/// The engine's binary: the configured path where there is one; otherwise
/// `PATH` is searched for podman, and only when that fails for docker.
pub fn find_engine_path(configured: &Option<String>) -> (path: Result<String, DoorError>)
    ensures
        configured is Some ==> path is Ok && path->Ok_0@ == configured->0@,
        path is Err ==> path->Err_0@ == DoorErrorView::EngineNotFound,
{
    match configured {
        Some(path) => choose_engine_path(Some(path.clone()), None, None),
        None => {
            let podman = found_path(which_path("podman"));
            match podman {
                Some(_) => choose_engine_path(None, podman, None),
                None => choose_engine_path(None, None, found_path(which_path("docker"))),
            }
        },
    }
}

/// The arguments that make an engine print its version banner.
pub fn version_args() -> (args: Vec<String>)
    ensures
        args@.len() == 1,
        args@[0]@ == "--version"@,
{
    let mut args: Vec<String> = Vec::new();
    args.push("--version".to_owned());
    args
}

/// The arguments that make podman describe its host as JSON.
pub fn info_args() -> (args: Vec<String>)
    ensures
        args@.len() == 2,
        args@[0]@ == "info"@,
        args@[1]@ == "--format=json"@,
{
    let mut args: Vec<String> = Vec::new();
    args.push("info".to_owned());
    args.push("--format=json".to_owned());
    args
}

/// The engine that an upper-case version banner names.
pub open spec fn spec_classify(upper: Seq<char>) -> Option<EngineKind> {
    if starts_with(upper, "PODMAN "@) {
        Some(EngineKind::Podman)
    } else if starts_with(upper, "DOCKER "@) {
        Some(EngineKind::Docker)
    } else {
        None
    }
}

/// Classifies an engine by its version banner, already in upper case: podman
/// where it begins with `PODMAN `, docker where it begins with `DOCKER `,
/// and no known engine otherwise.
pub fn classify_banner(upper: &str) -> (kind: Result<EngineKind, DoorError>)
    ensures
        match spec_classify(upper@) {
            Some(k) => kind == Ok::<EngineKind, DoorError>(k),
            None => kind is Err && kind->Err_0@ == DoorErrorView::UnknownEngine,
        },
{
    if has_prefix(upper, "PODMAN ") {
        Ok(EngineKind::Podman)
    } else if has_prefix(upper, "DOCKER ") {
        Ok(EngineKind::Docker)
    } else {
        Err(DoorError::UnknownEngine)
    }
}

/// The engine that the output of `--version` names, whatever the case of
/// the letters. Output that is no UTF-8 names none.
pub open spec fn spec_classify_output(output: Seq<u8>) -> Option<EngineKind> {
    if valid_utf8(output) {
        spec_classify(uppercased(decode_utf8(output)))
    } else {
        None
    }
}

/// Classifies an engine by what it prints for `--version`, whatever the
/// case of the letters.
pub fn classify_engine(version_output: Vec<u8>) -> (kind: Result<EngineKind, DoorError>)
    ensures
        match spec_classify_output(version_output@) {
            Some(k) => kind == Ok::<EngineKind, DoorError>(k),
            None => kind is Err && kind->Err_0@ == DoorErrorView::UnknownEngine,
        },
{
    match decode_text(version_output) {
        Some(banner) => {
            let upper = banner.as_str().to_uppercase();
            classify_banner(upper.as_str())
        },
        None => Err(DoorError::UnknownEngine),
    }
}

/// The boolean at `host.security.rootless` of a document, where there is one.
pub open spec fn spec_rootless_flag(info: Option<JsonView>) -> bool {
    match info {
        Some(document) => match document.member("host"@) {
            Some(host) => match host.member("security"@) {
                Some(security) => match security.member("rootless"@) {
                    Some(JsonView::Bool(flag)) => flag,
                    _ => false,
                },
                None => false,
            },
            None => false,
        },
        None => false,
    }
}

/// Whether podman's host description says that it runs rootless. A
/// description without a boolean at `host.security.rootless` counts as not
/// rootless.
pub fn rootless_flag(info: &Option<Json>) -> (rootless: bool)
    ensures
        rootless == spec_rootless_flag(opt_json_view(*info)),
{
    match info {
        Some(document) => match document.member("host") {
            Some(host) => match host.member("security") {
                Some(security) => match security.member("rootless") {
                    Some(Json::Bool(flag)) => *flag,
                    _ => false,
                },
                None => false,
            },
            None => false,
        },
        None => false,
    }
}

/// Whether the output of `info --format=json` says that podman runs
/// rootless: it is UTF-8, spells a JSON document, and the document holds
/// `true` at `host.security.rootless`.
pub open spec fn spec_rootless_output(output: Seq<u8>) -> bool {
    valid_utf8(output) && spec_rootless_flag(parsed(decode_utf8(output)))
}

/// Whether what podman prints for `info --format=json` says that it runs
/// rootless. Output that cannot be read, as text or as JSON, counts as not
/// rootless.
pub fn is_rootless_podman(info_output: Vec<u8>) -> (rootless: bool)
    ensures
        rootless == spec_rootless_output(info_output@),
{
    match decode_text(info_output) {
        Some(text) => {
            let info = Json::parse(text.as_str());
            rootless_flag(&info)
        },
        None => false,
    }
}

impl ContainerEngine {
    /// Whether the engine has to be asked if it runs rootless: only podman
    /// can, and a configured answer settles it.
    pub fn needs_rootless_probe(kind: EngineKind, configured: Option<bool>) -> (needed: bool)
        ensures
            needed == (configured is None && kind == EngineKind::Podman),
    {
        match configured {
            Some(_) => false,
            None => match kind {
                EngineKind::Podman => true,
                EngineKind::Docker => false,
            },
        }
    }

    /// The engine at `path`. It is rootless podman where the configuration
    /// says so; without a configured answer, where it is podman and
    /// `info_output`, what it printed for `info --format=json`, says so.
    /// Where podman could not be asked, `info_output` is `None` and the
    /// engine counts as not rootless.
    pub fn new(
        path: String,
        kind: EngineKind,
        configured: Option<bool>,
        info_output: Option<Vec<u8>>,
    ) -> (engine: ContainerEngine)
        ensures
            engine.path == path,
            engine.rootless_podman == match configured {
                Some(answer) => answer,
                None => kind == EngineKind::Podman && info_output is Some && spec_rootless_output(
                    info_output->0@,
                ),
            },
    {
        let rootless_podman = match configured {
            Some(answer) => answer,
            None => match kind {
                EngineKind::Podman => match info_output {
                    Some(output) => is_rootless_podman(output),
                    None => false,
                },
                EngineKind::Docker => false,
            },
        };
        ContainerEngine { path, rootless_podman }
    }
}

} // verus!
