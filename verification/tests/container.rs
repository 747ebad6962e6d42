use doorman::container::{
    choose_engine_path, classify_banner, classify_engine, find_engine_path, found_path, info_args,
    is_rootless_podman, rootless_flag, version_args, ContainerEngine, EngineKind,
};
use doorman::error::DoorError;
use doorman::json::Json;

#[test]
fn podman_is_known_by_its_banner() {
    assert_eq!(classify_engine("podman version 4.3.1\n".as_bytes().to_vec()), Ok(EngineKind::Podman));
}

#[test]
fn docker_is_known_by_its_banner() {
    assert_eq!(classify_engine("Docker version 20.10.21, build baeda1f\n".as_bytes().to_vec()), Ok(EngineKind::Docker));
}

#[test]
fn the_case_of_the_banner_does_not_matter() {
    assert_eq!(classify_engine("PoDmAn version 4".as_bytes().to_vec()), Ok(EngineKind::Podman));
    assert_eq!(classify_engine("DOCKER VERSION 1".as_bytes().to_vec()), Ok(EngineKind::Docker));
}

#[test]
fn any_other_banner_is_an_unknown_engine() {
    assert_eq!(classify_engine("nerdctl version 1.0".as_bytes().to_vec()), Err(DoorError::UnknownEngine));
    assert_eq!(classify_engine("".as_bytes().to_vec()), Err(DoorError::UnknownEngine));
    assert_eq!(classify_engine("podman".as_bytes().to_vec()), Err(DoorError::UnknownEngine));
    assert_eq!(classify_engine("podman-remote version 4".as_bytes().to_vec()), Err(DoorError::UnknownEngine));
    assert_eq!(classify_engine(" podman version 4".as_bytes().to_vec()), Err(DoorError::UnknownEngine));
}

#[test]
fn a_banner_in_upper_case_is_classified_as_it_stands() {
    assert_eq!(classify_banner("PODMAN VERSION 4"), Ok(EngineKind::Podman));
    assert_eq!(classify_banner("DOCKER VERSION 4"), Ok(EngineKind::Docker));
    assert_eq!(classify_banner("podman version 4"), Err(DoorError::UnknownEngine));
}

#[test]
fn the_configured_engine_wins() {
    assert_eq!(
        choose_engine_path(
            Some("/opt/engine".to_string()),
            Some("/usr/bin/podman".to_string()),
            Some("/usr/bin/docker".to_string()),
        ),
        Ok("/opt/engine".to_string())
    );
}

#[test]
fn podman_is_preferred_to_docker() {
    assert_eq!(
        choose_engine_path(None, Some("/usr/bin/podman".to_string()), Some("/usr/bin/docker".to_string())),
        Ok("/usr/bin/podman".to_string())
    );
}

#[test]
fn docker_is_taken_without_podman() {
    assert_eq!(
        choose_engine_path(None, None, Some("/usr/bin/docker".to_string())),
        Ok("/usr/bin/docker".to_string())
    );
}

#[test]
fn no_engine_at_all_is_an_error() {
    assert_eq!(choose_engine_path(None, None, None), Err(DoorError::EngineNotFound));
}

#[test]
fn a_configured_path_is_not_searched_for() {
    assert_eq!(
        find_engine_path(&Some("/nowhere/engine".to_string())),
        Ok("/nowhere/engine".to_string())
    );
}

#[test]
fn a_search_ends_with_a_path_or_with_no_engine() {
    match find_engine_path(&None) {
        Ok(path) => assert!(path.ends_with("podman") || path.ends_with("docker")),
        Err(error) => assert_eq!(error, DoorError::EngineNotFound),
    }
}

#[test]
fn engines_are_asked_with_fixed_arguments() {
    assert_eq!(version_args(), vec!["--version"]);
    assert_eq!(info_args(), vec!["info", "--format=json"]);
}

#[test]
fn rootless_is_read_from_the_host_description() {
    assert!(is_rootless_podman("{\"host\": {\"security\": {\"rootless\": true}}}".as_bytes().to_vec()));
    assert!(!is_rootless_podman("{\"host\": {\"security\": {\"rootless\": false}}}".as_bytes().to_vec()));
}

#[test]
fn a_host_description_that_cannot_be_read_is_not_rootless() {
    assert!(!is_rootless_podman("".as_bytes().to_vec()));
    assert!(!is_rootless_podman("not json".as_bytes().to_vec()));
    assert!(!is_rootless_podman("{}".as_bytes().to_vec()));
    assert!(!is_rootless_podman("{\"host\": {}}".as_bytes().to_vec()));
    assert!(!is_rootless_podman("{\"host\": {\"security\": {}}}".as_bytes().to_vec()));
    assert!(!is_rootless_podman("{\"host\": {\"security\": {\"rootless\": \"true\"}}}".as_bytes().to_vec()));
    assert!(!is_rootless_podman("{\"host\": {\"security\": {\"rootless\": 1}}}".as_bytes().to_vec()));
    assert!(!is_rootless_podman("[true]".as_bytes().to_vec()));
}

#[test]
fn rootless_flag_of_no_document_is_false() {
    assert!(!rootless_flag(&None));
    assert!(!rootless_flag(&Some(Json::Null)));
}

#[test]
fn only_podman_without_an_answer_is_probed() {
    assert!(ContainerEngine::needs_rootless_probe(EngineKind::Podman, None));
    assert!(!ContainerEngine::needs_rootless_probe(EngineKind::Podman, Some(false)));
    assert!(!ContainerEngine::needs_rootless_probe(EngineKind::Docker, None));
    assert!(!ContainerEngine::needs_rootless_probe(EngineKind::Docker, Some(true)));
}

#[test]
fn a_configured_answer_settles_rootless() {
    let info = Some(b"{\"host\": {\"security\": {\"rootless\": true}}}".to_vec());
    let engine = ContainerEngine::new("/p".to_string(), EngineKind::Podman, Some(false), info.clone());
    assert_eq!(engine, ContainerEngine { path: "/p".to_string(), rootless_podman: false });
    let engine = ContainerEngine::new("/d".to_string(), EngineKind::Docker, Some(true), None);
    assert_eq!(engine, ContainerEngine { path: "/d".to_string(), rootless_podman: true });
}

#[test]
fn podman_is_rootless_where_its_host_description_says_so() {
    let info = Some(b"{\"host\": {\"security\": {\"rootless\": true}}}".to_vec());
    let engine = ContainerEngine::new("/p".to_string(), EngineKind::Podman, None, info.clone());
    assert!(engine.rootless_podman);
    let engine = ContainerEngine::new("/p".to_string(), EngineKind::Podman, None, None);
    assert!(!engine.rootless_podman);
}

#[test]
fn docker_is_never_rootless_podman_by_detection() {
    let info = Some(b"{\"host\": {\"security\": {\"rootless\": true}}}".to_vec());
    let engine = ContainerEngine::new("/d".to_string(), EngineKind::Docker, None, info.clone());
    assert!(!engine.rootless_podman);
}

#[test]
fn a_banner_that_is_no_text_names_no_engine() {
    assert_eq!(classify_engine(vec![b'p', b'o', b'd', 0xff]), Err(DoorError::UnknownEngine));
    assert_eq!(classify_engine(vec![0xc3, 0x28]), Err(DoorError::UnknownEngine));
}

#[test]
fn a_host_description_that_is_no_text_is_not_rootless() {
    let mut output = b"{\"host\": {\"security\": {\"rootless\": true}}}".to_vec();
    assert!(is_rootless_podman(output.clone()));
    output.push(0xff);
    assert!(!is_rootless_podman(output.clone()));
    let engine = ContainerEngine::new("/p".to_string(), EngineKind::Podman, None, Some(output));
    assert!(!engine.rootless_podman);
}

#[test]
fn an_engine_whose_path_is_no_text_counts_as_not_found() {
    assert_eq!(found_path(Some(Some("/usr/bin/podman".to_string()))), Some("/usr/bin/podman".to_string()));
    assert_eq!(found_path(Some(None)), None);
    assert_eq!(found_path(None), None);
}
