use samsonr::commands::{log_level, DeployCommand, LogLevel, StagesCommand};
use samsonr::configuration::{
    resolve_project_id, resolve_reference, resolve_token, Configuration,
};
use samsonr::errors::SamsonrError;

fn config(token: Option<&str>, project_id: Option<i32>) -> Configuration {
    Configuration { token: token.map(String::from), project_id }
}

#[test]
fn reference_falls_back_to_the_local_branch() {
    let r = resolve_reference(None, Some(String::from("feature-x")));
    assert_eq!(r.unwrap(), "feature-x");
}

#[test]
fn reference_from_the_command_line_always_wins() {
    let r = resolve_reference(Some(String::from("main")), Some(String::from("feature-x")));
    assert_eq!(r.unwrap(), "main");
    let r = resolve_reference(Some(String::from("main")), None);
    assert_eq!(r.unwrap(), "main");
}

#[test]
fn reference_fails_without_a_branch() {
    assert_eq!(
        resolve_reference(None, None),
        Err(SamsonrError::MissingReference)
    );
}

#[test]
fn reference_treats_an_empty_branch_as_absent() {
    assert_eq!(
        resolve_reference(None, Some(String::new())),
        Err(SamsonrError::MissingReference)
    );
}

#[test]
fn project_id_falls_back_to_the_configuration() {
    let r = resolve_project_id(None, &config(None, Some(42)));
    assert_eq!(r.unwrap(), 42);
}

#[test]
fn project_id_from_the_command_line_always_wins() {
    let r = resolve_project_id(Some(7), &config(None, Some(42)));
    assert_eq!(r.unwrap(), 7);
}

#[test]
fn project_id_fails_without_any_source() {
    assert_eq!(
        resolve_project_id(None, &Configuration::empty()),
        Err(SamsonrError::MissingProjectId)
    );
}

#[test]
fn token_prefers_the_command_line() {
    let r = resolve_token(Some(String::from("cli")), &config(Some("file"), None));
    assert_eq!(r.unwrap(), "cli");
    let r = resolve_token(None, &config(Some("file"), None));
    assert_eq!(r.unwrap(), "file");
    assert_eq!(
        resolve_token(None, &Configuration::empty()),
        Err(SamsonrError::MissingToken)
    );
}

#[test]
fn stages_command_resolves_its_project() {
    let cmd = StagesCommand { project_id: Some(3) };
    assert_eq!(cmd.resolve_project(&config(None, Some(42))).unwrap(), 3);
    let cmd = StagesCommand { project_id: None };
    assert_eq!(cmd.resolve_project(&config(None, Some(42))).unwrap(), 42);
    let cmd = StagesCommand { project_id: None };
    assert_eq!(
        cmd.resolve_project(&Configuration::empty()),
        Err(SamsonrError::MissingProjectId)
    );
}

#[test]
fn deploy_command_resolves_both_inputs() {
    let cmd = DeployCommand { project_id: None, stage_id: 9, reference: None };
    let r = cmd
        .resolve_inputs(&config(None, Some(42)), Some(String::from("feature-x")))
        .unwrap();
    assert_eq!(r, (42, String::from("feature-x")));

    let cmd = DeployCommand {
        project_id: Some(7),
        stage_id: 9,
        reference: Some(String::from("main")),
    };
    let r = cmd
        .resolve_inputs(&config(None, Some(42)), Some(String::from("feature-x")))
        .unwrap();
    assert_eq!(r, (7, String::from("main")));

    let cmd = DeployCommand { project_id: Some(7), stage_id: 9, reference: None };
    assert_eq!(
        cmd.resolve_inputs(&Configuration::empty(), None),
        Err(SamsonrError::MissingReference)
    );

    let cmd = DeployCommand { project_id: None, stage_id: 9, reference: None };
    assert_eq!(
        cmd.resolve_inputs(&Configuration::empty(), Some(String::from("b"))),
        Err(SamsonrError::MissingProjectId)
    );
}

#[test]
fn verbosity_maps_to_log_levels() {
    assert_eq!(log_level(0), None);
    assert_eq!(log_level(1), Some(LogLevel::Error));
    assert_eq!(log_level(2), Some(LogLevel::Info));
    assert_eq!(log_level(3), Some(LogLevel::Debug));
    assert_eq!(log_level(4), Some(LogLevel::Trace));
    assert_eq!(log_level(5), None);
    assert_eq!(log_level(-1), None);
}
