use polkahub::deploy::{DeployerConfig, JenkinsConfig};
use polkahub::provision::{
    build_create_project_response, create_project_outcome, first_step, next_after,
    plan_create_project, render_update_hook, HOOK_MODE, step_action, Action, ProvisionResult, ProvisionStep,
    Provisioning, StepOutcome,
};
use polkahub::naming::ProjectNameError;

fn jenkins() -> JenkinsConfig {
    JenkinsConfig {
        jenkins_api: "https://ci.example.org".to_string(),
        jenkins_api_user: "ci-user".to_string(),
        jenkins_api_token: "ci-token".to_string(),
        job_name: "build-project".to_string(),
    }
}

fn deployer() -> DeployerConfig {
    DeployerConfig {
        deployer_api: "https://deploy.example.org".to_string(),
        deployer_api_user: "dep-user".to_string(),
        deployer_api_password: "dep-pass".to_string(),
    }
}

#[test]
fn all_steps_succeeding_creates_the_repository() {
    let mut step = first_step();
    assert_eq!(step, ProvisionStep::CreateDirectory);
    let mut seen = vec![step];
    let result = loop {
        match next_after(step, StepOutcome::Done) {
            Provisioning::Run(next) => {
                seen.push(next);
                step = next;
            }
            Provisioning::Finished(r) => break r,
        }
    };
    assert_eq!(result, ProvisionResult::Created);
    assert_eq!(
        seen,
        vec![
            ProvisionStep::CreateDirectory,
            ProvisionStep::InitBare,
            ProvisionStep::UpdateServerInfo,
            ProvisionStep::EnableHttpPush,
            ProvisionStep::SetOwnership,
            ProvisionStep::SetMode,
            ProvisionStep::WriteDescription,
            ProvisionStep::WriteHook,
            ProvisionStep::MarkHookExecutable,
        ]
    );
}

#[test]
fn existing_directory_stops_before_any_change() {
    assert_eq!(
        next_after(ProvisionStep::CreateDirectory, StepOutcome::AlreadyExists),
        Provisioning::Finished(ProvisionResult::AlreadyExisted)
    );
}

#[test]
fn later_failures_fail_the_whole() {
    assert_eq!(next_after(ProvisionStep::CreateDirectory, StepOutcome::Failed), Provisioning::Finished(ProvisionResult::Failed));
    assert_eq!(next_after(ProvisionStep::WriteHook, StepOutcome::Failed), Provisioning::Finished(ProvisionResult::Failed));
    assert_eq!(next_after(ProvisionStep::InitBare, StepOutcome::AlreadyExists), Provisioning::Finished(ProvisionResult::Failed));
}

#[test]
fn plan_uses_canonical_name_and_path() {
    let p = plan_create_project("alice1", "hello", 32, "/srv/repos").unwrap();
    assert_eq!(p.repo_name, "alice1-hello");
    assert_eq!(p.repo_path, "/srv/repos/alice1-hello.git");
    assert_eq!(p.login, "alice1");
    assert_eq!(p.project_name, "hello");
}

#[test]
fn invalid_name_yields_no_plan() {
    assert!(matches!(
        plan_create_project("alice1", "Hello World", 32, "/srv/repos"),
        Err(ProjectNameError::InvalidCharacter)
    ));
}

fn run_of(a: Action) -> (String, Vec<String>, String) {
    match a {
        Action::Run { program, args, dir } => (program, args, dir),
        _ => panic!("expected a command"),
    }
}

#[test]
fn step_actions_match_the_sequence() {
    let p = plan_create_project("alice1", "hello", 32, "/srv/repos").unwrap();
    let (j, d) = (jenkins(), deployer());
    match step_action(&p, ProvisionStep::CreateDirectory, &j, &d) {
        Action::CreateDirectory { path } => assert_eq!(path, "/srv/repos/alice1-hello.git"),
        _ => panic!("expected directory creation"),
    }
    let (prog, args, dir) = run_of(step_action(&p, ProvisionStep::InitBare, &j, &d));
    assert_eq!((prog.as_str(), dir.as_str()), ("git", "/srv/repos/alice1-hello.git"));
    assert_eq!(args, vec!["--bare", "init"]);
    let (_, args, _) = run_of(step_action(&p, ProvisionStep::UpdateServerInfo, &j, &d));
    assert_eq!(args, vec!["update-server-info"]);
    let (_, args, _) = run_of(step_action(&p, ProvisionStep::EnableHttpPush, &j, &d));
    assert_eq!(args, vec!["config", "--file", "config", "http.receivepack", "true"]);
    let (prog, args, _) = run_of(step_action(&p, ProvisionStep::SetOwnership, &j, &d));
    assert_eq!(prog, "chown");
    assert_eq!(args, vec!["-R", "service.www-data", "."]);
    let (prog, args, _) = run_of(step_action(&p, ProvisionStep::SetMode, &j, &d));
    assert_eq!(prog, "chmod");
    assert_eq!(args, vec!["-R", "775", "."]);
    match step_action(&p, ProvisionStep::WriteDescription, &j, &d) {
        Action::WriteFile { path, contents } => {
            assert_eq!(path, "/srv/repos/alice1-hello.git/description");
            assert_eq!(contents, "alice1-hello");
        }
        _ => panic!("expected a file"),
    }
    match step_action(&p, ProvisionStep::WriteHook, &j, &d) {
        Action::WriteFileAtomically { path, temp_path, contents, mode } => {
            assert_eq!(path, "/srv/repos/alice1-hello.git/hooks/update");
            assert_eq!(temp_path, "/srv/repos/alice1-hello.git/hooks/update.tmp");
            assert_eq!(contents, render_update_hook(&j, &d, "alice1", "hello"));
            assert_eq!(mode, 0o775);
            assert_eq!(mode, HOOK_MODE);
        }
        _ => panic!("expected an atomic write"),
    }
    let (prog, args, _) = run_of(step_action(&p, ProvisionStep::MarkHookExecutable, &j, &d));
    assert_eq!(prog, "chmod");
    assert_eq!(args, vec!["775", "hooks/update"]);
}

#[test]
fn hook_carries_every_parameter() {
    let hook = render_update_hook(&jenkins(), &deployer(), "alice1", "hello");
    assert!(hook.starts_with("#!/bin/sh\n"));
    assert!(hook.contains("'ci-user:ci-token'"));
    assert!(hook.contains("'LOGIN=alice1'"));
    assert!(hook.contains("'PROJECT_NAME=hello'"));
    assert!(hook.contains("'https://ci.example.org/job/build-project/build'"));
    assert!(hook.contains("'dep-user:dep-pass'"));
    assert!(hook.contains("'NAME=alice1-hello'"));
    assert!(hook.contains("'https://deploy.example.org/deploy'"));
}

#[test]
fn happy_path_provision_answer() {
    assert_eq!(
        create_project_outcome(ProvisionResult::Created, "alice1-hello", "d.org"),
        "{\"payload\":{\"http_url\":\"https://alice1-hello-rpc.d.org\",\"repo_url\":\"https://git.d.org/alice1-hello.git\",\"repository_created\":true,\"ws_url\":\"wss://alice1-hello.d.org\"},\"status\":\"ok\"}"
    );
}

#[test]
fn duplicate_provision_answer() {
    assert_eq!(
        create_project_outcome(ProvisionResult::AlreadyExisted, "alice1-hello", "d.org"),
        build_create_project_response(false, "alice1-hello", "d.org")
    );
    assert!(create_project_outcome(ProvisionResult::AlreadyExisted, "alice1-hello", "d.org")
        .contains("\"repository_created\":false"));
}

#[test]
fn failed_provision_answer() {
    assert_eq!(
        create_project_outcome(ProvisionResult::Failed, "alice1-hello", "d.org"),
        "{\"reason\":\"internal-error: can not create repository\",\"status\":\"error\"}"
    );
}
