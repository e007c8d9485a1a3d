use polkahub::deploy::{
    build_install_project_response, build_jenkins_params, deploy_succeeded, deploy_url,
    failed_to_deploy_project, install_outcome, plan_install, DeployerConfig, JenkinsConfig,
};
use polkahub::naming::ProjectNameError;

fn jenkins() -> JenkinsConfig {
    JenkinsConfig {
        jenkins_api: "https://ci.example.org".to_string(),
        jenkins_api_user: "ci-user".to_string(),
        jenkins_api_token: "ci-token".to_string(),
        job_name: "build-project".to_string(),
    }
}

fn deployer() -> DeployerConfig {
    DeployerConfig {
        deployer_api: "https://deploy.example.org".to_string(),
        deployer_api_user: "dep-user".to_string(),
        deployer_api_password: "dep-pass".to_string(),
    }
}

const PARAMS: &str = "{\"parameter\":[{\"name\":\"SRC_REPO_NAME\",\"value\":\"alice1-hello\"},{\"name\":\"DST_REPO_NAME\",\"value\":\"bob2-myapp\"},{\"name\":\"VERSION\",\"value\":\"0.1.0\"},{\"name\":\"DEPLOYER_API\",\"value\":\"https://deploy.example.org\"},{\"name\":\"DEPLOYER_API_USER\",\"value\":\"dep-user\"},{\"name\":\"DEPLOYER_API_PASSWORD\",\"value\":\"dep-pass\"}]}";

#[test]
fn jenkins_parameters_in_fixed_order() {
    assert_eq!(build_jenkins_params("alice1-hello", "bob2-myapp", "0.1.0", &deployer()), PARAMS);
}

#[test]
fn jenkins_parameters_are_escaped() {
    let p = build_jenkins_params("a\"b", "c\\d", "1", &deployer());
    assert!(p.contains("\"value\":\"a\\\"b\""));
    assert!(p.contains("\"value\":\"c\\\\d\""));
}

#[test]
fn deploy_job_endpoint() {
    assert_eq!(deploy_url("https://ci.example.org"), "https://ci.example.org/job/deploy-fixed-version/build");
}

#[test]
fn only_2xx_counts_as_submitted() {
    assert!(deploy_succeeded(Some(200)));
    assert!(deploy_succeeded(Some(201)));
    assert!(deploy_succeeded(Some(299)));
    assert!(!deploy_succeeded(Some(199)));
    assert!(!deploy_succeeded(Some(300)));
    assert!(!deploy_succeeded(Some(500)));
    assert!(!deploy_succeeded(None));
}

#[test]
fn install_plan_for_peer_project() {
    let p = plan_install("bob2", "myapp", "alice1", "hello", "0.1.0", 32, &jenkins(), &deployer()).unwrap();
    assert_eq!(p.src_repo_name, "alice1-hello");
    assert_eq!(p.dst_repo_name, "bob2-myapp");
    assert_eq!(p.url, "https://ci.example.org/job/deploy-fixed-version/build");
    assert_eq!(p.params, PARAMS);
}

#[test]
fn install_needs_valid_app_name() {
    assert!(matches!(
        plan_install("bob2", "My App", "alice1", "hello", "0.1.0", 32, &jenkins(), &deployer()),
        Err(ProjectNameError::InvalidCharacter)
    ));
}

#[test]
fn install_answers() {
    let p = plan_install("bob2", "myapp", "alice1", "hello", "0.1.0", 32, &jenkins(), &deployer()).unwrap();
    assert_eq!(
        install_outcome(&p, "0.1.0", "d.org", Some(201)),
        "{\"payload\":{\"http_url\":\"https://bob2-myapp-rpc.d.org\",\"ws_url\":\"wss://bob2-myapp.d.org\"},\"status\":\"ok\"}"
    );
    assert_eq!(install_outcome(&p, "0.1.0", "d.org", Some(201)), build_install_project_response("bob2-myapp", "d.org"));
    assert_eq!(
        install_outcome(&p, "0.1.0", "d.org", None),
        "{\"reason\":\"failed-to-deploy-project: bob2-myapp 0.1.0\",\"status\":\"error\"}"
    );
    assert_eq!(failed_to_deploy_project("x-y", "2"), "failed-to-deploy-project: x-y 2");
}
