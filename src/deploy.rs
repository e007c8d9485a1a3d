use vstd::prelude::*;
use vstd::string::*;

use crate::json::{error_body, error_body_of, json_field, push_field};
use crate::naming::{
    canonical, http_url, http_url_of, project_name_verdict, repo_name, validate_project_name,
    ws_url, ws_url_of, ProjectNameError,
};
use crate::text::concat2;

verus! {

/// Where and as whom the CI service is reached.
pub struct JenkinsConfig {
    pub jenkins_api: String,
    pub jenkins_api_user: String,
    pub jenkins_api_token: String,
    pub job_name: String,
}

/// Where and as whom the deployer service is reached.
pub struct DeployerConfig {
    pub deployer_api: String,
    pub deployer_api_user: String,
    pub deployer_api_password: String,
}

/// `{"name":<name>,"value":<value>}`
pub open spec fn param_of(name: Seq<char>, value: Seq<char>) -> Seq<char> {
    "{"@ + json_field("name"@, name) + ","@ + json_field("value"@, value) + "}"@
}

fn push_param(out: &mut String, name: &str, value: &str)
    ensures
        final(out)@ == old(out)@ + param_of(name@, value@),
{
    let ghost o = old(out)@;
    out.append("{");
    push_field(out, "name", name);
    out.append(",");
    push_field(out, "value", value);
    out.append("}");
    assert(final(out)@ =~= o + param_of(name@, value@));
}

/// The CI job's parameter document, parameters in their fixed order.
pub open spec fn jenkins_params_of(
    src: Seq<char>,
    dst: Seq<char>,
    version: Seq<char>,
    api: Seq<char>,
    user: Seq<char>,
    password: Seq<char>,
) -> Seq<char> {
    "{\"parameter\":["@ + param_of("SRC_REPO_NAME"@, src) + ","@ + param_of("DST_REPO_NAME"@, dst)
        + ","@ + param_of("VERSION"@, version) + ","@ + param_of("DEPLOYER_API"@, api) + ","@
        + param_of("DEPLOYER_API_USER"@, user) + ","@ + param_of("DEPLOYER_API_PASSWORD"@, password)
        + "]}"@
}

/// The parameter document sent as form field `json` to the deploy job.
pub fn build_jenkins_params(
    src_repo_name: &str,
    dst_repo_name: &str,
    version: &str,
    deployer_config: &DeployerConfig,
) -> (r: String)
    ensures
        r@ == jenkins_params_of(
            src_repo_name@,
            dst_repo_name@,
            version@,
            deployer_config.deployer_api@,
            deployer_config.deployer_api_user@,
            deployer_config.deployer_api_password@,
        ),
{
    let mut r = String::from_str("{\"parameter\":[");
    push_param(&mut r, "SRC_REPO_NAME", src_repo_name);
    r.append(",");
    push_param(&mut r, "DST_REPO_NAME", dst_repo_name);
    r.append(",");
    push_param(&mut r, "VERSION", version);
    r.append(",");
    push_param(&mut r, "DEPLOYER_API", deployer_config.deployer_api.as_str());
    r.append(",");
    push_param(&mut r, "DEPLOYER_API_USER", deployer_config.deployer_api_user.as_str());
    r.append(",");
    push_param(&mut r, "DEPLOYER_API_PASSWORD", deployer_config.deployer_api_password.as_str());
    r.append("]}");
    r
}

/// `<jenkins_api>/job/deploy-fixed-version/build`
pub open spec fn deploy_url_of(api: Seq<char>) -> Seq<char> {
    api + "/job/deploy-fixed-version/build"@
}

/// The endpoint of the deploy job.
pub fn deploy_url(jenkins_api: &str) -> (r: String)
    ensures
        r@ == deploy_url_of(jenkins_api@),
{
    concat2(jenkins_api, "/job/deploy-fixed-version/build")
}

/// Whether the CI answered: a response came back with a 2xx status.
pub open spec fn deploy_accepted(status: Option<u16>) -> bool {
    status matches Some(s) && 200 <= s < 300
}

/// Whether a deploy request counts as submitted, from the HTTP status that
/// came back (`None` where the request failed in transport).
pub fn deploy_succeeded(status: Option<u16>) -> (r: bool)
    ensures
        r == deploy_accepted(status),
{
    match status {
        Some(s) => 200 <= s && s < 300,
        None => false,
    }
}

/// A deploy request ready to be posted to the CI.
pub struct InstallPlan {
    pub src_repo_name: String,
    pub dst_repo_name: String,
    pub url: String,
    pub params: String,
}

/// Plans the install of `src_login`'s `project_name` at `version` as the
/// caller's application `app_name`; the application name must be valid.
pub fn plan_install(
    caller_login: &str,
    app_name: &str,
    src_login: &str,
    project_name: &str,
    version: &str,
    max_len: usize,
    jenkins_config: &JenkinsConfig,
    deployer_config: &DeployerConfig,
) -> (r: Result<InstallPlan, ProjectNameError>)
    ensures
        project_name_verdict(app_name@, max_len as nat) matches Err(e) ==> r == Err::<InstallPlan, ProjectNameError>(e),
        project_name_verdict(app_name@, max_len as nat) is Ok ==> (r matches Ok(p) && {
            &&& p.src_repo_name@ == canonical(src_login@, project_name@)
            &&& p.dst_repo_name@ == canonical(caller_login@, app_name@)
            &&& p.url@ == deploy_url_of(jenkins_config.jenkins_api@)
            &&& p.params@ == jenkins_params_of(
                canonical(src_login@, project_name@),
                canonical(caller_login@, app_name@),
                version@,
                deployer_config.deployer_api@,
                deployer_config.deployer_api_user@,
                deployer_config.deployer_api_password@,
            )
        }),
{
    match validate_project_name(app_name, max_len) {
        Err(e) => Err(e),
        Ok(()) => {
            let src_repo_name = repo_name(src_login, project_name);
            let dst_repo_name = repo_name(caller_login, app_name);
            let url = deploy_url(jenkins_config.jenkins_api.as_str());
            let params = build_jenkins_params(
                src_repo_name.as_str(),
                dst_repo_name.as_str(),
                version,
                deployer_config,
            );
            Ok(InstallPlan { src_repo_name, dst_repo_name, url, params })
        },
    }
}

/// `{"payload":{"http_url":..,"ws_url":..},"status":"ok"}` for an application.
pub open spec fn install_body_of(dst: Seq<char>, domain: Seq<char>) -> Seq<char> {
    "{\"payload\":{"@ + json_field("http_url"@, http_url_of(dst, domain)) + ","@ + json_field(
        "ws_url"@,
        ws_url_of(dst, domain),
    ) + "},\"status\":\"ok\"}"@
}

/// The body of a submitted install.
pub fn build_install_project_response(app_url: &str, base_domain: &str) -> (r: String)
    ensures
        r@ == install_body_of(app_url@, base_domain@),
{
    let h = http_url(app_url, base_domain);
    let w = ws_url(app_url, base_domain);
    let mut r = String::from_str("{\"payload\":{");
    push_field(&mut r, "http_url", h.as_str());
    r.append(",");
    push_field(&mut r, "ws_url", w.as_str());
    r.append("},\"status\":\"ok\"}");
    r
}

/// `failed-to-deploy-project: <dst> <version>`
pub open spec fn deploy_failure_of(dst: Seq<char>, version: Seq<char>) -> Seq<char> {
    "failed-to-deploy-project: "@ + dst + " "@ + version
}

/// The reason given when the deploy request was not accepted.
pub fn failed_to_deploy_project(dst_repo_name: &str, version: &str) -> (r: String)
    ensures
        r@ == deploy_failure_of(dst_repo_name@, version@),
{
    let mut r = concat2("failed-to-deploy-project: ", dst_repo_name);
    r.append(" ");
    r.append(version);
    r
}

/// The answer to an install, given the HTTP status the CI gave (`None` on a
/// transport failure).
pub fn install_outcome(plan: &InstallPlan, version: &str, base_domain: &str, status: Option<u16>) -> (r: String)
    ensures
        deploy_accepted(status) ==> r@ == install_body_of(plan.dst_repo_name@, base_domain@),
        !deploy_accepted(status) ==> r@ == error_body_of(deploy_failure_of(plan.dst_repo_name@, version@)),
{
    if deploy_succeeded(status) {
        build_install_project_response(plan.dst_repo_name.as_str(), base_domain)
    } else {
        let reason = failed_to_deploy_project(plan.dst_repo_name.as_str(), version);
        error_body(reason.as_str())
    }
}

} // verus!
