use vstd::prelude::*;
use vstd::string::*;

use crate::deploy::{DeployerConfig, JenkinsConfig};
use crate::json::{error_body, error_body_of, json_field, push_field};
use crate::naming::{
    canonical, http_url, http_url_of, project_name_verdict, repo_name, repo_url, repo_url_of,
    validate_project_name, ws_url, ws_url_of, ProjectNameError,
};
use crate::text::concat3;

verus! {

/// The steps that provision a repository, in their contractual order.
#[derive(Clone, Copy, Debug, PartialEq, Eq, Structural)]
pub enum ProvisionStep {
    CreateDirectory,
    InitBare,
    UpdateServerInfo,
    EnableHttpPush,
    SetOwnership,
    SetMode,
    WriteDescription,
    WriteHook,
    MarkHookExecutable,
}

/// How a step went.
#[derive(Clone, Copy, Debug, PartialEq, Eq, Structural)]
pub enum StepOutcome {
    Done,
    /// The target already existed.
    AlreadyExists,
    Failed,
}

/// How provisioning ended.
#[derive(Clone, Copy, Debug, PartialEq, Eq, Structural)]
pub enum ProvisionResult {
    Created,
    /// The repository directory was already there; nothing was touched.
    AlreadyExisted,
    Failed,
}

/// What to do after a step: run another, or stop with a result.
#[derive(Clone, Copy, Debug, PartialEq, Eq, Structural)]
pub enum Provisioning {
    Run(ProvisionStep),
    Finished(ProvisionResult),
}

pub open spec fn successor(step: ProvisionStep) -> Option<ProvisionStep> {
    match step {
        ProvisionStep::CreateDirectory => Some(ProvisionStep::InitBare),
        ProvisionStep::InitBare => Some(ProvisionStep::UpdateServerInfo),
        ProvisionStep::UpdateServerInfo => Some(ProvisionStep::EnableHttpPush),
        ProvisionStep::EnableHttpPush => Some(ProvisionStep::SetOwnership),
        ProvisionStep::SetOwnership => Some(ProvisionStep::SetMode),
        ProvisionStep::SetMode => Some(ProvisionStep::WriteDescription),
        ProvisionStep::WriteDescription => Some(ProvisionStep::WriteHook),
        ProvisionStep::WriteHook => Some(ProvisionStep::MarkHookExecutable),
        ProvisionStep::MarkHookExecutable => None,
    }
}

/// The decision after `step` ended with `outcome`: every step must succeed;
/// an existing directory at the first step ends the whole with `AlreadyExisted`;
/// any other failure ends it with `Failed`.
pub open spec fn after_spec(step: ProvisionStep, outcome: StepOutcome) -> Provisioning {
    match outcome {
        StepOutcome::Done => match successor(step) {
            Some(next) => Provisioning::Run(next),
            None => Provisioning::Finished(ProvisionResult::Created),
        },
        StepOutcome::AlreadyExists => if step == ProvisionStep::CreateDirectory {
            Provisioning::Finished(ProvisionResult::AlreadyExisted)
        } else {
            Provisioning::Finished(ProvisionResult::Failed)
        },
        StepOutcome::Failed => Provisioning::Finished(ProvisionResult::Failed),
    }
}

/// The step that provisioning starts with.
pub fn first_step() -> (r: ProvisionStep)
    ensures
        r == ProvisionStep::CreateDirectory,
{
    ProvisionStep::CreateDirectory
}

/// What follows `step` once it ended with `outcome`.
pub fn next_after(step: ProvisionStep, outcome: StepOutcome) -> (r: Provisioning)
    ensures
        r == after_spec(step, outcome),
{
    match outcome {
        StepOutcome::Done => match step {
            ProvisionStep::CreateDirectory => Provisioning::Run(ProvisionStep::InitBare),
            ProvisionStep::InitBare => Provisioning::Run(ProvisionStep::UpdateServerInfo),
            ProvisionStep::UpdateServerInfo => Provisioning::Run(ProvisionStep::EnableHttpPush),
            ProvisionStep::EnableHttpPush => Provisioning::Run(ProvisionStep::SetOwnership),
            ProvisionStep::SetOwnership => Provisioning::Run(ProvisionStep::SetMode),
            ProvisionStep::SetMode => Provisioning::Run(ProvisionStep::WriteDescription),
            ProvisionStep::WriteDescription => Provisioning::Run(ProvisionStep::WriteHook),
            ProvisionStep::WriteHook => Provisioning::Run(ProvisionStep::MarkHookExecutable),
            ProvisionStep::MarkHookExecutable => Provisioning::Finished(ProvisionResult::Created),
        },
        StepOutcome::AlreadyExists => match step {
            ProvisionStep::CreateDirectory => Provisioning::Finished(ProvisionResult::AlreadyExisted),
            _ => Provisioning::Finished(ProvisionResult::Failed),
        },
        StepOutcome::Failed => Provisioning::Finished(ProvisionResult::Failed),
    }
}

/// The steps attempted from `step` on when they end with `outcomes` in turn,
/// and the result once provisioning stops (`None` while it would go on).
pub open spec fn run_from(step: ProvisionStep, outcomes: Seq<StepOutcome>) -> (Seq<ProvisionStep>, Option<ProvisionResult>)
    decreases outcomes.len(),
{
    if outcomes.len() == 0 {
        (Seq::empty(), None)
    } else {
        match after_spec(step, outcomes[0]) {
            Provisioning::Finished(r) => (seq![step], Some(r)),
            Provisioning::Run(next) => {
                let rest = run_from(next, outcomes.drop_first());
                (seq![step] + rest.0, rest.1)
            },
        }
    }
}

/// Provisioning a repository whose directory already exists attempts only the
/// directory creation (which changed nothing) and ends with `AlreadyExisted`,
/// whatever outcomes the later steps would have had.
pub proof fn lemma_existing_repository_left_alone(outcomes: Seq<StepOutcome>)
    requires
        outcomes.len() > 0,
        outcomes[0] == StepOutcome::AlreadyExists,
    ensures
        run_from(ProvisionStep::CreateDirectory, outcomes) == (
            seq![ProvisionStep::CreateDirectory],
            Some(ProvisionResult::AlreadyExisted),
        ),
{
}

/// Provisioning ends with `Created` exactly when all nine steps succeed, in order.
pub proof fn lemma_created_runs_every_step(outcomes: Seq<StepOutcome>)
    requires
        outcomes.len() == 9,
        forall|i: int| 0 <= i < 9 ==> outcomes[i] == StepOutcome::Done,
    ensures
        run_from(ProvisionStep::CreateDirectory, outcomes) == (
            seq![
                ProvisionStep::CreateDirectory,
                ProvisionStep::InitBare,
                ProvisionStep::UpdateServerInfo,
                ProvisionStep::EnableHttpPush,
                ProvisionStep::SetOwnership,
                ProvisionStep::SetMode,
                ProvisionStep::WriteDescription,
                ProvisionStep::WriteHook,
                ProvisionStep::MarkHookExecutable,
            ],
            Some(ProvisionResult::Created),
        ),
{
    let o = outcomes;
    assert(o.drop_first().drop_first().drop_first().drop_first().drop_first().drop_first().drop_first().drop_first().drop_first().len() == 0);
    reveal_with_fuel(run_from, 10);
    assert(run_from(ProvisionStep::CreateDirectory, outcomes).0 =~= seq![
        ProvisionStep::CreateDirectory,
        ProvisionStep::InitBare,
        ProvisionStep::UpdateServerInfo,
        ProvisionStep::EnableHttpPush,
        ProvisionStep::SetOwnership,
        ProvisionStep::SetMode,
        ProvisionStep::WriteDescription,
        ProvisionStep::WriteHook,
        ProvisionStep::MarkHookExecutable,
    ]);
}

/// The text of the server-side `hooks/update` script.
pub open spec fn hook_text(
    jenkins_api: Seq<char>,
    jenkins_api_user: Seq<char>,
    jenkins_api_token: Seq<char>,
    job_name: Seq<char>,
    deployer_api: Seq<char>,
    deployer_api_user: Seq<char>,
    deployer_api_password: Seq<char>,
    login: Seq<char>,
    project_name: Seq<char>,
) -> Seq<char> {
    "#!/bin/sh\n# Server-side update hook: runs once for each pushed ref.\n# Arguments: <ref name> <old object> <new object>\nset -e\nREF=\"$1\"\nSHA=\"$3\"\ncurl --fail --silent --show-error -X POST \\\n  --user '"@
        + jenkins_api_user
        + ":"@
        + jenkins_api_token
        + "' \\\n  --data-urlencode 'LOGIN="@
        + login
        + "' \\\n  --data-urlencode 'PROJECT_NAME="@
        + project_name
        + "' \\\n  --data-urlencode \"REF=$REF\" \\\n  --data-urlencode \"SHA=$SHA\" \\\n  '"@
        + jenkins_api
        + "/job/"@
        + job_name
        + "/build'\ncurl --fail --silent --show-error -X POST \\\n  --user '"@
        + deployer_api_user
        + ":"@
        + deployer_api_password
        + "' \\\n  --data-urlencode 'NAME="@
        + login
        + "-"@
        + project_name
        + "' \\\n  --data-urlencode \"SHA=$SHA\" \\\n  '"@
        + deployer_api
        + "/deploy'\n"@
}

/// Renders the `hooks/update` script for `login`'s `project_name`.
pub fn render_update_hook(
    jenkins_config: &JenkinsConfig,
    deployer_config: &DeployerConfig,
    login: &str,
    project_name: &str,
) -> (r: String)
    ensures
        r@ == hook_text(
            jenkins_config.jenkins_api@,
            jenkins_config.jenkins_api_user@,
            jenkins_config.jenkins_api_token@,
            jenkins_config.job_name@,
            deployer_config.deployer_api@,
            deployer_config.deployer_api_user@,
            deployer_config.deployer_api_password@,
            login@,
            project_name@,
        ),
{
    let mut r = String::new();
    r.append("#!/bin/sh\n# Server-side update hook: runs once for each pushed ref.\n# Arguments: <ref name> <old object> <new object>\nset -e\nREF=\"$1\"\nSHA=\"$3\"\ncurl --fail --silent --show-error -X POST \\\n  --user '");
    r.append(jenkins_config.jenkins_api_user.as_str());
    r.append(":");
    r.append(jenkins_config.jenkins_api_token.as_str());
    r.append("' \\\n  --data-urlencode 'LOGIN=");
    r.append(login);
    r.append("' \\\n  --data-urlencode 'PROJECT_NAME=");
    r.append(project_name);
    r.append("' \\\n  --data-urlencode \"REF=$REF\" \\\n  --data-urlencode \"SHA=$SHA\" \\\n  '");
    r.append(jenkins_config.jenkins_api.as_str());
    r.append("/job/");
    r.append(jenkins_config.job_name.as_str());
    r.append("/build'\ncurl --fail --silent --show-error -X POST \\\n  --user '");
    r.append(deployer_config.deployer_api_user.as_str());
    r.append(":");
    r.append(deployer_config.deployer_api_password.as_str());
    r.append("' \\\n  --data-urlencode 'NAME=");
    r.append(login);
    r.append("-");
    r.append(project_name);
    r.append("' \\\n  --data-urlencode \"SHA=$SHA\" \\\n  '");
    r.append(deployer_config.deployer_api.as_str());
    r.append("/deploy'\n");
    r
}

/// A validated request to provision `login`'s `project_name`.
pub struct ProvisionPlan {
    pub login: String,
    pub project_name: String,
    pub repo_name: String,
    pub repo_path: String,
}

/// `<base>/<canonical>.git`
pub open spec fn repo_path_of(base: Seq<char>, repo: Seq<char>) -> Seq<char> {
    base + "/"@ + repo + ".git"@
}

/// Plans the repository of `login`'s `project_name` under `base_repo_dir`;
/// the project name must be valid.
pub fn plan_create_project(login: &str, project_name: &str, max_len: usize, base_repo_dir: &str) -> (r: Result<
    ProvisionPlan,
    ProjectNameError,
>)
    ensures
        project_name_verdict(project_name@, max_len as nat) matches Err(e) ==> r == Err::<ProvisionPlan, ProjectNameError>(e),
        project_name_verdict(project_name@, max_len as nat) is Ok ==> (r matches Ok(p) && {
            &&& p.login@ == login@
            &&& p.project_name@ == project_name@
            &&& p.repo_name@ == canonical(login@, project_name@)
            &&& p.repo_path@ == repo_path_of(base_repo_dir@, canonical(login@, project_name@))
        }),
{
    match validate_project_name(project_name, max_len) {
        Err(e) => Err(e),
        Ok(()) => {
            let name = repo_name(login, project_name);
            let mut path = concat3(base_repo_dir, "/", name.as_str());
            path.append(".git");
            Ok(ProvisionPlan {
                login: String::from_str(login),
                project_name: String::from_str(project_name),
                repo_name: name,
                repo_path: path,
            })
        },
    }
}

/// Permission bits of the rendered hook: rwxrwxr-x.
pub const HOOK_MODE: u32 = 0o775;

/// One thing to do on the filesystem.
pub enum Action {
    CreateDirectory { path: String },
    /// Run `program` with `args` in the directory `dir`.
    Run { program: String, args: Vec<String>, dir: String },
    /// Create or truncate the file at `path` and write `contents`.
    WriteFile { path: String, contents: String },
    /// Write `contents` to a fresh file at `temp_path` with permission bits
    /// `mode`, then rename it to `path`, so that `path` never holds a partial
    /// file.
    WriteFileAtomically { path: String, temp_path: String, contents: String, mode: u32 },
}

pub enum ActionView {
    CreateDirectory(Seq<char>),
    Run(Seq<char>, Seq<Seq<char>>, Seq<char>),
    WriteFile(Seq<char>, Seq<char>),
    WriteFileAtomically(Seq<char>, Seq<char>, Seq<char>, u32),
}

pub open spec fn args_view(v: Seq<String>) -> Seq<Seq<char>> {
    v.map_values(|a: String| a@)
}

impl View for Action {
    type V = ActionView;

    open spec fn view(&self) -> ActionView {
        match self {
            Action::CreateDirectory { path } => ActionView::CreateDirectory(path@),
            Action::Run { program, args, dir } => ActionView::Run(program@, args_view(args@), dir@),
            Action::WriteFile { path, contents } => ActionView::WriteFile(path@, contents@),
            Action::WriteFileAtomically { path, temp_path, contents, mode } => ActionView::WriteFileAtomically(
                path@,
                temp_path@,
                contents@,
                *mode,
            ),
        }
    }
}

/// The action that carries out `step` for the repository at `path`.
pub open spec fn action_of(
    path: Seq<char>,
    repo: Seq<char>,
    hook: Seq<char>,
    step: ProvisionStep,
) -> ActionView {
    match step {
        ProvisionStep::CreateDirectory => ActionView::CreateDirectory(path),
        ProvisionStep::InitBare => ActionView::Run("git"@, seq!["--bare"@, "init"@], path),
        ProvisionStep::UpdateServerInfo => ActionView::Run("git"@, seq!["update-server-info"@], path),
        ProvisionStep::EnableHttpPush => ActionView::Run(
            "git"@,
            seq!["config"@, "--file"@, "config"@, "http.receivepack"@, "true"@],
            path,
        ),
        ProvisionStep::SetOwnership => ActionView::Run("chown"@, seq!["-R"@, "service.www-data"@, "."@], path),
        ProvisionStep::SetMode => ActionView::Run("chmod"@, seq!["-R"@, "775"@, "."@], path),
        ProvisionStep::WriteDescription => ActionView::WriteFile(path + "/description"@, repo),
        ProvisionStep::WriteHook => ActionView::WriteFileAtomically(
            path + "/hooks/update"@,
            path + "/hooks/update.tmp"@,
            hook,
            HOOK_MODE,
        ),
        ProvisionStep::MarkHookExecutable => ActionView::Run("chmod"@, seq!["775"@, "hooks/update"@], path),
    }
}

fn push_arg(v: &mut Vec<String>, a: &str)
    ensures
        args_view(final(v)@) == args_view(old(v)@).push(a@),
{
    let ghost o = old(v)@;
    v.push(String::from_str(a));
    assert(args_view(final(v)@) =~= args_view(o).push(a@));
}

fn run(program: &str, args: Vec<String>, dir: &str) -> (r: Action)
    ensures
        r@ == ActionView::Run(program@, args_view(args@), dir@),
{
    Action::Run { program: String::from_str(program), args, dir: String::from_str(dir) }
}

/// The action for `step` of `plan`.
pub fn step_action(
    plan: &ProvisionPlan,
    step: ProvisionStep,
    jenkins_config: &JenkinsConfig,
    deployer_config: &DeployerConfig,
) -> (r: Action)
    ensures
        r@ == action_of(
            plan.repo_path@,
            plan.repo_name@,
            hook_text(
                jenkins_config.jenkins_api@,
                jenkins_config.jenkins_api_user@,
                jenkins_config.jenkins_api_token@,
                jenkins_config.job_name@,
                deployer_config.deployer_api@,
                deployer_config.deployer_api_user@,
                deployer_config.deployer_api_password@,
                plan.login@,
                plan.project_name@,
            ),
            step,
        ),
{
    let path = plan.repo_path.as_str();
    let mut args: Vec<String> = Vec::new();
    let ghost e = args_view(args@);
    assert(e =~= Seq::<Seq<char>>::empty());
    match step {
        ProvisionStep::CreateDirectory => Action::CreateDirectory { path: String::from_str(path) },
        ProvisionStep::InitBare => {
            push_arg(&mut args, "--bare");
            push_arg(&mut args, "init");
            assert(args_view(args@) =~= seq!["--bare"@, "init"@]);
            run("git", args, path)
        },
        ProvisionStep::UpdateServerInfo => {
            push_arg(&mut args, "update-server-info");
            assert(args_view(args@) =~= seq!["update-server-info"@]);
            run("git", args, path)
        },
        ProvisionStep::EnableHttpPush => {
            push_arg(&mut args, "config");
            push_arg(&mut args, "--file");
            push_arg(&mut args, "config");
            push_arg(&mut args, "http.receivepack");
            push_arg(&mut args, "true");
            assert(args_view(args@) =~= seq!["config"@, "--file"@, "config"@, "http.receivepack"@, "true"@]);
            run("git", args, path)
        },
        ProvisionStep::SetOwnership => {
            push_arg(&mut args, "-R");
            push_arg(&mut args, "service.www-data");
            push_arg(&mut args, ".");
            assert(args_view(args@) =~= seq!["-R"@, "service.www-data"@, "."@]);
            run("chown", args, path)
        },
        ProvisionStep::SetMode => {
            push_arg(&mut args, "-R");
            push_arg(&mut args, "775");
            push_arg(&mut args, ".");
            assert(args_view(args@) =~= seq!["-R"@, "775"@, "."@]);
            run("chmod", args, path)
        },
        ProvisionStep::WriteDescription => {
            let p = concat3(path, "/description", "");
            proof {
                reveal_strlit("");
                assert(p@ =~= plan.repo_path@ + "/description"@);
            }
            Action::WriteFile { path: p, contents: String::from_str(plan.repo_name.as_str()) }
        },
        ProvisionStep::WriteHook => {
            let p = concat3(path, "/hooks/update", "");
            let t = concat3(path, "/hooks/update.tmp", "");
            proof {
                reveal_strlit("");
                assert(p@ =~= plan.repo_path@ + "/hooks/update"@);
                assert(t@ =~= plan.repo_path@ + "/hooks/update.tmp"@);
            }
            let hook = render_update_hook(
                jenkins_config,
                deployer_config,
                plan.login.as_str(),
                plan.project_name.as_str(),
            );
            Action::WriteFileAtomically { path: p, temp_path: t, contents: hook, mode: HOOK_MODE }
        },
        ProvisionStep::MarkHookExecutable => {
            push_arg(&mut args, "775");
            push_arg(&mut args, "hooks/update");
            assert(args_view(args@) =~= seq!["775"@, "hooks/update"@]);
            run("chmod", args, path)
        },
    }
}

/// `{"payload":{"http_url":..,"repo_url":..,"repository_created":..,"ws_url":..},"status":"ok"}`
pub open spec fn create_body_of(created: bool, repo: Seq<char>, domain: Seq<char>) -> Seq<char> {
    "{\"payload\":{"@ + json_field("http_url"@, http_url_of(repo, domain)) + ","@ + json_field(
        "repo_url"@,
        repo_url_of(repo, domain),
    ) + ",\"repository_created\":"@ + (if created {
        "true"@
    } else {
        "false"@
    }) + ","@ + json_field("ws_url"@, ws_url_of(repo, domain)) + "},\"status\":\"ok\"}"@
}

/// The body of a create-project answer.
pub fn build_create_project_response(
    repository_created: bool,
    repo_name: &str,
    base_domain: &str,
) -> (r: String)
    ensures
        r@ == create_body_of(repository_created, repo_name@, base_domain@),
{
    let h = http_url(repo_name, base_domain);
    let u = repo_url(repo_name, base_domain);
    let w = ws_url(repo_name, base_domain);
    let mut r = String::from_str("{\"payload\":{");
    push_field(&mut r, "http_url", h.as_str());
    r.append(",");
    push_field(&mut r, "repo_url", u.as_str());
    r.append(",\"repository_created\":");
    if repository_created {
        r.append("true");
    } else {
        r.append("false");
    }
    r.append(",");
    push_field(&mut r, "ws_url", w.as_str());
    r.append("},\"status\":\"ok\"}");
    r
}

/// The reason given when provisioning failed part-way.
pub open spec fn provision_failure_of() -> Seq<char> {
    "internal-error: can not create repository"@
}

/// The answer to a create-project request once provisioning has ended: an
/// existing repository is reported as success with `repository_created` false.
pub fn create_project_outcome(
    result: ProvisionResult,
    repo_name: &str,
    base_domain: &str,
) -> (r: String)
    ensures
        result == ProvisionResult::Created ==> r@ == create_body_of(true, repo_name@, base_domain@),
        result == ProvisionResult::AlreadyExisted ==> r@ == create_body_of(false, repo_name@, base_domain@),
        result == ProvisionResult::Failed ==> r@ == error_body_of(provision_failure_of()),
{
    match result {
        ProvisionResult::Created => build_create_project_response(true, repo_name, base_domain),
        ProvisionResult::AlreadyExisted => build_create_project_response(false, repo_name, base_domain),
        ProvisionResult::Failed => error_body("internal-error: can not create repository"),
    }
}

} // verus!
