use polkahub::accounts::Accounts;
use polkahub::catalog::Catalog;
use polkahub::credentials::AuthError;
use polkahub::deploy::{DeployerConfig, JenkinsConfig};
use polkahub::json::{error_body, login_body, ok_body};
use polkahub::service::{
    authenticate_basic, authenticate_bearer, begin_create_project, begin_install, find_project,
    git_auth, insert_user_project, login, session_expires_at, signup, verify_email,
    GitAuthResponse, SESSION_TTL_SECONDS,
};

const SALT: &str = "pepper";
const ALICE_BASIC: &str = "Basic YWxpY2VAZXhhbXBsZS5jb206cHctYWJjZGVmZ2g=";

fn jenkins() -> JenkinsConfig {
    JenkinsConfig {
        jenkins_api: "https://ci.example.org".to_string(),
        jenkins_api_user: "ci-user".to_string(),
        jenkins_api_token: "ci-token".to_string(),
        job_name: "build-project".to_string(),
    }
}

fn deployer() -> DeployerConfig {
    DeployerConfig {
        deployer_api: "https://deploy.example.org".to_string(),
        deployer_api_user: "dep-user".to_string(),
        deployer_api_password: "dep-pass".to_string(),
    }
}

/// alice signed up, verified and logged in with token `tok-a` at time 1000.
fn alice_logged_in() -> Accounts {
    let mut a = Accounts::new();
    assert_eq!(signup(&mut a, SALT, "alice@example.com", "pw-abcdefgh", "alice1", "va", 900), ok_body());
    assert_eq!(verify_email(&mut a, "va"), "Your email verified.");
    assert_eq!(login(&mut a, SALT, "alice@example.com", "pw-abcdefgh", "tok-a", 1000), login_body("tok-a"));
    a
}

#[test]
fn json_bodies() {
    assert_eq!(ok_body(), "{\"status\":\"ok\"}");
    assert_eq!(error_body("a\"b"), "{\"reason\":\"a\\\"b\",\"status\":\"error\"}");
    assert_eq!(login_body("t"), "{\"status\":\"ok\",\"token\":\"t\"}");
    assert_eq!(
        error_body("a\\b\u{1}\t\n\u{8}\u{c}\r\u{1f}é/"),
        "{\"reason\":\"a\\\\b\\u0001\\t\\n\\b\\f\\r\\u001fé/\",\"status\":\"error\"}"
    );
}

#[test]
fn session_expiry_adds_the_ttl() {
    assert_eq!(session_expires_at(1000), 1000 + SESSION_TTL_SECONDS);
    assert_eq!(session_expires_at(i64::MAX - 1), i64::MAX);
}

#[test]
fn round_trip_token_authenticates_until_expiry() {
    let a = alice_logged_in();
    assert_eq!(authenticate_bearer(&a, Some("Bearer tok-a"), 1000), Ok("alice1".to_string()));
    let last = 1000 + SESSION_TTL_SECONDS - 1;
    assert_eq!(authenticate_bearer(&a, Some("Bearer tok-a"), last), Ok("alice1".to_string()));
    assert_eq!(
        authenticate_bearer(&a, Some("Bearer tok-a"), 1000 + SESSION_TTL_SECONDS),
        Err(AuthError::AccountNotFound)
    );
    assert_eq!(authenticate_bearer(&a, Some("tok-a"), 1000), Err(AuthError::InvalidToken));
    assert_eq!(authenticate_bearer(&a, None, 1000), Err(AuthError::InvalidToken));
}

#[test]
fn signup_and_login_enforce_credential_policy() {
    let mut a = Accounts::new();
    let bad = error_body("invalid-email-and-password");
    assert_eq!(signup(&mut a, SALT, "", "pw-abcdefgh", "u1", "v", 1), bad);
    assert_eq!(signup(&mut a, SALT, "x@y.z", "short", "u1", "v", 1), bad);
    assert_eq!(a.accounts.len(), 0);
    assert_eq!(login(&mut a, SALT, "x@y.z", "short", "t", 1), bad);
}

#[test]
fn signup_stores_salted_hash_and_refuses_duplicates() {
    let mut a = Accounts::new();
    assert_eq!(signup(&mut a, SALT, "alice@example.com", "pw-abcdefgh", "alice1", "va", 1), ok_body());
    assert_eq!(a.accounts[0].password_hash, "c02ff817c2f922c3d21e61ed1b14c3af378108f1892fa863ec02acebaad24059");
    assert_eq!(
        signup(&mut a, SALT, "alice@example.com", "another-pw", "alice2", "vb", 2),
        error_body("email-already-exists")
    );
}

#[test]
fn login_with_wrong_password_is_not_found() {
    let mut a = alice_logged_in();
    assert_eq!(
        login(&mut a, SALT, "alice@example.com", "pw-wrong-one", "tok-x", 1100),
        error_body("account-not-found")
    );
}

#[test]
fn verify_with_unknown_token_is_invalid_request() {
    let mut a = Accounts::new();
    assert_eq!(verify_email(&mut a, "nothing"), "Invalid request");
}

#[test]
fn unverified_account_blocked_on_bearer_requests() {
    let mut a = Accounts::new();
    assert_eq!(signup(&mut a, SALT, "alice@example.com", "pw-abcdefgh", "alice1", "va", 900), ok_body());
    assert_eq!(login(&mut a, SALT, "alice@example.com", "pw-abcdefgh", "tok-a", 1000), login_body("tok-a"));
    let r = begin_create_project(&a, Some("Bearer tok-a"), 1001, "hello", 32, "/srv/repos");
    assert_eq!(r.err(), Some(error_body("email-not-verified")));
}

#[test]
fn happy_path_create_project_plan() {
    let a = alice_logged_in();
    let p = begin_create_project(&a, Some("Bearer tok-a"), 1001, "hello", 32, "/srv/repos").ok().unwrap();
    assert_eq!(p.repo_name, "alice1-hello");
    assert_eq!(p.repo_path, "/srv/repos/alice1-hello.git");
}

#[test]
fn invalid_project_name_answers_with_reason() {
    let a = alice_logged_in();
    let r = begin_create_project(&a, Some("Bearer tok-a"), 1001, "Hello World", 32, "/srv/repos");
    assert_eq!(
        r.err(),
        Some(error_body("invalid-project-name: uppercase letters, spaces and every character other than a-z, 0-9 and '-' are not allowed"))
    );
}

#[test]
fn install_under_the_callers_namespace() {
    let mut a = alice_logged_in();
    assert_eq!(signup(&mut a, SALT, "bob@example.com", "bob-password", "bob2", "vb", 900), ok_body());
    assert_eq!(verify_email(&mut a, "vb"), "Your email verified.");
    assert_eq!(login(&mut a, SALT, "bob@example.com", "bob-password", "tok-b", 1000), login_body("tok-b"));
    let p = begin_install(&a, Some("Bearer tok-b"), 1001, "myapp", "alice1", "hello", "0.1.0", 32, &jenkins(), &deployer())
        .ok()
        .unwrap();
    assert_eq!(p.src_repo_name, "alice1-hello");
    assert_eq!(p.dst_repo_name, "bob2-myapp");
    assert_eq!(p.url, "https://ci.example.org/job/deploy-fixed-version/build");
    assert!(p.params.starts_with(
        "{\"parameter\":[{\"name\":\"SRC_REPO_NAME\",\"value\":\"alice1-hello\"},{\"name\":\"DST_REPO_NAME\",\"value\":\"bob2-myapp\"},{\"name\":\"VERSION\",\"value\":\"0.1.0\"},"
    ));
}

#[test]
fn basic_authentication_resolves_login() {
    let a = alice_logged_in();
    assert_eq!(authenticate_basic(&a, SALT, Some(ALICE_BASIC)), Ok("alice1".to_string()));
    // a@b.c:short
    assert_eq!(authenticate_basic(&a, SALT, Some("Basic YUBiLmM6c2hvcnQ=")), Err(AuthError::InvalidEmailAndPassword));
}

#[test]
fn git_auth_forbids_other_namespaces() {
    let a = alice_logged_in();
    let r = git_auth(&a, SALT, Some(ALICE_BASIC), Some("/bob2-proj.git/info/refs"));
    assert_eq!(r, GitAuthResponse::Forbidden);
    assert_eq!(r.status(), 403);
}

#[test]
fn git_auth_allows_own_namespace() {
    let a = alice_logged_in();
    let r = git_auth(&a, SALT, Some(ALICE_BASIC), Some("/alice1-hello.git/info/refs"));
    assert_eq!(r, GitAuthResponse::Allowed);
    assert_eq!(r.status(), 200);
}

#[test]
fn git_auth_other_answers() {
    let a = alice_logged_in();
    assert_eq!(git_auth(&a, SALT, None, Some("/alice1-x")), GitAuthResponse::Challenge);
    assert_eq!(GitAuthResponse::Challenge.status(), 401);
    let r = git_auth(&a, SALT, Some("Basic ???"), Some("/alice1-x"));
    assert_eq!(r, GitAuthResponse::Unauthorized(AuthError::InvalidEmailAndPassword));
    assert_eq!(r.status(), 401);
    let r = git_auth(&a, SALT, Some(ALICE_BASIC), None);
    assert_eq!(r, GitAuthResponse::InvalidOriginalUri);
    assert_eq!(r.status(), 403);
}

#[test]
fn catalog_replies() {
    let a = alice_logged_in();
    let mut c = Catalog::new(32);
    assert_eq!(insert_user_project(&mut c, &a, "alice1", "hello", "0.1.0", None), ok_body());
    assert_eq!(
        insert_user_project(&mut c, &a, "alice1", "hello", "0.1.0", None),
        error_body("email-already-exists")
    );
    assert_eq!(insert_user_project(&mut c, &a, "ghost9", "hello", "0.1.0", None), error_body("account-not-found"));
    assert_eq!(
        insert_user_project(&mut c, &a, "alice1", "Hello World", "0.2.0", None),
        error_body("invalid-project-name: uppercase letters, spaces and every character other than a-z, 0-9 and '-' are not allowed")
    );
    assert_eq!(c.projects.len(), 1);
    assert_eq!(
        find_project(&a, &c, Some("Bearer tok-a"), 1001, "ell"),
        "{\"payload\":[{\"description\":null,\"login\":\"alice1\",\"name\":\"hello\",\"version\":\"0.1.0\"}],\"status\":\"ok\"}"
    );
    assert_eq!(find_project(&a, &c, Some("Bearer nope"), 1001, "ell"), error_body("account-not-found"));
}

#[test]
fn git_auth_bodies_and_challenge() {
    assert_eq!(GitAuthResponse::Challenge.body(), "");
    assert_eq!(
        GitAuthResponse::Challenge.www_authenticate(),
        Some("Basic realm=\"Please enter your email and password\"".to_string())
    );
    assert_eq!(GitAuthResponse::Forbidden.www_authenticate(), None);
    assert_eq!(GitAuthResponse::Forbidden.body(), "");
    assert_eq!(GitAuthResponse::Allowed.body(), ok_body());
    assert_eq!(GitAuthResponse::InvalidOriginalUri.body(), error_body("invalid-original-uri"));
    assert_eq!(
        GitAuthResponse::Unauthorized(AuthError::EmailNotVerified).body(),
        error_body("email-not-verified")
    );
}
