use vstd::prelude::*;
use vstd::string::*;

use crate::accounts::{
    bearer_result, credentials_result, login_result, login_state, result_view, signup_result,
    signup_state, verify_result, verify_state, accounts_wf, Accounts,
};
use crate::catalog::{
    build_find_project_response, find_body_of, insert_result, matching, new_record, opt_str_view, Catalog,
    CatalogError,
};
use crate::credentials::{
    acceptable_credentials, basic_text_of, bearer_token_of, read_email_and_password, read_token,
    validate_credentials, AuthError,
};
use crate::accounts::{
    email_taken, lemma_signup_verify_login_round_trip, login_taken, with_session, AccountView,
};
use crate::naming::is_valid_login;
use crate::json::{error_body, error_body_of, login_body, login_body_of, ok_body, ok_body_of};
use crate::naming::{in_namespace, uri_in_namespace};
use crate::password::{password_with_salt, salted_hash_of};
use crate::deploy::{
    deploy_url_of, jenkins_params_of, plan_install, DeployerConfig, InstallPlan, JenkinsConfig,
};
use crate::naming::{canonical, project_name_verdict};
use crate::provision::{plan_create_project, repo_path_of, ProvisionPlan};
use crate::text::has_char;

verus! {

/// How long a session lasts, in seconds.
pub const SESSION_TTL_SECONDS: i64 = 86400;

/// When a session opened at `now` expires (saturating at the largest time).
pub fn session_expires_at(now: i64) -> (r: i64)
    ensures
        now <= i64::MAX - SESSION_TTL_SECONDS ==> r == now + SESSION_TTL_SECONDS,
        now > i64::MAX - SESSION_TTL_SECONDS ==> r == i64::MAX,
{
    if now <= i64::MAX - SESSION_TTL_SECONDS {
        now + SESSION_TTL_SECONDS
    } else {
        i64::MAX
    }
}

/// The login that an `Authorization` value yields in bearer mode at `now`.
pub open spec fn bearer_auth_of(s: Seq<crate::accounts::AccountView>, h: Option<Seq<char>>, now: i64) -> Result<Seq<char>, AuthError> {
    match h {
        Some(h) => match bearer_token_of(h) {
            Some(t) => bearer_result(s, t, now),
            None => Err(AuthError::InvalidToken),
        },
        None => Err(AuthError::InvalidToken),
    }
}

/// Resolves a request to a login from `Authorization: Bearer <token>`.
pub fn authenticate_bearer(accounts: &Accounts, authorization: Option<&str>, now: i64) -> (r: Result<String, AuthError>)
    ensures
        result_view(r) == bearer_auth_of(accounts@, opt_str_view(authorization), now),
{
    match read_token(authorization) {
        Ok(t) => accounts.login_by_token(t.as_str(), now),
        Err(e) => Err(e),
    }
}

/// The position of the first `:` of a text that holds one.
pub open spec fn first_colon(t: Seq<char>) -> int {
    choose|k: int| 0 <= k < t.len() && t[k] == ':' && !has_char(#[trigger] t.subrange(0, k), ':')
}

proof fn lemma_first_colon(e: Seq<char>, p: Seq<char>)
    requires
        !has_char(e, ':'),
    ensures
        has_char(e + seq![':'] + p, ':'),
        first_colon(e + seq![':'] + p) == e.len(),
        (e + seq![':'] + p).subrange(0, e.len() as int) == e,
        (e + seq![':'] + p).subrange(e.len() as int + 1, (e + seq![':'] + p).len() as int) == p,
{
    let t = e + seq![':'] + p;
    let n = e.len() as int;
    assert(t[n] == ':');
    assert(t.subrange(0, n) =~= e);
    assert(t.subrange(n + 1, t.len() as int) =~= p);
    let k = first_colon(t);
    if k < n {
        assert(e[k] == ':');
    } else if k > n {
        assert(t.subrange(0, k)[n] == ':');
    }
}

/// The login that an `Authorization` value yields in basic mode.
pub open spec fn basic_auth_of(s: Seq<crate::accounts::AccountView>, salt: Seq<char>, h: Option<Seq<char>>) -> Result<Seq<char>, AuthError> {
    match h {
        Some(h) => match basic_text_of(h) {
            Some(t) => if has_char(t, ':') {
                let e = t.subrange(0, first_colon(t));
                let p = t.subrange(first_colon(t) + 1, t.len() as int);
                if acceptable_credentials(e, p) {
                    credentials_result(s, e, salted_hash_of(salt, p))
                } else {
                    Err(AuthError::InvalidEmailAndPassword)
                }
            } else {
                Err(AuthError::InvalidEmailAndPassword)
            },
            None => Err(AuthError::InvalidEmailAndPassword),
        },
        None => Err(AuthError::InvalidEmailAndPassword),
    }
}

/// Resolves a request to a login from `Authorization: Basic <base64(email:password)>`.
pub fn authenticate_basic(accounts: &Accounts, salt: &str, authorization: Option<&str>) -> (r: Result<String, AuthError>)
    requires
        accounts_wf(accounts@),
    ensures
        result_view(r) == basic_auth_of(accounts@, salt@, opt_str_view(authorization)),
{
    match read_email_and_password(authorization) {
        Err(e) => Err(e),
        Ok((email, password)) => {
            proof {
                lemma_first_colon(email@, password@);
            }
            if validate_credentials(email.as_str(), password.as_str()).is_err() {
                return Err(AuthError::InvalidEmailAndPassword);
            }
            let hash = password_with_salt(salt, password.as_str());
            accounts.login_by_email_and_password(email.as_str(), hash.as_str())
        },
    }
}

/// The answer to a git-auth sub-request.
#[derive(Clone, Copy, Debug, PartialEq, Eq, Structural)]
pub enum GitAuthResponse {
    /// No credentials: 401 with a `WWW-Authenticate: Basic` challenge.
    Challenge,
    /// Malformed or rejected credentials: 401 with the reason.
    Unauthorized(AuthError),
    /// The `X-Original-URI` header is missing or unreadable: 403 with a reason.
    InvalidOriginalUri,
    /// The path is outside the caller's namespace: 403.
    Forbidden,
    /// 200.
    Allowed,
}

impl GitAuthResponse {
    pub open spec fn status_of(&self) -> u16 {
        match self {
            GitAuthResponse::Challenge => 401,
            GitAuthResponse::Unauthorized(_) => 401,
            GitAuthResponse::InvalidOriginalUri => 403,
            GitAuthResponse::Forbidden => 403,
            GitAuthResponse::Allowed => 200,
        }
    }

    pub open spec fn body_of(&self) -> Seq<char> {
        match self {
            GitAuthResponse::Challenge => Seq::empty(),
            GitAuthResponse::Unauthorized(e) => error_body_of(e.reason_spec()),
            GitAuthResponse::InvalidOriginalUri => error_body_of("invalid-original-uri"@),
            GitAuthResponse::Forbidden => Seq::empty(),
            GitAuthResponse::Allowed => ok_body_of(),
        }
    }

    /// The body of the answer: a JSON reason where one is given, the ok body
    /// when allowed, nothing for the challenge and the bare refusal.
    pub fn body(&self) -> (r: String)
        ensures
            r@ == self.body_of(),
    {
        match self {
            GitAuthResponse::Challenge => String::new(),
            GitAuthResponse::Unauthorized(e) => {
                let reason = e.reason();
                error_body(reason.as_str())
            },
            GitAuthResponse::InvalidOriginalUri => error_body("invalid-original-uri"),
            GitAuthResponse::Forbidden => String::new(),
            GitAuthResponse::Allowed => ok_body(),
        }
    }

    pub open spec fn challenge_of(&self) -> Option<Seq<char>> {
        match self {
            GitAuthResponse::Challenge => Some("Basic realm=\"Please enter your email and password\""@),
            _ => None,
        }
    }

    /// The `WWW-Authenticate` value, sent only with the challenge.
    pub fn www_authenticate(&self) -> (r: Option<String>)
        ensures
            match r {
                Some(v) => self.challenge_of() == Some(v@),
                None => self.challenge_of() is None,
            },
    {
        match self {
            GitAuthResponse::Challenge => Some(String::from_str("Basic realm=\"Please enter your email and password\"")),
            _ => None,
        }
    }

    /// The HTTP status of the answer.
    pub fn status(&self) -> (r: u16)
        ensures
            r == self.status_of(),
    {
        match self {
            GitAuthResponse::Challenge => 401,
            GitAuthResponse::Unauthorized(_) => 401,
            GitAuthResponse::InvalidOriginalUri => 403,
            GitAuthResponse::Forbidden => 403,
            GitAuthResponse::Allowed => 200,
        }
    }
}

/// The git-auth decision, given what basic authentication yielded.
pub open spec fn git_auth_of(
    has_authorization: bool,
    login: Result<Seq<char>, AuthError>,
    uri: Option<Seq<char>>,
) -> GitAuthResponse {
    if !has_authorization {
        GitAuthResponse::Challenge
    } else {
        match login {
            Err(e) => GitAuthResponse::Unauthorized(e),
            Ok(l) => match uri {
                None => GitAuthResponse::InvalidOriginalUri,
                Some(u) => if in_namespace(l, u) {
                    GitAuthResponse::Allowed
                } else {
                    GitAuthResponse::Forbidden
                },
            },
        }
    }
}

/// Decides a git-auth sub-request: the caller must authenticate in basic mode
/// and may reach only repositories whose name starts with `<login>-`.
/// `original_uri` is `None` where the header is missing or not readable text.
pub fn git_auth(
    accounts: &Accounts,
    salt: &str,
    authorization: Option<&str>,
    original_uri: Option<&str>,
) -> (r: GitAuthResponse)
    requires
        accounts_wf(accounts@),
    ensures
        r == git_auth_of(
            authorization is Some,
            basic_auth_of(accounts@, salt@, opt_str_view(authorization)),
            opt_str_view(original_uri),
        ),
{
    if authorization.is_none() {
        return GitAuthResponse::Challenge;
    }
    let login = match authenticate_basic(accounts, salt, authorization) {
        Ok(l) => l,
        Err(e) => return GitAuthResponse::Unauthorized(e),
    };
    match original_uri {
        None => GitAuthResponse::InvalidOriginalUri,
        Some(u) => if uri_in_namespace(login.as_str(), u) {
            GitAuthResponse::Allowed
        } else {
            GitAuthResponse::Forbidden
        },
    }
}

/// An authenticated caller whose requested path lies outside its namespace
/// is answered 403.
pub proof fn lemma_git_auth_outside_namespace_forbidden(login: Seq<char>, uri: Seq<char>)
    requires
        !in_namespace(login, uri),
    ensures
        git_auth_of(true, Ok(login), Some(uri)) == GitAuthResponse::Forbidden,
        git_auth_of(true, Ok(login), Some(uri)).status_of() == 403,
{
}

/// The body of a signup answer.
pub open spec fn signup_reply_of(s: Seq<crate::accounts::AccountView>, email: Seq<char>, password: Seq<char>, login: Seq<char>) -> Seq<char> {
    if !acceptable_credentials(email, password) {
        error_body_of(AuthError::InvalidEmailAndPassword.reason_spec())
    } else {
        match signup_result(s, email, login) {
            Ok(()) => ok_body_of(),
            Err(e) => error_body_of(e.reason_spec()),
        }
    }
}

/// Signs up `email` with `password` under the generated `login`, awaiting
/// `verification_token`.
pub fn signup(
    accounts: &mut Accounts,
    salt: &str,
    email: &str,
    password: &str,
    login: &str,
    verification_token: &str,
    now: i64,
) -> (r: String)
    requires
        accounts_wf(old(accounts)@),
    ensures
        accounts_wf(final(accounts)@),
        r@ == signup_reply_of(old(accounts)@, email@, password@, login@),
        acceptable_credentials(email@, password@) ==> final(accounts)@ == signup_state(
            old(accounts)@,
            email@,
            salted_hash_of(salt@, password@),
            login@,
            verification_token@,
            now,
        ),
        !acceptable_credentials(email@, password@) ==> final(accounts)@ == old(accounts)@,
{
    if validate_credentials(email, password).is_err() {
        let reason = AuthError::InvalidEmailAndPassword.reason();
        return error_body(reason.as_str());
    }
    let hash = password_with_salt(salt, password);
    match accounts.signup(email, hash.as_str(), login, verification_token, now) {
        Ok(()) => ok_body(),
        Err(e) => {
            let reason = e.reason();
            error_body(reason.as_str())
        },
    }
}

/// The body of a login answer.
pub open spec fn login_reply_of(s: Seq<crate::accounts::AccountView>, salt: Seq<char>, email: Seq<char>, password: Seq<char>, token: Seq<char>) -> Seq<char> {
    if !acceptable_credentials(email, password) {
        error_body_of(AuthError::InvalidEmailAndPassword.reason_spec())
    } else {
        match login_result(s, email, salted_hash_of(salt, password)) {
            Ok(()) => login_body_of(token),
            Err(e) => error_body_of(e.reason_spec()),
        }
    }
}

/// Logs `email` in with `password`, opening a session with `token` that
/// expires one TTL after `now`.
pub fn login(
    accounts: &mut Accounts,
    salt: &str,
    email: &str,
    password: &str,
    token: &str,
    now: i64,
) -> (r: String)
    requires
        accounts_wf(old(accounts)@),
    ensures
        accounts_wf(final(accounts)@),
        r@ == login_reply_of(old(accounts)@, salt@, email@, password@, token@),
        acceptable_credentials(email@, password@) ==> final(accounts)@ == login_state(
            old(accounts)@,
            email@,
            salted_hash_of(salt@, password@),
            token@,
            if now <= i64::MAX - SESSION_TTL_SECONDS { (now + SESSION_TTL_SECONDS) as i64 } else { i64::MAX },
            now,
        ),
        !acceptable_credentials(email@, password@) ==> final(accounts)@ == old(accounts)@,
{
    if validate_credentials(email, password).is_err() {
        let reason = AuthError::InvalidEmailAndPassword.reason();
        return error_body(reason.as_str());
    }
    let hash = password_with_salt(salt, password);
    let expires_at = session_expires_at(now);
    match accounts.login(email, hash.as_str(), token, expires_at, now) {
        Ok(()) => login_body(token),
        Err(e) => {
            let reason = e.reason();
            error_body(reason.as_str())
        },
    }
}

/// Signing up with acceptable credentials, a new email and a fresh login,
/// verifying with the token stored at signup, then logging in with the same
/// email and password answers with the session token; the account then holds
/// that session, and the token authenticates as the new login at any time
/// before the session's expiry, one TTL after the login, given that no other
/// account holds that token.
pub proof fn lemma_request_round_trip(
    s: Seq<AccountView>,
    salt: Seq<char>,
    email: Seq<char>,
    password: Seq<char>,
    login: Seq<char>,
    verification_token: Seq<char>,
    token: Seq<char>,
    signed_up_at: i64,
    now: i64,
    later: i64,
)
    requires
        accounts_wf(s),
        acceptable_credentials(email, password),
        !email_taken(s, email),
        is_valid_login(login),
        !login_taken(s, login),
        forall|i: int| 0 <= i < s.len() ==> #[trigger] s[i].token != Some(token),
        now <= i64::MAX - SESSION_TTL_SECONDS,
        now <= later < now + SESSION_TTL_SECONDS,
    ensures
        ({
            let h = salted_hash_of(salt, password);
            let s1 = signup_state(s, email, h, login, verification_token, signed_up_at);
            let s2 = verify_state(s1, verification_token);
            let s3 = login_state(s2, email, h, token, (now + SESSION_TTL_SECONDS) as i64, now);
            &&& signup_reply_of(s, email, password, login) == ok_body_of()
            &&& verify_reply_of(verify_result(s1, verification_token)) == verify_reply_of(true)
            &&& login_reply_of(s2, salt, email, password, token) == login_body_of(token)
            &&& s3[s.len() as int].email == email
            &&& s3[s.len() as int].token == Some(token)
            &&& s3[s.len() as int].token_expires_at > now
            &&& bearer_result(s3, token, later) == Ok::<Seq<char>, AuthError>(login)
        }),
{
    let h = salted_hash_of(salt, password);
    let exp = (now + SESSION_TTL_SECONDS) as i64;
    lemma_signup_verify_login_round_trip(
        s,
        email,
        password,
        salt,
        login,
        verification_token,
        token,
        exp,
        signed_up_at,
        now,
        later,
    );
    let s1 = signup_state(s, email, h, login, verification_token, signed_up_at);
    let s2 = verify_state(s1, verification_token);
    let n = s.len() as int;
    assert(s1[n].email == email);
    assert(s2[n].email == email);
    assert(s2[n].password_hash == h);
    assert(crate::accounts::password_match(s2[n], email, h));
    let j = crate::accounts::password_index(s2, email, h);
    assert(s2[j].email == s2[n].email);
    assert(j == n) by {
        assert(crate::accounts::accounts_wf(s2)) by {
            crate::accounts::lemma_signup_verify_wf(s, email, h, login, verification_token, signed_up_at);
        }
    }
    let s3 = login_state(s2, email, h, token, exp, now);
    assert(s3[n] == with_session(s2[n], token, exp, now));
    assert(signup_reply_of(s, email, password, login) == ok_body_of());
    assert(verify_result(s1, verification_token));
    assert(login_reply_of(s2, salt, email, password, token) == login_body_of(token));
    assert(bearer_result(s3, token, later) == Ok::<Seq<char>, AuthError>(login));
}

/// The plain-text line answering an email verification.
pub open spec fn verify_reply_of(verified: bool) -> Seq<char> {
    if verified {
        "Your email verified."@
    } else {
        "Invalid request"@
    }
}

/// Verifies the email that awaits `token`; an unknown token is not told apart
/// from one never issued.
pub fn verify_email(accounts: &mut Accounts, token: &str) -> (r: String)
    requires
        accounts_wf(old(accounts)@),
    ensures
        accounts_wf(final(accounts)@),
        final(accounts)@ == verify_state(old(accounts)@, token@),
        r@ == verify_reply_of(verify_result(old(accounts)@, token@)),
{
    if accounts.verify_email(token) {
        String::from_str("Your email verified.")
    } else {
        String::from_str("Invalid request")
    }
}

/// The body answering an insert with the given verdict.
pub open spec fn insert_reply_of(r: Result<(), CatalogError>) -> Seq<char> {
    match r {
        Ok(()) => ok_body_of(),
        Err(e) => error_body_of(e.reason_spec()),
    }
}

/// Records a project version for `login` and answers. Only the catalog
/// changes, by exactly the requested record, and only on success.
pub fn insert_user_project(
    catalog: &mut Catalog,
    accounts: &Accounts,
    login: &str,
    name: &str,
    version: &str,
    description: Option<&str>,
) -> (r: String)
    requires
        old(catalog).wf(),
    ensures
        final(catalog).wf(),
        final(catalog).max_name_len == old(catalog).max_name_len,
        r@ == insert_reply_of(
            insert_result(
                old(catalog)@,
                old(catalog).max_name_len as nat,
                login_taken(accounts@, login@),
                login@,
                name@,
                version@,
            ),
        ),
        insert_result(
            old(catalog)@,
            old(catalog).max_name_len as nat,
            login_taken(accounts@, login@),
            login@,
            name@,
            version@,
        ) is Ok ==> final(catalog)@ == old(catalog)@.push(
            new_record(login@, name@, version@, opt_str_view(description)),
        ),
        insert_result(
            old(catalog)@,
            old(catalog).max_name_len as nat,
            login_taken(accounts@, login@),
            login@,
            name@,
            version@,
        ) is Err ==> final(catalog)@ == old(catalog)@,
{
    match catalog.insert_user_project(accounts, login, name, version, description) {
        Ok(()) => ok_body(),
        Err(e) => {
            let reason = e.reason();
            error_body(reason.as_str())
        },
    }
}

/// Answers a search by a caller authenticated in bearer mode.
pub fn find_project(
    accounts: &Accounts,
    catalog: &Catalog,
    authorization: Option<&str>,
    now: i64,
    name: &str,
) -> (r: String)
    ensures
        bearer_auth_of(accounts@, opt_str_view(authorization), now) matches Err(e) ==> r@ == error_body_of(e.reason_spec()),
        bearer_auth_of(accounts@, opt_str_view(authorization), now) is Ok ==> r@ == find_body_of(matching(catalog@, name@)),
{
    match authenticate_bearer(accounts, authorization, now) {
        Err(e) => {
            let reason = e.reason();
            error_body(reason.as_str())
        },
        Ok(_) => {
            let found = catalog.find(name);
            build_find_project_response(&found)
        },
    }
}

/// Starts a create-project request: the caller must authenticate in bearer
/// mode and the project name must be valid. On failure, the error body.
pub fn begin_create_project(
    accounts: &Accounts,
    authorization: Option<&str>,
    now: i64,
    project_name: &str,
    max_len: usize,
    base_repo_dir: &str,
) -> (r: Result<ProvisionPlan, String>)
    ensures
        match bearer_auth_of(accounts@, opt_str_view(authorization), now) {
            Err(e) => r matches Err(b) && b@ == error_body_of(e.reason_spec()),
            Ok(l) => match project_name_verdict(project_name@, max_len as nat) {
                Err(e) => r matches Err(b) && b@ == error_body_of(e.reason_spec()),
                Ok(_) => r matches Ok(p) && {
                    &&& p.login@ == l
                    &&& p.project_name@ == project_name@
                    &&& p.repo_name@ == canonical(l, project_name@)
                    &&& p.repo_path@ == repo_path_of(base_repo_dir@, canonical(l, project_name@))
                },
            },
        },
{
    let login = match authenticate_bearer(accounts, authorization, now) {
        Ok(l) => l,
        Err(e) => {
            let reason = e.reason();
            return Err(error_body(reason.as_str()));
        },
    };
    match plan_create_project(login.as_str(), project_name, max_len, base_repo_dir) {
        Ok(p) => Ok(p),
        Err(e) => {
            let reason = e.reason();
            Err(error_body(reason.as_str()))
        },
    }
}

/// Starts an install request: the caller must authenticate in bearer mode and
/// the application name must be valid. On failure, the error body.
pub fn begin_install(
    accounts: &Accounts,
    authorization: Option<&str>,
    now: i64,
    app_name: &str,
    src_login: &str,
    project_name: &str,
    version: &str,
    max_len: usize,
    jenkins_config: &JenkinsConfig,
    deployer_config: &DeployerConfig,
) -> (r: Result<InstallPlan, String>)
    ensures
        match bearer_auth_of(accounts@, opt_str_view(authorization), now) {
            Err(e) => r matches Err(b) && b@ == error_body_of(e.reason_spec()),
            Ok(l) => match project_name_verdict(app_name@, max_len as nat) {
                Err(e) => r matches Err(b) && b@ == error_body_of(e.reason_spec()),
                Ok(_) => r matches Ok(p) && {
                    &&& p.src_repo_name@ == canonical(src_login@, project_name@)
                    &&& p.dst_repo_name@ == canonical(l, app_name@)
                    &&& p.url@ == deploy_url_of(jenkins_config.jenkins_api@)
                    &&& p.params@ == jenkins_params_of(
                        canonical(src_login@, project_name@),
                        canonical(l, app_name@),
                        version@,
                        deployer_config.deployer_api@,
                        deployer_config.deployer_api_user@,
                        deployer_config.deployer_api_password@,
                    )
                },
            },
        },
{
    let login = match authenticate_bearer(accounts, authorization, now) {
        Ok(l) => l,
        Err(e) => {
            let reason = e.reason();
            return Err(error_body(reason.as_str()));
        },
    };
    match plan_install(
        login.as_str(),
        app_name,
        src_login,
        project_name,
        version,
        max_len,
        jenkins_config,
        deployer_config,
    ) {
        Ok(p) => Ok(p),
        Err(e) => {
            let reason = e.reason();
            Err(error_body(reason.as_str()))
        },
    }
}

} // verus!
