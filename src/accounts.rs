use vstd::prelude::*;
use vstd::string::*;

use crate::credentials::AuthError;
use crate::naming::{is_login, is_valid_login};
use crate::password::salted_hash_of;
use crate::text::{holds_text, opt_view, same_text};

verus! {

/// A user account as the credential store holds it. Times are seconds since
/// the Unix epoch.
pub struct Account {
    pub email: String,
    pub login: String,
    pub password_hash: String,
    pub email_verified: bool,
    pub verification_token: Option<String>,
    pub token: Option<String>,
    pub token_expires_at: i64,
    pub created_at: i64,
    pub updated_at: i64,
}

/// The mathematical content of an `Account`.
pub struct AccountView {
    pub email: Seq<char>,
    pub login: Seq<char>,
    pub password_hash: Seq<char>,
    pub email_verified: bool,
    pub verification_token: Option<Seq<char>>,
    pub token: Option<Seq<char>>,
    pub token_expires_at: i64,
    pub created_at: i64,
    pub updated_at: i64,
}

impl View for Account {
    type V = AccountView;

    open spec fn view(&self) -> AccountView {
        AccountView {
            email: self.email@,
            login: self.login@,
            password_hash: self.password_hash@,
            email_verified: self.email_verified,
            verification_token: opt_view(self.verification_token),
            token: opt_view(self.token),
            token_expires_at: self.token_expires_at,
            created_at: self.created_at,
            updated_at: self.updated_at,
        }
    }
}

/// Why a signup was refused.
#[derive(Clone, Copy, Debug, PartialEq, Eq, Structural)]
pub enum SignupError {
    EmailAlreadyExists,
    InternalError,
}

impl SignupError {
    pub open spec fn reason_spec(&self) -> Seq<char> {
        match self {
            SignupError::EmailAlreadyExists => "email-already-exists"@,
            SignupError::InternalError => "internal-error"@,
        }
    }

    /// The stable user-visible reason.
    pub fn reason(&self) -> (r: String)
        ensures
            r@ == self.reason_spec(),
    {
        match self {
            SignupError::EmailAlreadyExists => String::from_str("email-already-exists"),
            SignupError::InternalError => String::from_str("internal-error"),
        }
    }
}

pub open spec fn email_taken(s: Seq<AccountView>, email: Seq<char>) -> bool {
    exists|i: int| 0 <= i < s.len() && #[trigger] s[i].email == email
}

pub open spec fn login_taken(s: Seq<AccountView>, login: Seq<char>) -> bool {
    exists|i: int| 0 <= i < s.len() && #[trigger] s[i].login == login
}

/// The store's invariant: emails unique, logins unique and well formed.
pub open spec fn accounts_wf(s: Seq<AccountView>) -> bool {
    &&& forall|i: int, j: int|
        0 <= i < j < s.len() ==> #[trigger] s[i].email != #[trigger] s[j].email
    &&& forall|i: int, j: int|
        0 <= i < j < s.len() ==> #[trigger] s[i].login != #[trigger] s[j].login
    &&& forall|i: int| 0 <= i < s.len() ==> is_valid_login(#[trigger] s[i].login)
}

/// The account that a signup creates: unverified, awaiting `verification_token`.
pub open spec fn new_account(
    email: Seq<char>,
    password_hash: Seq<char>,
    login: Seq<char>,
    verification_token: Seq<char>,
    now: i64,
) -> AccountView {
    AccountView {
        email,
        login,
        password_hash,
        email_verified: false,
        verification_token: Some(verification_token),
        token: None,
        token_expires_at: 0,
        created_at: now,
        updated_at: now,
    }
}

pub open spec fn signup_result(s: Seq<AccountView>, email: Seq<char>, login: Seq<char>) -> Result<(), SignupError> {
    if email_taken(s, email) {
        Err(SignupError::EmailAlreadyExists)
    } else if !is_valid_login(login) || login_taken(s, login) {
        Err(SignupError::InternalError)
    } else {
        Ok(())
    }
}

pub open spec fn signup_state(
    s: Seq<AccountView>,
    email: Seq<char>,
    password_hash: Seq<char>,
    login: Seq<char>,
    verification_token: Seq<char>,
    now: i64,
) -> Seq<AccountView> {
    if signup_result(s, email, login) is Ok {
        s.push(new_account(email, password_hash, login, verification_token, now))
    } else {
        s
    }
}

/// An account after its email was verified.
pub open spec fn verified(a: AccountView) -> AccountView {
    AccountView { email_verified: true, verification_token: None, ..a }
}

pub open spec fn verify_result(s: Seq<AccountView>, token: Seq<char>) -> bool {
    exists|i: int| 0 <= i < s.len() && #[trigger] s[i].verification_token == Some(token)
}

/// Every account that awaits `token` becomes verified; the rest stay.
pub open spec fn verify_state(s: Seq<AccountView>, token: Seq<char>) -> Seq<AccountView> {
    s.map_values(
        |a: AccountView|
            if a.verification_token == Some(token) {
                verified(a)
            } else {
                a
            },
    )
}

pub open spec fn password_match(a: AccountView, email: Seq<char>, password_hash: Seq<char>) -> bool {
    a.email == email && a.password_hash == password_hash
}

pub open spec fn has_password_match(s: Seq<AccountView>, email: Seq<char>, password_hash: Seq<char>) -> bool {
    exists|i: int| 0 <= i < s.len() && #[trigger] password_match(s[i], email, password_hash)
}

/// The account whose email and stored password are the given ones (unique in
/// a well-formed store, as emails are).
pub open spec fn password_index(s: Seq<AccountView>, email: Seq<char>, password_hash: Seq<char>) -> int {
    choose|i: int| 0 <= i < s.len() && #[trigger] password_match(s[i], email, password_hash)
}

/// An account holding a new session.
pub open spec fn with_session(a: AccountView, token: Seq<char>, expires_at: i64, now: i64) -> AccountView {
    AccountView { token: Some(token), token_expires_at: expires_at, updated_at: now, ..a }
}

pub open spec fn login_result(s: Seq<AccountView>, email: Seq<char>, password_hash: Seq<char>) -> Result<(), AuthError> {
    if has_password_match(s, email, password_hash) {
        Ok(())
    } else {
        Err(AuthError::AccountNotFound)
    }
}

pub open spec fn login_state(
    s: Seq<AccountView>,
    email: Seq<char>,
    password_hash: Seq<char>,
    token: Seq<char>,
    expires_at: i64,
    now: i64,
) -> Seq<AccountView> {
    if has_password_match(s, email, password_hash) {
        let i = password_index(s, email, password_hash);
        s.update(i, with_session(s[i], token, expires_at, now))
    } else {
        s
    }
}

/// The login that an account yields once found: only a verified one does.
pub open spec fn login_if_verified(a: AccountView) -> Result<Seq<char>, AuthError> {
    if a.email_verified {
        Ok(a.login)
    } else {
        Err(AuthError::EmailNotVerified)
    }
}

pub open spec fn credentials_result(s: Seq<AccountView>, email: Seq<char>, password_hash: Seq<char>) -> Result<Seq<char>, AuthError> {
    if has_password_match(s, email, password_hash) {
        login_if_verified(s[password_index(s, email, password_hash)])
    } else {
        Err(AuthError::AccountNotFound)
    }
}

/// A session that `token` opens at time `now`: the token matches and has not expired.
pub open spec fn session_valid(a: AccountView, token: Seq<char>, now: i64) -> bool {
    a.token == Some(token) && a.token_expires_at > now
}

pub open spec fn is_first_session(s: Seq<AccountView>, token: Seq<char>, now: i64, i: int) -> bool {
    &&& 0 <= i < s.len()
    &&& session_valid(s[i], token, now)
    &&& forall|j: int| 0 <= j < i ==> !#[trigger] session_valid(s[j], token, now)
}

pub open spec fn has_session(s: Seq<AccountView>, token: Seq<char>, now: i64) -> bool {
    exists|i: int| 0 <= i < s.len() && #[trigger] session_valid(s[i], token, now)
}

/// The login that a bearer `token` yields at `now`, from the first account
/// whose session it opens.
pub open spec fn bearer_result(s: Seq<AccountView>, token: Seq<char>, now: i64) -> Result<Seq<char>, AuthError> {
    if has_session(s, token, now) {
        login_if_verified(s[choose|i: int| is_first_session(s, token, now, i)])
    } else {
        Err(AuthError::AccountNotFound)
    }
}

pub open spec fn result_view(r: Result<String, AuthError>) -> Result<Seq<char>, AuthError> {
    match r {
        Ok(s) => Ok(s@),
        Err(e) => Err(e),
    }
}

/// A bearer token authenticates only through an account whose session with
/// it has not expired: where every holder's expiry is at or before `now`,
/// the token yields no login.
pub proof fn lemma_expired_token_never_authenticates(s: Seq<AccountView>, token: Seq<char>, now: i64)
    requires
        forall|i: int|
            0 <= i < s.len() && #[trigger] s[i].token == Some(token) ==> s[i].token_expires_at <= now,
    ensures
        bearer_result(s, token, now) == Err::<Seq<char>, AuthError>(AuthError::AccountNotFound),
{
    if has_session(s, token, now) {
        let i = choose|i: int| 0 <= i < s.len() && #[trigger] session_valid(s[i], token, now);
        assert(s[i].token == Some(token));
    }
}

/// Whatever a bearer token yields, it yields through a matching, unexpired session.
pub proof fn lemma_bearer_login_has_live_session(s: Seq<AccountView>, token: Seq<char>, now: i64)
    requires
        bearer_result(s, token, now) is Ok,
    ensures
        exists|i: int|
            0 <= i < s.len() && #[trigger] s[i].token == Some(token) && s[i].token_expires_at > now,
{
    let i = choose|i: int| 0 <= i < s.len() && #[trigger] session_valid(s[i], token, now);
    assert(s[i].token == Some(token));
}

/// A login changes nothing but the session of the one matched account: its
/// token, expiry and `updated_at`. Every other account, and every other field
/// of the matched one, stays as it was.
pub proof fn lemma_login_touches_only_matched_session(
    s: Seq<AccountView>,
    email: Seq<char>,
    password_hash: Seq<char>,
    token: Seq<char>,
    expires_at: i64,
    now: i64,
)
    ensures
        ({
            let t = login_state(s, email, password_hash, token, expires_at, now);
            &&& t.len() == s.len()
            &&& !has_password_match(s, email, password_hash) ==> t == s
            &&& has_password_match(s, email, password_hash) ==> {
                let i = password_index(s, email, password_hash);
                &&& forall|k: int| 0 <= k < s.len() && k != i ==> #[trigger] t[k] == s[k]
                &&& t[i] == AccountView {
                    token: Some(token),
                    token_expires_at: expires_at,
                    updated_at: now,
                    ..s[i]
                }
            }
        }),
{
}

/// Once an account's email is verified, neither signup, email verification
/// nor login clears the flag, and the account keeps its place.
pub proof fn lemma_verified_is_terminal(
    s: Seq<AccountView>,
    i: int,
    email: Seq<char>,
    password_hash: Seq<char>,
    login: Seq<char>,
    token: Seq<char>,
    expires_at: i64,
    now: i64,
)
    requires
        0 <= i < s.len(),
        s[i].email_verified,
    ensures
        i < signup_state(s, email, password_hash, login, token, now).len(),
        signup_state(s, email, password_hash, login, token, now)[i].email_verified,
        i < verify_state(s, token).len(),
        verify_state(s, token)[i].email_verified,
        i < login_state(s, email, password_hash, token, expires_at, now).len(),
        login_state(s, email, password_hash, token, expires_at, now)[i].email_verified,
{
}

proof fn lemma_signup_keeps_wf(
    s: Seq<AccountView>,
    email: Seq<char>,
    password_hash: Seq<char>,
    login: Seq<char>,
    verification_token: Seq<char>,
    now: i64,
)
    requires
        accounts_wf(s),
    ensures
        accounts_wf(signup_state(s, email, password_hash, login, verification_token, now)),
{
    let t = signup_state(s, email, password_hash, login, verification_token, now);
    if signup_result(s, email, login) is Ok {
        assert forall|i: int, j: int| 0 <= i < j < t.len() implies #[trigger] t[i].email != #[trigger] t[j].email by {
            if j == s.len() {
                assert(s[i].email != email);
            }
        }
        assert forall|i: int, j: int| 0 <= i < j < t.len() implies #[trigger] t[i].login != #[trigger] t[j].login by {
            if j == s.len() {
                assert(s[i].login != login);
            }
        }
        assert forall|i: int| 0 <= i < t.len() implies is_valid_login(#[trigger] t[i].login) by {
            if i < s.len() {
                assert(t[i] == s[i]);
            }
        }
    }
}

proof fn lemma_verify_keeps_wf(s: Seq<AccountView>, token: Seq<char>)
    requires
        accounts_wf(s),
    ensures
        accounts_wf(verify_state(s, token)),
{
    let t = verify_state(s, token);
    assert forall|i: int, j: int| 0 <= i < j < t.len() implies #[trigger] t[i].email != #[trigger] t[j].email by {
        assert(s[i].email != s[j].email);
    }
    assert forall|i: int, j: int| 0 <= i < j < t.len() implies #[trigger] t[i].login != #[trigger] t[j].login by {
        assert(s[i].login != s[j].login);
    }
    assert forall|i: int| 0 <= i < t.len() implies is_valid_login(#[trigger] t[i].login) by {
        assert(is_valid_login(s[i].login));
    }
}

/// Signup followed by a verification keeps the store well formed.
pub proof fn lemma_signup_verify_wf(
    s: Seq<AccountView>,
    email: Seq<char>,
    password_hash: Seq<char>,
    login: Seq<char>,
    verification_token: Seq<char>,
    now: i64,
)
    requires
        accounts_wf(s),
    ensures
        accounts_wf(verify_state(signup_state(s, email, password_hash, login, verification_token, now), verification_token)),
{
    lemma_signup_keeps_wf(s, email, password_hash, login, verification_token, now);
    lemma_verify_keeps_wf(signup_state(s, email, password_hash, login, verification_token, now), verification_token);
}

/// Signing up with a new email and a fresh login, verifying with the token
/// stored at signup, then logging in with the same email and password
/// succeeds, and the session token then authenticates as the new login at any
/// time before its expiry, given that no other account holds that token.
pub proof fn lemma_signup_verify_login_round_trip(
    s: Seq<AccountView>,
    email: Seq<char>,
    password: Seq<char>,
    salt: Seq<char>,
    login: Seq<char>,
    verification_token: Seq<char>,
    token: Seq<char>,
    expires_at: i64,
    signed_up_at: i64,
    now: i64,
    later: i64,
)
    requires
        accounts_wf(s),
        !email_taken(s, email),
        is_valid_login(login),
        !login_taken(s, login),
        forall|i: int| 0 <= i < s.len() ==> #[trigger] s[i].token != Some(token),
        later < expires_at,
    ensures
        ({
            let h = salted_hash_of(salt, password);
            let s1 = signup_state(s, email, h, login, verification_token, signed_up_at);
            let s2 = verify_state(s1, verification_token);
            let s3 = login_state(s2, email, h, token, expires_at, now);
            &&& signup_result(s, email, login) == Ok::<(), SignupError>(())
            &&& verify_result(s1, verification_token)
            &&& login_result(s2, email, h) == Ok::<(), AuthError>(())
            &&& bearer_result(s3, token, later) == Ok::<Seq<char>, AuthError>(login)
        }),
{
    let h = salted_hash_of(salt, password);
    let s1 = signup_state(s, email, h, login, verification_token, signed_up_at);
    let n = s.len() as int;
    assert(s1 == s.push(new_account(email, h, login, verification_token, signed_up_at)));
    assert(s1[n].verification_token == Some(verification_token));
    lemma_signup_keeps_wf(s, email, h, login, verification_token, signed_up_at);
    let s2 = verify_state(s1, verification_token);
    lemma_verify_keeps_wf(s1, verification_token);
    assert(s2[n].email_verified);
    assert(password_match(s2[n], email, h));
    let j = password_index(s2, email, h);
    assert(s2[j].email == s2[n].email);
    assert(j == n);
    let s3 = login_state(s2, email, h, token, expires_at, now);
    assert(s3 == s2.update(n, with_session(s2[n], token, expires_at, now)));
    assert(session_valid(s3[n], token, later));
    assert(s3[n].email_verified);
    assert forall|k: int| 0 <= k < n implies !#[trigger] session_valid(s3[k], token, later) by {
        assert(s3[k] == s2[k]);
        assert(s2[k].token == s1[k].token);
        assert(s1[k] == s[k]);
    }
    assert(is_first_session(s3, token, later, n));
    let f = choose|f: int| is_first_session(s3, token, later, f);
    if f < n {
        assert(!session_valid(s3[f], token, later));
    }
    if n < f {
        assert(!session_valid(s3[n], token, later));
    }
}

/// The credential store: accounts, their verification state and sessions.
pub struct Accounts {
    pub accounts: Vec<Account>,
}

impl View for Accounts {
    type V = Seq<AccountView>;

    open spec fn view(&self) -> Seq<AccountView> {
        self.accounts@.map_values(|a: Account| a@)
    }
}

impl Accounts {
    /// An empty store.
    pub fn new() -> (r: Accounts)
        ensures
            r@ == Seq::<AccountView>::empty(),
            accounts_wf(r@),
    {
        let r = Accounts { accounts: Vec::new() };
        assert(r@ =~= Seq::<AccountView>::empty());
        r
    }

    fn find_email(&self, email: &str) -> (r: Option<usize>)
        ensures
            match r {
                Some(i) => i < self@.len() && self@[i as int].email == email@,
                None => !email_taken(self@, email@),
            },
    {
        let mut i: usize = 0;
        while i < self.accounts.len()
            invariant
                i <= self@.len(),
                self@.len() == self.accounts@.len(),
                forall|k: int| 0 <= k < i ==> #[trigger] self@[k].email != email@,
            decreases self@.len() - i,
        {
            if same_text(self.accounts[i].email.as_str(), email) {
                return Some(i);
            }
            i = i + 1;
        }
        None
    }

    fn find_login(&self, login: &str) -> (r: bool)
        ensures
            r == login_taken(self@, login@),
    {
        let mut i: usize = 0;
        while i < self.accounts.len()
            invariant
                i <= self@.len(),
                self@.len() == self.accounts@.len(),
                forall|k: int| 0 <= k < i ==> #[trigger] self@[k].login != login@,
            decreases self@.len() - i,
        {
            if same_text(self.accounts[i].login.as_str(), login) {
                assert(self@[i as int].login == login@);
                return true;
            }
            i = i + 1;
        }
        false
    }

    /// Creates an unverified account awaiting `verification_token`. The email
    /// must be new; the generated login must be well formed and unused.
    pub fn signup(
        &mut self,
        email: &str,
        password_hash: &str,
        login: &str,
        verification_token: &str,
        now: i64,
    ) -> (r: Result<(), SignupError>)
        requires
            accounts_wf(old(self)@),
        ensures
            accounts_wf(final(self)@),
            r == signup_result(old(self)@, email@, login@),
            final(self)@ == signup_state(old(self)@, email@, password_hash@, login@, verification_token@, now),
    {
        if self.find_email(email).is_some() {
            return Err(SignupError::EmailAlreadyExists);
        }
        if !is_login(login) || self.find_login(login) {
            return Err(SignupError::InternalError);
        }
        let account = Account {
            email: String::from_str(email),
            login: String::from_str(login),
            password_hash: String::from_str(password_hash),
            email_verified: false,
            verification_token: Some(String::from_str(verification_token)),
            token: None,
            token_expires_at: 0,
            created_at: now,
            updated_at: now,
        };
        let ghost before = self@;
        self.accounts.push(account);
        proof {
            assert(self@ =~= before.push(new_account(email@, password_hash@, login@, verification_token@, now)));
        }
        Ok(())
    }

    /// Marks verified every account awaiting `token` and clears its token.
    /// Returns whether any account was awaiting it.
    pub fn verify_email(&mut self, token: &str) -> (r: bool)
        requires
            accounts_wf(old(self)@),
        ensures
            accounts_wf(final(self)@),
            r == verify_result(old(self)@, token@),
            final(self)@ == verify_state(old(self)@, token@),
    {
        let ghost s0 = self@;
        let mut found = false;
        let mut i: usize = 0;
        while i < self.accounts.len()
            invariant
                i <= self@.len(),
                self@.len() == self.accounts@.len() == s0.len(),
                forall|k: int| 0 <= k < i ==> #[trigger] self@[k] == verify_state(s0, token@)[k],
                forall|k: int| i <= k < s0.len() ==> #[trigger] self@[k] == s0[k],
                found == exists|k: int| 0 <= k < i && #[trigger] s0[k].verification_token == Some(token@),
            decreases s0.len() - i,
        {
            let ghost pre = self@;
            if holds_text(&self.accounts[i].verification_token, token) {
                self.accounts[i].email_verified = true;
                self.accounts[i].verification_token = None;
                found = true;
                proof {
                    assert(self@ =~= pre.update(i as int, verified(pre[i as int])));
                }
            }
            proof {
                assert(self@[i as int] == verify_state(s0, token@)[i as int]);
            }
            i = i + 1;
        }
        proof {
            assert(self@ =~= verify_state(s0, token@));
        }
        found
    }

    /// Opens a session for the account with this email and stored password,
    /// replacing any earlier one. Only that account changes, and only in its
    /// session token, its expiry and `updated_at`. Email verification is not
    /// required here.
    pub fn login(&mut self, email: &str, password_hash: &str, token: &str, expires_at: i64, now: i64) -> (r: Result<(), AuthError>)
        requires
            accounts_wf(old(self)@),
        ensures
            accounts_wf(final(self)@),
            r == login_result(old(self)@, email@, password_hash@),
            final(self)@ == login_state(old(self)@, email@, password_hash@, token@, expires_at, now),
    {
        let ghost s0 = self@;
        let i = match self.find_email(email) {
            Some(i) => i,
            None => return Err(AuthError::AccountNotFound),
        };
        if !same_text(self.accounts[i].password_hash.as_str(), password_hash) {
            proof {
                if has_password_match(s0, email@, password_hash@) {
                    let j = password_index(s0, email@, password_hash@);
                    assert(i as int == j);
                }
            }
            return Err(AuthError::AccountNotFound);
        }
        proof {
            assert(password_match(s0[i as int], email@, password_hash@));
            let j = password_index(s0, email@, password_hash@);
            assert(i as int == j);
        }
        self.accounts[i].token = Some(String::from_str(token));
        self.accounts[i].token_expires_at = expires_at;
        self.accounts[i].updated_at = now;
        proof {
            assert(self@[i as int] == with_session(s0[i as int], token@, expires_at, now));
            assert(self@ =~= s0.update(i as int, with_session(s0[i as int], token@, expires_at, now)));
            let t = self@;
            assert forall|a: int, b: int| 0 <= a < b < t.len() implies #[trigger] t[a].email != #[trigger] t[b].email by {
                assert(s0[a].email != s0[b].email);
            }
            assert forall|a: int, b: int| 0 <= a < b < t.len() implies #[trigger] t[a].login != #[trigger] t[b].login by {
                assert(s0[a].login != s0[b].login);
            }
            assert forall|a: int| 0 <= a < t.len() implies is_valid_login(#[trigger] t[a].login) by {
                assert(is_valid_login(s0[a].login));
            }
        }
        Ok(())
    }

    /// The login of the account with this email and stored password, if verified.
    pub fn login_by_email_and_password(&self, email: &str, password_hash: &str) -> (r: Result<String, AuthError>)
        requires
            accounts_wf(self@),
        ensures
            result_view(r) == credentials_result(self@, email@, password_hash@),
    {
        match self.find_email(email) {
            Some(i) => {
                if !same_text(self.accounts[i].password_hash.as_str(), password_hash) {
                    proof {
                        if has_password_match(self@, email@, password_hash@) {
                            let j = password_index(self@, email@, password_hash@);
                            assert(i as int == j);
                        }
                    }
                    return Err(AuthError::AccountNotFound);
                }
                proof {
                    assert(password_match(self@[i as int], email@, password_hash@));
                    let j = password_index(self@, email@, password_hash@);
                    assert(i as int == j);
                }
                if self.accounts[i].email_verified {
                    Ok(String::from_str(self.accounts[i].login.as_str()))
                } else {
                    Err(AuthError::EmailNotVerified)
                }
            },
            None => Err(AuthError::AccountNotFound),
        }
    }

    /// The login that a bearer `token` yields at time `now`.
    pub fn login_by_token(&self, token: &str, now: i64) -> (r: Result<String, AuthError>)
        ensures
            result_view(r) == bearer_result(self@, token@, now),
    {
        let mut i: usize = 0;
        while i < self.accounts.len()
            invariant
                i <= self@.len(),
                self@.len() == self.accounts@.len(),
                forall|k: int| 0 <= k < i ==> !#[trigger] session_valid(self@[k], token@, now),
            decreases self@.len() - i,
        {
            if holds_text(&self.accounts[i].token, token) && self.accounts[i].token_expires_at > now {
                proof {
                    assert(is_first_session(self@, token@, now, i as int));
                    let j = choose|j: int| is_first_session(self@, token@, now, j);
                    if j < i {
                        assert(!session_valid(self@[j], token@, now));
                    }
                    if i < j {
                        assert(!session_valid(self@[i as int], token@, now));
                    }
                }
                if self.accounts[i].email_verified {
                    return Ok(String::from_str(self.accounts[i].login.as_str()));
                } else {
                    return Err(AuthError::EmailNotVerified);
                }
            }
            i = i + 1;
        }
        Err(AuthError::AccountNotFound)
    }
}

} // verus!
