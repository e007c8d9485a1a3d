use vstd::prelude::*;
use vstd::string::*;

use crate::text::{concat3, has_char, to_chars};

verus! {

/// The canonical repository name of a user's project: `<login>-<project>`.
pub open spec fn canonical(login: Seq<char>, project: Seq<char>) -> Seq<char> {
    login + seq!['-'] + project
}

/// `https://git.<base_domain>/<canonical>.git`
pub open spec fn repo_url_of(repo: Seq<char>, domain: Seq<char>) -> Seq<char> {
    "https://git."@ + domain + "/"@ + repo + ".git"@
}

/// `https://<canonical>-rpc.<base_domain>`
pub open spec fn http_url_of(repo: Seq<char>, domain: Seq<char>) -> Seq<char> {
    "https://"@ + repo + "-rpc."@ + domain
}

/// `wss://<canonical>.<base_domain>`
pub open spec fn ws_url_of(repo: Seq<char>, domain: Seq<char>) -> Seq<char> {
    "wss://"@ + repo + "."@ + domain
}

/// A character of a project name: a lowercase ASCII letter, a digit or `-`.
pub open spec fn project_char(c: char) -> bool {
    lower_or_digit(c) || c == '-'
}

/// A lowercase ASCII letter or an ASCII digit.
pub open spec fn lower_or_digit(c: char) -> bool {
    ('a' <= c && c <= 'z') || ('0' <= c && c <= '9')
}

pub open spec fn only_project_chars(s: Seq<char>) -> bool {
    forall|i: int| 0 <= i < s.len() ==> #[trigger] project_char(s[i])
}

pub open spec fn hyphen_pair_at(s: Seq<char>, i: int) -> bool {
    s[i] == '-' && s[i + 1] == '-'
}

pub open spec fn has_double_hyphen(s: Seq<char>) -> bool {
    exists|i: int| 0 <= i < s.len() - 1 && #[trigger] hyphen_pair_at(s, i)
}

/// The project-name grammar: nonempty, at most `max` characters, drawn from
/// `[a-z0-9-]`, no leading or trailing `-`, no `--`.
pub open spec fn is_valid_project_name(s: Seq<char>, max: nat) -> bool {
    &&& 0 < s.len() <= max
    &&& only_project_chars(s)
    &&& s[0] != '-'
    &&& s[s.len() - 1] != '-'
    &&& !has_double_hyphen(s)
}

/// A login as the system generates it: nonempty lowercase letters and digits.
pub open spec fn is_valid_login(s: Seq<char>) -> bool {
    &&& s.len() > 0
    &&& forall|i: int|
        0 <= i < s.len() ==> #[trigger] lower_or_digit(s[i])
}

/// The rule of the project-name grammar that a name breaks.
#[derive(Clone, Copy, Debug, PartialEq, Eq, Structural)]
pub enum ProjectNameError {
    Empty,
    TooLong,
    InvalidCharacter,
    LeadingHyphen,
    TrailingHyphen,
    ConsecutiveHyphens,
}

/// The verdict on a project name: the first rule it breaks, in the order
/// listed by `ProjectNameError`.
pub open spec fn project_name_verdict(s: Seq<char>, max: nat) -> Result<(), ProjectNameError> {
    if s.len() == 0 {
        Err(ProjectNameError::Empty)
    } else if s.len() > max {
        Err(ProjectNameError::TooLong)
    } else if !only_project_chars(s) {
        Err(ProjectNameError::InvalidCharacter)
    } else if s[0] == '-' {
        Err(ProjectNameError::LeadingHyphen)
    } else if s[s.len() - 1] == '-' {
        Err(ProjectNameError::TrailingHyphen)
    } else if has_double_hyphen(s) {
        Err(ProjectNameError::ConsecutiveHyphens)
    } else {
        Ok(())
    }
}

impl ProjectNameError {
    /// The user-visible reason, naming the rule that was broken.
    pub fn reason(&self) -> (r: String)
        ensures
            r@ == self.reason_spec(),
    {
        match self {
            ProjectNameError::Empty => String::from_str("invalid-project-name: it must not be empty"),
            ProjectNameError::TooLong => String::from_str("invalid-project-name: it is too long"),
            ProjectNameError::InvalidCharacter => String::from_str(
                "invalid-project-name: uppercase letters, spaces and every character other than a-z, 0-9 and '-' are not allowed",
            ),
            ProjectNameError::LeadingHyphen => String::from_str(
                "invalid-project-name: it must not start with '-'",
            ),
            ProjectNameError::TrailingHyphen => String::from_str(
                "invalid-project-name: it must not end with '-'",
            ),
            ProjectNameError::ConsecutiveHyphens => String::from_str(
                "invalid-project-name: it must not contain '--'",
            ),
        }
    }

    pub open spec fn reason_spec(&self) -> Seq<char> {
        match self {
            ProjectNameError::Empty => "invalid-project-name: it must not be empty"@,
            ProjectNameError::TooLong => "invalid-project-name: it is too long"@,
            ProjectNameError::InvalidCharacter =>
                "invalid-project-name: uppercase letters, spaces and every character other than a-z, 0-9 and '-' are not allowed"@,
            ProjectNameError::LeadingHyphen => "invalid-project-name: it must not start with '-'"@,
            ProjectNameError::TrailingHyphen => "invalid-project-name: it must not end with '-'"@,
            ProjectNameError::ConsecutiveHyphens => "invalid-project-name: it must not contain '--'"@,
        }
    }
}

/// Whether `s` breaks the grammar rule that `e` names.
pub open spec fn breaks_rule(s: Seq<char>, max: nat, e: ProjectNameError) -> bool {
    match e {
        ProjectNameError::Empty => s.len() == 0,
        ProjectNameError::TooLong => s.len() > max,
        ProjectNameError::InvalidCharacter => !only_project_chars(s),
        ProjectNameError::LeadingHyphen => s.len() > 0 && s[0] == '-',
        ProjectNameError::TrailingHyphen => s.len() > 0 && s[s.len() - 1] == '-',
        ProjectNameError::ConsecutiveHyphens => has_double_hyphen(s),
    }
}

/// A name is accepted exactly when it matches the grammar, and a rejected name
/// is rejected with a rule that it breaks.
pub proof fn lemma_verdict_matches_grammar(s: Seq<char>, max: nat)
    ensures
        project_name_verdict(s, max) is Ok <==> is_valid_project_name(s, max),
        project_name_verdict(s, max) matches Err(e) ==> breaks_rule(s, max, e),
{
}

/// With a login that holds no `-`, the first `-` of a canonical name is the one
/// between the login and the project, and splitting there gives both back.
pub proof fn lemma_canonical_split(login: Seq<char>, project: Seq<char>)
    requires
        is_valid_login(login),
    ensures
        canonical(login, project)[login.len() as int] == '-',
        forall|i: int| 0 <= i < login.len() ==> #[trigger] canonical(login, project)[i] != '-',
        canonical(login, project).subrange(0, login.len() as int) == login,
        canonical(login, project).subrange(
            login.len() as int + 1,
            canonical(login, project).len() as int,
        ) == project,
{
    let c = canonical(login, project);
    assert forall|i: int| 0 <= i < login.len() implies #[trigger] c[i] != '-' by {
        assert(c[i] == login[i]);
        assert(lower_or_digit(login[i]));
    }
    assert(c.subrange(0, login.len() as int) =~= login);
    assert(c.subrange(login.len() as int + 1, c.len() as int) =~= project);
}

/// Two projects of logins without `-` share a canonical name only when both
/// the logins and the project names are equal.
pub proof fn lemma_canonical_injective(login_a: Seq<char>, project_a: Seq<char>, login_b: Seq<char>, project_b: Seq<char>)
    requires
        is_valid_login(login_a),
        is_valid_login(login_b),
        canonical(login_a, project_a) == canonical(login_b, project_b),
    ensures
        login_a == login_b,
        project_a == project_b,
{
    lemma_canonical_split(login_a, project_a);
    lemma_canonical_split(login_b, project_b);
    let c = canonical(login_a, project_a);
    if login_a.len() < login_b.len() {
        assert(c[login_a.len() as int] != '-');
    } else if login_b.len() < login_a.len() {
        assert(c[login_b.len() as int] != '-');
    }
}

/// Checks a project name against the grammar, reporting the first rule broken.
pub fn validate_project_name(name: &str, max_len: usize) -> (r: Result<(), ProjectNameError>)
    ensures
        r == project_name_verdict(name@, max_len as nat),
{
    let cs = to_chars(name);
    let n = cs.len();
    if n == 0 {
        return Err(ProjectNameError::Empty);
    }
    if n > max_len {
        return Err(ProjectNameError::TooLong);
    }
    let mut i: usize = 0;
    while i < n
        invariant
            n == cs@.len() == name@.len(),
            cs@ == name@,
            0 < n <= max_len,
            i <= n,
            forall|k: int| 0 <= k < i ==> #[trigger] project_char(cs@[k]),
        decreases n - i,
    {
        let c = cs[i];
        if !(('a' <= c && c <= 'z') || ('0' <= c && c <= '9') || c == '-') {
            assert(!project_char(name@[i as int]));
            return Err(ProjectNameError::InvalidCharacter);
        }
        i = i + 1;
    }
    assert(only_project_chars(name@));
    if cs[0] == '-' {
        return Err(ProjectNameError::LeadingHyphen);
    }
    if cs[n - 1] == '-' {
        return Err(ProjectNameError::TrailingHyphen);
    }
    let mut j: usize = 0;
    while j + 1 < n
        invariant
            n == cs@.len() == name@.len(),
            cs@ == name@,
            0 < n <= max_len,
            only_project_chars(name@),
            name@[0] != '-',
            name@[n - 1] != '-',
            j < n,
            forall|k: int| 0 <= k < j ==> !#[trigger] hyphen_pair_at(cs@, k),
        decreases n - j,
    {
        if cs[j] == '-' && cs[j + 1] == '-' {
            assert(hyphen_pair_at(name@, j as int));
            assert(has_double_hyphen(name@));
            return Err(ProjectNameError::ConsecutiveHyphens);
        }
        j = j + 1;
    }
    assert(!has_double_hyphen(name@)) by {
        assert forall|k: int| 0 <= k < name@.len() - 1 implies !#[trigger] hyphen_pair_at(name@, k) by {
            assert(!hyphen_pair_at(cs@, k));
        }
    }
    Ok(())
}

/// Whether `login` is a login as the system generates it.
pub fn is_login(login: &str) -> (r: bool)
    ensures
        r == is_valid_login(login@),
{
    let cs = to_chars(login);
    let n = cs.len();
    if n == 0 {
        return false;
    }
    let mut i: usize = 0;
    while i < n
        invariant
            n == cs@.len() == login@.len(),
            cs@ == login@,
            i <= n,
            forall|k: int| 0 <= k < i ==> #[trigger] lower_or_digit(cs@[k]),
        decreases n - i,
    {
        let c = cs[i];
        if !(('a' <= c && c <= 'z') || ('0' <= c && c <= '9')) {
            assert(!lower_or_digit(login@[i as int]));
            return false;
        }
        i = i + 1;
    }
    true
}

/// The canonical repository name `<login>-<project_name>`.
pub fn repo_name(login: &str, project_name: &str) -> (r: String)
    ensures
        r@ == canonical(login@, project_name@),
{
    let r = concat3(login, "-", project_name);
    proof {
        reveal_strlit("-");
        assert(r@ =~= canonical(login@, project_name@));
    }
    r
}

/// The URL of the hosted repository.
pub fn repo_url(repo_name: &str, base_domain: &str) -> (r: String)
    ensures
        r@ == repo_url_of(repo_name@, base_domain@),
{
    let mut r = concat3("https://git.", base_domain, "/");
    r.append(repo_name);
    r.append(".git");
    r
}

/// The RPC endpoint of a deployed application.
pub fn http_url(repo_name: &str, base_domain: &str) -> (r: String)
    ensures
        r@ == http_url_of(repo_name@, base_domain@),
{
    let mut r = concat3("https://", repo_name, "-rpc.");
    r.append(base_domain);
    r
}

/// The websocket endpoint of a deployed application.
pub fn ws_url(repo_name: &str, base_domain: &str) -> (r: String)
    ensures
        r@ == ws_url_of(repo_name@, base_domain@),
{
    let mut r = concat3("wss://", repo_name, ".");
    r.append(base_domain);
    r
}

/// Whether the first path segment of `uri` (the text after a leading `/`, up to
/// the next `/`) starts with `prefix`.
pub open spec fn first_segment_starts_with(uri: Seq<char>, prefix: Seq<char>) -> bool {
    &&& uri.len() > prefix.len()
    &&& uri[0] == '/'
    &&& uri.subrange(1, prefix.len() as int + 1) == prefix
    &&& !has_char(prefix, '/')
}

/// Whether `uri` names a repository in the namespace of `login`: its first
/// path segment starts with `<login>-`.
pub open spec fn in_namespace(login: Seq<char>, uri: Seq<char>) -> bool {
    first_segment_starts_with(uri, login + seq!['-'])
}

/// Whether the requested path `uri` lies in the namespace of `login`.
pub fn uri_in_namespace(login: &str, uri: &str) -> (r: bool)
    ensures
        r == in_namespace(login@, uri@),
{
    let l = to_chars(login);
    let u = to_chars(uri);
    let ghost p = login@ + seq!['-'];
    assert(p.len() == l@.len() + 1 && p[l@.len() as int] == '-');
    let n = l.len();
    if n >= u.len() || u.len() - n < 2 || u[0] != '/' || u[n + 1] != '-' {
        proof {
            if in_namespace(login@, uri@) {
                assert(u@[n + 1] == u@.subrange(1, p.len() as int + 1)[n as int]);
            }
        }
        return false;
    }
    let mut i: usize = 0;
    while i < n
        invariant
            l@ == login@,
            u@ == uri@,
            p == login@ + seq!['-'],
            n == l@.len(),
            u@.len() > n + 1,
            i <= n,
            forall|k: int| 0 <= k < i ==> #[trigger] l@[k] == u@[k + 1] && l@[k] != '/',
        decreases n - i,
    {
        if l[i] != u[i + 1] || l[i] == '/' {
            proof {
                if in_namespace(login@, uri@) {
                    assert(u@.subrange(1, p.len() as int + 1)[i as int] == p[i as int]);
                    assert(p[i as int] == l@[i as int]);
                }
            }
            return false;
        }
        i = i + 1;
    }
    proof {
        assert(u@.subrange(1, p.len() as int + 1) =~= p);
        assert(!has_char(p, '/')) by {
            if has_char(p, '/') {
                let k = choose|k: int| 0 <= k < p.len() && p[k] == '/';
                if k < n {
                    assert(l@[k] != '/');
                }
            }
        }
    }
    true
}

} // verus!
