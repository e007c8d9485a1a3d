use vstd::prelude::*;
use vstd::string::*;

use crate::accounts::{login_taken, Accounts};
use crate::json::{json_field, json_string, json_string_of, push_field};
use crate::naming::{
    is_valid_project_name, lemma_verdict_matches_grammar, project_name_verdict, validate_project_name,
    ProjectNameError,
};
use crate::text::{opt_view, same_text, to_chars};

verus! {

/// A published version of a user's project.
pub struct FoundProject {
    pub login: String,
    pub name: String,
    pub version: String,
    pub description: Option<String>,
}

pub struct ProjectView {
    pub login: Seq<char>,
    pub name: Seq<char>,
    pub version: Seq<char>,
    pub description: Option<Seq<char>>,
}

impl View for FoundProject {
    type V = ProjectView;

    open spec fn view(&self) -> ProjectView {
        ProjectView {
            login: self.login@,
            name: self.name@,
            version: self.version@,
            description: opt_view(self.description),
        }
    }
}

/// Why a project version could not be recorded.
#[derive(Clone, Copy, Debug, PartialEq, Eq, Structural)]
pub enum CatalogError {
    /// The project name breaks the grammar.
    InvalidProjectName(ProjectNameError),
    AccountNotFound,
    /// The owner already published this name and version.
    AlreadyExists,
}

impl CatalogError {
    pub open spec fn reason_spec(&self) -> Seq<char> {
        match self {
            CatalogError::InvalidProjectName(e) => e.reason_spec(),
            CatalogError::AccountNotFound => "account-not-found"@,
            CatalogError::AlreadyExists => "email-already-exists"@,
        }
    }

    /// The stable user-visible reason (a duplicate keeps its historical reason).
    pub fn reason(&self) -> (r: String)
        ensures
            r@ == self.reason_spec(),
    {
        match self {
            CatalogError::InvalidProjectName(e) => e.reason(),
            CatalogError::AccountNotFound => String::from_str("account-not-found"),
            CatalogError::AlreadyExists => String::from_str("email-already-exists"),
        }
    }
}

pub open spec fn same_key(a: ProjectView, login: Seq<char>, name: Seq<char>, version: Seq<char>) -> bool {
    a.login == login && a.name == name && a.version == version
}

pub open spec fn key_taken(s: Seq<ProjectView>, login: Seq<char>, name: Seq<char>, version: Seq<char>) -> bool {
    exists|i: int| 0 <= i < s.len() && #[trigger] same_key(s[i], login, name, version)
}

/// The catalog's invariant: `(owner, name, version)` is unique, and every
/// name is a valid project name of at most `max` characters.
pub open spec fn catalog_wf(s: Seq<ProjectView>, max: nat) -> bool {
    &&& forall|i: int, j: int|
        0 <= i < j < s.len() ==> !same_key(#[trigger] s[i], s[j].login, s[j].name, s[j].version)
            && !same_key(#[trigger] s[j], s[i].login, s[i].name, s[i].version)
    &&& forall|i: int| 0 <= i < s.len() ==> is_valid_project_name(#[trigger] s[i].name, max)
}

/// The verdict on an insert: the name must be valid, the owner must exist,
/// and the version must be new for that owner and name.
pub open spec fn insert_result(
    s: Seq<ProjectView>,
    max: nat,
    logins_known: bool,
    login: Seq<char>,
    name: Seq<char>,
    version: Seq<char>,
) -> Result<(), CatalogError> {
    match project_name_verdict(name, max) {
        Err(e) => Err(CatalogError::InvalidProjectName(e)),
        Ok(_) => if !logins_known {
            Err(CatalogError::AccountNotFound)
        } else if key_taken(s, login, name, version) {
            Err(CatalogError::AlreadyExists)
        } else {
            Ok(())
        },
    }
}

pub open spec fn opt_str_view(o: Option<&str>) -> Option<Seq<char>> {
    match o {
        Some(s) => Some(s@),
        None => None,
    }
}

/// The record that an insert adds.
pub open spec fn new_record(
    login: Seq<char>,
    name: Seq<char>,
    version: Seq<char>,
    description: Option<Seq<char>>,
) -> ProjectView {
    ProjectView { login, name, version, description }
}

/// Whether `q` occurs in `s` as a contiguous piece.
pub open spec fn contains_text(s: Seq<char>, q: Seq<char>) -> bool {
    exists|i: int| 0 <= i <= s.len() - q.len() && #[trigger] s.subrange(i, i + q.len()) == q
}

/// The records whose name contains `q`, in catalog order.
pub open spec fn matching(s: Seq<ProjectView>, q: Seq<char>) -> Seq<ProjectView>
    decreases s.len(),
{
    if s.len() == 0 {
        Seq::empty()
    } else if contains_text(s.last().name, q) {
        matching(s.drop_last(), q).push(s.last())
    } else {
        matching(s.drop_last(), q)
    }
}

/// Whether the text `s` contains `q`.
pub fn text_contains(s: &str, q: &str) -> (r: bool)
    ensures
        r == contains_text(s@, q@),
{
    let a = to_chars(s);
    let b = to_chars(q);
    if b.len() > a.len() {
        return false;
    }
    let n = a.len();
    let last = n - b.len();
    let mut i: usize = 0;
    loop
        invariant
            n == a@.len(),
            a@ == s@,
            b@ == q@,
            last == a@.len() - b@.len(),
            b@.len() <= a@.len(),
            i <= last,
            forall|k: int| 0 <= k < i ==> #[trigger] a@.subrange(k, k + b@.len()) != b@,
        decreases last - i,
    {
        let mut j: usize = 0;
        let mut equal = true;
        while j < b.len()
            invariant
                a@ == s@,
                b@ == q@,
                i <= last,
                n == a@.len(),
                last == a@.len() - b@.len(),
                b@.len() <= a@.len(),
                j <= b@.len(),
                equal ==> forall|k: int| 0 <= k < j ==> #[trigger] b@[k] == a@[i + k],
                !equal ==> a@.subrange(i as int, i + b@.len()) != b@,
            decreases b@.len() - j,
        {
            if equal && a[i + j] != b[j] {
                equal = false;
                assert(a@.subrange(i as int, i + b@.len())[j as int] != b@[j as int]);
            }
            j = j + 1;
        }
        if equal {
            assert(a@.subrange(i as int, i + b@.len()) =~= b@);
            return true;
        }
        if i == last {
            return false;
        }
        i = i + 1;
    }
}

fn copy_record(p: &FoundProject) -> (r: FoundProject)
    ensures
        r@ == p@,
{
    let description = match &p.description {
        Some(d) => Some(String::from_str(d.as_str())),
        None => None,
    };
    FoundProject {
        login: String::from_str(p.login.as_str()),
        name: String::from_str(p.name.as_str()),
        version: String::from_str(p.version.as_str()),
        description,
    }
}

/// The catalog of published project versions, with the longest project
/// name it accepts.
pub struct Catalog {
    pub projects: Vec<FoundProject>,
    pub max_name_len: usize,
}

impl View for Catalog {
    type V = Seq<ProjectView>;

    open spec fn view(&self) -> Seq<ProjectView> {
        self.projects@.map_values(|p: FoundProject| p@)
    }
}

pub open spec fn records_view(v: Seq<FoundProject>) -> Seq<ProjectView> {
    v.map_values(|p: FoundProject| p@)
}

impl Catalog {
    pub open spec fn wf(&self) -> bool {
        catalog_wf(self@, self.max_name_len as nat)
    }

    /// An empty catalog accepting names of at most `max_name_len` characters.
    pub fn new(max_name_len: usize) -> (r: Catalog)
        ensures
            r@ == Seq::<ProjectView>::empty(),
            r.max_name_len == max_name_len,
            r.wf(),
    {
        let r = Catalog { projects: Vec::new(), max_name_len };
        assert(r@ =~= Seq::<ProjectView>::empty());
        r
    }

    /// Records a version of `login`'s project. The name must be a valid
    /// project name, the owner must have an account, and the same name and
    /// version must not be recorded for it yet.
    pub fn insert_user_project(
        &mut self,
        accounts: &Accounts,
        login: &str,
        name: &str,
        version: &str,
        description: Option<&str>,
    ) -> (r: Result<(), CatalogError>)
        requires
            old(self).wf(),
        ensures
            final(self).wf(),
            final(self).max_name_len == old(self).max_name_len,
            r == insert_result(
                old(self)@,
                old(self).max_name_len as nat,
                login_taken(accounts@, login@),
                login@,
                name@,
                version@,
            ),
            r is Ok ==> final(self)@ == old(self)@.push(
                new_record(login@, name@, version@, opt_str_view(description)),
            ),
            r is Err ==> final(self)@ == old(self)@,
    {
        if let Err(e) = validate_project_name(name, self.max_name_len) {
            return Err(CatalogError::InvalidProjectName(e));
        }
        proof {
            lemma_verdict_matches_grammar(name@, self.max_name_len as nat);
        }
        let mut found = false;
        let mut i: usize = 0;
        while i < accounts.accounts.len()
            invariant
                i <= accounts@.len(),
                accounts@.len() == accounts.accounts@.len(),
                found == exists|k: int| 0 <= k < i && #[trigger] accounts@[k].login == login@,
            decreases accounts@.len() - i,
        {
            assert(accounts@[i as int].login == accounts.accounts@[i as int].login@);
            if same_text(accounts.accounts[i].login.as_str(), login) {
                found = true;
            }
            i = i + 1;
        }
        if !found {
            return Err(CatalogError::AccountNotFound);
        }
        let mut j: usize = 0;
        while j < self.projects.len()
            invariant
                j <= self@.len(),
                self@ == old(self)@,
                self.max_name_len == old(self).max_name_len,
                old(self).wf(),
                login_taken(accounts@, login@),
                is_valid_project_name(name@, self.max_name_len as nat),
                project_name_verdict(name@, self.max_name_len as nat) is Ok,
                self@.len() == self.projects@.len(),
                forall|k: int| 0 <= k < j ==> !#[trigger] same_key(self@[k], login@, name@, version@),
            decreases self@.len() - j,
        {
            let p = &self.projects[j];
            if same_text(p.login.as_str(), login) && same_text(p.name.as_str(), name) && same_text(
                p.version.as_str(),
                version,
            ) {
                assert(same_key(self@[j as int], login@, name@, version@));
                return Err(CatalogError::AlreadyExists);
            }
            j = j + 1;
        }
        let record = FoundProject {
            login: String::from_str(login),
            name: String::from_str(name),
            version: String::from_str(version),
            description: match description {
                Some(d) => Some(String::from_str(d)),
                None => None,
            },
        };
        let ghost before = self@;
        self.projects.push(record);
        proof {
            assert(self@ =~= before.push(record@));
            assert forall|a: int| 0 <= a < self@.len() implies is_valid_project_name(
                #[trigger] self@[a].name,
                self.max_name_len as nat,
            ) by {
                if a < before.len() {
                    assert(self@[a] == before[a]);
                }
            }
            assert forall|a: int, b: int| 0 <= a < b < self@.len() implies !same_key(
                #[trigger] self@[a],
                self@[b].login,
                self@[b].name,
                self@[b].version,
            ) && !same_key(#[trigger] self@[b], self@[a].login, self@[a].name, self@[a].version) by {
                if b == before.len() {
                    assert(!same_key(before[a], login@, name@, version@));
                }
            }
        }
        Ok(())
    }

    /// Every record whose project name contains `q` (case-sensitive).
    pub fn find(&self, q: &str) -> (r: Vec<FoundProject>)
        ensures
            records_view(r@) == matching(self@, q@),
    {
        let mut r: Vec<FoundProject> = Vec::new();
        let mut i: usize = 0;
        while i < self.projects.len()
            invariant
                i <= self@.len(),
                self@.len() == self.projects@.len(),
                records_view(r@) == matching(self@.subrange(0, i as int), q@),
            decreases self@.len() - i,
        {
            let ghost before = r@;
            let ghost pre = self@.subrange(0, i + 1);
            assert(pre.drop_last() =~= self@.subrange(0, i as int));
            if text_contains(self.projects[i].name.as_str(), q) {
                r.push(copy_record(&self.projects[i]));
                assert(records_view(r@) =~= records_view(before).push(self@[i as int]));
            }
            i = i + 1;
        }
        assert(self@.subrange(0, self@.len() as int) =~= self@);
        r
    }
}

/// The JSON of one found record, keys in order.
pub open spec fn record_json(p: ProjectView) -> Seq<char> {
    "{\"description\":"@ + (match p.description {
        Some(d) => json_string_of(d),
        None => "null"@,
    }) + ","@ + json_field("login"@, p.login) + ","@ + json_field("name"@, p.name) + ","@
        + json_field("version"@, p.version) + "}"@
}

/// The records' JSON, separated by commas.
pub open spec fn records_json(s: Seq<ProjectView>) -> Seq<char>
    decreases s.len(),
{
    if s.len() == 0 {
        Seq::empty()
    } else if s.len() == 1 {
        record_json(s[0])
    } else {
        records_json(s.drop_last()) + ","@ + record_json(s.last())
    }
}

/// `{"payload":[..],"status":"ok"}` for a list of found records.
pub open spec fn find_body_of(s: Seq<ProjectView>) -> Seq<char> {
    "{\"payload\":["@ + records_json(s) + "],\"status\":\"ok\"}"@
}

fn push_record(out: &mut String, p: &FoundProject)
    ensures
        final(out)@ == old(out)@ + record_json(p@),
{
    let ghost o = old(out)@;
    out.append("{\"description\":");
    match &p.description {
        Some(d) => {
            let q = json_string(d.as_str());
            out.append(q.as_str());
        },
        None => out.append("null"),
    }
    out.append(",");
    push_field(out, "login", p.login.as_str());
    out.append(",");
    push_field(out, "name", p.name.as_str());
    out.append(",");
    push_field(out, "version", p.version.as_str());
    out.append("}");
    assert(final(out)@ =~= o + record_json(p@));
}

/// The body of a search answer.
pub fn build_find_project_response(found: &Vec<FoundProject>) -> (r: String)
    ensures
        r@ == find_body_of(records_view(found@)),
{
    let mut body = String::new();
    let mut i: usize = 0;
    while i < found.len()
        invariant
            i <= found@.len(),
            body@ == records_json(records_view(found@).subrange(0, i as int)),
        decreases found@.len() - i,
    {
        let ghost before = body@;
        let ghost pre = records_view(found@).subrange(0, i + 1);
        assert(pre.drop_last() =~= records_view(found@).subrange(0, i as int));
        if i > 0 {
            body.append(",");
        }
        push_record(&mut body, &found[i]);
        proof {
            if i == 0 {
                assert(before =~= Seq::<char>::empty());
                assert(body@ =~= record_json(pre[0]));
            } else {
                assert(body@ =~= before + ","@ + record_json(pre.last()));
            }
        }
        i = i + 1;
    }
    assert(records_view(found@).subrange(0, found@.len() as int) =~= records_view(found@));
    let mut r = String::from_str("{\"payload\":[");
    r.append(body.as_str());
    r.append("],\"status\":\"ok\"}");
    r
}

} // verus!
