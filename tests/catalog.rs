use polkahub::accounts::Accounts;
use polkahub::catalog::{build_find_project_response, text_contains, Catalog, CatalogError};
use polkahub::naming::ProjectNameError;

fn setup() -> (Accounts, Catalog) {
    let mut a = Accounts::new();
    assert_eq!(a.signup("alice@example.com", "h1", "alice1", "v1", 1), Ok(()));
    assert_eq!(a.signup("bob@example.com", "h2", "bob2", "v2", 2), Ok(()));
    (a, Catalog::new(32))
}

#[test]
fn substring_search_on_text() {
    assert!(text_contains("hello-world", "lo-w"));
    assert!(text_contains("hello", ""));
    assert!(text_contains("hello", "hello"));
    assert!(!text_contains("hello", "Hello"));
    assert!(!text_contains("he", "hello"));
}

#[test]
fn insert_and_find_by_substring() {
    let (a, mut c) = setup();
    assert_eq!(c.insert_user_project(&a, "alice1", "hello", "0.1.0", Some("greeter")), Ok(()));
    assert_eq!(c.insert_user_project(&a, "bob2", "yellow", "1.0.0", None), Ok(()));
    assert_eq!(c.insert_user_project(&a, "bob2", "other", "1.0.0", None), Ok(()));
    let found = c.find("ello");
    assert_eq!(found.len(), 2);
    assert_eq!(found[0].login, "alice1");
    assert_eq!(found[0].name, "hello");
    assert_eq!(found[0].description.as_deref(), Some("greeter"));
    assert_eq!(found[1].name, "yellow");
    assert_eq!(c.find("ELLO").len(), 0);
}

#[test]
fn duplicate_version_is_refused() {
    let (a, mut c) = setup();
    assert_eq!(c.insert_user_project(&a, "alice1", "hello", "0.1.0", None), Ok(()));
    assert_eq!(c.insert_user_project(&a, "alice1", "hello", "0.1.0", Some("x")), Err(CatalogError::AlreadyExists));
    assert_eq!(c.insert_user_project(&a, "alice1", "hello", "0.2.0", None), Ok(()));
    assert_eq!(c.insert_user_project(&a, "bob2", "hello", "0.1.0", None), Ok(()));
    assert_eq!(c.projects.len(), 3);
    assert_eq!(CatalogError::AlreadyExists.reason(), "email-already-exists");
}

#[test]
fn unknown_owner_is_refused() {
    let (a, mut c) = setup();
    assert_eq!(c.insert_user_project(&a, "carol3", "hello", "0.1.0", None), Err(CatalogError::AccountNotFound));
    assert_eq!(c.projects.len(), 0);
    assert_eq!(CatalogError::AccountNotFound.reason(), "account-not-found");
}

#[test]
fn find_response_lists_records() {
    let (a, mut c) = setup();
    assert_eq!(c.insert_user_project(&a, "alice1", "hello", "0.1.0", Some("say \"hi\"")), Ok(()));
    assert_eq!(c.insert_user_project(&a, "bob2", "help", "2", None), Ok(()));
    let body = build_find_project_response(&c.find("hel"));
    assert_eq!(
        body,
        "{\"payload\":[{\"description\":\"say \\\"hi\\\"\",\"login\":\"alice1\",\"name\":\"hello\",\"version\":\"0.1.0\"},{\"description\":null,\"login\":\"bob2\",\"name\":\"help\",\"version\":\"2\"}],\"status\":\"ok\"}"
    );
    assert_eq!(build_find_project_response(&Vec::new()), "{\"payload\":[],\"status\":\"ok\"}");
}

#[test]
fn invalid_project_name_is_refused_and_catalog_unchanged() {
    let (a, mut c) = setup();
    assert_eq!(c.insert_user_project(&a, "alice1", "hello", "0.1.0", None), Ok(()));
    assert_eq!(
        c.insert_user_project(&a, "alice1", "Hello World", "0.1.0", None),
        Err(CatalogError::InvalidProjectName(ProjectNameError::InvalidCharacter))
    );
    assert_eq!(
        c.insert_user_project(&a, "alice1", "abcdefghijklmnopqrstuvwxyz0123456", "1", None),
        Err(CatalogError::InvalidProjectName(ProjectNameError::TooLong))
    );
    assert_eq!(c.projects.len(), 1);
    assert_eq!(c.projects[0].name, "hello");
    assert_eq!(
        CatalogError::InvalidProjectName(ProjectNameError::LeadingHyphen).reason(),
        "invalid-project-name: it must not start with '-'"
    );
}
