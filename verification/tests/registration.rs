use shortener::api::{
    add, add_with, first_free_name, gen_random_name, logout, random_candidates, register_with,
    respond, serve, should_update, AddPostResponse, AddResultError, FormErrorPair, API_LOCAL,
};
use shortener::auth::{Access, User};
use shortener::config::AppConfig;
use shortener::database::{Db, Url};
use shortener::http::Status;
use shortener::routes::redirect;
use shortener::validation::{AddData, ValidationError};

fn config() -> AppConfig {
    AppConfig {
        client_id: "id".to_string(),
        client_secret: "secret".to_string(),
        client_url: "https://sso.example.org".to_string(),
        hostname: "https://s.example.org/".to_string(),
    }
}

fn user(id: &str) -> User {
    User { id: id.to_string() }
}

fn request(name: Option<&str>, url: &str, force: Option<bool>) -> AddData {
    AddData { name: name.map(|n| n.to_string()), url: url.to_string(), force }
}

fn store_with_wildcard(id: &str) -> Db {
    let mut db = Db::new();
    db.grant(id, "");
    db
}

fn names(list: &[&str]) -> Vec<String> {
    list.iter().map(|n| n.to_string()).collect()
}

fn target(db: &Db, name: &str) -> Option<String> {
    match redirect(db, name) {
        Ok(to) => Some(to.target),
        Err(_) => None,
    }
}

#[test]
fn new_name_resolves_to_its_url() {
    let mut db = store_with_wildcard("alice");
    let resp = add(&config(), &mut db, &user("alice"), &request(Some("docs"), "https://example.org/docs", None));
    assert!(resp.success);
    assert_eq!(resp.url, Some("https://s.example.org/docs".to_string()));
    assert_eq!(resp.error, None);
    assert!(!resp.allow_force);
    assert!(resp.form_errors.is_empty());
    assert_eq!(target(&db, "docs"), Some("https://example.org/docs".to_string()));
}

#[test]
fn new_name_with_force_resolves_to_its_url() {
    let mut db = store_with_wildcard("alice");
    let resp = add(&config(), &mut db, &user("alice"), &request(Some("docs"), "https://example.org/docs", Some(true)));
    assert!(resp.success);
    assert_eq!(target(&db, "docs"), Some("https://example.org/docs".to_string()));
}

#[test]
fn forced_new_name_for_known_url_is_registered() {
    let mut db = store_with_wildcard("alice");
    assert!(db.insert("old", "https://example.org/a").is_ok());
    let resp = add(&config(), &mut db, &user("alice"), &request(Some("new"), "https://example.org/a", Some(true)));
    assert!(resp.success);
    assert_eq!(resp.url, Some("https://s.example.org/new".to_string()));
    assert_eq!(target(&db, "new"), Some("https://example.org/a".to_string()));
    assert_eq!(target(&db, "old"), Some("https://example.org/a".to_string()));
}

#[test]
fn unnamed_request_twice_gives_one_name_and_one_record() {
    let mut db = Db::new();
    let info = request(None, "https://example.org/page", None);
    let first = add(&config(), &mut db, &user("bob"), &info);
    assert!(first.success);
    let link = first.url.clone().unwrap();
    let name = link.strip_prefix("https://s.example.org/").unwrap().to_string();
    assert_eq!(name.chars().count(), 3);
    assert!(name.chars().all(|c| c.is_ascii_alphanumeric()));
    assert_eq!(target(&db, &name), Some("https://example.org/page".to_string()));
    let second = add(&config(), &mut db, &user("bob"), &info);
    assert!(second.success);
    assert_eq!(second.url, first.url);
    let found = Url::from_url(&db, "https://example.org/page").unwrap();
    assert_eq!(found.name, name);
    assert!(db.insert(&name, "https://example.org/other").is_err());
}

#[test]
fn unnamed_request_takes_first_free_candidate() {
    let mut db = Db::new();
    assert!(db.insert("aaa", "https://example.org/1").is_ok());
    let resp = add_with(
        &config(),
        &mut db,
        &user("bob"),
        &request(None, "https://example.org/2", None),
        &names(&["aaa", "bbb", "ccc"]),
    );
    assert!(resp.success);
    assert_eq!(resp.url, Some("https://s.example.org/bbb".to_string()));
    assert_eq!(target(&db, "bbb"), Some("https://example.org/2".to_string()));
    assert_eq!(target(&db, "ccc"), None);
}

#[test]
fn unnamed_request_reuses_the_name_of_a_known_url() {
    let mut db = Db::new();
    assert!(db.insert("first", "https://example.org/x").is_ok());
    assert!(db.insert("later", "https://example.org/x").is_ok());
    let resp = add_with(
        &config(),
        &mut db,
        &user("bob"),
        &request(None, "https://example.org/x", None),
        &names(&["zzz"]),
    );
    assert!(resp.success);
    assert_eq!(resp.url, Some("https://s.example.org/first".to_string()));
    assert_eq!(target(&db, "zzz"), None);
}

#[test]
fn taken_name_without_force_is_a_conflict() {
    let mut db = store_with_wildcard("alice");
    assert!(add(&config(), &mut db, &user("alice"), &request(Some("docs"), "https://example.org/1", None)).success);
    let resp = add(&config(), &mut db, &user("alice"), &request(Some("docs"), "https://example.org/2", None));
    assert!(!resp.success);
    assert!(resp.allow_force);
    assert_eq!(resp.url, None);
    assert_eq!(resp.error, Some("The name already exists. Would you like to override?".to_string()));
    assert_eq!(target(&db, "docs"), Some("https://example.org/1".to_string()));
    assert!(Url::from_url(&db, "https://example.org/2").is_none());
}

#[test]
fn explicit_force_false_is_without_force() {
    let mut db = store_with_wildcard("alice");
    assert!(db.insert("docs", "https://example.org/1").is_ok());
    let resp = add(&config(), &mut db, &user("alice"), &request(Some("docs"), "https://example.org/2", Some(false)));
    assert!(!resp.success);
    assert!(resp.allow_force);
    assert_eq!(target(&db, "docs"), Some("https://example.org/1".to_string()));
}

#[test]
fn taken_name_with_force_is_overwritten() {
    let mut db = store_with_wildcard("alice");
    assert!(add(&config(), &mut db, &user("alice"), &request(Some("docs"), "https://example.org/1", None)).success);
    assert!(db.insert("other", "https://example.org/o").is_ok());
    let resp = add(&config(), &mut db, &user("alice"), &request(Some("docs"), "https://example.org/2", Some(true)));
    assert!(resp.success);
    assert_eq!(resp.url, Some("https://s.example.org/docs".to_string()));
    assert_eq!(target(&db, "docs"), Some("https://example.org/2".to_string()));
    assert_eq!(target(&db, "other"), Some("https://example.org/o".to_string()));
    assert!(Url::from_url(&db, "https://example.org/1").is_none());
}

#[test]
fn known_url_without_force_names_the_other_link() {
    let mut db = store_with_wildcard("alice");
    assert!(db.insert("old", "https://example.org/a").is_ok());
    let resp = add(&config(), &mut db, &user("alice"), &request(Some("new"), "https://example.org/a", None));
    assert!(!resp.success);
    assert!(resp.allow_force);
    assert_eq!(
        resp.error,
        Some("This already has a link with name 'old'. Are you sure you want to create a new link?".to_string())
    );
    assert_eq!(target(&db, "new"), None);
}

#[test]
fn url_differing_in_trailing_slash_is_another_url() {
    let mut db = store_with_wildcard("alice");
    assert!(db.insert("old", "https://example.org/a").is_ok());
    let resp = add(&config(), &mut db, &user("alice"), &request(Some("new"), "https://example.org/a/", None));
    assert!(resp.success);
    assert_eq!(target(&db, "new"), Some("https://example.org/a/".to_string()));
}

#[test]
fn prefix_grant_covers_only_its_names() {
    let mut db = Db::new();
    db.grant("carol", "blog-");
    let ok = add(&config(), &mut db, &user("carol"), &request(Some("blog-x"), "https://example.org/b", None));
    assert!(ok.success);
    assert_eq!(target(&db, "blog-x"), Some("https://example.org/b".to_string()));
    let refused = add(&config(), &mut db, &user("carol"), &request(Some("shop-x"), "https://example.org/s", None));
    assert!(!refused.success);
    assert!(!refused.allow_force);
    assert_eq!(refused.error, Some("You do not have permission to create this link".to_string()));
    assert_eq!(refused.url, None);
    assert_eq!(target(&db, "shop-x"), None);
}

#[test]
fn name_shorter_than_the_prefix_is_refused() {
    let mut db = Db::new();
    db.grant("carol", "blog-");
    let refused = add(&config(), &mut db, &user("carol"), &request(Some("blog"), "https://example.org/b", None));
    assert!(!refused.success);
    assert_eq!(target(&db, "blog"), None);
}

#[test]
fn empty_prefix_grant_covers_any_name() {
    let mut db = store_with_wildcard("dave");
    for name in ["blog-x", "shop-x", "x", "Zürich_2"] {
        let resp = add(&config(), &mut db, &user("dave"), &request(Some(name), &format!("https://example.org/{}", name), None));
        assert!(resp.success);
    }
    assert_eq!(target(&db, "shop-x"), Some("https://example.org/shop-x".to_string()));
}

#[test]
fn grant_of_another_user_does_not_count() {
    let mut db = store_with_wildcard("dave");
    let resp = add(&config(), &mut db, &user("erin"), &request(Some("x"), "https://example.org/x", Some(true)));
    assert!(!resp.success);
    assert_eq!(resp.error, Some("You do not have permission to create this link".to_string()));
    assert_eq!(target(&db, "x"), None);
}

#[test]
fn exhausted_candidates_fail_and_insert_nothing() {
    let mut db = Db::new();
    let taken = ["aaa", "bbb", "ccc", "ddd", "eee"];
    for (i, name) in taken.iter().enumerate() {
        assert!(db.insert(name, &format!("https://example.org/{}", i)).is_ok());
    }
    let resp = add_with(
        &config(),
        &mut db,
        &user("bob"),
        &request(None, "https://example.org/new", None),
        &names(&taken),
    );
    assert!(!resp.success);
    assert!(!resp.allow_force);
    assert_eq!(resp.error, Some("Could not create the link".to_string()));
    assert_eq!(resp.url, None);
    assert!(Url::from_url(&db, "https://example.org/new").is_none());
    let outcome = register_with(&mut db, &user("bob"), &request(None, "https://example.org/new", None), &names(&taken));
    assert!(matches!(outcome, Err(AddResultError::FailedGen)));
    assert!(matches!(first_free_name(&db, &names(&taken)), Err(AddResultError::FailedGen)));
    assert!(matches!(first_free_name(&db, &names(&[])), Err(AddResultError::FailedGen)));
}

#[test]
fn generated_name_is_free_and_three_alphanumerics() {
    let mut db = Db::new();
    assert!(db.insert("aaa", "https://example.org/1").is_ok());
    for _ in 0..50 {
        let name = gen_random_name(&db).unwrap();
        assert_eq!(name.len(), 3);
        assert!(name.chars().all(|c| c.is_ascii_alphanumeric()));
        assert!(!Url::name_exists(&db, &name));
    }
}

#[test]
fn should_update_decisions() {
    let mut db = Db::new();
    assert!(db.insert("old", "https://example.org/a").is_ok());
    assert!(matches!(should_update(&db, "new", "https://example.org/b", false), Ok(false)));
    assert!(matches!(should_update(&db, "new", "https://example.org/b", true), Ok(false)));
    assert!(matches!(should_update(&db, "old", "https://example.org/b", true), Ok(true)));
    assert!(matches!(should_update(&db, "new", "https://example.org/a", true), Ok(true)));
    assert!(matches!(should_update(&db, "old", "https://example.org/b", false), Err(AddResultError::NameExists)));
    assert!(matches!(should_update(&db, "old", "https://example.org/a", false), Err(AddResultError::NameExists)));
    match should_update(&db, "new", "https://example.org/a", false) {
        Err(AddResultError::UrlExists(name)) => assert_eq!(name, "old"),
        other => panic!("unexpected {:?}", other),
    }
}

#[test]
fn invalid_request_is_reported_by_field_and_writes_nothing() {
    let mut db = store_with_wildcard("alice");
    let resp = add(&config(), &mut db, &user("alice"), &request(Some("a/b"), "not a url", Some(true)));
    assert!(!resp.success);
    assert!(!resp.allow_force);
    assert_eq!(resp.error, Some("Invalid request".to_string()));
    assert_eq!(resp.url, None);
    assert_eq!(resp.form_errors.len(), 2);
    assert_eq!(resp.form_errors[0].name, "name");
    assert_eq!(resp.form_errors[0].description, "");
    assert_eq!(resp.form_errors[1].name, "url");
    assert_eq!(resp.form_errors[1].description, "");
    assert_eq!(target(&db, "a/b"), None);
}

#[test]
fn reserved_name_never_reaches_the_store() {
    let mut db = store_with_wildcard("alice");
    for name in ["api", "admin", "js", "css", "login", "callback"] {
        let resp = add(&config(), &mut db, &user("alice"), &request(Some(name), "https://example.org/", Some(true)));
        assert!(!resp.success);
        assert_eq!(resp.error, Some("Invalid request".to_string()));
        assert_eq!(resp.form_errors.len(), 1);
        assert_eq!(resp.form_errors[0].name, "name");
        assert!(matches!(redirect(&db, name), Err(Status::NotFound)));
    }
}

#[test]
fn respond_maps_each_outcome() {
    let ok = respond("https://s.example.org/", Ok("abc".to_string()));
    assert!(ok.success);
    assert_eq!(ok.url, Some("https://s.example.org/abc".to_string()));
    let gen = respond("h/", Err(AddResultError::FailedGen));
    assert_eq!(gen.error, Some("Could not create the link".to_string()));
    assert!(!gen.allow_force && !gen.success);
    let storage = respond("h/", Err(AddResultError::Error(shortener::database::StorageError::UniqueViolation)));
    assert_eq!(storage.error, Some("Could not create the link".to_string()));
    assert!(!storage.allow_force && !storage.success);
    let exists = respond("h/", Err(AddResultError::NameExists));
    assert!(exists.allow_force && !exists.success);
    let url = respond("h/", Err(AddResultError::UrlExists("n".to_string())));
    assert!(url.allow_force && !url.success);
    assert_eq!(
        url.error,
        Some("This already has a link with name 'n'. Are you sure you want to create a new link?".to_string())
    );
    let denied = respond("h/", Err(AddResultError::UnauthorisedLink));
    assert!(!denied.allow_force && !denied.success);
}

#[test]
fn response_builders() {
    let ok = AddPostResponse::ok("u".to_string());
    assert!(ok.success && !ok.allow_force && ok.error.is_none() && ok.form_errors.is_empty());
    assert_eq!(ok.url, Some("u".to_string()));
    let pair = FormErrorPair { name: "url".to_string(), description: "bad".to_string() };
    let dialog = AddPostResponse::dialog("sure?", Some(vec![pair]));
    assert!(!dialog.success && dialog.allow_force && dialog.url.is_none());
    assert_eq!(dialog.error, Some("sure?".to_string()));
    assert_eq!(dialog.form_errors.len(), 1);
    assert_eq!(dialog.form_errors[0].description, "bad");
    let error = AddPostResponse::error("no", None);
    assert!(!error.success && !error.allow_force && error.url.is_none());
    assert_eq!(error.error, Some("no".to_string()));
    assert!(error.form_errors.is_empty());
}

#[test]
fn form_error_joins_the_messages_that_are_there() {
    let errors = vec![
        ValidationError { code: "a".to_string(), message: Some("too short".to_string()) },
        ValidationError { code: "b".to_string(), message: None },
        ValidationError { code: "c".to_string(), message: Some("not allowed".to_string()) },
    ];
    let pair = FormErrorPair::from_validation("name", &errors);
    assert_eq!(pair.name, "name");
    assert_eq!(pair.description, "too short, not allowed");
    let one = FormErrorPair::from_validation("url", &errors[..1].iter().map(|e| ValidationError { code: e.code.clone(), message: e.message.clone() }).collect());
    assert_eq!(one.description, "too short");
    let none = FormErrorPair::from_validation("url", &Vec::new());
    assert_eq!(none.description, "");
}

#[test]
fn logout_leads_to_the_login() {
    assert_eq!(logout().target, "/login");
    assert_eq!(API_LOCAL, "/api/v1");
}

#[test]
fn anonymous_request_is_unauthorised_and_writes_nothing() {
    let mut db = store_with_wildcard("alice");
    let info = request(Some("docs"), "https://example.org/docs", Some(true));
    let refused = serve(&config(), &mut db, &Access::Anonymous, &info, &names(&["abc"]));
    assert_eq!(refused.unwrap_err(), Status::Unauthorized);
    assert_eq!(target(&db, "docs"), None);
    let unnamed = request(None, "https://example.org/docs", None);
    let refused = serve(&config(), &mut db, &Access::Anonymous, &unnamed, &names(&["abc"]));
    assert_eq!(refused.unwrap_err(), Status::Unauthorized);
    assert_eq!(target(&db, "abc"), None);
    let served = serve(&config(), &mut db, &Access::Authenticated(user("alice")), &info, &names(&["abc"]));
    assert!(served.unwrap().success);
    assert_eq!(target(&db, "docs"), Some("https://example.org/docs".to_string()));
}

#[test]
fn candidates_are_five_random_names() {
    let drawn = random_candidates();
    assert_eq!(drawn.len(), 5);
    for name in &drawn {
        assert_eq!(name.len(), 3);
        assert!(name.chars().all(|c| c.is_ascii_alphanumeric()));
    }
    let again = random_candidates();
    assert_ne!(drawn, again);
}

#[test]
fn store_error_variants_are_told_apart() {
    assert_ne!(
        shortener::database::StorageError::UniqueViolation,
        shortener::database::StorageError::Unavailable
    );
}

#[test]
fn refused_write_becomes_a_failed_registration() {
    let e = AddResultError::from(shortener::database::StorageError::UniqueViolation);
    assert!(matches!(e, AddResultError::Error(shortener::database::StorageError::UniqueViolation)));
}

#[test]
fn whatever_is_answered_resolves() {
    let mut db = store_with_wildcard("alice");
    let cfg = config();
    let requests = [
        request(Some("a"), "https://example.org/1", None),
        request(Some("b"), "https://example.org/1", Some(true)),
        request(Some("a"), "https://example.org/2", Some(true)),
        request(None, "https://example.org/2", None),
        request(None, "https://example.org/3", None),
    ];
    for info in &requests {
        let resp = add(&cfg, &mut db, &user("alice"), info);
        assert!(resp.success);
        let link = resp.url.unwrap();
        let name = link.strip_prefix("https://s.example.org/").unwrap();
        assert_eq!(target(&db, name), Some(info.url.clone()));
    }
}
