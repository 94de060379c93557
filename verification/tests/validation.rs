use shortener::validation::{
    name_char_allowed, report, validate_url_name, AddData, ValidationError,
};

fn request(name: Option<&str>, url: &str) -> AddData {
    AddData { name: name.map(|n| n.to_string()), url: url.to_string(), force: None }
}

fn codes(errors: &[ValidationError]) -> Vec<String> {
    errors.iter().map(|e| e.code.clone()).collect()
}

#[test]
fn plain_names_pass() {
    for name in ["docs", "blog-x", "a_b", "A1", "Zürich", "x", "apis", "Admin"] {
        assert!(validate_url_name(name).is_ok());
    }
}

#[test]
fn empty_name_passes_the_character_rule() {
    assert!(validate_url_name("").is_ok());
}

#[test]
fn reserved_names_are_forbidden() {
    for name in ["api", "admin", "js", "css", "login", "callback"] {
        let e = validate_url_name(name).unwrap_err();
        assert_eq!(e.code, "Forbidden name");
        assert_eq!(e.message, None);
    }
}

#[test]
fn other_characters_are_invalid() {
    for name in ["a/b", "a b", "a.b", "a?b", "../x", "a\\b", "a#", "é!"] {
        let e = validate_url_name(name).unwrap_err();
        assert_eq!(e.code, "Invalid characters in name!");
        assert_eq!(e.message, None);
    }
}

#[test]
fn valid_requests_pass() {
    assert!(request(None, "https://example.org/").validate().is_ok());
    assert!(request(Some("docs"), "http://localhost:80").validate().is_ok());
    assert!(request(Some("a-b_c"), "ftp://localhost:80").validate().is_ok());
}

#[test]
fn relative_or_malformed_urls_fail() {
    for url in ["http", "", "example.org/path", "/just/a/path", "not a url"] {
        let fields = request(None, url).validate().unwrap_err();
        assert_eq!(fields.len(), 1);
        assert_eq!(fields[0].field, "url");
        assert_eq!(codes(&fields[0].errors), vec!["url".to_string()]);
    }
}

#[test]
fn empty_name_breaks_the_length_rule() {
    let fields = request(Some(""), "https://example.org/").validate().unwrap_err();
    assert_eq!(fields.len(), 1);
    assert_eq!(fields[0].field, "name");
    assert_eq!(codes(&fields[0].errors), vec!["length".to_string()]);
}

#[test]
fn bad_name_and_bad_url_are_both_reported() {
    let fields = request(Some("a/b"), "nope").validate().unwrap_err();
    assert_eq!(fields.len(), 2);
    assert_eq!(fields[0].field, "name");
    assert_eq!(codes(&fields[0].errors), vec!["Invalid characters in name!".to_string()]);
    assert_eq!(fields[1].field, "url");
    let reserved = request(Some("login"), "https://example.org/").validate().unwrap_err();
    assert_eq!(reserved.len(), 1);
    assert_eq!(codes(&reserved[0].errors), vec!["Forbidden name".to_string()]);
}

#[test]
fn error_without_message() {
    let e = ValidationError::new("length");
    assert_eq!(e.code, "length");
    assert_eq!(e.message, None);
}

#[test]
fn name_characters() {
    assert!(name_char_allowed('a', true));
    assert!(name_char_allowed('-', false));
    assert!(name_char_allowed('_', false));
    assert!(!name_char_allowed('/', false));
    assert!(!name_char_allowed(' ', false));
    assert!(!name_char_allowed('.', false));
}

#[test]
fn report_gathers_what_the_rules_found() {
    assert!(report(None, true).is_ok());
    assert!(report(Some((true, Ok(()))), true).is_ok());
    let url_only = report(Some((true, Ok(()))), false).unwrap_err();
    assert_eq!(url_only.len(), 1);
    assert_eq!(url_only[0].field, "url");
    assert_eq!(codes(&url_only[0].errors), vec!["url".to_string()]);
    let both = report(Some((false, Err(ValidationError::new("Forbidden name")))), false).unwrap_err();
    assert_eq!(both.len(), 2);
    assert_eq!(both[0].field, "name");
    assert_eq!(codes(&both[0].errors), vec!["length".to_string(), "Forbidden name".to_string()]);
    assert_eq!(both[1].field, "url");
    let with_message = ValidationError { code: "c".to_string(), message: Some("m".to_string()) };
    let kept = report(Some((true, Err(with_message))), true).unwrap_err();
    assert_eq!(kept[0].errors[0].message, Some("m".to_string()));
}
