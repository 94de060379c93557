//! The rules that a request to register a link must meet before the store is
//! touched, and the errors reported field by field when it does not.

use vstd::prelude::*;
use vstd::std_specs::iter::IteratorSpec;
use crate::text::str_eq;

verus! {

/// Whether `c` is alphanumeric in the sense of Unicode: what
/// `char::is_alphanumeric` answers.
pub uninterp spec fn spec_is_alphanumeric(c: char) -> bool;

/// Whether `url` parses as an absolute URL: what `validator::validate_url`
/// answers.
pub uninterp spec fn spec_validate_url(url: Seq<char>) -> bool;

/// Calls `char::is_alphanumeric` of std. Nothing is proved of it: the
/// contract only gives the answer its name.
#[verifier::external_body]
fn is_alphanumeric(c: char) -> (r: bool)
    ensures
        r == spec_is_alphanumeric(c),
{
    c.is_alphanumeric()
}

/// Calls `validator::validate_url`, which parses the text with the `url`
/// crate and reports whether that succeeded. Nothing is proved of it: the
/// contract only gives the answer its name.
#[verifier::external_body]
fn validate_url(url: &str) -> (r: bool)
    ensures
        r == spec_validate_url(url@),
{
    validator::validate_url(url)
}

/// Calls `validator::validate_length` with a lower bound only. That function
/// counts the characters of the text and compares the count with the bound;
/// the contract says so and is not proved.
#[verifier::external_body]
fn validate_length_min(value: &str, min: u64) -> (r: bool)
    ensures
        r == (value@.len() >= min),
{
    validator::validate_length(value, Some(min), None, None)
}

/// One broken rule: a code that names the rule and, for some rules, a message
/// for the user.
#[derive(Debug)]
pub struct ValidationError {
    pub code: String,
    pub message: Option<String>,
}

/// What a [`ValidationError`] holds, as texts.
pub ghost struct ValidationErrorModel {
    pub code: Seq<char>,
    pub message: Option<Seq<char>>,
}

impl View for ValidationError {
    type V = ValidationErrorModel;

    open spec fn view(&self) -> ValidationErrorModel {
        ValidationErrorModel {
            code: self.code@,
            message: match self.message {
                Some(m) => Some(m@),
                None => None,
            },
        }
    }
}

/// The error with `code` and no message.
pub open spec fn error_with_code(code: Seq<char>) -> ValidationErrorModel {
    ValidationErrorModel { code, message: None }
}

impl ValidationError {
    /// An error with the given code and no message.
    pub fn new(code: &str) -> (e: ValidationError)
        ensures
            e@ == error_with_code(code@),
    {
        ValidationError { code: code.to_owned(), message: None }
    }
}

/// The names that belong to the service's own routes.
pub open spec fn is_forbidden_name(name: Seq<char>) -> bool {
    name == "api"@ || name == "admin"@ || name == "js"@ || name == "css"@ || name == "login"@
        || name == "callback"@
}

/// A character that a short name may hold: alphanumeric, `-` or `_`.
pub open spec fn is_name_char(c: char) -> bool {
    spec_is_alphanumeric(c) || c == '-' || c == '_'
}

/// Every character of `name` may stand in a short name.
pub open spec fn has_name_chars(name: Seq<char>) -> bool {
    forall|i: int| 0 <= i < name.len() ==> is_name_char(#[trigger] name[i])
}

/// What the rule on the characters of a short name says of `name`: the code of
/// the rule it breaks, if any. A reserved name is reported before a bad
/// character.
pub open spec fn name_rule(name: Seq<char>) -> Option<Seq<char>> {
    if is_forbidden_name(name) {
        Some("Forbidden name"@)
    } else if !has_name_chars(name) {
        Some("Invalid characters in name!"@)
    } else {
        None
    }
}

/// Whether `c` may stand in a short name, given whether it is alphanumeric.
pub fn name_char_allowed(c: char, alphanumeric: bool) -> (allowed: bool)
    ensures
        allowed == (alphanumeric || c == '-' || c == '_'),
{
    alphanumeric || c == '-' || c == '_'
}

/// Checks that `name` is none of the reserved names and holds only
/// alphanumerics, `-` and `_`.
pub fn validate_url_name(name: &str) -> (r: Result<(), ValidationError>)
    ensures
        match r {
            Ok(_) => name_rule(name@) is None,
            Err(e) => name_rule(name@) == Some(e@.code) && e@.message is None,
        },
{
    if str_eq(name, "api") || str_eq(name, "admin") || str_eq(name, "js") || str_eq(name, "css")
        || str_eq(name, "login") || str_eq(name, "callback") {
        return Err(ValidationError::new("Forbidden name"));
    }
    let mut rest = name.chars();
    let ghost mut seen: int = 0;
    loop
        invariant
            0 <= seen <= name@.len(),
            IteratorSpec::remaining(&rest) == name@.skip(seen),
            IteratorSpec::obeys_prophetic_iter_laws(&rest),
            IteratorSpec::decrease(&rest) is Some,
            !is_forbidden_name(name@),
            forall|j: int| 0 <= j < seen ==> is_name_char(#[trigger] name@[j]),
        decreases name@.len() - seen,
    {
        match rest.next() {
            Some(c) => {
                assert(c == name@[seen]);
                if !name_char_allowed(c, is_alphanumeric(c)) {
                    assert(!is_name_char(name@[seen]));
                    return Err(ValidationError::new("Invalid characters in name!"));
                }
                proof {
                    assert(name@.skip(seen).drop_first() =~= name@.skip(seen + 1));
                    seen = seen + 1;
                }
            },
            None => {
                return Ok(());
            },
        }
    }
}

/// What is asked for when a link is registered.
#[derive(Debug)]
pub struct AddData {
    /// The short name wanted; without one a random name is made.
    pub name: Option<String>,
    /// The address the name shall lead to.
    pub url: String,
    /// Whether an existing record may be overwritten.
    pub force: Option<bool>,
}

/// What an [`AddData`] holds, as texts.
pub ghost struct AddDataModel {
    pub name: Option<Seq<char>>,
    pub url: Seq<char>,
    pub force: Option<bool>,
}

impl View for AddData {
    type V = AddDataModel;

    open spec fn view(&self) -> AddDataModel {
        AddDataModel {
            name: match self.name {
                Some(n) => Some(n@),
                None => None,
            },
            url: self.url@,
            force: self.force,
        }
    }
}

/// The broken rules of one field of a request.
#[derive(Debug)]
pub struct FieldErrors {
    pub field: String,
    pub errors: Vec<ValidationError>,
}

/// What a [`FieldErrors`] holds, as texts.
pub ghost struct FieldErrorsModel {
    pub field: Seq<char>,
    pub errors: Seq<ValidationErrorModel>,
}

/// The errors in `list`, as texts.
pub open spec fn error_models(list: Seq<ValidationError>) -> Seq<ValidationErrorModel> {
    list.map_values(|e: ValidationError| e@)
}

impl View for FieldErrors {
    type V = FieldErrorsModel;

    open spec fn view(&self) -> FieldErrorsModel {
        FieldErrorsModel { field: self.field@, errors: error_models(self.errors@) }
    }
}

/// The fields in `list`, as texts.
pub open spec fn field_models(list: Seq<FieldErrors>) -> Seq<FieldErrorsModel> {
    list.map_values(|f: FieldErrors| f@)
}

/// What the two rules on a wanted name found: whether it is long enough,
/// and the error of the rule on its characters, if it breaks it.
pub ghost struct NameChecks {
    pub long_enough: bool,
    pub rule: Option<ValidationErrorModel>,
}

/// The view of what the rule on the characters of a name found.
pub open spec fn rule_of(found: Result<(), ValidationError>) -> Option<ValidationErrorModel> {
    match found {
        Ok(_) => None,
        Err(e) => Some(e@),
    }
}

/// The errors of a name, given what the two rules found: the length first.
pub open spec fn name_errors(checks: NameChecks) -> Seq<ValidationErrorModel> {
    let length = if checks.long_enough {
        Seq::<ValidationErrorModel>::empty()
    } else {
        seq![error_with_code("length"@)]
    };
    match checks.rule {
        Some(e) => length.push(e),
        None => length,
    }
}

/// The fields that break a rule, each with the rules it breaks, given what
/// the rules found: `name` before `url`. A request without a name has no rule
/// to break on it.
pub open spec fn reported(name: Option<NameChecks>, url_valid: bool) -> Seq<FieldErrorsModel> {
    let on_name = match name {
        Some(checks) => if name_errors(checks).len() > 0 {
            seq![FieldErrorsModel { field: "name"@, errors: name_errors(checks) }]
        } else {
            Seq::<FieldErrorsModel>::empty()
        },
        None => Seq::<FieldErrorsModel>::empty(),
    };
    if url_valid {
        on_name
    } else {
        on_name.push(
            FieldErrorsModel { field: "url"@, errors: seq![error_with_code("url"@)] },
        )
    }
}

/// What the rules find of a wanted name: it must not be empty, and it must
/// pass the rule on its characters.
pub open spec fn name_checks(name: Seq<char>) -> NameChecks {
    NameChecks {
        long_enough: name.len() >= 1,
        rule: match name_rule(name) {
            Some(code) => Some(error_with_code(code)),
            None => None,
        },
    }
}

/// The fields of a request that break a rule: a name, where one is given,
/// must not be empty, not reserved and made of name characters; the address
/// must be an absolute URL.
pub open spec fn field_errors(info: AddDataModel) -> Seq<FieldErrorsModel> {
    reported(
        match info.name {
            Some(n) => Some(name_checks(n)),
            None => None,
        },
        spec_validate_url(info.url),
    )
}

/// The view of what the rules found of a name that may be missing.
pub open spec fn checks_of(name: Option<(bool, Result<(), ValidationError>)>) -> Option<
    NameChecks,
> {
    match name {
        Some((long_enough, found)) => Some(NameChecks { long_enough, rule: rule_of(found) }),
        None => None,
    }
}

/// Gathers what the rules found into the report of a request: nothing where
/// no rule is broken, else the broken rules field by field. `name` holds,
/// where the request has a name, whether it is long enough and what the rule
/// on its characters found; `url_valid` says whether the address is a URL.
pub fn report(name: Option<(bool, Result<(), ValidationError>)>, url_valid: bool) -> (r: Result<
    (),
    Vec<FieldErrors>,
>)
    ensures
        r is Ok <==> reported(checks_of(name), url_valid).len() == 0,
        r is Ok <==> url_valid && (name is None || name_errors(checks_of(name)->0).len() == 0),
        r is Err ==> field_models(r->Err_0@) == reported(checks_of(name), url_valid)
            && r->Err_0@.len() == reported(checks_of(name), url_valid).len(),
{
    let mut list: Vec<FieldErrors> = Vec::new();
    assert(field_models(list@) =~= Seq::empty());
    match name {
        Some((long_enough, found)) => {
            let mut errors: Vec<ValidationError> = Vec::new();
            assert(error_models(errors@) =~= Seq::empty());
            if !long_enough {
                let e = ValidationError::new("length");
                errors.push(e);
                assert(error_models(errors@) =~= seq![error_with_code("length"@)]);
            }
            let ghost length = error_models(errors@);
            match found {
                Ok(_) => {},
                Err(e) => {
                    errors.push(e);
                    assert(error_models(errors@) =~= length.push(e@));
                },
            }
            assert(error_models(errors@) =~= name_errors(checks_of(name)->0));
            if errors.len() > 0 {
                let f = FieldErrors { field: "name".to_owned(), errors };
                list.push(f);
                assert(field_models(list@) =~= seq![f@]);
            }
        },
        None => {},
    }
    let ghost on_name = field_models(list@);
    if !url_valid {
        let mut errors: Vec<ValidationError> = Vec::new();
        let e = ValidationError::new("url");
        errors.push(e);
        assert(error_models(errors@) =~= seq![error_with_code("url"@)]);
        let f = FieldErrors { field: "url".to_owned(), errors };
        list.push(f);
        assert(field_models(list@) =~= on_name.push(f@));
    }
    if list.len() > 0 {
        Err(list)
    } else {
        Ok(())
    }
}

impl AddData {
    /// Holds the request to its rules: a name, where one is given, is not
    /// empty, not reserved and made of name characters; the address is an
    /// absolute URL. Reports every field that breaks one.
    pub fn validate(&self) -> (r: Result<(), Vec<FieldErrors>>)
        ensures
            r is Ok <==> field_errors(self@).len() == 0,
            r is Err ==> field_models(r->Err_0@) == field_errors(self@) && r->Err_0@.len()
                == field_errors(self@).len(),
    {
        let name = match &self.name {
            Some(name) => Some(
                (validate_length_min(name.as_str(), 1), validate_url_name(name.as_str())),
            ),
            None => None,
        };
        report(name, validate_url(self.url.as_str()))
    }
}

} // verus!
