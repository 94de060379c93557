//! Registering links: what a request is answered with, and the procedure that
//! decides whether a name is created, overwritten or refused.

use vstd::prelude::*;
use vstd::string::StringExecFns;
use crate::auth::{Access, User};
use crate::config::AppConfig;
use crate::database::{find_first, lemma_find_first, lemma_find_first_at,
    lemma_found_by_url_is_found_by_name, Db, DbModel, PrefixLink, StorageError, Url};
use crate::http::{Redirect, Status};
use crate::routes::LOGIN_PATH;
use crate::validation::{AddData, AddDataModel, FieldErrors, FieldErrorsModel, ValidationError,
    ValidationErrorModel, error_models, field_errors, field_models};

verus! {

/// Where the endpoints of this module are mounted.
pub const API_LOCAL: &'static str = "/api/v1";

/// The messages that `errors` carry, in their order.
pub open spec fn present_messages(errors: Seq<ValidationErrorModel>) -> Seq<Seq<char>>
    decreases errors.len(),
{
    if errors.len() == 0 {
        Seq::empty()
    } else {
        match errors.last().message {
            Some(m) => present_messages(errors.drop_last()).push(m),
            None => present_messages(errors.drop_last()),
        }
    }
}

/// The texts of `parts` one after another, with `sep` between each two.
pub open spec fn join(parts: Seq<Seq<char>>, sep: Seq<char>) -> Seq<char>
    decreases parts.len(),
{
    if parts.len() == 0 {
        Seq::empty()
    } else if parts.len() == 1 {
        parts[0]
    } else {
        join(parts.drop_last(), sep) + sep + parts.last()
    }
}

/// What is shown for a field with `errors`: their messages, separated by a
/// comma and a space.
pub open spec fn describe(errors: Seq<ValidationErrorModel>) -> Seq<char> {
    join(present_messages(errors), ", "@)
}

/// A field of the request that was refused, with what to tell the user.
#[derive(Debug)]
pub struct FormErrorPair {
    pub name: String,
    pub description: String,
}

/// What a [`FormErrorPair`] holds, as texts.
pub ghost struct FormErrorModel {
    pub name: Seq<char>,
    pub description: Seq<char>,
}

impl View for FormErrorPair {
    type V = FormErrorModel;

    open spec fn view(&self) -> FormErrorModel {
        FormErrorModel { name: self.name@, description: self.description@ }
    }
}

/// The pairs in `list`, as texts.
pub open spec fn pair_models(list: Seq<FormErrorPair>) -> Seq<FormErrorModel> {
    list.map_values(|p: FormErrorPair| p@)
}

/// The pair that reports the field `f`.
pub open spec fn pair_of(f: FieldErrorsModel) -> FormErrorModel {
    FormErrorModel { name: f.field, description: describe(f.errors) }
}

/// One pair for each refused field, in the order of the fields.
pub open spec fn form_pairs(fields: Seq<FieldErrorsModel>) -> Seq<FormErrorModel> {
    fields.map_values(|f: FieldErrorsModel| pair_of(f))
}

impl FormErrorPair {
    /// The pair for the field `name`: its description holds the messages of
    /// `errors`, joined by a comma and a space.
    pub fn from_validation(name: &str, errors: &Vec<ValidationError>) -> (pair: FormErrorPair)
        ensures
            pair@.name == name@,
            pair@.description == describe(error_models(errors@)),
    {
        let mut description = String::new();
        let mut any = false;
        let mut i: usize = 0;
        let ghost all = error_models(errors@);
        assert(all.take(0) =~= Seq::empty());
        while i < errors.len()
            invariant
                i <= errors@.len(),
                all == error_models(errors@),
                description@ == describe(all.take(i as int)),
                any == (present_messages(all.take(i as int)).len() > 0),
            decreases errors@.len() - i,
        {
            proof {
                let next = all.take(i + 1);
                assert(next.drop_last() =~= all.take(i as int));
                assert(next.last() == errors@[i as int]@);
                let before = present_messages(all.take(i as int));
                match errors@[i as int]@.message {
                    Some(m) => {
                        assert(before.push(m).drop_last() =~= before);
                        assert(before.len() == 0 ==> Seq::<char>::empty() + m =~= m);
                    },
                    None => {},
                }
            }
            match &errors[i].message {
                Some(m) => {
                    if any {
                        description.append(", ");
                    }
                    description.append(m.as_str());
                    any = true;
                },
                None => {},
            }
            i += 1;
        }
        assert(all.take(i as int) =~= all);
        FormErrorPair { name: name.to_owned(), description }
    }

    /// One pair for each refused field.
    pub fn from_fields(fields: &Vec<FieldErrors>) -> (pairs: Vec<FormErrorPair>)
        ensures
            pair_models(pairs@) == form_pairs(field_models(fields@)),
    {
        let mut pairs: Vec<FormErrorPair> = Vec::new();
        let mut i: usize = 0;
        while i < fields.len()
            invariant
                i <= fields@.len(),
                pairs@.len() == i,
                forall|j: int| 0 <= j < i ==> (#[trigger] pairs@[j])@ == pair_of(fields@[j]@),
            decreases fields@.len() - i,
        {
            let f = &fields[i];
            pairs.push(FormErrorPair::from_validation(f.field.as_str(), &f.errors));
            i += 1;
        }
        assert(pair_models(pairs@) =~= form_pairs(field_models(fields@)));
        pairs
    }
}

/// The view of a text that may be missing.
pub open spec fn text_of(s: Option<String>) -> Option<Seq<char>> {
    match s {
        Some(t) => Some(t@),
        None => None,
    }
}

/// The answer to a request to register a link.
#[derive(Debug)]
pub struct AddPostResponse {
    pub success: bool,
    pub form_errors: Vec<FormErrorPair>,
    pub error: Option<String>,
    pub url: Option<String>,
    /// Whether the same request would pass if it were sent again with
    /// `force`.
    pub allow_force: bool,
}

/// What an [`AddPostResponse`] holds, as texts.
pub ghost struct ResponseModel {
    pub success: bool,
    pub form_errors: Seq<FormErrorModel>,
    pub error: Option<Seq<char>>,
    pub url: Option<Seq<char>>,
    pub allow_force: bool,
}

impl View for AddPostResponse {
    type V = ResponseModel;

    open spec fn view(&self) -> ResponseModel {
        ResponseModel {
            success: self.success,
            form_errors: pair_models(self.form_errors@),
            error: text_of(self.error),
            url: text_of(self.url),
            allow_force: self.allow_force,
        }
    }
}

impl ResponseModel {
    /// The answer that carries the short link.
    pub open spec fn ok(url: Seq<char>) -> ResponseModel {
        ResponseModel {
            success: true,
            form_errors: Seq::empty(),
            error: None,
            url: Some(url),
            allow_force: false,
        }
    }

    /// The answer that asks the user to confirm: sent again with `force`, the
    /// request would pass.
    pub open spec fn dialog(message: Seq<char>, form_errors: Seq<FormErrorModel>) -> ResponseModel {
        ResponseModel {
            success: false,
            form_errors,
            error: Some(message),
            url: None,
            allow_force: true,
        }
    }

    /// The answer that refuses.
    pub open spec fn error(message: Seq<char>, form_errors: Seq<FormErrorModel>) -> ResponseModel {
        ResponseModel {
            success: false,
            form_errors,
            error: Some(message),
            url: None,
            allow_force: false,
        }
    }
}

/// The pairs of a list that may be missing: none where it is.
pub open spec fn pairs_or_none(form_errors: Option<Vec<FormErrorPair>>) -> Seq<FormErrorModel> {
    match form_errors {
        Some(list) => pair_models(list@),
        None => Seq::empty(),
    }
}

impl AddPostResponse {
    /// The answer that carries the short link `url`.
    pub fn ok(url: String) -> (resp: AddPostResponse)
        ensures
            resp@ == ResponseModel::ok(url@),
    {
        let resp = AddPostResponse {
            success: true,
            form_errors: Vec::new(),
            error: None,
            url: Some(url),
            allow_force: false,
        };
        assert(pair_models(resp.form_errors@) =~= Seq::empty());
        resp
    }

    /// The answer that asks the user to confirm with `message`.
    pub fn dialog(message: &str, form_errors: Option<Vec<FormErrorPair>>) -> (resp:
        AddPostResponse)
        ensures
            resp@ == ResponseModel::dialog(message@, pairs_or_none(form_errors)),
    {
        let list = match form_errors {
            Some(list) => list,
            None => {
                let empty: Vec<FormErrorPair> = Vec::new();
                assert(pair_models(empty@) =~= Seq::empty());
                empty
            },
        };
        AddPostResponse {
            success: false,
            form_errors: list,
            error: Some(message.to_owned()),
            url: None,
            allow_force: true,
        }
    }

    /// The answer that refuses with `message`.
    pub fn error(message: &str, form_errors: Option<Vec<FormErrorPair>>) -> (resp:
        AddPostResponse)
        ensures
            resp@ == ResponseModel::error(message@, pairs_or_none(form_errors)),
    {
        let list = match form_errors {
            Some(list) => list,
            None => {
                let empty: Vec<FormErrorPair> = Vec::new();
                assert(pair_models(empty@) =~= Seq::empty());
                empty
            },
        };
        AddPostResponse {
            success: false,
            form_errors: list,
            error: Some(message.to_owned()),
            url: None,
            allow_force: false,
        }
    }
}

/// Why a link was not registered.
#[derive(Debug)]
pub enum AddResultError {
    /// The store refused the write.
    Error(StorageError),
    /// No unused random name was found in the attempts allowed.
    FailedGen,
    /// The name is registered already.
    NameExists,
    /// The address is registered already, under the name given here.
    UrlExists(String),
    /// None of the user's grants covers the name.
    UnauthorisedLink,
}

/// What an [`AddResultError`] holds, as texts.
pub ghost enum AddFailure {
    Error(StorageError),
    FailedGen,
    NameExists,
    UrlExists(Seq<char>),
    UnauthorisedLink,
}

impl View for AddResultError {
    type V = AddFailure;

    open spec fn view(&self) -> AddFailure {
        match self {
            AddResultError::Error(e) => AddFailure::Error(*e),
            AddResultError::FailedGen => AddFailure::FailedGen,
            AddResultError::NameExists => AddFailure::NameExists,
            AddResultError::UrlExists(n) => AddFailure::UrlExists(n@),
            AddResultError::UnauthorisedLink => AddFailure::UnauthorisedLink,
        }
    }
}

impl From<StorageError> for AddResultError {
    /// A write that the store refused, as a failed registration.
    fn from(value: StorageError) -> (e: AddResultError) {
        AddResultError::Error(value)
    }
}

impl vstd::std_specs::convert::FromSpecImpl<StorageError> for AddResultError {
    open spec fn obeys_from_spec() -> bool {
        true
    }

    open spec fn from_spec(value: StorageError) -> AddResultError {
        AddResultError::Error(value)
    }
}

/// The view of the outcome of a registration.
pub open spec fn outcome_of(r: Result<String, AddResultError>) -> Result<Seq<char>, AddFailure> {
    match r {
        Ok(name) => Ok(name@),
        Err(e) => Err(e@),
    }
}

/// The view of a decision between overwriting and creating.
pub open spec fn decision_of(r: Result<bool, AddResultError>) -> Result<bool, AddFailure> {
    match r {
        Ok(b) => Ok(b),
        Err(e) => Err(e@),
    }
}

/// The texts in `list`.
pub open spec fn texts(list: Seq<String>) -> Seq<Seq<char>> {
    list.map_values(|s: String| s@)
}

/// How often a random name is drawn before giving up.
pub const MAX_ATTEMPTS: usize = 5;

/// How long a random name is.
pub const RANDOM_NAME_LEN: usize = 3;

/// An ASCII letter or digit.
pub open spec fn is_ascii_alphanumeric(c: char) -> bool {
    ('a' <= c && c <= 'z') || ('A' <= c && c <= 'Z') || ('0' <= c && c <= '9')
}

/// The shape of a random name: three ASCII letters or digits.
pub open spec fn is_random_name(name: Seq<char>) -> bool {
    name.len() == RANDOM_NAME_LEN && is_alphanumeric_text(name)
}

/// The first of `candidates` that is not registered in `db`.
pub open spec fn first_free(db: DbModel, candidates: Seq<Seq<char>>) -> Option<Seq<char>> {
    find_first(candidates, |n: Seq<char>| !db.contains_name(n))
}

/// `candidates` can be what one search for a random name draws: five names
/// of the random shape.
pub open spec fn is_draw_run(candidates: Seq<Seq<char>>) -> bool {
    &&& candidates.len() == MAX_ATTEMPTS
    &&& forall|i: int| 0 <= i < candidates.len() ==> is_random_name(#[trigger] candidates[i])
}

/// The name that a search ends with, given what it drew.
pub open spec fn generated(db: DbModel, candidates: Seq<Seq<char>>) -> Result<
    Seq<char>,
    AddFailure,
> {
    match first_free(db, candidates) {
        Some(n) => Ok(n),
        None => Err(AddFailure::FailedGen),
    }
}

/// A text of ASCII letters and digits.
pub open spec fn is_alphanumeric_text(text: Seq<char>) -> bool {
    forall|i: int| 0 <= i < text.len() ==> is_ascii_alphanumeric(#[trigger] text[i])
}

/// Calls `DistString::sample_string` of the `rand` crate on its
/// `Alphanumeric` distribution, with the thread's generator. It returns a
/// text of `len` samples, each an ASCII letter or digit. The contract states
/// the length and the alphabet and is not proved.
#[verifier::external_body]
fn random_text(len: usize) -> (text: String)
    ensures
        text@.len() == len,
        is_alphanumeric_text(text@),
{
    rand::distributions::DistString::sample_string(
        &rand::distributions::Alphanumeric,
        &mut rand::thread_rng(),
        len,
    )
}

/// Draws the names for one search: five random names.
pub fn random_candidates() -> (drawn: Vec<String>)
    ensures
        is_draw_run(texts(drawn@)),
{
    let mut drawn: Vec<String> = Vec::new();
    let mut i: usize = 0;
    while i < MAX_ATTEMPTS
        invariant
            i <= MAX_ATTEMPTS,
            drawn@.len() == i,
            forall|j: int| 0 <= j < i ==> is_random_name(#[trigger] texts(drawn@)[j]),
        decreases MAX_ATTEMPTS - i,
    {
        let name = random_text(RANDOM_NAME_LEN);
        let ghost before = texts(drawn@);
        drawn.push(name);
        assert(texts(drawn@) =~= before.push(name@));
        i += 1;
    }
    drawn
}

/// The first of `candidates` that is not registered yet.
pub fn first_free_name(db: &Db, candidates: &Vec<String>) -> (r: Result<String, AddResultError>)
    ensures
        outcome_of(r) == generated(db@, texts(candidates@)),
{
    let ghost free = |n: Seq<char>| !db@.contains_name(n);
    let mut i: usize = 0;
    while i < candidates.len()
        invariant
            i <= candidates@.len(),
            free == (|n: Seq<char>| !db@.contains_name(n)),
            forall|j: int| 0 <= j < i ==> !free(#[trigger] texts(candidates@)[j]),
        decreases candidates@.len() - i,
    {
        if !Url::name_exists(db, candidates[i].as_str()) {
            proof {
                lemma_find_first_at(texts(candidates@), free, i as int);
            }
            return Ok(candidates[i].clone());
        }
        i += 1;
    }
    proof {
        lemma_find_first(texts(candidates@), free);
    }
    Err(AddResultError::FailedGen)
}

/// Makes a random name of three letters or digits that is not registered
/// yet: the first free one of five that are drawn. Gives up where all five
/// are taken.
pub fn gen_random_name(db: &Db) -> (r: Result<String, AddResultError>)
    ensures
        exists|drawn: Seq<Seq<char>>|
            is_draw_run(drawn) && outcome_of(r) == #[trigger] generated(db@, drawn),
{
    let drawn = random_candidates();
    first_free_name(db, &drawn)
}

/// Whether registering `url` under `name` overwrites (`true`) or creates
/// (`false`), and the refusals without `force`: a taken name first, then an
/// address that has a name already.
pub open spec fn update_decision(db: DbModel, name: Seq<char>, url: Seq<char>, force: bool)
    -> Result<bool, AddFailure> {
    if force {
        Ok(db.contains_name(name) || db.from_url(url) is Some)
    } else if db.contains_name(name) {
        Err(AddFailure::NameExists)
    } else {
        match db.from_url(url) {
            Some(other) => Err(AddFailure::UrlExists(other.name)),
            None => Ok(false),
        }
    }
}

/// Decides whether the record of `name` is to be overwritten or created. With
/// `force` it is overwritten as soon as the name or the address is known;
/// without, a known name or address is refused.
pub fn should_update(db: &Db, name: &str, url: &str, force: bool) -> (r: Result<
    bool,
    AddResultError,
>)
    ensures
        decision_of(r) == update_decision(db@, name@, url@, force),
{
    let other_link = Url::from_url(db, url);
    let name_exists = Url::name_exists(db, name);
    if force {
        Ok(name_exists || other_link.is_some())
    } else if name_exists {
        Err(AddResultError::NameExists)
    } else {
        match other_link {
            Some(link) => Err(AddResultError::UrlExists(link.name)),
            None => Ok(false),
        }
    }
}

/// Whether a request asks to overwrite.
pub open spec fn forced(info: AddDataModel) -> bool {
    match info.force {
        Some(f) => f,
        None => false,
    }
}

/// What a valid request does to the store and what it returns, given the
/// names `drawn` for the case that one has to be made. With a name: the user
/// must hold a grant for it; then the record is overwritten or created as
/// `update_decision` says. Without a name: the name that already leads to the
/// address is handed back, else the first free name of `drawn` is registered.
/// A request that fails leaves the store as it was.
pub open spec fn registration(db: DbModel, user_id: Seq<char>, info: AddDataModel, drawn: Seq<
    Seq<char>,
>) -> (DbModel, Result<Seq<char>, AddFailure>) {
    match info.name {
        Some(name) => if !db.can_link(user_id, name) {
            (db, Err(AddFailure::UnauthorisedLink))
        } else {
            match update_decision(db, name, info.url, forced(info)) {
                Ok(true) => (db.upsert(name, info.url), Ok(name)),
                Ok(false) => (db.insert(name, info.url), Ok(name)),
                Err(e) => (db, Err(e)),
            }
        },
        None => match db.from_url(info.url) {
            Some(link) => (db, Ok(link.name)),
            None => match generated(db, drawn) {
                Ok(name) => (db.insert(name, info.url), Ok(name)),
                Err(e) => (db, Err(e)),
            },
        },
    }
}

/// A registration that succeeds makes its name lead to the address of the
/// request; one that fails leaves the store as it was.
pub proof fn lemma_registration_resolves(
    db: DbModel,
    user_id: Seq<char>,
    info: AddDataModel,
    drawn: Seq<Seq<char>>,
)
    requires
        db.wf(),
    ensures
        match registration(db, user_id, info, drawn).1 {
            Ok(name) => registration(db, user_id, info, drawn).0.target(name) == Some(info.url),
            Err(_) => registration(db, user_id, info, drawn).0 == db,
        },
{
    match info.name {
        Some(name) => {
            db.lemma_insert(name, info.url, name);
            db.lemma_upsert(name, info.url, name);
        },
        None => {
            lemma_found_by_url_is_found_by_name(db.urls, info.url);
            if db.from_url(info.url) is None && first_free(db, drawn) is Some {
                let name = first_free(db, drawn)->0;
                lemma_find_first(drawn, |n: Seq<char>| !db.contains_name(n));
                db.lemma_insert(name, info.url, name);
            }
        },
    }
}

/// Writes the record and returns its name.
fn store(db: &mut Db, name: String, url: &str, overwrite: bool) -> (r: Result<
    String,
    AddResultError,
>)
    requires
        old(db).wf(),
        overwrite || !old(db)@.contains_name(name@),
    ensures
        final(db).wf(),
        outcome_of(r) == Ok::<Seq<char>, AddFailure>(name@),
        overwrite ==> final(db)@ == old(db)@.upsert(name@, url@),
        !overwrite ==> final(db)@ == old(db)@.insert(name@, url@),
{
    if overwrite {
        db.upsert(name.as_str(), url);
        Ok(name)
    } else {
        match db.insert(name.as_str(), url) {
            Ok(_) => Ok(name),
            Err(e) => Err(AddResultError::from(e)),
        }
    }
}

/// Registers what a valid request asks for, taking a random name, where one
/// is needed, from `candidates`. All of it happens or nothing.
pub fn register_with(db: &mut Db, user: &User, info: &AddData, candidates: &Vec<String>) -> (r:
    Result<String, AddResultError>)
    requires
        old(db).wf(),
    ensures
        final(db).wf(),
        (final(db)@, outcome_of(r)) == registration(
            old(db)@,
            user.id@,
            info@,
            texts(candidates@),
        ),
        r is Ok ==> final(db)@.target(r->Ok_0@) == Some(info.url@),
        r is Err ==> final(db)@ == old(db)@,
{
    proof {
        lemma_registration_resolves(old(db)@, user.id@, info@, texts(candidates@));
    }
    match &info.name {
        Some(name) => {
            if !PrefixLink::user_can_link(db, user.id.as_str(), name.as_str()) {
                return Err(AddResultError::UnauthorisedLink);
            }
            let force = match info.force {
                Some(f) => f,
                None => false,
            };
            match should_update(db, name.as_str(), info.url.as_str(), force) {
                Ok(update) => store(db, name.clone(), info.url.as_str(), update),
                Err(e) => Err(e),
            }
        },
        None => {
            match Url::from_url(db, info.url.as_str()) {
                Some(link) => Ok(link.name),
                None => match first_free_name(db, candidates) {
                    Ok(name) => {
                        proof {
                            lemma_find_first(
                                texts(candidates@),
                                |n: Seq<char>| !db@.contains_name(n),
                            );
                        }
                        store(db, name, info.url.as_str(), false)
                    },
                    Err(e) => Err(e),
                },
            }
        },
    }
}

/// The answer to a registration that ended with `outcome`: the short link
/// under `hostname`, a question to confirm where `force` would help, a
/// refusal otherwise.
pub open spec fn answer(hostname: Seq<char>, outcome: Result<Seq<char>, AddFailure>)
    -> ResponseModel {
    match outcome {
        Ok(name) => ResponseModel::ok(hostname + name),
        Err(AddFailure::UnauthorisedLink) => ResponseModel::error(
            "You do not have permission to create this link"@,
            Seq::empty(),
        ),
        Err(AddFailure::NameExists) => ResponseModel::dialog(
            "The name already exists. Would you like to override?"@,
            Seq::empty(),
        ),
        Err(AddFailure::UrlExists(name)) => ResponseModel::dialog(
            "This already has a link with name '"@ + name
                + "'. Are you sure you want to create a new link?"@,
            Seq::empty(),
        ),
        Err(AddFailure::Error(_)) => ResponseModel::error(
            "Could not create the link"@,
            Seq::empty(),
        ),
        Err(AddFailure::FailedGen) => ResponseModel::error(
            "Could not create the link"@,
            Seq::empty(),
        ),
    }
}

/// Turns the outcome of a registration into the answer for the client.
pub fn respond(hostname: &str, outcome: Result<String, AddResultError>) -> (resp: AddPostResponse)
    ensures
        resp@ == answer(hostname@, outcome_of(outcome)),
{
    match outcome {
        Ok(name) => AddPostResponse::ok(String::from_str(hostname).concat(name.as_str())),
        Err(AddResultError::UnauthorisedLink) => AddPostResponse::error(
            "You do not have permission to create this link",
            None,
        ),
        Err(AddResultError::NameExists) => AddPostResponse::dialog(
            "The name already exists. Would you like to override?",
            None,
        ),
        Err(AddResultError::UrlExists(name)) => {
            let message = String::from_str("This already has a link with name '").concat(
                name.as_str(),
            ).concat("'. Are you sure you want to create a new link?");
            AddPostResponse::dialog(message.as_str(), None)
        },
        Err(AddResultError::Error(_)) => AddPostResponse::error("Could not create the link", None),
        Err(AddResultError::FailedGen) => AddPostResponse::error(
            "Could not create the link",
            None,
        ),
    }
}

/// What a request does to the store and what it is answered, given the names
/// `drawn` for the case that one has to be made. A request that breaks a
/// rule is refused field by field and never reaches the store.
pub open spec fn add_result(
    hostname: Seq<char>,
    db: DbModel,
    user_id: Seq<char>,
    info: AddDataModel,
    drawn: Seq<Seq<char>>,
) -> (DbModel, ResponseModel) {
    if field_errors(info).len() > 0 {
        (db, ResponseModel::error("Invalid request"@, form_pairs(field_errors(info))))
    } else {
        let (after, outcome) = registration(db, user_id, info, drawn);
        (after, answer(hostname, outcome))
    }
}

/// Answers a request to register a link, taking a random name, where one is
/// needed, from `candidates`.
pub fn add_with(
    config: &AppConfig,
    db: &mut Db,
    user: &User,
    info: &AddData,
    candidates: &Vec<String>,
) -> (resp: AddPostResponse)
    requires
        old(db).wf(),
    ensures
        final(db).wf(),
        (final(db)@, resp@) == add_result(
            config.hostname@,
            old(db)@,
            user.id@,
            info@,
            texts(candidates@),
        ),
        !resp.success ==> final(db)@ == old(db)@,
        resp.success ==> exists|name: Seq<char>|
            resp@.url == Some(config.hostname@ + name) && #[trigger] final(db)@.target(name)
                == Some(info.url@),
{
    match info.validate() {
        Err(fields) => {
            let errors = FormErrorPair::from_fields(&fields);
            AddPostResponse::error("Invalid request", Some(errors))
        },
        Ok(_) => {
            let outcome = register_with(db, user, info, candidates);
            respond(config.hostname.as_str(), outcome)
        },
    }
}

/// Answers a request to register a link. Where the request names no short
/// name, five random names are drawn; where the address has no name yet, the
/// first free one of them is registered.
pub fn add(config: &AppConfig, db: &mut Db, user: &User, info: &AddData) -> (resp:
    AddPostResponse)
    requires
        old(db).wf(),
    ensures
        final(db).wf(),
        exists|drawn: Seq<Seq<char>>|
            is_draw_run(drawn) && (final(db)@, resp@) == #[trigger] add_result(
                config.hostname@,
                old(db)@,
                user.id@,
                info@,
                drawn,
            ),
{
    if info.name.is_none() {
        let drawn = random_candidates();
        add_with(config, db, user, info, &drawn)
    } else {
        let no_names: Vec<String> = Vec::new();
        proof {
            let drawn = Seq::new(MAX_ATTEMPTS as nat, |i: int| seq!['a', 'a', 'a']);
            assert(is_draw_run(drawn));
            assert(add_result(config.hostname@, db@, user.id@, info@, drawn) == add_result(
                config.hostname@,
                db@,
                user.id@,
                info@,
                texts(no_names@),
            ));
        }
        add_with(config, db, user, info, &no_names)
    }
}

/// Signing out: the session is dropped by the caller, and the user is sent
/// to the login.
pub fn logout() -> (r: Redirect)
    ensures
        r@ == LOGIN_PATH@,
{
    Redirect::to(LOGIN_PATH)
}

/// The view of an answer that may be a refusal by status.
pub open spec fn served(r: Result<AddPostResponse, Status>) -> Result<ResponseModel, Status> {
    match r {
        Ok(resp) => Ok(resp@),
        Err(s) => Err(s),
    }
}

/// Answers a request to register a link on behalf of whoever stands behind
/// it. Only a signed-in user registers: an anonymous request is turned away
/// as unauthorised before anything is validated or read, and the store stays
/// as it was.
pub fn serve(
    config: &AppConfig,
    db: &mut Db,
    access: &Access,
    info: &AddData,
    candidates: &Vec<String>,
) -> (r: Result<AddPostResponse, Status>)
    requires
        old(db).wf(),
    ensures
        final(db).wf(),
        match *access {
            Access::Authenticated(user) => r is Ok && (final(db)@, r->Ok_0@) == add_result(
                config.hostname@,
                old(db)@,
                user.id@,
                info@,
                texts(candidates@),
            ),
            Access::Anonymous => r == Err::<AddPostResponse, Status>(Status::Unauthorized)
                && final(db)@ == old(db)@,
        },
{
    match access {
        Access::Authenticated(user) => Ok(add_with(config, db, user, info, candidates)),
        Access::Anonymous => Err(Status::Unauthorized),
    }
}

} // verus!
