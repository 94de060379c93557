//! What registering links guarantees, proved of every store and every
//! request.

use vstd::prelude::*;
use crate::api::{add_result, answer, first_free, forced, registration, AddFailure,
    ResponseModel};
use crate::database::{lemma_find_first, lemma_find_first_push, DbModel, PrefixModel, UrlModel};
use crate::http::Status;
use crate::routes::resolution;
use crate::text::{is_byte_prefix, lemma_empty_is_prefix};
use crate::validation::{field_errors, AddDataModel};

verus! {

/// A new name comes to lead to its address. Whoever holds a grant for a name
/// that is not registered, and asks for it with a valid request, gets it,
/// and looking the name up then leads to the address of the request. Without
/// `force` this needs the address to have no name yet.
pub proof fn registered_name_resolves(
    hostname: Seq<char>,
    db: DbModel,
    user_id: Seq<char>,
    info: AddDataModel,
    drawn: Seq<Seq<char>>,
)
    requires
        field_errors(info).len() == 0,
        info.name is Some,
        db.can_link(user_id, info.name->0),
        !db.contains_name(info.name->0),
        forced(info) || db.from_url(info.url) is None,
    ensures
        add_result(hostname, db, user_id, info, drawn).1 == ResponseModel::ok(
            hostname + info.name->0,
        ),
        resolution(add_result(hostname, db, user_id, info, drawn).0, info.name->0) == Ok::<
            Seq<char>,
            Status,
        >(info.url),
{
    let name = info.name->0;
    db.lemma_insert(name, info.url, name);
    db.lemma_upsert(name, info.url, name);
}

/// Asking twice for the same address without a name gives the same name
/// twice. Where the first request succeeds, the second gets the same answer
/// and writes nothing; the first wrote one record if the address was new and
/// none if it was known.
pub proof fn unnamed_request_is_idempotent(
    hostname: Seq<char>,
    db: DbModel,
    user_id: Seq<char>,
    info: AddDataModel,
    first_drawn: Seq<Seq<char>>,
    second_drawn: Seq<Seq<char>>,
)
    requires
        info.name is None,
        add_result(hostname, db, user_id, info, first_drawn).1.success,
    ensures
        ({
            let (once, first) = add_result(hostname, db, user_id, info, first_drawn);
            let (twice, second) = add_result(hostname, once, user_id, info, second_drawn);
            &&& second == first
            &&& twice == once
            &&& db.from_url(info.url) is Some ==> once == db
            &&& db.from_url(info.url) is None ==> first_free(db, first_drawn) is Some && once
                == db.insert(first_free(db, first_drawn)->0, info.url)
        }),
{
    let (once, first) = add_result(hostname, db, user_id, info, first_drawn);
    if db.from_url(info.url) is None {
        let name = first_free(db, first_drawn)->0;
        let rec = UrlModel { name, url: info.url };
        lemma_find_first_push(db.urls, rec, |r: UrlModel| r.url == info.url);
        assert(once.from_url(info.url) == Some(rec));
    }
}

/// A taken name is not overwritten without `force`. The request is answered
/// with the question whether to overwrite, which allows `force`, and the
/// store stays as it was.
pub proof fn taken_name_is_kept_without_force(
    hostname: Seq<char>,
    db: DbModel,
    user_id: Seq<char>,
    info: AddDataModel,
    drawn: Seq<Seq<char>>,
)
    requires
        field_errors(info).len() == 0,
        info.name is Some,
        db.can_link(user_id, info.name->0),
        db.contains_name(info.name->0),
        !forced(info),
    ensures
        add_result(hostname, db, user_id, info, drawn).0 == db,
        add_result(hostname, db, user_id, info, drawn).1 == answer(
            hostname,
            Err(AddFailure::NameExists),
        ),
        add_result(hostname, db, user_id, info, drawn).1.allow_force,
        !add_result(hostname, db, user_id, info, drawn).1.success,
{
}

/// With `force` a taken name is overwritten. The request succeeds, looking
/// the name up then leads to the new address, and every other name leads
/// where it led before.
pub proof fn taken_name_is_overwritten_with_force(
    hostname: Seq<char>,
    db: DbModel,
    user_id: Seq<char>,
    info: AddDataModel,
    drawn: Seq<Seq<char>>,
    other: Seq<char>,
)
    requires
        field_errors(info).len() == 0,
        info.name is Some,
        db.can_link(user_id, info.name->0),
        db.contains_name(info.name->0),
        forced(info),
    ensures
        add_result(hostname, db, user_id, info, drawn).1 == ResponseModel::ok(
            hostname + info.name->0,
        ),
        resolution(add_result(hostname, db, user_id, info, drawn).0, info.name->0) == Ok::<
            Seq<char>,
            Status,
        >(info.url),
        other != info.name->0 ==> resolution(
            add_result(hostname, db, user_id, info, drawn).0,
            other,
        ) == resolution(db, other),
{
    db.lemma_upsert(info.name->0, info.url, other);
}

/// Without a grant for the name nothing is registered. The request is
/// refused, `force` is not offered, and the store stays as it was.
pub proof fn name_without_grant_is_refused(
    hostname: Seq<char>,
    db: DbModel,
    user_id: Seq<char>,
    info: AddDataModel,
    drawn: Seq<Seq<char>>,
)
    requires
        field_errors(info).len() == 0,
        info.name is Some,
        !db.can_link(user_id, info.name->0),
    ensures
        add_result(hostname, db, user_id, info, drawn).0 == db,
        add_result(hostname, db, user_id, info, drawn).1 == answer(
            hostname,
            Err(AddFailure::UnauthorisedLink),
        ),
        !add_result(hostname, db, user_id, info, drawn).1.allow_force,
{
}

/// The grant with the empty prefix covers every name.
pub proof fn empty_prefix_grants_every_name(
    db: DbModel,
    user_id: Seq<char>,
    name: Seq<char>,
    i: int,
)
    requires
        0 <= i < db.prefixes.len(),
        db.prefixes[i] == (PrefixModel { user_id, prefix: Seq::empty() }),
    ensures
        db.can_link(user_id, name),
{
    lemma_empty_is_prefix(name);
    assert(db.prefixes[i].user_id == user_id && is_byte_prefix(db.prefixes[i].prefix, name));
}

/// Where every name drawn is taken, none is made. A request without a name,
/// for an address that has none, then fails, `force` is not offered, and the
/// store stays as it was.
pub proof fn exhausted_draws_register_nothing(
    hostname: Seq<char>,
    db: DbModel,
    user_id: Seq<char>,
    info: AddDataModel,
    drawn: Seq<Seq<char>>,
)
    requires
        field_errors(info).len() == 0,
        info.name is None,
        db.from_url(info.url) is None,
        forall|i: int| 0 <= i < drawn.len() ==> db.contains_name(#[trigger] drawn[i]),
    ensures
        add_result(hostname, db, user_id, info, drawn).0 == db,
        add_result(hostname, db, user_id, info, drawn).1 == answer(
            hostname,
            Err(AddFailure::FailedGen),
        ),
        !add_result(hostname, db, user_id, info, drawn).1.allow_force,
        !add_result(hostname, db, user_id, info, drawn).1.success,
{
    lemma_find_first(drawn, |n: Seq<char>| !db.contains_name(n));
}

/// Registering keeps the names of the store distinct.
pub proof fn registration_keeps_names_unique(
    db: DbModel,
    user_id: Seq<char>,
    info: AddDataModel,
    drawn: Seq<Seq<char>>,
)
    requires
        db.wf(),
    ensures
        registration(db, user_id, info, drawn).0.wf(),
{
    let after = registration(db, user_id, info, drawn).0;
    if after != db {
        match info.name {
            Some(name) => {
                lemma_find_first(db.urls, |r: UrlModel| r.name == name);
            },
            None => {
                let name = first_free(db, drawn)->0;
                lemma_find_first(drawn, |n: Seq<char>| !db.contains_name(n));
                lemma_find_first(db.urls, |r: UrlModel| r.name == name);
            },
        }
    }
}

} // verus!
