//! The public half of the service: the entry page and the lookup of short
//! names. Neither asks who is calling.

use vstd::prelude::*;
use crate::database::{Db, DbModel};
use crate::http::{Redirect, Status};
use crate::utils::{is_colour, random_colour};

verus! {

/// Where the login starts.
pub const LOGIN_PATH: &'static str = "/login";

/// The entry of the service: on to the login.
pub fn index() -> (r: Redirect)
    ensures
        r@ == LOGIN_PATH@,
{
    Redirect::to(LOGIN_PATH)
}

/// Where a request for the short name `link` ends: at the address registered
/// under it, or nowhere.
pub open spec fn resolution(db: DbModel, link: Seq<char>) -> Result<Seq<char>, Status> {
    match db.target(link) {
        Some(url) => Ok(url),
        None => Err(Status::NotFound),
    }
}

/// The view of an answer to a lookup.
pub open spec fn resolved(r: Result<Redirect, Status>) -> Result<Seq<char>, Status> {
    match r {
        Ok(to) => Ok(to@),
        Err(s) => Err(s),
    }
}

/// Looks the short name `link` up and redirects to its address. A name that
/// is not registered is not found.
pub fn redirect(db: &Db, link: &str) -> (r: Result<Redirect, Status>)
    ensures
        resolved(r) == resolution(db@, link@),
{
    match db.lookup(link) {
        Some(url) => Ok(Redirect { target: url.url }),
        None => Err(Status::NotFound),
    }
}

/// What an error page shows.
#[derive(Debug)]
pub struct ErrorPage {
    /// The colour class of the background.
    pub colour: String,
    /// The title of the page.
    pub name: String,
}

/// The page for a failure of the service itself, in a colour picked at
/// random.
pub fn internal_error() -> (page: ErrorPage)
    ensures
        is_colour(page.colour@),
        page.name@ == "Oops"@,
{
    ErrorPage { colour: random_colour().to_owned(), name: "Oops".to_owned() }
}

/// The page for an address that leads nowhere, in a colour picked at random.
pub fn not_found() -> (page: ErrorPage)
    ensures
        is_colour(page.colour@),
        page.name@ == "Lost and Found"@,
{
    ErrorPage { colour: random_colour().to_owned(), name: "Lost and Found".to_owned() }
}

} // verus!
