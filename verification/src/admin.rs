//! The pages for signed-in users.

use vstd::prelude::*;
use crate::api::API_LOCAL;
use crate::auth::{Access, User};
use crate::database::{grant_models, Db, DbModel, PrefixLink};
use crate::http::Redirect;
use crate::routes::LOGIN_PATH;
use crate::utils::{is_colour, random_colour};

verus! {

/// What the admin panel shows.
#[derive(Debug)]
pub struct AdminPage {
    /// Where the page sends its requests.
    pub api: String,
    /// The colour class of the background.
    pub colour: String,
    /// Whether the user may choose names: whether the user holds any grant.
    pub allow_custom_name: bool,
    /// The grants of the user.
    pub prefixes: Vec<PrefixLink>,
    /// The title of the page.
    pub name: String,
}

/// `page` is the admin panel of `user_id` over `db`, in the colour `colour`.
pub open spec fn is_panel_of(page: AdminPage, db: DbModel, user_id: Seq<char>, colour: Seq<char>)
    -> bool {
    &&& page.api@ == API_LOCAL@
    &&& page.colour@ == colour
    &&& page.allow_custom_name == (db.grants(user_id).len() > 0)
    &&& grant_models(page.prefixes@) == db.grants(user_id)
    &&& page.name@ == "Home"@
}

/// The admin panel of `user` in the given colour: the user's grants, and
/// whether there are any.
pub fn panel(db: &Db, user: &User, colour: &str) -> (page: AdminPage)
    ensures
        is_panel_of(page, db@, user.id@, colour@),
{
    let prefixes = PrefixLink::get_all(db, user.id.as_str());
    assert(grant_models(prefixes@).len() == prefixes@.len());
    AdminPage {
        api: API_LOCAL.to_owned(),
        colour: colour.to_owned(),
        allow_custom_name: prefixes.len() > 0,
        prefixes,
        name: "Home".to_owned(),
    }
}

/// The admin panel of a signed-in user, in a colour picked at random.
pub fn index(db: &Db, user: &User) -> (page: AdminPage)
    ensures
        is_colour(page.colour@),
        is_panel_of(page, db@, user.id@, page.colour@),
{
    panel(db, user, random_colour())
}

/// The admin pages for someone who is not signed in: on to the login.
pub fn no_auth_index() -> (r: Redirect)
    ensures
        r@ == LOGIN_PATH@,
{
    Redirect::to(LOGIN_PATH)
}

/// What a request for the admin pages is answered with.
#[derive(Debug)]
pub enum AdminAnswer {
    Page(AdminPage),
    Redirect(Redirect),
}

/// Answers a request for the admin pages: the panel for a signed-in user,
/// the way to the login for everybody else. Nobody is turned away with an
/// error.
pub fn serve(db: &Db, access: &Access) -> (answer: AdminAnswer)
    ensures
        match *access {
            Access::Authenticated(user) => answer is Page && is_colour(answer->Page_0.colour@)
                && is_panel_of(answer->Page_0, db@, user.id@, answer->Page_0.colour@),
            Access::Anonymous => answer is Redirect && answer->Redirect_0@ == LOGIN_PATH@,
        },
{
    match access {
        Access::Authenticated(user) => AdminAnswer::Page(index(db, user)),
        Access::Anonymous => AdminAnswer::Redirect(no_auth_index()),
    }
}

} // verus!
