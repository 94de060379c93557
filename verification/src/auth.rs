//! Who is asking: the identity a session carries, and the decisions of the
//! sign-in handshake with the identity provider.

use vstd::prelude::*;
use openidconnect::ClaimsVerificationError;
use crate::http::Redirect;
use crate::text::str_eq;

verus! {

/// Why the `openidconnect` crate did not accept the claims of an identity
/// token. The library carries the value and never looks inside.
#[verifier::external_type_specification]
#[verifier::external_body]
pub struct ExClaimsVerificationError(ClaimsVerificationError);

/// Where signed-in users land.
pub const ADMIN_PATH: &'static str = "/admin";

/// Where everybody else lands.
pub const ANONYMOUS_PATH: &'static str = "/";

/// A signed-in user: the subject that the identity provider vouched for.
#[derive(Debug)]
pub struct User {
    pub id: String,
}

/// Who stands behind a request.
#[derive(Debug)]
pub enum Access {
    /// A signed-in user.
    Authenticated(User),
    /// Nobody: the request goes to the handler for the public.
    Anonymous,
}

impl User {
    /// Reads the user from what the session of a request holds. A request
    /// without a valid session is anonymous; it is never an error.
    pub fn from_request(session: Option<User>) -> (access: Access)
        ensures
            match session {
                Some(user) => access == Access::Authenticated(user),
                None => access is Anonymous,
            },
    {
        match session {
            Some(user) => Access::Authenticated(user),
            None => Access::Anonymous,
        }
    }
}

/// What one login attempt must remember until the provider calls back. It
/// travels with the client and is used once.
#[derive(Debug)]
pub struct OidcValidator {
    /// Where the provider asks the user to sign in.
    pub auth_url: String,
    /// The token that the callback must bring back.
    pub csrf_token: String,
    /// The nonce that the identity token must carry.
    pub nonce: String,
}

/// The two secrets of one login attempt.
#[derive(Debug)]
pub struct LoginTokens {
    /// The token that the callback must bring back.
    pub csrf_token: String,
    /// The nonce that the identity token must carry.
    pub nonce: String,
}

/// How long a fresh token or nonce is: sixteen bytes in base64 without
/// padding.
pub const TOKEN_LEN: usize = 22;

/// Calls `CsrfToken::new_random` of the `openidconnect` crate, which draws
/// sixteen random bytes and encodes them in URL-safe base64 without padding,
/// and hands back the text. The contract states the length of that text and
/// nothing of how it was drawn; it is not proved.
#[verifier::external_body]
fn new_csrf_token() -> (token: String)
    ensures
        token@.len() == TOKEN_LEN,
{
    openidconnect::CsrfToken::new_random().secret().clone()
}

/// Calls `Nonce::new_random` of the `openidconnect` crate, which draws
/// sixteen random bytes and encodes them in URL-safe base64 without padding,
/// and hands back the text. The contract states the length of that text and
/// nothing of how it was drawn; it is not proved.
#[verifier::external_body]
fn new_nonce() -> (nonce: String)
    ensures
        nonce@.len() == TOKEN_LEN,
{
    openidconnect::Nonce::new_random().secret().clone()
}

/// Why a handshake ended without an identity.
#[derive(Debug, Clone, Copy, PartialEq, Eq, Structural)]
pub enum HandshakeError {
    /// The provider could not be reached, or refused the code.
    Exchange,
    /// The identity token did not verify: its signature, its nonce or
    /// another claim was wrong.
    Claims,
}

impl OidcValidator {
    /// Draws the token and the nonce of a new login.
    pub fn fresh_tokens() -> (tokens: LoginTokens)
        ensures
            tokens.csrf_token@.len() == TOKEN_LEN,
            tokens.nonce@.len() == TOKEN_LEN,
    {
        LoginTokens { csrf_token: new_csrf_token(), nonce: new_nonce() }
    }

    /// What a login that was just started must remember: the provider's
    /// address for it, and the token and nonce that the address carries.
    pub fn new(auth_url: String, tokens: LoginTokens) -> (validator: OidcValidator)
        ensures
            validator.auth_url == auth_url,
            validator.csrf_token == tokens.csrf_token,
            validator.nonce == tokens.nonce,
    {
        OidcValidator { auth_url, csrf_token: tokens.csrf_token, nonce: tokens.nonce }
    }

    /// Whether the token that a callback brought is the one of this login.
    pub fn matches(&self, state: &str) -> (same: bool)
        ensures
            same == (self.csrf_token@ == state@),
    {
        str_eq(self.csrf_token.as_str(), state)
    }

    /// Reads the user from what verifying the provider's answer gave. The
    /// answer is verified against the provider's keys and the nonce of this
    /// login before it comes here: `claimed` is the subject of the verified
    /// claims, the reason they were refused, or nothing where the answer
    /// held no identity token.
    pub fn verify(&self, claimed: Option<Result<String, ClaimsVerificationError>>) -> (r: Result<
        Option<User>,
        HandshakeError,
    >)
        ensures
            match claimed {
                None => r == Ok::<Option<User>, HandshakeError>(None),
                Some(Ok(subject)) => r == Ok::<Option<User>, HandshakeError>(
                    Some(User { id: subject }),
                ),
                Some(Err(_)) => r == Err::<Option<User>, HandshakeError>(HandshakeError::Claims),
            },
    {
        match claimed {
            None => Ok(None),
            Some(Ok(subject)) => Ok(Some(User { id: subject })),
            Some(Err(_)) => Err(HandshakeError::Claims),
        }
    }
}

/// What to do with a callback once the stored login was read and deleted.
#[derive(Debug)]
pub enum CallbackStep {
    /// The callback belongs to the stored login: exchange its code with the
    /// provider and verify the answer with this validator.
    Exchange(OidcValidator),
    /// The callback is turned away: nothing is sent to the provider.
    Rejected(Redirect),
}

/// Decides whether a callback may go on to the provider. It may only where a
/// login was stored and the callback brings back that login's token; every
/// other callback is sent to the public landing page. The stored login is
/// taken by value: it is spent whatever the outcome.
pub fn callback(stored: Option<OidcValidator>, state: &str) -> (step: CallbackStep)
    ensures
        match step {
            CallbackStep::Exchange(validator) => stored == Some(validator)
                && validator.csrf_token@ == state@,
            CallbackStep::Rejected(to) => to@ == ANONYMOUS_PATH@ && (stored is None
                || stored->0.csrf_token@ != state@),
        },
{
    match stored {
        Some(validator) => {
            if validator.matches(state) {
                CallbackStep::Exchange(validator)
            } else {
                CallbackStep::Rejected(Redirect::to(ANONYMOUS_PATH))
            }
        },
        None => CallbackStep::Rejected(Redirect::to(ANONYMOUS_PATH)),
    }
}

/// How a handshake ends: the session to open, if any, and where the user is
/// sent.
#[derive(Debug)]
pub struct Login {
    pub session: Option<User>,
    pub redirect: Redirect,
}

/// Ends the handshake. A verified user gets a session and is sent to the
/// admin pages; every failure, and an answer without identity, opens no
/// session and sends the user to the public landing page.
pub fn finish_login(verified: Result<Option<User>, HandshakeError>) -> (login: Login)
    ensures
        match verified {
            Ok(Some(user)) => login.session == Some(user) && login.redirect@ == ADMIN_PATH@,
            _ => login.session is None && login.redirect@ == ANONYMOUS_PATH@,
        },
{
    match verified {
        Ok(Some(user)) => Login { session: Some(user), redirect: Redirect::to(ADMIN_PATH) },
        _ => Login { session: None, redirect: Redirect::to(ANONYMOUS_PATH) },
    }
}

/// A callback from someone who is signed in already: on to the admin pages.
pub fn callback_no_auth(_user: User) -> (r: Redirect)
    ensures
        r@ == ADMIN_PATH@,
{
    Redirect::to(ADMIN_PATH)
}

/// The login page for someone who is signed in already: on to the admin
/// pages.
pub fn login(_user: User) -> (r: Redirect)
    ensures
        r@ == ADMIN_PATH@,
{
    Redirect::to(ADMIN_PATH)
}

/// The login page for everybody else: on to the provider, at the address of
/// the login that was just started. The caller stores the validator with the
/// client before it answers.
pub fn login_page(validator: &OidcValidator) -> (r: Redirect)
    ensures
        r@ == validator.auth_url@,
{
    Redirect::to(validator.auth_url.as_str())
}

} // verus!
