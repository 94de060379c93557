//! The few answers of the service that are not pages: a redirect, and the
//! statuses with which a request is turned away.

use vstd::prelude::*;

verus! {

/// An answer that sends the client to another address.
#[derive(Debug)]
pub struct Redirect {
    pub target: String,
}

impl View for Redirect {
    type V = Seq<char>;

    /// The address the client is sent to.
    open spec fn view(&self) -> Seq<char> {
        self.target@
    }
}

impl Redirect {
    /// The redirect to `uri`.
    pub fn to(uri: &str) -> (r: Redirect)
        ensures
            r@ == uri@,
    {
        Redirect { target: uri.to_owned() }
    }
}

/// Why a request got no answer from a handler.
#[derive(Debug, Clone, Copy, PartialEq, Eq, Structural)]
pub enum Status {
    /// No signed-in user stands behind the request.
    Unauthorized,
    /// Nothing is registered under the name asked for.
    NotFound,
}

} // verus!
