//! The settings of one deployment.

use vstd::prelude::*;

verus! {

/// What the service is told at start: how to reach the identity provider, and
/// the address under which the service itself is reached.
#[derive(Debug)]
pub struct AppConfig {
    pub client_id: String,
    pub client_secret: String,
    pub client_url: String,
    /// The public address of the service, with its trailing slash: short
    /// links and the address the provider calls back are made from it.
    pub hostname: String,
}

} // verus!
