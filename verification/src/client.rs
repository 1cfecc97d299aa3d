//! The shared HTTP client handle.  The client is opaque to the engine: it is
//! created once, cloned into every task for connection reuse, and only the
//! unverified run driver performs requests with it.

use vstd::prelude::*;

verus! {

/// `reqwest::Client` carried through the engine as an opaque value.
#[verifier::external_type_specification]
#[verifier::external_body]
pub struct ExClient(reqwest::Client);

/// Relies on `reqwest::Client::default`, which builds a client with default
/// settings; nothing is assumed of the returned value.
#[verifier::external_body]
pub fn default_client() -> reqwest::Client {
    reqwest::Client::default()
}

/// Relies on `reqwest::Client::clone`: the client is a shared handle and
/// cloning it is how tasks reuse one connection pool; nothing is assumed of
/// the returned value.
pub assume_specification[ <reqwest::Client as Clone>::clone ](c: &reqwest::Client) -> reqwest::Client;

} // verus!
