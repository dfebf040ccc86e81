//! Request authentication: the configured mode and the decision the
//! middleware takes for each request.

use vstd::prelude::*;

use crate::config::Auth;

verus! {

/// The authentication modes.
#[derive(Clone, Copy, Debug, PartialEq, Eq, Structural)]
pub enum Methods {
    Key,
    NoAuth,
}

/// The value of the request's authorization header, if one was sent.
pub open spec fn header_view(provided: Option<&String>) -> Option<Seq<char>> {
    match provided {
        Some(s) => Some(s@),
        None => None,
    }
}

/// Whether a request passes: with key authentication the authorization
/// header must be present and equal the configured secret; with no
/// authentication every request passes.
pub open spec fn spec_authorized(a: Auth, provided: Option<Seq<char>>) -> bool {
    match a.method {
        Methods::Key => (provided matches Some(t) && t == a.secret@),
        Methods::NoAuth => true,
    }
}

/// The decision the authentication middleware takes for one request.
pub fn authorized(a: &Auth, provided: Option<&String>) -> (r: bool)
    ensures
        r == spec_authorized(*a, header_view(provided)),
{
    match a.method {
        Methods::Key => {
            match provided {
                Some(token) => *token == a.secret,
                None => false,
            }
        },
        Methods::NoAuth => true,
    }
}

} // verus!
