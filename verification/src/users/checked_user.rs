//! Rights checks and the token kinds a request can authenticate with. The
//! extraction of tokens from request headers belongs to the HTTP framework
//! around the library; the checks themselves are plain logic.

use vstd::prelude::*;

use crate::users::data::{Rights, Token};

verus! {

/// A policy deciding whether a user's rights admit a request.
pub trait RightsCheck {
    /// What the policy admits.
    spec fn allows(rights: Rights) -> bool;

    fn check(rights: &Rights) -> (r: bool)
        ensures
            r == Self::allows(*rights),
    ;
}

/// Admits every user.
pub struct RightsAny;

impl RightsCheck for RightsAny {
    open spec fn allows(rights: Rights) -> bool {
        true
    }

    fn check(rights: &Rights) -> (r: bool)
        ensures
            r == Self::allows(*rights),
    {
        true
    }
}

/// Admits only root users.
pub struct RightsRoot;

impl RightsCheck for RightsRoot {
    open spec fn allows(rights: Rights) -> bool {
        rights.root
    }

    fn check(rights: &Rights) -> (r: bool)
        ensures
            r == Self::allows(*rights),
    {
        rights.root
    }
}

/// A token as it arrived with a request: either the normal auth token or the
/// longer-lived data token.
pub enum TokenKind {
    Normal(Token),
    Data(Token),
}

/// Marks the normal auth-token scheme (token taken from the auth header).
pub struct NormalToken;

/// Marks the data-token scheme (token taken from the cookie).
pub struct DataToken;

} // verus!
