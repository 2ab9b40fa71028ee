//! The claim that a session token carries.

use crate::schema::ids::UserId;
use vstd::prelude::*;

verus! {

/// The claim of a token: the user that it was issued to.
#[derive(Clone, Copy, Debug, PartialEq, Eq)]
pub struct Claim {
    pub sub: UserId,
}

impl Claim {
    /// The claim of a token for the user `id`.
    pub fn new(id: UserId) -> (claim: Claim)
        ensures
            claim.sub == id,
    {
        Self { sub: id }
    }
}

} // verus!
