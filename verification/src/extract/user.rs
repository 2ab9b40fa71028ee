//! The user that a request is made for.

use crate::jwt::Claim;
use crate::schema::ids::UserId;
use vstd::prelude::*;

verus! {

/// The user that a request is made for, as its bearer token says.
#[derive(Clone, Copy, Debug, PartialEq, Eq)]
pub struct User(pub UserId);

/// Why a request names no user. Both are answered with status 401.
#[derive(Clone, Copy, Debug, PartialEq, Eq, Structural)]
pub enum AuthRejection {
    /// The request has no bearer authorization header.
    NoBearer,
    /// The bearer token is not one of this server's.
    InvalidToken,
}

/// What the bearer token of a request was found to be.
#[derive(Clone, Copy, Debug, PartialEq, Eq)]
pub enum Bearer {
    /// The request has no bearer authorization header.
    Missing,
    /// The token could not be decoded.
    Undecodable,
    /// The token carries this claim.
    Decoded(Claim),
}

impl AuthRejection {
    /// The status of the answer.
    pub fn status(&self) -> (code: u16)
        ensures
            code == 401,
    {
        401
    }

    /// The text of the answer.
    pub fn message(&self) -> (text: String)
        ensures
            text@ == (match *self {
                AuthRejection::NoBearer => "No Bearer auth header"@,
                AuthRejection::InvalidToken => "Invalid auth header"@,
            }),
    {
        match self {
            AuthRejection::NoBearer => "No Bearer auth header".to_owned(),
            AuthRejection::InvalidToken => "Invalid auth header".to_owned(),
        }
    }
}

impl User {
    /// The user of a request, from what its bearer token was found to be.
    pub fn from_request_parts(bearer: Bearer) -> (r: Result<User, AuthRejection>)
        ensures
            r == (match bearer {
                Bearer::Missing => Err::<User, AuthRejection>(AuthRejection::NoBearer),
                Bearer::Undecodable => Err(AuthRejection::InvalidToken),
                Bearer::Decoded(claim) => Ok(User(claim.sub)),
            }),
    {
        match bearer {
            Bearer::Missing => Err(AuthRejection::NoBearer),
            Bearer::Undecodable => Err(AuthRejection::InvalidToken),
            Bearer::Decoded(claim) => Ok(User(claim.sub)),
        }
    }
}

} // verus!
