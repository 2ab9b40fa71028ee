//! The rows of the database.

use crate::schema::ids::{CardId, UserId};
use vstd::prelude::*;

verus! {

/// A row of the table of users.
#[derive(Clone, Debug, PartialEq, Eq)]
pub struct User {
    pub id: UserId,
    pub username: String,
    pub password_hash: String,
    pub password_salt_b64: String,
}

/// A row of the table of cards.
#[derive(Clone, Debug, PartialEq, Eq)]
pub struct Card {
    pub id: CardId,
    pub user_id: UserId,
    pub name: String,
    pub pos: i64,
}

} // verus!
