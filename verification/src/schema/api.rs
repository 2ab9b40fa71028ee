//! What the API takes and gives, and the rules for the credentials it
//! accepts.

use vstd::prelude::*;
use vstd::string::*;

verus! {

/// A name and a password, both already checked.
#[derive(Clone, Debug, PartialEq, Eq)]
pub struct Credentials {
    pub username: String,
    pub password: String,
}

/// A session token.
#[derive(Clone, Debug, PartialEq, Eq)]
pub struct Token {
    pub token: String,
}

/// The kinds of card.
#[derive(Clone, Copy, Debug, PartialEq, Eq, Structural)]
pub enum CardName {
    Calculator,
}

/// A card of a user's layout.
#[derive(Clone, Copy, Debug, PartialEq, Eq, Structural)]
pub struct Card {
    pub name: CardName,
    pub id: i64,
}

/// Why credentials were turned down.
#[derive(Clone, Copy, Debug, PartialEq, Eq, Structural)]
pub enum CredentialError {
    InvalidUsername,
    InvalidPassword,
}

impl CredentialError {
    /// The message for the client.
    pub fn message(&self) -> (text: String)
        ensures
            text@ == (match *self {
                CredentialError::InvalidUsername => "Invalid username"@,
                CredentialError::InvalidPassword => "Invalid password"@,
            }),
    {
        match self {
            CredentialError::InvalidUsername => "Invalid username".to_owned(),
            CredentialError::InvalidPassword => "Invalid password".to_owned(),
        }
    }
}

/// A character of a user name: an ASCII letter, an ASCII digit or `_`.
pub open spec fn is_name_char(c: char) -> bool {
    ('0' <= c <= '9') || ('A' <= c <= 'Z') || ('a' <= c <= 'z') || c == '_'
}

/// White space, as Unicode defines it.
pub open spec fn is_whitespace(c: char) -> bool {
    let n = c as u32;
    (0x09 <= n <= 0x0d) || n == 0x20 || n == 0x85 || n == 0xa0 || n == 0x1680 || (0x2000 <= n
        <= 0x200a) || n == 0x2028 || n == 0x2029 || n == 0x202f || n == 0x205f || n == 0x3000
}

/// A user name is 4 to 16 bytes of letters, digits and `_`.
pub open spec fn valid_username(text: &str) -> bool {
    &&& 4 <= text.spec_bytes().len() <= 16
    &&& forall|i: int| 0 <= i < text@.len() ==> is_name_char(#[trigger] text@[i])
}

/// A password is 6 to 16 bytes without white space.
pub open spec fn valid_password(text: &str) -> bool {
    &&& 6 <= text.spec_bytes().len() <= 16
    &&& forall|i: int| 0 <= i < text@.len() ==> !is_whitespace(#[trigger] text@[i])
}

/// Whether `c` may stand in a user name.
fn name_char(c: char) -> (r: bool)
    ensures
        r == is_name_char(c),
{
    let n = c as u32;
    (0x30 <= n && n <= 0x39) || (0x41 <= n && n <= 0x5a) || (0x61 <= n && n <= 0x7a) || n == 0x5f
}

/// Whether `c` is white space.
pub fn whitespace(c: char) -> (r: bool)
    ensures
        r == is_whitespace(c),
{
    let n = c as u32;
    (0x09 <= n && n <= 0x0d) || n == 0x20 || n == 0x85 || n == 0xa0 || n == 0x1680 || (0x2000
        <= n && n <= 0x200a) || n == 0x2028 || n == 0x2029 || n == 0x202f || n == 0x205f || n
        == 0x3000
}

/// Accepts a user name, or says that it is not one.
pub fn username(text: &str) -> (r: Result<String, CredentialError>)
    ensures
        match r {
            Ok(name) => valid_username(text) && name@ == text@,
            Err(error) => !valid_username(text) && error == CredentialError::InvalidUsername,
        },
{
    let bytes = text.as_bytes().len();
    if bytes < 4 || bytes > 16 {
        return Err(CredentialError::InvalidUsername);
    }
    let n = text.unicode_len();
    let mut i: usize = 0;
    while i < n
        invariant
            n == text@.len(),
            i <= n,
            forall|k: int| 0 <= k < i ==> is_name_char(#[trigger] text@[k]),
        decreases n - i,
    {
        if !name_char(text.get_char(i)) {
            return Err(CredentialError::InvalidUsername);
        }
        i = i + 1;
    }
    Ok(text.to_owned())
}

/// Accepts a password, or says that it is not one.
pub fn password(text: &str) -> (r: Result<String, CredentialError>)
    ensures
        match r {
            Ok(word) => valid_password(text) && word@ == text@,
            Err(error) => !valid_password(text) && error == CredentialError::InvalidPassword,
        },
{
    let bytes = text.as_bytes().len();
    if bytes < 6 || bytes > 16 {
        return Err(CredentialError::InvalidPassword);
    }
    let n = text.unicode_len();
    let mut i: usize = 0;
    while i < n
        invariant
            n == text@.len(),
            i <= n,
            forall|k: int| 0 <= k < i ==> !is_whitespace(#[trigger] text@[k]),
        decreases n - i,
    {
        if whitespace(text.get_char(i)) {
            return Err(CredentialError::InvalidPassword);
        }
        i = i + 1;
    }
    Ok(text.to_owned())
}

} // verus!
