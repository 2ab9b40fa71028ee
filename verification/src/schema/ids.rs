//! Identifiers of users and cards: sixteen bytes of text.

use vstd::prelude::*;
use vstd::string::*;

verus! {

/// An ASCII letter or digit.
pub open spec fn is_ascii_alphanumeric(b: u8) -> bool {
    (0x30 <= b <= 0x39) || (0x41 <= b <= 0x5a) || (0x61 <= b <= 0x7a)
}

/// Samples `rand::distributions::Alphanumeric` with the thread's generator.
/// Trusted: the byte is an ASCII letter or digit. Which one is left open:
/// two calls may differ.
#[verifier::external_body]
fn random_alphanumeric() -> (b: u8)
    ensures
        is_ascii_alphanumeric(b),
{
    rand::distributions::Distribution::sample(
        &rand::distributions::Alphanumeric,
        &mut rand::thread_rng(),
    )
}

/// An identifier.
#[derive(Clone, Copy, Debug, PartialEq, Eq)]
pub struct Id([u8; 16]);

impl View for Id {
    type V = Seq<u8>;

    closed spec fn view(&self) -> Seq<u8> {
        self.0@
    }
}

impl Id {
    /// Every byte of the identifier is an ASCII letter or digit.
    pub open spec fn alphanumeric(&self) -> bool {
        forall|i: int| 0 <= i < 16 ==> is_ascii_alphanumeric(#[trigger] self@[i])
    }

    /// The identifier with the given bytes.
    pub fn from_bytes(bytes: [u8; 16]) -> (id: Id)
        ensures
            id@ == bytes@,
    {
        Id(bytes)
    }

    /// A fresh identifier of sixteen random letters and digits.
    pub fn generate() -> (id: Id)
        ensures
            id@.len() == 16,
            id.alphanumeric(),
    {
        let mut bytes = [0u8;16];
        let mut i: usize = 0;
        while i < 16
            invariant
                i <= 16,
                forall|k: int| 0 <= k < i ==> is_ascii_alphanumeric(#[trigger] bytes@[k]),
            decreases 16 - i,
        {
            bytes[i] = random_alphanumeric();
            i = i + 1;
        }
        Id::from_bytes(bytes)
    }

    /// Reads an identifier from its text: the text has to be sixteen bytes
    /// long, and these are the identifier.
    pub fn parse(text: &str) -> (r: Option<Id>)
        ensures
            match r {
                Some(id) => text.spec_bytes().len() == 16 && id@ == text.spec_bytes(),
                None => text.spec_bytes().len() != 16,
            },
    {
        let source = text.as_bytes();
        if source.len() != 16 {
            return None;
        }
        let mut bytes = [0u8;16];
        let mut i: usize = 0;
        while i < 16
            invariant
                i <= 16,
                source@.len() == 16,
                forall|k: int| 0 <= k < i ==> bytes@[k] == source@[k],
            decreases 16 - i,
        {
            bytes[i] = source[i];
            i = i + 1;
        }
        assert(bytes@ =~= source@);
        Some(Id::from_bytes(bytes))
    }

    /// The bytes of the identifier.
    pub fn as_bytes(&self) -> (bytes: &[u8; 16])
        ensures
            bytes@ == self@,
    {
        &self.0
    }
}

impl Default for Id {
    /// A fresh random identifier.
    fn default() -> (id: Id)
        ensures
            id@.len() == 16,
            id.alphanumeric(),
    {
        Id::generate()
    }
}

/// The identifier of a user.
#[derive(Clone, Copy, Debug, PartialEq, Eq)]
pub struct UserId(pub Id);

impl Default for UserId {
    /// A fresh random identifier.
    fn default() -> (id: UserId)
        ensures
            id.0@.len() == 16,
            id.0.alphanumeric(),
    {
        UserId(Id::generate())
    }
}

/// The identifier of a card.
#[derive(Clone, Copy, Debug, PartialEq, Eq)]
pub struct CardId(pub Id);

impl Default for CardId {
    /// A fresh random identifier.
    fn default() -> (id: CardId)
        ensures
            id.0@.len() == 16,
            id.0.alphanumeric(),
    {
        CardId(Id::generate())
    }
}

} // verus!
