//! The payload of a request, and the answer to a request whose payload
//! could not be read.
//!
//! A handler's payload is JSON in the body of the request. A request may
//! also carry it by its method: in the body of a POST, or in the `payload`
//! parameter of the query of any other request.

use vstd::prelude::*;
use vstd::string::*;

verus! {

/// The payload of a request, decoded.
#[derive(Clone, Debug, PartialEq, Eq)]
pub struct Payload<T>(pub T);

/// Where the payload of a request stands.
#[derive(Clone, Copy, Debug, PartialEq, Eq, Structural)]
pub enum PayloadSource {
    /// The body of the request.
    Body,
    /// The `payload` parameter of the query.
    Query,
}

impl PayloadSource {
    /// Where the payload of a request stands: in the body of a POST, in the
    /// query of any other request.
    pub fn from_request(is_post: bool) -> (source: PayloadSource)
        ensures
            source == (if is_post {
                PayloadSource::Body
            } else {
                PayloadSource::Query
            }),
    {
        if is_post {
            PayloadSource::Body
        } else {
            PayloadSource::Query
        }
    }
}

/// Why a request gave no payload.
#[derive(Clone, Debug, PartialEq, Eq)]
pub enum PayloadRejection {
    /// The body was turned down as JSON of the wanted kind.
    Json,
    /// The query was turned down.
    Query,
    /// The `payload` parameter of the query is not JSON of the wanted kind;
    /// the text says why.
    QueryPayloadDeser(String),
}

/// The status of the answer to a payload parameter that could not be
/// decoded.
pub const UNPROCESSABLE_ENTITY: u16 = 422;

impl PayloadRejection {
    /// The answer to the rejected request, as status and text. `None`
    /// leaves the answer to the stage that turned the body or the query
    /// down.
    pub fn into_response(self) -> (r: Option<(u16, String)>)
        ensures
            match self {
                PayloadRejection::Json => r.is_none(),
                PayloadRejection::Query => r.is_none(),
                PayloadRejection::QueryPayloadDeser(why) => r matches Some((code, text)) && code
                    == UNPROCESSABLE_ENTITY && text@
                    == "Failed to deserialize the JSON payload: "@ + why@,
            },
    {
        match self {
            PayloadRejection::Json => None,
            PayloadRejection::Query => None,
            PayloadRejection::QueryPayloadDeser(why) => {
                let mut text = "Failed to deserialize the JSON payload: ".to_owned();
                text.append(why.as_str());
                Some((UNPROCESSABLE_ENTITY, text))
            },
        }
    }
}

/// The status of the answer to a body that could not be decoded.
pub const BAD_REQUEST: u16 = 400;

/// `pattern` stands in `text` at the place `at`.
pub open spec fn occurs_at(text: Seq<char>, pattern: Seq<char>, at: int) -> bool {
    &&& 0 <= at
    &&& at + pattern.len() <= text.len()
    &&& text.subrange(at, at + pattern.len()) == pattern
}

/// `at` is the first place in `text` at which `pattern` stands.
pub open spec fn first_occurs_at(text: Seq<char>, pattern: Seq<char>, at: int) -> bool {
    &&& occurs_at(text, pattern, at)
    &&& forall|earlier: int| 0 <= earlier < at ==> !occurs_at(text, pattern, earlier)
}

/// Whether `pattern` stands in `text` at the place `at`.
fn matches_at(text: &str, pattern: &str, at: usize, text_len: usize, pattern_len: usize) -> (r: bool)
    requires
        text_len == text@.len(),
        pattern_len == pattern@.len(),
        at + pattern_len <= text_len,
    ensures
        r == occurs_at(text@, pattern@, at as int),
{
    let mut k: usize = 0;
    while k < pattern_len
        invariant
            text_len == text@.len(),
            pattern_len == pattern@.len(),
            at + pattern_len <= text_len,
            k <= pattern_len,
            forall|j: int| 0 <= j < k ==> text@[at + j] == pattern@[j],
        decreases pattern_len - k,
    {
        if text.get_char(at + k) != pattern.get_char(k) {
            assert(text@.subrange(at as int, at + pattern_len)[k as int] != pattern@[k as int]);
            return false;
        }
        k = k + 1;
    }
    assert(text@.subrange(at as int, at + pattern_len) =~= pattern@);
    true
}

/// The part of `text` before the first place at which `pattern` stands, or
/// all of `text` where `pattern` stands nowhere in it.
pub fn before_first(text: &str, pattern: &str) -> (r: String)
    ensures
        (forall|at: int| !occurs_at(text@, pattern@, at)) ==> r@ == text@,
        forall|at: int| first_occurs_at(text@, pattern@, at) ==> r@ == text@.subrange(0, at),
{
    let text_len = text.unicode_len();
    let pattern_len = pattern.unicode_len();
    if pattern_len > text_len {
        return text.to_owned();
    }
    let last = text_len - pattern_len;
    let mut at: usize = 0;
    loop
        invariant
            text_len == text@.len(),
            pattern_len == pattern@.len(),
            last == text_len - pattern_len,
            at <= last,
            forall|earlier: int| 0 <= earlier < at ==> !occurs_at(text@, pattern@, earlier),
        decreases last - at,
    {
        if matches_at(text, pattern, at, text_len, pattern_len) {
            return text.substring_char(0, at).to_owned();
        }
        if at == last {
            return text.to_owned();
        }
        at = at + 1;
    }
}

/// The answer to a body that could not be decoded as JSON of the wanted
/// kind: status 400, and the decoder's message without the position that
/// follows it.
pub fn bad_request(message: &str) -> (r: (u16, String))
    ensures
        r.0 == BAD_REQUEST,
        (forall|at: int| !occurs_at(message@, "at line"@, at)) ==> r.1@ == message@,
        forall|at: int|
            first_occurs_at(message@, "at line"@, at) ==> r.1@ == message@.subrange(0, at),
{
    (BAD_REQUEST, before_first(message, "at line"))
}

/// The answer to a request whose body could not be received.
pub fn no_data() -> (r: (u16, String))
    ensures
        r.0 == BAD_REQUEST,
        r.1@ == "No data received"@,
{
    (BAD_REQUEST, "No data received".to_owned())
}

} // verus!
