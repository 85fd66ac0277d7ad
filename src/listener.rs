use vstd::prelude::*;

use crate::error::ServiceError;

verus! {

/// The number of symbols in a listener identity.
pub const LISTENER_ID_LEN: usize = 21;

/// A symbol that may stand in a listener identity: `A-Z`, `a-z`, `0-9`, `_`
/// and `-`.
pub open spec fn is_id_symbol(c: char) -> bool {
    ('A' <= c && c <= 'Z') || ('a' <= c && c <= 'z') || ('0' <= c && c <= '9') || c == '_' || c
        == '-'
}

/// The text of a well-formed listener identity.
pub open spec fn is_listener_id(s: Seq<char>) -> bool {
    s.len() == LISTENER_ID_LEN && forall|i: int| 0 <= i < s.len() ==> is_id_symbol(#[trigger] s[i])
}

/// Relies on nid's `Nanoid::try_from_str` with the default length and URL-safe
/// alphabet: it accepts a string exactly when it is 21 bytes, each a symbol of
/// `A-Za-z0-9_-`, and the accepted identity reads back as the same text.
#[verifier::external_body]
fn parse_nanoid(s: &str) -> (r: Result<String, String>)
    ensures
        r is Ok <==> is_listener_id(s@),
        r matches Ok(t) ==> t@ == s@,
{
    match nid::Nanoid::<21>::try_from_str(s) {
        Ok(id) => Ok(id.as_str().to_owned()),
        Err(e) => Err(e.to_string()),
    }
}

/// The identity a listener announces itself with: a compact, URL-safe token.
pub struct ListenerId {
    text: String,
}

impl View for ListenerId {
    type V = Seq<char>;

    closed spec fn view(&self) -> Seq<char> {
        self.text@
    }
}

impl ListenerId {
    /// Reads an identity from its text; text that is not a well-formed
    /// identity is a malformed request.
    pub fn parse(s: &str) -> (r: Result<ListenerId, ServiceError>)
        ensures
            r is Ok <==> is_listener_id(s@),
            r matches Ok(id) ==> id@ == s@,
            r matches Err(e) ==> e is MalformedRequest,
    {
        match parse_nanoid(s) {
            Ok(text) => Ok(ListenerId { text }),
            Err(cause) => Err(ServiceError::MalformedRequest(cause)),
        }
    }

    /// Reads the optional identity of a request: none is no error, a
    /// malformed one is.
    pub fn from_query(raw: Option<&str>) -> (r: Result<Option<ListenerId>, ServiceError>)
        ensures
            raw is None ==> r matches Ok(None),
            raw matches Some(s) ==> (r is Ok <==> is_listener_id(s@)),
            raw matches Some(s) ==> (r matches Ok(Some(id)) && id@ == s@) || (r matches Err(
                e,
            ) && e is MalformedRequest),
    {
        match raw {
            None => Ok(None),
            Some(s) => match ListenerId::parse(s) {
                Ok(id) => Ok(Some(id)),
                Err(e) => Err(e),
            },
        }
    }

    /// The identity as text.
    pub fn as_str(&self) -> (r: &str)
        ensures
            r@ == self@,
    {
        self.text.as_str()
    }

    /// Two identities are the same listener exactly when their text agrees.
    pub fn same_as(&self, other: &ListenerId) -> (r: bool)
        ensures
            r == (self@ == other@),
    {
        self.text == other.text
    }
}

} // verus!
