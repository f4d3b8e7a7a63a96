//! The handshake with a peer daemon: the authorization request body and the
//! interpretation of the peer's response.
//!
//! The surrounding process sends `POST /ollana/api/authorize` over TLS with
//! the local identity in the identity header and hands the status and body
//! back to `check_authorization_response`.

use vstd::prelude::*;

use crate::error::OllanaError;
use crate::json::{
    lemma_string_field_round_trip, parse_string_field, render_string_field,
    spec_parse_string_field, spec_render_string_field,
};
use crate::text::plain_text;

verus! {

/// The payload of a successful authorization response: the responding
/// peer's identity.
pub struct AuthorizationResponse {
    pub device_id: String,
}

impl AuthorizationResponse {
    /// Wraps an identity.
    pub fn new(device_id: String) -> (r: AuthorizationResponse)
        ensures
            r.device_id == device_id,
    {
        AuthorizationResponse { device_id }
    }
}

/// The JSON body carrying an identity: `{"device_id":"<id>"}`.
pub open spec fn spec_authorization_body(id: Seq<char>) -> Seq<char> {
    spec_render_string_field("device_id"@, id)
}

/// Renders the body of a successful authorization response.
pub fn render_authorization_body(resp: &AuthorizationResponse) -> (r: String)
    ensures
        r@ == spec_authorization_body(resp.device_id@),
{
    render_string_field("device_id", resp.device_id.as_str())
}

/// What the handshake concludes from the peer's response: 401 means the
/// peer does not allow us; any other status must carry the peer's identity
/// as a JSON body, and a body of another shape is a parse error.
pub open spec fn spec_handshake_outcome(status: u16, body: Seq<char>) -> Result<
    Option<Seq<char>>,
    OllanaError,
> {
    if status == 401 {
        Ok(None)
    } else {
        match spec_parse_string_field(body, "device_id"@) {
            Some(id) => Ok(Some(id)),
            None => Err(OllanaError::Parse),
        }
    }
}

/// Interprets the response of the peer's authorize endpoint.
pub fn check_authorization_response(status: u16, body: &String) -> (r: Result<
    Option<AuthorizationResponse>,
    OllanaError,
>)
    ensures
        match r {
            Ok(Some(resp)) => spec_handshake_outcome(status, body@) == Ok::<
                Option<Seq<char>>,
                OllanaError,
            >(Some(resp.device_id@)),
            Ok(None) => spec_handshake_outcome(status, body@) == Ok::<
                Option<Seq<char>>,
                OllanaError,
            >(None),
            Err(e) => spec_handshake_outcome(status, body@) == Err::<
                Option<Seq<char>>,
                OllanaError,
            >(e),
        },
{
    if status == 401 {
        Ok(None)
    } else {
        let key = String::from_str("device_id");
        match parse_string_field(body.as_str(), &key) {
            Some(id) => Ok(Some(AuthorizationResponse::new(id))),
            None => Err(OllanaError::Parse),
        }
    }
}

/// Law: mutual handshake. The authorization body one host renders for its
/// identity is read back by the peer as exactly that identity, for any
/// identity holding neither quote nor backslash. Two hosts of this fabric
/// can therefore always identify each other through the handshake.
pub proof fn lemma_handshake_round_trip(id: Seq<char>)
    requires
        plain_text(id),
    ensures
        spec_handshake_outcome(200, spec_authorization_body(id)) == Ok::<
            Option<Seq<char>>,
            OllanaError,
        >(Some(id)),
{
    reveal_strlit("device_id");
    assert(plain_text("device_id"@)) by {
        assert forall|k: int| 0 <= k < "device_id"@.len() implies ("device_id"@[k] != '"'
            && "device_id"@[k] != '\\') by {
        }
    }
    lemma_string_field_round_trip("device_id"@, id);
}

} // verus!
