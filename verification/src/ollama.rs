//! The upstream probe: what counts as a live upstream.
//!
//! The surrounding process issues `GET /api/version` against the upstream or
//! against a peer's server proxy and hands the status and body to these
//! functions. Liveness and mode detection both rest on this check.

use vstd::prelude::*;

use crate::json::{
    lemma_string_field_round_trip, parse_string_field, spec_parse_string_field,
    spec_render_string_field,
};
use crate::text::plain_text;

verus! {

/// The payload of a version response.
pub struct VersionResponse {
    pub version: String,
}

/// A probe succeeds iff the status is 2xx and the body is the version
/// object.
pub open spec fn spec_probe_ok(status: u16, body: Seq<char>) -> bool {
    200 <= status < 300 && spec_parse_string_field(body, "version"@) is Some
}

/// Extracts the version from a probe response, when the probe succeeded.
pub fn parse_version_response(status: u16, body: &String) -> (r: Option<VersionResponse>)
    ensures
        match r {
            Some(v) => spec_probe_ok(status, body@) && spec_parse_string_field(
                body@,
                "version"@,
            ) == Some(v.version@),
            None => !spec_probe_ok(status, body@),
        },
{
    if status < 200 || status >= 300 {
        return None;
    }
    let key = String::from_str("version");
    match parse_string_field(body.as_str(), &key) {
        Some(version) => Some(VersionResponse { version }),
        None => None,
    }
}

/// Decides a probe: 2xx and a well-shaped version body.
pub fn probe_response_ok(status: u16, body: &String) -> (r: bool)
    ensures
        r == spec_probe_ok(status, body@),
{
    match parse_version_response(status, body) {
        Some(_) => true,
        None => false,
    }
}

/// Law: a live upstream is recognized. A 200 response whose body names any
/// plain version string passes the probe, so a healthy upstream is never
/// mistaken for a dead one over this body shape.
pub proof fn lemma_probe_accepts_versions(v: Seq<char>)
    requires
        plain_text(v),
    ensures
        spec_probe_ok(200, spec_render_string_field("version"@, v)),
{
    reveal_strlit("version");
    assert(plain_text("version"@)) by {
        assert forall|k: int| 0 <= k < "version"@.len() implies ("version"@[k] != '"'
            && "version"@[k] != '\\') by {
        }
    }
    lemma_string_field_round_trip("version"@, v);
}

} // verus!
