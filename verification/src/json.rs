//! The JSON bodies of the fabric: objects of exactly one string field, as in
//! the authorization response and the upstream version response.
//!
//! Peers of this fabric render the canonical compact form; the parser also
//! tolerates whitespace between tokens. Escape sequences never occur in the
//! carried values (identities are hex, versions are plain), so they are
//! rejected rather than unescaped.

use vstd::prelude::*;

use crate::text::{
    lemma_parse_quoted_bounds, lemma_string_body_run_shift, parse_quoted_at, plain_text,
    skip_ws_at, spec_parse_quoted, string_body_run, ws_run,
};

verus! {

/// The canonical rendering of a one-string-field object: compact, no
/// escapes.
pub open spec fn spec_render_string_field(key: Seq<char>, value: Seq<char>) -> Seq<char> {
    seq!['{', '"'] + key + seq!['"', ':', '"'] + value + seq!['"', '}']
}

/// What the parser accepts: one object holding exactly the given string
/// field, with optional whitespace between tokens.
pub open spec fn spec_parse_string_field(s: Seq<char>, key: Seq<char>) -> Option<Seq<char>> {
    let i0 = ws_run(s, 0) as int;
    if i0 < s.len() && s[i0] == '{' {
        let i1 = i0 + 1 + ws_run(s, i0 + 1);
        match spec_parse_quoted(s, i1) {
            Some((k, i2)) => {
                if k == key {
                    let i3 = i2 + ws_run(s, i2);
                    if i3 < s.len() && s[i3] == ':' {
                        let i4 = i3 + 1 + ws_run(s, i3 + 1);
                        match spec_parse_quoted(s, i4) {
                            Some((v, i5)) => {
                                let i6 = i5 + ws_run(s, i5);
                                if i6 < s.len() && s[i6] == '}' {
                                    if i6 + 1 + ws_run(s, i6 + 1) == s.len() {
                                        Some(v)
                                    } else {
                                        None
                                    }
                                } else {
                                    None
                                }
                            },
                            None => None,
                        }
                    } else {
                        None
                    }
                } else {
                    None
                }
            },
            None => None,
        }
    } else {
        None
    }
}

/// Renders the object `{"key":"value"}`.
pub fn render_string_field(key: &str, value: &str) -> (r: String)
    ensures
        r@ == spec_render_string_field(key@, value@),
{
    let mut r = String::from_str("{\"");
    r.append(key);
    r.append("\":\"");
    r.append(value);
    r.append("\"}");
    proof {
        reveal_strlit("{\"");
        reveal_strlit("\":\"");
        reveal_strlit("\"}");
        assert(r@ =~= spec_render_string_field(key@, value@));
    }
    r
}

/// Parses the value of a one-string-field object under the given key.
pub fn parse_string_field(s: &str, key: &String) -> (r: Option<String>)
    ensures
        match r {
            Some(v) => spec_parse_string_field(s@, key@) == Some(v@),
            None => spec_parse_string_field(s@, key@) is None,
        },
{
    let n = s.unicode_len();
    let i0 = skip_ws_at(s, 0, n);
    if i0 >= n || s.get_char(i0) != '{' {
        return None;
    }
    let i1 = skip_ws_at(s, i0 + 1, n);
    let parsed_key = parse_quoted_at(s, i1, n);
    match parsed_key {
        None => None,
        Some((k, i2)) => {
            if !k.eq(key) {
                return None;
            }
            proof {
                lemma_parse_quoted_bounds(s@, i1 as int);
            }
            let i3 = skip_ws_at(s, i2, n);
            if i3 >= n || s.get_char(i3) != ':' {
                return None;
            }
            let i4 = skip_ws_at(s, i3 + 1, n);
            let parsed_value = parse_quoted_at(s, i4, n);
            match parsed_value {
                None => None,
                Some((v, i5)) => {
                    proof {
                        lemma_parse_quoted_bounds(s@, i4 as int);
                    }
                    let i6 = skip_ws_at(s, i5, n);
                    if i6 >= n || s.get_char(i6) != '}' {
                        return None;
                    }
                    let i7 = skip_ws_at(s, i6 + 1, n);
                    if i7 == n {
                        Some(v)
                    } else {
                        None
                    }
                },
            }
        },
    }
}

/// Law: wire round trip. For any key and any plain value, rendering the
/// field and parsing it back under the same key yields exactly the value.
/// Two hosts of this fabric can therefore exchange any identity or version
/// through these bodies without loss.
pub proof fn lemma_string_field_round_trip(key: Seq<char>, value: Seq<char>)
    requires
        plain_text(key),
        plain_text(value),
    ensures
        spec_parse_string_field(spec_render_string_field(key, value), key) == Some(value),
{
    let s = spec_render_string_field(key, value);
    let kl = key.len() as int;
    let vl = value.len() as int;
    assert(s.len() == 7 + kl + vl);
    assert(s[0] == '{');
    assert(s[1] == '"');
    assert(forall|k: int| 0 <= k < kl ==> s[2 + k] == key[k]);
    assert(s[2 + kl] == '"');
    assert(s[3 + kl] == ':');
    assert(s[4 + kl] == '"');
    assert(forall|k: int| 0 <= k < vl ==> s[5 + kl + k] == value[k]);
    assert(s[5 + kl + vl] == '"');
    assert(s[6 + kl + vl] == '}');

    assert(ws_run(s, 0) == 0);
    assert(ws_run(s, 1) == 0);
    // the key token
    assert(string_body_run(s, 2 + kl) == Some(0nat));
    lemma_string_body_run_shift(s, 2, 2 + kl);
    assert(string_body_run(s, 2) == Some(kl as nat));
    assert(spec_parse_quoted(s, 1) == Some((s.subrange(2, 2 + kl), 3 + kl)));
    assert(s.subrange(2, 2 + kl) =~= key);
    // the colon
    assert(ws_run(s, 3 + kl) == 0);
    assert(ws_run(s, 4 + kl) == 0);
    // the value token
    assert(string_body_run(s, 5 + kl + vl) == Some(0nat));
    lemma_string_body_run_shift(s, 5 + kl, 5 + kl + vl);
    assert(string_body_run(s, 5 + kl) == Some(vl as nat));
    assert(spec_parse_quoted(s, 4 + kl) == Some((s.subrange(5 + kl, 5 + kl + vl), 6 + kl + vl)));
    assert(s.subrange(5 + kl, 5 + kl + vl) =~= value);
    // the closing brace and the end
    assert(ws_run(s, 6 + kl + vl) == 0);
    assert(ws_run(s, 7 + kl + vl) == 0);
    assert(spec_parse_string_field(s, key) == Some(value));
}

} // verus!
