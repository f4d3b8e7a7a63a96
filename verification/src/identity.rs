//! Device identity: the lowercase-hex SHA-256 of the host's DER-encoded
//! PKCS#8 private key.
//!
//! The identity is a pure function of the private key bytes; deleting the key
//! file and generating a fresh key mints a new identity.

use vstd::prelude::*;

use crate::text::plain_text;

verus! {

/// A lowercase hexadecimal digit.
pub open spec fn is_hex_digit(c: char) -> bool {
    ('0' <= c && c <= '9') || ('a' <= c && c <= 'f')
}

/// The shape of a device identity: exactly 64 lowercase hexadecimal
/// characters, i.e. a SHA-256 digest in hex.
pub open spec fn is_device_identity(s: Seq<char>) -> bool {
    s.len() == 64 && (forall|i: int| 0 <= i < s.len() ==> is_hex_digit(#[trigger] s[i]))
}

/// The lowercase hexadecimal encoding of the SHA-256 digest of a byte
/// sequence, as computed by the sha256 crate.
pub uninterp spec fn sha256_hex_of(bytes: Seq<u8>) -> Seq<char>;

/// Relies on sha256::digest: returns the lowercase hex encoding of the
/// SHA-256 digest of the input bytes (hex::encode of a 32-byte digest), a
/// function of the bytes alone, always 64 lowercase hex characters.
#[verifier::external_body]
fn sha256_hex(bytes: &Vec<u8>) -> (r: String)
    ensures
        r@ == sha256_hex_of(bytes@),
        is_device_identity(r@),
{
    sha256::digest(bytes.as_slice())
}

/// Derives a device identity from the DER-encoded PKCS#8 private key bytes:
/// the SHA-256 of the key bytes, in lowercase hex.
pub fn device_identity(der: &Vec<u8>) -> (id: String)
    ensures
        id@ == sha256_hex_of(der@),
        is_device_identity(id@),
{
    sha256_hex(der)
}

/// Law: the device identity is stable. It depends on the private key bytes
/// alone, so two derivations from the same key file agree, and the result is
/// always 64 lowercase hexadecimal characters.
pub proof fn lemma_identity_stable(k1: Seq<u8>, k2: Seq<u8>)
    requires
        k1 == k2,
    ensures
        sha256_hex_of(k1) == sha256_hex_of(k2),
{
}

/// An identity embeds in the wire formats as it stands: hexadecimal
/// characters are neither quote nor backslash.
pub proof fn lemma_identity_is_plain(s: Seq<char>)
    requires
        is_device_identity(s),
    ensures
        plain_text(s),
{
    assert forall|k: int| 0 <= k < s.len() implies (s[k] != '"' && s[k] != '\\') by {
        assert(is_hex_digit(s[k]));
    }
}

} // verus!
