//! The certificate store: where the persisted cert and key material lives,
//! and the identity derived from the private key files.
//!
//! Two pairs are kept under the data directory: the device identity pair and
//! the transport pair for the HTTPS endpoint. Generating and writing missing
//! material is the surrounding process's work; the store knows the layout
//! and derives identities.

use vstd::prelude::*;

use rustls::pki_types::pem::PemObject;

use crate::error::OllanaError;
use crate::identity::{device_identity, is_device_identity};

verus! {

/// Joins the data directory and a file name.
fn join_path(dir: &String, name: &str) -> (r: String)
    ensures
        r@ == dir@ + seq!['/'] + name@,
{
    let mut r = dir.clone();
    r.append("/");
    r.append(name);
    proof {
        reveal_strlit("/");
        assert(r@ =~= dir@ + seq!['/'] + name@);
    }
    r
}

/// Relies on rustls_pki_types::pem::PemObject::from_pem_file (through the
/// rustls re-export): reads the file at the path and decodes the DER bytes
/// of the first PKCS#8 private key PEM section in it. What the file holds is
/// up to the disk, so nothing is promised of the bytes.
#[verifier::external_body]
fn read_pkcs8_der(path: &String) -> (r: Result<Vec<u8>, OllanaError>) {
    match rustls::pki_types::PrivatePkcs8KeyDer::from_pem_file(path.as_str()) {
        Ok(key) => Ok(key.secret_pkcs8_der().to_vec()),
        Err(_) => Err(OllanaError::Io),
    }
}

/// The store: the directory the material lives in.
pub struct Certs {
    pub dir: String,
}

impl Certs {
    /// A store rooted at the given data directory.
    pub fn new(dir: String) -> (c: Certs)
        ensures
            c.dir == dir,
    {
        Certs { dir }
    }

    /// Path of the client identity certificate.
    pub fn client_cert_path(&self) -> (r: String)
        ensures
            r@ == self.dir@ + seq!['/'] + "client_cert.pem"@,
    {
        join_path(&self.dir, "client_cert.pem")
    }

    /// Path of the client identity private key.
    pub fn client_key_path(&self) -> (r: String)
        ensures
            r@ == self.dir@ + seq!['/'] + "client_key.pem"@,
    {
        join_path(&self.dir, "client_key.pem")
    }

    /// Path of the server identity certificate.
    pub fn server_cert_path(&self) -> (r: String)
        ensures
            r@ == self.dir@ + seq!['/'] + "server_cert.pem"@,
    {
        join_path(&self.dir, "server_cert.pem")
    }

    /// Path of the server identity private key.
    pub fn server_key_path(&self) -> (r: String)
        ensures
            r@ == self.dir@ + seq!['/'] + "server_key.pem"@,
    {
        join_path(&self.dir, "server_key.pem")
    }

    /// Path of the HTTPS transport certificate.
    pub fn http_server_cert_path(&self) -> (r: String)
        ensures
            r@ == self.dir@ + seq!['/'] + "http_server_cert.pem"@,
    {
        join_path(&self.dir, "http_server_cert.pem")
    }

    /// Path of the HTTPS transport private key.
    pub fn http_server_key_path(&self) -> (r: String)
        ensures
            r@ == self.dir@ + seq!['/'] + "http_server_key.pem"@,
    {
        join_path(&self.dir, "http_server_key.pem")
    }

    /// The client identity: the lowercase-hex SHA-256 of the DER bytes read
    /// from the client key file.
    pub fn get_client_device_id(&self) -> (r: Result<String, OllanaError>)
        ensures
            r is Ok ==> is_device_identity(r->Ok_0@),
    {
        let path = self.client_key_path();
        match read_pkcs8_der(&path) {
            Ok(der) => Ok(device_identity(&der)),
            Err(e) => Err(e),
        }
    }

    /// The server identity: the lowercase-hex SHA-256 of the DER bytes read
    /// from the server key file.
    pub fn get_server_device_id(&self) -> (r: Result<String, OllanaError>)
        ensures
            r is Ok ==> is_device_identity(r->Ok_0@),
    {
        let path = self.server_key_path();
        match read_pkcs8_der(&path) {
            Ok(der) => Ok(device_identity(&der)),
            Err(e) => Err(e),
        }
    }
}

} // verus!
