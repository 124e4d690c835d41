//! The identity that native TLS shows: certificates and a private key, out of PEM
//! files.

use rustls::pki_types::PrivateKeyDer;
use vstd::prelude::*;

use crate::text::chars::concat2;
use crate::text::chars::owned;
use crate::text::chars;

verus! {

broadcast use {vstd::seq::group_seq_axioms, vstd::slice::group_slice_axioms};

/// How a private key is written down.
#[derive(Debug, Clone, Copy, PartialEq, Eq, Structural)]
pub enum KeyForm {
    Pkcs1,
    Sec1,
    Pkcs8,
}

/// A private key in DER.
#[derive(Debug)]
pub struct KeyDer {
    pub form: KeyForm,
    pub der: Vec<u8>,
}

/// The certificates and the key of a server, in DER.
#[derive(Debug)]
pub struct TlsIdentity {
    pub certs: Vec<Vec<u8>>,
    pub key: KeyDer,
}

/// Why there is no identity.
#[derive(Debug)]
pub enum TlsFault {
    /// The certificate file cannot be parsed, with the reason.
    Certificate(String),
    /// The key file cannot be parsed, with the reason.
    Key(String),
    /// The key file holds no private key.
    NoKey,
}

/// What an identity says.
pub struct IdentityModel {
    pub certs: Seq<Seq<u8>>,
    pub form: KeyForm,
    pub key: Seq<u8>,
}

/// What a fault says.
pub enum FaultModel {
    Certificate(Seq<char>),
    Key(Seq<char>),
    NoKey,
}

/// The contents of a list of byte strings.
pub open spec fn all_bytes(v: Seq<Vec<u8>>) -> Seq<Seq<u8>> {
    Seq::new(v.len(), |i: int| v[i]@)
}

impl View for TlsIdentity {
    type V = IdentityModel;

    open spec fn view(&self) -> IdentityModel {
        IdentityModel { certs: all_bytes(self.certs@), form: self.key.form, key: self.key.der@ }
    }
}

impl View for TlsFault {
    type V = FaultModel;

    open spec fn view(&self) -> FaultModel {
        match *self {
            TlsFault::Certificate(s) => FaultModel::Certificate(s@),
            TlsFault::Key(s) => FaultModel::Key(s@),
            TlsFault::NoKey => FaultModel::NoKey,
        }
    }
}

/// What reading certificates gave.
pub open spec fn certs_model(r: Result<Vec<Vec<u8>>, String>) -> Result<Seq<Seq<u8>>, Seq<char>> {
    match r {
        Ok(v) => Ok(all_bytes(v@)),
        Err(e) => Err(e@),
    }
}

/// What reading a key gave.
pub open spec fn key_model(r: Result<Option<KeyDer>, String>) -> Result<
    Option<(KeyForm, Seq<u8>)>,
    Seq<char>,
> {
    match r {
        Ok(Some(k)) => Ok(Some((k.form, k.der@))),
        Ok(None) => Ok(None),
        Err(e) => Err(e@),
    }
}

/// What `rustls_pemfile::certs` reads out of a PEM text: the certificates in
/// order, or the reason why a section cannot be read.
pub uninterp spec fn pem_certs(pem: Seq<u8>) -> Result<Seq<Seq<u8>>, Seq<char>>;

/// What `rustls_pemfile::private_key` reads out of a PEM text: the first private
/// key, if there is one, or the reason why a section cannot be read.
pub uninterp spec fn pem_key(pem: Seq<u8>) -> Result<Option<(KeyForm, Seq<u8>)>, Seq<char>>;

/// Calls `rustls_pemfile::certs` on the bytes and collects what it yields, up to
/// the first error. The result depends on the bytes alone.
#[verifier::external_body]
fn read_certs(pem: &Vec<u8>) -> (r: Result<Vec<Vec<u8>>, String>)
    ensures
        certs_model(r) == pem_certs(pem@),
{
    rustls_pemfile::certs(&mut pem.as_slice())
        .map(|c| c.map(|der| der.to_vec()).map_err(|e| e.to_string()))
        .collect()
}

/// Calls `rustls_pemfile::private_key` on the bytes. The result depends on the
/// bytes alone. The key comes in one of three forms; what is neither PKCS#1 nor
/// SEC1 is PKCS#8.
#[verifier::external_body]
fn read_key(pem: &Vec<u8>) -> (r: Result<Option<KeyDer>, String>)
    ensures
        key_model(r) == pem_key(pem@),
{
    let key = rustls_pemfile::private_key(&mut pem.as_slice()).map_err(|e| e.to_string())?;
    Ok(key.map(|k| KeyDer {
        form: match k {
            PrivateKeyDer::Pkcs1(_) => KeyForm::Pkcs1,
            PrivateKeyDer::Sec1(_) => KeyForm::Sec1,
            _ => KeyForm::Pkcs8,
        },
        der: k.secret_der().to_vec(),
    }))
}

/// The identity that certificates and a key make up. The certificates are looked
/// at first.
pub open spec fn identity_of(
    certs: Result<Seq<Seq<u8>>, Seq<char>>,
    key: Result<Option<(KeyForm, Seq<u8>)>, Seq<char>>,
) -> Result<IdentityModel, FaultModel> {
    match certs {
        Err(e) => Err(FaultModel::Certificate(e)),
        Ok(certs) => match key {
            Err(e) => Err(FaultModel::Key(e)),
            Ok(None) => Err(FaultModel::NoKey),
            Ok(Some((form, key))) => Ok(IdentityModel { certs, form, key }),
        },
    }
}

/// What an identity or a fault says.
pub open spec fn identity_model(r: Result<TlsIdentity, TlsFault>) -> Result<
    IdentityModel,
    FaultModel,
> {
    match r {
        Ok(t) => Ok(t@),
        Err(e) => Err(e@),
    }
}

/// The identity that certificates and a key make up.
pub fn assemble_identity(
    certs: Result<Vec<Vec<u8>>, String>,
    key: Result<Option<KeyDer>, String>,
) -> (r: Result<TlsIdentity, TlsFault>)
    ensures
        identity_model(r) == identity_of(certs_model(certs), key_model(key)),
{
    match certs {
        Err(e) => Err(TlsFault::Certificate(e)),
        Ok(certs) => match key {
            Err(e) => Err(TlsFault::Key(e)),
            Ok(None) => Err(TlsFault::NoKey),
            Ok(Some(key)) => Ok(TlsIdentity { certs, key }),
        },
    }
}

/// The identity that the PEM texts of a certificate file and a key file hold.
pub fn tls_identity(cert_pem: &Vec<u8>, key_pem: &Vec<u8>) -> (r: Result<TlsIdentity, TlsFault>)
    ensures
        identity_model(r) == identity_of(pem_certs(cert_pem@), pem_key(key_pem@)),
{
    assemble_identity(read_certs(cert_pem), read_key(key_pem))
}

impl FaultModel {
    /// The fault in words; `key_path` is the key file's path as it is shown.
    pub open spec fn words(self, key_path: Seq<char>) -> Seq<char> {
        match self {
            FaultModel::Certificate(_) => "cannot parse certificate PEM"@,
            FaultModel::Key(_) => "cannot parse private key PEM"@,
            FaultModel::NoKey => "no private key found in "@ + key_path,
        }
    }

    /// The reason behind the fault.
    pub open spec fn reason(self) -> Option<Seq<char>> {
        match self {
            FaultModel::Certificate(e) => Some(e),
            FaultModel::Key(e) => Some(e),
            FaultModel::NoKey => None,
        }
    }
}

impl TlsFault {
    /// The fault in words; `key_path` is the key file's path as it is shown.
    pub fn message(&self, key_path: &str) -> (r: String)
        ensures
            r@ == self@.words(key_path@),
    {
        match self {
            TlsFault::Certificate(_) => owned("cannot parse certificate PEM"),
            TlsFault::Key(_) => owned("cannot parse private key PEM"),
            TlsFault::NoKey => concat2("no private key found in ", key_path),
        }
    }

    /// The reason behind the fault.
    pub fn cause(&self) -> (r: Option<&str>)
        ensures
            chars::opt_str(r) == self@.reason(),
    {
        match self {
            TlsFault::Certificate(e) => Some(e.as_str()),
            TlsFault::Key(e) => Some(e.as_str()),
            TlsFault::NoKey => None,
        }
    }
}

/// There is an identity exactly where both files can be parsed and the key file
/// holds a key, and it is what the files hold.
pub proof fn law_identity_is_what_the_files_hold(cert_pem: Seq<u8>, key_pem: Seq<u8>)
    ensures
        match identity_of(pem_certs(cert_pem), pem_key(key_pem)) {
            Ok(t) => {
                &&& pem_certs(cert_pem) == Ok::<Seq<Seq<u8>>, Seq<char>>(t.certs)
                &&& pem_key(key_pem) == Ok::<Option<(KeyForm, Seq<u8>)>, Seq<char>>(
                    Some((t.form, t.key)),
                )
            },
            Err(_) => pem_certs(cert_pem) is Err || pem_key(key_pem) is Err || pem_key(key_pem)
                == Ok::<Option<(KeyForm, Seq<u8>)>, Seq<char>>(None),
        },
{
}

} // verus!
