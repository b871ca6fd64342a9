//! Public-key handling: PEM unwrapping, PKCS8 parsing, and the RSA
//! PKCS#1 v1.5 / SHA-256 signature check, each behind a narrow trusted
//! wrapper.  A key that fails to parse is an error, never a panic, so
//! every caller can fail closed.

use vstd::prelude::*;

use rsa::PublicKey;

verus! {

#[verifier::external_type_specification]
#[verifier::external_body]
pub struct ExRSAPublicKey(rsa::RSAPublicKey);

/// What pem::parse returns for this text: the decoded contents of the
/// first PEM block, or nothing when the text is not PEM.
pub uninterp spec fn pem_decode(s: Seq<char>) -> Option<Seq<u8>>;

/// Whether RSAPublicKey::from_pkcs8 accepts these DER bytes.
pub uninterp spec fn pkcs8_rsa_ok(der: Seq<u8>) -> bool;

/// A well-formed public key text: PEM that wraps DER bytes accepted as a
/// PKCS8 RSA public key.
pub open spec fn pubkey_wf(s: Seq<char>) -> bool {
    match pem_decode(s) {
        Some(der) => pkcs8_rsa_ok(der),
        None => false,
    }
}

/// Why a public key text was rejected.
#[derive(Clone, Copy, Debug, PartialEq, Eq)]
pub enum KeyParseError {
    /// The text is not a PEM block.
    Pem,
    /// The PEM contents are not a PKCS8 RSA public key.
    Pkcs8,
}

/// Relies on pem::parse: it returns the contents of the first PEM block
/// of the text, and an error when the text holds none.
#[verifier::external_body]
fn pem_parse(s: &str) -> (r: Option<Vec<u8>>)
    ensures
        pem_decode(s@) is None ==> r is None,
        pem_decode(s@) is Some ==> r is Some && r->Some_0@ == pem_decode(s@)->Some_0,
{
    match pem::parse(s) {
        Ok(p) => Some(p.contents),
        Err(_) => None,
    }
}

/// Relies on RSAPublicKey::from_pkcs8: it returns a key exactly when the
/// DER bytes encode a PKCS8 RSA public key.
#[verifier::external_body]
fn pkcs8_parse(der: &Vec<u8>) -> (r: Option<rsa::RSAPublicKey>)
    ensures
        r is Some <==> pkcs8_rsa_ok(der@),
{
    rsa::RSAPublicKey::from_pkcs8(der).ok()
}

/// Whether RSA PKCS#1 v1.5 verification with SHA-256 accepts the
/// signature bytes over the digest, under the key that these DER bytes
/// encode.  Named only: the outcome is `sig^e mod n` compared against the
/// padded digest, a fixed function of the three byte strings.
pub uninterp spec fn rsa_pkcs1v15_sha256_ok(der: Seq<u8>, digest: Seq<u8>, sig: Seq<u8>) -> bool;

/// Relies on RSAPublicKey::from_pkcs8 and RSAPublicKey::verify with
/// PKCS#1 v1.5 padding and SHA-256: both are deterministic functions of
/// their byte inputs, so the verdict is a function of the DER bytes, the
/// digest and the signature bytes alone.  DER bytes that encode no key
/// count as rejection.
#[verifier::external_body]
pub(crate) fn rsa_verify_sha256(der: &Vec<u8>, digest: &[u8], sig: &[u8]) -> (r: bool)
    ensures
        r == rsa_pkcs1v15_sha256_ok(der@, digest@, sig@),
{
    match rsa::RSAPublicKey::from_pkcs8(der) {
        Ok(key) => key.verify(
            rsa::PaddingScheme::PKCS1v15Sign { hash: Some(rsa::hash::Hash::SHA2_256) },
            digest,
            sig,
        ).is_ok(),
        Err(_) => false,
    }
}

/// The DER contents of a public key text, kept only when they encode a
/// PKCS8 RSA public key; the error says which step rejected the text.
pub(crate) fn parse_pubkey_der(data: &str) -> (r: Result<Vec<u8>, KeyParseError>)
    ensures
        r is Ok <==> pubkey_wf(data@),
        r is Ok ==> r->Ok_0@ == pem_decode(data@)->Some_0,
        r == Err::<Vec<u8>, KeyParseError>(KeyParseError::Pem) <==> pem_decode(data@) is None,
        r == Err::<Vec<u8>, KeyParseError>(KeyParseError::Pkcs8) <==> (pem_decode(data@) is Some
            && !pkcs8_rsa_ok(pem_decode(data@)->Some_0)),
{
    match pem_parse(data) {
        None => Err(KeyParseError::Pem),
        Some(der) => match pkcs8_parse(&der) {
            None => Err(KeyParseError::Pkcs8),
            Some(_) => Ok(der),
        },
    }
}

/// Parses a public key from PEM-wrapped PKCS8 text, saying exactly which
/// step rejected it.
pub fn parse_pubkey(data: &str) -> (r: Result<rsa::RSAPublicKey, KeyParseError>)
    ensures
        r is Ok <==> pubkey_wf(data@),
        r == Err::<rsa::RSAPublicKey, KeyParseError>(KeyParseError::Pem) <==> pem_decode(data@) is None,
        r == Err::<rsa::RSAPublicKey, KeyParseError>(KeyParseError::Pkcs8) <==> (pem_decode(data@) is Some
            && !pkcs8_rsa_ok(pem_decode(data@)->Some_0)),
{
    match pem_parse(data) {
        None => Err(KeyParseError::Pem),
        Some(der) => match pkcs8_parse(&der) {
            None => Err(KeyParseError::Pkcs8),
            Some(key) => Ok(key),
        },
    }
}

} // verus!
