//! The envelope itself, and the two verification schemes over it.
//!
//! `verify_signature` checks the direct RSA signature over the canonical
//! message and fails closed on every malformed input.  The fair-blind
//! scheme lives outside this crate; its verdict enters `verify_any_with`
//! as a plain boolean, and acceptance is the logical OR of the two
//! schemes.

use vstd::prelude::*;

use crate::canon::{b64_decode, b64_decode_text, canon_text, hash_sha256, sha256_of_text};
use crate::json::{
    env_chars_view, p_envelope, ser_chars, ser_envelope, sp_parse, str_chars, string_from_chars,
    EnvelopeModel, SignedModel,
};
use crate::keys::{
    parse_pubkey, parse_pubkey_der, pem_decode, pubkey_wf, rsa_pkcs1v15_sha256_ok,
    rsa_verify_sha256, KeyParseError,
};

verus! {

/// The signed payload: arbitrary data and a 32-bit random value bound
/// into the canonical message.
#[derive(Clone, Debug, PartialEq, Eq)]
pub struct SignedData {
    pub data: String,
    pub random: u32,
}

/// One envelope: a fair-blind signature text, the claimed signer's public
/// key (PEM), a base64 direct signature, and the signed payload.
#[derive(Clone, Debug, PartialEq, Eq)]
pub struct JsonData {
    pub fair_blind_signature: String,
    pub pubkey: String,
    pub signature: String,
    pub signed: SignedData,
}

impl View for SignedData {
    type V = SignedModel;

    open spec fn view(&self) -> SignedModel {
        SignedModel { data: self.data@, random: self.random }
    }
}

impl View for JsonData {
    type V = EnvelopeModel;

    open spec fn view(&self) -> EnvelopeModel {
        EnvelopeModel {
            fair_blind_signature: self.fair_blind_signature@,
            pubkey: self.pubkey@,
            signature: self.signature@,
            signed: self.signed@,
        }
    }
}

/// The envelope text could not be parsed.
#[derive(Clone, Copy, Debug, PartialEq, Eq)]
pub struct ParseError;

/// Which step rejected the direct-signature check before the
/// cryptographic comparison was reached.
#[derive(Clone, Copy, Debug, PartialEq, Eq)]
pub enum VerifyError {
    /// The envelope's public key is not PEM-wrapped PKCS8 RSA.
    KeyParse,
    /// The envelope's signature is not valid base64.
    SignatureDecode,
}

/// The direct-signature verdict of an envelope: its public key text
/// encodes an RSA key, its signature field is valid base64, and RSA
/// PKCS#1 v1.5 / SHA-256 accepts the decoded bytes over the digest of
/// the canonical message.
pub open spec fn signature_accepted(m: EnvelopeModel) -> bool {
    &&& pubkey_wf(m.pubkey)
    &&& b64_decode(m.signature) is Some
    &&& rsa_pkcs1v15_sha256_ok(
        pem_decode(m.pubkey)->Some_0,
        sha256_of_text(canon_text(m.signed.data, m.signed.random)),
        b64_decode(m.signature)->Some_0,
    )
}

/// Acceptance under two schemes is their logical OR: accepted exactly
/// when at least one verdict is true.
pub fn accept_either(fbs_valid: bool, signature_valid: bool) -> (r: bool)
    ensures
        r == (fbs_valid || signature_valid),
{
    fbs_valid || signature_valid
}

impl SignedData {
    /// The canonical message for this payload, exactly
    /// `base64(data) + "." + decimal(random)`.
    pub fn canonical(&self) -> (r: String)
        ensures
            r@ == canon_text(self.data@, self.random),
    {
        crate::canon::canonical_chars(self.data.as_str(), self.random)
    }
}

impl JsonData {
    /// Parses an envelope from interchange text, accepting exactly the
    /// texts of the envelope grammar.
    pub fn from_str(data: &str) -> (r: Result<JsonData, ParseError>)
        ensures
            r is Ok <==> sp_parse(data@) is Some,
            r is Ok ==> r->Ok_0@ == sp_parse(data@)->Some_0,
    {
        let cs = str_chars(data);
        match p_envelope(cs.as_slice()) {
            None => Err(ParseError),
            Some(e) => {
                let jd = JsonData {
                    fair_blind_signature: string_from_chars(&e.fbs),
                    pubkey: string_from_chars(&e.pubkey),
                    signature: string_from_chars(&e.signature),
                    signed: SignedData { data: string_from_chars(&e.data), random: e.random },
                };
                proof {
                    assert(jd@ =~= env_chars_view(e));
                }
                Ok(jd)
            },
        }
    }

    /// Serializes the envelope; `from_str` reads it back unchanged.
    pub fn to_json(&self) -> (r: String)
        ensures
            r@ == ser_envelope(self@),
    {
        let f = str_chars(self.fair_blind_signature.as_str());
        let p = str_chars(self.pubkey.as_str());
        let g = str_chars(self.signature.as_str());
        let d = str_chars(self.signed.data.as_str());
        let v = ser_chars(f.as_slice(), p.as_slice(), g.as_slice(), d.as_slice(), self.signed.random);
        proof {
            assert(EnvelopeModel {
                fair_blind_signature: f@,
                pubkey: p@,
                signature: g@,
                signed: SignedModel { data: d@, random: self.signed.random },
            } =~= self@);
        }
        string_from_chars(&v)
    }

    /// The SHA-256 digest of the canonical message of this envelope's
    /// payload.
    pub fn hashed_data(&self) -> (r: Vec<u8>)
        ensures
            r@ == sha256_of_text(canon_text(self.signed.data@, self.signed.random)),
            r@.len() == 32,
    {
        let c = self.signed.canonical();
        hash_sha256(c.as_str())
    }

    /// The envelope's public key, parsed; an error tells which encoding
    /// step rejected it.
    pub fn public_key(&self) -> (r: Result<rsa::RSAPublicKey, KeyParseError>)
        ensures
            r is Ok <==> pubkey_wf(self.pubkey@),
    {
        parse_pubkey(self.pubkey.as_str())
    }

    /// The direct-signature check with its failure reason: an error names
    /// the step that rejected the input, and `Ok` carries the outcome of
    /// the RSA comparison itself.
    pub fn verify_signature_checked(&self) -> (r: Result<bool, VerifyError>)
        ensures
            r == Err::<bool, VerifyError>(VerifyError::KeyParse) <==> !pubkey_wf(self.pubkey@),
            r == Err::<bool, VerifyError>(VerifyError::SignatureDecode) <==> (pubkey_wf(self.pubkey@)
                && b64_decode(self.signature@) is None),
            r is Ok <==> (pubkey_wf(self.pubkey@) && b64_decode(self.signature@) is Some),
            r is Ok ==> r->Ok_0 == signature_accepted(self@),
    {
        let der = match parse_pubkey_der(self.pubkey.as_str()) {
            Ok(d) => d,
            Err(_) => {
                return Err(VerifyError::KeyParse);
            },
        };
        let digest = self.hashed_data();
        let sig = match b64_decode_text(self.signature.as_str()) {
            Some(s) => s,
            None => {
                return Err(VerifyError::SignatureDecode);
            },
        };
        Ok(rsa_verify_sha256(&der, digest.as_slice(), sig.as_slice()))
    }

    /// The direct-signature check, failing closed: `true` exactly when the
    /// key parses, the signature field decodes, and RSA accepts; every
    /// malformed input yields `false`, never a panic.
    pub fn verify_signature(&self) -> (r: bool)
        ensures
            r == signature_accepted(self@),
    {
        match self.verify_signature_checked() {
            Ok(b) => b,
            Err(_) => false,
        }
    }

    /// Acceptance under either scheme: the fair-blind verdict, computed
    /// outside, OR the direct-signature check.  Both checks are evaluated;
    /// the result is `true` exactly when at least one accepts.
    pub fn verify_any_with(&self, fbs_valid: bool) -> (r: bool)
        ensures
            r == (fbs_valid || signature_accepted(self@)),
    {
        let sig_ok = self.verify_signature();
        accept_either(fbs_valid, sig_ok)
    }
}

} // verus!
