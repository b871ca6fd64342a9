//! Key parsing and the two verification paths, with keys generated on the
//! spot and public keys encoded as PEM-wrapped PKCS8 by hand.

use aias_auth_sdk::{accept_either, parse_pubkey, JsonData, KeyParseError, SignedData, VerifyError};
use rsa::PublicKeyParts;

fn der_len(n: usize) -> Vec<u8> {
    if n < 128 {
        vec![n as u8]
    } else if n < 256 {
        vec![0x81, n as u8]
    } else {
        vec![0x82, (n >> 8) as u8, (n & 0xff) as u8]
    }
}

fn der_uint(be: &[u8]) -> Vec<u8> {
    let mut body = be.to_vec();
    if body.is_empty() || body[0] >= 0x80 {
        body.insert(0, 0);
    }
    let mut out = vec![0x02];
    out.extend(der_len(body.len()));
    out.extend(body);
    out
}

fn der_seq(body: &[u8]) -> Vec<u8> {
    let mut out = vec![0x30];
    out.extend(der_len(body.len()));
    out.extend(body.to_vec());
    out
}

/// The SubjectPublicKeyInfo (PKCS8) encoding of an RSA public key.
fn spki(n_be: &[u8], e_be: &[u8]) -> Vec<u8> {
    let rsa_oid: Vec<u8> = vec![0x06, 0x09, 0x2a, 0x86, 0x48, 0x86, 0xf7, 0x0d, 0x01, 0x01, 0x01];
    let mut alg_body = rsa_oid;
    alg_body.extend(vec![0x05, 0x00]);
    let alg = der_seq(&alg_body);

    let mut pkcs1 = der_uint(n_be);
    pkcs1.extend(der_uint(e_be));
    let pkcs1_seq = der_seq(&pkcs1);

    let mut bits = vec![0x00];
    bits.extend(pkcs1_seq);
    let mut bit_string = vec![0x03];
    bit_string.extend(der_len(bits.len()));
    bit_string.extend(bits);

    let mut body = alg;
    body.extend(bit_string);
    der_seq(&body)
}

fn generate_key() -> (rsa::RSAPrivateKey, String) {
    let mut rng = rand::thread_rng();
    let key = rsa::RSAPrivateKey::new(&mut rng, 512).expect("failed to generate key");
    let der = spki(&key.n().to_bytes_be(), &key.e().to_bytes_be());
    let pem_text = pem::encode(&pem::Pem { tag: "PUBLIC KEY".to_string(), contents: der });
    (key, pem_text)
}

fn signed_envelope() -> (JsonData, rsa::RSAPrivateKey) {
    let (key, pubkey_pem) = generate_key();
    let mut json_data = JsonData {
        fair_blind_signature: "unparseable fbs blob".to_string(),
        pubkey: pubkey_pem,
        signature: String::new(),
        signed: SignedData { data: "data".to_string(), random: 10 },
    };
    let digest = json_data.hashed_data();
    let signature = key
        .sign(rsa::PaddingScheme::new_pkcs1v15_sign(Some(rsa::hash::Hash::SHA2_256)), &digest)
        .expect("failed to sign");
    json_data.signature = base64::encode(&signature);
    (json_data, key)
}

#[test]
fn should_parse_pubkey() {
    let (_, public_key) = generate_key();
    parse_pubkey(&public_key).expect("failed to parse pubkey pkcs8");
}

#[test]
fn lib_should_parse_pubkey() {
    let (_, public_key) = generate_key();
    let key = JsonData {
        fair_blind_signature: String::new(),
        pubkey: public_key,
        signature: String::new(),
        signed: SignedData { data: String::new(), random: 0 },
    }
    .public_key();
    assert!(key.is_ok());
}

#[test]
fn should_verify_signature() {
    let (json_data, _) = signed_envelope();

    assert!(json_data.verify_signature());
}

#[test]
fn lib_should_verify_signature() {
    let (json_data, _) = signed_envelope();

    let reparsed = JsonData::from_str(&json_data.to_json()).expect("failed to parse");

    assert!(reparsed.verify_signature());
}

#[test]
fn verify_signature_rejects_other_key() {
    let (mut json_data, _) = signed_envelope();
    let (_, other_pubkey) = generate_key();
    json_data.pubkey = other_pubkey;

    assert!(!json_data.verify_signature());
}

#[test]
fn verify_signature_rejects_tampered_payload() {
    let (valid, _) = signed_envelope();

    let mut wrong_random = valid.clone();
    wrong_random.signed.random = 11;
    assert!(!wrong_random.verify_signature());

    let mut wrong_data = valid.clone();
    wrong_data.signed.data = "Data".to_string();
    assert!(!wrong_data.verify_signature());

    assert!(valid.verify_signature());
}

#[test]
fn verify_signature_rejects_garbage_signature_text() {
    let (mut json_data, _) = signed_envelope();
    json_data.signature = "hogehoge".to_string();

    assert!(!json_data.verify_signature());
}

#[test]
fn fails_closed_on_malformed_key() {
    let (mut json_data, _) = signed_envelope();
    json_data.pubkey = "hogehoge".to_string();

    assert!(!json_data.verify_signature());
    assert_eq!(json_data.verify_signature_checked(), Err(VerifyError::KeyParse));
    assert!(!json_data.verify_any_with(false));
}

#[test]
fn signature_decode_failure_is_reported() {
    let (mut json_data, _) = signed_envelope();
    json_data.signature = "%%% not base64 %%%".to_string();

    assert_eq!(json_data.verify_signature_checked(), Err(VerifyError::SignatureDecode));
    assert!(!json_data.verify_signature());
}

#[test]
fn parse_pubkey_names_the_failing_step() {
    assert_eq!(parse_pubkey("no pem here").unwrap_err(), KeyParseError::Pem);

    let junk = pem::encode(&pem::Pem { tag: "PUBLIC KEY".to_string(), contents: vec![1, 2, 3] });
    assert_eq!(parse_pubkey(&junk).unwrap_err(), KeyParseError::Pkcs8);
}

#[test]
fn verify_any_accepts_fbs_verdict_alone() {
    let (mut json_data, _) = signed_envelope();
    json_data.signature = "hogehoge".to_string();

    assert!(!json_data.verify_signature());
    assert!(json_data.verify_any_with(true));
    assert!(!json_data.verify_any_with(false));
}

#[test]
fn verify_any_accepts_direct_signature_alone() {
    let (json_data, _) = signed_envelope();

    assert!(json_data.verify_any_with(false));
    assert!(json_data.verify_any_with(true));
}

#[test]
fn verify_any_equals_the_or_of_the_schemes() {
    let (valid, _) = signed_envelope();
    let (mut garbage, _) = signed_envelope();
    garbage.pubkey = "not a key".to_string();

    for envelope in [&valid, &garbage] {
        for fbs in [false, true] {
            assert_eq!(envelope.verify_any_with(fbs), fbs || envelope.verify_signature());
        }
    }
}

#[test]
fn verify_signature_is_deterministic() {
    let (json_data, _) = signed_envelope();

    assert_eq!(json_data.verify_signature(), json_data.verify_signature());
    assert_eq!(json_data.verify_signature_checked(), json_data.verify_signature_checked());
}

#[test]
fn accept_either_is_the_logical_or() {
    assert!(!accept_either(false, false));
    assert!(accept_either(true, false));
    assert!(accept_either(false, true));
    assert!(accept_either(true, true));
}

#[test]
fn malformed_inputs_never_panic() {
    for text in [
        "",
        "null",
        "{",
        "{\"signed\":}",
        "\u{0000}",
        "{\"fair_blind_signature\":\"f\",\"pubkey\":\"p\",\"signature\":\"s\",\"signed\":{\"data\":\"d\",\"random\":1}}",
    ] {
        if let Ok(json_data) = JsonData::from_str(text) {
            let accepted = json_data.verify_any_with(false);
            assert!(!accepted);
        }
    }
}
