//! Envelope codec: round trips, the grammar's freedoms, and its rejections.

use aias_auth_sdk::{JsonData, SignedData};
use sha2::Digest;

fn sample() -> JsonData {
    JsonData {
        fair_blind_signature: "fair blind signature".to_string(),
        pubkey: "public key".to_string(),
        signature: "signature".to_string(),
        signed: SignedData { data: "data".to_string(), random: 10 },
    }
}

#[test]
fn should_parse_json() {
    let json_data = sample();

    let data = json_data.to_json();

    let parsed = JsonData::from_str(&data).expect("failed to parse");

    assert_eq!(json_data, parsed);
}

#[test]
fn lib_should_parse_json() {
    let text = "{\"fair_blind_signature\": \"fbs blob\", \"pubkey\": \"some pem\", \"signature\": \"c2ln\", \"signed\": {\"data\": \"data\", \"random\": 10}}";

    let parsed = JsonData::from_str(text).expect("failed to parse");

    assert_eq!(parsed.fair_blind_signature, "fbs blob");
    assert_eq!(parsed.pubkey, "some pem");
    assert_eq!(parsed.signature, "c2ln");
    assert_eq!(parsed.signed.data, "data");
    assert_eq!(parsed.signed.random, 10);
}

#[test]
fn round_trip_keeps_escapes_and_unicode() {
    let tricky = "quote\" backslash\\ slash/ newline\n tab\t ctrl\u{0001} kana\u{3042} astral\u{1F600}";
    let json_data = JsonData {
        fair_blind_signature: tricky.to_string(),
        pubkey: "-----BEGIN PUBLIC KEY-----\nabc\n-----END PUBLIC KEY-----\n".to_string(),
        signature: String::new(),
        signed: SignedData { data: tricky.to_string(), random: 0 },
    };

    let text = json_data.to_json();
    let parsed = JsonData::from_str(&text).expect("failed to parse");

    assert_eq!(json_data, parsed);
}

#[test]
fn round_trip_keeps_max_random() {
    let mut json_data = sample();
    json_data.signed.random = u32::MAX;

    let parsed = JsonData::from_str(&json_data.to_json()).expect("failed to parse");

    assert_eq!(parsed.signed.random, u32::MAX);
}

#[test]
fn parse_accepts_reordering_whitespace_and_unknown_members() {
    let text = "  {\n  \"extra\": [1, {\"deep\": \"}]\"}, null],\n  \"signed\": { \"random\": 42, \"note\": \"ignored, even with } inside\", \"data\": \"d\" },\n  \"signature\": \"s\",\n  \"pubkey\": \"p\",\n  \"other\": -12.5e3,\n  \"fair_blind_signature\": \"f\"\n}  \n";

    let parsed = JsonData::from_str(text).expect("failed to parse");

    assert_eq!(parsed.fair_blind_signature, "f");
    assert_eq!(parsed.pubkey, "p");
    assert_eq!(parsed.signature, "s");
    assert_eq!(parsed.signed.data, "d");
    assert_eq!(parsed.signed.random, 42);
}

#[test]
fn parse_decodes_escape_sequences() {
    let text = "{\"fair_blind_signature\":\"\\u0041\\n\\t\\\"\\\\\\/\",\"pubkey\":\"p\",\"signature\":\"s\",\"signed\":{\"data\":\"\\u00e9\",\"random\":1}}";

    let parsed = JsonData::from_str(text).expect("failed to parse");

    assert_eq!(parsed.fair_blind_signature, "A\n\t\"\\/");
    assert_eq!(parsed.signed.data, "\u{00e9}");
}

#[test]
fn parse_combines_surrogate_pairs() {
    let text = "{\"fair_blind_signature\":\"\\uD83D\\uDE00\",\"pubkey\":\"p\",\"signature\":\"s\",\"signed\":{\"data\":\"\\ud83d\\ude00!\",\"random\":1}}";

    let parsed = JsonData::from_str(text).expect("failed to parse");

    assert_eq!(parsed.fair_blind_signature, "\u{1F600}");
    assert_eq!(parsed.signed.data, "\u{1F600}!");
}

#[test]
fn parse_rejects_lone_surrogates() {
    let lone_high = "{\"fair_blind_signature\":\"\\uD83D\",\"pubkey\":\"p\",\"signature\":\"s\",\"signed\":{\"data\":\"d\",\"random\":1}}";
    assert!(JsonData::from_str(lone_high).is_err());

    let lone_low = "{\"fair_blind_signature\":\"\\uDE00\",\"pubkey\":\"p\",\"signature\":\"s\",\"signed\":{\"data\":\"d\",\"random\":1}}";
    assert!(JsonData::from_str(lone_low).is_err());

    let high_then_ordinary = "{\"fair_blind_signature\":\"\\uD83D\\u0041\",\"pubkey\":\"p\",\"signature\":\"s\",\"signed\":{\"data\":\"d\",\"random\":1}}";
    assert!(JsonData::from_str(high_then_ordinary).is_err());
}

#[test]
fn parse_rejects_missing_member() {
    let text = "{\"pubkey\":\"p\",\"signature\":\"s\",\"signed\":{\"data\":\"d\",\"random\":1}}";
    assert!(JsonData::from_str(text).is_err());
}

#[test]
fn parse_rejects_duplicate_member() {
    let text = "{\"fair_blind_signature\":\"f\",\"pubkey\":\"p\",\"pubkey\":\"q\",\"signature\":\"s\",\"signed\":{\"data\":\"d\",\"random\":1}}";
    assert!(JsonData::from_str(text).is_err());
}

#[test]
fn parse_rejects_wrongly_typed_random() {
    let text = "{\"fair_blind_signature\":\"f\",\"pubkey\":\"p\",\"signature\":\"s\",\"signed\":{\"data\":\"d\",\"random\":\"10\"}}";
    assert!(JsonData::from_str(text).is_err());
}

#[test]
fn parse_rejects_random_out_of_range() {
    let over = "{\"fair_blind_signature\":\"f\",\"pubkey\":\"p\",\"signature\":\"s\",\"signed\":{\"data\":\"d\",\"random\":4294967296}}";
    assert!(JsonData::from_str(over).is_err());

    let max = "{\"fair_blind_signature\":\"f\",\"pubkey\":\"p\",\"signature\":\"s\",\"signed\":{\"data\":\"d\",\"random\":4294967295}}";
    assert_eq!(JsonData::from_str(max).expect("failed to parse").signed.random, u32::MAX);
}

#[test]
fn parse_rejects_leading_zero_and_negative_random() {
    let zeros = "{\"fair_blind_signature\":\"f\",\"pubkey\":\"p\",\"signature\":\"s\",\"signed\":{\"data\":\"d\",\"random\":007}}";
    assert!(JsonData::from_str(zeros).is_err());

    let negative = "{\"fair_blind_signature\":\"f\",\"pubkey\":\"p\",\"signature\":\"s\",\"signed\":{\"data\":\"d\",\"random\":-1}}";
    assert!(JsonData::from_str(negative).is_err());
}

#[test]
fn parse_rejects_trailing_text_and_malformed_json() {
    let trailing = "{\"fair_blind_signature\":\"f\",\"pubkey\":\"p\",\"signature\":\"s\",\"signed\":{\"data\":\"d\",\"random\":1}} x";
    assert!(JsonData::from_str(trailing).is_err());

    assert!(JsonData::from_str("").is_err());
    assert!(JsonData::from_str("not json at all").is_err());
    assert!(JsonData::from_str("{\"fair_blind_signature\":\"unterminated").is_err());
    assert!(JsonData::from_str("{\"fair_blind_signature\":\"bad \\x escape\",\"pubkey\":\"p\",\"signature\":\"s\",\"signed\":{\"data\":\"d\",\"random\":1}}").is_err());
}

#[test]
fn serialized_form_is_json_for_other_readers() {
    let json_data = JsonData {
        fair_blind_signature: "with \"quotes\" and \\ and \u{0002}".to_string(),
        pubkey: "p".to_string(),
        signature: "s".to_string(),
        signed: SignedData { data: "d\n".to_string(), random: 7 },
    };

    let value: serde_json::Value = serde_json::from_str(&json_data.to_json()).expect("not JSON");

    assert_eq!(
        value.get("fair_blind_signature").unwrap().as_str().unwrap(),
        "with \"quotes\" and \\ and \u{0002}",
    );
    assert_eq!(value.get("signed").unwrap().get("data").unwrap().as_str().unwrap(), "d\n");
    assert_eq!(value.get("signed").unwrap().get("random").unwrap().as_u64().unwrap(), 7);
}

#[test]
fn canonical_message_exact_value() {
    let signed = SignedData { data: "data".to_string(), random: 10 };

    assert_eq!(signed.canonical(), "ZGF0YQ==.10");
}

#[test]
fn canonical_message_differs_for_different_random() {
    let a = SignedData { data: "data".to_string(), random: 10 };
    let b = SignedData { data: "data".to_string(), random: 11 };

    assert_eq!(a.canonical(), a.canonical());
    assert_ne!(a.canonical(), b.canonical());
}

#[test]
fn hashed_data_is_sha256_of_canonical_message() {
    let json_data = sample();

    let expected = sha2::Sha256::digest("ZGF0YQ==.10".as_bytes()).to_vec();

    assert_eq!(json_data.hashed_data(), expected);
}
