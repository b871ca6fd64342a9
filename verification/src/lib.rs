//! Verification of signed-data envelopes.
//!
//! An envelope carries a fair-blind signature text, the claimed signer's
//! public key (PEM), a base64-encoded direct signature, and the signed
//! payload (a data string and a 32-bit random value).  The library parses
//! and serializes envelopes, reconstructs the canonical message bytes
//! that were signed, and checks the direct RSA signature over them,
//! failing closed on every malformed input.  The fair-blind scheme is an
//! outside primitive; its verdict enters the facade as a plain boolean
//! and acceptance is the OR of the two schemes.

pub mod canon;
pub mod envelope;
pub mod json;
pub mod keys;
pub mod numeral;

pub use canon::hash_sha256;
pub use envelope::{accept_either, JsonData, ParseError, SignedData, VerifyError};
pub use keys::{parse_pubkey, KeyParseError};
