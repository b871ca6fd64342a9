//! The canonical message: the exact bytes that were signed, reconstructed
//! from the payload as `base64(data) + "." + decimal(random)`, and the
//! SHA-256 digest taken over them.

use vstd::prelude::*;

use sha2::Digest;

use crate::numeral::{dec, lemma_dec_injective};

verus! {

/// What base64::encode returns for the UTF-8 bytes of this text.  Named
/// only: it is a fixed function of the characters alone.
pub uninterp spec fn b64_of_text(s: Seq<char>) -> Seq<char>;

/// What SHA-256 returns for the UTF-8 bytes of this text.  Named only: it
/// is a fixed function of the characters alone.
pub uninterp spec fn sha256_of_text(s: Seq<char>) -> Seq<u8>;

/// Relies on base64::encode (standard alphabet, with padding) over the
/// string's UTF-8 bytes: the result depends on the characters alone.
#[verifier::external_body]
fn b64_encode(s: &str) -> (r: String)
    ensures
        r@ == b64_of_text(s@),
{
    base64::encode(s)
}

/// Relies on sha2::Sha256 over the string's UTF-8 bytes: the digest
/// depends on the characters alone and is always 32 bytes long.
#[verifier::external_body]
pub fn hash_sha256(m: &str) -> (r: Vec<u8>)
    ensures
        r@ == sha256_of_text(m@),
        r@.len() == 32,
{
    let mut hasher = sha2::Sha256::new();
    hasher.update(m.as_bytes());
    hasher.finalize().to_vec()
}

/// What base64::decode returns for this text: the decoded bytes, or
/// nothing when the text is not valid base64.
pub uninterp spec fn b64_decode(s: Seq<char>) -> Option<Seq<u8>>;

/// Relies on base64::decode (standard alphabet, with padding): it decodes
/// exactly the well-formed base64 texts, to bytes fixed by the text.
#[verifier::external_body]
pub(crate) fn b64_decode_text(s: &str) -> (r: Option<Vec<u8>>)
    ensures
        b64_decode(s@) is None ==> r is None,
        b64_decode(s@) is Some ==> r is Some && r->Some_0@ == b64_decode(s@)->Some_0,
{
    match base64::decode(s) {
        Ok(v) => Some(v),
        Err(_) => None,
    }
}

/// The canonical message for a payload: base64 of the data, a literal
/// dot, and the decimal form of the random value.
pub open spec fn canon_text(data: Seq<char>, random: u32) -> Seq<char> {
    b64_of_text(data) + seq!['.'] + dec(random as nat)
}

/// Builds the canonical message for a payload given as plain parts.
pub fn canonical_chars(data: &str, random: u32) -> (r: String)
    ensures
        r@ == canon_text(data@, random),
{
    let b = b64_encode(data);
    let mut v = crate::json::str_chars(b.as_str());
    v.push('.');
    crate::numeral::push_dec(random, &mut v);
    proof {
        assert(v@ =~= canon_text(data@, random));
    }
    crate::json::string_from_chars(&v)
}

/// Canonicalization separates the random value: payloads with the same
/// data but different random values canonicalize to different messages.
pub proof fn lemma_canon_distinct_random(data: Seq<char>, r1: u32, r2: u32)
    requires
        r1 != r2,
    ensures
        canon_text(data, r1) != canon_text(data, r2),
{
    let k = b64_of_text(data).len() as int + 1;
    if canon_text(data, r1) == canon_text(data, r2) {
        assert(canon_text(data, r1).skip(k) =~= dec(r1 as nat));
        assert(canon_text(data, r2).skip(k) =~= dec(r2 as nat));
        lemma_dec_injective(r1 as nat, r2 as nat);
    }
}

} // verus!
