//! The envelope interchange format: a JSON object with the four envelope
//! members, `signed` itself an object with `data` and `random`.
//!
//! `sp_parse` is the grammar: members may come in any order, surrounded by
//! any whitespace; members other than the required ones are skipped by
//! bracket matching and ignored; a missing or duplicated required member, a
//! wrongly typed value, or trailing text fails the whole parse.  String
//! values know the JSON escapes, including `\uXXXX` for scalar code points
//! and surrogate pairs for astral ones (a lone surrogate is rejected).  `ser_envelope` is the serializer: a fixed
//! member order, no added whitespace, `"` and `\` escaped by name and
//! control characters as `\u00XX`.  Parsing undoes serializing exactly
//! (`lemma_parse_of_serialize`).

use vstd::prelude::*;

use crate::numeral::{dec, is_digit, sp_number, lemma_number_round_trip, parse_number};

verus! {

// ------------------------------------------------------------------
// The mathematical model of an envelope
// ------------------------------------------------------------------

/// The payload whose bytes are signed: arbitrary text and a 32-bit value.
#[verifier::ext_equal]
pub ghost struct SignedModel {
    pub data: Seq<char>,
    pub random: u32,
}

/// What an envelope says: the three signature/key strings and the payload.
#[verifier::ext_equal]
pub ghost struct EnvelopeModel {
    pub fair_blind_signature: Seq<char>,
    pub pubkey: Seq<char>,
    pub signature: Seq<char>,
    pub signed: SignedModel,
}

// ------------------------------------------------------------------
// Member names
// ------------------------------------------------------------------

pub open spec fn key_fbs() -> Seq<char> {
    seq!['f', 'a', 'i', 'r', '_', 'b', 'l', 'i', 'n', 'd', '_', 's', 'i', 'g', 'n', 'a', 't', 'u', 'r', 'e']
}

pub open spec fn key_pubkey() -> Seq<char> {
    seq!['p', 'u', 'b', 'k', 'e', 'y']
}

pub open spec fn key_signature() -> Seq<char> {
    seq!['s', 'i', 'g', 'n', 'a', 't', 'u', 'r', 'e']
}

pub open spec fn key_signed() -> Seq<char> {
    seq!['s', 'i', 'g', 'n', 'e', 'd']
}

pub open spec fn key_data() -> Seq<char> {
    seq!['d', 'a', 't', 'a']
}

pub open spec fn key_random() -> Seq<char> {
    seq!['r', 'a', 'n', 'd', 'o', 'm']
}

// ------------------------------------------------------------------
// Escaping
// ------------------------------------------------------------------

pub open spec fn hex_digit(d: nat) -> char {
    if d == 0 {
        '0'
    } else if d == 1 {
        '1'
    } else if d == 2 {
        '2'
    } else if d == 3 {
        '3'
    } else if d == 4 {
        '4'
    } else if d == 5 {
        '5'
    } else if d == 6 {
        '6'
    } else if d == 7 {
        '7'
    } else if d == 8 {
        '8'
    } else if d == 9 {
        '9'
    } else if d == 10 {
        'a'
    } else if d == 11 {
        'b'
    } else if d == 12 {
        'c'
    } else if d == 13 {
        'd'
    } else if d == 14 {
        'e'
    } else {
        'f'
    }
}

/// A character that is written as itself inside a JSON string.
pub open spec fn is_plain(c: char) -> bool {
    c != '"' && c != '\\' && c as u32 >= 0x20
}

/// How one character is written inside a serialized JSON string.
pub open spec fn esc_char(c: char) -> Seq<char> {
    if c == '"' {
        seq!['\\', '"']
    } else if c == '\\' {
        seq!['\\', '\\']
    } else if c as u32 >= 0x20 {
        seq![c]
    } else {
        seq!['\\', 'u', '0', '0', hex_digit((c as u32 / 16) as nat), hex_digit((c as u32 % 16) as nat)]
    }
}

pub open spec fn esc(s: Seq<char>) -> Seq<char>
    decreases s.len(),
{
    if s.len() == 0 {
        Seq::empty()
    } else {
        esc_char(s[0]) + esc(s.drop_first())
    }
}

/// A string value as serialized: quoted and escaped.
pub open spec fn quoted(s: Seq<char>) -> Seq<char> {
    seq!['"'] + esc(s) + seq!['"']
}

// ------------------------------------------------------------------
// Serialization
// ------------------------------------------------------------------

pub open spec fn ser_signed(p: SignedModel) -> Seq<char> {
    seq!['{'] + quoted(key_data()) + seq![':'] + quoted(p.data) + seq![','] + quoted(key_random())
        + seq![':'] + dec(p.random as nat) + seq!['}']
}

pub open spec fn ser_envelope(m: EnvelopeModel) -> Seq<char> {
    seq!['{'] + quoted(key_fbs()) + seq![':'] + quoted(m.fair_blind_signature) + seq![',']
        + quoted(key_pubkey()) + seq![':'] + quoted(m.pubkey) + seq![','] + quoted(key_signature())
        + seq![':'] + quoted(m.signature) + seq![','] + quoted(key_signed()) + seq![':']
        + ser_signed(m.signed) + seq!['}']
}

// ------------------------------------------------------------------
// Parsing: whitespace, strings, ignored values
// ------------------------------------------------------------------

pub open spec fn is_ws(c: char) -> bool {
    c == ' ' || c == '\t' || c == '\n' || c == '\r'
}

pub open spec fn skip_ws(s: Seq<char>) -> Seq<char>
    decreases s.len(),
{
    if s.len() > 0 && is_ws(s[0]) {
        skip_ws(s.drop_first())
    } else {
        s
    }
}

pub open spec fn unhex(c: char) -> Option<nat> {
    if is_digit(c) {
        Some((c as u32 - 0x30) as nat)
    } else if 0x61 <= c as u32 <= 0x66 {
        Some((c as u32 - 0x61 + 10) as nat)
    } else if 0x41 <= c as u32 <= 0x46 {
        Some((c as u32 - 0x41 + 10) as nat)
    } else {
        None
    }
}

pub open spec fn hex4_val(a: char, b: char, c: char, d: char) -> Option<u32> {
    match (unhex(a), unhex(b), unhex(c), unhex(d)) {
        (Some(x), Some(y), Some(z), Some(w)) => Some((4096 * x + 256 * y + 16 * z + w) as u32),
        _ => None,
    }
}

/// The code point that a JSON surrogate pair stands for.
pub open spec fn combine_surrogates(hi: u32, lo: u32) -> u32 {
    (0x10000 + (hi - 0xD800) * 0x400 + (lo - 0xDC00)) as u32
}

pub open spec fn with_head(c: char, r: Option<(Seq<char>, Seq<char>)>) -> Option<(Seq<char>, Seq<char>)> {
    match r {
        Some(p) => Some((seq![c] + p.0, p.1)),
        None => None,
    }
}

/// The body of a JSON string, after its opening quote: the decoded content
/// and what follows the closing quote.
pub open spec fn sp_string_body(s: Seq<char>) -> Option<(Seq<char>, Seq<char>)>
    decreases s.len(),
{
    if s.len() == 0 {
        None
    } else if s[0] == '"' {
        Some((Seq::empty(), s.drop_first()))
    } else if s[0] == '\\' {
        if s.len() < 2 {
            None
        } else {
            let e = s[1];
            if e == '"' || e == '\\' || e == '/' {
                with_head(e, sp_string_body(s.skip(2)))
            } else if e == 'b' {
                with_head('\u{0008}', sp_string_body(s.skip(2)))
            } else if e == 'f' {
                with_head('\u{000C}', sp_string_body(s.skip(2)))
            } else if e == 'n' {
                with_head('\n', sp_string_body(s.skip(2)))
            } else if e == 'r' {
                with_head('\r', sp_string_body(s.skip(2)))
            } else if e == 't' {
                with_head('\t', sp_string_body(s.skip(2)))
            } else if e == 'u' {
                if s.len() < 6 {
                    None
                } else {
                    match hex4_val(s[2], s[3], s[4], s[5]) {
                        Some(code) => if 0xD800 <= code < 0xDC00 {
                            // a high surrogate must pair with a following low one
                            if s.len() < 12 || s[6] != '\\' || s[7] != 'u' {
                                None
                            } else {
                                match hex4_val(s[8], s[9], s[10], s[11]) {
                                    Some(low) => if 0xDC00 <= low < 0xE000 {
                                        with_head(
                                            combine_surrogates(code, low) as char,
                                            sp_string_body(s.skip(12)),
                                        )
                                    } else {
                                        None
                                    },
                                    None => None,
                                }
                            }
                        } else if 0xDC00 <= code < 0xE000 {
                            None
                        } else {
                            with_head(code as char, sp_string_body(s.skip(6)))
                        },
                        None => None,
                    }
                }
            } else {
                None
            }
        }
    } else if (s[0] as u32) < 0x20 {
        None
    } else {
        with_head(s[0], sp_string_body(s.drop_first()))
    }
}

/// Skips the value of an ignored member by bracket matching: consumes
/// characters, tracking string state and bracket depth, and stops exactly
/// at the `,` or `}` that ends the member.  `any` says whether a character
/// was consumed yet.
pub open spec fn sp_skip_value(s: Seq<char>, depth: nat, in_str: bool, escaped: bool, any: bool) -> Option<Seq<char>>
    decreases s.len(),
{
    if s.len() == 0 {
        None
    } else {
        let c = s[0];
        if in_str {
            if escaped {
                sp_skip_value(s.drop_first(), depth, true, false, true)
            } else if c == '\\' {
                sp_skip_value(s.drop_first(), depth, true, true, true)
            } else if c == '"' {
                sp_skip_value(s.drop_first(), depth, false, false, true)
            } else {
                sp_skip_value(s.drop_first(), depth, true, false, true)
            }
        } else if depth == 0 && (c == ',' || c == '}') {
            if any {
                Some(s)
            } else {
                None
            }
        } else if c == '{' || c == '[' {
            sp_skip_value(s.drop_first(), depth + 1, false, false, true)
        } else if c == '}' || c == ']' {
            if depth == 0 {
                None
            } else {
                sp_skip_value(s.drop_first(), (depth - 1) as nat, false, false, true)
            }
        } else if c == '"' {
            sp_skip_value(s.drop_first(), depth, true, false, true)
        } else {
            sp_skip_value(s.drop_first(), depth, false, false, true)
        }
    }
}

// ------------------------------------------------------------------
// Parsing: the two member lists and the whole envelope
// ------------------------------------------------------------------

#[verifier::ext_equal]
pub ghost struct SignedPartial {
    pub data: Option<Seq<char>>,
    pub random: Option<u32>,
}

/// One pass over the members of the `signed` object, starting just after
/// `{` or `,`.  `n` bounds the number of members; a list longer than `n`
/// fails, and the callers seed `n` with the text length, which no member
/// list can exceed.
pub open spec fn sp_signed_members(s: Seq<char>, acc: SignedPartial, n: nat) -> Option<(SignedPartial, Seq<char>)>
    decreases n,
{
    if n == 0 {
        None
    } else {
        let s1 = skip_ws(s);
        if s1.len() == 0 || s1[0] != '"' {
            None
        } else {
            match sp_string_body(s1.drop_first()) {
                None => None,
                Some((name, s2)) => {
                    let s3 = skip_ws(s2);
                    if s3.len() == 0 || s3[0] != ':' {
                        None
                    } else {
                        let s4 = skip_ws(s3.drop_first());
                        let step: Option<(SignedPartial, Seq<char>)> = if name == key_data() {
                            if acc.data is Some {
                                None
                            } else if s4.len() == 0 || s4[0] != '"' {
                                None
                            } else {
                                match sp_string_body(s4.drop_first()) {
                                    None => None,
                                    Some((v, s5)) => Some((SignedPartial { data: Some(v), ..acc }, s5)),
                                }
                            }
                        } else if name == key_random() {
                            if acc.random is Some {
                                None
                            } else {
                                match sp_number(s4) {
                                    None => None,
                                    Some((v, s5)) => Some((SignedPartial { random: Some(v), ..acc }, s5)),
                                }
                            }
                        } else {
                            match sp_skip_value(s4, 0, false, false, false) {
                                None => None,
                                Some(s5) => Some((acc, s5)),
                            }
                        };
                        match step {
                            None => None,
                            Some((acc2, s5)) => {
                                let s6 = skip_ws(s5);
                                if s6.len() == 0 {
                                    None
                                } else if s6[0] == ',' {
                                    sp_signed_members(s6.drop_first(), acc2, (n - 1) as nat)
                                } else if s6[0] == '}' {
                                    Some((acc2, s6.drop_first()))
                                } else {
                                    None
                                }
                            },
                        }
                    }
                },
            }
        }
    }
}

/// The `signed` object, starting at its `{`: the payload and what follows
/// the closing `}`.
pub open spec fn sp_signed_obj(s: Seq<char>) -> Option<(SignedModel, Seq<char>)> {
    if s.len() == 0 || s[0] != '{' {
        None
    } else {
        match sp_signed_members(s.drop_first(), SignedPartial { data: None, random: None }, s.len()) {
            None => None,
            Some((acc, rest)) => match (acc.data, acc.random) {
                (Some(d), Some(r)) => Some((SignedModel { data: d, random: r }, rest)),
                _ => None,
            },
        }
    }
}

#[verifier::ext_equal]
pub ghost struct EnvPartial {
    pub fbs: Option<Seq<char>>,
    pub pubkey: Option<Seq<char>>,
    pub signature: Option<Seq<char>>,
    pub signed: Option<SignedModel>,
}

/// One pass over the members of the envelope object, as for
/// `sp_signed_members`.
pub open spec fn sp_env_members(s: Seq<char>, acc: EnvPartial, n: nat) -> Option<(EnvPartial, Seq<char>)>
    decreases n,
{
    if n == 0 {
        None
    } else {
        let s1 = skip_ws(s);
        if s1.len() == 0 || s1[0] != '"' {
            None
        } else {
            match sp_string_body(s1.drop_first()) {
                None => None,
                Some((name, s2)) => {
                    let s3 = skip_ws(s2);
                    if s3.len() == 0 || s3[0] != ':' {
                        None
                    } else {
                        let s4 = skip_ws(s3.drop_first());
                        let step: Option<(EnvPartial, Seq<char>)> = if name == key_fbs() {
                            if acc.fbs is Some {
                                None
                            } else if s4.len() == 0 || s4[0] != '"' {
                                None
                            } else {
                                match sp_string_body(s4.drop_first()) {
                                    None => None,
                                    Some((v, s5)) => Some((EnvPartial { fbs: Some(v), ..acc }, s5)),
                                }
                            }
                        } else if name == key_pubkey() {
                            if acc.pubkey is Some {
                                None
                            } else if s4.len() == 0 || s4[0] != '"' {
                                None
                            } else {
                                match sp_string_body(s4.drop_first()) {
                                    None => None,
                                    Some((v, s5)) => Some((EnvPartial { pubkey: Some(v), ..acc }, s5)),
                                }
                            }
                        } else if name == key_signature() {
                            if acc.signature is Some {
                                None
                            } else if s4.len() == 0 || s4[0] != '"' {
                                None
                            } else {
                                match sp_string_body(s4.drop_first()) {
                                    None => None,
                                    Some((v, s5)) => Some((EnvPartial { signature: Some(v), ..acc }, s5)),
                                }
                            }
                        } else if name == key_signed() {
                            if acc.signed is Some {
                                None
                            } else {
                                match sp_signed_obj(s4) {
                                    None => None,
                                    Some((v, s5)) => Some((EnvPartial { signed: Some(v), ..acc }, s5)),
                                }
                            }
                        } else {
                            match sp_skip_value(s4, 0, false, false, false) {
                                None => None,
                                Some(s5) => Some((acc, s5)),
                            }
                        };
                        match step {
                            None => None,
                            Some((acc2, s5)) => {
                                let s6 = skip_ws(s5);
                                if s6.len() == 0 {
                                    None
                                } else if s6[0] == ',' {
                                    sp_env_members(s6.drop_first(), acc2, (n - 1) as nat)
                                } else if s6[0] == '}' {
                                    Some((acc2, s6.drop_first()))
                                } else {
                                    None
                                }
                            },
                        }
                    }
                },
            }
        }
    }
}

/// The whole interchange text: one envelope object and nothing after it.
pub open spec fn sp_parse(s: Seq<char>) -> Option<EnvelopeModel> {
    let s0 = skip_ws(s);
    if s0.len() == 0 || s0[0] != '{' {
        None
    } else {
        match sp_env_members(
            s0.drop_first(),
            EnvPartial { fbs: None, pubkey: None, signature: None, signed: None },
            s0.len(),
        ) {
            None => None,
            Some((acc, rest)) => {
                if skip_ws(rest).len() != 0 {
                    None
                } else {
                    match (acc.fbs, acc.pubkey, acc.signature, acc.signed) {
                        (Some(f), Some(p), Some(g), Some(d)) => Some(
                            EnvelopeModel { fair_blind_signature: f, pubkey: p, signature: g, signed: d },
                        ),
                        _ => None,
                    }
                }
            },
        }
    }
}

// ------------------------------------------------------------------
// Conversions between text types
// ------------------------------------------------------------------

/// Relies on str::chars: it yields exactly the characters of the string,
/// in order.
#[verifier::external_body]
pub fn str_chars(s: &str) -> (v: Vec<char>)
    ensures
        v@ == s@,
{
    s.chars().collect()
}

/// Relies on String's FromIterator over char: the collected string holds
/// exactly the given characters, in order.
#[verifier::external_body]
pub fn string_from_chars(v: &Vec<char>) -> (s: String)
    ensures
        s@ == v@,
{
    v.iter().collect()
}

/// Relies on char::from_u32: for a Unicode scalar value it returns the
/// character with that code point.
#[verifier::external_body]
fn char_from_code(v: u32) -> (c: char)
    requires
        vstd::utf8::is_scalar(v),
    ensures
        c as u32 == v,
{
    char::from_u32(v).unwrap()
}

// ------------------------------------------------------------------
// Executable serializer
// ------------------------------------------------------------------

fn hex_char(d: u32) -> (c: char)
    requires
        d < 16,
    ensures
        c == hex_digit(d as nat),
{
    if d == 0 {
        '0'
    } else if d == 1 {
        '1'
    } else if d == 2 {
        '2'
    } else if d == 3 {
        '3'
    } else if d == 4 {
        '4'
    } else if d == 5 {
        '5'
    } else if d == 6 {
        '6'
    } else if d == 7 {
        '7'
    } else if d == 8 {
        '8'
    } else if d == 9 {
        '9'
    } else if d == 10 {
        'a'
    } else if d == 11 {
        'b'
    } else if d == 12 {
        'c'
    } else if d == 13 {
        'd'
    } else if d == 14 {
        'e'
    } else {
        'f'
    }
}

fn push_esc_char(out: &mut Vec<char>, c: char)
    ensures
        final(out)@ == old(out)@ + esc_char(c),
{
    if c == '"' {
        out.push('\\');
        out.push('"');
    } else if c == '\\' {
        out.push('\\');
        out.push('\\');
    } else if c as u32 >= 0x20 {
        out.push(c);
    } else {
        out.push('\\');
        out.push('u');
        out.push('0');
        out.push('0');
        out.push(hex_char((c as u32) / 16));
        out.push(hex_char((c as u32) % 16));
    }
    assert(final(out)@ =~= old(out)@ + esc_char(c));
}

proof fn lemma_esc_snoc(s: Seq<char>, c: char)
    ensures
        esc(s.push(c)) == esc(s) + esc_char(c),
    decreases s.len(),
{
    if s.len() == 0 {
        assert(s.push(c)[0] == c);
        assert(s.push(c).drop_first() =~= Seq::<char>::empty());
        assert(esc(Seq::<char>::empty()) =~= Seq::<char>::empty());
        assert(esc(s) =~= Seq::<char>::empty());
        assert(esc(s.push(c)) == esc_char(c) + esc(s.push(c).drop_first()));
        assert(esc(s.push(c)) =~= esc(s) + esc_char(c));
    } else {
        assert(s.push(c)[0] == s[0]);
        assert(s.push(c).drop_first() =~= s.drop_first().push(c));
        lemma_esc_snoc(s.drop_first(), c);
        assert(esc(s.push(c)) == esc_char(s[0]) + esc(s.drop_first().push(c)));
        assert(esc(s.push(c)) == esc_char(s[0]) + (esc(s.drop_first()) + esc_char(c)));
        assert(esc(s) == esc_char(s[0]) + esc(s.drop_first()));
        let a = esc_char(s[0]);
        let b = esc(s.drop_first());
        let d = esc_char(c);
        assert((a + (b + d)) =~= ((a + b) + d));
    }
}

fn push_esc(out: &mut Vec<char>, s: &[char])
    ensures
        final(out)@ == old(out)@ + esc(s@),
{
    let len = s.len();
    let mut i: usize = 0;
    proof {
        assert(s@.take(0) =~= Seq::<char>::empty());
        assert(old(out)@ + esc(s@.take(0)) =~= old(out)@);
    }
    while i < len
        invariant
            0 <= i <= len,
            len == s@.len(),
            out@ == old(out)@ + esc(s@.take(i as int)),
        decreases len - i,
    {
        proof {
            assert(s@.take(i + 1) =~= s@.take(i as int).push(s@[i as int]));
            lemma_esc_snoc(s@.take(i as int), s@[i as int]);
        }
        push_esc_char(out, s[i]);
        proof {
            assert(out@ =~= old(out)@ + esc(s@.take(i + 1)));
        }
        i = i + 1;
    }
    proof {
        assert(s@.take(len as int) =~= s@);
    }
}

fn push_quoted(out: &mut Vec<char>, s: &[char])
    ensures
        final(out)@ == old(out)@ + quoted(s@),
{
    out.push('"');
    push_esc(out, s);
    out.push('"');
    assert(final(out)@ =~= old(out)@ + quoted(s@));
}

/// The serialized form of an envelope given as plain character slices.
pub fn ser_chars(fbs: &[char], pubkey: &[char], signature: &[char], data: &[char], random: u32) -> (v: Vec<char>)
    ensures
        v@ == ser_envelope(
            EnvelopeModel {
                fair_blind_signature: fbs@,
                pubkey: pubkey@,
                signature: signature@,
                signed: SignedModel { data: data@, random },
            },
        ),
{
    let mut v: Vec<char> = Vec::new();
    let kf = key_fbs_vec();
    let kp = key_pubkey_vec();
    let kg = key_signature_vec();
    let ks = key_signed_vec();
    let kd = key_data_vec();
    let kr = key_random_vec();
    v.push('{');
    push_quoted(&mut v, kf.as_slice());
    v.push(':');
    push_quoted(&mut v, fbs);
    v.push(',');
    push_quoted(&mut v, kp.as_slice());
    v.push(':');
    push_quoted(&mut v, pubkey);
    v.push(',');
    push_quoted(&mut v, kg.as_slice());
    v.push(':');
    push_quoted(&mut v, signature);
    v.push(',');
    push_quoted(&mut v, ks.as_slice());
    v.push(':');
    v.push('{');
    push_quoted(&mut v, kd.as_slice());
    v.push(':');
    push_quoted(&mut v, data);
    v.push(',');
    push_quoted(&mut v, kr.as_slice());
    v.push(':');
    crate::numeral::push_dec(random, &mut v);
    v.push('}');
    v.push('}');
    proof {
        let m = EnvelopeModel {
            fair_blind_signature: fbs@,
            pubkey: pubkey@,
            signature: signature@,
            signed: SignedModel { data: data@, random },
        };
        assert(v@ =~= ser_envelope(m));
    }
    v
}

// ------------------------------------------------------------------
// Executable member names
// ------------------------------------------------------------------

fn key_fbs_vec() -> (v: Vec<char>)
    ensures
        v@ == key_fbs(),
{
    let mut v: Vec<char> = Vec::new();
    v.push('f');
    v.push('a');
    v.push('i');
    v.push('r');
    v.push('_');
    v.push('b');
    v.push('l');
    v.push('i');
    v.push('n');
    v.push('d');
    v.push('_');
    v.push('s');
    v.push('i');
    v.push('g');
    v.push('n');
    v.push('a');
    v.push('t');
    v.push('u');
    v.push('r');
    v.push('e');
    assert(v@ =~= key_fbs());
    v
}

fn key_pubkey_vec() -> (v: Vec<char>)
    ensures
        v@ == key_pubkey(),
{
    let mut v: Vec<char> = Vec::new();
    v.push('p');
    v.push('u');
    v.push('b');
    v.push('k');
    v.push('e');
    v.push('y');
    assert(v@ =~= key_pubkey());
    v
}

fn key_signature_vec() -> (v: Vec<char>)
    ensures
        v@ == key_signature(),
{
    let mut v: Vec<char> = Vec::new();
    v.push('s');
    v.push('i');
    v.push('g');
    v.push('n');
    v.push('a');
    v.push('t');
    v.push('u');
    v.push('r');
    v.push('e');
    assert(v@ =~= key_signature());
    v
}

fn key_signed_vec() -> (v: Vec<char>)
    ensures
        v@ == key_signed(),
{
    let mut v: Vec<char> = Vec::new();
    v.push('s');
    v.push('i');
    v.push('g');
    v.push('n');
    v.push('e');
    v.push('d');
    assert(v@ =~= key_signed());
    v
}

fn key_data_vec() -> (v: Vec<char>)
    ensures
        v@ == key_data(),
{
    let mut v: Vec<char> = Vec::new();
    v.push('d');
    v.push('a');
    v.push('t');
    v.push('a');
    assert(v@ =~= key_data());
    v
}

fn key_random_vec() -> (v: Vec<char>)
    ensures
        v@ == key_random(),
{
    let mut v: Vec<char> = Vec::new();
    v.push('r');
    v.push('a');
    v.push('n');
    v.push('d');
    v.push('o');
    v.push('m');
    assert(v@ =~= key_random());
    v
}

// ------------------------------------------------------------------
// Executable parser
// ------------------------------------------------------------------

fn p_ws(s: &[char]) -> (r: &[char])
    ensures
        r@ == skip_ws(s@),
    decreases s@.len(),
{
    if s.len() > 0 {
        let c = s[0];
        if c == ' ' || c == '\t' || c == '\n' || c == '\r' {
            let tail = vstd::slice::slice_subrange(s, 1, s.len());
            proof {
                assert(tail@ =~= s@.drop_first());
            }
            return p_ws(tail);
        }
    }
    s
}

fn unhex_char(c: char) -> (r: Option<u32>)
    ensures
        unhex(c) is None ==> r is None,
        unhex(c) is Some ==> r == Some(unhex(c)->Some_0 as u32),
{
    let u = c as u32;
    if 0x30 <= u && u <= 0x39 {
        Some(u - 0x30)
    } else if 0x61 <= u && u <= 0x66 {
        Some(u - 0x61 + 10)
    } else if 0x41 <= u && u <= 0x46 {
        Some(u - 0x41 + 10)
    } else {
        None
    }
}

fn p_string_body(s: &[char]) -> (r: Option<(Vec<char>, &[char])>)
    ensures
        sp_string_body(s@) is None ==> r is None,
        sp_string_body(s@) is Some ==> {
            &&& r is Some
            &&& r->Some_0.0@ == sp_string_body(s@)->Some_0.0
            &&& r->Some_0.1@ == sp_string_body(s@)->Some_0.1
        },
    decreases s@.len(),
{
    if s.len() == 0 {
        return None;
    }
    let c = s[0];
    if c == '"' {
        let rest = vstd::slice::slice_subrange(s, 1, s.len());
        let content: Vec<char> = Vec::new();
        proof {
            assert(rest@ =~= s@.drop_first());
            assert(content@ =~= Seq::<char>::empty());
        }
        return Some((content, rest));
    }
    if c == '\\' {
        if s.len() < 2 {
            return None;
        }
        let e = s[1];
        if e == '"' || e == '\\' || e == '/' || e == 'b' || e == 'f' || e == 'n' || e == 'r' || e == 't' {
            let decoded: char = if e == 'b' {
                '\u{0008}'
            } else if e == 'f' {
                '\u{000C}'
            } else if e == 'n' {
                '\n'
            } else if e == 'r' {
                '\r'
            } else if e == 't' {
                '\t'
            } else {
                e
            };
            let tail = vstd::slice::slice_subrange(s, 2, s.len());
            proof {
                assert(tail@ =~= s@.skip(2));
            }
            match p_string_body(tail) {
                None => {
                    return None;
                },
                Some((mut content, rest)) => {
                    let ghost t = content@;
                    content.insert(0, decoded);
                    proof {
                        assert(content@ =~= seq![decoded] + t);
                    }
                    return Some((content, rest));
                },
            }
        } else if e == 'u' {
            if s.len() < 6 {
                return None;
            }
            let h1 = unhex_char(s[2]);
            let h2 = unhex_char(s[3]);
            let h3 = unhex_char(s[4]);
            let h4 = unhex_char(s[5]);
            let code: u32 = match (h1, h2, h3, h4) {
                (Some(x), Some(y), Some(z), Some(w)) => 4096 * x + 256 * y + 16 * z + w,
                _ => {
                    return None;
                },
            };
            if 0xD800 <= code && code < 0xDC00 {
                if s.len() < 12 {
                    return None;
                }
                if s[6] != '\\' || s[7] != 'u' {
                    return None;
                }
                let g1 = unhex_char(s[8]);
                let g2 = unhex_char(s[9]);
                let g3 = unhex_char(s[10]);
                let g4 = unhex_char(s[11]);
                let low: u32 = match (g1, g2, g3, g4) {
                    (Some(x), Some(y), Some(z), Some(w)) => 4096 * x + 256 * y + 16 * z + w,
                    _ => {
                        return None;
                    },
                };
                if low < 0xDC00 || low >= 0xE000 {
                    return None;
                }
                let combined: u32 = 0x10000 + (code - 0xD800) * 0x400 + (low - 0xDC00);
                proof {
                    assert(combined == combine_surrogates(code, low));
                    assert(vstd::utf8::is_scalar(combined));
                }
                let decoded = char_from_code(combined);
                proof {
                    vstd::utf8::char_u32_cast(decoded, combined);
                }
                let tail = vstd::slice::slice_subrange(s, 12, s.len());
                proof {
                    assert(tail@ =~= s@.skip(12));
                }
                match p_string_body(tail) {
                    None => {
                        return None;
                    },
                    Some((mut content, rest)) => {
                        let ghost t = content@;
                        content.insert(0, decoded);
                        proof {
                            assert(content@ =~= seq![decoded] + t);
                        }
                        return Some((content, rest));
                    },
                }
            } else if 0xDC00 <= code && code < 0xE000 {
                return None;
            } else {
                proof {
                    assert(vstd::utf8::is_scalar(code));
                }
                let decoded = char_from_code(code);
                proof {
                    vstd::utf8::char_u32_cast(decoded, code);
                }
                let tail = vstd::slice::slice_subrange(s, 6, s.len());
                proof {
                    assert(tail@ =~= s@.skip(6));
                }
                match p_string_body(tail) {
                    None => {
                        return None;
                    },
                    Some((mut content, rest)) => {
                        let ghost t = content@;
                        content.insert(0, decoded);
                        proof {
                            assert(content@ =~= seq![decoded] + t);
                        }
                        return Some((content, rest));
                    },
                }
            }
        } else {
            return None;
        }
    }
    if (c as u32) < 0x20 {
        return None;
    }
    let tail = vstd::slice::slice_subrange(s, 1, s.len());
    proof {
        assert(tail@ =~= s@.drop_first());
    }
    match p_string_body(tail) {
        None => None,
        Some((mut content, rest)) => {
            let ghost t = content@;
            content.insert(0, c);
            proof {
                assert(content@ =~= seq![c] + t);
            }
            Some((content, rest))
        },
    }
}

fn p_skip_value<'a>(s: &'a [char], depth: usize, in_str: bool, escaped: bool, any: bool) -> (r: Option<
    &'a [char],
>)
    requires
        depth + s@.len() <= usize::MAX,
    ensures
        sp_skip_value(s@, depth as nat, in_str, escaped, any) is None ==> r is None,
        sp_skip_value(s@, depth as nat, in_str, escaped, any) is Some ==> r is Some && r->Some_0@
            == sp_skip_value(s@, depth as nat, in_str, escaped, any)->Some_0,
    decreases s@.len(),
{
    if s.len() == 0 {
        return None;
    }
    let c = s[0];
    let tail = vstd::slice::slice_subrange(s, 1, s.len());
    proof {
        assert(tail@ =~= s@.drop_first());
    }
    if in_str {
        if escaped {
            p_skip_value(tail, depth, true, false, true)
        } else if c == '\\' {
            p_skip_value(tail, depth, true, true, true)
        } else if c == '"' {
            p_skip_value(tail, depth, false, false, true)
        } else {
            p_skip_value(tail, depth, true, false, true)
        }
    } else if depth == 0 && (c == ',' || c == '}') {
        if any {
            Some(s)
        } else {
            None
        }
    } else if c == '{' || c == '[' {
        p_skip_value(tail, depth + 1, false, false, true)
    } else if c == '}' || c == ']' {
        if depth == 0 {
            None
        } else {
            p_skip_value(tail, depth - 1, false, false, true)
        }
    } else if c == '"' {
        p_skip_value(tail, depth, true, false, true)
    } else {
        p_skip_value(tail, depth, false, false, true)
    }
}

struct SignedAcc {
    data: Option<Vec<char>>,
    random: Option<u32>,
}

spec fn opt_chars_view(o: Option<Vec<char>>) -> Option<Seq<char>> {
    match o {
        Some(v) => Some(v@),
        None => None,
    }
}

spec fn sacc_view(a: SignedAcc) -> SignedPartial {
    SignedPartial { data: opt_chars_view(a.data), random: a.random }
}

fn p_signed_members<'a>(s: &'a [char], acc: SignedAcc, n: usize) -> (r: Option<(SignedAcc, &'a [char])>)
    ensures
        sp_signed_members(s@, sacc_view(acc), n as nat) is None ==> r is None,
        sp_signed_members(s@, sacc_view(acc), n as nat) is Some ==> {
            &&& r is Some
            &&& sacc_view(r->Some_0.0) == sp_signed_members(s@, sacc_view(acc), n as nat)->Some_0.0
            &&& r->Some_0.1@ == sp_signed_members(s@, sacc_view(acc), n as nat)->Some_0.1
        },
    decreases n,
{
    if n == 0 {
        return None;
    }
    let s1 = p_ws(s);
    if s1.len() == 0 {
        return None;
    }
    if s1[0] != '"' {
        return None;
    }
    let s1t = vstd::slice::slice_subrange(s1, 1, s1.len());
    proof {
        assert(s1t@ =~= s1@.drop_first());
    }
    let (name, s2) = match p_string_body(s1t) {
        None => {
            return None;
        },
        Some(p) => p,
    };
    let s3 = p_ws(s2);
    if s3.len() == 0 {
        return None;
    }
    if s3[0] != ':' {
        return None;
    }
    let s3t = vstd::slice::slice_subrange(s3, 1, s3.len());
    proof {
        assert(s3t@ =~= s3@.drop_first());
    }
    let s4 = p_ws(s3t);
    let kd = key_data_vec();
    let kr = key_random_vec();
    let step: Option<(SignedAcc, &[char])> = if chars_eq(name.as_slice(), kd.as_slice()) {
        if acc.data.is_some() {
            None
        } else if s4.len() == 0 {
            None
        } else if s4[0] != '"' {
            None
        } else {
            let s4t = vstd::slice::slice_subrange(s4, 1, s4.len());
            proof {
                assert(s4t@ =~= s4@.drop_first());
            }
            match p_string_body(s4t) {
                None => None,
                Some((v, s5)) => Some((SignedAcc { data: Some(v), random: acc.random }, s5)),
            }
        }
    } else if chars_eq(name.as_slice(), kr.as_slice()) {
        if acc.random.is_some() {
            None
        } else {
            match parse_number(s4) {
                None => None,
                Some((v, k)) => {
                    let s5 = vstd::slice::slice_subrange(s4, k, s4.len());
                    Some((SignedAcc { data: acc.data, random: Some(v) }, s5))
                },
            }
        }
    } else {
        let s4_len = s4.len();
        proof {
            assert(s4_len == s4@.len());
        }
        match p_skip_value(s4, 0, false, false, false) {
            None => None,
            Some(s5) => Some((acc, s5)),
        }
    };
    let (acc2, s5) = match step {
        None => {
            return None;
        },
        Some(p) => p,
    };
    let s6 = p_ws(s5);
    if s6.len() == 0 {
        return None;
    }
    if s6[0] == ',' {
        let s6t = vstd::slice::slice_subrange(s6, 1, s6.len());
        proof {
            assert(s6t@ =~= s6@.drop_first());
        }
        p_signed_members(s6t, acc2, n - 1)
    } else if s6[0] == '}' {
        let s6t = vstd::slice::slice_subrange(s6, 1, s6.len());
        proof {
            assert(s6t@ =~= s6@.drop_first());
        }
        Some((acc2, s6t))
    } else {
        None
    }
}

fn p_signed_obj<'a>(s: &'a [char]) -> (r: Option<(Vec<char>, u32, &'a [char])>)
    ensures
        sp_signed_obj(s@) is None ==> r is None,
        sp_signed_obj(s@) is Some ==> {
            &&& r is Some
            &&& r->Some_0.0@ == sp_signed_obj(s@)->Some_0.0.data
            &&& r->Some_0.1 == sp_signed_obj(s@)->Some_0.0.random
            &&& r->Some_0.2@ == sp_signed_obj(s@)->Some_0.1
        },
{
    if s.len() == 0 {
        return None;
    }
    if s[0] != '{' {
        return None;
    }
    let st = vstd::slice::slice_subrange(s, 1, s.len());
    proof {
        assert(st@ =~= s@.drop_first());
        assert(sacc_view(SignedAcc { data: None, random: None }) =~= SignedPartial {
            data: None,
            random: None,
        });
    }
    match p_signed_members(st, SignedAcc { data: None, random: None }, s.len()) {
        None => None,
        Some((acc, rest)) => match (acc.data, acc.random) {
            (Some(d), Some(rv)) => Some((d, rv, rest)),
            _ => None,
        },
    }
}

struct EnvAcc {
    fbs: Option<Vec<char>>,
    pubkey: Option<Vec<char>>,
    signature: Option<Vec<char>>,
    signed: Option<(Vec<char>, u32)>,
}

spec fn eacc_view(a: EnvAcc) -> EnvPartial {
    EnvPartial {
        fbs: opt_chars_view(a.fbs),
        pubkey: opt_chars_view(a.pubkey),
        signature: opt_chars_view(a.signature),
        signed: match a.signed {
            Some(p) => Some(SignedModel { data: p.0@, random: p.1 }),
            None => None,
        },
    }
}

fn p_env_members<'a>(s: &'a [char], acc: EnvAcc, n: usize) -> (r: Option<(EnvAcc, &'a [char])>)
    ensures
        sp_env_members(s@, eacc_view(acc), n as nat) is None ==> r is None,
        sp_env_members(s@, eacc_view(acc), n as nat) is Some ==> {
            &&& r is Some
            &&& eacc_view(r->Some_0.0) == sp_env_members(s@, eacc_view(acc), n as nat)->Some_0.0
            &&& r->Some_0.1@ == sp_env_members(s@, eacc_view(acc), n as nat)->Some_0.1
        },
    decreases n,
{
    if n == 0 {
        return None;
    }
    let s1 = p_ws(s);
    if s1.len() == 0 {
        return None;
    }
    if s1[0] != '"' {
        return None;
    }
    let s1t = vstd::slice::slice_subrange(s1, 1, s1.len());
    proof {
        assert(s1t@ =~= s1@.drop_first());
    }
    let (name, s2) = match p_string_body(s1t) {
        None => {
            return None;
        },
        Some(p) => p,
    };
    let s3 = p_ws(s2);
    if s3.len() == 0 {
        return None;
    }
    if s3[0] != ':' {
        return None;
    }
    let s3t = vstd::slice::slice_subrange(s3, 1, s3.len());
    proof {
        assert(s3t@ =~= s3@.drop_first());
    }
    let s4 = p_ws(s3t);
    let kf = key_fbs_vec();
    let kp = key_pubkey_vec();
    let kg = key_signature_vec();
    let ks = key_signed_vec();
    let step: Option<(EnvAcc, &[char])> = if chars_eq(name.as_slice(), kf.as_slice()) {
        if acc.fbs.is_some() {
            None
        } else if s4.len() == 0 {
            None
        } else if s4[0] != '"' {
            None
        } else {
            let s4t = vstd::slice::slice_subrange(s4, 1, s4.len());
            proof {
                assert(s4t@ =~= s4@.drop_first());
            }
            match p_string_body(s4t) {
                None => None,
                Some((v, s5)) => Some(
                    (
                        EnvAcc {
                            fbs: Some(v),
                            pubkey: acc.pubkey,
                            signature: acc.signature,
                            signed: acc.signed,
                        },
                        s5,
                    ),
                ),
            }
        }
    } else if chars_eq(name.as_slice(), kp.as_slice()) {
        if acc.pubkey.is_some() {
            None
        } else if s4.len() == 0 {
            None
        } else if s4[0] != '"' {
            None
        } else {
            let s4t = vstd::slice::slice_subrange(s4, 1, s4.len());
            proof {
                assert(s4t@ =~= s4@.drop_first());
            }
            match p_string_body(s4t) {
                None => None,
                Some((v, s5)) => Some(
                    (
                        EnvAcc {
                            fbs: acc.fbs,
                            pubkey: Some(v),
                            signature: acc.signature,
                            signed: acc.signed,
                        },
                        s5,
                    ),
                ),
            }
        }
    } else if chars_eq(name.as_slice(), kg.as_slice()) {
        if acc.signature.is_some() {
            None
        } else if s4.len() == 0 {
            None
        } else if s4[0] != '"' {
            None
        } else {
            let s4t = vstd::slice::slice_subrange(s4, 1, s4.len());
            proof {
                assert(s4t@ =~= s4@.drop_first());
            }
            match p_string_body(s4t) {
                None => None,
                Some((v, s5)) => Some(
                    (
                        EnvAcc {
                            fbs: acc.fbs,
                            pubkey: acc.pubkey,
                            signature: Some(v),
                            signed: acc.signed,
                        },
                        s5,
                    ),
                ),
            }
        }
    } else if chars_eq(name.as_slice(), ks.as_slice()) {
        if acc.signed.is_some() {
            None
        } else {
            match p_signed_obj(s4) {
                None => None,
                Some((d, rv, s5)) => Some(
                    (
                        EnvAcc {
                            fbs: acc.fbs,
                            pubkey: acc.pubkey,
                            signature: acc.signature,
                            signed: Some((d, rv)),
                        },
                        s5,
                    ),
                ),
            }
        }
    } else {
        let s4_len = s4.len();
        proof {
            assert(s4_len == s4@.len());
        }
        match p_skip_value(s4, 0, false, false, false) {
            None => None,
            Some(s5) => Some((acc, s5)),
        }
    };
    let (acc2, s5) = match step {
        None => {
            return None;
        },
        Some(p) => p,
    };
    let s6 = p_ws(s5);
    if s6.len() == 0 {
        return None;
    }
    if s6[0] == ',' {
        let s6t = vstd::slice::slice_subrange(s6, 1, s6.len());
        proof {
            assert(s6t@ =~= s6@.drop_first());
        }
        p_env_members(s6t, acc2, n - 1)
    } else if s6[0] == '}' {
        let s6t = vstd::slice::slice_subrange(s6, 1, s6.len());
        proof {
            assert(s6t@ =~= s6@.drop_first());
        }
        Some((acc2, s6t))
    } else {
        None
    }
}

/// The parsed parts of an envelope, as plain character vectors.
pub struct EnvChars {
    pub fbs: Vec<char>,
    pub pubkey: Vec<char>,
    pub signature: Vec<char>,
    pub data: Vec<char>,
    pub random: u32,
}

pub open spec fn env_chars_view(e: EnvChars) -> EnvelopeModel {
    EnvelopeModel {
        fair_blind_signature: e.fbs@,
        pubkey: e.pubkey@,
        signature: e.signature@,
        signed: SignedModel { data: e.data@, random: e.random },
    }
}

/// Parses one envelope, exactly as `sp_parse` describes.
pub fn p_envelope(s: &[char]) -> (r: Option<EnvChars>)
    ensures
        sp_parse(s@) is None ==> r is None,
        sp_parse(s@) is Some ==> r is Some && env_chars_view(r->Some_0) == sp_parse(s@)->Some_0,
{
    let s0 = p_ws(s);
    if s0.len() == 0 {
        return None;
    }
    if s0[0] != '{' {
        return None;
    }
    let st = vstd::slice::slice_subrange(s0, 1, s0.len());
    proof {
        assert(st@ =~= s0@.drop_first());
        assert(eacc_view(EnvAcc { fbs: None, pubkey: None, signature: None, signed: None })
            =~= EnvPartial { fbs: None, pubkey: None, signature: None, signed: None });
    }
    match p_env_members(st, EnvAcc { fbs: None, pubkey: None, signature: None, signed: None }, s0.len()) {
        None => None,
        Some((acc, rest)) => {
            let tail = p_ws(rest);
            if tail.len() != 0 {
                return None;
            }
            match (acc.fbs, acc.pubkey, acc.signature, acc.signed) {
                (Some(f), Some(p), Some(g), Some(d)) => Some(
                    EnvChars { fbs: f, pubkey: p, signature: g, data: d.0, random: d.1 },
                ),
                _ => None,
            }
        },
    }
}

fn chars_eq(a: &[char], b: &[char]) -> (r: bool)
    ensures
        r == (a@ == b@),
{
    let n = a.len();
    if n != b.len() {
        return false;
    }
    let mut i: usize = 0;
    while i < n
        invariant
            0 <= i <= n,
            n == a@.len(),
            n == b@.len(),
            forall|j: int| 0 <= j < i ==> a@[j] == b@[j],
        decreases n - i,
    {
        if a[i] != b[i] {
            return false;
        }
        i = i + 1;
    }
    proof {
        assert(a@ =~= b@);
    }
    true
}

// ------------------------------------------------------------------
// The round trip: parsing undoes serializing
// ------------------------------------------------------------------

proof fn lemma_unhex_hex_digit(d: nat)
    requires
        d < 16,
    ensures
        unhex(hex_digit(d)) == Some(d),
{
}

/// Escaping leaves a string of plain characters as it is.
proof fn lemma_esc_plain(s: Seq<char>)
    requires
        forall|i: int| 0 <= i < s.len() ==> is_plain(#[trigger] s[i]),
    ensures
        esc(s) == s,
    decreases s.len(),
{
    if s.len() == 0 {
        assert(esc(s) =~= s);
    } else {
        assert(is_plain(s[0]));
        assert(esc_char(s[0]) == seq![s[0]]);
        lemma_esc_plain(s.drop_first());
        assert(esc(s) =~= s);
    }
}

/// Reading a string body undoes escaping: the escaped text, a closing
/// quote, and anything after parse back to the text itself.
proof fn lemma_string_body_round(x: Seq<char>, rest: Seq<char>)
    ensures
        sp_string_body(esc(x) + seq!['"'] + rest) == Some((x, rest)),
    decreases x.len(),
{
    let t = esc(x) + seq!['"'] + rest;
    if x.len() == 0 {
        assert(esc(x) =~= Seq::<char>::empty());
        assert(t[0] == '"');
        assert(t.drop_first() =~= rest);
        assert(x =~= Seq::<char>::empty());
    } else {
        let c = x[0];
        let x1 = x.drop_first();
        let t1 = esc(x1) + seq!['"'] + rest;
        lemma_string_body_round(x1, rest);
        assert(esc(x) == esc_char(c) + esc(x1));
        if c == '"' {
            assert(esc_char(c) == seq!['\\', '"']);
            assert(t[0] == '\\');
            assert(t[1] == '"');
            assert(t.len() >= 2);
            assert(t.skip(2) =~= t1);
            assert(sp_string_body(t) == with_head('"', sp_string_body(t1)));
            assert(seq![c] + x1 =~= x);
        } else if c == '\\' {
            assert(esc_char(c) == seq!['\\', '\\']);
            assert(t[0] == '\\');
            assert(t[1] == '\\');
            assert(t.skip(2) =~= t1);
            assert(sp_string_body(t) == with_head('\\', sp_string_body(t1)));
            assert(seq![c] + x1 =~= x);
        } else if c as u32 >= 0x20 {
            assert(esc_char(c) == seq![c]);
            assert(t[0] == c);
            assert((c as u32) >= 0x20);
            assert(t.drop_first() =~= t1);
            assert(sp_string_body(t) == with_head(c, sp_string_body(t1)));
            assert(seq![c] + x1 =~= x);
        } else {
            let hi = (c as u32 / 16) as nat;
            let lo = (c as u32 % 16) as nat;
            assert(esc_char(c) == seq!['\\', 'u', '0', '0', hex_digit(hi), hex_digit(lo)]);
            assert(t[0] == '\\');
            assert(t[1] == 'u');
            assert(t.len() >= 6);
            assert(t[2] == '0');
            assert(t[3] == '0');
            assert(t[4] == hex_digit(hi));
            assert(t[5] == hex_digit(lo));
            assert(unhex('0') == Some(0nat));
            lemma_unhex_hex_digit(hi);
            lemma_unhex_hex_digit(lo);
            let code = hex4_val(t[2], t[3], t[4], t[5])->Some_0;
            assert(code == 16 * hi + lo);
            assert(code == c as u32);
            assert(code < 0xD800);
            vstd::utf8::char_u32_cast(c, code);
            assert(code as char == c);
            assert(t.skip(6) =~= t1);
            assert(sp_string_body(t) == with_head(c, sp_string_body(t1)));
            assert(seq![c] + x1 =~= x);
        }
    }
}

/// The serialized member names consist of plain characters.
proof fn lemma_keys_plain()
    ensures
        forall|i: int| 0 <= i < key_fbs().len() ==> is_plain(#[trigger] key_fbs()[i]),
        forall|i: int| 0 <= i < key_pubkey().len() ==> is_plain(#[trigger] key_pubkey()[i]),
        forall|i: int| 0 <= i < key_signature().len() ==> is_plain(#[trigger] key_signature()[i]),
        forall|i: int| 0 <= i < key_signed().len() ==> is_plain(#[trigger] key_signed()[i]),
        forall|i: int| 0 <= i < key_data().len() ==> is_plain(#[trigger] key_data()[i]),
        forall|i: int| 0 <= i < key_random().len() ==> is_plain(#[trigger] key_random()[i]),
{
}

/// Walks the parser over one serialized member header `"k":` and its
/// quoted string value.
proof fn lemma_member_header(k: Seq<char>, tail: Seq<char>)
    requires
        forall|i: int| 0 <= i < k.len() ==> is_plain(#[trigger] k[i]),
        tail.len() > 0,
        !is_ws(tail[0]),
    ensures
        skip_ws(quoted(k) + seq![':'] + tail) == quoted(k) + seq![':'] + tail,
        (quoted(k) + seq![':'] + tail).len() > 0,
        (quoted(k) + seq![':'] + tail)[0] == '"',
        sp_string_body((quoted(k) + seq![':'] + tail).drop_first()) == Some((k, seq![':'] + tail)),
        skip_ws(seq![':'] + tail) == seq![':'] + tail,
        (seq![':'] + tail)[0] == ':',
        skip_ws((seq![':'] + tail).drop_first()) == tail,
{
    let s = quoted(k) + seq![':'] + tail;
    lemma_esc_plain(k);
    assert(s[0] == '"');
    assert(!is_ws('"'));
    assert(skip_ws(s) == s);
    assert(s.drop_first() =~= esc(k) + seq!['"'] + (seq![':'] + tail));
    lemma_string_body_round(k, seq![':'] + tail);
    assert((seq![':'] + tail)[0] == ':');
    assert(!is_ws(':'));
    assert(skip_ws(seq![':'] + tail) == seq![':'] + tail);
    assert((seq![':'] + tail).drop_first() =~= tail);
    assert(skip_ws(tail) == tail);
}

/// Parsing a serialized `signed` object yields the payload it was made of.
#[verifier::rlimit(100)]
proof fn lemma_signed_round(p: SignedModel, after: Seq<char>)
    requires
        after.len() > 0,
        !is_ws(after[0]),
        !is_digit(after[0]),
    ensures
        sp_signed_obj(ser_signed(p) + after) == Some((p, after)),
{
    let s = ser_signed(p) + after;
    let acc0 = SignedPartial { data: None, random: None };
    crate::numeral::lemma_dec_digits(p.random as nat);
    lemma_keys_plain();

    // the text after the opening brace, shaped as the first member
    let rest1 = seq![','] + quoted(key_random()) + seq![':'] + dec(p.random as nat) + seq!['}'] + after;
    let m1 = quoted(key_data()) + seq![':'] + (quoted(p.data) + rest1);
    assert(s[0] == '{');
    assert(s.drop_first() =~= m1);

    // first member: "data", a string
    assert(quoted(p.data)[0] == '"');
    assert(!is_ws('"'));
    assert((quoted(p.data) + rest1)[0] == '"');
    lemma_member_header(key_data(), quoted(p.data) + rest1);
    assert((quoted(p.data) + rest1).drop_first() =~= esc(p.data) + seq!['"'] + rest1);
    lemma_string_body_round(p.data, rest1);
    let acc1 = SignedPartial { data: Some(p.data), random: None };
    assert(rest1[0] == ',');
    assert(!is_ws(','));
    assert(skip_ws(rest1) == rest1);

    // second member: "random", a number
    let tail2 = dec(p.random as nat) + (seq!['}'] + after);
    let m2 = quoted(key_random()) + seq![':'] + tail2;
    assert(rest1.drop_first() =~= m2);
    assert(tail2[0] == dec(p.random as nat)[0]);
    assert(is_digit(tail2[0]));
    assert(!is_ws(tail2[0]));
    assert(tail2.len() > 0);
    lemma_member_header(key_random(), tail2);
    assert(key_random() != key_data()) by {
        assert(key_random().len() != key_data().len());
    }
    assert((seq!['}'] + after).len() == 0 || !is_digit((seq!['}'] + after)[0]));
    lemma_number_round_trip(p.random, seq!['}'] + after);
    assert(sp_number(tail2) == Some((p.random, seq!['}'] + after)));
    let acc2 = SignedPartial { data: Some(p.data), random: Some(p.random) };
    assert((seq!['}'] + after)[0] == '}');
    assert(!is_ws('}'));
    assert(skip_ws(seq!['}'] + after) == seq!['}'] + after);
    assert((seq!['}'] + after).drop_first() =~= after);

    // the two unfoldings of the member loop
    let n = s.len() as nat;
    assert(n >= 2) by {
        assert(s.len() >= ser_signed(p).len());
        assert(ser_signed(p).len() >= 2);
    }
    assert(sp_signed_members(m2, acc1, (n - 1) as nat) == Some((acc2, after))) by {
        assert((n - 1) as nat != 0);
    }
    assert(sp_signed_members(m1, acc0, n) == Some((acc2, after)));
    assert(sp_signed_obj(s) == Some((SignedModel { data: p.data, random: p.random }, after)));
    assert(SignedModel { data: p.data, random: p.random } =~= p);
}

// The suffixes of a serialized envelope at each member boundary, and the
// accumulator states the parser reaches there.

spec fn env_rest3(m: EnvelopeModel) -> Seq<char> {
    seq![','] + quoted(key_signed()) + seq![':'] + ser_signed(m.signed) + seq!['}']
}

spec fn env_rest2(m: EnvelopeModel) -> Seq<char> {
    seq![','] + quoted(key_signature()) + seq![':'] + quoted(m.signature) + env_rest3(m)
}

spec fn env_rest1(m: EnvelopeModel) -> Seq<char> {
    seq![','] + quoted(key_pubkey()) + seq![':'] + quoted(m.pubkey) + env_rest2(m)
}

spec fn env_m1(m: EnvelopeModel) -> Seq<char> {
    quoted(key_fbs()) + seq![':'] + (quoted(m.fair_blind_signature) + env_rest1(m))
}

spec fn env_m2(m: EnvelopeModel) -> Seq<char> {
    quoted(key_pubkey()) + seq![':'] + (quoted(m.pubkey) + env_rest2(m))
}

spec fn env_m3(m: EnvelopeModel) -> Seq<char> {
    quoted(key_signature()) + seq![':'] + (quoted(m.signature) + env_rest3(m))
}

spec fn env_m4(m: EnvelopeModel) -> Seq<char> {
    quoted(key_signed()) + seq![':'] + (ser_signed(m.signed) + seq!['}'])
}

spec fn env_acc2(m: EnvelopeModel) -> EnvPartial {
    EnvPartial {
        fbs: Some(m.fair_blind_signature),
        pubkey: Some(m.pubkey),
        signature: None,
        signed: None,
    }
}

spec fn env_acc4(m: EnvelopeModel) -> EnvPartial {
    EnvPartial {
        fbs: Some(m.fair_blind_signature),
        pubkey: Some(m.pubkey),
        signature: Some(m.signature),
        signed: Some(m.signed),
    }
}

/// The member loop over the last two serialized members fills in
/// `signature` and `signed` and stops at the closing brace.
#[verifier::rlimit(100)]
proof fn lemma_env_members_34(m: EnvelopeModel, n: nat)
    requires
        n >= 2,
    ensures
        sp_env_members(env_m3(m), env_acc2(m), n) == Some((env_acc4(m), Seq::<char>::empty())),
{
    lemma_keys_plain();
    let p = m.signed;
    let rest3 = env_rest3(m);

    // third member: "signature"
    assert((quoted(m.signature) + rest3)[0] == '"');
    assert(!is_ws('"'));
    lemma_member_header(key_signature(), quoted(m.signature) + rest3);
    assert((quoted(m.signature) + rest3).drop_first() =~= esc(m.signature) + seq!['"'] + rest3);
    lemma_string_body_round(m.signature, rest3);
    assert(key_signature() != key_fbs()) by {
        assert(key_signature().len() != key_fbs().len());
    }
    assert(key_signature() != key_pubkey()) by {
        assert(key_signature().len() != key_pubkey().len());
    }
    let acc3 = EnvPartial {
        fbs: Some(m.fair_blind_signature),
        pubkey: Some(m.pubkey),
        signature: Some(m.signature),
        signed: None,
    };
    assert(rest3[0] == ',');
    assert(!is_ws(','));
    assert(skip_ws(rest3) == rest3);

    // fourth member: "signed", an object
    let tail4 = ser_signed(p) + seq!['}'];
    assert(rest3.drop_first() =~= env_m4(m));
    assert(tail4[0] == '{');
    assert(!is_ws('{'));
    assert(tail4.len() > 0);
    lemma_member_header(key_signed(), tail4);
    assert(key_signed() != key_fbs()) by {
        assert(key_signed().len() != key_fbs().len());
    }
    assert(key_signed() != key_pubkey()) by {
        assert(key_signed()[0] == 's' && key_pubkey()[0] == 'p');
    }
    assert(key_signed() != key_signature()) by {
        assert(key_signed().len() != key_signature().len());
    }
    assert(!is_ws('}'));
    assert(!is_digit('}'));
    lemma_signed_round(p, seq!['}']);
    assert(sp_signed_obj(tail4) == Some((p, seq!['}'])));
    assert(seq!['}'][0] == '}');
    assert(skip_ws(seq!['}']) == seq!['}']);
    assert(seq!['}'].drop_first() =~= Seq::<char>::empty());

    assert(sp_env_members(env_m4(m), acc3, (n - 1) as nat) == Some(
        (env_acc4(m), Seq::<char>::empty()),
    )) by {
        assert((n - 1) as nat != 0);
    }
}

/// The member loop over all four serialized members fills in every field
/// and consumes the whole member list.
#[verifier::rlimit(100)]
proof fn lemma_env_members_all(m: EnvelopeModel, n: nat)
    requires
        n >= 4,
    ensures
        sp_env_members(
            env_m1(m),
            EnvPartial { fbs: None, pubkey: None, signature: None, signed: None },
            n,
        ) == Some((env_acc4(m), Seq::<char>::empty())),
{
    lemma_keys_plain();
    let rest1 = env_rest1(m);
    let rest2 = env_rest2(m);

    // first member: "fair_blind_signature"
    assert((quoted(m.fair_blind_signature) + rest1)[0] == '"');
    assert(!is_ws('"'));
    lemma_member_header(key_fbs(), quoted(m.fair_blind_signature) + rest1);
    assert((quoted(m.fair_blind_signature) + rest1).drop_first() =~= esc(m.fair_blind_signature)
        + seq!['"'] + rest1);
    lemma_string_body_round(m.fair_blind_signature, rest1);
    let acc1 = EnvPartial {
        fbs: Some(m.fair_blind_signature),
        pubkey: None,
        signature: None,
        signed: None,
    };
    assert(rest1[0] == ',');
    assert(!is_ws(','));
    assert(skip_ws(rest1) == rest1);
    assert(rest1.drop_first() =~= env_m2(m));

    // second member: "pubkey"
    assert((quoted(m.pubkey) + rest2)[0] == '"');
    lemma_member_header(key_pubkey(), quoted(m.pubkey) + rest2);
    assert((quoted(m.pubkey) + rest2).drop_first() =~= esc(m.pubkey) + seq!['"'] + rest2);
    lemma_string_body_round(m.pubkey, rest2);
    assert(key_pubkey() != key_fbs()) by {
        assert(key_pubkey().len() != key_fbs().len());
    }
    assert(rest2[0] == ',');
    assert(skip_ws(rest2) == rest2);
    assert(rest2.drop_first() =~= env_m3(m));

    lemma_env_members_34(m, (n - 2) as nat);
    assert(sp_env_members(env_m2(m), acc1, (n - 1) as nat) == Some(
        (env_acc4(m), Seq::<char>::empty()),
    )) by {
        assert((n - 1) as nat != 0);
    }
}

/// Parsing undoes serializing: the envelope grammar reads back exactly the
/// envelope that `ser_envelope` wrote.
#[verifier::rlimit(100)]
pub proof fn lemma_parse_of_serialize(m: EnvelopeModel)
    ensures
        sp_parse(ser_envelope(m)) == Some(m),
{
    let s = ser_envelope(m);
    assert(s[0] == '{');
    assert(!is_ws('{'));
    assert(skip_ws(s) == s);
    assert(s.drop_first() =~= env_m1(m));
    let n = s.len() as nat;
    assert(n >= 4) by {
        assert(s.len() >= 8);
    }
    lemma_env_members_all(m, n);
    assert(skip_ws(Seq::<char>::empty()).len() == 0);
    assert(sp_parse(s) == Some(
        EnvelopeModel {
            fair_blind_signature: m.fair_blind_signature,
            pubkey: m.pubkey,
            signature: m.signature,
            signed: m.signed,
        },
    ));
    assert(EnvelopeModel {
        fair_blind_signature: m.fair_blind_signature,
        pubkey: m.pubkey,
        signature: m.signature,
        signed: m.signed,
    } =~= m);
}

} // verus!
