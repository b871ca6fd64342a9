//! Decimal numerals: the specification-level decimal form of a number and
//! the executable conversions between numbers and digit strings.

use vstd::prelude::*;

verus! {

/// The character for one decimal digit.
pub open spec fn dec_digit(d: nat) -> char {
    if d == 0 {
        '0'
    } else if d == 1 {
        '1'
    } else if d == 2 {
        '2'
    } else if d == 3 {
        '3'
    } else if d == 4 {
        '4'
    } else if d == 5 {
        '5'
    } else if d == 6 {
        '6'
    } else if d == 7 {
        '7'
    } else if d == 8 {
        '8'
    } else {
        '9'
    }
}

/// The decimal numeral of `n`, most significant digit first, no leading zeros.
pub open spec fn dec(n: nat) -> Seq<char>
    decreases n,
{
    if n < 10 {
        seq![dec_digit(n)]
    } else {
        dec(n / 10) + seq![dec_digit(n % 10)]
    }
}

pub open spec fn is_digit(c: char) -> bool {
    0x30 <= c as u32 <= 0x39
}

pub open spec fn digit_val(c: char) -> nat {
    (c as u32 - 0x30) as nat
}

/// The number denoted by a digit string, most significant digit first.
pub open spec fn val_of(s: Seq<char>) -> nat
    decreases s.len(),
{
    if s.len() == 0 {
        0
    } else {
        val_of(s.drop_last()) * 10 + digit_val(s.last())
    }
}

pub open spec fn pow10(k: nat) -> nat
    decreases k,
{
    if k == 0 {
        1
    } else {
        10 * pow10((k - 1) as nat)
    }
}

pub proof fn lemma_val_of_dec(n: nat)
    ensures
        val_of(dec(n)) == n,
    decreases n,
{
    if n < 10 {
        assert(dec(n) == seq![dec_digit(n)]);
        assert(dec(n).drop_last() =~= Seq::<char>::empty());
        assert(val_of(Seq::<char>::empty()) == 0);
        assert(dec(n).last() == dec_digit(n));
        assert(digit_val(dec_digit(n)) == n);
        assert(val_of(dec(n)) == val_of(dec(n).drop_last()) * 10 + digit_val(dec(n).last()));
    } else {
        lemma_val_of_dec(n / 10);
        assert(dec(n) == dec(n / 10) + seq![dec_digit(n % 10)]);
        assert(dec(n).drop_last() =~= dec(n / 10));
        assert(dec(n).last() == dec_digit(n % 10));
        assert(digit_val(dec_digit(n % 10)) == n % 10);
        assert(val_of(dec(n)) == val_of(dec(n).drop_last()) * 10 + digit_val(dec(n).last()));
    }
}

/// Two characters with the same code point are the same character.
pub proof fn lemma_char_code_eq(a: char, b: char)
    requires
        a as u32 == b as u32,
    ensures
        a == b,
{
    vstd::utf8::char_u32_cast(a, a as u32);
    vstd::utf8::char_u32_cast(b, b as u32);
}

/// Distinct numbers have distinct decimal numerals.
pub proof fn lemma_dec_injective(a: nat, b: nat)
    requires
        a != b,
    ensures
        dec(a) != dec(b),
{
    lemma_val_of_dec(a);
    lemma_val_of_dec(b);
}

/// Every character of a numeral is a digit, and only `dec(0)` starts with '0'.
pub proof fn lemma_dec_digits(n: nat)
    ensures
        dec(n).len() >= 1,
        forall|i: int| 0 <= i < dec(n).len() ==> is_digit(#[trigger] dec(n)[i]),
        n > 0 ==> dec(n)[0] != '0',
    decreases n,
{
    if n < 10 {
        assert(dec(n) == seq![dec_digit(n)]);
        assert(is_digit(dec_digit(n)));
    } else {
        lemma_dec_digits(n / 10);
        assert(dec(n) == dec(n / 10) + seq![dec_digit(n % 10)]);
        assert(is_digit(dec_digit(n % 10)));
        assert(dec(n)[0] == dec(n / 10)[0]);
        assert forall|i: int| 0 <= i < dec(n).len() implies is_digit(#[trigger] dec(n)[i]) by {
            if i < dec(n / 10).len() {
                assert(dec(n)[i] == dec(n / 10)[i]);
            } else {
                assert(dec(n)[i] == dec_digit(n % 10));
            }
        }
    }
}

/// The longest digit prefix of `s`.
pub open spec fn take_digits(s: Seq<char>) -> Seq<char>
    decreases s.len(),
{
    if s.len() > 0 && is_digit(s[0]) {
        seq![s[0]] + take_digits(s.drop_first())
    } else {
        Seq::empty()
    }
}

/// An unsigned decimal number at the front of `s`: its value and what follows.
/// Rejected: an empty digit string, a leading zero, a value above `u32::MAX`.
pub open spec fn sp_number(s: Seq<char>) -> Option<(u32, Seq<char>)> {
    let ds = take_digits(s);
    if ds.len() == 0 {
        None
    } else if ds.len() > 1 && ds[0] == '0' {
        None
    } else if val_of(ds) > u32::MAX {
        None
    } else {
        Some((val_of(ds) as u32, s.skip(ds.len() as int)))
    }
}

pub proof fn lemma_take_digits_exact(d: Seq<char>, rest: Seq<char>)
    requires
        forall|i: int| 0 <= i < d.len() ==> is_digit(#[trigger] d[i]),
        rest.len() == 0 || !is_digit(rest[0]),
    ensures
        take_digits(d + rest) == d,
    decreases d.len(),
{
    if d.len() == 0 {
        assert(d + rest =~= rest);
        assert(take_digits(rest) =~= Seq::<char>::empty());
        assert(take_digits(d + rest) =~= d);
    } else {
        assert((d + rest)[0] == d[0]);
        assert((d + rest).drop_first() =~= d.drop_first() + rest);
        lemma_take_digits_exact(d.drop_first(), rest);
        assert(take_digits(d + rest) =~= seq![d[0]] + d.drop_first());
        assert(seq![d[0]] + d.drop_first() =~= d);
    }
}

/// Parsing undoes printing: the numeral of `n` followed by a non-digit
/// parses back to `n`.
pub proof fn lemma_number_round_trip(n: u32, rest: Seq<char>)
    requires
        rest.len() == 0 || !is_digit(rest[0]),
    ensures
        sp_number(dec(n as nat) + rest) == Some((n, rest)),
{
    lemma_dec_digits(n as nat);
    lemma_val_of_dec(n as nat);
    lemma_take_digits_exact(dec(n as nat), rest);
    let s = dec(n as nat) + rest;
    assert(take_digits(s) == dec(n as nat));
    if n == 0 {
        assert(dec(0nat) == seq![dec_digit(0)]);
        assert(dec(n as nat).len() == 1);
    }
    assert(s.skip(dec(n as nat).len() as int) =~= rest);
}

/// A digit string of more than ten digits with no leading zero denotes a
/// value above `u32::MAX`.
proof fn lemma_val_of_lower_bound(s: Seq<char>)
    requires
        s.len() >= 1,
        forall|i: int| 0 <= i < s.len() ==> is_digit(#[trigger] s[i]),
        s[0] != '0',
    ensures
        val_of(s) >= pow10((s.len() - 1) as nat),
    decreases s.len(),
{
    if s.len() == 1 {
        assert(s.drop_last() =~= Seq::<char>::empty());
        if digit_val(s[0]) == 0 {
            assert(s[0] as u32 == 0x30);
            assert('0' as u32 == 0x30);
            lemma_char_code_eq(s[0], '0');
        }
        assert(digit_val(s[0]) >= 1);
        assert(val_of(s) == val_of(s.drop_last()) * 10 + digit_val(s.last()));
        assert(pow10(0) == 1);
    } else {
        assert(s.drop_last()[0] == s[0]);
        lemma_val_of_lower_bound(s.drop_last());
    }
}

proof fn lemma_pow10_ten()
    ensures
        pow10(10) == 10_000_000_000,
{
    assert(pow10(0) == 1);
    assert(pow10(1) == 10);
    assert(pow10(2) == 100);
    assert(pow10(3) == 1000);
    assert(pow10(4) == 10000);
    assert(pow10(5) == 100000);
    assert(pow10(6) == 1000000);
    assert(pow10(7) == 10000000);
    assert(pow10(8) == 100000000);
    assert(pow10(9) == 1000000000);
}

fn digit_char(d: u32) -> (c: char)
    requires
        d < 10,
    ensures
        c == dec_digit(d as nat),
{
    if d == 0 {
        '0'
    } else if d == 1 {
        '1'
    } else if d == 2 {
        '2'
    } else if d == 3 {
        '3'
    } else if d == 4 {
        '4'
    } else if d == 5 {
        '5'
    } else if d == 6 {
        '6'
    } else if d == 7 {
        '7'
    } else if d == 8 {
        '8'
    } else {
        '9'
    }
}

/// Appends the decimal digits of `n`.
pub(crate) fn push_dec(n: u32, v: &mut Vec<char>)
    ensures
        final(v)@ == old(v)@ + dec(n as nat),
    decreases n,
{
    if n >= 10 {
        push_dec(n / 10, v);
    }
    v.push(digit_char(n % 10));
    if n < 10 {
        assert(v@ =~= old(v)@ + dec(n as nat));
    } else {
        assert(v@ =~= old(v)@ + (dec((n / 10) as nat) + seq![dec_digit((n % 10) as nat)]));
        assert(v@ =~= old(v)@ + dec(n as nat));
    }
}

pub fn is_digit_char(c: char) -> (r: bool)
    ensures
        r == is_digit(c),
{
    let u = c as u32;
    0x30 <= u && u <= 0x39
}

/// Reads an unsigned decimal number from the front of `s`, exactly as
/// `sp_number` describes: the value and the index just past the digits.
pub fn parse_number(s: &[char]) -> (r: Option<(u32, usize)>)
    ensures
        match sp_number(s@) {
            None => r is None,
            Some((v, rest)) => {
                &&& r is Some
                &&& r->Some_0.0 == v
                &&& r->Some_0.1 <= s@.len()
                &&& rest == s@.skip(r->Some_0.1 as int)
            },
        },
{
    let len = s.len();
    let mut k: usize = 0;
    while k < len && is_digit_char(s[k])
        invariant
            0 <= k <= len,
            len == s@.len(),
            forall|j: int| 0 <= j < k ==> is_digit(#[trigger] s@[j]),
        decreases len - k,
    {
        k = k + 1;
    }
    proof {
        assert(s@ =~= s@.take(k as int) + s@.skip(k as int));
        if k < len {
            assert(s@.skip(k as int)[0] == s@[k as int]);
        }
        lemma_take_digits_exact(s@.take(k as int), s@.skip(k as int));
        assert(take_digits(s@) == s@.take(k as int));
    }
    let ghost ds = take_digits(s@);
    if k == 0 {
        return None;
    }
    if k > 1 && s[0] == '0' {
        assert(ds[0] == s@[0]);
        return None;
    }
    if k > 10 {
        proof {
            assert(ds[0] == s@[0]);
            lemma_val_of_lower_bound(ds);
            lemma_pow10_ten();
            assert(pow10((ds.len() - 1) as nat) >= pow10(10)) by {
                lemma_pow10_monotone(10, (ds.len() - 1) as nat);
            }
        }
        return None;
    }
    let mut acc: u64 = 0;
    let mut j: usize = 0;
    proof {
        assert(pow10(0) == 1);
        lemma_pow10_monotone(0, 10);
        assert(s@.take(0) =~= Seq::<char>::empty());
    }
    while j < k
        invariant
            0 <= j <= k <= 10,
            k <= len,
            len == s@.len(),
            ds == take_digits(s@),
            ds == s@.take(k as int),
            forall|i: int| 0 <= i < k ==> is_digit(#[trigger] s@[i]),
            acc == val_of(s@.take(j as int)),
            acc < pow10(j as nat),
            pow10(j as nat) <= pow10(10),
        decreases k - j,
    {
        proof {
            lemma_pow10_ten();
            lemma_pow10_monotone((j + 1) as nat, 10);
            assert(s@.take(j + 1).drop_last() =~= s@.take(j as int));
            assert(s@.take(j + 1).last() == s@[j as int]);
            assert(is_digit(s@[j as int]));
        }
        let d = (s[j] as u32) - 0x30;
        acc = acc * 10 + (d as u64);
        j = j + 1;
    }
    assert(s@.take(k as int) == ds);
    if acc > 0xFFFF_FFFF {
        return None;
    }
    assert(val_of(ds) <= u32::MAX);
    Some((acc as u32, k))
}

proof fn lemma_pow10_monotone(a: nat, b: nat)
    requires
        a <= b,
    ensures
        pow10(a) <= pow10(b),
    decreases b,
{
    if a < b {
        lemma_pow10_monotone(a, (b - 1) as nat);
    }
}

} // verus!
