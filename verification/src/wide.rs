use vstd::prelude::*;
use vstd::arithmetic::div_mod::{lemma_fundamental_div_mod, lemma_div_is_ordered,
    lemma_div_by_multiple};
use vstd::arithmetic::mul::lemma_mul_inequality;
use primitive_types::U256;

verus! {

/// The value of a 256-bit quantity held as two 128-bit halves.
pub open spec fn wide_val(hi: u128, lo: u128) -> int {
    hi * two_pow_128() + lo
}

pub open spec fn two_pow_128() -> int {
    0x100000000000000000000000000000000int
}

pub open spec fn two_pow_256() -> int {
    two_pow_128() * two_pow_128()
}

/// All characters are decimal digits.
pub open spec fn is_dec_digits(s: Seq<char>) -> bool {
    forall|i: int| 0 <= i < s.len() ==> '0' <= #[trigger] s[i] <= '9'
}

/// The number a sequence of decimal digits denotes.
pub open spec fn dec_value(s: Seq<char>) -> int
    decreases s.len(),
{
    if s.len() == 0 {
        0
    } else {
        dec_value(s.drop_last()) * 10 + (s.last() as int - '0' as int)
    }
}

pub open spec fn dec_digit_char(d: int) -> char {
    if d == 0 {
        '0'
    } else if d == 1 {
        '1'
    } else if d == 2 {
        '2'
    } else if d == 3 {
        '3'
    } else if d == 4 {
        '4'
    } else if d == 5 {
        '5'
    } else if d == 6 {
        '6'
    } else if d == 7 {
        '7'
    } else if d == 8 {
        '8'
    } else {
        '9'
    }
}

/// The canonical decimal rendering of a number: no leading zero except for
/// the number zero itself.
pub open spec fn dec_str(n: nat) -> Seq<char>
    decreases n,
{
    if n < 10 {
        seq![dec_digit_char(n as int)]
    } else {
        dec_str(n / 10).push(dec_digit_char((n % 10) as int))
    }
}

pub proof fn lemma_dec_str_value(n: nat)
    ensures
        is_dec_digits(dec_str(n)),
        dec_value(dec_str(n)) == n,
        dec_str(n).len() >= 1,
    decreases n,
{
    if n < 10 {
        let s = dec_str(n);
        assert(s =~= seq![dec_digit_char(n as int)]);
        assert(s.drop_last() =~= Seq::<char>::empty());
        assert(dec_value(s.drop_last()) == 0);
        assert(s.last() == dec_digit_char(n as int));
        assert(dec_digit_char(n as int) as int - '0' as int == n);
        assert(dec_value(s) == dec_value(s.drop_last()) * 10 + (s.last() as int - '0' as int));
    } else {
        lemma_dec_str_value(n / 10);
        lemma_fundamental_div_mod(n as int, 10);
        let s = dec_str(n);
        assert(s == dec_str(n / 10).push(dec_digit_char((n % 10) as int)));
        assert(s.drop_last() =~= dec_str(n / 10));
        assert(s.last() == dec_digit_char((n % 10) as int));
        assert(0 <= n % 10 < 10);
        assert(s.last() as int - '0' as int == n % 10);
        assert(dec_value(s) == dec_value(s.drop_last()) * 10 + (s.last() as int - '0' as int));
        assert(dec_value(s) == (n / 10) * 10 + n % 10);
    }
}

/// Relies on `primitive_types::U256` multiplication: the full 256-bit
/// product of two 128-bit factors, split into its high and low halves.
#[verifier::external_body]
pub(crate) fn u256_mul(a: u128, b: u128) -> (r: (u128, u128))
    ensures
        wide_val(r.0, r.1) == a * b,
{
    let p = U256::from(a) * U256::from(b);
    ((p >> 128).low_u128(), p.low_u128())
}

/// Relies on `primitive_types::U256` division: the floor quotient of a
/// 256-bit value by a nonzero 128-bit divisor, split into halves.
#[verifier::external_body]
pub(crate) fn u256_div(ah: u128, al: u128, d: u128) -> (r: (u128, u128))
    requires
        d != 0,
    ensures
        wide_val(r.0, r.1) == wide_val(ah, al) / (d as int),
{
    let x = (U256::from(ah) << 128) | U256::from(al);
    let q = x / U256::from(d);
    ((q >> 128).low_u128(), q.low_u128())
}

/// Relies on `primitive_types::U256::checked_add`: the 256-bit sum, or
/// `None` when it would not fit in 256 bits.
#[verifier::external_body]
pub(crate) fn u256_checked_add(ah: u128, al: u128, bh: u128, bl: u128) -> (r: Option<
    (u128, u128),
>)
    ensures
        match r {
            Some(s) => wide_val(ah, al) + wide_val(bh, bl) < two_pow_256() && wide_val(s.0, s.1)
                == wide_val(ah, al) + wide_val(bh, bl),
            None => wide_val(ah, al) + wide_val(bh, bl) >= two_pow_256(),
        },
{
    let x = (U256::from(ah) << 128) | U256::from(al);
    let y = (U256::from(bh) << 128) | U256::from(bl);
    match x.checked_add(y) {
        Some(s) => Some(((s >> 128).low_u128(), s.low_u128())),
        None => None,
    }
}

/// Relies on `primitive_types::U256`'s `Display`: the canonical decimal
/// rendering, without leading zeros.
#[verifier::external_body]
pub(crate) fn u256_to_dec_string(hi: u128, lo: u128) -> (r: String)
    ensures
        r@ == dec_str(wide_val(hi, lo) as nat),
{
    let x = (U256::from(hi) << 128) | U256::from(lo);
    x.to_string()
}

/// Relies on `primitive_types::U256::from_dec_str`: parses a string of
/// decimal digits, and refuses any other character or a value of 256 bits
/// or more.
#[verifier::external_body]
pub(crate) fn u256_from_dec_str(s: &str) -> (r: Option<(u128, u128)>)
    ensures
        match r {
            Some(p) => is_dec_digits(s@) && dec_value(s@) < two_pow_256() && wide_val(p.0, p.1)
                == dec_value(s@),
            None => !(is_dec_digits(s@) && dec_value(s@) < two_pow_256()),
        },
{
    match U256::from_dec_str(s) {
        Ok(v) => Some(((v >> 128).low_u128(), v.low_u128())),
        Err(_) => None,
    }
}

/// `a * b / d` computed through a 256-bit intermediate; `None` when the
/// quotient does not fit in 128 bits.
pub fn mul_div(a: u128, b: u128, d: u128) -> (r: Option<u128>)
    requires
        d != 0,
    ensures
        a * b / (d as int) <= u128::MAX ==> r == Some((a * b / (d as int)) as u128),
        a * b / (d as int) > u128::MAX ==> r is None,
{
    let p = u256_mul(a, b);
    let q = u256_div(p.0, p.1, d);
    proof {
        assert(wide_val(q.0, q.1) == a * b / (d as int));
        if q.0 == 0 {
            assert(wide_val(q.0, q.1) == q.1);
        } else {
            assert(q.0 * two_pow_128() >= 1 * two_pow_128()) by {
                lemma_mul_inequality(1, q.0 as int, two_pow_128());
            }
        }
    }
    if q.0 == 0 {
        Some(q.1)
    } else {
        None
    }
}

/// `a * b / d` when `b <= d`, in which case the quotient always fits.
pub fn mul_frac(a: u128, b: u128, d: u128) -> (r: u128)
    requires
        0 < d,
        b <= d,
    ensures
        r == a * b / (d as int),
        r <= a,
{
    proof {
        lemma_mul_inequality(b as int, d as int, a as int);
        assert(a * b == b * a) by (nonlinear_arith);
        assert(a * d == d * a) by (nonlinear_arith);
        lemma_div_is_ordered(a * b, a * (d as int), d as int);
        lemma_div_by_multiple(a as int, d as int);
        assert(a * b / (d as int) <= a);
    }
    let r = mul_div(a, b, d);
    match r {
        Some(v) => v,
        None => 0,
    }
}

} // verus!
