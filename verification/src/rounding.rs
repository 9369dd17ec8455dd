//! Decimal text read as an IEEE 754 binary64 number, modelled with integers.
//!
//! Transfer sizes such as `100.00MiB` are read the way the standard library
//! reads a decimal into a 64-bit float: the decimal is rounded to the nearest
//! representable value, ties to even.  The model below states that rounding
//! over exact rationals, and the executable code computes it with integer
//! arithmetic only.

use vstd::arithmetic::power2::{lemma_pow2_adds, lemma_pow2_pos, lemma_pow2_strictly_increases, lemma_pow2_unfold, pow2};
use crate::text::{all_digits, digit_value, digits_value, is_digit, lemma_digits_value_monotone};
use vstd::prelude::*;

verus! {

// ---------------------------------------------------------------------------
// Digit strings
// ---------------------------------------------------------------------------

/// `10^k`.
pub open spec fn pow10(k: nat) -> nat
    decreases k,
{
    if k == 0 {
        1
    } else {
        10 * pow10((k - 1) as nat)
    }
}

/// The value of a sequence of decimal digit values, most significant first.
pub open spec fn digit_seq_value(s: Seq<u8>) -> nat
    decreases s.len(),
{
    if s.len() == 0 {
        0
    } else {
        digit_seq_value(s.drop_last()) * 10 + s.last() as nat
    }
}

/// Whether every entry of `s` is a decimal digit value.
pub open spec fn digit_values(s: Seq<u8>) -> bool {
    forall|i: int| 0 <= i < s.len() ==> #[trigger] s[i] < 10
}

pub proof fn lemma_pow10_positive(k: nat)
    ensures
        pow10(k) >= 1,
    decreases k,
{
    if k > 0 {
        lemma_pow10_positive((k - 1) as nat);
    }
}

/// The value of `a` followed by `b`.
pub proof fn lemma_digit_seq_concat(a: Seq<u8>, b: Seq<u8>)
    ensures
        digit_seq_value(a + b) == digit_seq_value(a) * pow10(b.len()) + digit_seq_value(b),
    decreases b.len(),
{
    if b.len() == 0 {
        assert(a + b =~= a);
        assert(pow10(0) == 1);
        assert(digit_seq_value(b) == 0);
    } else {
        let b1 = b.drop_last();
        lemma_digit_seq_concat(a, b1);
        assert((a + b).drop_last() =~= a + b1);
        assert((a + b).last() == b.last());
        let p = pow10(b1.len());
        assert(pow10(b.len()) == 10 * p);
        assert(digit_seq_value(a + b) == digit_seq_value(a + b1) * 10 + b.last() as nat);
        assert(digit_seq_value(b) == digit_seq_value(b1) * 10 + b.last() as nat);
        assert((digit_seq_value(a) * p + digit_seq_value(b1)) * 10 + b.last() as nat
            == digit_seq_value(a) * (10 * p) + (digit_seq_value(b1) * 10 + b.last() as nat))
            by (nonlinear_arith);
        assert(digit_seq_value(a + b) == digit_seq_value(a) * pow10(b.len()) + digit_seq_value(b));
    }
}

/// A string of `k` digits is worth less than `10^k`.
pub proof fn lemma_digit_seq_bound(s: Seq<u8>)
    requires
        digit_values(s),
    ensures
        digit_seq_value(s) < pow10(s.len()),
    decreases s.len(),
{
    if s.len() > 0 {
        let s1 = s.drop_last();
        assert(digit_values(s1)) by {
            assert forall|i: int| 0 <= i < s1.len() implies #[trigger] s1[i] < 10 by {
                assert(s1[i] == s[i]);
            }
        }
        lemma_digit_seq_bound(s1);
        let v = digit_seq_value(s1);
        let p = pow10(s1.len());
        assert(s.last() < 10) by {
            assert(s[s.len() - 1] < 10);
        }
        assert(v * 10 + (s.last() as nat) < 10 * p) by (nonlinear_arith)
            requires
                v < p,
                s.last() < 10,
        ;
    }
}

// ---------------------------------------------------------------------------
// Doubling a decimal fraction
// ---------------------------------------------------------------------------

/// Doubles the `len`-digit number in `digits` in place and returns the
/// digit carried out: `2 * old == carry * 10^len + new`.
pub fn double_digits(digits: &mut Vec<u8>) -> (carry: u8)
    requires
        digit_values(old(digits)@),
    ensures
        final(digits)@.len() == old(digits)@.len(),
        digit_values(final(digits)@),
        carry <= 1,
        2 * digit_seq_value(old(digits)@) == carry as nat * pow10(old(digits)@.len())
            + digit_seq_value(final(digits)@),
{
    let ghost start = digits@;
    let len = digits.len();
    let mut i: usize = len;
    let mut carry: u8 = 0;
    assert(start.subrange(len as int, len as int) =~= Seq::<u8>::empty());
    while i > 0
        invariant
            i <= len,
            len == start.len(),
            digits@.len() == len,
            digit_values(start),
            digit_values(digits@),
            carry <= 1,
            forall|j: int| 0 <= j < i ==> digits@[j] == start[j],
            2 * digit_seq_value(start.subrange(i as int, len as int)) == carry as nat * pow10(
                (len - i) as nat,
            ) + digit_seq_value(digits@.subrange(i as int, len as int)),
        decreases i,
    {
        let k = i - 1;
        let x = digits[k];
        assert(x == start[k as int]);
        assert(x < 10);
        let twice: u8 = 2 * x + carry;
        let y: u8 = twice % 10;
        let c: u8 = twice / 10;
        let ghost old_tail = start.subrange(i as int, len as int);
        let ghost new_tail = digits@.subrange(i as int, len as int);
        let ghost before = digits@;
        digits.set(k, y);
        proof {
            let p = pow10((len - i) as nat);
            assert(start.subrange(k as int, len as int) =~= seq![x] + old_tail);
            assert(digits@.subrange(i as int, len as int) =~= new_tail);
            assert(digits@.subrange(k as int, len as int) =~= seq![y] + new_tail);
            lemma_digit_seq_concat(seq![x], old_tail);
            lemma_digit_seq_concat(seq![y], new_tail);
            assert(seq![x].drop_last() =~= Seq::<u8>::empty());
            assert(seq![y].drop_last() =~= Seq::<u8>::empty());
            assert(seq![x].last() == x);
            assert(seq![y].last() == y);
            assert(digit_seq_value(Seq::<u8>::empty()) == 0);
            assert(digit_seq_value(seq![x]) == x as nat);
            assert(digit_seq_value(seq![y]) == y as nat);
            assert(old_tail.len() == len - i);
            assert(pow10((len - k) as nat) == 10 * p);
            assert(twice == 10 * c + y);
            assert(2 * (x as nat * p + digit_seq_value(old_tail)) == c as nat * (10 * p) + (y as nat
                * p + digit_seq_value(new_tail))) by (nonlinear_arith)
                requires
                    2 * digit_seq_value(old_tail) == carry as nat * p + digit_seq_value(new_tail),
                    2 * x + carry == 10 * c + y,
            ;
            assert forall|j: int| 0 <= j < digits@.len() implies #[trigger] digits@[j] < 10 by {
                if j != k {
                    assert(digits@[j] == before[j]);
                }
            }
        }
        carry = c;
        i = k;
    }
    assert(start.subrange(0, len as int) =~= start);
    assert(digits@.subrange(0, len as int) =~= digits@);
    carry
}

// ---------------------------------------------------------------------------
// Rounding a rational to binary64
// ---------------------------------------------------------------------------

/// The rational `num / den` divided by `2^e`, as a numerator and a
/// denominator.
pub open spec fn scaled_ratio(num: nat, den: nat, e: int) -> (nat, nat) {
    if e <= 0 {
        (num * pow2((-e) as nat), den)
    } else {
        (num, den * pow2(e as nat))
    }
}

/// Whether `2^e <= num / den < 2^(e + 1)`.
pub open spec fn in_binade(num: nat, den: nat, e: int) -> bool {
    let (a, b) = scaled_ratio(num, den, e);
    b <= a && a < 2 * b
}

/// The exponent `e` with `2^e <= num / den < 2^(e + 1)` (for `num > 0`).
pub open spec fn binade(num: nat, den: nat) -> int {
    choose|e: int| in_binade(num, den, e)
}

/// `a / b` rounded to the nearest integer, ties to the even one.
pub open spec fn round_half_even(a: nat, b: nat) -> nat {
    let q = a / b;
    let r = a % b;
    if 2 * r > b {
        q + 1
    } else if 2 * r < b {
        q
    } else if q % 2 == 0 {
        q
    } else {
        q + 1
    }
}

/// A non-negative binary64 value: `mantissa * 2^exponent`, or infinity.
pub enum Binary64 {
    Finite { mantissa: nat, exponent: int },
    Infinite,
}

/// The binary64 value nearest to `num / den`, ties to even: 53 significant
/// bits, subnormal spacing `2^-1074` below `2^-1022`, and infinity from
/// `2^1024` on.
pub open spec fn nearest_binary64(num: nat, den: nat) -> Binary64 {
    if num == 0 {
        Binary64::Finite { mantissa: 0, exponent: 0 }
    } else {
        let e = binade(num, den);
        let unit = if e < -1022 {
            -1074
        } else {
            e - 52
        };
        let (a, b) = scaled_ratio(num, den, unit);
        let m = round_half_even(a, b);
        if unit >= 0 && m * pow2(unit as nat) >= pow2(1024) {
            Binary64::Infinite
        } else {
            Binary64::Finite { mantissa: m, exponent: unit }
        }
    }
}

/// `v * 2^shift` converted to `u64` the way `as u64` converts a float:
/// rounded toward zero, and `u64::MAX` for what does not fit.
pub open spec fn truncate_to_u64(v: Binary64, shift: nat) -> u64 {
    match v {
        Binary64::Infinite => u64::MAX,
        Binary64::Finite { mantissa, exponent } => {
            let t = exponent + shift;
            let w = if t >= 0 {
                mantissa * pow2(t as nat)
            } else {
                mantissa / pow2((-t) as nat)
            };
            if w >= u64::MAX {
                u64::MAX
            } else {
                w as u64
            }
        },
    }
}

/// The first `k` binary digits of the fraction `value(digits) / 10^len`
/// as an integer, and whether anything nonzero remains after them.
fn fraction_bits(digits: Vec<u8>, k: u32) -> (r: (u128, bool))
    requires
        digit_values(digits@),
        k <= 120,
    ensures
        r.0 as nat == digit_seq_value(digits@) * pow2(k as nat) / pow10(digits@.len()),
        r.1 == (digit_seq_value(digits@) * pow2(k as nat) % pow10(digits@.len()) != 0),
{
    let ghost f = digit_seq_value(digits@);
    let ghost den = pow10(digits@.len());
    let mut fd = digits;
    let mut bits: u128 = 0;
    let mut i: u32 = 0;
    proof {
        lemma_pow10_positive(fd@.len());
        lemma_digit_seq_bound(fd@);
        lemma_pow2_pos(0);
        assert(pow2(0) == 1) by {
            vstd::arithmetic::power2::lemma2_to64();
        }
    }
    while i < k
        invariant
            i <= k,
            k <= 120,
            fd@.len() == digits@.len(),
            den == pow10(digits@.len()),
            den >= 1,
            digit_values(fd@),
            digit_seq_value(fd@) < den,
            bits < pow2(i as nat),
            f * pow2(i as nat) == bits * den + digit_seq_value(fd@),
        decreases k - i,
    {
        let ghost before = fd@;
        let c = double_digits(&mut fd);
        proof {
            lemma_digit_seq_bound(fd@);
            lemma_pow2_unfold((i + 1) as nat);
            assert(pow2((i + 1) as nat) == 2 * pow2(i as nat));
            let v0 = digit_seq_value(before);
            let v1 = digit_seq_value(fd@);
            assert(c == 0 || c == 1);
            assert(f * pow2((i + 1) as nat) == (2 * bits + c) * den + v1) by (nonlinear_arith)
                requires
                    f * pow2(i as nat) == bits * den + v0,
                    2 * v0 == c * den + v1,
                    pow2((i + 1) as nat) == 2 * pow2(i as nat),
            ;
            assert(2 * bits + c < pow2((i + 1) as nat));
            assert(pow2((i + 1) as nat) <= pow2(121)) by {
                if i + 1 < 121 {
                    lemma_pow2_strictly_increases((i + 1) as nat, 121);
                }
            }
            assert(pow2(121) == 0x2000000000000000000000000000000) by {
                lemma_pow2_adds(64, 57);
                vstd::arithmetic::power2::lemma2_to64();
                vstd::arithmetic::power2::lemma2_to64_rest();
                lemma_pow2_adds(32, 25);
            }
        }
        bits = 2 * bits + c as u128;
        i = i + 1;
    }
    let mut sticky = false;
    let mut j: usize = 0;
    while j < fd.len()
        invariant
            j <= fd@.len(),
            sticky == (exists|x: int| 0 <= x < j && fd@[x] != 0),
        decreases fd@.len() - j,
    {
        if fd[j] != 0 {
            sticky = true;
        }
        j = j + 1;
    }
    proof {
        vstd::arithmetic::div_mod::lemma_fundamental_div_mod_converse(
            (f * pow2(k as nat)) as int,
            den as int,
            bits as int,
            digit_seq_value(fd@) as int,
        );
        lemma_zero_digits(fd@);
    }
    (bits, sticky)
}

/// A digit string is worth zero exactly when all its digits are zero.
proof fn lemma_zero_digits(s: Seq<u8>)
    ensures
        (digit_seq_value(s) == 0) <==> (forall|x: int| 0 <= x < s.len() ==> s[x] == 0),
    decreases s.len(),
{
    if s.len() > 0 {
        let s1 = s.drop_last();
        lemma_zero_digits(s1);
        if digit_seq_value(s) == 0 {
            assert forall|x: int| 0 <= x < s.len() implies s[x] == 0 by {
                if x < s.len() - 1 {
                    assert(s1[x] == s[x]);
                }
            }
        }
        if forall|x: int| 0 <= x < s.len() ==> s[x] == 0 {
            assert forall|x: int| 0 <= x < s1.len() implies s1[x] == 0 by {
                assert(s1[x] == s[x]);
            }
            assert(s[s.len() - 1] == 0);
        }
    }
}

/// `2^k` for `k < 128`.
fn pow2_u128(k: u32) -> (r: u128)
    requires
        k < 128,
    ensures
        r as nat == pow2(k as nat),
{
    let mut r: u128 = 1;
    let mut i: u32 = 0;
    proof {
        vstd::arithmetic::power2::lemma2_to64();
    }
    while i < k
        invariant
            i <= k,
            k < 128,
            r as nat == pow2(i as nat),
        decreases k - i,
    {
        proof {
            lemma_pow2_unfold((i + 1) as nat);
            lemma_pow2_strictly_increases((i + 1) as nat, 128);
            assert(pow2(128) == 0x1_0000_0000_0000_0000 * 0x1_0000_0000_0000_0000) by {
                lemma_pow2_adds(64, 64);
                vstd::arithmetic::power2::lemma2_to64();
            }
        }
        r = r * 2;
        i = i + 1;
    }
    r
}

// ---------------------------------------------------------------------------
// Facts about the rounding model
// ---------------------------------------------------------------------------

proof fn lemma_scale_compare(x: int, y: int, c: int)
    requires
        c > 0,
    ensures
        (x <= y) == (x * c <= y * c),
        (x < y) == (x * c < y * c),
{
    if x <= y {
        assert(x * c <= y * c) by (nonlinear_arith)
            requires
                x <= y,
                c > 0,
        ;
    } else {
        assert(x * c > y * c) by (nonlinear_arith)
            requires
                x > y,
                c > 0,
        ;
    }
    if x < y {
        assert(x * c < y * c) by (nonlinear_arith)
            requires
                x < y,
                c > 0,
        ;
    } else {
        assert(x * c >= y * c) by (nonlinear_arith)
            requires
                x >= y,
                c > 0,
        ;
    }
}

proof fn lemma_pow2_le(a: nat, b: nat)
    requires
        a <= b,
    ensures
        pow2(a) <= pow2(b),
{
    if a < b {
        lemma_pow2_strictly_increases(a, b);
    }
}

/// `in_binade` compared after scaling both sides by `2^k`.
proof fn lemma_binade_scaled(num: nat, den: nat, e: int, k: nat)
    requires
        den > 0,
        e + k >= 0,
    ensures
        in_binade(num, den, e) == (pow2((e + k) as nat) * den <= num * pow2(k) && num * pow2(k)
            < 2 * pow2((e + k) as nat) * den),
{
    let ek = (e + k) as nat;
    lemma_pow2_pos(ek);
    lemma_pow2_pos(k);
    if e <= 0 {
        let j = (-e) as nat;
        lemma_pow2_adds(j, ek);
        assert(j + ek == k);
        let c = pow2(ek);
        let a = num * pow2(j);
        assert(a * c == num * pow2(k)) by (nonlinear_arith)
            requires
                a == num * pow2(j),
                pow2(k) == pow2(j) * c,
        ;
        lemma_scale_compare(den as int, a as int, c as int);
        lemma_scale_compare(a as int, 2 * den as int, c as int);
        assert(den * c == c * den) by (nonlinear_arith);
        assert(2 * den * c == 2 * c * den) by (nonlinear_arith);
        assert(scaled_ratio(num, den, e) == (a, den));
        assert((den <= a) == (pow2(ek) * den <= num * pow2(k)));
        assert((a < 2 * den) == (num * pow2(k) < 2 * pow2(ek) * den));
    } else {
        let j = e as nat;
        lemma_pow2_adds(j, k);
        assert(j + k == ek);
        let b = den * pow2(j);
        assert(b * pow2(k) == pow2(ek) * den) by (nonlinear_arith)
            requires
                b == den * pow2(j),
                pow2(ek) == pow2(j) * pow2(k),
        ;
        lemma_scale_compare(b as int, num as int, pow2(k) as int);
        lemma_scale_compare(num as int, 2 * b as int, pow2(k) as int);
        assert(2 * b * pow2(k) == 2 * (b * pow2(k))) by (nonlinear_arith);
        assert(2 * (pow2(ek) * den) == 2 * pow2(ek) * den) by (nonlinear_arith);
        assert(scaled_ratio(num, den, e) == (num, b));
        assert((b <= num) == (pow2(ek) * den <= num * pow2(k)));
        assert((num < 2 * b) == (num * pow2(k) < 2 * pow2(ek) * den));
    }
}

/// At most one exponent places `num / den` in its binade.
proof fn lemma_binade_unique(num: nat, den: nat, e1: int, e2: int)
    requires
        den > 0,
        in_binade(num, den, e1),
        in_binade(num, den, e2),
    ensures
        e1 == e2,
{
    let k: nat = (if e1 < 0 { -e1 } else { e1 }) as nat + (if e2 < 0 { -e2 } else { e2 }) as nat;
    lemma_binade_scaled(num, den, e1, k);
    lemma_binade_scaled(num, den, e2, k);
    if e1 != e2 {
        let (lo, hi) = if e1 < e2 { (e1, e2) } else { (e2, e1) };
        let l = (lo + k) as nat;
        let h = (hi + k) as nat;
        lemma_pow2_unfold(l + 1);
        assert(pow2(l + 1) == 2 * pow2(l));
        lemma_pow2_le(l + 1, h);
        lemma_scale_compare(pow2(l + 1) as int, pow2(h) as int, den as int);
        assert(2 * pow2(l) * den == pow2(l + 1) * den);
    }
}

/// `floor(log2(x))` for `x >= 1`.
pub open spec fn log2_floor(x: nat) -> nat
    decreases x,
{
    if x < 2 {
        0
    } else {
        1 + log2_floor(x / 2)
    }
}

proof fn lemma_log2_floor(x: nat)
    requires
        x >= 1,
    ensures
        pow2(log2_floor(x)) <= x < pow2(log2_floor(x) + 1),
    decreases x,
{
    vstd::arithmetic::power2::lemma2_to64();
    if x >= 2 {
        let h = x / 2;
        lemma_log2_floor(h);
        let l = log2_floor(h);
        lemma_pow2_unfold(l + 1);
        lemma_pow2_unfold(l + 2);
        assert(log2_floor(x) == l + 1);
    }
}

proof fn lemma_pow2_exceeds(k: nat)
    ensures
        pow2(k) > k,
    decreases k,
{
    vstd::arithmetic::power2::lemma2_to64();
    if k > 0 {
        lemma_pow2_exceeds((k - 1) as nat);
        lemma_pow2_unfold(k);
    }
}

/// Every positive rational lies in some binade.
proof fn lemma_binade_exists(num: nat, den: nat)
    requires
        num > 0,
        den > 0,
    ensures
        in_binade(num, den, binade(num, den)),
{
    let k = den;
    lemma_pow2_exceeds(k);
    let big = num * pow2(k);
    assert(big >= pow2(k)) by (nonlinear_arith)
        requires
            num >= 1,
            big == num * pow2(k),
    ;
    let f = big / den;
    vstd::arithmetic::div_mod::lemma_fundamental_div_mod(big as int, den as int);
    assert(f >= 1) by (nonlinear_arith)
        requires
            big > den,
            f == big / den,
            den > 0,
    ;
    lemma_log2_floor(f);
    let l = log2_floor(f);
    let e = l - k;
    lemma_pow2_unfold(l + 1);
    lemma_scale_compare(pow2(l) as int, f as int, den as int);
    lemma_scale_compare((f + 1) as int, pow2(l + 1) as int, den as int);
    assert(f * den <= big) by (nonlinear_arith)
        requires
            f == big / den,
            den > 0,
    ;
    assert(big < (f + 1) * den) by (nonlinear_arith)
        requires
            f == big / den,
            den > 0,
    ;
    assert((f + 1) * den <= pow2(l + 1) * den);
    lemma_binade_scaled(num, den, e, k);
    assert(in_binade(num, den, e));
}

/// Scaling numerator and denominator by the same factor does not change
/// the rounded quotient.
proof fn lemma_round_scaled(a: nat, b: nat, c: nat)
    requires
        b > 0,
        c > 0,
    ensures
        round_half_even(a * c, b * c) == round_half_even(a, b),
{
    let q = a / b;
    let r = a % b;
    vstd::arithmetic::div_mod::lemma_fundamental_div_mod(a as int, b as int);
    assert(a * c == q * (b * c) + r * c) by (nonlinear_arith)
        requires
            a == b * q + r,
    ;
    assert(r * c < b * c) by (nonlinear_arith)
        requires
            r < b,
            c > 0,
    ;
    assert(b * c > 0) by (nonlinear_arith)
        requires
            b > 0,
            c > 0,
    ;
    vstd::arithmetic::div_mod::lemma_fundamental_div_mod_converse(
        (a * c) as int,
        (b * c) as int,
        q as int,
        (r * c) as int,
    );
    lemma_scale_compare(2 * r as int, b as int, c as int);
    lemma_scale_compare(b as int, 2 * r as int, c as int);
    assert(2 * r * c == 2 * (r * c)) by (nonlinear_arith);
}

/// Rounding bounds: below `k` stays at most `k`, from `k` on stays at least `k`.
proof fn lemma_round_bounds(a: nat, b: nat, k: nat)
    requires
        b > 0,
    ensures
        a < k * b ==> round_half_even(a, b) <= k,
        a >= k * b ==> round_half_even(a, b) >= k,
{
    let q = a / b;
    vstd::arithmetic::div_mod::lemma_fundamental_div_mod(a as int, b as int);
    if a < k * b {
        assert(q < k) by (nonlinear_arith)
            requires
                a < k * b,
                a == b * q + a % b,
                a % b >= 0,
                b > 0,
        ;
    }
    if a >= k * b {
        assert(q >= k) by (nonlinear_arith)
            requires
                a >= k * b,
                a == b * q + a % b,
                a % b < b,
                b > 0,
        ;
    }
}

/// Rounding `(x * den + r) / (den * 2^sh)` from the bits of `x`: the bits
/// above position `sh`, the bits below it, and whether `r` is nonzero.
proof fn lemma_round_from_bits(x: nat, den: nat, r: nat, p: nat, half: nat)
    requires
        den > 0,
        r < den,
        half > 0,
        p == 2 * half,
    ensures
        round_half_even(x * den + r, den * p) == (if x % p > half || (x % p == half && (r > 0
            || (x / p) % 2 == 1)) {
            x / p + 1
        } else {
            x / p
        }),
{
    let m0 = x / p;
    let rem = x % p;
    vstd::arithmetic::div_mod::lemma_fundamental_div_mod(x as int, p as int);
    let big = x * den + r;
    let low = rem * den + r;
    assert(big == m0 * (den * p) + low) by (nonlinear_arith)
        requires
            x == p * m0 + rem,
            big == x * den + r,
            low == rem * den + r,
    ;
    assert(low < den * p) by (nonlinear_arith)
        requires
            rem < p,
            r < den,
            low == rem * den + r,
    ;
    vstd::arithmetic::div_mod::lemma_fundamental_div_mod_converse(
        big as int,
        (den * p) as int,
        m0 as int,
        low as int,
    );
    if rem > half {
        assert(2 * low > den * p) by (nonlinear_arith)
            requires
                rem >= half + 1,
                p == 2 * half,
                low == rem * den + r,
                den > 0,
        ;
    } else if rem < half {
        assert(2 * low < den * p) by (nonlinear_arith)
            requires
                rem + 1 <= half,
                p == 2 * half,
                low == rem * den + r,
                r < den,
        ;
    } else {
        assert(2 * low == den * p + 2 * r) by (nonlinear_arith)
            requires
                rem == half,
                p == 2 * half,
                low == rem * den + r,
        ;
    }
}

/// A value of at least `2^64` converts to `u64::MAX`.
proof fn lemma_large_value(num: nat, den: nat, whole: nat, shift: nat)
    requires
        den > 0,
        whole >= pow2(64),
        num >= whole * den,
    ensures
        truncate_to_u64(nearest_binary64(num, den), shift) == u64::MAX,
{
    vstd::arithmetic::power2::lemma2_to64();
    assert(num > 0) by (nonlinear_arith)
        requires
            whole >= 1,
            den >= 1,
            num >= whole * den,
    ;
    lemma_binade_exists(num, den);
    let e = binade(num, den);
    if e < 64 {
        let k: nat = (if e < 0 { -e } else { 0 }) as nat;
        lemma_binade_scaled(num, den, e, k);
        let ek = (e + k) as nat;
        lemma_pow2_unfold(ek + 1);
        lemma_pow2_le(ek + 1, 64 + k);
        lemma_pow2_adds(64, k);
        lemma_pow2_pos(k);
        assert(num * pow2(k) >= pow2(64 + k) * den) by (nonlinear_arith)
            requires
                num >= whole * den,
                whole >= pow2(64),
                pow2(64 + k) == pow2(64) * pow2(k),
                pow2(k) > 0,
                den > 0,
        ;
        lemma_scale_compare(pow2(ek + 1) as int, pow2(64 + k) as int, den as int);
        assert(false);
    }
    let unit = e - 52;
    let u = unit as nat;
    lemma_binade_scaled(num, den, e, 0);
    lemma_pow2_adds(52, u);
    lemma_pow2_pos(u);
    assert(scaled_ratio(num, den, e) == (num, den * pow2(e as nat)));
    assert(num >= pow2(52) * (den * pow2(u))) by (nonlinear_arith)
        requires
            den * pow2(e as nat) <= num,
            pow2(e as nat) == pow2(52) * pow2(u),
    ;
    assert(den * pow2(u) > 0) by (nonlinear_arith)
        requires
            den > 0,
            pow2(u) > 0,
    ;
    lemma_round_bounds(num, den * pow2(u), pow2(52));
    let m = round_half_even(num, den * pow2(u));
    let v = nearest_binary64(num, den);
    if v is Finite {
        let t = (unit + shift) as nat;
        lemma_pow2_le(12, t);
        lemma_pow2_adds(52, 12);
        assert(m * pow2(t) >= pow2(52) * pow2(12)) by (nonlinear_arith)
            requires
                m >= pow2(52),
                pow2(t) >= pow2(12),
        ;
    }
}

/// A value below `2^-31` converts to zero, for shifts of at most 30.
proof fn lemma_small_value(num: nat, den: nat, shift: nat)
    requires
        den > 0,
        num * pow2(31) < den,
        shift <= 30,
    ensures
        truncate_to_u64(nearest_binary64(num, den), shift) == 0,
{
    vstd::arithmetic::power2::lemma2_to64();
    if num == 0 {
        assert(0 * pow2(shift) == 0);
    } else {
        lemma_binade_exists(num, den);
        let e = binade(num, den);
        if e >= -31 {
            lemma_binade_scaled(num, den, e, 31);
            lemma_pow2_pos((e + 31) as nat);
            assert(pow2((e + 31) as nat) * den >= den) by (nonlinear_arith)
                requires
                    pow2((e + 31) as nat) >= 1,
                    den > 0,
            ;
            assert(false);
        }
        let unit: int = if e < -1022 {
            -1074
        } else {
            e - 52
        };
        let j = (-unit) as nat;
        assert(j >= 84);
        let g = (j - 31) as nat;
        lemma_pow2_adds(31, g);
        assert(31 + g == j);
        let a = num * pow2(j);
        lemma_pow2_pos(g);
        assert(a < pow2(g) * den) by (nonlinear_arith)
            requires
                a == num * pow2(j),
                pow2(j) == pow2(31) * pow2(g),
                num * pow2(31) < den,
                pow2(g) > 0,
        ;
        lemma_pow2_pos(g);
        lemma_round_bounds(a, den, pow2(g));
        let m = round_half_even(a, den);
        let s = (j - shift) as nat;
        lemma_pow2_le((g + 1) as nat, s);
        lemma_pow2_unfold((g + 1) as nat);
        assert(m < pow2(s));
        vstd::arithmetic::div_mod::lemma_basic_div(m as int, pow2(s) as int);
    }
}

/// The rounding of `num / den`, from `x = floor(num * 2^k / den)` with
/// `2^t <= x < 2^(t+1)` and the remainder `r`.
proof fn lemma_rounded_from_bits(num: nat, den: nat, k: nat, x: nat, r: nat, t: nat)
    requires
        den > 0,
        num * pow2(k) == x * den + r,
        r < den,
        pow2(t) <= x < pow2(t + 1),
        53 <= t <= k + 63,
        k <= 84,
    ensures
        nearest_binary64(num, den) == (Binary64::Finite {
            mantissa: round_half_even(x * den + r, den * pow2((t - 52) as nat)),
            exponent: t - 52 - k,
        }),
        round_half_even(x * den + r, den * pow2((t - 52) as nat)) <= pow2(53),
{
    vstd::arithmetic::power2::lemma2_to64();
    let sh = (t - 52) as nat;
    let p = pow2(sh);
    lemma_pow2_pos(sh);
    lemma_pow2_pos(k);
    lemma_pow2_le(53, t);
    lemma_pow2_pos(t);
    assert(num > 0) by {
        if num == 0 {
            assert(x * den >= 1) by (nonlinear_arith)
                requires
                    x >= 1,
                    den >= 1,
            ;
        }
    }
    let e = t - k;
    lemma_pow2_unfold(t + 1);
    lemma_scale_compare(pow2(t) as int, x as int, den as int);
    lemma_scale_compare((x + 1) as int, pow2(t + 1) as int, den as int);
    assert((x + 1) * den == x * den + den) by (nonlinear_arith);
    assert(2 * pow2(t) * den == pow2(t + 1) * den);
    lemma_binade_scaled(num, den, e, k);
    assert(in_binade(num, den, e));
    lemma_binade_exists(num, den);
    lemma_binade_unique(num, den, e, binade(num, den));
    let unit = e - 52;
    let big = num * pow2(k);
    if unit <= 0 {
        let j = (-unit) as nat;
        assert(j + sh == k);
        lemma_pow2_adds(j, sh);
        lemma_round_scaled(num * pow2(j), den, p);
        assert(num * pow2(j) * p == big) by (nonlinear_arith)
            requires
                big == num * pow2(k),
                pow2(k) == pow2(j) * p,
        ;
        assert(scaled_ratio(num, den, unit) == (num * pow2(j), den));
    } else {
        let j = unit as nat;
        assert(j + k == sh);
        lemma_pow2_adds(j, k);
        lemma_pow2_pos(j);
        assert(den * pow2(j) > 0) by (nonlinear_arith)
            requires
                den > 0,
                pow2(j) > 0,
        ;
        lemma_round_scaled(num, den * pow2(j), pow2(k));
        assert(den * pow2(j) * pow2(k) == den * p) by (nonlinear_arith)
            requires
                p == pow2(j) * pow2(k),
        ;
        assert(scaled_ratio(num, den, unit) == (num, den * pow2(j)));
    }
    let m = round_half_even(x * den + r, den * p);
    lemma_pow2_adds(53, sh);
    assert(53 + sh == t + 1);
    assert(x * den + r < pow2(53) * (den * p)) by (nonlinear_arith)
        requires
            x < pow2(t + 1),
            pow2(t + 1) == pow2(53) * p,
            r < den,
            x * den + r < (x + 1) * den,
            (x + 1) * den <= pow2(t + 1) * den,
    ;
    assert(den * p > 0) by (nonlinear_arith)
        requires
            den > 0,
            p > 0,
    ;
    lemma_round_bounds(x * den + r, den * p, pow2(53));
    if unit >= 0 {
        let u = unit as nat;
        assert(u <= 11);
        lemma_pow2_le(u, 11);
        lemma_pow2_adds(53, 11);
        lemma_pow2_le(64, 1024);
        assert(m * pow2(u) <= pow2(53) * pow2(11)) by (nonlinear_arith)
            requires
                m <= pow2(53),
                pow2(u) <= pow2(11),
        ;
        lemma_pow2_strictly_increases(64, 1024);
    }
}

// ---------------------------------------------------------------------------
// Conversion
// ---------------------------------------------------------------------------

/// The numerator of `whole.fraction` over `10^len(fraction)`.
pub open spec fn decimal_numerator(whole: Seq<char>, fraction: Seq<char>) -> nat {
    digits_value(whole) * pow10(fraction.len()) + digits_value(fraction)
}

/// Reads the decimal `whole.fraction` as the nearest binary64 value,
/// multiplies it by `2^shift` and converts the product to `u64` as `as u64`
/// does (toward zero, saturating).
pub fn decimal_to_u64(whole: &[char], fraction: &[char], shift: u32) -> (r: u64)
    requires
        all_digits(whole@),
        all_digits(fraction@),
        shift <= 30,
    ensures
        r == truncate_to_u64(
            nearest_binary64(decimal_numerator(whole@, fraction@), pow10(fraction@.len())),
            shift as nat,
        ),
{
    let ghost den = pow10(fraction@.len());
    let ghost num = decimal_numerator(whole@, fraction@);
    proof {
        vstd::arithmetic::power2::lemma2_to64();
        lemma_pow10_positive(fraction@.len());
    }
    // The whole part, or `u64::MAX` once it reaches 2^64.
    let limit: u128 = 0x1_0000_0000_0000_0000;
    let mut ip: u128 = 0;
    let mut i: usize = 0;
    assert(whole@.subrange(0, 0) =~= Seq::<char>::empty());
    while i < whole.len()
        invariant
            i <= whole@.len(),
            all_digits(whole@),
            ip as nat == digits_value(whole@.subrange(0, i as int)),
            ip < limit,
            limit == pow2(64),
            limit == 0x1_0000_0000_0000_0000,
            den == pow10(fraction@.len()),
            den > 0,
            num == decimal_numerator(whole@, fraction@),
        decreases whole@.len() - i,
    {
        let c = whole[i];
        assert(is_digit(whole@[i as int]));
        let dv: u128 = ((c as u32) - 48) as u128;
        assert(whole@.subrange(0, i + 1).drop_last() =~= whole@.subrange(0, i as int));
        assert(digit_value(c) == dv as nat);
        ip = ip * 10 + dv;
        if ip >= limit {
            proof {
                lemma_digits_value_monotone(whole@, i + 1, whole@.len() as int);
                assert(whole@.subrange(0, whole@.len() as int) =~= whole@);
                assert(num >= digits_value(whole@) * den);
                lemma_large_value(num, den, digits_value(whole@), shift as nat);
            }
            return u64::MAX;
        }
        i = i + 1;
    }
    assert(whole@.subrange(0, whole@.len() as int) =~= whole@);
    // The fraction digits as values.
    let mut fd: Vec<u8> = Vec::new();
    let mut j: usize = 0;
    assert(fraction@.subrange(0, 0) =~= Seq::<char>::empty());
    while j < fraction.len()
        invariant
            j <= fraction@.len(),
            all_digits(fraction@),
            fd@.len() == j,
            digit_values(fd@),
            digit_seq_value(fd@) == digits_value(fraction@.subrange(0, j as int)),
        decreases fraction@.len() - j,
    {
        let c = fraction[j];
        assert(is_digit(fraction@[j as int]));
        let dv: u8 = ((c as u32) - 48) as u8;
        assert(fraction@.subrange(0, j + 1).drop_last() =~= fraction@.subrange(0, j as int));
        assert(digit_value(c) == dv as nat);
        let ghost before = fd@;
        fd.push(dv);
        assert(fd@.drop_last() =~= before);
        assert forall|x: int| 0 <= x < fd@.len() implies #[trigger] fd@[x] < 10 by {
            if x < j {
                assert(fd@[x] == before[x]);
            }
        }
        j = j + 1;
    }
    assert(fraction@.subrange(0, fraction@.len() as int) =~= fraction@);
    let ghost fv = digit_seq_value(fd@);
    proof {
        lemma_digit_seq_bound(fd@);
    }
    // Enough binary digits that at least 54 significant bits are known
    // whenever the value is at least 2^-31.
    let k: u32 = if ip > 0 {
        53
    } else {
        84
    };
    let (xf, sticky) = fraction_bits(fd, k);
    let ghost pk = pow2(k as nat);
    let ghost r = fv * pk % den;
    proof {
        vstd::arithmetic::div_mod::lemma_fundamental_div_mod((fv * pk) as int, den as int);
        lemma_pow2_pos(k as nat);
        assert(fv * pk == xf * den + r) by (nonlinear_arith)
            requires
                fv * pk == den * (fv * pk / den) + (fv * pk) % den,
                xf == fv * pk / den,
                r == (fv * pk) % den,
        ;
        assert(xf < pk) by (nonlinear_arith)
            requires
                xf == fv * pk / den,
                fv < den,
                pk > 0,
                den > 0,
        ;
        vstd::arithmetic::power2::lemma2_to64_rest();
        assert(pow2(53) == 0x20_0000_0000_0000);
    }
    let pk_exec = pow2_u128(k);
    assert(ip * pk <= pow2(64) * pow2(53)) by (nonlinear_arith)
        requires
            ip < pow2(64),
            k == 53 || ip == 0,
            pk == pow2(k as nat),
            k == 53 ==> pk == pow2(53),
    ;
    let x: u128 = ip * pk_exec + xf;
    proof {
        assert(num * pk == x * den + r) by (nonlinear_arith)
            requires
                num == ip * den + fv,
                fv * pk == xf * den + r,
                x == ip * pk + xf,
        ;
    }
    let min_normal: u128 = 0x20_0000_0000_0000;
    if x < min_normal {
        proof {
            assert(ip == 0) by (nonlinear_arith)
                requires
                    x == ip * pk + xf,
                    k == 53 || ip == 0,
                    k == 53 ==> pk == pow2(53),
                    pow2(53) == 0x20_0000_0000_0000,
                    x < 0x20_0000_0000_0000,
            ;
            lemma_pow2_adds(31, 53);
            assert(num * pow2(31) < den) by (nonlinear_arith)
                requires
                    num * pk == x * den + r,
                    pk == pow2(31) * pow2(53),
                    x < pow2(53),
                    r < den,
                    pow2(53) > 0,
            ;
            lemma_small_value(num, den, shift as nat);
        }
        return 0;
    }
    // The position `t` of the leading bit of `x`.
    let mut t: u32 = 53;
    let mut pt: u128 = min_normal;
    while pt <= x / 2
        invariant
            53 <= t <= 127,
            pt as nat == pow2(t as nat),
            pt <= x,
        decreases 128 - t,
    {
        proof {
            lemma_pow2_unfold((t + 1) as nat);
            if t + 1 >= 128 {
                lemma_pow2_le(128, (t + 1) as nat);
                lemma_pow2_adds(64, 64);
                vstd::arithmetic::power2::lemma2_to64();
                assert(false);
            }
        }
        pt = pt * 2;
        t = t + 1;
    }
    proof {
        lemma_pow2_unfold((t + 1) as nat);
        assert(x < pow2((t + 1) as nat));
        lemma_pow2_adds(64, k as nat);
        assert(x < pow2(64 + k as nat)) by (nonlinear_arith)
            requires
                x == ip * pk + xf,
                xf < pk,
                ip + 1 <= pow2(64),
                pow2(64 + k as nat) == pow2(64) * pk,
        ;
        if t > k + 63 {
            lemma_pow2_le(64 + k as nat, t as nat);
        }
    }
    let sh: u32 = t - 52;
    let p = pow2_u128(sh);
    let half = p / 2;
    proof {
        lemma_pow2_unfold(sh as nat);
        lemma_pow2_pos(sh as nat);
    }
    let m0 = x / p;
    let rem = x % p;
    let up = rem > half || (rem == half && (sticky || m0 % 2 == 1));
    let m: u128 = if up {
        m0 + 1
    } else {
        m0
    };
    proof {
        lemma_rounded_from_bits(num, den, k as nat, x as nat, r, t as nat);
        lemma_round_from_bits(x as nat, den, r, p as nat, half as nat);
    }
    // `m * 2^(sh - k + shift)`, toward zero.
    let w: u128 = if sh + shift >= k {
        let e = sh + shift - k;
        assert(e <= 41);
        let pe = pow2_u128(e);
        proof {
            lemma_pow2_le(e as nat, 41);
            lemma_pow2_adds(53, 41);
            assert(m * pe <= pow2(53) * pow2(41)) by (nonlinear_arith)
                requires
                    m <= pow2(53),
                    pe <= pow2(41),
            ;
            vstd::arithmetic::power2::lemma2_to64_rest();
            lemma_pow2_adds(64, 30);
            lemma_pow2_le(94, 127);
        }
        m * pe
    } else {
        let e = k - sh - shift;
        let pe = pow2_u128(e);
        proof {
            lemma_pow2_pos(e as nat);
        }
        m / pe
    };
    if w >= u64::MAX as u128 {
        u64::MAX
    } else {
        w as u64
    }
}

} // verus!
