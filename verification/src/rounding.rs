//! Binary floating-point results in integer arithmetic: quotients, products
//! and their decimal forms, rounded as IEEE 754 rounds them (to nearest, ties
//! to even).

use crate::text::{cat4, dec, text_dec};
use vstd::arithmetic::div_mod::{lemma_fundamental_div_mod, lemma_div_is_ordered_by_denominator};
use vstd::prelude::*;

verus! {

/// 2 to the power of `e`.
pub open spec fn two_to(e: nat) -> nat
    decreases e,
{
    if e == 0 {
        1
    } else {
        2 * two_to((e - 1) as nat)
    }
}

/// `n / d`, rounded to the nearest integer, a tie to the even one.
pub open spec fn half_even(n: int, d: int) -> int {
    let q = n / d;
    let r = n % d;
    if 2 * r < d {
        q
    } else if 2 * r > d {
        q + 1
    } else {
        q + q % 2
    }
}

/// How many low bits `n` has beyond its `p` leading ones.
pub open spec fn excess(n: nat, p: nat) -> nat
    decreases n,
{
    if n < two_to(p) || n == 0 {
        0
    } else {
        1 + excess(n / 2, p)
    }
}

/// `n`, rounded to `p` significant bits.
pub open spec fn keep(n: nat, p: nat) -> int {
    let unit = two_to(excess(n, p)) as int;
    half_even(n as int, unit) * unit
}

/// How often `n` has to be doubled before `n / d` has 53 bits.
pub open spec fn doublings(n: nat, d: nat) -> nat
    decreases (0x20_0000_0000_0000 * d - n),
{
    if n == 0 || n >= 0x10_0000_0000_0000 * d {
        0
    } else {
        1 + doublings(2 * n, d)
    }
}

/// How often `d` has to be doubled before `n / d` has no more than 53 bits.
pub open spec fn halvings(n: nat, d: nat) -> nat
    decreases
            (if n >= 0x20_0000_0000_0000 * d {
                n - 0x20_0000_0000_0000 * d + 1
            } else {
                0
            }),
{
    if d == 0 || n < 0x20_0000_0000_0000 * d {
        0
    } else {
        1 + halvings(n, 2 * d)
    }
}

/// The double nearest to `n / d`, multiplied by `quotient_unit(n, d)`.
pub open spec fn quotient_num(n: nat, d: nat) -> int {
    let down = two_to(halvings(n, d));
    half_even((n * quotient_unit(n, d)) as int, (d * down) as int) * down
}

/// The power of 2 by which the double nearest to `n / d` becomes an integer.
pub open spec fn quotient_unit(n: nat, d: nat) -> nat {
    two_to(doublings(n, d))
}

pub proof fn lemma_two_to_positive(e: nat)
    ensures
        two_to(e) >= 1,
    decreases e,
{
    if e > 0 {
        lemma_two_to_positive((e - 1) as nat);
    }
}

proof fn lemma_two_to_grows(a: nat, b: nat)
    requires
        a <= b,
    ensures
        two_to(a) <= two_to(b),
    decreases b,
{
    if a < b {
        lemma_two_to_grows(a, (b - 1) as nat);
    }
}

proof fn lemma_powers()
    ensures
        two_to(24) == 0x100_0000,
        two_to(53) == 0x20_0000_0000_0000,
{
    reveal_with_fuel(two_to, 54);
}

proof fn lemma_half_even_bounds(n: int, d: int)
    requires
        n >= 0,
        d > 0,
    ensures
        n / d <= half_even(n, d) <= n / d + 1,
        0 <= n / d <= n,
        n - d < half_even(n, d) * d <= n + d,
{
    lemma_fundamental_div_mod(n, d);
    lemma_div_is_ordered_by_denominator(n, 1, d);
    let h = half_even(n, d);
    let q = n / d;
    assert(q >= 0) by (nonlinear_arith)
        requires
            n >= 0,
            d > 0,
            q == n / d,
    ;
    assert(q * d == d * q) by (nonlinear_arith);
    if h == q {
    } else {
        assert(h == q + 1);
        assert((q + 1) * d == q * d + d) by (nonlinear_arith);
    }
}

/// `half_even` on machine integers.
fn nearest(n: u128, d: u128) -> (r: u128)
    requires
        d > 0,
        n < 0x4000_0000_0000_0000_0000_0000_0000_0000,
    ensures
        r == half_even(n as int, d as int),
{
    let q: u128 = n / d;
    let r: u128 = n % d;
    proof {
        lemma_half_even_bounds(n as int, d as int);
    }
    if r < d - r {
        q
    } else if r > d - r {
        q + 1
    } else {
        q + q % 2
    }
}

/// `n` rounded to `p` significant bits.
pub fn keep_bits(n: u128, p: u32) -> (r: u128)
    requires
        n < 0x1_0000_0000_0000_0000_0000_0000,
        p == 24 || p == 53,
    ensures
        r == keep(n as nat, p as nat),
{
    let top: u128 = if p == 24 {
        0x100_0000
    } else {
        0x20_0000_0000_0000
    };
    proof {
        lemma_powers();
    }
    let mut a: u128 = n;
    let mut unit: u128 = 1;
    let ghost mut k: nat = 0;
    while a >= top
        invariant
            top == two_to(p as nat),
            top >= 2,
            unit == two_to(k),
            unit >= 1,
            a * unit <= n,
            a >= 1 || unit == 1,
            n < 0x1_0000_0000_0000_0000_0000_0000,
            excess(n as nat, p as nat) == k + excess(a as nat, p as nat),
        decreases a,
    {
        assert((a / 2) * (unit * 2) <= a * unit) by (nonlinear_arith)
            requires
                a >= 0,
                unit >= 0,
        ;
        assert(2 * unit <= a * unit) by (nonlinear_arith)
            requires
                a >= 2,
                unit >= 1,
        ;
        a = a / 2;
        unit = unit * 2;
        proof {
            k = k + 1;
        }
    }
    proof {
        lemma_half_even_bounds(n as int, unit as int);
        assert(unit <= n + 1) by {
            assert(a >= 1 ==> unit <= a * unit) by (nonlinear_arith)
                requires
                    unit >= 1,
            ;
        }
    }
    nearest(n, unit) * unit
}

/// The unit that rounding drops is no larger than the number itself.
proof fn lemma_excess_unit(n: nat, p: nat)
    requires
        p >= 1,
    ensures
        two_to(excess(n, p)) <= n || two_to(excess(n, p)) == 1,
    decreases n,
{
    if n < two_to(p) || n == 0 {
    } else {
        lemma_excess_unit(n / 2, p);
        lemma_two_to_positive((p - 1) as nat);
    }
}

/// A double: `num / unit`.
#[derive(Clone, Copy, Debug, PartialEq, Eq, Structural)]
pub struct Double {
    pub num: u128,
    pub unit: u128,
}

/// The double nearest to `n / d`.
pub open spec fn is_quotient(x: Double, n: nat, d: nat) -> bool {
    &&& x.num == quotient_num(n, d)
    &&& x.unit == quotient_unit(n, d)
}

/// The double nearest to `n / d`.
pub fn quotient(n: u128, d: u128) -> (x: Double)
    requires
        0 < d <= 0x1_0000_0000_0000_0000,
        n <= 0x1_0000_0000_0000_0000,
    ensures
        is_quotient(x, n as nat, d as nat),
        x.num <= 0x4_0000_0000_0000_0000,
        n < 0x20_0000_0000_0000 * d ==> x.num <= 0x20_0000_0000_0000,
        1 <= x.unit < 0x20_0000_0000_0000 * 0x1_0000_0000_0000_0000,
{
    if n == 0 {
        assert(half_even(0, d as int) == 0) by {
            lemma_half_even_bounds(0, d as int);
            assert(0int / d as int == 0) by (nonlinear_arith)
                requires
                    d > 0,
            ;
            assert(0int % d as int == 0) by (nonlinear_arith)
                requires
                    d > 0,
            ;
        }
        assert(0 * two_to(doublings(0, d as nat)) == 0);
        assert(halvings(0, d as nat) == 0);
        assert(d * 1 == d);
        return Double { num: 0, unit: 1 };
    }
    if n >= 0x20_0000_0000_0000 * d {
        return large_quotient(n, d);
    }
    let mut a: u128 = n;
    let mut unit: u128 = 1;
    let ghost mut k: nat = 0;
    while a < 0x10_0000_0000_0000 * d
        invariant
            0 < d <= 0x1_0000_0000_0000_0000,
            n >= 1,
            a >= 1,
            unit == two_to(k),
            unit >= 1,
            a == n * unit,
            a < 0x20_0000_0000_0000 * d,
            doublings(n as nat, d as nat) == k + doublings(a as nat, d as nat),
        decreases 0x20_0000_0000_0000 * d - a,
    {
        assert(unit <= n * unit) by (nonlinear_arith)
            requires
                n >= 1,
                unit >= 1,
        ;
        assert(2 * (n * unit) == n * (2 * unit)) by (nonlinear_arith);
        a = a * 2;
        unit = unit * 2;
        proof {
            k = k + 1;
        }
    }
    assert(unit <= n * unit) by (nonlinear_arith)
        requires
            n >= 1,
            unit >= 1,
    ;
    let m: u128 = nearest(a, d);
    proof {
        lemma_small_quotient(a as int, d as int);
        assert(halvings(n as nat, d as nat) == 0);
        assert(two_to(0) == 1);
        assert(d * 1 == d);
        assert(m * 1 == m);
    }
    Double { num: m, unit }
}

proof fn lemma_small_quotient(a: int, d: int)
    requires
        d > 0,
        0 <= a < 0x20_0000_0000_0000 * d,
    ensures
        0 <= half_even(a, d) <= 0x20_0000_0000_0000,
{
    lemma_half_even_bounds(a, d);
    lemma_fundamental_div_mod(a, d);
    let q = a / d;
    assert(q < 0x20_0000_0000_0000) by (nonlinear_arith)
        requires
            d > 0,
            a < 0x20_0000_0000_0000 * d,
            q == a / d,
    ;
}

/// The double nearest to `n / d` where that has more than 53 bits.
fn large_quotient(n: u128, d: u128) -> (x: Double)
    requires
        0 < d,
        0x20_0000_0000_0000 * d <= n <= 0x1_0000_0000_0000_0000,
    ensures
        is_quotient(x, n as nat, d as nat),
        x.num <= 0x4_0000_0000_0000_0000,
        x.unit == 1,
{
    let mut b: u128 = d;
    let mut down: u128 = 1;
    let ghost mut k: nat = 0;
    while n >= 0x20_0000_0000_0000 * b
        invariant
            0 < d,
            0 < b,
            down == two_to(k),
            down >= 1,
            b == d * down,
            b <= 0x4000,
            down <= b,
            n <= 0x1_0000_0000_0000_0000,
            halvings(n as nat, d as nat) == k + halvings(n as nat, b as nat),
        decreases 0x8000 - b,
    {
        assert(2 * (d * down) == d * (2 * down)) by (nonlinear_arith);
        b = b * 2;
        down = down * 2;
        proof {
            k = k + 1;
        }
    }
    let h: u128 = nearest(n, b);
    proof {
        lemma_small_quotient(n as int, b as int);
        lemma_half_even_bounds(n as int, b as int);
        assert(h * down <= h * b) by (nonlinear_arith)
            requires
                h >= 0,
                0 <= down <= b,
        ;
        assert(doublings(n as nat, d as nat) == 0);
        assert(n * 1 == n);
    }
    Double { num: h * down, unit: 1 }
}

// ---------------------------------------------------------------------------
// Decimal forms
// ---------------------------------------------------------------------------

/// `n / d` computed in doubles and rounded to tenths.
pub open spec fn tenths(n: nat, d: nat) -> int {
    let x = keep(n, 53) as nat;
    half_even(10 * quotient_num(x, d), quotient_unit(x, d) as int)
}

/// A token count: plain below a thousand, else in thousands or millions with
/// one decimal.
pub open spec fn tokens(count: nat) -> Seq<char> {
    if count >= 1_000_000 {
        one_decimal(tenths(count, 1_000_000)) + "M"@
    } else if count >= 1_000 {
        one_decimal(tenths(count, 1_000)) + "k"@
    } else {
        dec(count)
    }
}

/// A number of tenths, with a decimal point before the last digit.
pub open spec fn one_decimal(t: int) -> Seq<char> {
    dec((t / 10) as nat) + "."@ + dec((t % 10) as nat)
}

proof fn lemma_keep_bounds(n: nat, p: nat)
    requires
        p >= 1,
    ensures
        0 <= keep(n, p) <= 2 * n + 1,
{
    lemma_excess_unit(n, p);
    lemma_two_to_positive(excess(n, p));
    let unit = two_to(excess(n, p)) as int;
    lemma_half_even_bounds(n as int, unit);
    assert(half_even(n as int, unit) >= 0);
    assert(half_even(n as int, unit) * unit >= 0) by (nonlinear_arith)
        requires
            half_even(n as int, unit) >= 0,
            unit >= 0,
    ;
}

/// Rounding to 24 bits does not carry a number past a multiple of 2 to the
/// 24th that has no more than 16 bits more.
pub proof fn lemma_keep_multiple(n: nat, len: nat)
    requires
        n <= len * 0x100_0000,
        len <= 0xffff,
    ensures
        0 <= keep(n, 24) <= len * 0x100_0000,
{
    lemma_powers();
    lemma_keep_bounds(n, 24);
    let k = excess(n, 24);
    let unit = two_to(k) as int;
    lemma_two_to_positive(k);
    if n < 0x100_0000 {
        assert(k == 0);
        assert(n as int % 1 == 0);
        assert(n as int / 1 == n);
        assert(half_even(n as int, unit) == n);
        assert(n * unit == n) by (nonlinear_arith)
            requires
                unit == 1,
        ;
    } else {
        lemma_excess_size(n, 24);
        assert(two_to(23) == 0x80_0000) by {
            reveal_with_fuel(two_to, 24);
        }
        assert(unit * 0x80_0000 <= n);
        assert(k <= 24) by {
            if k > 24 {
                lemma_two_to_grows(25, k);
                assert(two_to(25) == 0x200_0000) by {
                    reveal_with_fuel(two_to, 26);
                }
                assert(unit >= 0x200_0000);
            }
        }
        lemma_two_to_splits(k, 24);
        let c = two_to((24 - k) as nat) as int;
        let top = len * c;
        assert(len * 0x100_0000 == top * unit) by (nonlinear_arith)
            requires
                top == len * c,
                c * unit == 0x100_0000,
        ;
        lemma_round_below(n as int, unit, top);
    }
}

proof fn lemma_two_to_splits(a: nat, b: nat)
    requires
        a <= b,
    ensures
        two_to((b - a) as nat) * two_to(a) == two_to(b),
    decreases a,
{
    if a == 0 {
        assert(two_to(b) * 1 == two_to(b));
    } else {
        lemma_two_to_splits((a - 1) as nat, b);
        let x = two_to((b - a) as nat);
        let y = two_to((a - 1) as nat);
        assert(two_to((b - a + 1) as nat) == 2 * x);
        assert(x * (2 * y) == (2 * x) * y) by (nonlinear_arith);
    }
}

/// Integers below 2 to the 53rd are doubles themselves.
pub proof fn lemma_keep_small(n: nat)
    requires
        n < 0x20_0000_0000_0000,
    ensures
        keep(n, 53) == n,
{
    lemma_powers();
    assert(excess(n, 53) == 0);
    assert(two_to(0) == 1);
    assert(n as int % 1 == 0);
    assert(n as int / 1 == n);
    assert(half_even(n as int, 1) == n);
}

/// The double nearest to an integer, which for integers of 64 bits is one.
pub fn as_double(n: u64) -> (x: u128)
    ensures
        x == keep(n as nat, 53),
        x <= 0x1_0000_0000_0000_0000,
        n > 0 ==> x > 0,
        n >= 0x10_0000_0000_0000 ==> x >= 0x10_0000_0000_0000,
        n < 0x20_0000_0000_0000 ==> x == n,
{
    let x: u128 = keep_bits(n as u128, 53);
    proof {
        lemma_double_range(n as nat);
    }
    x
}

proof fn lemma_double_range(n: nat)
    requires
        n < 0x1_0000_0000_0000_0000,
    ensures
        keep(n, 53) <= 0x1_0000_0000_0000_0000,
        n > 0 ==> keep(n, 53) > 0,
        n >= 0x10_0000_0000_0000 ==> keep(n, 53) >= 0x10_0000_0000_0000,
        n < 0x20_0000_0000_0000 ==> keep(n, 53) == n,
{
    lemma_powers();
    if n < 0x20_0000_0000_0000 {
        lemma_keep_small(n);
    } else {
        let k = excess(n, 53);
        let unit = two_to(k) as int;
        lemma_excess_size(n, 53);
        lemma_two_to_positive(k);
        lemma_half_even_bounds(n as int, unit);
        let h = half_even(n as int, unit);
        assert(h * unit > n - unit);
        assert(unit * 0x10_0000_0000_0000 <= n);
        assert(k <= 11) by {
            if k > 11 {
                lemma_two_to_grows(12, k);
                assert(two_to(12) == 4096) by {
                    reveal_with_fuel(two_to, 13);
                }
            }
        }
        assert(two_to(11) == 2048) by {
            reveal_with_fuel(two_to, 12);
        }
        lemma_two_to_grows(k, 11);
        assert(h <= 0x20_0000_0000_0000) by {
            let q = n as int / unit;
            assert(q < 0x20_0000_0000_0000);
        }
        assert(h * unit <= 0x20_0000_0000_0000 * 2048) by (nonlinear_arith)
            requires
                0 <= h <= 0x20_0000_0000_0000,
                1 <= unit <= 2048,
        ;
    }
}

/// What is left above the dropped bits has exactly `p` bits.
proof fn lemma_excess_size(n: nat, p: nat)
    requires
        n >= two_to(p),
        p >= 1,
    ensures
        two_to(excess(n, p)) * two_to((p - 1) as nat) <= n,
        (n as int / two_to(excess(n, p)) as int) < two_to(p),
    decreases n,
{
    lemma_two_to_positive(p);
    let u = two_to(excess(n / 2, p));
    let v = two_to((p - 1) as nat);
    if n / 2 >= two_to(p) {
        lemma_excess_size(n / 2, p);
    } else {
        assert(excess(n / 2, p) == 0);
        assert(u == 1);
        assert(1 * v == v);
        assert((n / 2) as int / 1 == n / 2);
    }
    assert(excess(n, p) == 1 + excess(n / 2, p));
    assert((2 * u) * v == 2 * (u * v)) by (nonlinear_arith);
    lemma_two_to_positive(excess(n / 2, p));
    vstd::arithmetic::div_mod::lemma_div_denominator(n as int, 2, u as int);
}

/// `n / d` computed in doubles and rounded to tenths.
fn tenths_of(n: u64, d: u64) -> (t: u128)
    requires
        d == 1_000 || d == 1_000_000,
        n >= d,
        d == 1_000 ==> n < 1_000_000,
    ensures
        t == tenths(n as nat, d as nat),
        t < 0x1_0000_0000_0000_0000,
{
    let x: u128 = as_double(n);
    let q = quotient(x, d as u128);
    let t: u128 = nearest(10 * q.num, q.unit);
    proof {
        lemma_half_even_bounds(10 * q.num as int, q.unit as int);
    }
    t
}

// ---------------------------------------------------------------------------
// Products with a ratio
// ---------------------------------------------------------------------------

/// `n / d * k` computed in doubles, multiplied by `ratio_unit(n, d)`.
pub open spec fn ratio_num(n: nat, d: nat, k: nat) -> int {
    keep((quotient_num(keep(n, 53) as nat, keep(d, 53) as nat) * k) as nat, 53)
}

pub open spec fn ratio_unit(n: nat, d: nat) -> int {
    quotient_unit(keep(n, 53) as nat, keep(d, 53) as nat) as int
}

/// `n / d * k` computed in doubles and rounded to the nearest integer, a half
/// upwards.
pub open spec fn ratio_rounded(n: nat, d: nat, k: nat) -> int {
    (2 * ratio_num(n, d, k) + ratio_unit(n, d)) / (2 * ratio_unit(n, d))
}

/// `n / d * k` computed in doubles and rounded to tenths.
pub open spec fn ratio_tenths(n: nat, d: nat, k: nat) -> int {
    half_even(10 * ratio_num(n, d, k), ratio_unit(n, d))
}

/// `n / d * k` in doubles.
pub fn ratio(n: u64, d: u64, k: u64) -> (x: Double)
    requires
        d > 0,
        k <= 100,
    ensures
        x.num == ratio_num(n as nat, d as nat, k as nat),
        x.unit == ratio_unit(n as nat, d as nat),
        x.num <= 0x400_0000_0000_0000_0000,
        1 <= x.unit < 0x20_0000_0000_0000 * 0x1_0000_0000_0000_0000,
{
    let a: u128 = as_double(n);
    let b: u128 = as_double(d);
    let q = quotient(a, b);
    assert(0 <= q.num * k <= q.num * 100) by (nonlinear_arith)
        requires
            0 <= k <= 100,
            0 <= q.num,
    ;
    let p: u128 = q.num * k as u128;
    let num: u128 = keep_bits(p, 53);
    proof {
        lemma_keep_bounds(p as nat, 53);
    }
    Double { num, unit: q.unit }
}

pub fn round_ratio(n: u64, d: u64, k: u64) -> (r: u128)
    requires
        d > 0,
        k <= 100,
    ensures
        r == ratio_rounded(n as nat, d as nat, k as nat),
        r <= 0x400_0000_0000_0000_0001,
{
    let x = ratio(n, d, k);
    let r: u128 = (2 * x.num + x.unit) / (2 * x.unit);
    assert(r <= x.num + 1) by (nonlinear_arith)
        requires
            r == (2 * x.num + x.unit) / (2 * x.unit),
            x.unit >= 1,
    ;
    r
}

pub fn tenths_ratio(n: u64, d: u64, k: u64) -> (r: u128)
    requires
        d > 0,
        k <= 100,
    ensures
        r == ratio_tenths(n as nat, d as nat, k as nat),
        r <= 0x1_0000_0000_0000_0000_0000,
{
    let x = ratio(n, d, k);
    proof {
        lemma_half_even_bounds(10 * x.num as int, x.unit as int);
    }
    nearest(10 * x.num, x.unit)
}

pub proof fn lemma_ratio_nonnegative(n: nat, d: nat, k: nat)
    ensures
        0 <= ratio_rounded(n, d, k),
{
    let q = ratio_num(n, d, k);
    let u = ratio_unit(n, d);
    lemma_keep_bounds(
        (quotient_num(keep(n, 53) as nat, keep(d, 53) as nat) * k) as nat,
        53,
    );
    lemma_two_to_positive(doublings(keep(n, 53) as nat, keep(d, 53) as nat));
    assert((2 * q + u) / (2 * u) >= 0) by (nonlinear_arith)
        requires
            0 <= q,
            u >= 1,
    ;
}

proof fn lemma_part(n: nat, d: nat, k: nat)
    requires
        n <= d,
        0 < d,
        k <= 100,
    ensures
        ({
            let q = keep((quotient_num(n, d) * k) as nat, 53);
            let u = quotient_unit(n, d) as int;
            0 <= (2 * q + u) / (2 * u) <= k
        }),
{
    let m = quotient_num(n, d);
    let u = quotient_unit(n, d) as int;
    lemma_two_to_positive(doublings(n, d));
    lemma_quotient_of_part(n, d);
    assert(m * k <= u * k) by (nonlinear_arith)
        requires
            0 <= m <= u,
            k >= 0,
    ;
    lemma_keep_of_part((m * k) as nat, u, doublings(n, d), k);
    let q = keep((m * k) as nat, 53);
    assert((2 * q + u) / (2 * u) <= k) by (nonlinear_arith)
        requires
            0 <= q <= u * k,
            u >= 1,
            k >= 0,
    ;
    assert((2 * q + u) / (2 * u) >= 0) by (nonlinear_arith)
        requires
            0 <= q,
            u >= 1,
    ;
}

/// Rounding to 53 bits keeps the order of integers of 64 bits.
proof fn lemma_keep_monotone(n: nat, d: nat)
    requires
        n <= d,
        d < 0x1_0000_0000_0000_0000,
    ensures
        keep(n, 53) <= keep(d, 53),
{
    lemma_powers();
    let j = excess(n, 53);
    let k = excess(d, 53);
    lemma_excess_monotone(n, d, 53);
    let a = two_to(j) as int;
    let b = two_to(k) as int;
    lemma_two_to_positive(j);
    lemma_two_to_positive(k);
    if j == k {
        lemma_half_even_monotone(n as int, d as int, a);
        assert(half_even(n as int, a) * a <= half_even(d as int, a) * a) by (nonlinear_arith)
            requires
                half_even(n as int, a) <= half_even(d as int, a),
                a >= 1,
        ;
    } else {
        // The smaller number has fewer bits than 2 to the (53 + j)th, which
        // the larger one reaches.
        lemma_excess_top(n, 53);
        lemma_excess_size(d, 53);
        assert(two_to(52) == 0x10_0000_0000_0000) by {
            reveal_with_fuel(two_to, 53);
        }
        lemma_two_to_grows((j + 1) as nat, k);
        assert(two_to((j + 1) as nat) == 2 * a);
        assert(b >= 2 * a);
        assert(b * 0x10_0000_0000_0000 <= d);
        assert(n < a * 0x20_0000_0000_0000);
        lemma_round_below(n as int, a, 0x20_0000_0000_0000);
        let low: int = 0x10_0000_0000_0000;
        assert(low * b <= d) by (nonlinear_arith)
            requires
                low == 0x10_0000_0000_0000,
                b * 0x10_0000_0000_0000 <= d,
        ;
        lemma_round_above(d as int, b, low);
    }
}

proof fn lemma_half_even_monotone(n: int, m: int, d: int)
    requires
        0 <= n <= m,
        d >= 1,
    ensures
        half_even(n, d) <= half_even(m, d),
{
    lemma_fundamental_div_mod(n, d);
    lemma_fundamental_div_mod(m, d);
    let q = n / d;
    let p = m / d;
    let r = n % d;
    let s = m % d;
    assert(q <= p) by (nonlinear_arith)
        requires
            d * q + r <= d * p + s,
            0 <= r,
            s < d,
            d >= 1,
    ;
    if q == p {
        assert(r <= s);
    }
}

/// Rounding to a multiple of `unit` does not fall below a multiple of it.
proof fn lemma_round_above(n: int, unit: int, low: int)
    requires
        n >= 0,
        unit >= 1,
        low * unit <= n,
    ensures
        low * unit <= half_even(n, unit) * unit,
{
    let h = half_even(n, unit);
    lemma_half_even_bounds(n, unit);
    lemma_fundamental_div_mod(n, unit);
    let q = n / unit;
    let r = n % unit;
    assert(unit * q == q * unit) by (nonlinear_arith);
    assert(low <= q) by (nonlinear_arith)
        requires
            low * unit <= q * unit + r,
            r < unit,
            unit >= 1,
    ;
    assert(low * unit <= h * unit) by (nonlinear_arith)
        requires
            low <= h,
            unit >= 1,
    ;
}

proof fn lemma_excess_monotone(n: nat, d: nat, p: nat)
    requires
        n <= d,
    ensures
        excess(n, p) <= excess(d, p),
    decreases d,
{
    if n < two_to(p) || n == 0 {
    } else {
        lemma_excess_monotone(n / 2, d / 2, p);
    }
}

proof fn lemma_excess_top(n: nat, p: nat)
    requires
        p >= 1,
    ensures
        n < two_to(excess(n, p)) * two_to(p),
    decreases n,
{
    lemma_two_to_positive(p);
    if n < two_to(p) || n == 0 {
        assert(1 * two_to(p) == two_to(p));
    } else {
        lemma_excess_top(n / 2, p);
        let u = two_to(excess(n / 2, p));
        let v = two_to(p);
        assert((2 * u) * v == 2 * (u * v)) by (nonlinear_arith);
    }
}

/// A double rounded to the nearest integer, a tie to the even one.
pub fn nearest_of(x: Double) -> (r: u128)
    requires
        x.num < 0x4000_0000_0000_0000_0000_0000_0000_0000,
        x.unit > 0,
    ensures
        r == half_even(x.num as int, x.unit as int),
{
    nearest(x.num, x.unit)
}

/// A share of a whole never fills more than the whole width.
pub proof fn ratio_of_part(n: nat, d: nat, k: nat)
    requires
        n <= d,
        0 < d < 0x1_0000_0000_0000_0000,
        k <= 100,
    ensures
        0 <= ratio_rounded(n, d, k) <= k,
{
    lemma_keep_monotone(n, d);
    lemma_double_range(d);
    lemma_keep_bounds(n, 53);
    lemma_part(keep(n, 53) as nat, keep(d, 53) as nat, k);
}

proof fn lemma_quotient_of_part(n: nat, d: nat)
    requires
        n <= d,
        0 < d,
    ensures
        0 <= quotient_num(n, d) <= quotient_unit(n, d),
{
    let u = quotient_unit(n, d);
    assert(halvings(n, d) == 0);
    assert(two_to(0) == 1);
    assert(d * 1 == d);
    let a = n * u;
    assert(a <= d * u) by (nonlinear_arith)
        requires
            a == n * u,
            n <= d,
            u >= 0,
    ;
    lemma_two_to_positive(doublings(n, d));
    lemma_fundamental_div_mod(a as int, d as int);
    let q = a as int / d as int;
    let r = a as int % d as int;
    assert(d * q == q * d) by (nonlinear_arith);
    assert(d * u == u * d) by (nonlinear_arith);
    assert(q <= u) by (nonlinear_arith)
        requires
            q * d + r <= u * d,
            r >= 0,
            d >= 1,
    ;
    assert(q >= 0) by (nonlinear_arith)
        requires
            q == a as int / d as int,
            d > 0,
            a >= 0,
    ;
    if q == u {
        assert(r == 0);
    }
    let h = half_even(a as int, d as int);
    assert(h * 1 == h);
}

proof fn lemma_keep_of_part(p: nat, u: int, e: nat, k: nat)
    requires
        u == two_to(e),
        p <= u * k,
        k <= 100,
    ensures
        0 <= keep(p, 53) <= u * k,
{
    lemma_powers();
    lemma_keep_bounds(p, 53);
    let x = excess(p, 53);
    let unit = two_to(x) as int;
    lemma_two_to_positive(x);
    lemma_two_to_positive(e);
    if p < 0x20_0000_0000_0000 {
        lemma_keep_small(p);
    } else {
        lemma_excess_size(p, 53);
        assert(two_to(52) == 0x10_0000_0000_0000) by {
            reveal_with_fuel(two_to, 53);
        }
        assert(unit * 0x10_0000_0000_0000 <= p);
        assert(u * k <= u * 100) by (nonlinear_arith)
            requires
                u >= 1,
                0 <= k <= 100,
        ;
        assert(x <= e) by {
            if x > e {
                lemma_two_to_grows((e + 1) as nat, x);
                assert(two_to((e + 1) as nat) == 2 * u);
            }
        }
        lemma_two_to_splits(x, e);
        let c = two_to((e - x) as nat) as int;
        let top = k * c;
        assert(u * k == top * unit) by (nonlinear_arith)
            requires
                top == k * c,
                c * unit == u,
        ;
        lemma_round_below(p as int, unit, top);
    }
}

/// Rounding to a multiple of `unit` does not pass a multiple of it.
proof fn lemma_round_below(n: int, unit: int, top: int)
    requires
        n >= 0,
        unit >= 1,
        n <= top * unit,
    ensures
        half_even(n, unit) * unit <= top * unit,
{
    let h = half_even(n, unit);
    lemma_fundamental_div_mod(n, unit);
    let q = n / unit;
    let r = n % unit;
    assert(unit * q == q * unit) by (nonlinear_arith);
    assert(q <= top) by (nonlinear_arith)
        requires
            q * unit + r <= top * unit,
            r >= 0,
            unit >= 1,
    ;
    if q == top {
        assert(r == 0);
    }
    assert(h * unit <= top * unit) by (nonlinear_arith)
        requires
            h <= top,
            unit >= 1,
    ;
}

pub fn format_tokens(count: u64) -> (s: String)
    ensures
        s@ == tokens(count as nat),
{
    if count >= 1_000_000 {
        let t: u128 = tenths_of(count, 1_000_000);
        cat4(&text_dec((t / 10) as u64), ".", &text_dec((t % 10) as u64), "M")
    } else if count >= 1_000 {
        let t: u128 = tenths_of(count, 1_000);
        cat4(&text_dec((t / 10) as u64), ".", &text_dec((t % 10) as u64), "k")
    } else {
        text_dec(count)
    }
}

proof fn lemma_doublings_of_one(d: nat, j: nat)
    requires
        0 < d,
        j <= 52,
    ensures
        doublings(two_to(j) * d, d) == 52 - j,
    decreases 52 - j,
{
    assert(two_to(52) == 0x10_0000_0000_0000) by {
        reveal_with_fuel(two_to, 53);
    }
    lemma_two_to_positive(j);
    let n = two_to(j) * d;
    assert(n > 0) by (nonlinear_arith)
        requires
            n == two_to(j) * d,
            two_to(j) > 0,
            d > 0,
    ;
    if j < 52 {
        lemma_two_to_grows((j + 1) as nat, 52);
        assert(two_to((j + 1) as nat) == 2 * two_to(j));
        assert(n < 0x10_0000_0000_0000 * d) by (nonlinear_arith)
            requires
                n == two_to(j) * d,
                2 * two_to(j) <= 0x10_0000_0000_0000,
                two_to(j) > 0,
                d > 0,
        ;
        assert(2 * n == two_to((j + 1) as nat) * d) by (nonlinear_arith)
            requires
                n == two_to(j) * d,
                two_to((j + 1) as nat) == 2 * two_to(j),
        ;
        lemma_doublings_of_one(d, (j + 1) as nat);
    }
}

/// The whole fills the whole width.
pub proof fn ratio_of_whole(d: nat, k: nat)
    requires
        0 < d < 0x1_0000_0000_0000_0000,
        1 <= k <= 100,
    ensures
        ratio_rounded(d, d, k) == k,
        ratio_num(d, d, k) == ratio_unit(d, d) * k,
        ratio_unit(d, d) > 0,
{
    lemma_double_range(d);
    lemma_keep_bounds(d, 53);
    lemma_keep_positive(d);
    let x = keep(d, 53) as nat;
    assert(x > 0);
    lemma_doublings_of_one(x, 0);
    assert(two_to(0) == 1);
    assert(1 * x == x);
    assert(two_to(52) == 0x10_0000_0000_0000) by {
        reveal_with_fuel(two_to, 53);
    }
    let u = 0x10_0000_0000_0000int;
    assert(quotient_unit(x, x) == u);
    assert(halvings(x, x) == 0);
    assert((x * u) / (x as int) == u && (x * u) % (x as int) == 0) by (nonlinear_arith)
        requires
            x > 0,
            u == 0x10_0000_0000_0000int,
    ;
    assert(x * 1 == x);
    assert(quotient_num(x, x) == u);
    let n = (u * k) as nat;
    lemma_keep_of_whole(k);
    assert(ratio_num(d, d, k) == u * k);
    assert((2 * (u * k) + u) / (2 * u) == k) by (nonlinear_arith)
        requires
            u == 0x10_0000_0000_0000int,
            k >= 0,
    ;
}

proof fn lemma_keep_positive(d: nat)
    requires
        d > 0,
    ensures
        keep(d, 53) > 0,
{
    let e = excess(d, 53);
    lemma_powers();
    lemma_two_to_positive(e);
    let unit = two_to(e) as int;
    if d < 0x20_0000_0000_0000 {
        lemma_keep_small(d);
    } else {
        lemma_excess_size(d, 53);
        lemma_two_to_positive(52);
        assert(unit <= d) by (nonlinear_arith)
            requires
                unit * two_to(52) <= d,
                two_to(52) >= 1,
                unit >= 1,
        ;
        assert(d as int / unit >= 1) by (nonlinear_arith)
            requires
                unit <= d,
                unit >= 1,
        ;
        let h = half_even(d as int, unit);
        assert(h >= 1);
        assert(h * unit > 0) by (nonlinear_arith)
            requires
                h >= 1,
                unit >= 1,
        ;
    }
}

proof fn lemma_keep_of_whole(k: nat)
    requires
        1 <= k <= 100,
    ensures
        keep((0x10_0000_0000_0000 * k) as nat, 53) == 0x10_0000_0000_0000 * k,
{
    let n = (0x10_0000_0000_0000 * k) as nat;
    lemma_powers();
    assert(two_to(52) == 0x10_0000_0000_0000) by {
        reveal_with_fuel(two_to, 53);
    }
    if n < 0x20_0000_0000_0000 {
        lemma_keep_small(n);
    } else {
        let e = excess(n, 53);
        lemma_excess_size(n, 53);
        let unit = two_to(e) as int;
        lemma_two_to_positive(e);
        assert(unit <= 100) by (nonlinear_arith)
            requires
                unit * 0x10_0000_0000_0000 <= 0x10_0000_0000_0000 * k,
                k <= 100,
        ;
        assert(e <= 52) by {
            if e > 52 {
                lemma_two_to_grows(52, e);
            }
        }
        lemma_two_to_splits(e, 52);
        let c = two_to((52 - e) as nat) as int;
        let q = c * k;
        assert(n == q * unit) by (nonlinear_arith)
            requires
                n == 0x10_0000_0000_0000 * k,
                c * unit == 0x10_0000_0000_0000,
                q == c * k,
        ;
        assert((q * unit) / unit == q && (q * unit) % unit == 0) by (nonlinear_arith)
            requires
                unit > 0,
        ;
    }
}

proof fn lemma_doublings_reach(n: nat, d: nat)
    requires
        n > 0,
        d > 0,
    ensures
        n * two_to(doublings(n, d)) >= 0x10_0000_0000_0000 * d,
    decreases (0x20_0000_0000_0000 * d - n),
{
    if n >= 0x10_0000_0000_0000 * d {
        assert(two_to(0) == 1);
        assert(n * 1 == n);
    } else {
        lemma_doublings_reach(2 * n, d);
        let e = doublings(2 * n, d);
        assert(two_to((1 + e) as nat) == 2 * two_to(e));
        assert(n * (2 * two_to(e)) == (2 * n) * two_to(e)) by (nonlinear_arith);
    }
}

proof fn lemma_half_even_near(n: int, d: int)
    requires
        n >= 0,
        d > 0,
    ensures
        2 * (half_even(n, d) * d - n) <= d,
        2 * (n - half_even(n, d) * d) <= d,
{
    lemma_fundamental_div_mod(n, d);
    let q = n / d;
    let r = n % d;
    assert(0 <= r < d) by (nonlinear_arith)
        requires
            r == n % d,
            d > 0,
    ;
    assert(d * q == q * d) by (nonlinear_arith);
    assert((q + 1) * d == q * d + d) by (nonlinear_arith);
    let h = half_even(n, d);
    assert(h == q || h == q + 1);
    if 2 * r == d {
        assert(q % 2 == 0 || q % 2 == 1);
    }
}

/// A count in thousands or millions is told to the nearest tenth: it is off by half a tenth
/// at most.
pub proof fn tenths_are_the_nearest(n: nat, d: nat)
    requires
        d == 1_000 || d == 1_000_000,
        d <= n < 1_000_000 * d,
    ensures
        2 * (tenths(n, d) * d - 10 * n) <= d + 1,
        2 * (10 * n - tenths(n, d) * d) <= d + 1,
{
    lemma_keep_small(n);
    assert(keep(n, 53) as nat == n);
    assert(halvings(n, d) == 0);
    assert(two_to(0) == 1);
    let u = quotient_unit(n, d) as int;
    lemma_two_to_positive(doublings(n, d));
    lemma_doublings_reach(n, d);
    assert(d * 1 == d);
    let q = quotient_num(n, d);
    let nu = n * u;
    assert(nu >= 0) by (nonlinear_arith)
        requires
            nu == n * u,
            u > 0,
            n >= 0,
    ;
    assert(q == half_even(nu, d as int) * 1);
    lemma_half_even_bounds(nu, d as int);
    lemma_half_even_near(nu, d as int);
    let t = half_even(10 * q, u);
    lemma_half_even_near(10 * q, u);
    assert(t == tenths(n, d));
    assert(u > 0x1_0000_0000) by (nonlinear_arith)
        requires
            n * u >= 0x10_0000_0000_0000 * d,
            n < 1_000_000 * d,
            d > 0,
            u > 0,
    ;
    let low = 2 * (t * d - 10 * n);
    assert(low * u <= (d + 1) * u) by (nonlinear_arith)
        requires
            low == 2 * (t * d - 10 * n),
            2 * (t * u - 10 * q) <= u,
            2 * (q * d - nu) <= d,
            nu == n * u,
            0 < d <= 1_000_000,
            u > 0x1_0000_0000,
    ;
    assert(low <= d + 1) by (nonlinear_arith)
        requires
            low * u <= (d + 1) * u,
            u > 0,
    ;
    let high = 2 * (10 * n - t * d);
    assert(high * u <= (d + 1) * u) by (nonlinear_arith)
        requires
            high == 2 * (10 * n - t * d),
            2 * (10 * q - t * u) <= u,
            2 * (nu - q * d) <= d,
            nu == n * u,
            0 < d <= 1_000_000,
            u > 0x1_0000_0000,
    ;
    assert(high <= d + 1) by (nonlinear_arith)
        requires
            high * u <= (d + 1) * u,
            u > 0,
    ;
}

/// A count below a thousand is told as it is, one below a million in thousands, and any
/// other in millions, both with one decimal.
pub proof fn tokens_are_told_in_their_unit(n: nat)
    ensures
        n < 1_000 ==> tokens(n) == dec(n),
        1_000 <= n < 1_000_000 ==> tokens(n) == dec((tenths(n, 1_000) / 10) as nat) + "."@ + dec(
            (tenths(n, 1_000) % 10) as nat,
        ) + "k"@,
        n >= 1_000_000 ==> tokens(n) == dec((tenths(n, 1_000_000) / 10) as nat) + "."@ + dec(
            (tenths(n, 1_000_000) % 10) as nat,
        ) + "M"@,
{
}

} // verus!
