//! Shares of a whole as text, to the last digit as 64-bit floating-point numbers give them.

use vstd::arithmetic::power2;
use vstd::prelude::*;

use super::numbers;
use super::numbers::float_value;
use crate::text;

verus! {

/// How often `n` has to be doubled until `n / d` takes 53 bits.
pub open spec fn doublings(n: int, d: int) -> nat
    decreases 0x20_0000_0000_0000 * d - n,
{
    if n <= 0 || n >= 0x10_0000_0000_0000 * d {
        0
    } else {
        1 + doublings(2 * n, d)
    }
}

/// How often `d` has to be doubled until `n / d` takes no more than 53 bits.
pub open spec fn halvings(n: int, d: int) -> nat
    decreases 2 * n - 0x20_0000_0000_0000 * d,
{
    if d <= 0 || n < 0x20_0000_0000_0000 * d {
        0
    } else {
        1 + halvings(n, 2 * d)
    }
}

/// A floating-point number: `significand * 2^up / 2^down`.
pub struct Float {
    pub significand: int,
    pub up: nat,
    pub down: nat,
}

/// The floating-point number nearest to `n / d`.
pub open spec fn quotient(n: int, d: int) -> Float {
    if n >= 0x20_0000_0000_0000 * d {
        let up = halvings(n, d);
        Float { significand: numbers::nearest(n, d * power2::pow2(up)), up, down: 0 }
    } else {
        let down = doublings(n, d);
        Float { significand: numbers::nearest(n * power2::pow2(down), d), up: 0, down }
    }
}

/// A hundred times a floating-point number, again as a floating-point number.
pub open spec fn hundredfold(f: Float) -> Float {
    Float { significand: numbers::as_float(f.significand * 100), ..f }
}

/// A floating-point number times `scale`, rounded to a whole number.
pub open spec fn whole(f: Float, scale: int) -> int {
    numbers::nearest(f.significand * power2::pow2(f.up) * scale, power2::pow2(f.down) as int)
}

/// The share of `part` in `all` in percent, with one decimal; none where there is nothing to have
/// a share in.
pub open spec fn percent_text(part: int, all: int) -> Seq<char> {
    if all > 0 {
        let tenths = whole(
            hundredfold(quotient(numbers::as_float(part), numbers::as_float(all))),
            10,
        );
        text::dec(tenths / 10) + "."@ + seq![text::digit_char(tenths % 10)]
    } else {
        "0.0"@
    }
}

/// The magnitude of a number.
pub open spec fn magnitude(n: int) -> int {
    if n < 0 {
        -n
    } else {
        n
    }
}

/// `a / b` with two decimals.
pub open spec fn ratio_text(a: int, b: int) -> Seq<char> {
    let hundredths = whole(
        quotient(numbers::as_float(magnitude(a)), numbers::as_float(b)),
        100,
    );
    (if a < 0 {
        "-"@
    } else {
        ""@
    }) + text::dec(hundredths / 100) + "."@ + numbers::two_digits(hundredths % 100)
}

/// A floating-point number: `significand * up / down`.
struct Binary {
    significand: u128,
    up: u128,
    down: u128,
}

impl Binary {
    spec fn is(&self, f: Float) -> bool {
        &&& self.significand == f.significand
        &&& self.up == power2::pow2(f.up)
        &&& self.down == power2::pow2(f.down)
        &&& self.significand <= 0x20_0000_0000_0000
        &&& 1 <= self.up <= 0x1000
        &&& 1 <= self.down <= 0x20_0000_0000_0000_0000_0000_0000_0000
    }
}

fn nearest_whole(n: u128, d: u128) -> (r: u128)
    requires
        0 < d <= 0x20_0000_0000_0000_0000_0000_0000_0000,
    ensures
        r == numbers::nearest(n as int, d as int),
        r <= n as int / d as int + 1,
{
    let q: u128 = n / d;
    let rem: u128 = n % d;
    if 2 * rem > d || (2 * rem == d && q % 2 == 1) {
        proof {
            assert(d >= 2 || rem == 0);
            assert(q < u128::MAX) by (nonlinear_arith)
                requires
                    q == n / d,
                    d >= 2,
            ;
        }
        q + 1
    } else {
        q
    }
}

fn divide(n: u128, d: u128) -> (r: Binary)
    requires
        n <= 0x1_0000_0000_0000_0000,
        0 < d <= 0x1_0000_0000_0000_0000,
    ensures
        r.is(quotient(n as int, d as int)),
{
    proof {
        power2::lemma2_to64();
    }
    let ghost mut k: nat = 0;
    if n >= 0x20_0000_0000_0000 * d {
        let mut e: u128 = d;
        let mut up: u128 = 1;
        while n >= 0x20_0000_0000_0000 * e
            invariant
                0 < d,
                e == d * power2::pow2(k),
                up == power2::pow2(k),
                1 <= up <= e,
                halvings(n as int, d as int) == k + halvings(n as int, e as int),
                n <= 0x1_0000_0000_0000_0000,
                e <= 0x1000,
                n >= 0x10_0000_0000_0000 * e,
            decreases 0x2000 - e,
        {
            proof {
                power2::lemma_pow2_unfold(k + 1);
                assert(2 * (d * power2::pow2(k)) == d * (2 * power2::pow2(k)))
                    by (nonlinear_arith);
                k = k + 1;
            }
            e = 2 * e;
            up = 2 * up;
        }
        let significand: u128 = nearest_whole(n, e);
        proof {
            assert(n as int / e as int <= 0x1f_ffff_ffff_ffff) by (nonlinear_arith)
                requires
                    n < 0x20_0000_0000_0000 * e,
                    e > 0,
            ;
        }
        Binary { significand, up, down: 1 }
    } else {
        let mut m: u128 = n;
        let mut down: u128 = 1;
        while 0 < m && m < 0x10_0000_0000_0000 * d
            invariant
                0 < d <= 0x1_0000_0000_0000_0000,
                m == n * power2::pow2(k),
                down == power2::pow2(k),
                down >= 1,
                m > 0 ==> down <= m,
                m == 0 ==> down == 1,
                doublings(n as int, d as int) == k + doublings(m as int, d as int),
                m < 0x20_0000_0000_0000 * d,
            decreases 0x20_0000_0000_0000 * d - m,
        {
            proof {
                power2::lemma_pow2_unfold(k + 1);
                assert(2 * (n * power2::pow2(k)) == n * (2 * power2::pow2(k)))
                    by (nonlinear_arith);
                k = k + 1;
            }
            m = 2 * m;
            down = 2 * down;
        }
        let significand: u128 = nearest_whole(m, d);
        proof {
            assert(m as int / d as int <= 0x1f_ffff_ffff_ffff) by (nonlinear_arith)
                requires
                    m < 0x20_0000_0000_0000 * d,
                    d > 0,
            ;
        }
        Binary { significand, up: 1, down }
    }
}

fn scaled(f: &Binary, value: u128, scale: u128, Ghost(g): Ghost<Float>) -> (r: u128)
    requires
        f.is(Float { significand: f.significand as int, ..g }),
        value == g.significand,
        value <= 0x1_0000_0000_0000_0000,
        scale <= 100,
    ensures
        r == whole(g, scale as int),
{
    proof {
        assert(value * f.up <= 0x1_0000_0000_0000_0000 * 0x1000) by (nonlinear_arith)
            requires
                0 <= value <= 0x1_0000_0000_0000_0000,
                0 <= f.up <= 0x1000,
        ;
        assert(value * f.up * scale <= 0x1_0000_0000_0000_0000 * 0x1000 * 100) by (nonlinear_arith)
            requires
                0 <= value * f.up <= 0x1_0000_0000_0000_0000 * 0x1000,
                0 <= scale <= 100,
        ;
    }
    nearest_whole(value * f.up * scale, f.down)
}

/// The share of `part` in `all` in percent, with one decimal.
pub fn percent(part: u64, all: u64) -> (r: String)
    ensures
        r@ == percent_text(part as int, all as int),
{
    if all == 0 {
        return "0.0".to_owned();
    }
    let n: u128 = float_value(part);
    let d: u128 = float_value(all);
    let q = divide(n, d);
    let ghost f = quotient(n as int, d as int);
    let p: u128 = float_value((q.significand * 100) as u64);
    let tenths: u128 = scaled(&q, p, 10, Ghost(hundredfold(f)));
    let mut r = text::decimal_wide(tenths / 10);
    r.append(".");
    r.push(text::digit((tenths % 10) as u64));
    proof {
        assert(r@ =~= percent_text(part as int, all as int));
    }
    r
}

/// `a / b` with two decimals.
pub fn ratio(a: i64, b: i64) -> (r: String)
    requires
        b > 0,
    ensures
        r@ == ratio_text(a as int, b as int),
{
    let size: u64 = if a == i64::MIN {
        0x8000_0000_0000_0000
    } else if a < 0 {
        (-a) as u64
    } else {
        a as u64
    };
    let n: u128 = float_value(size);
    let d: u128 = float_value(b as u64);
    let q = divide(n, d);
    let ghost f = quotient(n as int, d as int);
    let hundredths: u128 = scaled(&q, q.significand, 100, Ghost(f));
    let mut r = String::new();
    if a < 0 {
        r.append("-");
    } else {
        r.append("");
    }
    r.append(text::decimal_wide(hundredths / 100).as_str());
    r.append(".");
    numbers::push_two_digits(&mut r, (hundredths % 100) as u64);
    proof {
        assert(r@ =~= ratio_text(a as int, b as int));
    }
    r
}

proof fn doublings_of_multiple(a: int, k: nat)
    requires
        a > 0,
        k <= 52,
    ensures
        doublings(a * power2::pow2(k), a) == 52 - k,
    decreases 52 - k,
{
    power2::lemma2_to64();
    power2::lemma2_to64_rest();
    power2::lemma_pow2_pos(k);
    let n = a * power2::pow2(k);
    assert(n > 0) by (nonlinear_arith)
        requires
            a > 0,
            power2::pow2(k) > 0,
            n == a * power2::pow2(k),
    ;
    if k < 52 {
        power2::lemma_pow2_strictly_increases(k, 52);
        assert(n < 0x10_0000_0000_0000 * a) by (nonlinear_arith)
            requires
                a > 0,
                power2::pow2(k) < 0x10_0000_0000_0000,
                n == a * power2::pow2(k),
        ;
        power2::lemma_pow2_unfold(k + 1);
        assert(2 * n == a * power2::pow2(k + 1)) by (nonlinear_arith)
            requires
                n == a * power2::pow2(k),
                power2::pow2(k + 1) == 2 * power2::pow2(k),
        ;
        doublings_of_multiple(a, k + 1);
    } else {
        assert(n == 0x10_0000_0000_0000 * a) by (nonlinear_arith)
            requires
                power2::pow2(k) == 0x10_0000_0000_0000,
                n == a * power2::pow2(k),
        ;
    }
}

/// The whole is a hundred percent of itself.
pub proof fn whole_is_a_hundred_percent(n: u64)
    requires
        n > 0,
    ensures
        percent_text(n as int, n as int) == "100.0"@,
{
    power2::lemma2_to64();
    power2::lemma2_to64_rest();
    let a = numbers::as_float(n as int);
    numbers::float_is_positive(n);
    assert(a * power2::pow2(0) == a) by (nonlinear_arith)
        requires
            power2::pow2(0) == 1,
    ;
    doublings_of_multiple(a, 0);
    let q = quotient(a, a);
    let m: int = 0x10_0000_0000_0000;
    assert(power2::pow2(52) == m);
    assert(a * m / a == m && (a * m) % a == 0) by (nonlinear_arith)
        requires
            a > 0,
            m > 0,
    ;
    assert(q.significand == m);
    assert(numbers::as_float(m * 100) == m * 100) by {
        reveal_with_fuel(numbers::rounded, 7);
    }
    let p = hundredfold(q);
    assert(p.significand * power2::pow2(p.up) == m * 100) by (nonlinear_arith)
        requires
            p.significand == m * 100,
            power2::pow2(p.up) == 1,
    ;
    assert(whole(p, 10) == 1000);
    reveal_strlit("100.0");
    reveal_strlit(".");
    reveal_with_fuel(text::dec, 4);
    assert(percent_text(n as int, n as int) =~= "100.0"@);
}

/// Nothing is no percent of anything.
pub proof fn nothing_is_no_percent(n: u64)
    ensures
        percent_text(0, n as int) == "0.0"@,
{
    if n > 0 {
        power2::lemma2_to64();
        let d = numbers::as_float(n as int);
        numbers::float_is_positive(n);
        let q = quotient(0, d);
        assert(0 * power2::pow2(0) == 0);
        assert(0int / d == 0 && 0int % d == 0) by (nonlinear_arith)
            requires
                d > 0,
        ;
        assert(q.significand == 0);
        let p = hundredfold(q);
        assert(p.significand * power2::pow2(p.up) * 10 == 0) by (nonlinear_arith)
            requires
                p.significand == 0,
        ;
        assert(whole(p, 10) == 0);
        reveal_strlit("0.0");
        reveal_strlit(".");
        assert(percent_text(0, n as int) =~= "0.0"@);
    }
}

} // verus!
