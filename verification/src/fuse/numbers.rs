//! Sizes and counts as text.

use vstd::prelude::*;

use crate::text;

verus! {

/// A number as a 64-bit floating-point number holds it: one of more than 53 bits is rounded to
/// 53, to the even one of two that are equally near.
pub open spec fn as_float(n: int) -> int {
    if n < 0x20_0000_0000_0000 {
        n
    } else {
        rounded(n, 2)
    }
}

/// The number rounded to a multiple of `unit`, or of the first larger power of two for which 53
/// bits reach far enough.
pub open spec fn rounded(n: int, unit: int) -> int
    decreases 0x2_0000 - unit,
{
    if n < 0x20_0000_0000_0000 * unit || unit >= 0x1_0000 || unit <= 0 {
        nearest(n, unit) * unit
    } else {
        rounded(n, 2 * unit)
    }
}

/// `n / d`, rounded to the nearest whole number, and to the even one of two that are equally
/// near.
pub open spec fn nearest(n: int, d: int) -> int {
    let q = n / d;
    let r = n % d;
    if 2 * r > d || (2 * r == d && q % 2 == 1) {
        q + 1
    } else {
        q
    }
}

/// Two digits.
pub open spec fn two_digits(n: int) -> Seq<char> {
    seq![text::digit_char(n / 10), text::digit_char(n % 10)]
}

/// `bytes / unit` with two decimals, as the division of 64-bit floating-point numbers gives it.
pub open spec fn in_units(bytes: int, unit: int) -> Seq<char> {
    let hundredths = nearest(as_float(bytes) * 100, unit);
    text::dec(hundredths / 100) + "."@ + two_digits(hundredths % 100)
}

/// A number of bytes in the largest unit that it reaches.
pub open spec fn bytes_text(bytes: int) -> Seq<char> {
    if bytes >= 0x4000_0000 {
        in_units(bytes, 0x4000_0000) + " GB"@
    } else if bytes >= 0x10_0000 {
        in_units(bytes, 0x10_0000) + " MB"@
    } else if bytes >= 0x400 {
        in_units(bytes, 0x400) + " KB"@
    } else {
        text::dec(bytes) + " B"@
    }
}

fn nearest_u128(n: u128, d: u128) -> (r: u128)
    requires
        0 < d <= 0x4000_0000,
        n <= 0x1_0000_0000_0000_0000_0000,
    ensures
        r == nearest(n as int, d as int),
        r <= n + 1,
{
    let q: u128 = n / d;
    let rem: u128 = n % d;
    proof {
        assert(n as int / d as int <= n) by (nonlinear_arith)
            requires
                d >= 1,
                n >= 0,
        ;
    }
    if 2 * rem > d || (2 * rem == d && q % 2 == 1) {
        q + 1
    } else {
        q
    }
}

/// A number of bytes as a 64-bit floating-point number holds it.
pub(crate) fn float_value(bytes: u64) -> (r: u128)
    ensures
        r == as_float(bytes as int),
        r <= 0x1_0000_0000_0000_0000,
        bytes > 0 ==> r > 0,
{
    if bytes < 0x20_0000_0000_0000 {
        return bytes as u128;
    }
    let n: u128 = bytes as u128;
    let mut unit: u128 = 2;
    while n >= 0x20_0000_0000_0000 * unit
        invariant
            unit == 2 || unit == 4 || unit == 8 || unit == 16 || unit == 32 || unit == 64 || unit
                == 128 || unit == 256 || unit == 512 || unit == 1024 || unit == 2048,
            n <= u64::MAX,
            as_float(n as int) == rounded(n as int, unit as int),
        decreases 0x10000 - unit,
    {
        proof {
            assert(unit != 2048);
        }
        unit = 2 * unit;
    }
    let q = nearest_u128(n, unit);
    proof {
        rounded_stays_in_range(n as int, unit as int);
    }
    q * unit
}

/// What is rounded to a floating-point number does not vanish.
pub proof fn float_is_positive(n: u64)
    requires
        n > 0,
    ensures
        as_float(n as int) > 0,
{
    if n >= 0x20_0000_0000_0000 {
        rounded_is_positive(n as int, 2);
    }
}

proof fn rounded_is_positive(n: int, unit: int)
    requires
        n >= 0x20_0000_0000_0000,
        0 < unit < 0x2_0000,
    ensures
        rounded(n, unit) > 0,
    decreases 0x2_0000 - unit,
{
    if n < 0x20_0000_0000_0000 * unit || unit >= 0x1_0000 {
        assert(n / unit >= 1) by (nonlinear_arith)
            requires
                n >= unit,
                unit > 0,
        ;
        assert(nearest(n, unit) * unit > 0) by (nonlinear_arith)
            requires
                nearest(n, unit) >= 1,
                unit > 0,
        ;
    } else {
        rounded_is_positive(n, 2 * unit);
    }
}

proof fn rounded_stays_in_range(n: int, unit: int)
    requires
        0 <= n <= u64::MAX,
        unit == 2 || unit == 4 || unit == 8 || unit == 16 || unit == 32 || unit == 64 || unit == 128
            || unit == 256 || unit == 512 || unit == 1024 || unit == 2048,
    ensures
        nearest(n, unit) * unit <= 0x1_0000_0000_0000_0000,
        n >= unit ==> nearest(n, unit) * unit > 0,
{
    assert(n / 2 <= 0x7fff_ffff_ffff_ffff);
}

pub(crate) fn push_two_digits(out: &mut String, n: u64)
    requires
        n < 100,
    ensures
        final(out)@ == old(out)@ + two_digits(n as int),
{
    out.push(text::digit(n / 10));
    out.push(text::digit(n % 10));
    proof {
        assert(out@ =~= old(out)@ + two_digits(n as int));
    }
}

fn unit_text(bytes: u64, unit: u64) -> (r: String)
    requires
        unit == 0x400 || unit == 0x10_0000 || unit == 0x4000_0000,
        bytes >= unit,
        unit == 0x400 ==> bytes < 0x10_0000,
        unit == 0x10_0000 ==> bytes < 0x4000_0000,
    ensures
        r@ == in_units(bytes as int, unit as int),
{
    let value: u128 = float_value(bytes) * 100;
    let wide: u128 = nearest_u128(value, unit as u128);
    proof {
        hundredths_fit(value as int, unit as int);
    }
    let hundredths: u64 = wide as u64;
    let mut r = text::decimal(hundredths / 100);
    r.append(".");
    push_two_digits(&mut r, hundredths % 100);
    r
}

proof fn hundredths_fit(value: int, unit: int)
    requires
        unit == 0x400 ==> value < 0x10_0000 * 100,
        unit == 0x10_0000 ==> value < 0x4000_0000 * 100,
        unit == 0x400 || unit == 0x10_0000 || unit == 0x4000_0000,
        0 <= value <= 0x1_0000_0000_0000_0000 * 100,
    ensures
        0 <= nearest(value, unit) <= u64::MAX,
{
}

/// A number of bytes in the largest unit that it reaches, with two decimals.
pub fn format_bytes(bytes: u64) -> (r: String)
    ensures
        r@ == bytes_text(bytes as int),
{
    if bytes >= 0x4000_0000 {
        text::concat2(unit_text(bytes, 0x4000_0000).as_str(), " GB")
    } else if bytes >= 0x10_0000 {
        text::concat2(unit_text(bytes, 0x10_0000).as_str(), " MB")
    } else if bytes >= 0x400 {
        text::concat2(unit_text(bytes, 0x400).as_str(), " KB")
    } else {
        text::concat2(text::decimal(bytes).as_str(), " B")
    }
}

/// Digits with a comma before each group of three, of which `left` more follow.
pub open spec fn grouped(digits: Seq<char>, left: nat) -> Seq<char>
    decreases digits.len(),
{
    if digits.len() == 0 {
        Seq::empty()
    } else {
        let head = grouped(digits.drop_last(), left + 1);
        if digits.len() > 1 && (left + 1) % 3 == 0 {
            head + seq![',', digits.last()]
        } else {
            head.push(digits.last())
        }
    }
}

/// A number with a comma between each three digits.
pub open spec fn num_text(n: int) -> Seq<char> {
    grouped(text::dec(n), 0)
}

/// A number with a comma between each three digits.
pub fn format_num(n: u64) -> (r: String)
    ensures
        r@ == num_text(n as int),
{
    let digits = text::decimal(n);
    let cs = text::chars_of(digits.as_str());
    let len: usize = cs.len();
    let mut r = String::new();
    let mut i: usize = 0;
    proof {
        assert(r@ =~= grouped(cs@.take(0), len as nat));
    }
    while i < len
        invariant
            i <= len,
            len == cs@.len(),
            r@ == grouped(cs@.take(i as int), (len - i) as nat),
        decreases len - i,
    {
        proof {
            assert(cs@.take(i as int + 1).drop_last() =~= cs@.take(i as int));
        }
        if i > 0 && (len - i) % 3 == 0 {
            r.push(',');
            r.push(cs[i]);
            proof {
                let head = grouped(cs@.take(i as int), (len - i) as nat);
                assert(r@ =~= head + seq![',', cs@[i as int]]);
            }
        } else {
            r.push(cs[i]);
        }
        i = i + 1;
    }
    proof {
        assert(cs@.take(len as int) =~= cs@);
    }
    r
}

/// The characters other than commas.
pub open spec fn without_commas(s: Seq<char>) -> Seq<char> {
    s.filter(|c: char| c != ',')
}

proof fn grouped_keeps_digits(digits: Seq<char>, left: nat)
    requires
        !digits.contains(','),
    ensures
        without_commas(grouped(digits, left)) == digits,
    decreases digits.len(),
{
    reveal(Seq::filter);
    if digits.len() == 0 {
        assert(without_commas(grouped(digits, left)) =~= digits);
    } else {
        let head = digits.drop_last();
        assert(digits.contains(digits[digits.len() - 1]));
        assert forall|i: int| 0 <= i < head.len() implies head[i] != ',' by {
            assert(digits.contains(digits[i]));
        }
        grouped_keeps_digits(head, left + 1);
        let g = grouped(head, left + 1);
        let c = digits.last();
        assert(head.push(c) =~= digits);
        if digits.len() > 1 && (left + 1) % 3 == 0 {
            let s = g + seq![',', c];
            assert(s.drop_last() =~= g.push(','));
            assert(g.push(',').drop_last() =~= g);
            assert(without_commas(g.push(',')) == without_commas(g));
            assert(without_commas(s) == without_commas(g.push(',')).push(c));
        } else {
            assert(g.push(c).drop_last() =~= g);
        }
    }
}

/// Without its commas a formatted number is the plain numeral.
pub proof fn commas_only_group(n: int)
    requires
        n >= 0,
    ensures
        without_commas(num_text(n)) == text::dec(n),
{
    text::numeral_reads_dec(n, n);
    assert forall|i: int| 0 <= i < text::dec(n).len() implies text::dec(n)[i] != ',' by {
        assert(text::is_digit(text::dec(n)[i]));
    }
    grouped_keeps_digits(text::dec(n), 0);
}

/// A text that says how many times `bytes` is `unit`, to the nearest hundredth.
pub open spec fn reads_as(t: Seq<char>, bytes: int, unit: int, name: Seq<char>) -> bool {
    exists|whole: int, hundredths: int|
        {
            &&& whole >= 0
            &&& 0 <= hundredths < 100
            &&& t == #[trigger] text::dec(whole) + "."@ + #[trigger] two_digits(hundredths) + name
            &&& -unit <= 2 * ((100 * whole + hundredths) * unit - 100 * bytes) <= unit
        }
}

proof fn near_hundredths(bytes: int, unit: int, name: Seq<char>)
    requires
        0 <= bytes < 0x20_0000_0000_0000,
        unit > 0,
    ensures
        reads_as(in_units(bytes, unit) + name, bytes, unit, name),
{
    let n = as_float(bytes) * 100;
    let h = nearest(n, unit);
    let q = n / unit;
    let r = n % unit;
    assert(n == q * unit + r && 0 <= r < unit && q >= 0) by (nonlinear_arith)
        requires
            unit > 0,
            n >= 0,
            q == n / unit,
            r == n % unit,
    ;
    assert((q + 1) * unit == q * unit + unit) by (nonlinear_arith);
    let whole = h / 100;
    let hundredths = h % 100;
    assert(100 * whole + hundredths == h);
    assert(in_units(bytes, unit) + name == text::dec(whole) + "."@ + two_digits(hundredths) + name);
}

/// A size is told in the largest unit that it reaches, 1024 to the next, to the nearest hundredth;
/// below a kilobyte it is told exactly.
pub proof fn size_is_told(bytes: u64)
    requires
        bytes < 0x20_0000_0000_0000,
    ensures
        bytes < 1024 ==> bytes_text(bytes as int) == text::dec(bytes as int) + " B"@,
        1024 <= bytes < 1_048_576 ==> reads_as(
            bytes_text(bytes as int),
            bytes as int,
            1024,
            " KB"@,
        ),
        1_048_576 <= bytes < 1_073_741_824 ==> reads_as(
            bytes_text(bytes as int),
            bytes as int,
            1_048_576,
            " MB"@,
        ),
        1_073_741_824 <= bytes ==> reads_as(
            bytes_text(bytes as int),
            bytes as int,
            1_073_741_824,
            " GB"@,
        ),
{
    near_hundredths(bytes as int, 1024, " KB"@);
    near_hundredths(bytes as int, 1_048_576, " MB"@);
    near_hundredths(bytes as int, 1_073_741_824, " GB"@);
}

proof fn grouped_by_threes(digits: Seq<char>, left: nat, i: int)
    requires
        digits.len() > 0,
        left % 3 == 0,
        !digits.contains(','),
        0 <= i < grouped(digits, left).len(),
    ensures
        ((grouped(digits, left).len() - i) % 4 == 0 && i > 0) == (grouped(digits, left)[i] == ','),
    decreases digits.len(),
{
    reveal_with_fuel(grouped, 4);
    let g = grouped(digits, left);
    let a = digits.drop_last();
    assert forall|k: int| 0 <= k < digits.len() implies digits[k] != ',' by {
        assert(digits.contains(digits[k]));
    }
    if digits.len() > 1 {
        let b = a.drop_last();
        if digits.len() > 2 {
            let c = b.drop_last();
            let d = digits.len() as int;
            let head = grouped(c, left + 3);
            if digits.len() > 3 {
                assert(grouped(b, left + 2) =~= head + seq![',', digits[d - 3]]);
                assert(grouped(a, left + 1) =~= head + seq![',', digits[d - 3], digits[d - 2]]);
                assert(g =~= head + seq![',', digits[d - 3], digits[d - 2], digits[d - 1]]);
                assert forall|k: int| 0 <= k < c.len() implies c[k] != ',' by {
                    assert(c[k] == digits[k]);
                }
                if i < head.len() {
                    grouped_by_threes(c, left + 3, i);
                }
            } else {
                assert(grouped(c, left + 3) =~= Seq::empty());
                assert(grouped(b, left + 2) =~= seq![digits[0]]);
                assert(grouped(a, left + 1) =~= seq![digits[0], digits[1]]);
                assert(g =~= seq![digits[0], digits[1], digits[2]]);
            }
        } else {
            assert(grouped(b, left + 2) =~= Seq::empty());
            assert(g =~= seq![digits[0], digits[1]]);
        }
    } else {
        assert(grouped(a, left + 1) =~= Seq::empty());
        assert(g =~= seq![digits[0]]);
    }
}

/// A formatted number has a comma before each three digits, counted from the end, and nowhere else;
/// it does not begin with one.
pub proof fn commas_stand_by_threes(n: int, i: int)
    requires
        n >= 0,
        0 <= i < num_text(n).len(),
    ensures
        num_text(n)[i] == ',' <==> i > 0 && (num_text(n).len() - i) % 4 == 0,
{
    text::numeral_reads_dec(n, n);
    assert forall|k: int| 0 <= k < text::dec(n).len() implies text::dec(n)[k] != ',' by {
        assert(text::is_digit(text::dec(n)[k]));
    }
    grouped_by_threes(text::dec(n), 0, i);
}

} // verus!
