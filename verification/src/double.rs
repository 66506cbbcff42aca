//! Rounding of whole numbers to double precision, carried out on integers.

use vstd::arithmetic::div_mod::{lemma_div_denominator, lemma_fundamental_div_mod};
use vstd::arithmetic::power2::{lemma_pow2_adds, lemma_pow2_pos, lemma_pow2_unfold, pow2};
use vstd::prelude::*;

verus! {

/// 2^53: below it every whole number is a double.
pub const MANTISSA_LIMIT: u128 = 0x20_0000_0000_0000;

/// Distance between neighbouring doubles at the whole number `n`, or 1 where
/// every whole number is a double.
pub open spec fn spacing(n: nat) -> nat
    decreases n,
{
    if n < MANTISSA_LIMIT {
        1
    } else {
        2 * spacing(n / 2)
    }
}

/// The double nearest to the whole number `n`; of two equally near, the one
/// with the even mantissa.
pub open spec fn nearest_double(n: nat) -> nat {
    let unit = spacing(n);
    let below = n / unit;
    let rest = n % unit;
    if 2 * rest < unit || (2 * rest == unit && below % 2 == 0) {
        below * unit
    } else {
        (below + 1) * unit
    }
}

/// At `n`, doubles are so far apart that between 2^52 and 2^53 steps make up `n`.
pub proof fn lemma_spacing_bounds(n: nat)
    ensures
        1 <= spacing(n),
        n < spacing(n) * MANTISSA_LIMIT,
        2 * n >= MANTISSA_LIMIT ==> spacing(n) * MANTISSA_LIMIT <= 2 * n,
    decreases n,
{
    if n >= MANTISSA_LIMIT {
        lemma_spacing_bounds(n / 2);
    }
}

/// A larger number has a spacing that is a multiple of that of a smaller one.
pub proof fn lemma_spacing_multiple(m: nat, n: nat) -> (factor: nat)
    requires
        m <= n,
    ensures
        1 <= factor,
        spacing(n) == factor * spacing(m),
    decreases n,
{
    if m < MANTISSA_LIMIT {
        lemma_spacing_bounds(n);
        let factor = spacing(n);
        assert(factor * 1 == factor);
        factor
    } else {
        let factor = lemma_spacing_multiple(m / 2, n / 2);
        assert(2 * (factor * spacing(m / 2)) == factor * (2 * spacing(m / 2))) by (nonlinear_arith);
        factor
    }
}

/// Splits `n` into a multiple of its spacing and a rest.
proof fn lemma_split(n: nat)
    ensures
        n == (n / spacing(n)) * spacing(n) + n % spacing(n),
        n % spacing(n) < spacing(n),
        (n / spacing(n) + 1) * spacing(n) == (n / spacing(n)) * spacing(n) + spacing(n),
{
    lemma_spacing_bounds(n);
    let unit = spacing(n) as int;
    lemma_fundamental_div_mod(n as int, unit);
    assert(0 <= n as int % unit < unit) by (nonlinear_arith)
        requires
            unit > 0,
    ;
    assert(unit * (n as int / unit) == (n as int / unit) * unit) by (nonlinear_arith);
    assert((n as int / unit + 1) * unit == (n as int / unit) * unit + unit) by (nonlinear_arith);
}

/// Rounding moves a number by at most half a step, which is at most one part
/// in 2^53, and does not move a number below 2^53 at all.
pub proof fn lemma_rounding_error(n: nat)
    ensures
        2 * nearest_double(n) <= 2 * n + spacing(n),
        2 * n <= 2 * nearest_double(n) + spacing(n),
        n < MANTISSA_LIMIT ==> nearest_double(n) == n,
        nearest_double(n) * MANTISSA_LIMIT <= n * MANTISSA_LIMIT + n,
        n * MANTISSA_LIMIT <= nearest_double(n) * MANTISSA_LIMIT + n,
{
    lemma_spacing_bounds(n);
    lemma_split(n);
    if n < MANTISSA_LIMIT {
        assert(n % 1 == 0 && n / 1 == n);
    }
}

/// Rounding does not move a number past a multiple of its spacing.
pub proof fn lemma_rounding_stays(n: nat, count: nat)
    ensures
        count * spacing(n) <= n ==> count * spacing(n) <= nearest_double(n),
        n <= count * spacing(n) ==> nearest_double(n) <= count * spacing(n),
{
    lemma_spacing_bounds(n);
    lemma_split(n);
    let unit = spacing(n);
    let below = n / unit;
    if count <= below {
        assert(count * unit <= below * unit) by (nonlinear_arith)
            requires
                count <= below,
        ;
    } else {
        assert((below + 1) * unit <= count * unit) by (nonlinear_arith)
            requires
                below + 1 <= count,
        ;
    }
}

/// Rounding keeps order: of two numbers, the larger one never has the smaller
/// double.
pub proof fn law_rounding_keeps_order(m: nat, n: nat)
    requires
        m <= n,
    ensures
        nearest_double(m) <= nearest_double(n),
{
    let factor = lemma_spacing_multiple(m, n);
    lemma_spacing_bounds(m);
    lemma_spacing_bounds(n);
    lemma_split(m);
    lemma_split(n);
    let (fine, coarse) = (spacing(m), spacing(n));
    if factor == 1 {
        assert(fine == coarse);
        if m / fine < n / fine {
            lemma_rounding_stays(m, m / fine + 1);
            assert((m / fine + 1) * fine <= (n / fine) * fine) by (nonlinear_arith)
                requires
                    m / fine + 1 <= n / fine,
            ;
            lemma_rounding_stays(n, n / fine);
        } else {
            assert(m / fine == n / fine) by (nonlinear_arith)
                requires
                    m <= n,
                    fine > 0,
                    !(m / fine < n / fine),
            ;
        }
    } else {
        // A power of two lies between the two numbers, and both roundings
        // stay on their own side of it.
        assert(2 * fine <= coarse) by (nonlinear_arith)
            requires
                factor >= 2,
                coarse == factor * fine,
        ;
        lemma_rounding_stays(m, MANTISSA_LIMIT as nat);
        lemma_rounding_stays(n, (MANTISSA_LIMIT / 2) as nat);
        if 2 * n < MANTISSA_LIMIT {
            assert(coarse == 1);
        }
    }
}

/// A spacing is a power of two.
proof fn lemma_spacing_is_power(n: nat) -> (exponent: nat)
    ensures
        spacing(n) == pow2(exponent),
    decreases n,
{
    if n < MANTISSA_LIMIT {
        vstd::arithmetic::power2::lemma2_to64();
        0
    } else {
        let exponent = lemma_spacing_is_power(n / 2);
        lemma_pow2_unfold(exponent + 1);
        exponent + 1
    }
}

/// No double is nearer to `n` than the one it is rounded to. A double is a
/// mantissa of up to 53 bits times a power of two: `mantissa` and `exponent`
/// are any such double, and the result are those of the rounded number. Where
/// the two are equally near, the rounded number is the one with the even
/// mantissa: a multiple of twice the distance between them.
pub proof fn law_rounding_is_nearest(n: nat, mantissa: nat, exponent: nat) -> (double: (nat, nat))
    requires
        mantissa <= 0x20_0000_0000_0000,
    ensures
        double.0 <= 0x20_0000_0000_0000,
        nearest_double(n) == double.0 * pow2(double.1),
        ({
            let rounded = nearest_double(n) as int;
            let other = (mantissa * pow2(exponent)) as int;
            let error = if rounded < n { n - rounded } else { rounded - n };
            let distance = if other < n { n - other } else { other - n };
            let gap = if other < rounded { rounded - other } else { other - rounded };
            &&& error <= distance
            &&& error == distance && other != rounded ==> rounded % (2 * gap) == 0
        }),
{
    let unit = spacing(n);
    let below = n / unit;
    let rest = n % unit;
    let other = mantissa * pow2(exponent);
    let place = lemma_spacing_is_power(n);
    lemma_spacing_bounds(n);
    lemma_split(n);
    lemma_pow2_pos(exponent);
    let count = if 2 * rest < unit || (2 * rest == unit && below % 2 == 0) {
        below
    } else {
        below + 1
    };
    assert(below < 0x20_0000_0000_0000) by (nonlinear_arith)
        requires
            below * unit <= n,
            n < unit * 0x20_0000_0000_0000,
    ;
    assert(nearest_double(n) == count * unit);
    if n < MANTISSA_LIMIT {
        lemma_rounding_error(n);
    } else {
        if exponent >= place {
            let steps = mantissa * pow2((exponent - place) as nat);
            lemma_pow2_adds((exponent - place) as nat, place);
            assert(other == steps * unit) by (nonlinear_arith)
                requires
                    other == mantissa * pow2(exponent),
                    pow2(exponent) == pow2((exponent - place) as nat) * unit,
                    steps == mantissa * pow2((exponent - place) as nat),
            ;
            lemma_multiple_is_not_nearer(n, steps);
        } else {
            // Such a double is at most 2^52 steps, and so does not exceed `n`.
            let steps: nat = 0x10_0000_0000_0000;
            lemma_pow2_adds((place - exponent - 1) as nat, exponent);
            lemma_pow2_pos((place - exponent - 1) as nat);
            lemma_pow2_unfold(place);
            assert(other <= steps * unit) by (nonlinear_arith)
                requires
                    other == mantissa * pow2(exponent),
                    mantissa <= 2 * steps,
                    unit == 2 * pow2((place - 1) as nat),
                    pow2((place - 1) as nat) == pow2((place - exponent - 1) as nat) * pow2(
                        exponent,
                    ),
                    pow2((place - exponent - 1) as nat) >= 1,
            ;
            lemma_multiple_is_not_nearer(n, steps);
            lemma_rounding_stays(n, steps);
        }
    }
    (count, place)
}

/// No multiple of the spacing is nearer to `n` than the rounded number.
proof fn lemma_multiple_is_not_nearer(n: nat, steps: nat)
    requires
        n >= MANTISSA_LIMIT,
    ensures
        ({
            let rounded = nearest_double(n) as int;
            let other = (steps * spacing(n)) as int;
            let error = if rounded < n { n - rounded } else { rounded - n };
            let distance = if other < n { n - other } else { other - n };
            let gap = if other < rounded { rounded - other } else { other - rounded };
            &&& error <= distance
            &&& error == distance && other != rounded ==> rounded % (2 * gap) == 0
        }),
{
    let unit = spacing(n);
    let below = n / unit;
    let rest = n % unit;
    lemma_spacing_bounds(n);
    lemma_split(n);
    let other = steps * unit;
    if steps < below {
        assert(other + unit <= below * unit) by (nonlinear_arith)
            requires
                other == steps * unit,
                steps + 1 <= below,
        ;
    } else if steps > below + 1 {
        assert((below + 1) * unit + unit <= other) by (nonlinear_arith)
            requires
                other == steps * unit,
                below + 2 <= steps,
        ;
    } else if 2 * rest == unit {
        let count = if below % 2 == 0 {
            below
        } else {
            below + 1
        };
        let half = count / 2;
        assert(count == 2 * half);
        assert(count * unit == half * (2 * unit)) by (nonlinear_arith)
            requires
                count == 2 * half,
        ;
        vstd::arithmetic::div_mod::lemma_mod_multiples_basic(half as int, 2 * unit as int);
    }
}

/// Whether `double` is a mantissa of up to 53 bits times a power of two.
pub open spec fn is_double(double: nat) -> bool {
    exists|mantissa: nat, exponent: nat|
        mantissa <= 0x20_0000_0000_0000 && double == #[trigger] (mantissa * pow2(exponent))
}

/// Distance between two whole numbers.
pub open spec fn distance(a: nat, b: nat) -> nat {
    if a < b {
        (b - a) as nat
    } else {
        (a - b) as nat
    }
}

/// Whether `double` is the double to round `n` to: no other is nearer, and
/// where another is as near, this one is a multiple of twice the distance
/// between them, which makes its mantissa the even one.
pub open spec fn is_nearest(n: nat, double: nat) -> bool {
    &&& is_double(double)
    &&& forall|other: nat| #[trigger]
        is_double(other) && other != double ==> {
            ||| distance(n, double) < distance(n, other)
            ||| distance(n, double) == distance(n, other) && double % (2 * distance(double, other))
                == 0
        }
}

/// Every number has a nearest double, and it is the one rounded to.
pub proof fn law_nearest_exists(n: nat)
    ensures
        is_nearest(n, nearest_double(n)),
{
    let double = law_rounding_is_nearest(n, 0, 0);
    let rounded = nearest_double(n);
    assert(is_double(rounded)) by {
        assert(rounded == double.0 * pow2(double.1));
    }
    assert forall|other: nat| #[trigger] is_double(other) && other != rounded implies {
        ||| distance(n, rounded) < distance(n, other)
        ||| distance(n, rounded) == distance(n, other) && rounded % (2 * distance(rounded, other))
            == 0
    } by {
        let (mantissa, exponent) = choose|mantissa: nat, exponent: nat|
            mantissa <= 0x20_0000_0000_0000 && other == #[trigger] (mantissa * pow2(exponent));
        let _ = law_rounding_is_nearest(n, mantissa, exponent);
    }
}

/// A number has no more than one nearest double.
pub proof fn law_nearest_is_unique(n: nat, double: nat)
    requires
        is_nearest(n, double),
    ensures
        double == nearest_double(n),
{
    let rounded = nearest_double(n);
    law_nearest_exists(n);
    if double != rounded {
        // Equally near and on either side of `n`, the two would both be even
        // multiples of the distance between them.
        assert(is_double(rounded) && is_double(double));
        let gap = distance(double, rounded) as int;
        let low = if double < rounded { double as int } else { rounded as int };
        assert(low % (2 * gap) == 0 && (low + gap) % (2 * gap) == 0);
        assert(false) by (nonlinear_arith)
            requires
                gap > 0,
                low % (2 * gap) == 0,
                (low + gap) % (2 * gap) == 0,
        {
            lemma_fundamental_div_mod(low, 2 * gap);
            lemma_fundamental_div_mod(low + gap, 2 * gap);
            let first = low / (2 * gap);
            let second = (low + gap) / (2 * gap);
            assert(gap == (2 * gap) * (second - first));
            assert(second - first <= 0 || second - first >= 1);
        }
    }
}

/// The double nearest to `n`.
pub(crate) fn round_to_double(n: u128) -> (r: u128)
    requires
        n <= u128::MAX / 2,
    ensures
        r == nearest_double(n as nat),
{
    let mut unit: u128 = 1;
    assert(n as nat / 1 == n);
    while n / unit >= MANTISSA_LIMIT
        invariant
            unit >= 1,
            spacing(n as nat) == unit * spacing((n / unit) as nat),
        decreases n / unit,
    {
        proof {
            lemma_div_denominator(n as int, unit as int, 2);
            lemma_fundamental_div_mod(n as int, unit as int);
            let steps = n as int / unit as int;
            assert(unit * 2 <= n) by (nonlinear_arith)
                requires
                    n == unit as int * steps + n as int % unit as int,
                    n as int % unit as int >= 0,
                    steps >= 2,
                    unit >= 1,
            ;
            let next = spacing((n / unit) as nat / 2);
            assert(unit * (2 * next) == (unit * 2) * next) by (nonlinear_arith);
        }
        unit = unit * 2;
    }
    proof {
        assert(unit * 1 == unit);
        assert(spacing(n as nat) == unit);
        lemma_split(n as nat);
        lemma_spacing_bounds(n as nat);
    }
    let below = n / unit;
    let rest = n % unit;
    if rest < unit - rest || (rest == unit - rest && below % 2 == 0) {
        below * unit
    } else {
        (below + 1) * unit
    }
}

} // verus!
