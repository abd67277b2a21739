//! Single precision on whole numbers: which value with a mantissa of 24 bits is nearest
//! to a ratio. A value is written as a numerator over a denominator.
use vstd::prelude::*;

verus! {

/// Least mantissa of a value in single precision.
pub const MANTISSA_LOW: u128 = 8_388_608;

/// Bound above every mantissa of a value in single precision. Whole numbers below it
/// are exact.
pub const MANTISSA_HIGH: u128 = 16_777_216;

/// A ratio rounded to the nearest whole number; a tie goes to the even one.
pub open spec fn half_even(a: nat, b: nat) -> nat {
    let q = a / b;
    let r = a % b;
    if 2 * r < b || (2 * r == b && q % 2 == 0) {
        q
    } else {
        q + 1
    }
}

/// Doubles a numerator, and a factor with it, until the ratio reaches the least
/// mantissa.
pub open spec fn doubled_up(num: nat, den: nat, factor: nat) -> (nat, nat)
    decreases
            (if num < MANTISSA_LOW * den {
                MANTISSA_LOW * den - num
            } else {
                0
            }),
{
    if num == 0 || num >= MANTISSA_LOW * den {
        (num, factor)
    } else {
        doubled_up(2 * num, den, 2 * factor)
    }
}

/// Doubles a denominator, and a factor with it, until the ratio is a mantissa.
pub open spec fn doubled_down(num: nat, den: nat, factor: nat) -> (nat, nat)
    decreases
            (if num >= MANTISSA_HIGH * den {
                num - den
            } else {
                0
            }),
{
    if den == 0 || num < MANTISSA_HIGH * den {
        (den, factor)
    } else {
        doubled_down(num, 2 * den, 2 * factor)
    }
}

/// A ratio in single precision: the nearest value with a mantissa of 24 bits; a tie
/// goes to the even mantissa.
pub open spec fn single(num: nat, den: nat) -> (nat, nat) {
    if num == 0 {
        (0, 1)
    } else if num < MANTISSA_LOW * den {
        let (a, factor) = doubled_up(num, den, 1);
        (half_even(a, den), factor)
    } else {
        let (b, factor) = doubled_down(num, den, 1);
        (half_even(num, b) * factor, 1)
    }
}

/// A whole number in single precision.
pub open spec fn whole(n: nat) -> nat {
    if n < MANTISSA_HIGH {
        n
    } else {
        single(n, 1).0
    }
}

proof fn half_even_error(a: nat, b: nat)
    requires
        b > 0,
    ensures
        2 * (half_even(a, b) * b) <= 2 * a + b,
        2 * (half_even(a, b) * b) + b >= 2 * a,
{
    let q = a / b;
    let r = a % b;
    vstd::arithmetic::div_mod::lemma_fundamental_div_mod(a as int, b as int);
    assert(a == b * q + r);
    assert(q * b == b * q) by (nonlinear_arith);
    assert((q + 1) * b == b * q + b) by (nonlinear_arith);
}

proof fn doubled_up_bounds(num: nat, den: nat, factor: nat)
    requires
        0 < num < MANTISSA_HIGH * den,
        den > 0,
        factor > 0,
    ensures
        ({
            let (a, f) = doubled_up(num, den, factor);
            &&& a * factor == num * f
            &&& MANTISSA_LOW * den <= a < MANTISSA_HIGH * den
            &&& f >= factor
        }),
    decreases
            (if num < MANTISSA_LOW * den {
                MANTISSA_LOW * den - num
            } else {
                0
            }),
{
    if num < MANTISSA_LOW * den {
        doubled_up_bounds(2 * num, den, 2 * factor);
        let (a, f) = doubled_up(2 * num, den, 2 * factor);
        assert(a * (2 * factor) == (2 * num) * f);
        assert(a * factor == num * f) by (nonlinear_arith)
            requires
                a * (2 * factor) == (2 * num) * f,
        ;
    }
}

proof fn doubled_down_bounds(num: nat, den: nat, factor: nat)
    requires
        num >= MANTISSA_LOW * den,
        den > 0,
        factor > 0,
    ensures
        ({
            let (b, f) = doubled_down(num, den, factor);
            &&& b * factor == den * f
            &&& MANTISSA_LOW * b <= num < MANTISSA_HIGH * b
            &&& f >= factor
            &&& b > 0
        }),
    decreases
            (if num >= MANTISSA_HIGH * den {
                num - den
            } else {
                0
            }),
{
    if num >= MANTISSA_HIGH * den {
        doubled_down_bounds(num, 2 * den, 2 * factor);
        let (b, f) = doubled_down(num, 2 * den, 2 * factor);
        assert(b * factor == den * f) by (nonlinear_arith)
            requires
                b * (2 * factor) == (2 * den) * f,
        ;
    }
}

/// Single precision is off by at most one part in two to the power of 24.
pub proof fn single_is_near(num: nat, den: nat)
    requires
        den > 0,
    ensures
        ({
            let (n, d) = single(num, den);
            &&& d > 0
            &&& MANTISSA_HIGH * (n * den) <= (MANTISSA_HIGH + 1) * (num * d)
            &&& MANTISSA_HIGH * (n * den) >= (MANTISSA_HIGH - 1) * (num * d)
        }),
{
    let (n, d) = single(num, den);
    if num == 0 {
    } else if num < MANTISSA_LOW * den {
        doubled_up_bounds(num, den, 1);
        let (a, f) = doubled_up(num, den, 1);
        half_even_error(a, den);
        assert(num * d == a);
    } else {
        doubled_down_bounds(num, den, 1);
        let (b, f) = doubled_down(num, den, 1);
        half_even_error(num, b);
        let m = half_even(num, b);
        assert(n * den == m * b) by (nonlinear_arith)
            requires
                n == m * f,
                b == den * f,
        ;
    }
}

/// Rounds a ratio to the nearest whole number; a tie goes to the even one.
fn round_half_even(a: u128, b: u128) -> (r: u128)
    requires
        b > 0,
        a < 0x1_0000_0000_0000_0000_0000_0000,
        b < 0x1_0000_0000_0000_0000_0000_0000,
    ensures
        r == half_even(a as nat, b as nat),
{
    let q: u128 = a / b;
    let rest: u128 = a % b;
    proof {
        vstd::arithmetic::div_mod::lemma_div_is_ordered_by_denominator(a as int, 1, b as int);
    }
    if 2 * rest < b || (2 * rest == b && q % 2 == 0) {
        q
    } else {
        q + 1
    }
}

/// A ratio in single precision.
pub fn to_single(num: u64, den: u64) -> (r: (u128, u128))
    requires
        den > 0,
    ensures
        (r.0 as nat, r.1 as nat) == single(num as nat, den as nat),
        r.1 > 0,
        num < MANTISSA_LOW * den ==> r.0 <= MANTISSA_HIGH && r.1 <= MANTISSA_HIGH * den,
        num >= MANTISSA_LOW * den ==> r.1 == 1 && r.0 <= MANTISSA_HIGH * num,
{
    if num == 0 {
        return (0, 1);
    }
    let target: u128 = MANTISSA_LOW * (den as u128);
    if (num as u128) < target {
        let mut a: u128 = num as u128;
        let mut factor: u128 = 1;
        while a < target
            invariant
                0 < a < 2 * target,
                0 < factor <= a,
                den > 0,
                target == MANTISSA_LOW * den,
                doubled_up(num as nat, den as nat, 1) == doubled_up(
                    a as nat,
                    den as nat,
                    factor as nat,
                ),
            decreases 2 * target - a,
        {
            a = 2 * a;
            factor = 2 * factor;
        }
        proof {
            half_even_error(a as nat, den as nat);
            let m = half_even(a as nat, den as nat);
            assert(m <= MANTISSA_HIGH) by (nonlinear_arith)
                requires
                    2 * (m * den) <= 2 * a + den,
                    a < MANTISSA_HIGH * den,
                    den > 0,
                    m >= 0,
            ;
        }
        (round_half_even(a, den as u128), factor)
    } else {
        let mut b: u128 = den as u128;
        let mut factor: u128 = 1;
        while (num as u128) >= MANTISSA_HIGH * b
            invariant
                0 < b <= num,
                0 < factor <= b,
                den > 0,
                MANTISSA_LOW * b <= num,
                doubled_down(num as nat, den as nat, 1) == doubled_down(
                    num as nat,
                    b as nat,
                    factor as nat,
                ),
            decreases num - b,
        {
            b = 2 * b;
            factor = 2 * factor;
        }
        let m: u128 = round_half_even(num as u128, b);
        proof {
            half_even_error(num as nat, b as nat);
            assert(m <= MANTISSA_HIGH) by (nonlinear_arith)
                requires
                    2 * (m * b) <= 2 * num + b,
                    num < MANTISSA_HIGH * b,
                    b > 0,
                    m >= 0,
            ;
            assert(m * factor <= MANTISSA_HIGH * num) by (nonlinear_arith)
                requires
                    0 <= m <= MANTISSA_HIGH,
                    0 < factor <= num,
            ;
        }
        (m * factor, 1)
    }
}

/// A whole number in single precision.
pub fn to_whole(n: u32) -> (r: u64)
    ensures
        r == whole(n as nat),
        n > 0 ==> r > 0,
        r < 0x2_0000_0000,
{
    if (n as u128) < MANTISSA_HIGH {
        return n as u64;
    }
    let s = to_single(n as u64, 1);
    proof {
        let (w, d) = single(n as nat, 1);
        single_is_near(n as nat, 1);
        assert(d == 1);
        assert(w * 1 == w && (n as nat) * 1 == n);
        assert(MANTISSA_HIGH * w <= (MANTISSA_HIGH + 1) * n);
        assert(MANTISSA_HIGH * w >= (MANTISSA_HIGH - 1) * n);
    }
    s.0 as u64
}

/// Rounding takes the nearest whole number, and the even one of two that are equally
/// near.
pub proof fn rounding_takes_the_nearest(a: nat, b: nat, n: nat)
    requires
        b > 0,
    ensures
        ({
            let own = half_even(a, b) * b - a;
            let other = n * b - a;
            &&& -b <= 2 * own <= b
            &&& (2 * own == b || 2 * own == -b) ==> half_even(a, b) % 2 == 0
            &&& (if own < 0 {
                -own
            } else {
                own
            }) <= (if other < 0 {
                -other
            } else {
                other
            })
        }),
{
    half_even_error(a, b);
    let q = (a / b) as int;
    let r = (a % b) as int;
    let h = half_even(a, b) as int;
    assert(a as int == q * b + r) by (nonlinear_arith)
        requires
            b > 0,
            q == a as int / b as int,
            r == a as int % b as int,
    ;
    assert((q + 1) * b == q * b + b) by (nonlinear_arith);
    let own = h * b - a;
    let other = n * b - a;
    assert(n > h ==> other >= own + b) by (nonlinear_arith)
        requires
            own == h * b - a,
            other == n * b - a,
            b > 0,
    ;
    assert(n < h ==> other <= own - b) by (nonlinear_arith)
        requires
            own == h * b - a,
            other == n * b - a,
            b > 0,
    ;
}

/// A ratio below the least mantissa keeps a mantissa that single precision holds.
pub proof fn small_ratios_have_a_mantissa(num: nat, den: nat)
    requires
        den > 0,
        0 < num < MANTISSA_LOW * den,
    ensures
        MANTISSA_LOW <= single(num, den).0 <= MANTISSA_HIGH,
{
    doubled_up_bounds(num, den, 1);
    let (a, factor) = doubled_up(num, den, 1);
    half_even_error(a, den);
    let h = half_even(a, den) as int;
    assert(MANTISSA_LOW <= h <= MANTISSA_HIGH) by (nonlinear_arith)
        requires
            MANTISSA_LOW * den <= a < MANTISSA_HIGH * den,
            2 * (h * den) <= 2 * a + den,
            2 * (h * den) + den >= 2 * a,
            den > 0,
    ;
}

} // verus!
