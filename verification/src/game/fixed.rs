use vstd::prelude::*;

verus! {

/// One model unit, in the thousandths that every length is counted in.
pub const UNIT: i32 = 1000;

/// Whether a number can be a coordinate.
pub open spec fn is_coordinate(v: int) -> bool {
    i32::MIN <= v <= i32::MAX
}

/// The value at `num / den` of the way from `a` to `b`. The way is not cut
/// off at its ends: a fraction below zero or above one gives a value beyond
/// them. Where the exact value is no whole number, the quotient is the
/// Euclidean one: rounded down for a positive `den`, up for a negative one.
pub open spec fn lerp(a: int, b: int, num: int, den: int) -> int {
    a + ((b - a) * num) / den
}

/// A quotient and a remainder that fit a division are the Euclidean ones.
pub proof fn lemma_euclid_unique(n: int, d: int, q: int, r: int)
    by (nonlinear_arith)
    requires
        d != 0,
        n == d * q + r,
        0 <= r,
        r < d || r < -d,
    ensures
        q == n / d,
        r == n % d,
{
}

/// At its start a way is at `a`, at its end at `b`, whatever the fraction is
/// a fraction of.
pub proof fn lemma_lerp_ends(a: int, b: int, den: int)
    requires
        den != 0,
    ensures
        lerp(a, b, 0, den) == a,
        lerp(a, b, den, den) == b,
{
    lemma_euclid_unique((b - a) * 0, den, 0, 0);
    assert((b - a) * den == den * (b - a)) by (nonlinear_arith);
    lemma_euclid_unique((b - a) * den, den, b - a, 0);
}

/// Between its ends a way stays between `a` and `b`.
pub proof fn lemma_lerp_between(a: int, b: int, num: int, den: int)
    requires
        0 <= num <= den || den <= num <= 0,
        den != 0,
    ensures
        a <= lerp(a, b, num, den) <= b || b <= lerp(a, b, num, den) <= a,
{
    let n = (b - a) * num;
    let q = n / den;
    let r = n % den;
    assert(n == den * q + r && 0 <= r && (r < den || r < -den)) by (nonlinear_arith)
        requires
            den != 0,
            q == n / den,
            r == n % den,
    ;
    assert((0 <= q <= b - a) || (b - a <= q <= 0)) by (nonlinear_arith)
        requires
            n == (b - a) * num,
            n == den * q + r,
            0 <= r,
            r < den || r < -den,
            0 <= num <= den || den <= num <= 0,
            den != 0,
    ;
}

/// The Euclidean quotient of `n` by `d`.
pub(crate) fn div_euclid(n: i128, d: i128) -> (q: i128)
    requires
        d != 0,
        -0x1_0000_0000_0000_0000_0000_0000 <= n <= 0x1_0000_0000_0000_0000_0000_0000,
        -0x1_0000_0000_0000_0000 <= d <= 0x1_0000_0000_0000_0000,
    ensures
        q == n / d,
        n >= 0 ==> -n <= q <= n,
        n < 0 ==> n <= q <= -n,
{
    let n_abs: u128 = if n < 0 { (-n) as u128 } else { n as u128 };
    let d_abs: u128 = if d < 0 { (-d) as u128 } else { d as u128 };
    let q_abs: u128 = n_abs / d_abs;
    let r_abs: u128 = n_abs % d_abs;
    assert(n_abs == d_abs * q_abs + r_abs && r_abs < d_abs && q_abs <= n_abs && (r_abs > 0
        ==> q_abs < n_abs)) by (nonlinear_arith)
        requires
            d_abs > 0,
            q_abs == n_abs / d_abs,
            r_abs == n_abs % d_abs,
    ;
    let q: i128 = if n >= 0 {
        if d > 0 {
            q_abs as i128
        } else {
            -(q_abs as i128)
        }
    } else if r_abs == 0 {
        if d > 0 {
            -(q_abs as i128)
        } else {
            q_abs as i128
        }
    } else if d > 0 {
        -(q_abs as i128) - 1
    } else {
        q_abs as i128 + 1
    };
    proof {
        let r: int = if n >= 0 || r_abs == 0 {
            r_abs as int
        } else {
            d_abs - r_abs
        };
        assert(n == d * q + r) by (nonlinear_arith)
            requires
                n_abs == d_abs * q_abs + r_abs,
                n_abs == if n < 0 { -n } else { n as int },
                d_abs == if d < 0 { -d } else { d as int },
                q == if n >= 0 {
                    if d > 0 { q_abs as int } else { -q_abs }
                } else if r_abs == 0 {
                    if d > 0 { -q_abs } else { q_abs as int }
                } else if d > 0 {
                    -q_abs - 1
                } else {
                    q_abs + 1
                },
                r == if n >= 0 || r_abs == 0 { r_abs as int } else { d_abs - r_abs },
        ;
        lemma_euclid_unique(n as int, d as int, q as int, r);
    }
    q
}

/// The value at `num / den` of the way from `a` to `b`, however large.
pub(crate) fn lerp_wide(a: i32, b: i32, num: i64, den: i64) -> (v: i128)
    requires
        den != 0,
    ensures
        v == lerp(a as int, b as int, num as int, den as int),
        -0x2_0000_0000_0000_0000_0000_0000 <= v <= 0x2_0000_0000_0000_0000_0000_0000,
{
    let diff: i128 = b as i128 - a as i128;
    assert(-0x1_0000_0000_0000_0000_0000_0000 <= diff * num <= 0x1_0000_0000_0000_0000_0000_0000)
        by (nonlinear_arith)
        requires
            -0x1_0000_0000 <= diff <= 0x1_0000_0000,
            -0x8000_0000_0000_0000 <= num <= 0x8000_0000_0000_0000,
    ;
    let q: i128 = div_euclid(diff * (num as i128), den as i128);
    a as i128 + q
}

/// The value at `num / den` of the way from `a` to `b`; `None` where `den`
/// is zero or the value is no coordinate.
pub fn lerp_coordinate(a: i32, b: i32, num: i64, den: i64) -> (r: Option<i32>)
    ensures
        r is Some <==> den != 0 && is_coordinate(lerp(a as int, b as int, num as int, den as int)),
        r matches Some(v) ==> v == lerp(a as int, b as int, num as int, den as int),
{
    if den == 0 {
        return None;
    }
    let v: i128 = lerp_wide(a, b, num, den);
    if v < i32::MIN as i128 || v > i32::MAX as i128 {
        None
    } else {
        Some(v as i32)
    }
}

/// The product of a coordinate and a factor, both in thousandths.
pub open spec fn scaled(value: int, factor: int) -> int {
    (value * factor) / (UNIT as int)
}

/// The quotient of a coordinate by a divisor, both in thousandths.
pub open spec fn ratio(value: int, divisor: int) -> int {
    (value * UNIT) / divisor
}

/// The product of a coordinate and a factor, if it is a coordinate.
pub fn scale_coordinate(value: i32, factor: i32) -> (r: Option<i32>)
    ensures
        r is Some <==> is_coordinate(scaled(value as int, factor as int)),
        r matches Some(v) ==> v == scaled(value as int, factor as int),
{
    assert(-0x4000_0000_0000_0000 <= value * factor <= 0x4000_0000_0000_0000) by (nonlinear_arith)
        requires
            -0x8000_0000 <= value <= 0x8000_0000,
            -0x8000_0000 <= factor <= 0x8000_0000,
    ;
    let q: i128 = div_euclid(value as i128 * factor as i128, UNIT as i128);
    if q < i32::MIN as i128 || q > i32::MAX as i128 {
        None
    } else {
        Some(q as i32)
    }
}

/// The quotient of a coordinate by a divisor; `None` where the divisor is
/// zero or the quotient is no coordinate.
pub fn divide_coordinate(value: i32, divisor: i32) -> (r: Option<i32>)
    ensures
        r is Some <==> divisor != 0 && is_coordinate(ratio(value as int, divisor as int)),
        r matches Some(v) ==> v == ratio(value as int, divisor as int),
{
    if divisor == 0 {
        return None;
    }
    let q: i128 = div_euclid(value as i128 * 1000, divisor as i128);
    if q < i32::MIN as i128 || q > i32::MAX as i128 {
        None
    } else {
        Some(q as i32)
    }
}

} // verus!
