use vstd::prelude::*;
use vstd::arithmetic::div_mod::{lemma_fundamental_div_mod, lemma_mod_bound};

verus! {

/// The fixed-point value that stands for 1.0 in a cosine or a sine.
pub const TRIG_ONE: i64 = 65536;

/// How far the squares of a cosine and a sine may add up from the square of
/// `TRIG_ONE`: what rounding each of them to a whole number can cost.
pub const UNIT_SLACK: i64 = 196608;

/// Largest magnitude of a length that `scale` takes.
pub const SPAN_MAX: i64 = 0x100_0000_0000;

/// The magnitude of an integer.
pub open spec fn magnitude(v: int) -> int {
    if v < 0 { -v } else { v }
}

/// `n * num / den`, rounded down, for a non-zero `den` of either sign.
pub open spec fn scale_spec(n: int, num: int, den: int) -> int {
    if den > 0 {
        (n * num) / den
    } else {
        (-(n * num)) / (-den)
    }
}

/// A quotient by a positive divisor is no larger in magnitude than the
/// dividend, and is negative exactly when the dividend is.
pub proof fn lemma_floor_div_bound(a: int, d: int, m: int)
    requires
        d > 0,
        -m <= a <= m,
    ensures
        -m <= a / d <= m,
        a < 0 ==> a / d < 0,
        a >= 0 ==> a / d >= 0,
{
    lemma_fundamental_div_mod(a, d);
    lemma_mod_bound(a, d);
    let q = a / d;
    let r = a % d;
    assert(-m <= q <= m && (a < 0 ==> q < 0) && (a >= 0 ==> q >= 0)) by (nonlinear_arith)
        requires
            a == d * q + r,
            0 <= r < d,
            d > 0,
            -m <= a <= m,
    ;
}

/// A dividend within `m` times a positive divisor has a quotient within `m`.
pub proof fn lemma_quotient_bound(a: int, d: int, m: int)
    requires
        d > 0,
        -(m * d) <= a <= m * d,
    ensures
        -m <= a / d <= m,
{
    lemma_fundamental_div_mod(a, d);
    lemma_mod_bound(a, d);
    let q = a / d;
    let r = a % d;
    assert(-m <= q <= m) by (nonlinear_arith)
        requires
            a == d * q + r,
            0 <= r < d,
            d > 0,
            -(m * d) <= a <= m * d,
    ;
}

/// A product is bounded by the product of the bounds of its factors.
pub proof fn lemma_product_bound(a: int, b: int, ma: int, mb: int)
    requires
        -ma <= a <= ma,
        -mb <= b <= mb,
    ensures
        -(ma * mb) <= a * b <= ma * mb,
{
    assert(-(ma * mb) <= a * b <= ma * mb) by (nonlinear_arith)
        requires
            -ma <= a <= ma,
            -mb <= b <= mb,
    ;
}

/// Division rounded down, by a positive divisor.
pub fn floor_div(n: i128, d: i128) -> (q: i128)
    requires
        d > 0,
    ensures
        q == n / d,
{
    proof {
        if n >= 0 {
            lemma_floor_div_bound(n as int, d as int, n as int);
        } else {
            lemma_floor_div_bound(n as int, d as int, -(n as int));
        }
    }
    n.checked_div_euclid(d).unwrap()
}

/// `n * num / den` rounded down, where `num` and `den` are fixed-point
/// values of magnitude at most `TRIG_ONE`.
pub fn scale(n: i64, num: i64, den: i64) -> (r: i64)
    requires
        den != 0,
        -TRIG_ONE <= num <= TRIG_ONE,
        -TRIG_ONE <= den <= TRIG_ONE,
        -SPAN_MAX <= n <= SPAN_MAX,
    ensures
        r == scale_spec(n as int, num as int, den as int),
        -(magnitude(n as int) * 65536) <= r <= magnitude(n as int) * 65536,
{
    let ghost m = magnitude(n as int) * 65536;
    proof {
        lemma_product_bound(n as int, num as int, magnitude(n as int), 65536);
        assert(m <= 0x100_0000_0000 * 65536) by (nonlinear_arith)
            requires
                m == magnitude(n as int) * 65536,
                magnitude(n as int) <= 0x100_0000_0000,
        ;
    }
    let p: i128 = (n as i128) * (num as i128);
    if den > 0 {
        proof {
            lemma_floor_div_bound(p as int, den as int, m);
        }
        floor_div(p, den as i128) as i64
    } else {
        proof {
            lemma_floor_div_bound(-(p as int), -(den as int), m);
        }
        floor_div(-p, -(den as i128)) as i64
    }
}

/// The cosine and sine of one angle, in fixed point.
#[derive(Clone, Copy, Debug, PartialEq, Eq, Structural)]
pub struct Trig {
    pub cos: i64,
    pub sin: i64,
}

/// Whether `(a, b)` is a unit vector in fixed point, up to rounding: both
/// components lie between minus one and one, and their squares add up to
/// the square of `TRIG_ONE` within `UNIT_SLACK`.
pub open spec fn near_unit(a: int, b: int) -> bool {
    &&& -TRIG_ONE <= a <= TRIG_ONE
    &&& -TRIG_ONE <= b <= TRIG_ONE
    &&& -UNIT_SLACK <= a * a + b * b - TRIG_ONE * TRIG_ONE <= UNIT_SLACK
}

/// Turning a component round keeps a unit vector one.
pub proof fn lemma_near_unit_mirrored(a: int, b: int)
    requires
        near_unit(a, b),
    ensures
        near_unit(a, -b),
        near_unit(-a, b),
{
    assert((-a) * (-a) == a * a) by (nonlinear_arith);
    assert((-b) * (-b) == b * b) by (nonlinear_arith);
}

/// Whether `(a, b)` is a unit vector in fixed point, up to rounding.
pub fn is_near_unit(a: i64, b: i64) -> (r: bool)
    ensures
        r == near_unit(a as int, b as int),
{
    if a < -TRIG_ONE || a > TRIG_ONE || b < -TRIG_ONE || b > TRIG_ONE {
        return false;
    }
    proof {
        lemma_product_bound(a as int, a as int, 65536, 65536);
        lemma_product_bound(b as int, b as int, 65536, 65536);
    }
    let off: i64 = a * a + b * b - TRIG_ONE * TRIG_ONE;
    -UNIT_SLACK <= off && off <= UNIT_SLACK
}

impl Trig {
    /// The pair is a unit vector, up to rounding.
    pub open spec fn wf(&self) -> bool {
        near_unit(self.cos as int, self.sin as int)
    }

    /// Accepts a cosine and a sine exactly when they make a unit vector, up
    /// to rounding.
    pub fn new(cos: i64, sin: i64) -> (r: Option<Trig>)
        ensures
            r.is_some() == (Trig { cos, sin }).wf(),
            r.is_some() ==> r.unwrap() == (Trig { cos, sin }),
    {
        if is_near_unit(cos, sin) {
            Some(Trig { cos, sin })
        } else {
            None
        }
    }
}

} // verus!
