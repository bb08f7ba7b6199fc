use vstd::prelude::*;
use vstd::arithmetic::div_mod::{lemma_fundamental_div_mod, lemma_mod_bound, lemma_fundamental_div_mod_converse};

verus! {

/// A full turn, in thousandths of a degree.
pub const FULL_TURN: i64 = 360_000;

/// The angle in `0..FULL_TURN` that points the same way as `a`.
pub open spec fn normalized(a: int) -> int {
    a % (FULL_TURN as int)
}

/// Whether `a` lies in `0..FULL_TURN`.
pub open spec fn is_normal(a: int) -> bool {
    0 <= a < FULL_TURN
}

/// Brings an angle of any size into `0..FULL_TURN`.
pub fn normalize_wide(a: i128) -> (r: i64)
    ensures
        r == normalized(a as int),
        is_normal(r as int),
{
    proof {
        lemma_mod_bound(a as int, FULL_TURN as int);
    }
    a.checked_rem_euclid(FULL_TURN as i128).unwrap() as i64
}

/// Brings an angle into `0..FULL_TURN`.
pub fn normalize(a: i64) -> (r: i64)
    ensures
        r == normalized(a as int),
        is_normal(r as int),
{
    normalize_wide(a as i128)
}

/// Every normalized angle lies in `0..FULL_TURN`.
pub proof fn lemma_normalized_in_range(a: int)
    ensures
        is_normal(normalized(a)),
{
    lemma_mod_bound(a, FULL_TURN as int);
}

/// An angle that already lies in `0..FULL_TURN` is left as it is.
pub proof fn lemma_normalized_fixed(a: int)
    requires
        is_normal(a),
    ensures
        normalized(a) == a,
{
    lemma_fundamental_div_mod_converse(a, FULL_TURN as int, 0, a);
}

/// Adding whole turns does not change where an angle points.
pub proof fn lemma_normalized_shift(a: int, turns: int)
    ensures
        normalized(a + turns * FULL_TURN) == normalized(a),
{
    let m = FULL_TURN as int;
    lemma_fundamental_div_mod(a, m);
    lemma_mod_bound(a, m);
    let q = a / m;
    let r = a % m;
    assert(a + turns * m == (q + turns) * m + r) by (nonlinear_arith)
        requires
            a == m * q + r,
    ;
    lemma_fundamental_div_mod_converse(a + turns * m, m, q + turns, r);
}

/// Turning one way by `delta` and then back by `delta`, normalizing after
/// each turn, ends at the normalized starting angle.
pub proof fn lemma_turn_round_trip(a: int, delta: int)
    ensures
        normalized(normalized(a + delta) - delta) == normalized(a),
        normalized(normalized(a - delta) + delta) == normalized(a),
{
    let m = FULL_TURN as int;
    lemma_fundamental_div_mod(a + delta, m);
    lemma_fundamental_div_mod(a - delta, m);
    let q1 = (a + delta) / m;
    let q2 = (a - delta) / m;
    assert(normalized(a + delta) - delta == a + (-q1) * m) by (nonlinear_arith)
        requires
            a + delta == m * q1 + normalized(a + delta),
    ;
    assert(normalized(a - delta) + delta == a + (-q2) * m) by (nonlinear_arith)
        requires
            a - delta == m * q2 + normalized(a - delta),
    ;
    lemma_normalized_shift(a, -q1);
    lemma_normalized_shift(a, -q2);
}

} // verus!
