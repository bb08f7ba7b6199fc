use vstd::prelude::*;
use crate::fixed::lemma_product_bound;
use crate::grid::GridMap;

verus! {

/// Largest magnitude of a coordinate at which a march may start.
pub const ORIGIN_MAX: i64 = 0x100_0000_0000;

/// Largest magnitude of one component of a stride.
pub const STRIDE_MAX: i64 = 0x100_0000_0000;

/// Largest number of steps of one march.
pub const STEPS_MAX: usize = 1024;

/// Largest magnitude of a coordinate that a march can reach.
pub const REACH_MAX: i64 = 0x8_0000_0000_0000;

/// Where a march stopped: after `steps` strides, at `(x, y)`.
#[derive(Clone, Copy, Debug, PartialEq, Eq, Structural)]
pub struct MarchHit {
    pub steps: usize,
    pub x: i64,
    pub y: i64,
}

/// Whether the point reached after `k` strides lies in a solid cell.
pub open spec fn solid_after(map: GridMap, x0: int, y0: int, xo: int, yo: int, k: int) -> bool {
    map.solid_point(x0 + k * xo, y0 + k * yo)
}

/// The first `i` in `k..bound` for which the point `(x0 + i * xo, y0 + i * yo)`
/// lies in a solid cell, if there is one.
pub open spec fn first_solid(
    map: GridMap,
    x0: int,
    y0: int,
    xo: int,
    yo: int,
    k: int,
    bound: int,
) -> Option<int>
    decreases bound - k,
{
    if k >= bound {
        None
    } else if solid_after(map, x0, y0, xo, yo, k) {
        Some(k)
    } else {
        first_solid(map, x0, y0, xo, yo, k + 1, bound)
    }
}

/// What `first_solid` finds is in range and solid, and nothing before it is;
/// where it finds nothing, no point in range is solid.
pub proof fn lemma_first_solid_least(
    map: GridMap,
    x0: int,
    y0: int,
    xo: int,
    yo: int,
    k: int,
    bound: int,
)
    ensures
        match first_solid(map, x0, y0, xo, yo, k, bound) {
            Some(i) => {
                &&& k <= i < bound
                &&& solid_after(map, x0, y0, xo, yo, i)
                &&& forall|j: int| k <= j < i ==> !solid_after(map, x0, y0, xo, yo, j)
            },
            None => forall|j: int| k <= j < bound ==> !solid_after(map, x0, y0, xo, yo, j),
        },
    decreases bound - k,
{
    if k < bound && !solid_after(map, x0, y0, xo, yo, k) {
        lemma_first_solid_least(map, x0, y0, xo, yo, k + 1, bound);
    }
}

/// A solid point in range makes `first_solid` find one no later.
pub proof fn lemma_first_solid_found(
    map: GridMap,
    x0: int,
    y0: int,
    xo: int,
    yo: int,
    k: int,
    bound: int,
    j: int,
)
    requires
        k <= j < bound,
        solid_after(map, x0, y0, xo, yo, j),
    ensures
        first_solid(map, x0, y0, xo, yo, k, bound).is_some(),
        first_solid(map, x0, y0, xo, yo, k, bound).unwrap() <= j,
{
    lemma_first_solid_least(map, x0, y0, xo, yo, k, bound);
}

/// Walks from `(x0, y0)` in strides of `(xo, yo)` and stops at the first
/// point that lies in a solid cell. Gives up after `bound` points.
pub fn march(map: &GridMap, x0: i64, y0: i64, xo: i64, yo: i64, bound: usize) -> (r: Option<MarchHit>)
    requires
        map.wf(),
        -ORIGIN_MAX <= x0 <= ORIGIN_MAX,
        -ORIGIN_MAX <= y0 <= ORIGIN_MAX,
        -STRIDE_MAX <= xo <= STRIDE_MAX,
        -STRIDE_MAX <= yo <= STRIDE_MAX,
        bound <= STEPS_MAX,
    ensures
        match r {
            Some(h) => {
                &&& first_solid(*map, x0 as int, y0 as int, xo as int, yo as int, 0, bound as int)
                    == Some(h.steps as int)
                &&& h.steps < bound
                &&& h.x == x0 + h.steps * xo
                &&& h.y == y0 + h.steps * yo
                &&& -REACH_MAX <= h.x <= REACH_MAX
                &&& -REACH_MAX <= h.y <= REACH_MAX
            },
            None => first_solid(*map, x0 as int, y0 as int, xo as int, yo as int, 0, bound as int).is_none(),
        },
{
    let mut k: usize = 0;
    let mut x: i64 = x0;
    let mut y: i64 = y0;
    while k < bound
        invariant
            map.wf(),
            k <= bound <= STEPS_MAX,
            -ORIGIN_MAX <= x0 <= ORIGIN_MAX,
            -ORIGIN_MAX <= y0 <= ORIGIN_MAX,
            -STRIDE_MAX <= xo <= STRIDE_MAX,
            -STRIDE_MAX <= yo <= STRIDE_MAX,
            x == x0 + k * xo,
            y == y0 + k * yo,
            -REACH_MAX <= x <= REACH_MAX,
            -REACH_MAX <= y <= REACH_MAX,
            first_solid(*map, x0 as int, y0 as int, xo as int, yo as int, 0, bound as int)
                == first_solid(*map, x0 as int, y0 as int, xo as int, yo as int, k as int, bound as int),
        decreases bound - k,
    {
        if map.is_solid_at(x, y) {
            return Some(MarchHit { steps: k, x, y });
        }
        proof {
            lemma_product_bound(k + 1, xo as int, 1024, 0x100_0000_0000);
            lemma_product_bound(k + 1, yo as int, 1024, 0x100_0000_0000);
            assert((k + 1) * xo == k * xo + xo) by (nonlinear_arith);
            assert((k + 1) * yo == k * yo + yo) by (nonlinear_arith);
        }
        x = x + xo;
        y = y + yo;
        k = k + 1;
    }
    None
}

} // verus!
