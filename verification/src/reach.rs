use vstd::prelude::*;
use vstd::arithmetic::div_mod::{
    lemma_div_multiples_vanish, lemma_fundamental_div_mod, lemma_fundamental_div_mod_converse,
    lemma_mod_bound,
};
use crate::fixed::Trig;
use crate::grid::GridMap;
use crate::march::{lemma_first_solid_found, solid_after};
use crate::raycast::{
    axis_start, axis_stride, cast_spec, horizontal_probe, horizontal_spec,
    lemma_search_within_bound, vertical_probe, vertical_spec, Axis, RayConfig,
};

verus! {

/// From a coordinate inside a map of `n` cells, the grid lines crossed along
/// one axis leave the map within `n` strides: some stride count below `n`
/// leads to a cell index outside `0..n`.
pub proof fn lemma_axis_leaves(p: int, cell: int, n: int, backward: bool) -> (k: int)
    requires
        cell >= 1,
        n >= 1,
        0 <= p < n * cell,
    ensures
        0 <= k < n,
        ({
            let at = axis_start(p, cell, backward) + k * axis_stride(cell, backward);
            at / cell < 0 || at / cell >= n
        }),
{
    lemma_fundamental_div_mod(p, cell);
    lemma_mod_bound(p, cell);
    let col = p / cell;
    let r = p % cell;
    assert(0 <= col < n) by (nonlinear_arith)
        requires
            p == cell * col + r,
            0 <= r < cell,
            0 <= p < n * cell,
            cell >= 1,
    ;
    if backward {
        let k = col;
        let at = axis_start(p, cell, backward) + k * axis_stride(cell, backward);
        assert(at == -1) by (nonlinear_arith)
            requires
                at == col * cell - 1 + k * (-cell),
                k == col,
        ;
        lemma_fundamental_div_mod_converse(-1, cell, -1, cell - 1);
        k
    } else {
        let k = n - 1 - col;
        let at = axis_start(p, cell, backward) + k * axis_stride(cell, backward);
        assert(at == cell * n) by (nonlinear_arith)
            requires
                at == col * cell + cell + k * cell,
                k == n - 1 - col,
        ;
        lemma_div_multiples_vanish(n, cell);
        k
    }
}

/// A ray that starts inside the map and is not within the tolerance of
/// either axis finds a wall in both searches, given a step bound of at least
/// the larger dimension of the map; the ray's hit is the nearer of the two.
pub proof fn lemma_ray_from_inside_hits(map: GridMap, px: int, py: int, t: Trig, cfg: RayConfig)
    requires
        map.wf(),
        0 <= px < map.width * map.cell,
        0 <= py < map.height * map.cell,
        !(-cfg.eps <= t.cos <= cfg.eps),
        !(-cfg.eps <= t.sin <= cfg.eps),
        cfg.max_steps >= map.width,
        cfg.max_steps >= map.height,
    ensures
        vertical_spec(map, px, py, t, cfg).is_some(),
        horizontal_spec(map, px, py, t, cfg).is_some(),
        cast_spec(map, px, py, t, cfg).is_some(),
        ({
            let v = vertical_spec(map, px, py, t, cfg).unwrap().dist;
            let h = horizontal_spec(map, px, py, t, cfg).unwrap().dist;
            cast_spec(map, px, py, t, cfg).unwrap().dist == if v < h {
                v
            } else {
                h
            }
        }),
{
    let s = map.cell as int;
    let vp = vertical_probe(map, px, py, t, cfg.eps as int).unwrap();
    let kv = lemma_axis_leaves(px, s, map.width as int, t.cos < 0);
    assert(solid_after(map, vp.x0, vp.y0, vp.xo, vp.yo, kv));
    lemma_first_solid_found(map, vp.x0, vp.y0, vp.xo, vp.yo, 0, cfg.max_steps as int, kv);
    let hp = horizontal_probe(map, px, py, t, cfg.eps as int).unwrap();
    let kh = lemma_axis_leaves(py, s, map.height as int, t.sin > 0);
    assert(solid_after(map, hp.x0, hp.y0, hp.xo, hp.yo, kh));
    lemma_first_solid_found(map, hp.x0, hp.y0, hp.xo, hp.yo, 0, cfg.max_steps as int, kh);
}

/// Whether every cell of `map` that does not lie on its border is open.
pub open spec fn is_hall(map: GridMap) -> bool {
    forall|col: int, row: int|
        0 < col < map.width - 1 && 0 < row < map.height - 1 ==> !#[trigger] map.solid(col, row)
}

/// In a map whose only walls are its border, what a ray hits lies in a
/// border cell or outside the map: the ray stops at a bounding wall.
pub proof fn lemma_hall_hit_on_border(map: GridMap, px: int, py: int, t: Trig, cfg: RayConfig)
    requires
        is_hall(map),
        cast_spec(map, px, py, t, cfg).is_some(),
    ensures
        ({
            let h = cast_spec(map, px, py, t, cfg).unwrap();
            let at = map.cell_at(h.x, h.y);
            !(0 < at.0 < map.width - 1 && 0 < at.1 < map.height - 1)
        }),
{
    let v = vertical_spec(map, px, py, t, cfg);
    let h = cast_spec(map, px, py, t, cfg).unwrap();
    if v.is_some() && h == v.unwrap() {
        let p = vertical_probe(map, px, py, t, cfg.eps as int).unwrap();
        lemma_search_within_bound(map, px, py, t, p, cfg.max_steps as int, Axis::Vertical);
        assert(map.solid_point(h.x, h.y));
    } else {
        let p = horizontal_probe(map, px, py, t, cfg.eps as int).unwrap();
        lemma_search_within_bound(map, px, py, t, p, cfg.max_steps as int, Axis::Horizontal);
        assert(map.solid_point(h.x, h.y));
    }
}

} // verus!
