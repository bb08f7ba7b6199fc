use vstd::prelude::*;
use vstd::arithmetic::div_mod::{
    lemma_div_multiples_vanish, lemma_fundamental_div_mod, lemma_mod_bound,
};
use crate::fixed::{
    lemma_floor_div_bound, lemma_product_bound, magnitude, scale_spec, Trig, TRIG_ONE, UNIT_SLACK,
};
use crate::grid::GridMap;
use crate::raycast::{
    axis_start, axis_stride, cast_spec, distance_spec, horizontal_probe, horizontal_spec, lemma_search_within_bound, vertical_probe,
    vertical_spec, Axis, RayConfig,
};

verus! {

/// The projection before it is scaled down: `TRIG_ONE` times the distance.
pub open spec fn raw_distance(t: Trig, px: int, py: int, hx: int, hy: int) -> int {
    t.cos * (hx - px) - t.sin * (hy - py)
}

/// How far the point `(hx, hy)` lies off the ray from `(px, py)` in
/// direction `t`: zero exactly for the points of the line through the ray.
pub open spec fn off_ray(t: Trig, px: int, py: int, hx: int, hy: int) -> int {
    t.cos * (hy - py) + t.sin * (hx - px)
}

/// The squared Euclidean distance between two points.
pub open spec fn euclid_sq(px: int, py: int, hx: int, hy: int) -> int {
    (hx - px) * (hx - px) + (hy - py) * (hy - py)
}

/// What `scale_spec` loses by rounding down: `den` times the result differs
/// from `a * num` by less than `den`, toward the sign of `den`.
pub proof fn lemma_scale_remainder(a: int, num: int, den: int)
    requires
        den != 0,
    ensures
        den > 0 ==> 0 <= a * num - den * scale_spec(a, num, den) < den,
        den < 0 ==> den < a * num - den * scale_spec(a, num, den) <= 0,
{
    if den > 0 {
        lemma_fundamental_div_mod(a * num, den);
        lemma_mod_bound(a * num, den);
    } else {
        let q = scale_spec(a, num, den);
        lemma_fundamental_div_mod(-(a * num), -den);
        lemma_mod_bound(-(a * num), -den);
        assert((-den) * q == -(den * q)) by (nonlinear_arith);
    }
}

/// The point reached after `k` strides of a probe lies on the ray up to
/// rounding. Along the axis of the search the viewer stands at `ap`, and the
/// probe starts at `a0` and strides by `ao`; across it the probe starts
/// `scale_spec(ap - a0, num, den)` from the viewer and strides by minus
/// `scale_spec(ao, num, den)`. Then `den` times the offset across plus `num`
/// times the offset along, which is zero on the ray, is at most `k + 1`
/// times `den` in magnitude.
pub proof fn lemma_probe_near_ray(ap: int, a0: int, ao: int, num: int, den: int, k: int)
    requires
        den != 0,
        k >= 0,
    ensures
        ({
            let across = scale_spec(ap - a0, num, den) + k * (-scale_spec(ao, num, den));
            let along = a0 + k * ao - ap;
            -((k + 1) * magnitude(den)) <= den * across + num * along <= (k + 1) * magnitude(den)
        }),
{
    let e1 = scale_spec(ap - a0, num, den);
    let e2 = scale_spec(ao, num, den);
    let across = e1 + k * (-e2);
    let along = a0 + k * ao - ap;
    let r1 = (ap - a0) * num - den * e1;
    let r2 = ao * num - den * e2;
    let m = magnitude(den);
    lemma_scale_remainder(ap - a0, num, den);
    lemma_scale_remainder(ao, num, den);
    assert(den * across + num * along == k * r2 - r1) by (nonlinear_arith)
        requires
            across == e1 + k * (-e2),
            along == a0 + k * ao - ap,
            r1 == (ap - a0) * num - den * e1,
            r2 == ao * num - den * e2,
    ;
    assert(-(k * m) <= k * r2 <= k * m) by (nonlinear_arith)
        requires
            k >= 0,
            -m <= r2 <= m,
    ;
    assert((k + 1) * m == k * m + m) by (nonlinear_arith);
}

/// The squared projection of an offset onto a direction and its squared
/// deviation from the ray add up to the squared length of the direction
/// times the squared Euclidean length of the offset.
pub proof fn lemma_projection_identity(t: Trig, px: int, py: int, hx: int, hy: int)
    ensures
        raw_distance(t, px, py, hx, hy) * raw_distance(t, px, py, hx, hy) + off_ray(t, px, py, hx, hy)
            * off_ray(t, px, py, hx, hy) == (t.cos * t.cos + t.sin * t.sin) * euclid_sq(
            px,
            py,
            hx,
            hy,
        ),
{
    let c = t.cos as int;
    let s = t.sin as int;
    let ax = hx - px;
    let ay = hy - py;
    let p = c * ax;
    let q = s * ay;
    let u = c * ay;
    let v = s * ax;
    let raw = p - q;
    let off = u + v;
    let n = c * c + s * s;
    let e = ax * ax + ay * ay;
    assert(p * q == u * v) by (nonlinear_arith)
        requires
            p == c * ax,
            q == s * ay,
            u == c * ay,
            v == s * ax,
    ;
    assert(raw * raw == p * p - 2 * (p * q) + q * q) by (nonlinear_arith)
        requires
            raw == p - q,
    ;
    assert(off * off == u * u + 2 * (u * v) + v * v) by (nonlinear_arith)
        requires
            off == u + v,
    ;
    assert(p * p == (c * c) * (ax * ax)) by (nonlinear_arith)
        requires
            p == c * ax,
    ;
    assert(q * q == (s * s) * (ay * ay)) by (nonlinear_arith)
        requires
            q == s * ay,
    ;
    assert(u * u == (c * c) * (ay * ay)) by (nonlinear_arith)
        requires
            u == c * ay,
    ;
    assert(v * v == (s * s) * (ax * ax)) by (nonlinear_arith)
        requires
            v == s * ax,
    ;
    assert(n * e == (c * c) * (ax * ax) + (c * c) * (ay * ay) + (s * s) * (ax * ax) + (s * s) * (ay
        * ay)) by (nonlinear_arith)
        requires
            n == c * c + s * s,
            e == ax * ax + ay * ay,
    ;
}

/// For a point straight ahead, the distance along the ray is the Euclidean
/// distance: the square of the unscaled projection is the squared length of
/// the direction times the squared Euclidean distance, and so differs from
/// `TRIG_ONE` squared times the squared Euclidean distance by at most
/// `UNIT_SLACK` times it. The distance itself is that projection divided by
/// `TRIG_ONE`.
pub proof fn lemma_straight_ahead_is_euclidean(t: Trig, px: int, py: int, hx: int, hy: int)
    requires
        t.wf(),
        off_ray(t, px, py, hx, hy) == 0,
    ensures
        raw_distance(t, px, py, hx, hy) * raw_distance(t, px, py, hx, hy) == (t.cos * t.cos + t.sin
            * t.sin) * euclid_sq(px, py, hx, hy),
        -(UNIT_SLACK * euclid_sq(px, py, hx, hy)) <= raw_distance(t, px, py, hx, hy) * raw_distance(
            t,
            px,
            py,
            hx,
            hy,
        ) - (TRIG_ONE * TRIG_ONE) * euclid_sq(px, py, hx, hy) <= UNIT_SLACK * euclid_sq(px, py, hx, hy),
        distance_spec(t, px, py, hx, hy) == raw_distance(t, px, py, hx, hy) / (TRIG_ONE as int),
{
    lemma_projection_identity(t, px, py, hx, hy);
    let n = t.cos * t.cos + t.sin * t.sin;
    let e = euclid_sq(px, py, hx, hy);
    assert(e >= 0) by (nonlinear_arith)
        requires
            e == (hx - px) * (hx - px) + (hy - py) * (hy - py),
    ;
    assert(-(196608 * e) <= n * e - 4294967296 * e <= 196608 * e) by (nonlinear_arith)
        requires
            e >= 0,
            -196608 <= n - 4294967296 <= 196608,
    ;
}

/// Where the way from the viewer to a point is exactly `d` times a direction
/// of length exactly one (in this fixed point, one along an axis), the
/// distance measured along that direction is `d`, and it is the Euclidean
/// distance: its square is the sum of the squared offsets.
pub proof fn lemma_distance_on_ray(t: Trig, px: int, py: int, hx: int, hy: int, d: int)
    requires
        t.cos * t.cos + t.sin * t.sin == TRIG_ONE * TRIG_ONE,
        (hx - px) * TRIG_ONE == d * t.cos,
        (hy - py) * TRIG_ONE == -(d * t.sin),
    ensures
        distance_spec(t, px, py, hx, hy) == d,
        d * d == (hx - px) * (hx - px) + (hy - py) * (hy - py),
{
    let c = t.cos as int;
    let s = t.sin as int;
    let ax = hx - px;
    let ay = hy - py;
    let one = TRIG_ONE as int;
    let raw = c * ax - s * ay;
    let u = ax * one;
    let v = ay * one;
    let cc = c * c;
    let ss = s * s;
    assert(one * (c * ax) == c * u) by (nonlinear_arith)
        requires
            u == ax * one,
    ;
    assert(one * (s * ay) == s * v) by (nonlinear_arith)
        requires
            v == ay * one,
    ;
    assert(c * u == d * cc) by (nonlinear_arith)
        requires
            u == d * c,
            cc == c * c,
    ;
    assert(s * v == -(d * ss)) by (nonlinear_arith)
        requires
            v == -(d * s),
            ss == s * s,
    ;
    assert(one * raw == one * (c * ax) - one * (s * ay)) by (nonlinear_arith)
        requires
            raw == c * ax - s * ay,
    ;
    assert(d * (cc + ss) == d * cc + d * ss) by (nonlinear_arith);
    assert(d * (cc + ss) == (d * one) * one) by (nonlinear_arith)
        requires
            cc + ss == one * one,
    ;
    assert(raw == one * d) by (nonlinear_arith)
        requires
            one * raw == (d * one) * one,
            one == 65536,
    ;
    lemma_div_multiples_vanish(d, one);
    let sq = ax * ax + ay * ay;
    let dd = d * d;
    let k = one * one;
    assert(u * u == k * (ax * ax)) by (nonlinear_arith)
        requires
            u == ax * one,
            k == one * one,
    ;
    assert(v * v == k * (ay * ay)) by (nonlinear_arith)
        requires
            v == ay * one,
            k == one * one,
    ;
    assert(u * u == dd * cc) by (nonlinear_arith)
        requires
            u == d * c,
            dd == d * d,
            cc == c * c,
    ;
    assert(v * v == dd * ss) by (nonlinear_arith)
        requires
            v == -(d * s),
            dd == d * d,
            ss == s * s,
    ;
    assert(k * sq == k * (ax * ax) + k * (ay * ay)) by (nonlinear_arith)
        requires
            sq == ax * ax + ay * ay,
    ;
    assert(dd * k == dd * cc + dd * ss) by (nonlinear_arith)
        requires
            cc + ss == k,
    ;
    assert(sq == dd) by (nonlinear_arith)
        requires
            k * sq == dd * k,
            k == 4294967296,
    ;
}

/// What the search over vertical grid lines finds lies on the ray up to
/// rounding: its deviation is at most the step bound times the cosine.
pub proof fn lemma_vertical_hit_near_ray(map: GridMap, px: int, py: int, t: Trig, cfg: RayConfig)
    requires
        cfg.wf(),
        vertical_spec(map, px, py, t, cfg).is_some(),
    ensures
        ({
            let h = vertical_spec(map, px, py, t, cfg).unwrap();
            let off = off_ray(t, px, py, h.x, h.y);
            -(cfg.max_steps * magnitude(t.cos as int)) <= off <= cfg.max_steps * magnitude(t.cos as int)
        }),
{
    let p = vertical_probe(map, px, py, t, cfg.eps as int).unwrap();
    let k = lemma_search_within_bound(map, px, py, t, p, cfg.max_steps as int, Axis::Vertical);
    let m = magnitude(t.cos as int);
    lemma_probe_near_ray(px, p.x0, p.xo, t.sin as int, t.cos as int, k);
    assert((k + 1) * m <= cfg.max_steps * m) by (nonlinear_arith)
        requires
            k + 1 <= cfg.max_steps,
            m >= 0,
    ;
}

/// What the search over horizontal grid lines finds lies on the ray up to
/// rounding: its deviation is at most the step bound times the sine.
pub proof fn lemma_horizontal_hit_near_ray(map: GridMap, px: int, py: int, t: Trig, cfg: RayConfig)
    requires
        cfg.wf(),
        horizontal_spec(map, px, py, t, cfg).is_some(),
    ensures
        ({
            let h = horizontal_spec(map, px, py, t, cfg).unwrap();
            let off = off_ray(t, px, py, h.x, h.y);
            -(cfg.max_steps * magnitude(t.sin as int)) <= off <= cfg.max_steps * magnitude(t.sin as int)
        }),
{
    let p = horizontal_probe(map, px, py, t, cfg.eps as int).unwrap();
    let k = lemma_search_within_bound(map, px, py, t, p, cfg.max_steps as int, Axis::Horizontal);
    let m = magnitude(t.sin as int);
    lemma_probe_near_ray(py, p.y0, p.yo, t.cos as int, t.sin as int, k);
    assert((k + 1) * m <= cfg.max_steps * m) by (nonlinear_arith)
        requires
            k + 1 <= cfg.max_steps,
            m >= 0,
    ;
}

/// The distance of what a ray hits is the Euclidean distance to the hit
/// point, up to rounding: the square of the unscaled projection is at most
/// the squared length of the direction times the squared Euclidean distance,
/// and falls short of it by at most the square of the step bound times
/// `TRIG_ONE`. The distance is that projection divided by `TRIG_ONE`.
pub proof fn lemma_hit_distance_near_euclid(map: GridMap, px: int, py: int, t: Trig, cfg: RayConfig)
    requires
        t.wf(),
        cfg.wf(),
        cast_spec(map, px, py, t, cfg).is_some(),
    ensures
        ({
            let h = cast_spec(map, px, py, t, cfg).unwrap();
            let raw = raw_distance(t, px, py, h.x, h.y);
            let whole = (t.cos * t.cos + t.sin * t.sin) * euclid_sq(px, py, h.x, h.y);
            let slack = (cfg.max_steps * TRIG_ONE) * (cfg.max_steps * TRIG_ONE);
            &&& whole - slack <= raw * raw <= whole
            &&& h.dist == raw / (TRIG_ONE as int)
        }),
{
    let v = vertical_spec(map, px, py, t, cfg);
    let w = horizontal_spec(map, px, py, t, cfg);
    let h = cast_spec(map, px, py, t, cfg).unwrap();
    let off = off_ray(t, px, py, h.x, h.y);
    let lim = cfg.max_steps * TRIG_ONE;
    lemma_projection_identity(t, px, py, h.x, h.y);
    if v.is_some() && h == v.unwrap() {
        lemma_vertical_hit_near_ray(map, px, py, t, cfg);
        assert(cfg.max_steps * magnitude(t.cos as int) <= lim) by (nonlinear_arith)
            requires
                lim == cfg.max_steps * TRIG_ONE,
                0 <= magnitude(t.cos as int) <= TRIG_ONE,
        ;
    } else {
        lemma_horizontal_hit_near_ray(map, px, py, t, cfg);
        assert(cfg.max_steps * magnitude(t.sin as int) <= lim) by (nonlinear_arith)
            requires
                lim == cfg.max_steps * TRIG_ONE,
                0 <= magnitude(t.sin as int) <= TRIG_ONE,
        ;
    }
    assert(0 <= off * off <= lim * lim) by (nonlinear_arith)
        requires
            -lim <= off <= lim,
    ;
}

/// A point that lies ahead of the viewer along the axis of a search, by at
/// least `k + 1`, and on the ray up to the rounding of `k + 1` strides, has
/// a positive projection on the ray. `along` and `across` are its offsets
/// from the viewer; `den` has the sign of the way along the axis.
pub proof fn lemma_ahead_is_positive(num: int, den: int, along: int, across: int, k: int)
    requires
        den != 0,
        k >= 0,
        -((k + 1) * magnitude(den)) <= den * across + num * along <= (k + 1) * magnitude(den),
        den > 0 ==> along >= k + 1,
        den < 0 ==> along <= -(k + 1),
    ensures
        den * along - num * across > 0,
{
    let off = den * across + num * along;
    let r = den * along - num * across;
    let n = num * num + den * den;
    let b = k + 1;
    let m = magnitude(den);
    let a = magnitude(num);
    let z = num * off;
    assert(den * r == n * along - z) by (nonlinear_arith)
        requires
            off == den * across + num * along,
            r == den * along - num * across,
            n == num * num + den * den,
            z == num * off,
    ;
    assert(2 * (a * m) <= n) by (nonlinear_arith)
        requires
            n == num * num + den * den,
            a == magnitude(num),
            m == magnitude(den),
    ;
    lemma_product_bound(num, off, a, b * m);
    assert(a * (b * m) == b * (a * m)) by (nonlinear_arith);
    assert(2 * (b * (a * m)) <= b * n) by (nonlinear_arith)
        requires
            2 * (a * m) <= n,
            b >= 1,
    ;
    assert(n >= 1) by (nonlinear_arith)
        requires
            n == num * num + den * den,
            den != 0,
    ;
    if den > 0 {
        assert(n * along >= b * n) by (nonlinear_arith)
            requires
                along >= b,
                n >= 1,
        ;
        assert(b * n >= 1) by (nonlinear_arith)
            requires
                b >= 1,
                n >= 1,
        ;
        assert(r > 0) by (nonlinear_arith)
            requires
                den > 0,
                2 * (den * r) >= b * n,
                b * n >= 1,
        ;
    } else {
        assert(n * along <= -(b * n)) by (nonlinear_arith)
            requires
                along <= -b,
                n >= 1,
        ;
        assert(b * n >= 1) by (nonlinear_arith)
            requires
                b >= 1,
                n >= 1,
        ;
        assert(r > 0) by (nonlinear_arith)
            requires
                den < 0,
                2 * (den * r) <= -(b * n),
                b * n >= 1,
        ;
    }
}

/// The first grid line of a search lies ahead of the viewer, and every
/// stride leads at least one unit further.
pub proof fn lemma_probe_leads_away(p: int, cell: int, backward: bool, k: int)
    requires
        cell >= 1,
        k >= 0,
    ensures
        !backward ==> axis_start(p, cell, backward) + k * axis_stride(cell, backward) - p >= k + 1,
        backward ==> axis_start(p, cell, backward) + k * axis_stride(cell, backward) - p <= -(k + 1),
{
    lemma_fundamental_div_mod(p, cell);
    lemma_mod_bound(p, cell);
    let q = p / cell;
    assert(q * cell == cell * q) by (nonlinear_arith);
    assert(k * cell >= k) by (nonlinear_arith)
        requires
            cell >= 1,
            k >= 0,
    ;
    assert(k * (-cell) == -(k * cell)) by (nonlinear_arith);
}

/// No ray comes back with a negative distance.
pub proof fn lemma_hit_distance_not_negative(map: GridMap, px: int, py: int, t: Trig, cfg: RayConfig)
    requires
        map.wf(),
        cfg.wf(),
        cast_spec(map, px, py, t, cfg).is_some(),
    ensures
        cast_spec(map, px, py, t, cfg).unwrap().dist >= 0,
{
    let v = vertical_spec(map, px, py, t, cfg);
    let w = horizontal_spec(map, px, py, t, cfg);
    let h = cast_spec(map, px, py, t, cfg).unwrap();
    let c = t.cos as int;
    let s = t.sin as int;
    let raw = raw_distance(t, px, py, h.x, h.y);
    if v.is_some() && h == v.unwrap() {
        let p = vertical_probe(map, px, py, t, cfg.eps as int).unwrap();
        let k = lemma_search_within_bound(map, px, py, t, p, cfg.max_steps as int, Axis::Vertical);
        lemma_probe_near_ray(px, p.x0, p.xo, s, c, k);
        lemma_probe_leads_away(px, map.cell as int, c < 0, k);
        lemma_ahead_is_positive(s, c, h.x - px, h.y - py, k);
    } else {
        let p = horizontal_probe(map, px, py, t, cfg.eps as int).unwrap();
        let k = lemma_search_within_bound(map, px, py, t, p, cfg.max_steps as int, Axis::Horizontal);
        lemma_probe_near_ray(py, p.y0, p.yo, c, s, k);
        lemma_probe_leads_away(py, map.cell as int, s > 0, k);
        let off = s * (h.x - px) + c * (h.y - py);
        assert((-s) * (h.x - px) + (-c) * (h.y - py) == -off) by (nonlinear_arith)
            requires
                off == s * (h.x - px) + c * (h.y - py),
        ;
        lemma_ahead_is_positive(-c, -s, h.y - py, h.x - px, k);
        assert((-s) * (h.y - py) - (-c) * (h.x - px) == raw) by (nonlinear_arith)
            requires
                raw == c * (h.x - px) - s * (h.y - py),
        ;
    }
    lemma_floor_div_bound(raw, TRIG_ONE as int, raw);
}

} // verus!
