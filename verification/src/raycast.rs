use vstd::prelude::*;
use vstd::arithmetic::div_mod::{lemma_fundamental_div_mod, lemma_mod_bound};
use crate::fixed::{
    floor_div, lemma_floor_div_bound, lemma_product_bound, lemma_quotient_bound, scale,
    scale_spec, Trig, TRIG_ONE,
};
use crate::accuracy::lemma_hit_distance_not_negative;
use crate::grid::{GridMap, CELL_MAX};
use crate::march::{
    first_solid, lemma_first_solid_least, march, solid_after, ORIGIN_MAX, REACH_MAX, STEPS_MAX,
    STRIDE_MAX,
};

verus! {

/// Largest magnitude of a coordinate of the viewer.
pub const COORD_MAX: i64 = 0x8000_0000;

/// Largest number of rays of one sweep.
pub const SAMPLES_MAX: usize = 65536;

/// The kind of grid line on which a ray stopped.
#[derive(Clone, Copy, Debug, PartialEq, Eq, Structural)]
pub enum Axis {
    /// A vertical grid line, met while stepping from column to column.
    Vertical,
    /// A horizontal grid line, met while stepping from row to row.
    Horizontal,
}

/// The tolerance of the axis tests and the step bound of each search.
#[derive(Clone, Copy, Debug, PartialEq, Eq, Structural)]
pub struct RayConfig {
    pub eps: i64,
    pub max_steps: usize,
}

impl RayConfig {
    /// The tolerance lies in `0..=TRIG_ONE` and the step bound is at most
    /// `STEPS_MAX`.
    pub open spec fn wf(&self) -> bool {
        &&& 0 <= self.eps <= TRIG_ONE
        &&& self.max_steps <= STEPS_MAX
    }

    /// Accepts a tolerance in `0..=TRIG_ONE` and a step bound of at most
    /// `STEPS_MAX`, and nothing else.
    pub fn new(eps: i64, max_steps: usize) -> (r: Option<RayConfig>)
        ensures
            r.is_some() == (RayConfig { eps, max_steps }).wf(),
            r.is_some() ==> r.unwrap() == (RayConfig { eps, max_steps }),
    {
        if 0 <= eps && eps <= TRIG_ONE && max_steps <= STEPS_MAX {
            Some(RayConfig { eps, max_steps })
        } else {
            None
        }
    }

    /// The configuration whose step bound is the larger dimension of `map`.
    pub fn for_map(map: &GridMap, eps: i64) -> (r: Option<RayConfig>)
        requires
            map.wf(),
        ensures
            r.is_some() == (0 <= eps <= TRIG_ONE),
            r.is_some() ==> r.unwrap().eps == eps && r.unwrap().wf(),
            r.is_some() ==> r.unwrap().max_steps == if map.width >= map.height {
                map.width
            } else {
                map.height
            },
    {
        let steps: usize = if map.width >= map.height { map.width } else { map.height };
        RayConfig::new(eps, steps)
    }
}

/// Start and stride of one search, as mathematical integers.
pub struct ProbeModel {
    pub x0: int,
    pub y0: int,
    pub xo: int,
    pub yo: int,
}

/// Start and stride of one search.
#[derive(Clone, Copy, Debug, PartialEq, Eq, Structural)]
pub struct Probe {
    pub x0: i64,
    pub y0: i64,
    pub xo: i64,
    pub yo: i64,
}

impl View for Probe {
    type V = ProbeModel;

    open spec fn view(&self) -> ProbeModel {
        ProbeModel { x0: self.x0 as int, y0: self.y0 as int, xo: self.xo as int, yo: self.yo as int }
    }
}

/// The first grid line that a ray from `p` crosses along one axis: one unit
/// before the near edge of the cell when the ray runs backward, the far edge
/// when it runs forward.
pub open spec fn axis_start(p: int, cell: int, backward: bool) -> int {
    let edge = (p / cell) * cell;
    if backward {
        edge - 1
    } else {
        edge + cell
    }
}

/// One cell side, signed by the way the ray runs.
pub open spec fn axis_stride(cell: int, backward: bool) -> int {
    if backward {
        -cell
    } else {
        cell
    }
}

/// The search over vertical grid lines: none for a ray whose cosine is
/// within `eps` of zero.
pub open spec fn vertical_probe(map: GridMap, px: int, py: int, t: Trig, eps: int) -> Option<ProbeModel> {
    if -eps <= t.cos <= eps {
        None
    } else {
        let x0 = axis_start(px, map.cell as int, t.cos < 0);
        let xo = axis_stride(map.cell as int, t.cos < 0);
        Some(
            ProbeModel {
                x0,
                y0: py + scale_spec(px - x0, t.sin as int, t.cos as int),
                xo,
                yo: -scale_spec(xo, t.sin as int, t.cos as int),
            },
        )
    }
}

/// The search over horizontal grid lines: none for a ray whose sine is
/// within `eps` of zero. A positive sine points up, toward smaller `y`.
pub open spec fn horizontal_probe(map: GridMap, px: int, py: int, t: Trig, eps: int) -> Option<ProbeModel> {
    if -eps <= t.sin <= eps {
        None
    } else {
        let y0 = axis_start(py, map.cell as int, t.sin > 0);
        let yo = axis_stride(map.cell as int, t.sin > 0);
        Some(
            ProbeModel {
                x0: px + scale_spec(py - y0, t.cos as int, t.sin as int),
                y0,
                xo: -scale_spec(yo, t.cos as int, t.sin as int),
                yo,
            },
        )
    }
}

/// Start and stride along one axis and across it: `(a0, c0, ao, co)`.
pub fn axis_probe(along: i64, across: i64, cell: i64, num: i64, den: i64, backward: bool) -> (r: (
    i64,
    i64,
    i64,
    i64,
))
    requires
        -COORD_MAX <= along <= COORD_MAX,
        -COORD_MAX <= across <= COORD_MAX,
        1 <= cell <= CELL_MAX,
        -TRIG_ONE <= num <= TRIG_ONE,
        -TRIG_ONE <= den <= TRIG_ONE,
        den != 0,
    ensures
        r.0 == axis_start(along as int, cell as int, backward),
        r.2 == axis_stride(cell as int, backward),
        r.1 == across + scale_spec(along - r.0, num as int, den as int),
        r.3 == -scale_spec(r.2 as int, num as int, den as int),
        -ORIGIN_MAX <= r.0 <= ORIGIN_MAX,
        -ORIGIN_MAX <= r.1 <= ORIGIN_MAX,
        -STRIDE_MAX <= r.2 <= STRIDE_MAX,
        -STRIDE_MAX <= r.3 <= STRIDE_MAX,
{
    let q: i128 = floor_div(along as i128, cell as i128);
    proof {
        lemma_fundamental_div_mod(along as int, cell as int);
        lemma_mod_bound(along as int, cell as int);
        lemma_floor_div_bound(along as int, cell as int, 0x8000_0000);
        lemma_product_bound(q as int, cell as int, 0x8000_0000, 0x10_0000);
        assert(q * cell == cell * q) by (nonlinear_arith);
    }
    let edge: i64 = (q * (cell as i128)) as i64;
    let a0: i64 = if backward { edge - 1 } else { edge + cell };
    let ao: i64 = if backward { -cell } else { cell };
    let c0: i64 = across + scale(along - a0, num, den);
    let co: i64 = -scale(ao, num, den);
    (a0, c0, ao, co)
}

/// The distance from `(px, py)` to `(hx, hy)` measured along the direction
/// `t`, in which `y` grows downward.
pub open spec fn distance_spec(t: Trig, px: int, py: int, hx: int, hy: int) -> int {
    (t.cos * (hx - px) - t.sin * (hy - py)) / (TRIG_ONE as int)
}

/// The projection of the way from `(px, py)` to `(hx, hy)` onto the
/// direction `t`.
pub fn ray_distance(t: Trig, px: i64, py: i64, hx: i64, hy: i64) -> (d: i64)
    requires
        t.wf(),
        -REACH_MAX <= px <= REACH_MAX,
        -REACH_MAX <= py <= REACH_MAX,
        -REACH_MAX <= hx <= REACH_MAX,
        -REACH_MAX <= hy <= REACH_MAX,
    ensures
        d == distance_spec(t, px as int, py as int, hx as int, hy as int),
{
    let ax: i128 = (hx as i128) - (px as i128);
    let ay: i128 = (hy as i128) - (py as i128);
    proof {
        lemma_product_bound(t.cos as int, ax as int, 65536, 0x10_0000_0000_0000);
        lemma_product_bound(t.sin as int, ay as int, 65536, 0x10_0000_0000_0000);
    }
    let raw: i128 = (t.cos as i128) * ax - (t.sin as i128) * ay;
    proof {
        lemma_quotient_bound(raw as int, 65536, 0x20_0000_0000_0000);
    }
    floor_div(raw, TRIG_ONE as i128) as i64
}

/// Where a ray stopped, as mathematical integers.
pub struct HitModel {
    pub dist: int,
    pub x: int,
    pub y: int,
    pub axis: Axis,
}

/// Where a ray stopped: the distance along the ray, the point, and the kind
/// of grid line.
#[derive(Clone, Copy, Debug, PartialEq, Eq, Structural)]
pub struct Hit {
    pub dist: i64,
    pub x: i64,
    pub y: i64,
    pub axis: Axis,
}

impl View for Hit {
    type V = HitModel;

    open spec fn view(&self) -> HitModel {
        HitModel { dist: self.dist as int, x: self.x as int, y: self.y as int, axis: self.axis }
    }
}

/// The model of a hit that may be missing.
pub open spec fn hit_view(h: Option<Hit>) -> Option<HitModel> {
    match h {
        Some(h) => Some(h@),
        None => None,
    }
}

/// The outcome of one search: the first solid point of the probe within
/// `bound` points, with its distance from the viewer.
pub open spec fn search_spec(
    map: GridMap,
    px: int,
    py: int,
    t: Trig,
    probe: Option<ProbeModel>,
    bound: int,
    axis: Axis,
) -> Option<HitModel> {
    match probe {
        None => None,
        Some(p) => match first_solid(map, p.x0, p.y0, p.xo, p.yo, 0, bound) {
            None => None,
            Some(k) => {
                let hx = p.x0 + k * p.xo;
                let hy = p.y0 + k * p.yo;
                Some(HitModel { dist: distance_spec(t, px, py, hx, hy), x: hx, y: hy, axis })
            },
        },
    }
}

/// A search stops within its step bound: what it finds lies a whole number
/// of strides, fewer than `bound`, from the start of the probe, in a solid
/// cell, and no earlier point of the probe lies in one.
pub proof fn lemma_search_within_bound(
    map: GridMap,
    px: int,
    py: int,
    t: Trig,
    p: ProbeModel,
    bound: int,
    axis: Axis,
) -> (k: int)
    requires
        search_spec(map, px, py, t, Some(p), bound, axis).is_some(),
    ensures
        0 <= k < bound,
        search_spec(map, px, py, t, Some(p), bound, axis).unwrap().x == p.x0 + k * p.xo,
        search_spec(map, px, py, t, Some(p), bound, axis).unwrap().y == p.y0 + k * p.yo,
        solid_after(map, p.x0, p.y0, p.xo, p.yo, k),
        forall|j: int| 0 <= j < k ==> !solid_after(map, p.x0, p.y0, p.xo, p.yo, j),
{
    lemma_first_solid_least(map, p.x0, p.y0, p.xo, p.yo, 0, bound);
    first_solid(map, p.x0, p.y0, p.xo, p.yo, 0, bound).unwrap()
}

/// The outcome of the search over vertical grid lines.
pub open spec fn vertical_spec(map: GridMap, px: int, py: int, t: Trig, cfg: RayConfig) -> Option<HitModel> {
    search_spec(map, px, py, t, vertical_probe(map, px, py, t, cfg.eps as int), cfg.max_steps as int, Axis::Vertical)
}

/// The outcome of the search over horizontal grid lines.
pub open spec fn horizontal_spec(map: GridMap, px: int, py: int, t: Trig, cfg: RayConfig) -> Option<HitModel> {
    search_spec(
        map,
        px,
        py,
        t,
        horizontal_probe(map, px, py, t, cfg.eps as int),
        cfg.max_steps as int,
        Axis::Horizontal,
    )
}

/// The nearer of two hits. The vertical one wins only where it is strictly
/// nearer.
pub open spec fn nearer(v: Option<HitModel>, h: Option<HitModel>) -> Option<HitModel> {
    match (v, h) {
        (Some(a), Some(b)) => if a.dist < b.dist {
            Some(a)
        } else {
            Some(b)
        },
        (Some(a), None) => Some(a),
        (None, b) => b,
    }
}

/// What a ray from `(px, py)` in direction `t` hits.
pub open spec fn cast_spec(map: GridMap, px: int, py: int, t: Trig, cfg: RayConfig) -> Option<HitModel> {
    nearer(vertical_spec(map, px, py, t, cfg), horizontal_spec(map, px, py, t, cfg))
}

/// Marches along `probe` and measures the distance to where it stopped.
pub fn search(map: &GridMap, px: i64, py: i64, t: Trig, probe: Probe, bound: usize, axis: Axis) -> (r: Option<Hit>)
    requires
        map.wf(),
        t.wf(),
        -COORD_MAX <= px <= COORD_MAX,
        -COORD_MAX <= py <= COORD_MAX,
        -ORIGIN_MAX <= probe.x0 <= ORIGIN_MAX,
        -ORIGIN_MAX <= probe.y0 <= ORIGIN_MAX,
        -STRIDE_MAX <= probe.xo <= STRIDE_MAX,
        -STRIDE_MAX <= probe.yo <= STRIDE_MAX,
        bound <= STEPS_MAX,
    ensures
        hit_view(r) == search_spec(*map, px as int, py as int, t, Some(probe@), bound as int, axis),
{
    match march(map, probe.x0, probe.y0, probe.xo, probe.yo, bound) {
        None => None,
        Some(h) => {
            let dist: i64 = ray_distance(t, px, py, h.x, h.y);
            Some(Hit { dist, x: h.x, y: h.y, axis })
        },
    }
}

/// Searches the crossings of vertical grid lines for the first wall.
pub fn vertical_search(map: &GridMap, px: i64, py: i64, t: Trig, cfg: &RayConfig) -> (r: Option<Hit>)
    requires
        map.wf(),
        t.wf(),
        cfg.wf(),
        -COORD_MAX <= px <= COORD_MAX,
        -COORD_MAX <= py <= COORD_MAX,
    ensures
        hit_view(r) == vertical_spec(*map, px as int, py as int, t, *cfg),
{
    if -cfg.eps <= t.cos && t.cos <= cfg.eps {
        return None;
    }
    let (x0, y0, xo, yo) = axis_probe(px, py, map.cell, t.sin, t.cos, t.cos < 0);
    search(map, px, py, t, Probe { x0, y0, xo, yo }, cfg.max_steps, Axis::Vertical)
}

/// Searches the crossings of horizontal grid lines for the first wall.
pub fn horizontal_search(map: &GridMap, px: i64, py: i64, t: Trig, cfg: &RayConfig) -> (r: Option<Hit>)
    requires
        map.wf(),
        t.wf(),
        cfg.wf(),
        -COORD_MAX <= px <= COORD_MAX,
        -COORD_MAX <= py <= COORD_MAX,
    ensures
        hit_view(r) == horizontal_spec(*map, px as int, py as int, t, *cfg),
{
    if -cfg.eps <= t.sin && t.sin <= cfg.eps {
        return None;
    }
    let (y0, x0, yo, xo) = axis_probe(py, px, map.cell, t.cos, t.sin, t.sin > 0);
    search(map, px, py, t, Probe { x0, y0, xo, yo }, cfg.max_steps, Axis::Horizontal)
}

/// Picks the nearer of the two hits; the horizontal one where they tie.
pub fn select_nearer(v: Option<Hit>, h: Option<Hit>) -> (r: Option<Hit>)
    ensures
        hit_view(r) == nearer(hit_view(v), hit_view(h)),
        r == v || r == h,
{
    match (v, h) {
        (Some(a), Some(b)) => if a.dist < b.dist {
            Some(a)
        } else {
            Some(b)
        },
        (Some(a), None) => Some(a),
        (None, b) => b,
    }
}

/// Casts one ray from `(px, py)` in direction `t`: the nearer of what the
/// two searches find, or nothing where neither finds a wall. The distance
/// of what it finds is never negative.
pub fn cast_ray(map: &GridMap, px: i64, py: i64, t: Trig, cfg: &RayConfig) -> (r: Option<Hit>)
    requires
        map.wf(),
        t.wf(),
        cfg.wf(),
        -COORD_MAX <= px <= COORD_MAX,
        -COORD_MAX <= py <= COORD_MAX,
    ensures
        hit_view(r) == cast_spec(*map, px as int, py as int, t, *cfg),
        r.is_some() ==> r.unwrap().dist >= 0,
{
    let v = vertical_search(map, px, py, t, cfg);
    let h = horizontal_search(map, px, py, t, cfg);
    proof {
        if cast_spec(*map, px as int, py as int, t, *cfg).is_some() {
            lemma_hit_distance_not_negative(*map, px as int, py as int, t, *cfg);
        }
    }
    select_nearer(v, h)
}

} // verus!
