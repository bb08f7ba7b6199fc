use vstd::prelude::*;
use crate::angle::{normalize_wide, normalized, FULL_TURN};
use crate::fixed::{floor_div, is_near_unit, lemma_floor_div_bound, lemma_product_bound, Trig};
use crate::grid::GridMap;
use crate::raycast::{cast_ray, cast_spec, hit_view, Hit, RayConfig, COORD_MAX, SAMPLES_MAX};

verus! {

/// The width of the field of view and the number of rays that sample it.
#[derive(Clone, Copy, Debug, PartialEq, Eq, Structural)]
pub struct SweepConfig {
    pub fov: i64,
    pub samples: usize,
}

/// One column of a sweep: the angle of its ray and what the ray found.
/// `hit` is `None` for a ray that found no wall within the step bound.
#[derive(Clone, Copy, Debug, PartialEq, Eq, Structural)]
pub struct RayHit {
    pub angle: i64,
    pub hit: Option<Hit>,
}

/// The angle of ray `i` of `n` rays over a field of view `fov` centred on
/// `heading`. Ray 0 is the leftmost, half the field of view to the left of
/// the heading; each next ray lies `fov / n` further right.
pub open spec fn sample_angle_spec(heading: int, fov: int, n: int, i: int) -> int {
    normalized(heading + fov / 2 - (i * fov) / n)
}

impl SweepConfig {
    /// The field of view is at most a full turn and there are between one
    /// and `SAMPLES_MAX` rays.
    pub open spec fn wf(&self) -> bool {
        &&& 0 <= self.fov <= FULL_TURN
        &&& 1 <= self.samples <= SAMPLES_MAX
    }

    /// Accepts a field of view of at most a full turn and between one and
    /// `SAMPLES_MAX` rays, and nothing else.
    pub fn new(fov: i64, samples: usize) -> (r: Option<SweepConfig>)
        ensures
            r.is_some() == (SweepConfig { fov, samples }).wf(),
            r.is_some() ==> r.unwrap() == (SweepConfig { fov, samples }),
    {
        if 0 <= fov && fov <= FULL_TURN && 1 <= samples && samples <= SAMPLES_MAX {
            Some(SweepConfig { fov, samples })
        } else {
            None
        }
    }

    /// The angle of ray `i`.
    pub fn sample_angle(&self, heading: i64, i: usize) -> (a: i64)
        requires
            self.wf(),
            i < self.samples,
        ensures
            a == sample_angle_spec(heading as int, self.fov as int, self.samples as int, i as int),
            0 <= a < FULL_TURN,
    {
        let half: i128 = floor_div(self.fov as i128, 2);
        proof {
            lemma_product_bound(i as int, self.fov as int, 65536, 360_000);
            lemma_floor_div_bound(self.fov as int, 2, 360_000);
            lemma_floor_div_bound(i * self.fov, self.samples as int, 23_592_960_000);
        }
        let off: i128 = floor_div((i as i128) * (self.fov as i128), self.samples as i128);
        normalize_wide((heading as i128) + half - off)
    }

    /// The angles of all rays, leftmost first.
    pub fn sample_angles(&self, heading: i64) -> (out: Vec<i64>)
        requires
            self.wf(),
        ensures
            out@.len() == self.samples,
            forall|i: int|
                0 <= i < self.samples ==> #[trigger] out@[i] == sample_angle_spec(
                    heading as int,
                    self.fov as int,
                    self.samples as int,
                    i,
                ),
    {
        let mut out: Vec<i64> = Vec::new();
        let mut i: usize = 0;
        while i < self.samples
            invariant
                self.wf(),
                i <= self.samples,
                out@.len() == i,
                forall|j: int|
                    0 <= j < i ==> #[trigger] out@[j] == sample_angle_spec(
                        heading as int,
                        self.fov as int,
                        self.samples as int,
                        j,
                    ),
            decreases self.samples - i,
        {
            let a: i64 = self.sample_angle(heading, i);
            out.push(a);
            i = i + 1;
        }
        out
    }
}

/// Whether every direction of `trigs` is well formed.
pub open spec fn all_wf(trigs: Seq<Trig>) -> bool {
    forall|i: int| 0 <= i < trigs.len() ==> (#[trigger] trigs[i]).wf()
}

/// Column `i` of a sweep: its angle, and what the ray in direction
/// `trigs[i]` hits.
pub open spec fn column_matches(
    col: RayHit,
    map: GridMap,
    px: int,
    py: int,
    heading: int,
    sc: SweepConfig,
    rc: RayConfig,
    trigs: Seq<Trig>,
    i: int,
) -> bool {
    &&& col.angle == sample_angle_spec(heading, sc.fov as int, sc.samples as int, i)
    &&& hit_view(col.hit) == cast_spec(map, px, py, trigs[i], rc)
}

/// Casts one ray per sample angle, leftmost first. `trigs[i]` is the cosine
/// and sine of sample angle `i`.
pub fn sweep(
    map: &GridMap,
    px: i64,
    py: i64,
    heading: i64,
    sc: &SweepConfig,
    rc: &RayConfig,
    trigs: &Vec<Trig>,
) -> (out: Vec<RayHit>)
    requires
        map.wf(),
        sc.wf(),
        rc.wf(),
        -COORD_MAX <= px <= COORD_MAX,
        -COORD_MAX <= py <= COORD_MAX,
        trigs@.len() == sc.samples,
        all_wf(trigs@),
    ensures
        out@.len() == sc.samples,
        forall|i: int|
            0 <= i < sc.samples ==> column_matches(
                #[trigger] out@[i],
                *map,
                px as int,
                py as int,
                heading as int,
                *sc,
                *rc,
                trigs@,
                i,
            ),
{
    let mut out: Vec<RayHit> = Vec::new();
    let mut i: usize = 0;
    while i < sc.samples
        invariant
            map.wf(),
            sc.wf(),
            rc.wf(),
            -COORD_MAX <= px <= COORD_MAX,
            -COORD_MAX <= py <= COORD_MAX,
            trigs@.len() == sc.samples,
            all_wf(trigs@),
            i <= sc.samples,
            out@.len() == i,
            forall|j: int|
                0 <= j < i ==> column_matches(
                    #[trigger] out@[j],
                    *map,
                    px as int,
                    py as int,
                    heading as int,
                    *sc,
                    *rc,
                    trigs@,
                    j,
                ),
        decreases sc.samples - i,
    {
        let angle: i64 = sc.sample_angle(heading, i);
        let t: Trig = trigs[i];
        let hit = cast_ray(map, px, py, t, rc);
        out.push(RayHit { angle, hit });
        i = i + 1;
    }
    out
}

/// Whether all directions of `trigs` are well formed.
pub fn check_trigs(trigs: &Vec<Trig>) -> (ok: bool)
    ensures
        ok == all_wf(trigs@),
{
    let mut i: usize = 0;
    while i < trigs.len()
        invariant
            i <= trigs@.len(),
            forall|j: int| 0 <= j < i ==> (#[trigger] trigs@[j]).wf(),
        decreases trigs@.len() - i,
    {
        let t: Trig = trigs[i];
        if !is_near_unit(t.cos, t.sin) {
            return false;
        }
        i = i + 1;
    }
    true
}

} // verus!
