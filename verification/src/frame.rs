use vstd::prelude::*;
use crate::fixed::{floor_div, lemma_floor_div_bound, lemma_product_bound, Trig};
use crate::grid::GridMap;
use crate::player::PlayerState;
use crate::projector::{height_spec, Projector};
use crate::raycast::{cast_spec, Hit, HitModel, RayConfig, COORD_MAX, SAMPLES_MAX};
use crate::sweep::{all_wf, column_matches, sweep, RayHit, SweepConfig};

verus! {

/// A colour of the drawing surface.
#[derive(Clone, Copy, Debug, PartialEq, Eq, Structural)]
pub struct Color {
    pub r: u8,
    pub g: u8,
    pub b: u8,
}

/// One call on the drawing surface.
#[derive(Clone, Copy, Debug, PartialEq, Eq, Structural)]
pub enum DrawCommand {
    Clear(Color),
    FillRect { x: i64, y: i64, w: i64, h: i64, color: Color },
    DrawLine { x0: i64, y0: i64, x1: i64, y1: i64, color: Color },
    Present,
}

/// Where on the surface the columns go, and in which colours.
#[derive(Clone, Copy, Debug, PartialEq, Eq, Structural)]
pub struct FrameConfig {
    pub viewport_x: i64,
    pub viewport_y: i64,
    pub viewport_width: i64,
    pub background: Color,
    pub wall: Color,
}

/// The distance of a hit that may be missing.
pub open spec fn dist_of(h: Option<HitModel>) -> Option<int> {
    match h {
        Some(m) => Some(m.dist),
        None => None,
    }
}

/// The left edge of column `i` of `n`.
pub open spec fn column_x(fc: FrameConfig, n: int, i: int) -> int {
    i * ((fc.viewport_width as int) / n) + fc.viewport_x
}

/// The strip of column `i` of `n` for a wall at distance `dist`: as high as
/// the projector says, centred on the middle of the reference height. A ray
/// that found no wall gets a strip of height zero.
pub open spec fn strip_spec(fc: FrameConfig, proj: Projector, n: int, i: int, dist: Option<int>) -> DrawCommand {
    let h = match dist {
        Some(d) => height_spec(proj.cell as int, proj.reference as int, d),
        None => 0,
    };
    DrawCommand::FillRect {
        x: column_x(fc, n, i) as i64,
        y: (fc.viewport_y + (proj.reference - h) / 2) as i64,
        w: ((fc.viewport_width as int) / n) as i64,
        h: h as i64,
        color: fc.wall,
    }
}

impl FrameConfig {
    /// The corner of the viewport lies within `COORD_MAX` of the origin and
    /// its width in `0..=COORD_MAX`.
    pub open spec fn wf(&self) -> bool {
        &&& -COORD_MAX <= self.viewport_x <= COORD_MAX
        &&& -COORD_MAX <= self.viewport_y <= COORD_MAX
        &&& 0 <= self.viewport_width <= COORD_MAX
    }

    /// Accepts a viewport whose corner lies within `COORD_MAX` of the origin
    /// and whose width lies in `0..=COORD_MAX`, and nothing else.
    pub fn new(viewport_x: i64, viewport_y: i64, viewport_width: i64, background: Color, wall: Color) -> (r: Option<
        FrameConfig,
    >)
        ensures
            r.is_some() == (FrameConfig { viewport_x, viewport_y, viewport_width, background, wall }).wf(),
            r.is_some() ==> r.unwrap() == (FrameConfig {
                viewport_x,
                viewport_y,
                viewport_width,
                background,
                wall,
            }),
    {
        if -COORD_MAX <= viewport_x && viewport_x <= COORD_MAX && -COORD_MAX <= viewport_y && viewport_y
            <= COORD_MAX && 0 <= viewport_width && viewport_width <= COORD_MAX {
            Some(FrameConfig { viewport_x, viewport_y, viewport_width, background, wall })
        } else {
            None
        }
    }

    /// The strip of column `i` of `n` for what its ray found.
    pub fn strip(&self, proj: &Projector, n: usize, i: usize, hit: Option<Hit>) -> (c: DrawCommand)
        requires
            self.wf(),
            proj.wf(),
            1 <= n <= SAMPLES_MAX,
            i < n,
        ensures
            c == strip_spec(
                *self,
                *proj,
                n as int,
                i as int,
                match hit {
                    Some(w) => Some(w.dist as int),
                    None => None,
                },
            ),
    {
        let h: i64 = proj.column_height(hit);
        proof {
            lemma_floor_div_bound(self.viewport_width as int, n as int, 0x8000_0000);
            lemma_product_bound(i as int, (self.viewport_width as int) / (n as int), 65536, 0x8000_0000);
            lemma_floor_div_bound(proj.reference - h, 2, 0x8000_0000);
        }
        let w: i64 = floor_div(self.viewport_width as i128, n as i128) as i64;
        let x: i64 = (i as i64) * w + self.viewport_x;
        let y: i64 = self.viewport_y + (floor_div((proj.reference - h) as i128, 2) as i64);
        DrawCommand::FillRect { x, y, w, h, color: self.wall }
    }
}

/// The calls of one frame, in order: clear, the calls of `overlay` as they
/// are (a view of the map from above, or nothing), one strip per ray from
/// the leftmost on, present. `trigs[i]` is the direction of sample angle `i`.
pub fn render_frame(
    map: &GridMap,
    player: &PlayerState,
    sc: &SweepConfig,
    rc: &RayConfig,
    proj: &Projector,
    fc: &FrameConfig,
    trigs: &Vec<Trig>,
    overlay: &Vec<DrawCommand>,
) -> (out: Vec<DrawCommand>)
    requires
        map.wf(),
        player.wf(),
        sc.wf(),
        rc.wf(),
        proj.wf(),
        fc.wf(),
        trigs@.len() == sc.samples,
        all_wf(trigs@),
    ensures
        out@.len() == overlay@.len() + sc.samples + 2,
        out@[0] == DrawCommand::Clear(fc.background),
        out@[overlay@.len() + sc.samples + 1] == DrawCommand::Present,
        forall|k: int| 1 <= k <= overlay@.len() ==> #[trigger] out@[k] == overlay@[k - 1],
        forall|k: int|
            overlay@.len() < k <= overlay@.len() + sc.samples ==> #[trigger] out@[k] == strip_spec(
                *fc,
                *proj,
                sc.samples as int,
                k - overlay@.len() - 1,
                dist_of(
                    cast_spec(
                        *map,
                        player.x as int,
                        player.y as int,
                        trigs@[k - overlay@.len() - 1],
                        *rc,
                    ),
                ),
            ),
{
    let columns: Vec<RayHit> = sweep(map, player.x, player.y, player.angle, sc, rc, trigs);
    let n: usize = sc.samples;
    let mut out: Vec<DrawCommand> = Vec::new();
    out.push(DrawCommand::Clear(fc.background));
    let m: usize = overlay.len();
    let mut j: usize = 0;
    while j < m
        invariant
            m == overlay@.len(),
            j <= m,
            out@.len() == j + 1,
            out@[0] == DrawCommand::Clear(fc.background),
            forall|k: int| 1 <= k <= j ==> #[trigger] out@[k] == overlay@[k - 1],
        decreases m - j,
    {
        out.push(overlay[j]);
        j = j + 1;
    }
    let mut i: usize = 0;
    while i < n
        invariant
            fc.wf(),
            proj.wf(),
            n == sc.samples,
            1 <= n <= SAMPLES_MAX,
            i <= n,
            m == overlay@.len(),
            columns@.len() == n,
            out@.len() == m + i + 1,
            out@[0] == DrawCommand::Clear(fc.background),
            forall|k: int| 1 <= k <= m ==> #[trigger] out@[k] == overlay@[k - 1],
            forall|j: int|
                0 <= j < n ==> column_matches(
                    #[trigger] columns@[j],
                    *map,
                    player.x as int,
                    player.y as int,
                    player.angle as int,
                    *sc,
                    *rc,
                    trigs@,
                    j,
                ),
            forall|k: int|
                m < k <= m + i ==> #[trigger] out@[k] == strip_spec(
                    *fc,
                    *proj,
                    n as int,
                    k - m - 1,
                    dist_of(cast_spec(*map, player.x as int, player.y as int, trigs@[k - m - 1], *rc)),
                ),
        decreases n - i,
    {
        let col: RayHit = columns[i];
        let c: DrawCommand = fc.strip(proj, n, i, col.hit);
        out.push(c);
        i = i + 1;
    }
    out.push(DrawCommand::Present);
    out
}

} // verus!
