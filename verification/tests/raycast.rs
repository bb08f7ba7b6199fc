use raycaster::fixed::Trig;
use raycaster::grid::GridMap;
use raycaster::march::{march, MarchHit};
use raycaster::projector::Projector;
use raycaster::raycast::{
    axis_probe, cast_ray, horizontal_search, ray_distance, search, select_nearer, vertical_search,
    Axis, Hit, Probe, RayConfig,
};
use raycaster::sweep::{check_trigs, sweep, SweepConfig};

fn trig_of(angle: i64) -> Trig {
    let rad = (angle as f64) * std::f64::consts::PI / 180_000.0;
    Trig::new((rad.cos() * 65536.0).round() as i64, (rad.sin() * 65536.0).round() as i64).unwrap()
}

fn level() -> GridMap {
    let rows: Vec<Vec<bool>> = [
        [1, 1, 1, 1, 1, 1, 1, 1],
        [1, 0, 1, 0, 0, 0, 0, 1],
        [1, 0, 1, 0, 0, 0, 0, 1],
        [1, 0, 1, 0, 0, 0, 0, 1],
        [1, 0, 0, 0, 0, 0, 0, 1],
        [1, 0, 0, 0, 0, 1, 0, 1],
        [1, 0, 0, 0, 0, 0, 0, 1],
        [1, 1, 1, 1, 1, 1, 1, 1],
    ]
    .iter()
    .map(|r| r.iter().map(|c| *c == 1).collect())
    .collect();
    GridMap::from_rows(&rows, 64).unwrap()
}

fn hall() -> GridMap {
    let mut rows: Vec<Vec<bool>> = vec![vec![false; 8]; 8];
    for i in 0..8 {
        rows[0][i] = true;
        rows[7][i] = true;
        rows[i][0] = true;
        rows[i][7] = true;
    }
    GridMap::from_rows(&rows, 64).unwrap()
}

fn config() -> RayConfig {
    RayConfig::new(66, 8).unwrap()
}

#[test]
fn ray_config_limits() {
    assert_eq!(RayConfig::new(66, 8), Some(RayConfig { eps: 66, max_steps: 8 }));
    assert_eq!(RayConfig::new(0, 0), Some(RayConfig { eps: 0, max_steps: 0 }));
    assert_eq!(RayConfig::new(-1, 8), None);
    assert_eq!(RayConfig::new(65537, 8), None);
    assert_eq!(RayConfig::new(66, 1025), None);
}

#[test]
fn ray_config_takes_the_larger_dimension() {
    let wide = GridMap::new(5, 3, 64, vec![false; 15]).unwrap();
    assert_eq!(RayConfig::for_map(&wide, 66), Some(RayConfig { eps: 66, max_steps: 5 }));
    let tall = GridMap::new(3, 9, 64, vec![false; 27]).unwrap();
    assert_eq!(RayConfig::for_map(&tall, 66), Some(RayConfig { eps: 66, max_steps: 9 }));
    assert_eq!(RayConfig::for_map(&tall, -1), None);
}

#[test]
fn march_stops_at_the_first_solid_point() {
    let m = level();
    assert_eq!(march(&m, 150, 383, 0, -64, 8), Some(MarchHit { steps: 2, x: 150, y: 255 }));
    assert_eq!(march(&m, 150, 255, 0, -64, 8), Some(MarchHit { steps: 0, x: 150, y: 255 }));
    assert_eq!(march(&m, 192, 400, 64, 0, 8), Some(MarchHit { steps: 4, x: 448, y: 400 }));
}

#[test]
fn march_gives_up_at_the_bound() {
    let m = level();
    assert_eq!(march(&m, 150, 383, 0, -64, 2), None);
    assert_eq!(march(&m, 150, 383, 0, -64, 3), Some(MarchHit { steps: 2, x: 150, y: 255 }));
    assert_eq!(march(&m, 150, 255, 0, -64, 0), None);
    assert_eq!(march(&m, 100, 100, 0, 0, 8), None);
}

#[test]
fn march_stops_outside_the_map() {
    let m = hall();
    assert_eq!(march(&m, 600, 100, 64, 0, 8), Some(MarchHit { steps: 0, x: 600, y: 100 }));
    assert_eq!(march(&m, 100, 100, 0, -200, 8), Some(MarchHit { steps: 1, x: 100, y: -100 }));
}

#[test]
fn axis_probe_starts_at_the_cell_edge() {
    // forward: the far edge of the cell
    assert_eq!(axis_probe(224, 224, 64, 46341, 46341, false), (256, 192, 64, -64));
    // backward: one unit before the near edge
    assert_eq!(axis_probe(224, 224, 64, 46341, 46341, true), (191, 257, -64, 64));
    // a negative coordinate rounds down to its cell
    assert_eq!(axis_probe(-10, 0, 64, 0, 65536, true), (-65, 0, -64, 0));
    assert_eq!(axis_probe(-10, 0, 64, 0, 65536, false), (0, 0, 64, 0));
}

#[test]
fn distance_is_the_projection_on_the_ray() {
    assert_eq!(ray_distance(trig_of(90_000), 150, 400, 150, 255), 145);
    assert_eq!(ray_distance(trig_of(0), 150, 400, 448, 400), 298);
    assert_eq!(ray_distance(trig_of(180_000), 150, 400, 63, 400), 87);
    assert_eq!(ray_distance(trig_of(270_000), 150, 400, 150, 448), 48);
    assert_eq!(ray_distance(trig_of(45_000), 224, 224, 385, 63), 227);
    assert_eq!(ray_distance(trig_of(45_000), 224, 224, 448, 0), 316);
}

#[test]
fn straight_ahead_distance_is_euclidean() {
    // 3-4-5 triangle scaled: direction (0.6, 0.8) exactly representable in spirit
    let t = Trig::new(39322, 52429).unwrap();
    let d = ray_distance(t, 0, 0, 300, -400);
    let euclid = ((300.0f64 * 300.0) + (400.0 * 400.0)).sqrt();
    assert!(((d as f64) - euclid).abs() <= 1.0);
    // axis-aligned headings give the exact distance
    assert_eq!(ray_distance(trig_of(0), 10, 20, 110, 20), 100);
    assert_eq!(ray_distance(trig_of(90_000), 10, 20, 10, -80), 100);
    // a point exactly on a diagonal ray: the squared projection is the
    // squared length of the direction times the squared distance
    let t = trig_of(45_000);
    let (ax, ay): (i128, i128) = (161, -161);
    let (c, s): (i128, i128) = (t.cos as i128, t.sin as i128);
    assert_eq!(c * ay + s * ax, 0);
    let raw = c * ax - s * ay;
    assert_eq!(raw * raw, (c * c + s * s) * (ax * ax + ay * ay));
    assert_eq!(ray_distance(t, 224, 224, 385, 63) as i128, raw / 65536);
    let euclid = ((ax * ax + ay * ay) as f64).sqrt();
    assert!(((ray_distance(t, 224, 224, 385, 63) as f64) - euclid).abs() <= 1.0);
}

#[test]
fn search_measures_where_the_march_stopped() {
    let m = level();
    let t = trig_of(90_000);
    let p = Probe { x0: 150, y0: 383, xo: 0, yo: -64 };
    assert_eq!(
        search(&m, 150, 400, t, p, 8, Axis::Horizontal),
        Some(Hit { dist: 145, x: 150, y: 255, axis: Axis::Horizontal })
    );
    assert_eq!(search(&m, 150, 400, t, p, 2, Axis::Horizontal), None);
}

#[test]
fn vertical_ray_has_no_vertical_hit() {
    let m = level();
    assert_eq!(vertical_search(&m, 150, 400, trig_of(90_000), &config()), None);
    assert_eq!(vertical_search(&m, 150, 400, trig_of(270_000), &config()), None);
    // inside the tolerance on either side
    assert_eq!(vertical_search(&m, 150, 400, Trig { cos: 66, sin: 65536 }, &config()), None);
    assert_eq!(vertical_search(&m, 150, 400, Trig { cos: -66, sin: 65536 }, &config()), None);
    assert!(vertical_search(&m, 150, 400, Trig { cos: 67, sin: 65536 }, &RayConfig::new(66, 1024).unwrap()).is_some());
}

#[test]
fn horizontal_ray_has_no_horizontal_hit() {
    let m = level();
    assert_eq!(horizontal_search(&m, 150, 400, trig_of(0), &config()), None);
    assert_eq!(horizontal_search(&m, 150, 400, trig_of(180_000), &config()), None);
    assert_eq!(horizontal_search(&m, 150, 400, Trig { cos: 65536, sin: -66 }, &config()), None);
}

#[test]
fn axis_aligned_rays_hit_the_expected_walls() {
    let m = level();
    let c = config();
    assert_eq!(
        cast_ray(&m, 150, 400, trig_of(90_000), &c),
        Some(Hit { dist: 145, x: 150, y: 255, axis: Axis::Horizontal })
    );
    assert_eq!(
        cast_ray(&m, 150, 400, trig_of(270_000), &c),
        Some(Hit { dist: 48, x: 150, y: 448, axis: Axis::Horizontal })
    );
    assert_eq!(
        cast_ray(&m, 150, 400, trig_of(0), &c),
        Some(Hit { dist: 298, x: 448, y: 400, axis: Axis::Vertical })
    );
    assert_eq!(
        cast_ray(&m, 150, 400, trig_of(180_000), &c),
        Some(Hit { dist: 87, x: 63, y: 400, axis: Axis::Vertical })
    );
}

#[test]
fn diagonal_ray_in_an_open_hall() {
    let m = hall();
    let c = config();
    let t = trig_of(45_000);
    assert_eq!(t, Trig { cos: 46341, sin: 46341 });
    let v = vertical_search(&m, 224, 224, t, &c).unwrap();
    let h = horizontal_search(&m, 224, 224, t, &c).unwrap();
    assert_eq!(v, Hit { dist: 316, x: 448, y: 0, axis: Axis::Vertical });
    assert_eq!(h, Hit { dist: 227, x: 385, y: 63, axis: Axis::Horizontal });
    assert_eq!(cast_ray(&m, 224, 224, t, &c), Some(h));
    // the top wall is 160 units up, so the ray is 160 * sqrt(2) long
    let exact = 160.0f64 * 2.0f64.sqrt();
    assert!(((h.dist as f64) - exact).abs() <= 2.0);
}

#[test]
fn rays_from_inside_a_hall_always_hit() {
    // 256 units to one length of the hall, so that the one unit by which a
    // backward search starts before the grid line is small.
    let fine: i64 = 256;
    let mut rows: Vec<Vec<bool>> = vec![vec![false; 8]; 8];
    for i in 0..8 {
        rows[0][i] = true;
        rows[7][i] = true;
        rows[i][0] = true;
        rows[i][7] = true;
    }
    let m = GridMap::from_rows(&rows, 64 * fine).unwrap();
    let c = RayConfig::for_map(&m, 66).unwrap();
    let mut angle: i64 = 1_000;
    while angle < 360_000 {
        if angle % 90_000 != 0 {
            let t = trig_of(angle);
            for (px, py) in [(100i64, 100i64), (224, 224), (300, 420), (447, 65)] {
                let v = vertical_search(&m, px * fine, py * fine, t, &c).unwrap();
                let h = horizontal_search(&m, px * fine, py * fine, t, &c).unwrap();
                let r = cast_ray(&m, px * fine, py * fine, t, &c).unwrap();
                assert_eq!(r.dist, v.dist.min(h.dist));
                // the ray stops at a bounding wall
                let (col, row) = m.cell_of(r.x, r.y);
                assert!(col <= 0 || col >= 7 || row <= 0 || row >= 7);
                // distance to the bounding walls along the ray
                let rad = (angle as f64) * std::f64::consts::PI / 180_000.0;
                let to_x = if rad.cos() > 0.0 { (448 - px) as f64 / rad.cos() } else { (64 - px) as f64 / rad.cos() };
                let to_y = if rad.sin() > 0.0 { (py - 64) as f64 / rad.sin() } else { (py - 448) as f64 / rad.sin() };
                let exact = to_x.min(to_y);
                let found = (r.dist as f64) / (fine as f64);
                assert!((found - exact).abs() <= 1.0 + exact / 100.0, "{} {} {} {} {}", angle, px, py, found, exact);
            }
        }
        angle += 7_000;
    }
}

#[test]
fn step_bound_cuts_a_search_short() {
    let m = level();
    let short = RayConfig::new(66, 2).unwrap();
    assert_eq!(cast_ray(&m, 150, 400, trig_of(90_000), &short), None);
    let none = RayConfig::new(66, 0).unwrap();
    assert_eq!(cast_ray(&m, 150, 400, trig_of(45_000), &none), None);
}

#[test]
fn nearer_hit_wins_and_ties_go_horizontal() {
    let v = Hit { dist: 10, x: 1, y: 2, axis: Axis::Vertical };
    let h = Hit { dist: 10, x: 3, y: 4, axis: Axis::Horizontal };
    assert_eq!(select_nearer(Some(v), Some(h)), Some(h));
    let nearer = Hit { dist: 9, x: 1, y: 2, axis: Axis::Vertical };
    assert_eq!(select_nearer(Some(nearer), Some(h)), Some(nearer));
    let farther = Hit { dist: 11, x: 1, y: 2, axis: Axis::Vertical };
    assert_eq!(select_nearer(Some(farther), Some(h)), Some(h));
    assert_eq!(select_nearer(Some(v), None), Some(v));
    assert_eq!(select_nearer(None, Some(h)), Some(h));
    assert_eq!(select_nearer(None, None), None);
}

#[test]
fn sweep_config_limits() {
    assert_eq!(SweepConfig::new(60_000, 60), Some(SweepConfig { fov: 60_000, samples: 60 }));
    assert_eq!(SweepConfig::new(60_000, 0), None);
    assert_eq!(SweepConfig::new(-1, 60), None);
    assert_eq!(SweepConfig::new(360_001, 60), None);
    assert_eq!(SweepConfig::new(60_000, 65537), None);
}

#[test]
fn sample_angles_run_from_left_to_right() {
    let sc = SweepConfig::new(60_000, 60).unwrap();
    let angles = sc.sample_angles(90_000);
    assert_eq!(angles.len(), 60);
    assert_eq!(angles[0], 120_000);
    assert_eq!(angles[1], 119_000);
    assert_eq!(angles[30], 90_000);
    assert_eq!(angles[59], 61_000);
    for i in 0..60 {
        assert_eq!(sc.sample_angle(90_000, i), angles[i]);
    }
    // wraps around zero
    let wrapped = sc.sample_angles(10_000);
    assert_eq!(wrapped[0], 40_000);
    assert_eq!(wrapped[59], 341_000);
    // a step that is no whole number of units
    let odd = SweepConfig::new(10, 3).unwrap();
    assert_eq!(odd.sample_angles(100), vec![105, 102, 99]);
}

#[test]
fn check_trigs_finds_a_bad_direction() {
    assert!(check_trigs(&vec![]));
    assert!(check_trigs(&vec![trig_of(0), trig_of(90_000)]));
    assert!(!check_trigs(&vec![trig_of(0), Trig { cos: 0, sin: 65537 }]));
    assert!(!check_trigs(&vec![Trig { cos: -65537, sin: 0 }, trig_of(0)]));
}

#[test]
fn full_sweep_of_the_level() {
    let m = level();
    let rc = RayConfig::for_map(&m, 66).unwrap();
    assert_eq!(rc.max_steps, 8);
    let sc = SweepConfig::new(60_000, 60).unwrap();
    let trigs: Vec<Trig> = sc.sample_angles(90_000).iter().map(|a| trig_of(*a)).collect();
    assert!(check_trigs(&trigs));
    let columns = sweep(&m, 150, 400, 90_000, &sc, &rc, &trigs);
    assert_eq!(columns.len(), 60);
    let proj = Projector::new(64, 320).unwrap();
    for (i, col) in columns.iter().enumerate() {
        // neither search takes as many steps as the bound
        let t = trigs[i];
        if t.cos.abs() > rc.eps {
            let (x0, y0, xo, yo) = axis_probe(150, 400, 64, t.sin, t.cos, t.cos < 0);
            assert!(march(&m, x0, y0, xo, yo, rc.max_steps).unwrap().steps < rc.max_steps);
        }
        if t.sin.abs() > rc.eps {
            let (y0, x0, yo, xo) = axis_probe(400, 150, 64, t.cos, t.sin, t.sin > 0);
            assert!(march(&m, x0, y0, xo, yo, rc.max_steps).unwrap().steps < rc.max_steps);
        }
        assert_eq!(col.angle, 120_000 - 1_000 * (i as i64));
        assert_eq!(col.hit, cast_ray(&m, 150, 400, trigs[i], &rc));
        let hit = col.hit.unwrap();
        assert!(hit.dist > 0 && hit.dist < 600);
        let h = proj.height_for(hit.dist);
        assert!(0 <= h && h <= 320);
        assert!(h >= proj.height_for(hit.dist + 1));
        assert_eq!(proj.column_height(col.hit), h);
    }
    assert_eq!(columns[30].hit, Some(Hit { dist: 145, x: 150, y: 255, axis: Axis::Horizontal }));
    assert_eq!(proj.column_height(columns[30].hit), 141);
}

#[test]
fn hits_lie_on_the_ray_up_to_rounding() {
    let m = level();
    let rc = RayConfig::for_map(&m, 66).unwrap();
    let steps = rc.max_steps as i128;
    let mut angle: i64 = 500;
    while angle < 360_000 {
        let t = trig_of(angle);
        let (c, s) = (t.cos as i128, t.sin as i128);
        for (px, py) in [(150i64, 400i64), (96, 96), (300, 250), (420, 100)] {
            let found = [
                (vertical_search(&m, px, py, t, &rc), c.abs()),
                (horizontal_search(&m, px, py, t, &rc), s.abs()),
            ];
            for (hit, den) in found {
                if let Some(h) = hit {
                    let ax = (h.x - px) as i128;
                    let ay = (h.y - py) as i128;
                    let off = c * ay + s * ax;
                    assert!(off.abs() <= steps * den);
                    let raw = c * ax - s * ay;
                    let whole = (c * c + s * s) * (ax * ax + ay * ay);
                    assert_eq!(raw * raw + off * off, whole);
                    assert!(raw * raw <= whole);
                    assert!(raw * raw >= whole - (steps * 65536) * (steps * 65536));
                    assert_eq!(h.dist as i128, raw.div_euclid(65536));
                    assert!(h.dist >= 0);
                }
            }
        }
        angle += 1_500;
    }
}
