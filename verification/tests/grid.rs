use raycaster::fixed::{floor_div, is_near_unit, scale, Trig, TRIG_ONE};
use raycaster::grid::{GridMap, MapError, CELL_MAX, DIM_MAX};

fn level() -> GridMap {
    let cells: Vec<bool> = [
        1, 1, 1, 1, 1, 1, 1, 1, //
        1, 0, 1, 0, 0, 0, 0, 1, //
        1, 0, 1, 0, 0, 0, 0, 1, //
        1, 0, 1, 0, 0, 0, 0, 1, //
        1, 0, 0, 0, 0, 0, 0, 1, //
        1, 0, 0, 0, 0, 1, 0, 1, //
        1, 0, 0, 0, 0, 0, 0, 1, //
        1, 1, 1, 1, 1, 1, 1, 1,
    ]
    .iter()
    .map(|c| *c == 1)
    .collect();
    GridMap::new(8, 8, 64, cells).unwrap()
}

#[test]
fn new_keeps_measures_and_cells() {
    let m = level();
    assert_eq!(m.width, 8);
    assert_eq!(m.height, 8);
    assert_eq!(m.cell, 64);
    assert_eq!(m.cells.len(), 64);
}

#[test]
fn new_refuses_zero_dimensions() {
    assert_eq!(GridMap::new(0, 3, 64, vec![]).unwrap_err(), MapError::ZeroDimension);
    assert_eq!(GridMap::new(3, 0, 64, vec![]).unwrap_err(), MapError::ZeroDimension);
}

#[test]
fn new_refuses_too_many_cells() {
    assert_eq!(GridMap::new(DIM_MAX + 1, 1, 64, vec![]).unwrap_err(), MapError::TooLarge);
    assert_eq!(GridMap::new(1, DIM_MAX + 1, 64, vec![]).unwrap_err(), MapError::TooLarge);
}

#[test]
fn new_refuses_bad_cell_side() {
    assert_eq!(GridMap::new(1, 1, 0, vec![true]).unwrap_err(), MapError::BadCellSize);
    assert_eq!(GridMap::new(1, 1, -64, vec![true]).unwrap_err(), MapError::BadCellSize);
    assert_eq!(GridMap::new(1, 1, CELL_MAX + 1, vec![true]).unwrap_err(), MapError::BadCellSize);
    assert!(GridMap::new(1, 1, CELL_MAX, vec![true]).is_ok());
}

#[test]
fn new_refuses_wrong_length() {
    assert_eq!(GridMap::new(2, 2, 64, vec![true; 3]).unwrap_err(), MapError::NotRectangular);
    assert_eq!(GridMap::new(2, 2, 64, vec![true; 5]).unwrap_err(), MapError::NotRectangular);
}

#[test]
fn new_reports_errors_in_order() {
    assert_eq!(GridMap::new(0, DIM_MAX + 1, 0, vec![]).unwrap_err(), MapError::ZeroDimension);
    assert_eq!(GridMap::new(DIM_MAX + 1, 1, 0, vec![]).unwrap_err(), MapError::TooLarge);
    assert_eq!(GridMap::new(2, 2, 0, vec![]).unwrap_err(), MapError::BadCellSize);
}

#[test]
fn from_rows_flattens_row_by_row() {
    let rows = vec![vec![true, false, true], vec![false, false, true]];
    let m = GridMap::from_rows(&rows, 16).unwrap();
    assert_eq!(m.width, 3);
    assert_eq!(m.height, 2);
    assert_eq!(m.cell, 16);
    assert_eq!(m.cells, vec![true, false, true, false, false, true]);
    assert!(m.is_solid(2, 1));
    assert!(!m.is_solid(1, 1));
}

#[test]
fn from_rows_refuses_ragged_rows() {
    let rows = vec![vec![true, false], vec![true]];
    assert_eq!(GridMap::from_rows(&rows, 16).unwrap_err(), MapError::NotRectangular);
    let rows = vec![vec![true], vec![true, false]];
    assert_eq!(GridMap::from_rows(&rows, 16).unwrap_err(), MapError::NotRectangular);
}

#[test]
fn from_rows_refuses_empty_input() {
    let none: Vec<Vec<bool>> = vec![];
    assert_eq!(GridMap::from_rows(&none, 16).unwrap_err(), MapError::ZeroDimension);
    assert_eq!(GridMap::from_rows(&vec![vec![]], 16).unwrap_err(), MapError::ZeroDimension);
    assert_eq!(GridMap::from_rows(&vec![vec![true]], 0).unwrap_err(), MapError::BadCellSize);
    assert_eq!(
        GridMap::from_rows(&vec![vec![true; DIM_MAX + 1]], 16).unwrap_err(),
        MapError::TooLarge
    );
}

#[test]
fn is_solid_reads_the_cell() {
    let m = level();
    assert!(m.is_solid(0, 0));
    assert!(!m.is_solid(1, 1));
    assert!(m.is_solid(2, 1));
    assert!(!m.is_solid(2, 4));
    assert!(m.is_solid(5, 5));
    assert!(!m.is_solid(6, 6));
    assert!(m.is_solid(7, 7));
}

#[test]
fn is_solid_outside_the_map() {
    let m = level();
    assert!(m.is_solid(-1, 3));
    assert!(m.is_solid(3, -1));
    assert!(m.is_solid(8, 3));
    assert!(m.is_solid(3, 8));
    // A negative column with a flat index that would fall inside the map.
    assert!(m.is_solid(-1, 2));
    assert!(m.is_solid(i64::MIN, i64::MAX));
}

#[test]
fn cell_of_divides_by_the_cell_side() {
    let m = level();
    assert_eq!(m.cell_of(150, 400), (2, 6));
    assert_eq!(m.cell_of(0, 0), (0, 0));
    assert_eq!(m.cell_of(63, 64), (0, 1));
    assert_eq!(m.cell_of(511, 512), (7, 8));
}

#[test]
fn cell_of_rounds_down_below_zero() {
    let m = level();
    assert_eq!(m.cell_of(-1, -64), (-1, -1));
    assert_eq!(m.cell_of(-65, -129), (-2, -3));
    assert_eq!(m.cell_of(i64::MIN, i64::MAX), (i64::MIN / 64, i64::MAX / 64));
}

#[test]
fn is_solid_at_combines_both() {
    let m = level();
    assert!(!m.is_solid_at(150, 400));
    assert!(m.is_solid_at(150, 255));
    assert!(m.is_solid_at(-1, 100));
    assert!(m.is_solid_at(512, 100));
}

#[test]
fn floor_div_rounds_toward_minus_infinity() {
    assert_eq!(floor_div(7, 2), 3);
    assert_eq!(floor_div(-7, 2), -4);
    assert_eq!(floor_div(-8, 2), -4);
    assert_eq!(floor_div(0, 5), 0);
    assert_eq!(floor_div(-1, 65536), -1);
}

#[test]
fn scale_multiplies_then_divides() {
    assert_eq!(scale(64, 65536, 65536), 64);
    assert_eq!(scale(64, 32768, 65536), 32);
    assert_eq!(scale(-32, 46341, 46341), -32);
    assert_eq!(scale(64, 46341, -46341), -64);
    assert_eq!(scale(7, 1, 2), 3);
    assert_eq!(scale(-7, 1, 2), -4);
    assert_eq!(scale(7, 1, -2), -4);
    assert_eq!(scale(7, -1, -2), 3);
}

#[test]
fn trig_accepts_unit_vectors_only() {
    assert_eq!(Trig::new(TRIG_ONE, 0), Some(Trig { cos: TRIG_ONE, sin: 0 }));
    assert_eq!(Trig::new(0, -TRIG_ONE), Some(Trig { cos: 0, sin: -TRIG_ONE }));
    assert_eq!(Trig::new(46341, 46341), Some(Trig { cos: 46341, sin: 46341 }));
    assert_eq!(Trig::new(-56756, 32768), Some(Trig { cos: -56756, sin: 32768 }));
    // rounded down instead of to the nearest
    assert_eq!(Trig::new(46340, 46340), Some(Trig { cos: 46340, sin: 46340 }));
    // out of range
    assert_eq!(Trig::new(TRIG_ONE + 1, 0), None);
    assert_eq!(Trig::new(0, -TRIG_ONE - 1), None);
    assert_eq!(Trig::new(i64::MAX, i64::MIN), None);
    // too short, too long
    assert_eq!(Trig::new(0, 0), None);
    assert_eq!(Trig::new(46000, 46000), None);
    assert_eq!(Trig::new(TRIG_ONE, -TRIG_ONE), None);
    assert_eq!(Trig::new(TRIG_ONE, 627), None);
    assert!(Trig::new(TRIG_ONE, 443).is_some());
}

#[test]
fn near_unit_allows_the_stated_slack() {
    // 65536^2 + b^2 - 65536^2 = b^2 <= 196608 exactly when |b| <= 443
    assert!(is_near_unit(65536, 443));
    assert!(!is_near_unit(65536, 444));
    assert!(is_near_unit(-65536, -443));
    // 65535^2 = 65536^2 - 131071
    assert!(is_near_unit(65535, 0));
    assert!(!is_near_unit(65534, 0));
    for angle in 0..3600 {
        let rad = (angle as f64) * std::f64::consts::PI / 1800.0;
        assert!(is_near_unit((rad.cos() * 65536.0).round() as i64, (rad.sin() * 65536.0).round() as i64));
        assert!(is_near_unit((rad.cos() * 65536.0).trunc() as i64, (rad.sin() * 65536.0).trunc() as i64));
    }
}
