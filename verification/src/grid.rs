use vstd::prelude::*;
use crate::fixed::{floor_div, lemma_floor_div_bound, magnitude};

verus! {

/// Largest number of columns or of rows of a map.
pub const DIM_MAX: usize = 1024;

/// Largest side length of a cell.
pub const CELL_MAX: i64 = 0x10_0000;

/// Why a map was refused.
#[derive(Clone, Copy, Debug, PartialEq, Eq, Structural)]
pub enum MapError {
    /// No columns or no rows.
    ZeroDimension,
    /// More than `DIM_MAX` columns or rows.
    TooLarge,
    /// The cell side is not in `1..=CELL_MAX`.
    BadCellSize,
    /// The cells do not fill a rectangle of the given size.
    NotRectangular,
}

/// An immutable occupancy grid of square cells, row by row.
#[derive(Clone, Debug)]
pub struct GridMap {
    pub width: usize,
    pub height: usize,
    pub cell: i64,
    pub cells: Vec<bool>,
}

/// The error, if any, with which a map of these measures is refused.
pub open spec fn map_error(width: int, height: int, cell: int, len: int) -> Option<MapError> {
    if width == 0 || height == 0 {
        Some(MapError::ZeroDimension)
    } else if width > DIM_MAX || height > DIM_MAX {
        Some(MapError::TooLarge)
    } else if cell < 1 || cell > CELL_MAX {
        Some(MapError::BadCellSize)
    } else if len != width * height {
        Some(MapError::NotRectangular)
    } else {
        None
    }
}

/// All rows of `rows` have the length of the first.
pub open spec fn rectangular(rows: Seq<Vec<bool>>) -> bool {
    forall|r: int| 0 <= r < rows.len() ==> (#[trigger] rows[r]).len() == rows[0].len()
}

/// The error, if any, with which a map of these rows is refused.
pub open spec fn rows_error(rows: Seq<Vec<bool>>, cell: int) -> Option<MapError> {
    if rows.len() == 0 || rows[0].len() == 0 {
        Some(MapError::ZeroDimension)
    } else if rows[0].len() > DIM_MAX || rows.len() > DIM_MAX {
        Some(MapError::TooLarge)
    } else if cell < 1 || cell > CELL_MAX {
        Some(MapError::BadCellSize)
    } else if !rectangular(rows) {
        Some(MapError::NotRectangular)
    } else {
        None
    }
}

/// The place of column `col` of row `row` in a row-major vector of rows of
/// `width` cells.
pub open spec fn flat_index(width: int, col: int, row: int) -> int {
    row * width + col
}

/// Cells of different places have different flat indices, in row-major
/// order, and all lie below `width * height`.
pub proof fn lemma_flat_index(width: int, height: int, col: int, row: int)
    requires
        0 <= col < width,
        0 <= row < height,
    ensures
        row * width <= flat_index(width, col, row) < (row + 1) * width,
        (row + 1) * width <= height * width,
        (row + 1) * width == row * width + width,
{
    assert((row + 1) * width <= height * width && (row + 1) * width == row * width + width) by (nonlinear_arith)
        requires
            0 <= row < height,
            0 < width,
    ;
}

impl GridMap {
    /// The measures are within their limits and the cells fill the rectangle.
    pub open spec fn wf(&self) -> bool {
        &&& 1 <= self.width <= DIM_MAX
        &&& 1 <= self.height <= DIM_MAX
        &&& 1 <= self.cell <= CELL_MAX
        &&& self.cells@.len() == self.width * self.height
    }

    /// Whether the cell in column `col` of row `row` stops a ray. Every cell
    /// outside the map does.
    pub open spec fn solid(&self, col: int, row: int) -> bool {
        if 0 <= col < self.width && 0 <= row < self.height {
            self.cells@[flat_index(self.width as int, col, row)]
        } else {
            true
        }
    }

    /// Column and row of the cell that holds the point `(x, y)`.
    pub open spec fn cell_at(&self, x: int, y: int) -> (int, int) {
        (x / (self.cell as int), y / (self.cell as int))
    }

    /// Whether the point `(x, y)` lies in a cell that stops a ray.
    pub open spec fn solid_point(&self, x: int, y: int) -> bool {
        self.solid(x / (self.cell as int), y / (self.cell as int))
    }

    /// Builds a map from its cells in row-major order.
    pub fn new(width: usize, height: usize, cell: i64, cells: Vec<bool>) -> (r: Result<GridMap, MapError>)
        ensures
            match r {
                Ok(m) => {
                    &&& map_error(width as int, height as int, cell as int, cells@.len() as int).is_none()
                    &&& m.wf()
                    &&& m.width == width
                    &&& m.height == height
                    &&& m.cell == cell
                    &&& m.cells@ == cells@
                },
                Err(e) => map_error(width as int, height as int, cell as int, cells@.len() as int) == Some(e),
            },
    {
        if width == 0 || height == 0 {
            return Err(MapError::ZeroDimension);
        }
        if width > DIM_MAX || height > DIM_MAX {
            return Err(MapError::TooLarge);
        }
        if cell < 1 || cell > CELL_MAX {
            return Err(MapError::BadCellSize);
        }
        assert(width * height <= DIM_MAX * DIM_MAX) by (nonlinear_arith)
            requires
                width <= DIM_MAX,
                height <= DIM_MAX,
        ;
        if cells.len() != width * height {
            return Err(MapError::NotRectangular);
        }
        Ok(GridMap { width, height, cell, cells })
    }

    /// Builds a map from its rows, top row first.
    pub fn from_rows(rows: &Vec<Vec<bool>>, cell: i64) -> (r: Result<GridMap, MapError>)
        ensures
            match r {
                Ok(m) => {
                    &&& rows_error(rows@, cell as int).is_none()
                    &&& m.wf()
                    &&& m.width == rows@[0]@.len()
                    &&& m.height == rows@.len()
                    &&& m.cell == cell
                    &&& forall|row: int, col: int|
                        0 <= row < m.height && 0 <= col < m.width ==> m.cells@[#[trigger] flat_index(
                            m.width as int,
                            col,
                            row,
                        )] == rows@[row]@[col]
                },
                Err(e) => rows_error(rows@, cell as int) == Some(e),
            },
    {
        if rows.len() == 0 || rows[0].len() == 0 {
            return Err(MapError::ZeroDimension);
        }
        let width: usize = rows[0].len();
        let height: usize = rows.len();
        if width > DIM_MAX || height > DIM_MAX {
            return Err(MapError::TooLarge);
        }
        if cell < 1 || cell > CELL_MAX {
            return Err(MapError::BadCellSize);
        }
        let mut cells: Vec<bool> = Vec::new();
        let mut row: usize = 0;
        while row < height
            invariant
                1 <= width <= DIM_MAX,
                1 <= height <= DIM_MAX,
                1 <= cell <= CELL_MAX,
                height == rows@.len(),
                width == rows@[0]@.len(),
                row <= height,
                cells@.len() == row * width,
                forall|i: int| 0 <= i < row ==> (#[trigger] rows@[i]).len() == width,
                forall|i: int, j: int|
                    0 <= i < row && 0 <= j < width ==> cells@[#[trigger] flat_index(width as int, j, i)]
                        == rows@[i]@[j],
            decreases height - row,
        {
            if rows[row].len() != width {
                assert(rows@[row as int].len() != rows@[0].len());
                return Err(MapError::NotRectangular);
            }
            let mut col: usize = 0;
            while col < width
                invariant
                    1 <= width <= DIM_MAX,
                    height == rows@.len(),
                    row < height,
                    rows@[row as int]@.len() == width,
                    col <= width,
                    cells@.len() == row * width + col,
                    forall|i: int, j: int|
                        0 <= i < row && 0 <= j < width ==> cells@[#[trigger] flat_index(
                            width as int,
                            j,
                            i,
                        )] == rows@[i]@[j],
                    forall|j: int|
                        0 <= j < col ==> cells@[#[trigger] flat_index(width as int, j, row as int)]
                            == rows@[row as int]@[j],
                decreases width - col,
            {
                let ghost before = cells@;
                cells.push(rows[row][col]);
                proof {
                    assert forall|i: int, j: int| 0 <= i < row && 0 <= j < width implies cells@[#[trigger] flat_index(
                        width as int,
                        j,
                        i,
                    )] == rows@[i]@[j] by {
                        lemma_flat_index(width as int, row as int, j, i);
                        assert(cells@[flat_index(width as int, j, i)] == before[flat_index(width as int, j, i)]);
                    }
                    assert forall|j: int| 0 <= j < col + 1 implies cells@[#[trigger] flat_index(
                        width as int,
                        j,
                        row as int,
                    )] == rows@[row as int]@[j] by {
                        if j < col {
                            assert(cells@[flat_index(width as int, j, row as int)] == before[flat_index(
                                width as int,
                                j,
                                row as int,
                            )]);
                        }
                    }
                }
                col = col + 1;
            }
            proof {
                assert((row + 1) * width == row * width + width) by (nonlinear_arith);
            }
            row = row + 1;
        }
        proof {
            assert(height * width == width * height) by (nonlinear_arith);
            assert(rectangular(rows@));
        }
        GridMap::new(width, height, cell, cells)
    }

    /// `true` for a wall and for every cell outside the map.
    pub fn is_solid(&self, col: i64, row: i64) -> (r: bool)
        requires
            self.wf(),
        ensures
            r == self.solid(col as int, row as int),
    {
        if col < 0 || row < 0 || col >= self.width as i64 || row >= self.height as i64 {
            return true;
        }
        let c: usize = col as usize;
        let w: usize = self.width;
        let rw: usize = row as usize;
        assert(rw * w + c < w * self.height) by (nonlinear_arith)
            requires
                0 <= c < w,
                0 <= rw < self.height,
        ;
        assert(w * self.height <= DIM_MAX * DIM_MAX) by (nonlinear_arith)
            requires
                w <= DIM_MAX,
                self.height <= DIM_MAX,
        ;
        self.cells[rw * w + c]
    }

    /// Column and row of the cell that holds `(x, y)`, rounding down, so that
    /// points left of or above the map get negative indices.
    pub fn cell_of(&self, x: i64, y: i64) -> (r: (i64, i64))
        requires
            self.wf(),
        ensures
            r.0 == self.cell_at(x as int, y as int).0,
            r.1 == self.cell_at(x as int, y as int).1,
    {
        proof {
            lemma_floor_div_bound(x as int, self.cell as int, magnitude(x as int));
            lemma_floor_div_bound(y as int, self.cell as int, magnitude(y as int));
        }
        let col: i128 = floor_div(x as i128, self.cell as i128);
        let row: i128 = floor_div(y as i128, self.cell as i128);
        (col as i64, row as i64)
    }

    /// Whether the point `(x, y)` lies in a wall or outside the map.
    pub fn is_solid_at(&self, x: i64, y: i64) -> (r: bool)
        requires
            self.wf(),
        ensures
            r == self.solid_point(x as int, y as int),
    {
        let (col, row) = self.cell_of(x, y);
        self.is_solid(col, row)
    }
}

} // verus!
