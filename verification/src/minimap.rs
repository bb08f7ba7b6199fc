use vstd::prelude::*;
use crate::fixed::{
    floor_div, lemma_floor_div_bound, lemma_product_bound, lemma_quotient_bound, magnitude,
};
use crate::frame::{Color, DrawCommand};
use crate::grid::{flat_index, lemma_flat_index, GridMap};
use crate::player::{component, PlayerState};
use crate::raycast::Hit;

verus! {

/// Half the side of the square that marks the viewer, in pixels.
pub const MARKER_HALF: i64 = 4;

/// The length of the line that shows the heading, in pixels.
pub const POINTER_LENGTH: i64 = 20;

/// The side of one cell seen from above, at `scale` length units to the
/// pixel.
pub open spec fn cell_side(map: GridMap, scale: int) -> int {
    (map.cell as int) / scale
}

/// The square of the cell in column `col` of row `row`, seen from above:
/// inset by one pixel on every side, in `wall` where the cell is solid and
/// in `floor` where it is not.
pub open spec fn cell_rect_spec(
    map: GridMap,
    scale: int,
    col: int,
    row: int,
    wall: Color,
    floor: Color,
) -> DrawCommand {
    DrawCommand::FillRect {
        x: (col * cell_side(map, scale) + 1) as i64,
        y: (row * cell_side(map, scale) + 1) as i64,
        w: (cell_side(map, scale) - 2) as i64,
        h: (cell_side(map, scale) - 2) as i64,
        color: if map.solid(col, row) {
            wall
        } else {
            floor
        },
    }
}

/// The square of one cell of the map.
pub fn cell_rect(map: &GridMap, scale: i64, col: usize, row: usize, wall: Color, floor: Color) -> (c:
    DrawCommand)
    requires
        map.wf(),
        scale >= 1,
        col < map.width,
        row < map.height,
    ensures
        c == cell_rect_spec(*map, scale as int, col as int, row as int, wall, floor),
{
    proof {
        lemma_floor_div_bound(map.cell as int, scale as int, 0x10_0000);
        lemma_product_bound(col as int, (map.cell as int) / (scale as int), 1024, 0x10_0000);
        lemma_product_bound(row as int, (map.cell as int) / (scale as int), 1024, 0x10_0000);
    }
    let side: i64 = floor_div(map.cell as i128, scale as i128) as i64;
    let x: i64 = (col as i64) * side + 1;
    let y: i64 = (row as i64) * side + 1;
    let color: Color = if map.is_solid(col as i64, row as i64) { wall } else { floor };
    DrawCommand::FillRect { x, y, w: side - 2, h: side - 2, color }
}

/// The squares of all cells, row by row.
pub fn map_rects(map: &GridMap, scale: i64, wall: Color, floor: Color) -> (out: Vec<DrawCommand>)
    requires
        map.wf(),
        scale >= 1,
    ensures
        out@.len() == map.width * map.height,
        forall|row: int, col: int|
            0 <= row < map.height && 0 <= col < map.width ==> out@[#[trigger] flat_index(
                map.width as int,
                col,
                row,
            )] == cell_rect_spec(*map, scale as int, col, row, wall, floor),
{
    let width: usize = map.width;
    let height: usize = map.height;
    let mut out: Vec<DrawCommand> = Vec::new();
    let mut row: usize = 0;
    while row < height
        invariant
            map.wf(),
            scale >= 1,
            width == map.width,
            height == map.height,
            row <= height,
            out@.len() == row * width,
            forall|i: int, j: int|
                0 <= i < row && 0 <= j < width ==> out@[#[trigger] flat_index(width as int, j, i)]
                    == cell_rect_spec(*map, scale as int, j, i, wall, floor),
        decreases height - row,
    {
        let mut col: usize = 0;
        while col < width
            invariant
                map.wf(),
                scale >= 1,
                width == map.width,
                height == map.height,
                row < height,
                col <= width,
                out@.len() == row * width + col,
                forall|i: int, j: int|
                    0 <= i < row && 0 <= j < width ==> out@[#[trigger] flat_index(width as int, j, i)]
                        == cell_rect_spec(*map, scale as int, j, i, wall, floor),
                forall|j: int|
                    0 <= j < col ==> out@[#[trigger] flat_index(width as int, j, row as int)]
                        == cell_rect_spec(*map, scale as int, j, row as int, wall, floor),
            decreases width - col,
        {
            let ghost before = out@;
            let c: DrawCommand = cell_rect(map, scale, col, row, wall, floor);
            out.push(c);
            proof {
                assert forall|i: int, j: int| 0 <= i < row && 0 <= j < width implies out@[#[trigger] flat_index(
                    width as int,
                    j,
                    i,
                )] == cell_rect_spec(*map, scale as int, j, i, wall, floor) by {
                    lemma_flat_index(width as int, row as int, j, i);
                    assert(out@[flat_index(width as int, j, i)] == before[flat_index(width as int, j, i)]);
                }
                assert forall|j: int| 0 <= j < col + 1 implies out@[#[trigger] flat_index(
                    width as int,
                    j,
                    row as int,
                )] == cell_rect_spec(*map, scale as int, j, row as int, wall, floor) by {
                    if j < col {
                        assert(out@[flat_index(width as int, j, row as int)] == before[flat_index(
                            width as int,
                            j,
                            row as int,
                        )]);
                    }
                }
            }
            col = col + 1;
        }
        proof {
            assert((row + 1) * width == row * width + width) by (nonlinear_arith);
        }
        row = row + 1;
    }
    proof {
        assert(height * width == width * height) by (nonlinear_arith);
    }
    out
}

/// The mark of the viewer seen from above: a square around the position,
/// and a line from the position along the heading.
pub fn player_marker(player: &PlayerState, scale: i64, color: Color) -> (r: (DrawCommand, DrawCommand))
    requires
        player.wf(),
        scale >= 1,
    ensures
        r.0 == (DrawCommand::FillRect {
            x: ((player.x as int) / (scale as int) - MARKER_HALF) as i64,
            y: ((player.y as int) / (scale as int) - MARKER_HALF) as i64,
            w: (2 * MARKER_HALF) as i64,
            h: (2 * MARKER_HALF) as i64,
            color,
        }),
        r.1 == (DrawCommand::DrawLine {
            x0: ((player.x as int) / (scale as int)) as i64,
            y0: ((player.y as int) / (scale as int)) as i64,
            x1: ((player.x as int) / (scale as int) + component(player.dx as int, POINTER_LENGTH as int)) as i64,
            y1: ((player.y as int) / (scale as int) + component(player.dy as int, POINTER_LENGTH as int)) as i64,
            color,
        }),
{
    proof {
        lemma_product_bound(player.dx as int, 20, 65536, 20);
        lemma_product_bound(player.dy as int, 20, 65536, 20);
        lemma_quotient_bound(player.dx * 20, 65536, 20);
        lemma_quotient_bound(player.dy * 20, 65536, 20);
        lemma_floor_div_bound(player.x as int, scale as int, 0x8000_0000);
        lemma_floor_div_bound(player.y as int, scale as int, 0x8000_0000);
    }
    let x: i64 = floor_div(player.x as i128, scale as i128) as i64;
    let y: i64 = floor_div(player.y as i128, scale as i128) as i64;
    let ex: i64 = floor_div((player.dx as i128) * (POINTER_LENGTH as i128), 65536) as i64;
    let ey: i64 = floor_div((player.dy as i128) * (POINTER_LENGTH as i128), 65536) as i64;
    (
        DrawCommand::FillRect {
            x: x - MARKER_HALF,
            y: y - MARKER_HALF,
            w: 2 * MARKER_HALF,
            h: 2 * MARKER_HALF,
            color,
        },
        DrawCommand::DrawLine { x0: x, y0: y, x1: x + ex, y1: y + ey, color },
    )
}

/// The line from the viewer to where a ray stopped, seen from above.
pub fn ray_line(player: &PlayerState, hit: &Hit, scale: i64, color: Color) -> (c: DrawCommand)
    requires
        scale >= 1,
    ensures
        c == (DrawCommand::DrawLine {
            x0: ((player.x as int) / (scale as int)) as i64,
            y0: ((player.y as int) / (scale as int)) as i64,
            x1: ((hit.x as int) / (scale as int)) as i64,
            y1: ((hit.y as int) / (scale as int)) as i64,
            color,
        }),
{
    proof {
        lemma_floor_div_bound(player.x as int, scale as int, magnitude(player.x as int));
        lemma_floor_div_bound(player.y as int, scale as int, magnitude(player.y as int));
        lemma_floor_div_bound(hit.x as int, scale as int, magnitude(hit.x as int));
        lemma_floor_div_bound(hit.y as int, scale as int, magnitude(hit.y as int));
    }
    DrawCommand::DrawLine {
        x0: floor_div(player.x as i128, scale as i128) as i64,
        y0: floor_div(player.y as i128, scale as i128) as i64,
        x1: floor_div(hit.x as i128, scale as i128) as i64,
        y1: floor_div(hit.y as i128, scale as i128) as i64,
        color,
    }
}

} // verus!
