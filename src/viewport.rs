//! Mapping window positions and visible grid cells onto the plane.
use crate::cells::LiveCellSet;
use crate::codec::encode_coord;
use crate::engine::{live_at, on_plane};
use vstd::prelude::*;

verus! {

/// The side of one cell, in pixels.
pub const CELL_SIZE: i64 = 16;

/// The width of the visible board, in pixels.
pub const BOARD_WIDTH: usize = 1024;

/// The height of the visible board, in pixels.
pub const BOARD_HEIGHT: usize = 512;

/// The two colours a visible cell can have.
#[derive(PartialEq, Eq, Structural, Clone, Copy, Debug)]
pub enum CellColor {
    Live,
    Dead,
}

/// The world coordinate under the window position `(px, py)`: the visible
/// cell that holds it, taken modulo the grid of `cols × rows` cells, shifted
/// by the scroll offset. `None` where a position is negative, the grid is
/// empty, or the coordinate lies off the plane.
pub open spec fn window_to_world_spec(px: int, py: int, cols: int, rows: int, scroll_x: int, scroll_y: int) -> Option<(int, int)> {
    if 0 <= px && 0 <= py && cols > 0 && rows > 0 {
        let column = (px / CELL_SIZE as int) % cols;
        let row = (py / CELL_SIZE as int) % rows;
        if on_plane(scroll_x + column, scroll_y + row) {
            Some((scroll_x + column, scroll_y + row))
        } else {
            None
        }
    } else {
        None
    }
}

/// `index` modulo `n`.
fn reduce(index: i64, n: usize) -> (r: i64)
    requires
        index >= 0,
        n > 0,
    ensures
        r == (index as int) % (n as int),
        0 <= r <= index,
{
    let m = index as u64 % n as u64;
    assert(m <= index && m == (index as int) % (n as int)) by (nonlinear_arith)
        requires
            index >= 0,
            n > 0,
            m == (index as u64) % (n as u64),
    ;
    m as i64
}

/// The world coordinate under the window position `(px, py)`.
pub fn calculate_position(px: i64, py: i64, cols: usize, rows: usize, scroll_x: i32, scroll_y: i32) -> (r: Option<(i32, i32)>)
    ensures
        r matches Some(c) ==> window_to_world_spec(px as int, py as int, cols as int, rows as int, scroll_x as int, scroll_y as int) == Some((c.0 as int, c.1 as int)),
        r is None ==> window_to_world_spec(px as int, py as int, cols as int, rows as int, scroll_x as int, scroll_y as int) is None,
{
    if px < 0 || py < 0 || cols == 0 || rows == 0 {
        return None;
    }
    let column = reduce(px / CELL_SIZE, cols);
    let row = reduce(py / CELL_SIZE, rows);
    let x = scroll_x as i64 + column;
    let y = scroll_y as i64 + row;
    if x < i32::MIN as i64 || x > i32::MAX as i64 || y < i32::MIN as i64 || y > i32::MAX as i64 {
        return None;
    }
    Some((x as i32, y as i32))
}

/// The colour of the visible cell at `(column, row)` under the scroll
/// offset: `Live` exactly when that world cell is live.
pub fn color_at(column: usize, row: usize, scroll_x: i32, scroll_y: i32, cells: &LiveCellSet) -> (r: CellColor)
    ensures
        r == CellColor::Live <==> live_at(cells@, column + scroll_x, row + scroll_y),
        r == CellColor::Live || r == CellColor::Dead,
{
    if column > u32::MAX as usize || row > u32::MAX as usize {
        return CellColor::Dead;
    }
    let x = column as i64 + scroll_x as i64;
    let y = row as i64 + scroll_y as i64;
    if x < i32::MIN as i64 || x > i32::MAX as i64 || y < i32::MIN as i64 || y > i32::MAX as i64 {
        return CellColor::Dead;
    }
    if cells.contains(encode_coord(x as i32, y as i32)) {
        CellColor::Live
    } else {
        CellColor::Dead
    }
}

} // verus!
