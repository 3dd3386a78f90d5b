//! The simulation aggregate: live cells, viewport, pause flag, and the
//! operations that input and the clock perform on them.
use crate::cells::LiveCellSet;
use crate::codec::{encode_coord, key_spec};
use crate::engine::{find_living, live_at, next_generation};
use crate::viewport::{calculate_position, color_at, window_to_world_spec, CellColor, CELL_SIZE};
use vstd::prelude::*;

verus! {

/// The world coordinate that the visible grid's origin starts at.
pub const START_SCROLL: i32 = 10000;

/// The live cells together with the viewport that shows them.
pub struct Board {
    pub cells: LiveCellSet,
    /// The board's width in pixels.
    pub width: usize,
    /// The board's height in pixels.
    pub height: usize,
    pub num_rows: usize,
    pub num_columns: usize,
    /// While set, ticks leave the cells alone.
    pub pause: bool,
    pub scroll_x: i32,
    pub scroll_y: i32,
    /// While set, scrolling moves the view sideways.
    pub shift_down: bool,
}

/// The keyboard transitions seen since the last update.
#[derive(Clone, Copy, Debug)]
pub struct KeyInput {
    pub shift_released: bool,
    pub shift_pressed: bool,
    pub space_pressed: bool,
    pub escape_pressed: bool,
}

/// Everything but the cells is the same in `a` and `b`.
pub open spec fn same_view(a: &Board, b: &Board) -> bool {
    &&& a.width == b.width
    &&& a.height == b.height
    &&& a.num_rows == b.num_rows
    &&& a.num_columns == b.num_columns
    &&& a.pause == b.pause
    &&& a.scroll_x == b.scroll_x
    &&& a.scroll_y == b.scroll_y
    &&& a.shift_down == b.shift_down
}

/// Whether the window position `(px, py)` lies over the visible grid of `b`.
pub open spec fn over_board(b: &Board, px: int, py: int) -> bool {
    0 <= px && 0 <= py && px / (CELL_SIZE as int) < b.num_columns && py / (CELL_SIZE as int)
        < b.num_rows
}

/// The key of the cell under the window position `(px, py)` of `b`, if the
/// position lies over the visible grid and the cell on the plane.
pub open spec fn target_key(b: &Board, px: int, py: int) -> Option<u64> {
    if !over_board(b, px, py) {
        None
    } else {
        match window_to_world_spec(
        px,
        py,
        b.num_columns as int,
        b.num_rows as int,
        b.scroll_x as int,
        b.scroll_y as int,
    ) {
        Some(c) => Some(key_spec(c.0 as i32, c.1 as i32)),
        None => None,
    }
    }
}

/// The cells of `b` after a pointer update at `pos` with the left and
/// right buttons as given.
pub open spec fn clicked_cells(b: &Board, pos: Option<(i64, i64)>, left: bool, right: bool) -> Set<u64> {
    match pos {
        Some(p) => match target_key(b, p.0 as int, p.1 as int) {
            Some(k) => if left {
                b.cells@.insert(k)
            } else if right {
                b.cells@.remove(k)
            } else {
                b.cells@
            },
            None => b.cells@,
        },
        None => b.cells@,
    }
}

/// A scroll offset moved by `delta`; a move that would leave the `i32`
/// range is dropped.
pub open spec fn scrolled_once(start: int, delta: int) -> int {
    if i32::MIN <= start + delta <= i32::MAX {
        start + delta
    } else {
        start
    }
}

/// A scroll offset moved by each of `deltas` in turn.
pub open spec fn scrolled(start: int, deltas: Seq<i32>) -> int
    decreases deltas.len(),
{
    if deltas.len() == 0 {
        start
    } else {
        scrolled_once(scrolled(start, deltas.drop_last()), deltas.last() as int)
    }
}

impl Board {
    /// A paused, empty board of `width × height` pixels.
    pub fn new(width: usize, height: usize) -> (r: Board)
        ensures
            r.cells@ == Set::<u64>::empty(),
            r.width == width,
            r.height == height,
            r.num_columns == width as int / CELL_SIZE as int,
            r.num_rows == height as int / CELL_SIZE as int,
            r.pause,
            r.scroll_x == START_SCROLL,
            r.scroll_y == START_SCROLL,
            !r.shift_down,
    {
        Board {
            cells: LiveCellSet::new(),
            width,
            height,
            num_columns: width / (CELL_SIZE as usize),
            num_rows: height / (CELL_SIZE as usize),
            pause: true,
            scroll_x: START_SCROLL,
            scroll_y: START_SCROLL,
            shift_down: false,
        }
    }

    /// One clock tick: unless paused, the cells become their next
    /// generation.
    pub fn tick(&mut self)
        ensures
            same_view(final(self), old(self)),
            old(self).pause ==> final(self).cells@ == old(self).cells@,
            !old(self).pause ==> final(self).cells@ == next_generation(old(self).cells@),
    {
        if !self.pause {
            let next = find_living(&self.cells);
            self.cells.replace(next);
        }
    }

    /// The colour of the visible cell at `(column, row)`.
    pub fn get_color_at_coordinates(&self, column: usize, row: usize) -> (r: CellColor)
        ensures
            r == CellColor::Live <==> live_at(
                self.cells@,
                column + self.scroll_x,
                row + self.scroll_y,
            ),
    {
        color_at(column, row, self.scroll_x, self.scroll_y, &self.cells)
    }

    /// Whether the window position `(px, py)` lies over the visible grid.
    pub fn is_over_board(&self, px: i64, py: i64) -> (r: bool)
        ensures
            r == over_board(self, px as int, py as int),
    {
        px >= 0 && py >= 0 && ((px / CELL_SIZE) as u64) < self.num_columns as u64 && ((py
            / CELL_SIZE) as u64) < self.num_rows as u64
    }

    /// Makes the cell under the window position `(px, py)` live; a position
    /// off the visible grid changes nothing.
    pub fn spawn_cell_at_pos(&mut self, px: i64, py: i64)
        ensures
            same_view(final(self), old(self)),
            target_key(old(self), px as int, py as int) matches Some(k) ==> final(self).cells@
                == old(self).cells@.insert(k),
            target_key(old(self), px as int, py as int) is None ==> final(self).cells@ == old(
                self,
            ).cells@,
    {
        if !self.is_over_board(px, py) {
            return;
        }
        if let Some((x, y)) = calculate_position(
            px,
            py,
            self.num_columns,
            self.num_rows,
            self.scroll_x,
            self.scroll_y,
        ) {
            self.cells.insert(encode_coord(x, y));
        }
    }

    /// Makes the cell under the window position `(px, py)` dead; a position
    /// off the visible grid changes nothing.
    pub fn kill_cell_at_pos(&mut self, px: i64, py: i64)
        ensures
            same_view(final(self), old(self)),
            target_key(old(self), px as int, py as int) matches Some(k) ==> final(self).cells@
                == old(self).cells@.remove(k),
            target_key(old(self), px as int, py as int) is None ==> final(self).cells@ == old(
                self,
            ).cells@,
    {
        if !self.is_over_board(px, py) {
            return;
        }
        if let Some((x, y)) = calculate_position(
            px,
            py,
            self.num_columns,
            self.num_rows,
            self.scroll_x,
            self.scroll_y,
        ) {
            self.cells.remove(encode_coord(x, y));
        }
    }

    /// A pointer update: with `pos` over the board, the left button spawns
    /// the cell there and otherwise the right button kills it.
    pub fn handle_click(&mut self, pos: Option<(i64, i64)>, left: bool, right: bool)
        ensures
            same_view(final(self), old(self)),
            final(self).cells@ == clicked_cells(old(self), pos, left, right),
    {
        if let Some((px, py)) = pos {
            if left {
                self.spawn_cell_at_pos(px, py);
            } else if right {
                self.kill_cell_at_pos(px, py);
            }
        }
    }

    /// Moves the view by `delta` lines: sideways while shift is held,
    /// vertically otherwise. A move past the `i32` range is dropped.
    pub fn scroll(&mut self, delta: i32)
        ensures
            final(self).cells@ == old(self).cells@,
            final(self).width == old(self).width,
            final(self).height == old(self).height,
            final(self).num_rows == old(self).num_rows,
            final(self).num_columns == old(self).num_columns,
            final(self).pause == old(self).pause,
            final(self).shift_down == old(self).shift_down,
            old(self).shift_down ==> final(self).scroll_x == scrolled_once(old(self).scroll_x as int, delta as int)
                && final(self).scroll_y == old(self).scroll_y,
            !old(self).shift_down ==> final(self).scroll_y == scrolled_once(old(self).scroll_y as int, delta as int)
                && final(self).scroll_x == old(self).scroll_x,
    {
        if self.shift_down {
            if let Some(x) = self.scroll_x.checked_add(delta) {
                self.scroll_x = x;
            }
        } else {
            if let Some(y) = self.scroll_y.checked_add(delta) {
                self.scroll_y = y;
            }
        }
    }

    /// A keyboard update: shift release then press set the scroll axis,
    /// space toggles the pause, escape kills every cell, then each line of
    /// wheel movement scrolls along the axis.
    pub fn handle_keys(&mut self, keys: KeyInput, line_scrolls: &Vec<i32>)
        ensures
            ({
                let shift = if keys.shift_pressed {
                    true
                } else if keys.shift_released {
                    false
                } else {
                    old(self).shift_down
                };
                &&& final(self).shift_down == shift
                &&& final(self).pause == (old(self).pause != keys.space_pressed)
                &&& keys.escape_pressed ==> final(self).cells@ == Set::<u64>::empty()
                &&& !keys.escape_pressed ==> final(self).cells@ == old(self).cells@
                &&& shift ==> final(self).scroll_x == scrolled(old(self).scroll_x as int, line_scrolls@)
                    && final(self).scroll_y == old(self).scroll_y
                &&& !shift ==> final(self).scroll_y == scrolled(old(self).scroll_y as int, line_scrolls@)
                    && final(self).scroll_x == old(self).scroll_x
            }),
            final(self).width == old(self).width,
            final(self).height == old(self).height,
            final(self).num_rows == old(self).num_rows,
            final(self).num_columns == old(self).num_columns,
    {
        if keys.shift_released {
            self.shift_down = false;
        }
        if keys.shift_pressed {
            self.shift_down = true;
        }
        if keys.space_pressed {
            self.pause = !self.pause;
        }
        if keys.escape_pressed {
            self.cells.clear();
        }
        let ghost start = *self;
        let mut i: usize = 0;
        while i < line_scrolls.len()
            invariant
                i <= line_scrolls@.len(),
                self.cells@ == start.cells@,
                self.width == start.width,
                self.height == start.height,
                self.num_rows == start.num_rows,
                self.num_columns == start.num_columns,
                self.pause == start.pause,
                self.shift_down == start.shift_down,
                start.shift_down ==> self.scroll_x == scrolled(start.scroll_x as int, line_scrolls@.take(i as int))
                    && self.scroll_y == start.scroll_y,
                !start.shift_down ==> self.scroll_y == scrolled(start.scroll_y as int, line_scrolls@.take(i as int))
                    && self.scroll_x == start.scroll_x,
            decreases line_scrolls@.len() - i,
        {
            proof {
                assert(line_scrolls@.take(i + 1).drop_last() =~= line_scrolls@.take(i as int));
            }
            self.scroll(line_scrolls[i]);
            i = i + 1;
        }
        proof {
            assert(line_scrolls@.take(line_scrolls@.len() as int) =~= line_scrolls@);
        }
    }
}

} // verus!
