use life_board::board::{Board, KeyInput, START_SCROLL};
use life_board::codec::encode_coord;
use life_board::viewport::{calculate_position, color_at, CellColor, BOARD_HEIGHT, BOARD_WIDTH, CELL_SIZE};
use life_board::cells::LiveCellSet;

fn no_keys() -> KeyInput {
    KeyInput { shift_released: false, shift_pressed: false, space_pressed: false, escape_pressed: false }
}

#[test]
fn new_board_is_paused_and_empty() {
    let b = Board::new(BOARD_WIDTH, BOARD_HEIGHT);
    assert_eq!(b.num_columns, 64);
    assert_eq!(b.num_rows, 32);
    assert!(b.pause);
    assert_eq!(b.scroll_x, START_SCROLL);
    assert_eq!(b.scroll_y, START_SCROLL);
    assert_eq!(b.cells.len(), 0);
    assert_eq!(CELL_SIZE, 16);
}

#[test]
fn viewport_mapping_with_scroll() {
    let px = 2 * 16 + 5;
    let py = 4 * 16 + 3;
    assert_eq!(calculate_position(px, py, 64, 32, 5, -3), Some((7, 1)));
}

#[test]
fn viewport_cell_edges() {
    assert_eq!(calculate_position(0, 0, 64, 32, 0, 0), Some((0, 0)));
    assert_eq!(calculate_position(15, 15, 64, 32, 0, 0), Some((0, 0)));
    assert_eq!(calculate_position(16, 31, 64, 32, 0, 0), Some((1, 1)));
    assert_eq!(calculate_position(1023, 511, 64, 32, 0, 0), Some((63, 31)));
}

#[test]
fn viewport_outside_is_ignored() {
    assert_eq!(calculate_position(-1, 5, 64, 32, 0, 0), None);
    assert_eq!(calculate_position(5, -1, 64, 32, 0, 0), None);
    assert_eq!(calculate_position(5, 5, 0, 32, 0, 0), None);
    assert_eq!(calculate_position(5, 5, 64, 0, 0, 0), None);
    assert_eq!(calculate_position(16, 0, 64, 32, i32::MAX, 0), None);
    assert_eq!(calculate_position(0, 0, 64, 32, i32::MAX, 0), Some((i32::MAX, 0)));
}

#[test]
fn viewport_reduces_modulo_grid() {
    assert_eq!(calculate_position(1024, 5, 64, 32, 0, 0), Some((0, 0)));
    assert_eq!(calculate_position(5, 512, 64, 32, 0, 0), Some((0, 0)));
    assert_eq!(calculate_position(1024, 512, 64, 32, 0, 0), calculate_position(0, 0, 64, 32, 0, 0));
    assert_eq!(calculate_position(1024 + 37, 512 + 67, 64, 32, 5, -3), Some((7, 1)));
    assert_eq!(calculate_position(3 * 1024 + 20, 40, 64, 32, 100, 200), Some((101, 202)));
}

#[test]
fn spawn_off_board_changes_nothing() {
    let mut b = Board::new(BOARD_WIDTH, BOARD_HEIGHT);
    assert!(!b.is_over_board(1024, 5));
    assert!(!b.is_over_board(5, 512));
    assert!(b.is_over_board(1023, 511));
    b.spawn_cell_at_pos(1024, 5);
    b.spawn_cell_at_pos(5, 512);
    b.handle_click(Some((1024, 512)), true, false);
    assert_eq!(b.cells.len(), 0);
    b.spawn_cell_at_pos(0, 5);
    assert_eq!(b.cells.len(), 1);
    b.kill_cell_at_pos(1024, 5);
    assert_eq!(b.cells.len(), 1);
}

#[test]
fn color_follows_liveness() {
    let mut s = LiveCellSet::new();
    s.insert(encode_coord(7, 1));
    assert_eq!(color_at(2, 4, 5, -3, &s), CellColor::Live);
    assert_eq!(color_at(2, 5, 5, -3, &s), CellColor::Dead);
    assert_eq!(color_at(usize::MAX, 0, 5, -3, &s), CellColor::Dead);
    assert_eq!(color_at(0, 0, i32::MAX, 0, &s), CellColor::Dead);
}

#[test]
fn spawn_and_kill_under_pointer() {
    let mut b = Board::new(BOARD_WIDTH, BOARD_HEIGHT);
    b.scroll_x = 5;
    b.scroll_y = -3;
    b.spawn_cell_at_pos(37, 67);
    assert!(b.cells.contains(encode_coord(7, 1)));
    assert_eq!(b.get_color_at_coordinates(2, 4), CellColor::Live);
    assert_eq!(b.get_color_at_coordinates(3, 4), CellColor::Dead);
    b.kill_cell_at_pos(37, 67);
    assert!(!b.cells.contains(encode_coord(7, 1)));
    b.spawn_cell_at_pos(-5, 67);
    assert_eq!(b.cells.len(), 0);
}

#[test]
fn click_buttons() {
    let mut b = Board::new(BOARD_WIDTH, BOARD_HEIGHT);
    b.handle_click(Some((0, 0)), true, false);
    assert!(b.cells.contains(encode_coord(START_SCROLL, START_SCROLL)));
    b.handle_click(Some((0, 0)), false, false);
    assert_eq!(b.cells.len(), 1);
    b.handle_click(None, false, true);
    assert_eq!(b.cells.len(), 1);
    b.handle_click(Some((0, 0)), false, true);
    assert_eq!(b.cells.len(), 0);
}

#[test]
fn tick_while_paused_changes_nothing() {
    let mut b = Board::new(BOARD_WIDTH, BOARD_HEIGHT);
    for &(x, y) in &[(1, 0), (1, 1), (1, 2)] {
        b.cells.insert(encode_coord(x, y));
    }
    let before = b.cells.to_vec();
    assert!(b.pause);
    b.tick();
    assert_eq!(b.cells.to_vec(), before);
}

#[test]
fn tick_while_running_advances() {
    let mut b = Board::new(BOARD_WIDTH, BOARD_HEIGHT);
    for &(x, y) in &[(1, 0), (1, 1), (1, 2)] {
        b.cells.insert(encode_coord(x, y));
    }
    b.handle_keys(KeyInput { space_pressed: true, ..no_keys() }, &vec![]);
    assert!(!b.pause);
    b.tick();
    let mut expected = vec![encode_coord(0, 1), encode_coord(1, 1), encode_coord(2, 1)];
    expected.sort();
    assert_eq!(b.cells.to_vec(), expected);
}

#[test]
fn keys_scroll_clear_and_shift() {
    let mut b = Board::new(BOARD_WIDTH, BOARD_HEIGHT);
    b.cells.insert(encode_coord(1, 1));
    b.handle_keys(no_keys(), &vec![3, -1]);
    assert_eq!(b.scroll_y, START_SCROLL + 2);
    assert_eq!(b.scroll_x, START_SCROLL);
    b.handle_keys(KeyInput { shift_pressed: true, ..no_keys() }, &vec![-4]);
    assert!(b.shift_down);
    assert_eq!(b.scroll_x, START_SCROLL - 4);
    b.handle_keys(KeyInput { shift_released: true, escape_pressed: true, ..no_keys() }, &vec![1]);
    assert!(!b.shift_down);
    assert_eq!(b.scroll_y, START_SCROLL + 3);
    assert_eq!(b.cells.len(), 0);
}

#[test]
fn scroll_past_range_is_dropped() {
    let mut b = Board::new(BOARD_WIDTH, BOARD_HEIGHT);
    b.scroll_y = i32::MAX - 1;
    b.scroll(5);
    assert_eq!(b.scroll_y, i32::MAX - 1);
    b.scroll(1);
    assert_eq!(b.scroll_y, i32::MAX);
}
