use snake_core::{Cell, Cord, Direction, Universe};

#[test]
fn render_draws_one_line_for_each_row() {
    let game = Universe::with_start(3, 2, Cord { x: 1, y: 1 }, 0).unwrap();
    assert_eq!(game.render(), "\u{25FC}\u{25FB}\u{25FB}\n\u{25FB}\u{25FC}\u{25FB}\n");
}

#[test]
fn render_follows_the_snake() {
    let mut game = Universe::with_start(4, 1, Cord { x: 0, y: 0 }, 2).unwrap();
    assert_eq!(game.render(), "\u{25FC}\u{25FB}\u{25FB}\u{25FC}\n");
    game.tick_with(0);
    assert_eq!(game.render(), "\u{25FB}\u{25FC}\u{25FB}\u{25FC}\n");
}

#[test]
fn render_of_a_single_column() {
    let game = Universe::with_start(1, 3, Cord { x: 2, y: 0 }, 1).unwrap();
    assert_eq!(game.render(), "\u{25FB}\n\u{25FC}\n\u{25FC}\n");
}

#[test]
fn cells_are_read_row_by_row() {
    let game = Universe::with_start(3, 2, Cord { x: 1, y: 0 }, 4).unwrap();
    assert_eq!(
        game.cells().to_vec(),
        vec![Cell::Dead, Cell::Dead, Cell::Dead, Cell::Alive, Cell::Dead, Cell::Food]
    );
}

#[test]
fn neighbours_count_snake_once_and_food_twice() {
    // . . . .
    // . S F .
    // . . . .
    // . . . .
    let game = Universe::with_start(4, 4, Cord { x: 1, y: 1 }, 5).unwrap();
    assert_eq!(game.cells()[6], Cell::Food);
    assert_eq!(game.live_neighbor_count(0, 0), 1);
    assert_eq!(game.live_neighbor_count(0, 1), 3);
    assert_eq!(game.live_neighbor_count(1, 1), 2);
    assert_eq!(game.live_neighbor_count(1, 2), 1);
    assert_eq!(game.live_neighbor_count(1, 3), 2);
    assert_eq!(game.live_neighbor_count(3, 3), 0);
    assert_eq!(game.live_neighbor_count(2, 0), 1);
}

#[test]
fn neighbours_wrap_around_the_edges() {
    let game = Universe::with_start(4, 4, Cord { x: 0, y: 0 }, 14).unwrap();
    assert_eq!(game.cells()[15], Cell::Food);
    assert_eq!(game.live_neighbor_count(3, 0), 3);
    assert_eq!(game.live_neighbor_count(0, 3), 3);
    assert_eq!(game.live_neighbor_count(0, 0), 2);
    assert_eq!(game.live_neighbor_count(3, 3), 1);
    assert_eq!(game.live_neighbor_count(2, 2), 2);
    assert_eq!(game.live_neighbor_count(1, 1), 1);
}

#[test]
fn neighbours_on_a_single_row_are_counted_once_for_each_offset() {
    // One row: the offsets to the row above, to the same row and to the row
    // below all lead to that row. Only the offset of nothing in both
    // directions is left out, and with one row the offset to the row above is
    // nothing too.
    let game = Universe::with_start(3, 1, Cord { x: 0, y: 0 }, 0).unwrap();
    assert_eq!(game.cells().to_vec(), vec![Cell::Alive, Cell::Food, Cell::Dead]);
    assert_eq!(game.live_neighbor_count(0, 0), 7);
    assert_eq!(game.live_neighbor_count(0, 1), 5);
    assert_eq!(game.live_neighbor_count(0, 2), 9);
}

#[test]
fn accessors_do_not_change_the_game() {
    let mut game = Universe::with_start(5, 5, Cord { x: 2, y: 2 }, 12).unwrap();
    game.tick_with(0);
    let cells: Vec<Cell> = game.cells().to_vec();
    let body = game.snake();
    let _ = game.width();
    let _ = game.height();
    let _ = game.is_gameover();
    let _ = game.render();
    let _ = game.live_neighbor_count(0, 0);
    assert_eq!(game.cells().to_vec(), cells);
    assert_eq!(game.snake(), body);
    assert_eq!(game.direction(), Direction::Right);
}
