use snake_core::{Cell, Cord, Direction, Universe};

fn position_of_food(game: &Universe) -> Option<usize> {
    game.cells().iter().position(|c| *c == Cell::Food)
}

#[test]
fn default_game_is_fifty_by_fifty() {
    let game = Universe::new();
    assert_eq!(game.width(), 50);
    assert_eq!(game.height(), 50);
    assert_eq!(game.cells().len(), 2500);
    assert_eq!(game.direction(), Direction::Right);
    assert_eq!(game.snake(), vec![Cord { x: 5, y: 5 }]);
    assert!(!game.is_gameover());
    assert_eq!(game.cells()[5 * 50 + 5], Cell::Alive);
    assert_eq!(game.cells().iter().filter(|c| **c == Cell::Alive).count(), 1);
    assert_eq!(game.cells().iter().filter(|c| **c == Cell::Food).count(), 1);
    assert_eq!(game.cells().iter().filter(|c| **c == Cell::Dead).count(), 2498);
}

#[test]
fn sized_game_starts_on_the_default_cell() {
    let game = Universe::with_size(8, 7).unwrap();
    assert_eq!(game.width(), 8);
    assert_eq!(game.height(), 7);
    assert_eq!(game.cells().len(), 56);
    assert_eq!(game.snake(), vec![Cord { x: 5, y: 5 }]);
    assert_eq!(game.cells()[5 * 8 + 5], Cell::Alive);
    assert_eq!(game.cells().iter().filter(|c| **c == Cell::Food).count(), 1);
}

#[test]
fn small_sized_game_starts_on_its_last_row_and_column() {
    let game = Universe::with_size(3, 2).unwrap();
    assert_eq!(game.snake(), vec![Cord { x: 1, y: 2 }]);
    assert_eq!(game.cells()[5], Cell::Alive);
    let tall = Universe::with_size(2, 9).unwrap();
    assert_eq!(tall.snake(), vec![Cord { x: 5, y: 1 }]);
}

#[test]
fn grid_without_cells_is_rejected() {
    assert!(Universe::with_size(0, 5).is_none());
    assert!(Universe::with_size(5, 0).is_none());
    assert!(Universe::with_size(0, 0).is_none());
    assert!(Universe::with_start(0, 5, Cord { x: 0, y: 0 }, 0).is_none());
    assert!(Universe::with_start(5, 0, Cord { x: 0, y: 0 }, 0).is_none());
}

#[test]
fn start_outside_the_grid_is_rejected() {
    assert!(Universe::with_start(4, 3, Cord { x: 3, y: 0 }, 0).is_none());
    assert!(Universe::with_start(4, 3, Cord { x: 0, y: 4 }, 0).is_none());
    assert!(Universe::with_start(4, 3, Cord { x: 2, y: 3 }, 0).is_some());
}

#[test]
fn rows_run_over_height_and_columns_over_width() {
    let game = Universe::with_start(4, 3, Cord { x: 2, y: 3 }, 0).unwrap();
    assert_eq!(game.width(), 4);
    assert_eq!(game.height(), 3);
    assert_eq!(game.cells().len(), 12);
    assert_eq!(game.cells()[2 * 4 + 3], Cell::Alive);
}

#[test]
fn sample_picks_among_the_free_cells_in_order() {
    // Position 12 is under the snake; 24 positions are free.
    let start = Cord { x: 2, y: 2 };
    let pick = |sample: usize| position_of_food(&Universe::with_start(5, 5, start, sample).unwrap());
    assert_eq!(pick(0), Some(0));
    assert_eq!(pick(11), Some(11));
    assert_eq!(pick(12), Some(13));
    assert_eq!(pick(23), Some(24));
    assert_eq!(pick(24), Some(0));
    assert_eq!(pick(25), Some(1));
    assert_eq!(pick(24 * 1000 + 17), Some(18));
    assert_eq!(pick(usize::MAX), Some(if usize::MAX % 24 < 12 {
        usize::MAX % 24
    } else {
        usize::MAX % 24 + 1
    }));
}

#[test]
fn food_skips_the_snake_at_the_first_position() {
    let game = Universe::with_start(3, 3, Cord { x: 0, y: 0 }, 0).unwrap();
    assert_eq!(position_of_food(&game), Some(1));
}

#[test]
fn single_cell_board_has_no_room_for_food() {
    let mut game = Universe::with_start(1, 1, Cord { x: 0, y: 0 }, 7).unwrap();
    assert_eq!(game.cells().to_vec(), vec![Cell::Alive]);
    game.tick_with(3);
    assert_eq!(game.cells().to_vec(), vec![Cell::Alive]);
    assert_eq!(game.snake(), vec![Cord { x: 0, y: 0 }]);
    assert!(!game.is_gameover());
    game.tick();
    assert_eq!(game.cells().to_vec(), vec![Cell::Alive]);
    assert!(!game.is_gameover());
}

#[test]
fn snake_that_fills_the_board_gets_no_food() {
    let mut game = Universe::with_start(2, 1, Cord { x: 0, y: 0 }, 0).unwrap();
    assert_eq!(game.cells().to_vec(), vec![Cell::Alive, Cell::Food]);
    game.tick_with(9);
    assert_eq!(game.snake(), vec![Cord { x: 0, y: 1 }, Cord { x: 0, y: 0 }]);
    assert_eq!(game.cells().to_vec(), vec![Cell::Alive, Cell::Alive]);
    assert!(!game.is_gameover());
    game.tick_with(9);
    assert!(game.is_gameover());
    assert_eq!(game.cells().to_vec(), vec![Cell::Alive, Cell::Alive]);
}

#[test]
fn step_along_a_single_column_leads_back_to_the_head() {
    // One column, three rows, food right below the head.
    let mut game = Universe::with_start(1, 3, Cord { x: 0, y: 0 }, 0).unwrap();
    game.change_direction(Direction::Down);
    game.tick_with(0);
    assert_eq!(game.snake(), vec![Cord { x: 1, y: 0 }, Cord { x: 0, y: 0 }]);
    assert_eq!(game.cells().to_vec(), vec![Cell::Alive, Cell::Alive, Cell::Food]);
    game.change_direction(Direction::Right);
    game.tick_with(0);
    assert!(!game.is_gameover());
    assert_eq!(game.snake(), vec![Cord { x: 1, y: 0 }, Cord { x: 1, y: 0 }]);
    assert_eq!(game.cells().to_vec(), vec![Cell::Dead, Cell::Alive, Cell::Food]);
}

#[test]
fn random_tick_places_food_on_a_free_cell() {
    for _ in 0..50 {
        let mut game = Universe::with_start(5, 5, Cord { x: 2, y: 2 }, 12).unwrap();
        game.tick();
        assert_eq!(game.snake(), vec![Cord { x: 2, y: 3 }, Cord { x: 2, y: 2 }]);
        let food = position_of_food(&game).unwrap();
        assert!(food != 12 && food != 13);
        assert_eq!(game.cells().iter().filter(|c| **c == Cell::Food).count(), 1);
        assert_eq!(game.cells().iter().filter(|c| **c == Cell::Alive).count(), 2);
    }
}

#[test]
fn random_food_varies_between_games() {
    let mut seen = Vec::new();
    for _ in 0..64 {
        let food = position_of_food(&Universe::new()).unwrap();
        assert!(food != 5 * 50 + 5);
        if !seen.contains(&food) {
            seen.push(food);
        }
    }
    assert!(seen.len() > 1);
}
