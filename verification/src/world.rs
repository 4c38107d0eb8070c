//! The mathematical model of the game: a board, a snake and the rules that
//! take one state to the next.

use crate::grid::{in_grid, index_of, neighbour, Cell, Cord, Direction};
use vstd::prelude::*;

verus! {

/// Whether some segment of `body` sits on position `i` of the cell sequence.
pub open spec fn covers(body: Seq<Cord>, width: nat, i: int) -> bool {
    exists|j: int| 0 <= j < body.len() && index_of(#[trigger] body[j], width) == i
}

/// `cells` with every position that `body` covers marked `Alive`.
pub open spec fn painted(cells: Seq<Cell>, body: Seq<Cord>, width: nat) -> Seq<Cell> {
    Seq::new(
        cells.len(),
        |i: int|
            if covers(body, width, i) {
                Cell::Alive
            } else {
                cells[i]
            },
    )
}

/// The positions below `n` that `body` does not cover, in ascending order.
pub open spec fn free_cells(body: Seq<Cord>, width: nat, n: nat) -> Seq<int> {
    Seq::new(n, |i: int| i).filter(|i: int| !covers(body, width, i))
}

/// Where new food goes on a board of `n` cells: the free positions are
/// numbered from 0 in ascending order and `sample` picks one of them, modulo
/// their count. There is no such position when the snake covers the board.
pub open spec fn food_slot(body: Seq<Cord>, width: nat, n: nat, sample: nat) -> Option<int> {
    let free = free_cells(body, width, n);
    if free.len() == 0 {
        None
    } else {
        Some(free[(sample % free.len()) as int])
    }
}

/// `cells` with food placed on the slot that `sample` picks, or `cells` as
/// they are when the snake covers the board.
pub open spec fn with_food(cells: Seq<Cell>, body: Seq<Cord>, width: nat, sample: nat) -> Seq<
    Cell,
> {
    match food_slot(body, width, cells.len(), sample) {
        Some(i) => cells.update(i, Cell::Food),
        None => cells,
    }
}

/// The positions of `cells` that hold `kind`.
pub open spec fn positions_of(cells: Seq<Cell>, kind: Cell) -> Set<int> {
    Set::new(|i: int| 0 <= i < cells.len() && cells[i] == kind)
}

/// The character that stands for a cell in the rendered board: a hollow
/// square for a dead cell, a filled square for any other.
pub open spec fn glyph(cell: Cell) -> char {
    if cell == Cell::Dead {
        '\u{25FB}'
    } else {
        '\u{25FC}'
    }
}

/// The text of row `row` of a board `width` wide: one glyph for each cell of
/// the row, then a line feed.
pub open spec fn rendered_row(cells: Seq<Cell>, width: nat, row: int) -> Seq<char> {
    Seq::new(width, |column: int| glyph(cells[row * width + column])).push('\n')
}

/// The text of the first `rows` rows of a board, one after the other.
pub open spec fn rendered(cells: Seq<Cell>, width: nat, rows: nat) -> Seq<char>
    decreases rows,
{
    if rows == 0 {
        Seq::empty()
    } else {
        rendered(cells, width, (rows - 1) as nat) + rendered_row(cells, width, rows - 1)
    }
}

/// What a cell counts for among the neighbours of another: nothing when it
/// is dead, one when the snake is on it, two when it holds food.
pub open spec fn weight(cell: Cell) -> nat {
    match cell {
        Cell::Dead => 0,
        Cell::Alive => 1,
        Cell::Food => 2,
    }
}

/// A state of the game.
pub struct World {
    /// Number of columns.
    pub width: nat,
    /// Number of rows.
    pub height: nat,
    /// The cells, row by row.
    pub cells: Seq<Cell>,
    /// The current heading.
    pub direction: Direction,
    /// The snake, head first.
    pub body: Seq<Cord>,
    /// Whether the snake has run into itself.
    pub game_over: bool,
}

impl World {
    /// The grid has at least one cell, the cell sequence has one entry for
    /// each, and the snake has a head and lies on the grid.
    pub open spec fn shaped(self) -> bool {
        &&& 1 <= self.width <= u32::MAX
        &&& 1 <= self.height <= u32::MAX
        &&& self.cells.len() == self.width * self.height
        &&& self.body.len() >= 1
        &&& forall|j: int|
            0 <= j < self.body.len() ==> in_grid(#[trigger] self.body[j], self.width, self.height)
    }

    /// The cells marked `Alive` are exactly the cells under the snake.
    pub open spec fn alive_is_body(self) -> bool {
        forall|i: int|
            0 <= i < self.cells.len() ==> (#[trigger] self.cells[i] == Cell::Alive <==> covers(
                self.body,
                self.width,
                i,
            ))
    }

    /// No two cells hold food.
    pub open spec fn single_food(self) -> bool {
        forall|i: int, j: int|
            0 <= i < self.cells.len() && 0 <= j < self.cells.len() && #[trigger] self.cells[i]
                == Cell::Food && #[trigger] self.cells[j] == Cell::Food ==> i == j
    }

    /// A grid with a single row or a single column, on which a step along
    /// that row or column leads back to the cell it started from.
    pub open spec fn degenerate(self) -> bool {
        self.width == 1 || self.height == 1
    }

    /// The invariant of the game. Every state that the constructors and the
    /// transitions produce satisfies it.
    pub open spec fn wf(self) -> bool {
        &&& self.shaped()
        &&& self.alive_is_body()
        &&& self.single_food()
        &&& !self.game_over && !self.degenerate() ==> self.body.no_duplicates()
    }

    /// The coordinates of the grid whose cell is marked `Alive`.
    pub open spec fn alive_coordinates(self) -> Set<Cord> {
        Set::new(
            |c: Cord|
                in_grid(c, self.width, self.height) && self.cells[index_of(c, self.width)]
                    == Cell::Alive,
        )
    }

    /// The text of the whole board.
    pub open spec fn text(self) -> Seq<char> {
        rendered(self.cells, self.width, self.height)
    }

    /// The offset to the row or column before, on, or after a given one on a
    /// ring of `n`: `which` 0 stands for the one before, 1 for the same, 2
    /// for the one after.
    pub open spec fn offset(n: nat, which: int) -> int {
        if which == 0 {
            n - 1
        } else if which == 1 {
            0
        } else {
            1
        }
    }

    /// What the cell at the given row and column offsets from `row` and
    /// `column`, wrapped, counts for. An offset of nothing in both counts for
    /// nothing: a cell is no neighbour of itself.
    pub open spec fn neighbour_weight(self, row: int, column: int, dr: int, dc: int) -> nat {
        if dr == 0 && dc == 0 {
            0
        } else {
            weight(
                self.cells[((row + dr) % (self.height as int)) * self.width + (column + dc) % (
                self.width as int)],
            )
        }
    }

    /// The weights of the first `k` of the nine offsets around `row` and
    /// `column`, rows first, added up.
    pub open spec fn neighbours_upto(self, row: int, column: int, k: nat) -> nat
        decreases k,
    {
        if k == 0 {
            0
        } else {
            self.neighbours_upto(row, column, (k - 1) as nat) + self.neighbour_weight(
                row,
                column,
                World::offset(self.height, (k - 1) / 3),
                World::offset(self.width, (k - 1) % 3),
            )
        }
    }

    /// The weights of the cells around `row` and `column` on the wrapped
    /// grid, added up.
    pub open spec fn live_neighbours(self, row: int, column: int) -> nat {
        let up = self.height - 1;
        let left = self.width - 1;
        self.neighbour_weight(row, column, up, left) + self.neighbour_weight(row, column, up, 0)
            + self.neighbour_weight(row, column, up, 1) + self.neighbour_weight(
            row,
            column,
            0,
            left,
        ) + self.neighbour_weight(row, column, 0, 1) + self.neighbour_weight(row, column, 1, left)
            + self.neighbour_weight(row, column, 1, 0) + self.neighbour_weight(row, column, 1, 1)
    }

    /// The coordinate of the head.
    pub open spec fn head(self) -> Cord {
        self.body[0]
    }

    /// The coordinate that the head moves to on the next tick.
    pub open spec fn next_head(self) -> Cord {
        neighbour(self.head(), self.direction, self.width, self.height)
    }

    /// The cells once the head has left its cell.
    pub open spec fn vacated(self) -> Seq<Cell> {
        self.cells.update(index_of(self.head(), self.width), Cell::Dead)
    }

    /// What the head finds on the cell it moves to. The head's own cell counts
    /// as left, so a step that leads back onto it finds it `Dead`.
    pub open spec fn target(self) -> Cell {
        self.vacated()[index_of(self.next_head(), self.width)]
    }

    /// The state after a request to turn to `requested`.
    pub open spec fn turn(self, requested: Direction) -> World {
        World { direction: self.direction.turned(requested), ..self }
    }

    /// The state after one tick. `sample` decides where new food goes when
    /// the snake eats. A game that is over stays as it is.
    pub open spec fn step(self, sample: nat) -> World {
        if self.game_over {
            self
        } else {
            let grown = seq![self.next_head()] + self.body;
            match self.target() {
                Cell::Food => World {
                    body: grown,
                    cells: painted(
                        with_food(self.vacated(), grown, self.width, sample),
                        grown,
                        self.width,
                    ),
                    ..self
                },
                Cell::Dead => World {
                    body: grown.drop_last(),
                    cells: painted(
                        self.vacated().update(
                            index_of(self.body.last(), self.width),
                            Cell::Dead,
                        ),
                        grown.drop_last(),
                        self.width,
                    ),
                    ..self
                },
                Cell::Alive => World {
                    body: grown,
                    cells: painted(self.vacated(), grown, self.width),
                    game_over: true,
                    ..self
                },
            }
        }
    }

    /// The state a game starts in: a snake of one segment on `start`, heading
    /// right, and food on the slot that `sample` picks.
    pub open spec fn initial(width: nat, height: nat, start: Cord, sample: nat) -> World {
        let body = seq![start];
        let blank = Seq::new(width * height, |i: int| Cell::Dead);
        World {
            width,
            height,
            cells: with_food(
                blank.update(index_of(start, width), Cell::Alive),
                body,
                width,
                sample,
            ),
            direction: Direction::Right,
            body,
            game_over: false,
        }
    }
}

} // verus!
