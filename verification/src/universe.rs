//! The executable game: a board of cells, the snake on it, and the
//! operations a host drives it with.

use crate::grid::{
    in_grid, index_of, lemma_index_in_range, lemma_neighbour_wraps, Cell, Cord, Direction,
};
use crate::preserve::{
    lemma_covers_drop_last, lemma_free_cells_next, lemma_initial_wf, lemma_step_wf,
};
use crate::laws::lemma_target;
use crate::world::{
    covers, free_cells, glyph, painted, rendered, rendered_row, with_food, World,
};
use std::collections::VecDeque;
use vstd::prelude::*;

verus! {

/// Width of the grid that [`Universe::new`] builds.
pub const DEFAULT_WIDTH: u32 = 50;

/// Height of the grid that [`Universe::new`] builds.
pub const DEFAULT_HEIGHT: u32 = 50;

/// The row and the column that the snake starts on, where the grid has them.
pub const DEFAULT_START: u32 = 5;

/// The board and the snake on it.
pub struct Universe {
    width: u32,
    height: u32,
    cells: Vec<Cell>,
    direction: Direction,
    snake: VecDeque<Cord>,
    is_gameover: bool,
}

impl View for Universe {
    type V = World;

    closed spec fn view(&self) -> World {
        World {
            width: self.width as nat,
            height: self.height as nat,
            cells: self.cells@,
            direction: self.direction,
            body: self.snake@,
            game_over: self.is_gameover,
        }
    }
}

/// Assumed of `String::push` of the standard library: it appends `c` to the
/// end of `text` and leaves the characters before it as they were.
pub assume_specification[ String::push ](text: &mut String, c: char)
    ensures
        final(text)@ == old(text)@.push(c),
;

/// Draws a `usize` with `rand::random`, which samples the thread-local
/// generator of `rand`. The value depends on chance, so nothing is assumed
/// of it: what the callers promise holds whatever is drawn.
#[verifier::external_body]
fn random_sample() -> (sample: usize) {
    rand::random::<usize>()
}

/// Where a snake starts on a grid of the given size when the caller names no
/// cell: row and column `DEFAULT_START`, or the last row or column of a grid
/// that is smaller.
pub open spec fn default_start(width: nat, height: nat) -> Cord {
    Cord {
        x: if height > DEFAULT_START {
            DEFAULT_START
        } else {
            (height - 1) as u32
        },
        y: if width > DEFAULT_START {
            DEFAULT_START
        } else {
            (width - 1) as u32
        },
    }
}

impl Universe {
    /// The invariant of the game holds of this value.
    pub open spec fn wf(&self) -> bool {
        self@.wf()
    }

    /// Position of the cell at `row` and `column` in the cell sequence.
    fn get_index(&self, row: u32, column: u32) -> (i: usize)
        requires
            self@.shaped(),
            row < self.height,
            column < self.width,
        ensures
            i == index_of(Cord { x: row, y: column }, self@.width),
            i < self.cells@.len(),
    {
        proof {
            lemma_index_in_range(Cord { x: row, y: column }, self@.width, self@.height);
            assert(self.cells@.len() == self.cells.len());
        }
        row as usize * self.width as usize + column as usize
    }

    /// Whether a segment of the snake lies on position `cell`.
    fn cell_in_snake(&self, cell: usize) -> (found: bool)
        requires
            self@.shaped(),
        ensures
            found == covers(self@.body, self@.width, cell as int),
    {
        let mut j: usize = 0;
        while j < self.snake.len()
            invariant
                self@.shaped(),
                j <= self.snake@.len(),
                forall|k: int|
                    0 <= k < j ==> index_of(#[trigger] self.snake@[k], self.width as nat) != cell,
            decreases self.snake@.len() - j,
        {
            let segment = self.snake[j];
            if self.get_index(segment.x, segment.y) == cell {
                return true;
            }
            j += 1;
        }
        false
    }

    /// Puts food on the free cell that `sample` picks, if there is a free
    /// cell.
    fn place_food(&mut self, sample: usize)
        requires
            old(self)@.shaped(),
        ensures
            final(self)@ == (World {
                cells: with_food(
                    old(self)@.cells,
                    old(self)@.body,
                    old(self)@.width,
                    sample as nat,
                ),
                ..old(self)@
            }),
    {
        let n = self.cells.len();
        let ghost body = self@.body;
        let ghost width = self@.width;
        let mut free: Vec<usize> = Vec::new();
        let mut i: usize = 0;
        while i < n
            invariant
                *self == *old(self),
                self@.shaped(),
                body == self@.body,
                width == self@.width,
                n == self.cells@.len(),
                i <= n,
                free@.len() == free_cells(body, width, i as nat).len(),
                forall|k: int|
                    0 <= k < free@.len() ==> #[trigger] free@[k] == free_cells(
                        body,
                        width,
                        i as nat,
                    )[k] && free@[k] < n,
            decreases n - i,
        {
            proof {
                lemma_free_cells_next(body, width, i as nat);
            }
            if !self.cell_in_snake(i) {
                free.push(i);
            }
            i += 1;
        }
        if free.len() > 0 {
            let slot = free[sample % free.len()];
            self.cells.set(slot, Cell::Food);
        }
    }

    /// The coordinate that the head moves to on the next tick.
    fn next_head(&self) -> (next: Cord)
        requires
            self@.shaped(),
        ensures
            next == self@.next_head(),
            in_grid(next, self@.width, self@.height),
    {
        let head = self.snake[0];
        proof {
            lemma_neighbour_wraps(head, self.direction, self@.width, self@.height);
        }
        match self.direction {
            Direction::Up => if head.x == 0 {
                Cord { x: self.height - 1, y: head.y }
            } else {
                Cord { x: head.x - 1, y: head.y }
            },
            Direction::Right => Cord { x: head.x, y: (head.y + 1) % self.width },
            Direction::Down => Cord { x: (head.x + 1) % self.height, y: head.y },
            Direction::Left => if head.y == 0 {
                Cord { x: head.x, y: self.width - 1 }
            } else {
                Cord { x: head.x, y: head.y - 1 }
            },
        }
    }

    /// Advances the game by one tick; `sample` picks the cell for new food
    /// when the snake eats. A game that is over is left as it is.
    pub fn tick_with(&mut self, sample: usize)
        requires
            old(self).wf(),
        ensures
            final(self).wf(),
            final(self)@ == old(self)@.step(sample as nat),
    {
        if self.is_gameover {
            return;
        }
        proof {
            lemma_step_wf(self@, sample as nat);
        }
        let head = self.snake[0];
        let new_head = self.next_head();
        let idx = self.get_index(head.x, head.y);
        self.cells.set(idx, Cell::Dead);
        self.snake.push_front(new_head);
        let at = self.get_index(new_head.x, new_head.y);
        match self.cells[at] {
            Cell::Food => {
                self.place_food(sample);
            },
            Cell::Dead => {
                let released = self.snake.pop_back().unwrap();
                let idx = self.get_index(released.x, released.y);
                self.cells.set(idx, Cell::Dead);
            },
            Cell::Alive => {
                self.is_gameover = true;
            },
        }
        let ghost base = self@;
        let mut j: usize = 0;
        while j < self.snake.len()
            invariant
                self@.shaped(),
                self@ == (World { cells: self@.cells, ..base }),
                self@.cells.len() == base.cells.len(),
                j <= self.snake@.len(),
                forall|i: int|
                    0 <= i < base.cells.len() ==> #[trigger] self@.cells[i] == if covers(
                        base.body.take(j as int),
                        base.width,
                        i,
                    ) {
                        Cell::Alive
                    } else {
                        base.cells[i]
                    },
            decreases self.snake@.len() - j,
        {
            let cord = self.snake[j];
            let idx = self.get_index(cord.x, cord.y);
            self.cells.set(idx, Cell::Alive);
            proof {
                let upto = base.body.take(j as int + 1);
                assert forall|i: int| 0 <= i < base.cells.len() implies (covers(upto, base.width, i)
                    <==> index_of(cord, base.width) == i || covers(
                    base.body.take(j as int),
                    base.width,
                    i,
                )) by {
                    lemma_covers_drop_last(upto, base.width, i);
                }
            }
            j += 1;
        }
        proof {
            assert(base.body.take(j as int) =~= base.body);
            assert(self@.cells =~= painted(base.cells, base.body, base.width));
        }
    }

    /// Whether the next tick takes the head onto food.
    fn heads_for_food(&self) -> (eats: bool)
        requires
            self.wf(),
        ensures
            eats == (self@.target() == Cell::Food),
    {
        let next = self.next_head();
        let at = self.get_index(next.x, next.y);
        proof {
            lemma_target(self@);
        }
        self.cells[at] == Cell::Food
    }

    /// Advances the game by one tick. When the snake eats, the cell for the
    /// new food is drawn at random among the free cells; otherwise chance
    /// plays no part. A game that is over is left as it is.
    pub fn tick(&mut self)
        requires
            old(self).wf(),
        ensures
            final(self).wf(),
            exists|sample: nat| final(self)@ == old(self)@.step(sample),
            old(self)@.game_over || old(self)@.target() != Cell::Food ==> final(self)@ == old(
                self,
            )@.step(0),
    {
        let sample = if !self.is_gameover && self.heads_for_food() {
            random_sample()
        } else {
            0
        };
        self.tick_with(sample);
    }

    /// Turns the snake to `direction`, unless that is the direct reverse of
    /// its current heading; then the heading stays. Nothing else changes.
    pub fn change_direction(&mut self, direction: Direction)
        ensures
            final(self)@ == old(self)@.turn(direction),
            old(self).wf() ==> final(self).wf(),
    {
        self.direction = match direction {
            Direction::Up => if self.direction != Direction::Down {
                direction
            } else {
                self.direction
            },
            Direction::Right => if self.direction != Direction::Left {
                direction
            } else {
                self.direction
            },
            Direction::Down => if self.direction != Direction::Up {
                direction
            } else {
                self.direction
            },
            Direction::Left => if self.direction != Direction::Right {
                direction
            } else {
                self.direction
            },
        };
    }

    /// Number of columns.
    pub fn width(&self) -> (width: u32)
        ensures
            width == self@.width,
    {
        self.width
    }

    /// Number of rows.
    pub fn height(&self) -> (height: u32)
        ensures
            height == self@.height,
    {
        self.height
    }

    /// The cells, row by row.
    pub fn cells(&self) -> (cells: &[Cell])
        ensures
            cells@ == self@.cells,
    {
        self.cells.as_slice()
    }

    /// The current heading.
    pub fn direction(&self) -> (direction: Direction)
        ensures
            direction == self@.direction,
    {
        self.direction
    }

    /// The coordinates of the snake, head first.
    pub fn snake(&self) -> (body: Vec<Cord>)
        ensures
            body@ == self@.body,
    {
        let mut body: Vec<Cord> = Vec::new();
        let mut j: usize = 0;
        while j < self.snake.len()
            invariant
                j <= self.snake@.len(),
                body@ == self.snake@.take(j as int),
            decreases self.snake@.len() - j,
        {
            body.push(self.snake[j]);
            assert(self.snake@.take(j as int + 1) =~= self.snake@.take(j as int).push(
                self.snake@[j as int],
            ));
            j += 1;
        }
        body
    }

    /// The board as text: one line for each row, a hollow square for each
    /// dead cell of the row and a filled square for each other cell.
    pub fn render(&self) -> (text: String)
        requires
            self.wf(),
        ensures
            text@ == self@.text(),
    {
        let mut text = String::new();
        let mut row: u32 = 0;
        while row < self.height
            invariant
                self.wf(),
                row <= self.height,
                text@ == rendered(self@.cells, self@.width, row as nat),
            decreases self.height - row,
        {
            let ghost before = text@;
            let mut column: u32 = 0;
            while column < self.width
                invariant
                    self.wf(),
                    row < self.height,
                    column <= self.width,
                    text@ == before + Seq::new(
                        column as nat,
                        |c: int| glyph(self@.cells[row * self@.width + c]),
                    ),
                decreases self.width - column,
            {
                let cell = self.cells[self.get_index(row, column)];
                let symbol = if cell == Cell::Dead {
                    '\u{25FB}'
                } else {
                    '\u{25FC}'
                };
                text.push(symbol);
                column += 1;
            }
            text.push('\n');
            row += 1;
        }
        text
    }

    /// The weights of the eight cells around the cell at `row` and `column`
    /// on the wrapped grid, added up: a cell under the snake counts one, a
    /// cell with food two.
    pub fn live_neighbor_count(&self, row: u32, column: u32) -> (count: u8)
        requires
            self.wf(),
            row < self@.height,
            column < self@.width,
        ensures
            count == self@.live_neighbours(row as int, column as int),
    {
        let mut count: u8 = 0;
        let mut i: u8 = 0;
        while i < 3
            invariant
                self.wf(),
                row < self.height,
                column < self.width,
                i <= 3,
                count == self@.neighbours_upto(row as int, column as int, 3 * i as nat),
                count <= 6 * i,
            decreases 3 - i,
        {
            let delta_row = if i == 0 {
                self.height - 1
            } else if i == 1 {
                0
            } else {
                1
            };
            let mut j: u8 = 0;
            while j < 3
                invariant
                    self.wf(),
                    row < self.height,
                    column < self.width,
                    i < 3,
                    j <= 3,
                    delta_row == World::offset(self@.height, i as int),
                    count == self@.neighbours_upto(
                        row as int,
                        column as int,
                        (3 * i + j) as nat,
                    ),
                    count <= 6 * i + 2 * j,
                decreases 3 - j,
            {
                let delta_col = if j == 0 {
                    self.width - 1
                } else if j == 1 {
                    0
                } else {
                    1
                };
                assert(self@.neighbours_upto(row as int, column as int, (3 * i + j + 1) as nat)
                    == self@.neighbours_upto(row as int, column as int, (3 * i + j) as nat)
                    + self@.neighbour_weight(
                    row as int,
                    column as int,
                    delta_row as int,
                    delta_col as int,
                ));
                if !(delta_row == 0 && delta_col == 0) {
                    let neighbor_row = ((row as u64 + delta_row as u64) % (self.height as u64)) as u32;
                    let neighbor_col = ((column as u64 + delta_col as u64) % (self.width as u64)) as u32;
                    let idx = self.get_index(neighbor_row, neighbor_col);
                    count += match self.cells[idx] {
                        Cell::Dead => 0,
                        Cell::Alive => 1,
                        Cell::Food => 2,
                    };
                }
                j += 1;
            }
            i += 1;
        }
        proof {
            reveal_with_fuel(World::neighbours_upto, 10);
        }
        count
    }

    /// Whether the snake has run into itself.
    pub fn is_gameover(&self) -> (over: bool)
        ensures
            over == self@.game_over,
    {
        self.is_gameover
    }

    /// A game on a grid of `width` columns and `height` rows, with a snake of
    /// one segment on `start` and food on the free cell that `sample` picks.
    /// There is no such game when the grid has no cell, when its cells are
    /// more than the machine can index, or when `start` is not on it.
    pub fn with_start(width: u32, height: u32, start: Cord, sample: usize) -> (made: Option<
        Universe,
    >)
        ensures
            made is Some <==> width >= 1 && height >= 1 && width * height <= usize::MAX && in_grid(
                start,
                width as nat,
                height as nat,
            ),
            made matches Some(u) ==> u.wf() && u@ == World::initial(
                width as nat,
                height as nat,
                start,
                sample as nat,
            ),
    {
        if width == 0 || height == 0 || start.x >= height || start.y >= width {
            return None;
        }
        let n = match (width as usize).checked_mul(height as usize) {
            Some(n) => n,
            None => {
                return None;
            },
        };
        let mut cells: Vec<Cell> = Vec::new();
        let mut i: usize = 0;
        while i < n
            invariant
                i <= n,
                cells@ =~= Seq::new(i as nat, |k: int| Cell::Dead),
            decreases n - i,
        {
            cells.push(Cell::Dead);
            i += 1;
        }
        let mut snake: VecDeque<Cord> = VecDeque::new();
        snake.push_back(start);
        let mut made = Universe {
            width,
            height,
            cells,
            direction: Direction::Right,
            snake,
            is_gameover: false,
        };
        let at = made.get_index(start.x, start.y);
        made.cells.set(at, Cell::Alive);
        made.place_food(sample);
        proof {
            lemma_initial_wf(width as nat, height as nat, start, sample as nat);
            assert(made@.cells =~= World::initial(
                width as nat,
                height as nat,
                start,
                sample as nat,
            ).cells);
        }
        Some(made)
    }

    /// A game on a grid of `width` columns and `height` rows, with a snake of
    /// one segment on the default start and food on a free cell drawn at
    /// random. There is no such game when the grid has no cell or when its
    /// cells are more than the machine can index.
    pub fn with_size(width: u32, height: u32) -> (made: Option<Universe>)
        ensures
            made is Some <==> width >= 1 && height >= 1 && width * height <= usize::MAX,
            made matches Some(u) ==> u.wf() && exists|sample: nat|
                u@ == World::initial(
                    width as nat,
                    height as nat,
                    default_start(width as nat, height as nat),
                    sample,
                ),
    {
        if width == 0 || height == 0 {
            return None;
        }
        let start = Cord {
            x: if height > DEFAULT_START {
                DEFAULT_START
            } else {
                height - 1
            },
            y: if width > DEFAULT_START {
                DEFAULT_START
            } else {
                width - 1
            },
        };
        let sample = random_sample();
        let made = Universe::with_start(width, height, start, sample);
        proof {
            assert(made is Some ==> made->0@ == World::initial(
                width as nat,
                height as nat,
                default_start(width as nat, height as nat),
                sample as nat,
            ));
        }
        made
    }

    /// A game on the default grid of 50 by 50 cells, with a snake of one
    /// segment on row 5, column 5, heading right, and food on a free cell
    /// drawn at random.
    pub fn new() -> (made: Universe)
        ensures
            made.wf(),
            exists|sample: nat|
                made@ == World::initial(
                    DEFAULT_WIDTH as nat,
                    DEFAULT_HEIGHT as nat,
                    Cord { x: DEFAULT_START, y: DEFAULT_START },
                    sample,
                ),
    {
        let sample = random_sample();
        let made = Universe::with_start(
            DEFAULT_WIDTH,
            DEFAULT_HEIGHT,
            Cord { x: DEFAULT_START, y: DEFAULT_START },
            sample,
        );
        made.unwrap()
    }
}

} // verus!
