//! Cells, coordinates and headings, and the arithmetic of a wrap-around grid.

use vstd::arithmetic::div_mod::{
    lemma_mod_add_multiples_vanish, lemma_mod_self_0, lemma_small_mod,
};
use vstd::prelude::*;

verus! {

/// What one grid position holds.
#[derive(Clone, Copy, Debug, PartialEq, Eq, Structural)]
pub enum Cell {
    Dead,
    Alive,
    Food,
}

/// A grid position: `x` is the row, `y` the column.
#[derive(Clone, Copy, Debug, PartialEq, Eq, Structural)]
pub struct Cord {
    pub x: u32,
    pub y: u32,
}

/// The heading of the snake.
#[derive(Clone, Copy, Debug, PartialEq, Eq, Structural)]
pub enum Direction {
    Up,
    Right,
    Down,
    Left,
}

impl Direction {
    /// The heading that points the other way.
    pub open spec fn opposite(self) -> Direction {
        match self {
            Direction::Up => Direction::Down,
            Direction::Right => Direction::Left,
            Direction::Down => Direction::Up,
            Direction::Left => Direction::Right,
        }
    }

    /// The heading after a request to turn: the request, unless it is the
    /// direct reverse of the current heading.
    pub open spec fn turned(self, requested: Direction) -> Direction {
        if requested == self.opposite() {
            self
        } else {
            requested
        }
    }
}

/// Whether `c` lies on a grid of `height` rows and `width` columns.
pub open spec fn in_grid(c: Cord, width: nat, height: nat) -> bool {
    c.x < height && c.y < width
}

/// Row-major position of `c` in the cell sequence of a grid `width` wide.
pub open spec fn index_of(c: Cord, width: nat) -> int {
    c.x * width + c.y
}

/// The coordinate one step from `c` in direction `d`, wrapping at the edges.
pub open spec fn neighbour(c: Cord, d: Direction, width: nat, height: nat) -> Cord {
    match d {
        Direction::Up => Cord { x: ((c.x + height - 1) % (height as int)) as u32, y: c.y },
        Direction::Right => Cord { x: c.x, y: ((c.y + 1) % (width as int)) as u32 },
        Direction::Down => Cord { x: ((c.x + 1) % (height as int)) as u32, y: c.y },
        Direction::Left => Cord { x: c.x, y: ((c.y + width - 1) % (width as int)) as u32 },
    }
}

/// The index of a coordinate on the grid is a valid position in the cell
/// sequence.
pub proof fn lemma_index_in_range(c: Cord, width: nat, height: nat)
    requires
        in_grid(c, width, height),
    ensures
        0 <= index_of(c, width) < width * height,
        c.x * width <= index_of(c, width),
{
    let x = c.x as int;
    let w = width as int;
    let h = height as int;
    assert(x * w + w <= h * w) by (nonlinear_arith)
        requires
            0 <= x < h,
            0 <= w,
    ;
    assert(0 <= x * w) by (nonlinear_arith)
        requires
            0 <= x,
            0 <= w,
    ;
}

/// Two coordinates on the grid with the same index are the same coordinate.
pub proof fn lemma_index_injective(a: Cord, b: Cord, width: nat, height: nat)
    requires
        in_grid(a, width, height),
        in_grid(b, width, height),
        index_of(a, width) == index_of(b, width),
    ensures
        a == b,
{
    let w = width as int;
    let ax = a.x as int;
    let bx = b.x as int;
    if ax < bx {
        assert(ax * w + w <= bx * w) by (nonlinear_arith)
            requires
                ax + 1 <= bx,
                0 <= w,
        ;
    } else if bx < ax {
        assert(bx * w + w <= ax * w) by (nonlinear_arith)
            requires
                bx + 1 <= ax,
                0 <= w,
        ;
    }
}

/// Wrap law. A step stays on the grid and changes one coordinate only. Going
/// up from row 0 lands on the last row and down from the last row on row 0;
/// going left from column 0 lands on the last column and right from the last
/// column on column 0. Anywhere else the row or column moves by one.
pub proof fn lemma_neighbour_wraps(c: Cord, d: Direction, width: nat, height: nat)
    requires
        in_grid(c, width, height),
        width <= u32::MAX,
        height <= u32::MAX,
    ensures
        in_grid(neighbour(c, d, width, height), width, height),
        d == Direction::Up ==> neighbour(c, d, width, height) == (Cord {
            x: if c.x == 0 {
                (height - 1) as u32
            } else {
                (c.x - 1) as u32
            },
            y: c.y,
        }),
        d == Direction::Down ==> neighbour(c, d, width, height) == (Cord {
            x: if c.x == height - 1 {
                0u32
            } else {
                (c.x + 1) as u32
            },
            y: c.y,
        }),
        d == Direction::Left ==> neighbour(c, d, width, height) == (Cord {
            x: c.x,
            y: if c.y == 0 {
                (width - 1) as u32
            } else {
                (c.y - 1) as u32
            },
        }),
        d == Direction::Right ==> neighbour(c, d, width, height) == (Cord {
            x: c.x,
            y: if c.y == width - 1 {
                0u32
            } else {
                (c.y + 1) as u32
            },
        }),
{
    lemma_wrap_back(c.x as int, height as int);
    lemma_wrap_forth(c.x as int, height as int);
    lemma_wrap_back(c.y as int, width as int);
    lemma_wrap_forth(c.y as int, width as int);
}

/// One step back on a ring of `n` positions.
proof fn lemma_wrap_back(i: int, n: int)
    requires
        0 <= i < n,
    ensures
        (i + n - 1) % n == if i == 0 {
            n - 1
        } else {
            i - 1
        },
{
    if i == 0 {
        lemma_small_mod((n - 1) as nat, n as nat);
    } else {
        assert(i + n - 1 == n + (i - 1));
        lemma_mod_add_multiples_vanish(i - 1, n);
        lemma_small_mod((i - 1) as nat, n as nat);
    }
}

/// One step forth on a ring of `n` positions.
proof fn lemma_wrap_forth(i: int, n: int)
    requires
        0 <= i < n,
    ensures
        (i + 1) % n == if i == n - 1 {
            0
        } else {
            i + 1
        },
{
    if i == n - 1 {
        lemma_mod_self_0(n);
    } else {
        lemma_small_mod((i + 1) as nat, n as nat);
    }
}

} // verus!
