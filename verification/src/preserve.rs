//! Proofs that the constructors and transitions of the model keep its
//! invariant, and the facts about coverage and food slots they rest on.

use crate::grid::{
    in_grid, index_of, lemma_index_in_range, lemma_index_injective, lemma_neighbour_wraps,
    neighbour, Cell, Cord, Direction,
};
use crate::world::{covers, food_slot, free_cells, World};
use vstd::prelude::*;

verus! {

/// A snake with a new head covers what it covered before and the cell under
/// the new head.
pub proof fn lemma_covers_grown(body: Seq<Cord>, c: Cord, width: nat, i: int)
    ensures
        covers(seq![c] + body, width, i) <==> index_of(c, width) == i || covers(body, width, i),
{
    let grown = seq![c] + body;
    if covers(grown, width, i) {
        let j = choose|j: int| 0 <= j < grown.len() && index_of(#[trigger] grown[j], width) == i;
        if j > 0 {
            assert(index_of(body[j - 1], width) == i);
        }
    }
    if index_of(c, width) == i {
        assert(index_of(grown[0], width) == i);
    }
    if covers(body, width, i) {
        let j = choose|j: int| 0 <= j < body.len() && index_of(#[trigger] body[j], width) == i;
        assert(index_of(grown[j + 1], width) == i);
    }
}

/// A snake covers what it covers without its tail and the cell under the
/// tail.
pub proof fn lemma_covers_drop_last(body: Seq<Cord>, width: nat, i: int)
    requires
        body.len() >= 1,
    ensures
        covers(body, width, i) <==> index_of(body.last(), width) == i || covers(
            body.drop_last(),
            width,
            i,
        ),
{
    let front = body.drop_last();
    if covers(body, width, i) {
        let j = choose|j: int| 0 <= j < body.len() && index_of(#[trigger] body[j], width) == i;
        if j < body.len() - 1 {
            assert(index_of(front[j], width) == i);
        }
    }
    if index_of(body.last(), width) == i {
        assert(index_of(body[body.len() - 1], width) == i);
    }
    if covers(front, width, i) {
        let j = choose|j: int| 0 <= j < front.len() && index_of(#[trigger] front[j], width) == i;
        assert(index_of(body[j], width) == i);
    }
}

/// On a grid, a snake covers the cell under a coordinate exactly when the
/// coordinate is one of its segments.
pub proof fn lemma_covers_contains(body: Seq<Cord>, c: Cord, width: nat, height: nat)
    requires
        in_grid(c, width, height),
        forall|j: int| 0 <= j < body.len() ==> in_grid(#[trigger] body[j], width, height),
    ensures
        covers(body, width, index_of(c, width)) <==> body.contains(c),
{
    if covers(body, width, index_of(c, width)) {
        let j = choose|j: int|
            0 <= j < body.len() && index_of(#[trigger] body[j], width) == index_of(c, width);
        lemma_index_injective(body[j], c, width, height);
    }
    if body.contains(c) {
        let j = choose|j: int| 0 <= j < body.len() && body[j] == c;
        assert(index_of(body[j], width) == index_of(c, width));
    }
}

/// The free positions below `n + 1` are those below `n`, followed by `n`
/// itself when the snake does not cover it.
pub proof fn lemma_free_cells_next(body: Seq<Cord>, width: nat, n: nat)
    ensures
        free_cells(body, width, n + 1) == if covers(body, width, n as int) {
            free_cells(body, width, n)
        } else {
            free_cells(body, width, n).push(n as int)
        },
        free_cells(body, width, 0) == Seq::<int>::empty(),
{
    reveal(Seq::filter);
    let all = Seq::new(n + 1, |i: int| i);
    assert(all.drop_last() =~= Seq::new(n, |i: int| i));
}

/// Every free position is below `n` and uncovered, the free positions
/// ascend, and every uncovered position below `n` is among them.
pub proof fn lemma_free_cells(body: Seq<Cord>, width: nat, n: nat)
    ensures
        forall|k: int|
            0 <= k < free_cells(body, width, n).len() ==> 0 <= #[trigger] free_cells(
                body,
                width,
                n,
            )[k] < n && !covers(body, width, free_cells(body, width, n)[k]),
        forall|k: int, l: int|
            0 <= k < l < free_cells(body, width, n).len() ==> free_cells(body, width, n)[k]
                < free_cells(body, width, n)[l],
        forall|i: int|
            0 <= i < n && !covers(body, width, i) ==> free_cells(body, width, n).contains(i),
        free_cells(body, width, n).len() <= n,
    decreases n,
{
    if n > 0 {
        let m = (n - 1) as nat;
        lemma_free_cells(body, width, m);
        lemma_free_cells_next(body, width, m);
        let before = free_cells(body, width, m);
        let free = free_cells(body, width, n);
        assert forall|i: int| 0 <= i < n && !covers(body, width, i) implies free.contains(i) by {
            if i < m {
                let k = choose|k: int| 0 <= k < before.len() && before[k] == i;
                assert(free[k] == i);
            } else {
                assert(free[free.len() - 1] == i);
            }
        }
    }
}

/// A food slot is a position of the board that the snake does not cover, and
/// there is one unless the snake covers the whole board.
pub proof fn lemma_food_slot(body: Seq<Cord>, width: nat, n: nat, sample: nat)
    ensures
        match food_slot(body, width, n, sample) {
            Some(i) => 0 <= i < n && !covers(body, width, i),
            None => forall|i: int| 0 <= i < n ==> covers(body, width, i),
        },
{
    lemma_free_cells(body, width, n);
    let free = free_cells(body, width, n);
    if free.len() == 0 {
        assert forall|i: int| 0 <= i < n implies covers(body, width, i) by {
            if !covers(body, width, i) {
                assert(free.contains(i));
            }
        }
    } else {
        let k = (sample % free.len()) as int;
        assert(0 <= k < free.len()) by (nonlinear_arith)
            requires
                k == sample % free.len(),
                free.len() > 0,
        ;
    }
}

/// On a grid with at least two rows and two columns a step never leads back
/// to the cell it started from.
pub proof fn lemma_neighbour_differs(c: Cord, d: Direction, width: nat, height: nat)
    requires
        in_grid(c, width, height),
        2 <= width <= u32::MAX,
        2 <= height <= u32::MAX,
    ensures
        neighbour(c, d, width, height) != c,
{
    lemma_neighbour_wraps(c, d, width, height);
}

/// The state a game starts in satisfies the invariant.
pub proof fn lemma_initial_wf(width: nat, height: nat, start: Cord, sample: nat)
    requires
        1 <= width <= u32::MAX,
        1 <= height <= u32::MAX,
        in_grid(start, width, height),
    ensures
        World::initial(width, height, start, sample).wf(),
{
    let w = World::initial(width, height, start, sample);
    let body = seq![start];
    let at = index_of(start, width);
    let blank = Seq::new(width * height, |i: int| Cell::Dead);
    let marked = blank.update(at, Cell::Alive);
    lemma_index_in_range(start, width, height);
    lemma_food_slot(body, width, marked.len(), sample);
    assert forall|i: int| 0 <= i < w.cells.len() implies (#[trigger] w.cells[i] == Cell::Alive
        <==> covers(w.body, w.width, i)) by {
        if i == at {
            assert(index_of(body[0], width) == i);
        }
    }
}

/// A tick takes a state that satisfies the invariant to one that does.
pub proof fn lemma_step_wf(w: World, sample: nat)
    requires
        w.wf(),
    ensures
        w.step(sample).wf(),
{
    if !w.game_over {
        let width = w.width;
        let height = w.height;
        let head = w.head();
        let next = w.next_head();
        let grown = seq![next] + w.body;
        let after = w.step(sample);
        lemma_index_in_range(head, width, height);
        lemma_index_in_range(next, width, height);
        assert forall|i: int| covers(grown, width, i) <==> index_of(next, width) == i || covers(
            w.body,
            width,
            i,
        ) by {
            lemma_covers_grown(w.body, next, width, i);
        }
        match w.target() {
            Cell::Food => {
                // The food under the new head is eaten; the only food left
                // is the one just placed, on a cell the snake does not cover.
                lemma_food_slot(grown, width, w.cells.len(), sample);
                assert forall|i: int|
                    0 <= i < after.cells.len() && #[trigger] after.cells[i]
                        == Cell::Food implies food_slot(grown, width, w.cells.len(), sample)
                    == Some(i) by {}
            },
            Cell::Dead => {
                // The cell ahead is neither under the snake nor, on a grid
                // with two rows and columns, the head's own.
                let moved = grown.drop_last();
                let tail = w.body.last();
                lemma_index_in_range(tail, width, height);
                assert(moved =~= seq![next] + w.body.drop_last());
                assert forall|i: int| covers(w.body, width, i) <==> index_of(tail, width) == i
                    || covers(w.body.drop_last(), width, i) by {
                    lemma_covers_drop_last(w.body, width, i);
                }
                assert forall|i: int| covers(moved, width, i) <==> index_of(next, width) == i
                    || covers(w.body.drop_last(), width, i) by {
                    lemma_covers_grown(w.body.drop_last(), next, width, i);
                }
                if !w.degenerate() {
                    lemma_neighbour_differs(head, w.direction, width, height);
                    if w.body.contains(next) {
                        lemma_index_injective(next, head, width, height);
                    }
                }
            },
            Cell::Alive => {},
        }
    }
}

} // verus!
