//! What holds of every game: the laws of the model, each proved from its
//! definition and its invariant.

use crate::grid::{
    in_grid, index_of, lemma_index_in_range, lemma_index_injective, lemma_neighbour_wraps, Cell,
    Cord, Direction,
};
use crate::preserve::{
    lemma_covers_contains, lemma_covers_grown, lemma_food_slot, lemma_neighbour_differs,
};
use crate::world::{covers, food_slot, positions_of, World};
use vstd::prelude::*;
use vstd::set_lib::{lemma_int_range, lemma_len_subset, set_int_range};

verus! {

/// The positions that hold a given kind of cell are finitely many, no more
/// than there are cells.
pub proof fn lemma_positions_finite(cells: Seq<Cell>, kind: Cell)
    ensures
        positions_of(cells, kind).finite(),
        positions_of(cells, kind).len() <= cells.len(),
{
    lemma_int_range(0, cells.len() as int);
    lemma_len_subset(positions_of(cells, kind), set_int_range(0, cells.len() as int));
}

/// In every state of a game the coordinates whose cell is `Alive` are the
/// coordinates of the snake. Where no two segments share a cell, the number
/// of `Alive` cells is the length of the snake; and no two segments do while
/// the game runs on a grid with at least two rows and two columns.
pub proof fn lemma_alive_matches_body(w: World)
    requires
        w.wf(),
    ensures
        w.alive_coordinates() == w.body.to_set(),
        w.body.no_duplicates() ==> positions_of(w.cells, Cell::Alive).len() == w.body.len(),
        !w.game_over && !w.degenerate() ==> w.body.no_duplicates(),
{
    assert forall|c: Cord| w.alive_coordinates().contains(c) <==> w.body.to_set().contains(
        c,
    ) by {
        if in_grid(c, w.width, w.height) {
            lemma_index_in_range(c, w.width, w.height);
            lemma_covers_contains(w.body, c, w.width, w.height);
        } else if w.body.contains(c) {
            let j = choose|j: int| 0 <= j < w.body.len() && w.body[j] == c;
            assert(in_grid(w.body[j], w.width, w.height));
        }
    }
    assert(w.alive_coordinates() =~= w.body.to_set());
    if w.body.no_duplicates() {
        let at = w.body.map_values(|c: Cord| index_of(c, w.width));
        assert forall|i: int, j: int| 0 <= i < at.len() && 0 <= j < at.len() && i != j implies at[i]
            != at[j] by {
            assert(in_grid(w.body[i], w.width, w.height));
            assert(in_grid(w.body[j], w.width, w.height));
            if at[i] == at[j] {
                lemma_index_injective(w.body[i], w.body[j], w.width, w.height);
            }
        }
        at.unique_seq_to_set();
        assert forall|i: int| positions_of(w.cells, Cell::Alive).contains(i) <==> at.to_set().contains(
            i,
        ) by {
            if positions_of(w.cells, Cell::Alive).contains(i) {
                let j = choose|j: int|
                    0 <= j < w.body.len() && index_of(#[trigger] w.body[j], w.width) == i;
                assert(at[j] == i);
            }
            if at.to_set().contains(i) {
                let j = choose|j: int| 0 <= j < at.len() && at[j] == i;
                assert(in_grid(w.body[j], w.width, w.height));
                lemma_index_in_range(w.body[j], w.width, w.height);
                assert(index_of(w.body[j], w.width) == i);
            }
        }
        assert(positions_of(w.cells, Cell::Alive) =~= at.to_set());
    }
}

/// In every state of a game at most one cell holds food.
pub proof fn lemma_at_most_one_food(w: World)
    requires
        w.wf(),
    ensures
        positions_of(w.cells, Cell::Food).finite(),
        positions_of(w.cells, Cell::Food).len() <= 1,
{
    let food = positions_of(w.cells, Cell::Food);
    lemma_positions_finite(w.cells, Cell::Food);
    if food.len() > 0 {
        assert(food =~= set![food.choose()]);
    }
}

/// Reversal law. A request to turn to the direct reverse of the current
/// heading leaves the heading as it is; any other request, the current
/// heading included, becomes the heading. A turn changes nothing but the
/// heading and keeps the invariant.
pub proof fn lemma_turn(w: World, requested: Direction)
    ensures
        w.turn(w.direction.opposite()).direction == w.direction,
        requested != w.direction.opposite() ==> w.turn(requested).direction == requested,
        w.turn(requested) == (World { direction: w.turn(requested).direction, ..w }),
        w.wf() ==> w.turn(requested).wf(),
{
}

/// A game that is over stays as it is, and a game ends only when the head
/// runs into the snake.
pub proof fn lemma_game_over(w: World, sample: nat)
    ensures
        w.game_over ==> w.step(sample) == w,
        w.step(sample).game_over <==> w.game_over || w.target() == Cell::Alive,
{
}

/// Where the snake does not eat, the tick does not depend on the sample.
pub proof fn lemma_sample_only_for_food(w: World, a: nat, b: nat)
    requires
        w.game_over || w.target() != Cell::Food,
    ensures
        w.step(a) == w.step(b),
{
}

/// What the head finds ahead of it. It finds the cell `Alive` exactly when
/// the cell lies under a segment of the snake and is not the head's own.
pub proof fn lemma_target(w: World)
    requires
        w.wf(),
    ensures
        in_grid(w.next_head(), w.width, w.height),
        w.target() == if w.next_head() == w.head() {
            Cell::Dead
        } else {
            w.cells[index_of(w.next_head(), w.width)]
        },
        w.target() == Cell::Alive <==> w.next_head() != w.head() && w.body.contains(w.next_head()),
{
    let head = w.head();
    let next = w.next_head();
    lemma_neighbour_wraps(head, w.direction, w.width, w.height);
    lemma_index_in_range(head, w.width, w.height);
    lemma_index_in_range(next, w.width, w.height);
    lemma_covers_contains(w.body, next, w.width, w.height);
    if index_of(next, w.width) == index_of(head, w.width) {
        lemma_index_injective(next, head, w.width, w.height);
    }
}

/// Growth law. A tick onto food makes the snake one segment longer: the new
/// head is put in front and the tail stays. The food is eaten, and while a
/// cell is free of the longer snake exactly one cell holds food afterwards;
/// when the snake fills the board, none does.
pub proof fn lemma_growth(w: World, sample: nat)
    requires
        w.wf(),
        !w.game_over,
        w.target() == Cell::Food,
    ensures
        w.step(sample).body == seq![w.next_head()] + w.body,
        w.step(sample).body.len() == w.body.len() + 1,
        !w.step(sample).game_over,
        w.step(sample).cells[index_of(w.next_head(), w.width)] == Cell::Alive,
        positions_of(w.step(sample).cells, Cell::Food).len() == if exists|i: int|
            0 <= i < w.cells.len() && !covers(w.step(sample).body, w.width, i) {
            1nat
        } else {
            0nat
        },
        forall|i: int|
            #![auto]
            0 <= i < w.cells.len() ==> (w.step(sample).cells[i] == Cell::Food <==> food_slot(
                w.step(sample).body,
                w.width,
                w.cells.len(),
                sample,
            ) == Some(i)),
{
    let after = w.step(sample);
    let next = w.next_head();
    let grown = seq![next] + w.body;
    let at_next = index_of(next, w.width);
    let food = positions_of(after.cells, Cell::Food);
    lemma_index_in_range(next, w.width, w.height);
    lemma_index_in_range(w.head(), w.width, w.height);
    lemma_food_slot(grown, w.width, w.cells.len(), sample);
    assert(covers(grown, w.width, at_next)) by {
        assert(index_of(grown[0], w.width) == at_next);
    }
    assert forall|i: int| 0 <= i < w.cells.len() implies (#[trigger] after.cells[i] == Cell::Food
        <==> food_slot(grown, w.width, w.cells.len(), sample) == Some(i)) by {}
    match food_slot(grown, w.width, w.cells.len(), sample) {
        Some(slot) => {
            assert(food =~= set![slot]);
        },
        None => {
            assert(food =~= Set::<int>::empty());
        },
    }
}

/// Shrink-neutral law. A tick onto a dead cell keeps the length of the
/// snake: the new head is put in front and the tail is dropped. The cell the
/// tail leaves is `Dead` afterwards unless the moved snake still has a
/// segment on it, which cannot be on a grid with at least two rows and two
/// columns.
pub proof fn lemma_move(w: World, sample: nat)
    requires
        w.wf(),
        !w.game_over,
        w.target() == Cell::Dead,
    ensures
        w.step(sample).body == (seq![w.next_head()] + w.body).drop_last(),
        w.step(sample).body.len() == w.body.len(),
        !w.step(sample).game_over,
        w.step(sample).cells[index_of(w.next_head(), w.width)] == Cell::Alive,
        w.step(sample).cells[index_of(w.body.last(), w.width)] == Cell::Dead
            <==> !w.step(sample).body.contains(w.body.last()),
        !w.degenerate() ==> w.step(sample).cells[index_of(w.body.last(), w.width)] == Cell::Dead,
        forall|i: int|
            #![auto]
            0 <= i < w.cells.len() ==> (w.step(sample).cells[i] == Cell::Food <==> w.cells[i]
                == Cell::Food),
{
    let after = w.step(sample);
    let head = w.head();
    let next = w.next_head();
    let tail = w.body.last();
    let moved = (seq![next] + w.body).drop_last();
    lemma_target(w);
    lemma_index_in_range(next, w.width, w.height);
    lemma_index_in_range(head, w.width, w.height);
    lemma_index_in_range(tail, w.width, w.height);
    lemma_covers_contains(moved, tail, w.width, w.height);
    assert(covers(moved, w.width, index_of(next, w.width))) by {
        assert(index_of(moved[0], w.width) == index_of(next, w.width));
    }
    if !w.degenerate() {
        // The tail is not the new head, whose cell was dead, and no other
        // segment shares its cell.
        lemma_neighbour_differs(head, w.direction, w.width, w.height);
        assert(!moved.contains(tail));
    }
}

/// Collision law. A tick onto a cell under a segment other than the head
/// ends the game. The new head is put in front of the snake; the cells, the
/// size and the heading stay as they were.
pub proof fn lemma_collision(w: World, sample: nat)
    requires
        w.wf(),
        !w.game_over,
        w.target() == Cell::Alive,
    ensures
        w.step(sample) == (World {
            body: seq![w.next_head()] + w.body,
            game_over: true,
            ..w
        }),
{
    let after = w.step(sample);
    lemma_index_in_range(w.head(), w.width, w.height);
    assert forall|i: int| 0 <= i < w.cells.len() implies #[trigger] after.cells[i]
        == w.cells[i] by {
        lemma_covers_grown(w.body, w.next_head(), w.width, i);
    }
    assert(after.cells =~= w.cells);
}

} // verus!
