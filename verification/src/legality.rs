//! The move-legality filter: which of the four directions are not
//! immediately fatal for one snake against the currently known geometry.
//!
//! Policy choices, applied uniformly: the mover's own full current body
//! occludes (no tail-vacancy modelling), other live snakes' non-head segments
//! occlude, and a candidate cell holding a strictly longer live snake's head
//! is excluded. An equal-length head meeting is *not* filtered here: the
//! transition function resolves it as a double elimination, so the search can
//! still weigh the sacrifice.

use vstd::prelude::*;

use crate::board::Board;
use crate::board::BoardView;
use crate::board::Coord;
use crate::board::Direction;
use crate::board::body_blocked;
use crate::board::coord_at;
use crate::board::dir_dx;
use crate::board::dir_dy;
use crate::board::head_of;
use crate::board::in_bounds;
use crate::board::snake_alive;
use crate::board::wf;

verus! {

/// Moving snake `i` in direction `d` is not immediately fatal: the candidate
/// head stays on the grid, misses the mover's own body, misses every
/// non-head segment of the other snakes, and does not meet the head of a
/// strictly longer live snake.
pub open spec fn legal_spec(bv: BoardView, i: int, d: Direction) -> bool {
    let cx = head_of(bv, i).x as int + dir_dx(d);
    let cy = head_of(bv, i).y as int + dir_dy(d);
    &&& in_bounds(bv, cx, cy)
    &&& !(exists|k: int|
        0 <= k < bv.snakes[i].body.len() && coord_at(#[trigger] bv.snakes[i].body[k], cx, cy))
    &&& !body_blocked(bv, cx, cy)
    &&& !(exists|j: int|
        0 <= j < bv.snakes.len() && j != i && snake_alive(bv, j) && coord_at(
            #[trigger] head_of(bv, j),
            cx,
            cy,
        ) && bv.snakes[j].body.len() > bv.snakes[i].body.len())
}

/// Some cell of `body` with index at least `start` is exactly `c`.
pub(crate) fn segment_hit(body: &Vec<Coord>, start: usize, c: Coord) -> (r: bool)
    ensures
        r == exists|k: int|
            start <= k < body@.len() && coord_at(#[trigger] body@[k], c.x as int, c.y as int),
{
    let mut k = start;
    while k < body.len()
        invariant
            start <= k,
            forall|m: int|
                start <= m < k ==> !coord_at(#[trigger] body@[m], c.x as int, c.y as int),
        decreases body@.len() - k,
    {
        if body[k].x == c.x && body[k].y == c.y {
            return true;
        }
        k = k + 1;
    }
    false
}

/// The legality filter: direction `d` is not immediately fatal for snake
/// `snake_index` on the given board.
pub fn is_legal(board: &Board, snake_index: usize, d: Direction) -> (r: bool)
    requires
        wf(board@),
        snake_index < board.snakes.len(),
        snake_alive(board@, snake_index as int),
    ensures
        r == legal_spec(board@, snake_index as int, d),
{
    let cand = board.candidate_head(snake_index, d);
    if !board.cell_in_bounds(cand) {
        return false;
    }
    if segment_hit(&board.snakes[snake_index].body, 0, cand) {
        return false;
    }
    let my_len = board.snakes[snake_index].body.len();
    let mut j: usize = 0;
    while j < board.snakes.len()
        invariant
            wf(board@),
            snake_index < board.snakes.len(),
            my_len == board@.snakes[snake_index as int].body.len(),
            cand.x as int == head_of(board@, snake_index as int).x as int + dir_dx(d),
            cand.y as int == head_of(board@, snake_index as int).y as int + dir_dy(d),
            j <= board.snakes.len(),
            forall|j2: int, k: int|
                0 <= j2 < j && 1 <= k < board@.snakes[j2].body.len() ==> !coord_at(
                    #[trigger] board@.snakes[j2].body[k],
                    cand.x as int,
                    cand.y as int,
                ),
            forall|j2: int|
                0 <= j2 < j && j2 != snake_index as int && snake_alive(board@, j2) && coord_at(
                    #[trigger] head_of(board@, j2),
                    cand.x as int,
                    cand.y as int,
                ) ==> !(board@.snakes[j2].body.len() > my_len),
        decreases board.snakes.len() - j,
    {
        if segment_hit(&board.snakes[j].body, 1, cand) {
            return false;
        }
        if j != snake_index && board.is_alive(j) {
            let other_head = board.snakes[j].body[0];
            if other_head.x == cand.x && other_head.y == cand.y
                && board.snakes[j].body.len() > my_len {
                assert(coord_at(head_of(board@, j as int), cand.x as int, cand.y as int));
                return false;
            }
        }
        j = j + 1;
    }
    true
}

/// A move whose candidate head lies outside the grid is never legal.
pub proof fn lemma_legal_stays_on_grid(bv: BoardView, i: int, d: Direction)
    ensures
        legal_spec(bv, i, d) ==> in_bounds(
            bv,
            head_of(bv, i).x as int + dir_dx(d),
            head_of(bv, i).y as int + dir_dy(d),
        ),
{
}

} // verus!
