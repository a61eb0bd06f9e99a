//! The decision driver: one call per tick. It locates the controlled snake,
//! runs the pruned search at a fixed depth budget, and returns exactly one
//! direction. When the search offers no move (every branch is as bad as
//! death, or the snake is cornered) the driver falls back to a random choice
//! among the directions the legality filter still accepts on the unmodified
//! board, and to the documented default direction, `Up`, when none remain.
//! "No safe move" is an expected end-state, never an error.

use vstd::prelude::*;

use crate::board::Battlesnake;
use crate::board::Board;
use crate::board::BoardView;
use crate::board::Direction;
use crate::board::Game;
use crate::board::SnakeView;
use crate::board::clone_board;
use crate::board::snake_alive;
use crate::board::wf;
use crate::legality::is_legal;
use crate::legality::legal_spec;
use crate::search::minimax;
use crate::search::minimax_spec;

verus! {

/// Fixed per-tick depth budget of the search.
pub const SEARCH_DEPTH: u32 = 9;

/// First snake at or after index `j` whose identity is `id`.
pub open spec fn index_of_id_from(snakes: Seq<SnakeView>, id: Seq<char>, j: int) -> Option<int>
    decreases snakes.len() - j,
{
    if j < 0 || j >= snakes.len() {
        None
    } else if snakes[j].id == id {
        Some(j)
    } else {
        index_of_id_from(snakes, id, j + 1)
    }
}

/// Lowest index of the snake with the given identity.
pub open spec fn index_of_id(bv: BoardView, id: Seq<char>) -> Option<int> {
    index_of_id_from(bv.snakes, id, 0)
}

/// A reported identity index is in range and carries that identity.
pub proof fn lemma_index_of_id_props(snakes: Seq<SnakeView>, id: Seq<char>, j: int)
    requires
        index_of_id_from(snakes, id, j) is Some,
    ensures
        ({
            let r = index_of_id_from(snakes, id, j)->Some_0;
            &&& j <= r < snakes.len()
            &&& snakes[r].id == id
        }),
    decreases snakes.len() - j,
{
    if j < 0 || j >= snakes.len() {
    } else if snakes[j].id == id {
    } else {
        lemma_index_of_id_props(snakes, id, j + 1);
    }
}

/// Position of the snake with the given identity in the board's collection.
pub fn find_snake_index(board: &Board, id: &String) -> (r: Option<usize>)
    ensures
        match r {
            Some(i) => index_of_id(board@, id@) == Some(i as int) && i < board.snakes.len(),
            None => index_of_id(board@, id@) is None,
        },
{
    let ghost bv = board@;
    let mut j: usize = 0;
    while j < board.snakes.len()
        invariant
            j <= board.snakes.len(),
            bv == board@,
            index_of_id(bv, id@) == index_of_id_from(bv.snakes, id@, j as int),
        decreases board.snakes.len() - j,
    {
        if board.snakes[j].id == *id {
            return Some(j);
        }
        j = j + 1;
    }
    None
}

/// Relies on rand::random: draws one value of the type from the thread's
/// generator. Nothing can be promised of the value drawn.
pub assume_specification<T>[ rand::random::<T> ]() -> (r: T)
    where
        rand::distributions::Standard: rand::distributions::Distribution<T>,
;

/// The directions the legality filter accepts for snake `i`: exactly the
/// legal ones, each once, in the order `Up`, `Down`, `Left`, `Right`. An
/// empty result means every direction is immediately fatal.
pub fn legal_moves(board: &Board, i: usize) -> (r: Vec<Direction>)
    requires
        wf(board@),
        i < board.snakes.len(),
        snake_alive(board@, i as int),
    ensures
        forall|m: int| 0 <= m < r@.len() ==> legal_spec(board@, i as int, #[trigger] r@[m]),
        forall|d: Direction| legal_spec(board@, i as int, d) ==> r@.contains(d),
        r@.len() == 0 ==> forall|d: Direction| !legal_spec(board@, i as int, d),
{
    let ghost bv = board@;
    let mut r: Vec<Direction> = Vec::new();
    let lu = is_legal(board, i, Direction::Up);
    let ld = is_legal(board, i, Direction::Down);
    let ll = is_legal(board, i, Direction::Left);
    let lr = is_legal(board, i, Direction::Right);
    if lu {
        r.push(Direction::Up);
        assert(r@.last() == Direction::Up);
    }
    if ld {
        r.push(Direction::Down);
        assert(r@.last() == Direction::Down);
    }
    if ll {
        r.push(Direction::Left);
        assert(r@.last() == Direction::Left);
    }
    if lr {
        r.push(Direction::Right);
        assert(r@.last() == Direction::Right);
    }
    proof {
        assert forall|d: Direction| legal_spec(bv, i as int, d) implies r@.contains(d) by {
            match d {
                Direction::Up => assert(r@[0] == Direction::Up),
                Direction::Down => {
                    if lu {
                        assert(r@[1] == Direction::Down);
                    } else {
                        assert(r@[0] == Direction::Down);
                    }
                },
                Direction::Left => {
                    let at = if lu { 1int } else { 0int } + if ld { 1int } else { 0int };
                    assert(r@[at] == Direction::Left);
                },
                Direction::Right => {
                    let at = if lu { 1int } else { 0int } + if ld { 1int } else { 0int }
                        + if ll { 1int } else { 0int };
                    assert(r@[at] == Direction::Right);
                },
            }
        }
        if r@.len() == 0 {
            assert forall|d: Direction| !legal_spec(bv, i as int, d) by {
                assert(!r@.contains(d));
            }
        }
    }
    r
}

/// One tick's decision: the direction the controlled snake `you` should
/// move on this board. The pruned search runs at the fixed depth budget;
/// when it chooses a move that move is returned; otherwise a random legal
/// direction is returned, and `Up` when the snake is unknown, dead, or has
/// no legal direction at all.
pub fn get_move(_game: &Game, _turn: &i32, board: &Board, you: &Battlesnake) -> (r: Direction)
    requires
        wf(board@),
    ensures
        ({
            let bv = board@;
            match index_of_id(bv, you.id@) {
                None => r == Direction::Up,
                Some(my) => {
                    let best = minimax_spec(
                        bv,
                        SEARCH_DEPTH as nat,
                        my,
                        my,
                        i32::MIN as int,
                        i32::MAX as int,
                        true,
                    ).0;
                    match best {
                        Some(d) => r == d,
                        None => {
                            if snake_alive(bv, my) {
                                if exists|d2: Direction| legal_spec(bv, my, d2) {
                                    legal_spec(bv, my, r)
                                } else {
                                    r == Direction::Up
                                }
                            } else {
                                r == Direction::Up
                            }
                        },
                    }
                },
            }
        }),
{
    let ghost bv = board@;
    let my_index = match find_snake_index(board, &you.id) {
        Some(i) => i,
        None => {
            return Direction::Up;
        },
    };
    let mut sim = clone_board(board);
    let chosen = minimax(&mut sim, SEARCH_DEPTH, my_index, my_index, i32::MIN, i32::MAX);
    match chosen.0 {
        Some(d) => d,
        None => {
            if board.is_alive(my_index) {
                let moves = legal_moves(board, my_index);
                if moves.len() > 0 {
                    let roll: u64 = rand::random::<u64>();
                    let pick = (roll % (moves.len() as u64)) as usize;
                    moves[pick]
                } else {
                    Direction::Up
                }
            } else {
                Direction::Up
            }
        },
    }
}

/// Lifecycle hook invoked when a game begins. The engine keeps no state
/// between ticks, so there is nothing to set up; diagnostics belong to the
/// caller.
pub fn start(_game: &Game, _turn: &i32, _board: &Board, _you: &Battlesnake) {
}

/// Lifecycle hook invoked when a game finishes; the engine has nothing to
/// tear down.
pub fn end(_game: &Game, _turn: &i32, _board: &Board, _you: &Battlesnake) {
}

} // verus!
