//! The search engine: a depth-bounded minimax walk of the joint move space.
//! Snakes move one at a time in a fixed rotation (dead snakes are skipped);
//! the controlled snake maximizes the evaluator's score and every rival
//! minimizes it. Alpha-beta pruning can cut sibling branches; with pruning
//! off the same walk visits every legal branch.
//!
//! The central correctness invariant: a ply restores the board before trying
//! its next candidate direction, so no sibling branch ever observes another
//! branch's mutation, and the whole search leaves the board exactly as it
//! found it. Both results of `minimax` are pinned to the spec-level walk
//! `minimax_spec`, so two searches of equal boards return equal moves and
//! scores.

use vstd::prelude::*;

use crate::board::Board;
use crate::board::BoardView;
use crate::board::Direction;
use crate::board::live_count;
use crate::board::snake_alive;
use crate::board::wf;
use crate::eval::eval_spec;
use crate::eval::evaluate_board;
use crate::legality::is_legal;
use crate::legality::legal_spec;
use crate::board::copy_coords;
use crate::board::clone_snakes;
use crate::transition::simulate_move;
use crate::transition::transition_spec;

verus! {

/// First live snake at or after `start` in the cyclic turn order, giving up
/// after `fuel` steps.
pub open spec fn first_live_from(bv: BoardView, start: int, fuel: nat) -> Option<int>
    decreases fuel,
{
    if fuel == 0 || !(0 <= start < bv.snakes.len()) {
        None
    } else if snake_alive(bv, start) {
        Some(start)
    } else {
        first_live_from(bv, (start + 1) % (bv.snakes.len() as int), (fuel - 1) as nat)
    }
}

/// The snake that actually moves at a ply: the first live snake at or after
/// `cur` in the rotation, if any snake is live at all.
pub open spec fn actor_of(bv: BoardView, cur: int) -> Option<int> {
    first_live_from(bv, cur, bv.snakes.len() as nat)
}

/// The four directions in the order the search explores them; ties in score
/// therefore resolve toward the earlier direction, `Up` first.
pub open spec fn all_dirs() -> Seq<Direction> {
    seq![Direction::Up, Direction::Down, Direction::Left, Direction::Right]
}

/// Worst score for the side to move: the minimum when maximizing, the
/// maximum when minimizing. A ply with no legal direction keeps this value,
/// so forced death is maximally bad for the dying side.
pub open spec fn worst_for(maximizing: bool) -> int {
    if maximizing {
        i32::MIN as int
    } else {
        i32::MAX as int
    }
}

/// One ply of the search: the chosen direction (if any) and the score of the
/// board for snake `my`, exploring `depth` further moves, with window
/// `[alpha, beta]` when `prune` is set. Terminal when the depth is spent or
/// the controlled snake is dead; a ply whose mover is dead is skipped to the
/// next live snake, and gives up only when fewer than two snakes are live.
pub open spec fn minimax_spec(
    bv: BoardView,
    depth: nat,
    cur: int,
    my: int,
    alpha: int,
    beta: int,
    prune: bool,
) -> (Option<Direction>, int)
    decreases depth, 1nat, 0nat,
{
    if depth == 0 || !snake_alive(bv, my) {
        (None::<Direction>, eval_spec(bv, my))
    } else if !(0 <= cur < bv.snakes.len() && snake_alive(bv, cur)) && live_count(bv) < 2 {
        (None::<Direction>, eval_spec(bv, my))
    } else {
        match actor_of(bv, cur) {
            None => (None::<Direction>, eval_spec(bv, my)),
            Some(actor) => search_dirs(
                bv,
                depth,
                actor,
                my,
                alpha,
                beta,
                prune,
                all_dirs(),
                None::<Direction>,
                worst_for(actor == my),
            ),
        }
    }
}

/// Left fold over the remaining candidate directions of one ply, carrying
/// the best move and score so far and the pruning window. Illegal directions
/// are skipped; after each explored branch the window tightens, and with
/// `prune` set the fold stops once `beta <= alpha`.
pub open spec fn search_dirs(
    bv: BoardView,
    depth: nat,
    actor: int,
    my: int,
    alpha: int,
    beta: int,
    prune: bool,
    dirs: Seq<Direction>,
    best_move: Option<Direction>,
    best_score: int,
) -> (Option<Direction>, int)
    decreases depth, 0nat, dirs.len(),
{
    if dirs.len() == 0 || depth == 0 {
        (best_move, best_score)
    } else {
        let d = dirs[0];
        if !legal_spec(bv, actor, d) {
            search_dirs(bv, depth, actor, my, alpha, beta, prune, dirs.drop_first(), best_move, best_score)
        } else {
            let bv2 = transition_spec(bv, actor, d);
            let s = minimax_spec(
                bv2,
                (depth - 1) as nat,
                (actor + 1) % (bv.snakes.len() as int),
                my,
                alpha,
                beta,
                prune,
            ).1;
            let improved = if actor == my {
                s > best_score
            } else {
                s < best_score
            };
            let bm = if improved {
                Some(d)
            } else {
                best_move
            };
            let bs = if improved {
                s
            } else {
                best_score
            };
            let a2 = if actor == my && bs > alpha {
                bs
            } else {
                alpha
            };
            let b2 = if actor != my && bs < beta {
                bs
            } else {
                beta
            };
            if prune && b2 <= a2 {
                (bm, bs)
            } else {
                search_dirs(bv, depth, actor, my, a2, b2, prune, dirs.drop_first(), bm, bs)
            }
        }
    }
}

/// The direction the search explores at position `idx` of a ply.
fn dir_at(idx: usize) -> (d: Direction)
    requires
        idx < 4,
    ensures
        d == all_dirs()[idx as int],
{
    match idx {
        0 => Direction::Up,
        1 => Direction::Down,
        2 => Direction::Left,
        _ => Direction::Right,
    }
}

/// First live snake at or after `start` in the cyclic turn order.
fn next_live_from(board: &Board, start: usize) -> (r: Option<usize>)
    requires
        start < board.snakes.len(),
    ensures
        match r {
            Some(a) => actor_of(board@, start as int) == Some(a as int) && a
                < board.snakes.len() && snake_alive(board@, a as int),
            None => actor_of(board@, start as int) is None,
        },
{
    let n = board.snakes.len();
    let mut idx: usize = start;
    let mut k: usize = 0;
    while k < n
        invariant
            n == board.snakes.len(),
            idx < n,
            k <= n,
            actor_of(board@, start as int) == first_live_from(
                board@,
                idx as int,
                (n - k) as nat,
            ),
        decreases n - k,
    {
        if board.is_alive(idx) {
            return Some(idx);
        }
        proof {
            vstd::arithmetic::div_mod::lemma_mod_self_0(n as int);
            if idx + 1 < n {
                vstd::arithmetic::div_mod::lemma_small_mod((idx + 1) as nat, n as nat);
            }
        }
        idx = if idx + 1 == n {
            0
        } else {
            idx + 1
        };
        k = k + 1;
    }
    None
}

/// One ply of the executable search; mirrors `minimax_spec` exactly and
/// leaves the board as it found it.
fn search(
    board: &mut Board,
    depth: u32,
    current_index: usize,
    my_index: usize,
    alpha: i32,
    beta: i32,
    prune: bool,
) -> (r: (Option<Direction>, i32))
    requires
        wf(old(board)@),
        current_index < old(board).snakes.len(),
        my_index < old(board).snakes.len(),
    ensures
        final(board)@ == old(board)@,
        r.0 == minimax_spec(
            old(board)@,
            depth as nat,
            current_index as int,
            my_index as int,
            alpha as int,
            beta as int,
            prune,
        ).0,
        r.1 as int == minimax_spec(
            old(board)@,
            depth as nat,
            current_index as int,
            my_index as int,
            alpha as int,
            beta as int,
            prune,
        ).1,
    decreases depth,
{
    let ghost bv = board@;
    let ghost target = minimax_spec(
        bv,
        depth as nat,
        current_index as int,
        my_index as int,
        alpha as int,
        beta as int,
        prune,
    );
    if depth == 0 || !board.is_alive(my_index) {
        let e = evaluate_board(board, my_index);
        return (None, e);
    }
    if !board.is_alive(current_index) && board.count_live() < 2 {
        let e = evaluate_board(board, my_index);
        return (None, e);
    }
    let actor = match next_live_from(board, current_index) {
        Some(a) => a,
        None => {
            let e = evaluate_board(board, my_index);
            return (None, e);
        },
    };
    let maximizing = actor == my_index;
    let n = board.snakes.len();
    let mut best_move: Option<Direction> = None;
    let mut best_score: i32 = if maximizing {
        i32::MIN
    } else {
        i32::MAX
    };
    let mut cur_alpha: i32 = alpha;
    let mut cur_beta: i32 = beta;
    let mut idx: usize = 0;
    proof {
        assert(all_dirs().skip(0) =~= all_dirs());
    }
    while idx < 4
        invariant
            idx <= 4,
            n == board.snakes.len(),
            wf(board@),
            board@ == bv,
            bv == old(board)@,
            target == minimax_spec(
                bv,
                depth as nat,
                current_index as int,
                my_index as int,
                alpha as int,
                beta as int,
                prune,
            ),
            depth >= 1,
            actor < n,
            my_index < n,
            snake_alive(bv, actor as int),
            maximizing == (actor == my_index),
            target == search_dirs(
                bv,
                depth as nat,
                actor as int,
                my_index as int,
                cur_alpha as int,
                cur_beta as int,
                prune,
                all_dirs().skip(idx as int),
                best_move,
                best_score as int,
            ),
        decreases 4 - idx,
    {
        let d = dir_at(idx);
        proof {
            assert(all_dirs().skip(idx as int).len() == 4 - idx);
            assert(all_dirs().skip(idx as int)[0] == all_dirs()[idx as int]);
            assert(all_dirs().skip(idx as int).drop_first() =~= all_dirs().skip(idx as int + 1));
        }
        if is_legal(board, actor, d) {
            let saved_snakes = clone_snakes(&board.snakes);
            let saved_food = copy_coords(&board.food);
            let _eaten = simulate_move(board, actor, d);
            assert(board@ == transition_spec(bv, actor as int, d));
            proof {
                crate::transition::lemma_transition_len(bv, actor as int, d);
            }
            assert(board.snakes.len() == n);
            let next = if actor + 1 == n {
                0
            } else {
                actor + 1
            };
            proof {
                vstd::arithmetic::div_mod::lemma_mod_self_0(n as int);
                if actor + 1 < n {
                    vstd::arithmetic::div_mod::lemma_small_mod((actor + 1) as nat, n as nat);
                }
                assert(next as int == (actor as int + 1) % (n as int));
            }
            let sub = search(board, depth - 1, next, my_index, cur_alpha, cur_beta, prune);
            let s = sub.1;
            board.snakes = saved_snakes;
            board.food = saved_food;
            proof {
                assert(board@ =~= bv);
            }
            let improved = if maximizing {
                s > best_score
            } else {
                s < best_score
            };
            if improved {
                best_score = s;
                best_move = Some(d);
            }
            if maximizing {
                if best_score > cur_alpha {
                    cur_alpha = best_score;
                }
            } else {
                if best_score < cur_beta {
                    cur_beta = best_score;
                }
            }
            if prune && cur_beta <= cur_alpha {
                return (best_move, best_score);
            }
        }
        idx = idx + 1;
    }
    proof {
        assert(all_dirs().skip(4).len() == 0);
    }
    (best_move, best_score)
}

/// The search engine with alpha-beta pruning: explore `depth` further moves
/// from this board, snake `current_index` to move, snake `my_index`
/// maximizing, inside the window `[alpha, beta]`. Returns the chosen
/// direction for the snake to move (none at a terminal ply or when every
/// branch is as bad as death) and the score.
///
/// The board is returned exactly as it was given — no branch's mutation
/// leaks out — and both results equal `minimax_spec` of the inputs, so the
/// search is deterministic: equal boards give equal moves and scores.
pub fn minimax(
    board: &mut Board,
    depth: u32,
    current_index: usize,
    my_index: usize,
    alpha: i32,
    beta: i32,
) -> (r: (Option<Direction>, i32))
    requires
        wf(old(board)@),
        current_index < old(board).snakes.len(),
        my_index < old(board).snakes.len(),
    ensures
        final(board)@ == old(board)@,
        r.0 == minimax_spec(
            old(board)@,
            depth as nat,
            current_index as int,
            my_index as int,
            alpha as int,
            beta as int,
            true,
        ).0,
        r.1 as int == minimax_spec(
            old(board)@,
            depth as nat,
            current_index as int,
            my_index as int,
            alpha as int,
            beta as int,
            true,
        ).1,
{
    search(board, depth, current_index, my_index, alpha, beta, true)
}

/// The same walk with pruning disabled and a full window: plain minimax,
/// the reference semantics of the search. The pruned search provably
/// returns the same move and score at the full window (see the module on
/// pruning soundness), so this form exists for direct comparison.
pub fn minimax_plain(
    board: &mut Board,
    depth: u32,
    current_index: usize,
    my_index: usize,
) -> (r: (Option<Direction>, i32))
    requires
        wf(old(board)@),
        current_index < old(board).snakes.len(),
        my_index < old(board).snakes.len(),
    ensures
        final(board)@ == old(board)@,
        r.0 == minimax_spec(
            old(board)@,
            depth as nat,
            current_index as int,
            my_index as int,
            i32::MIN as int,
            i32::MAX as int,
            false,
        ).0,
        r.1 as int == minimax_spec(
            old(board)@,
            depth as nat,
            current_index as int,
            my_index as int,
            i32::MIN as int,
            i32::MAX as int,
            false,
        ).1,
{
    search(board, depth, current_index, my_index, i32::MIN, i32::MAX, false)
}

} // verus!
