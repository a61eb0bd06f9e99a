//! Soundness of alpha-beta pruning: at the full window, the pruned search
//! chooses the same move and score as plain minimax at equal depth, on every
//! well-formed board. Pruning is an optimization, not a semantic change.
//!
//! The proof follows the classic fail-hard argument. A pruned ply searched
//! inside the window `(alpha, beta)` returns the exact plain value whenever
//! that value lies strictly inside the window, a value at most `alpha` when
//! the plain value is, and a value at least `beta` when the plain value is
//! (`lemma_window_sound`). At the root the window is full and the running
//! best score coincides with `alpha`, so the two searches walk the candidate
//! directions in lockstep (`lemma_pruning_preserves_the_choice`).

use vstd::prelude::*;

use crate::board::BoardView;
use crate::board::Direction;
use crate::board::snake_alive;
use crate::board::wf;
use crate::search::first_live_from;
use crate::search::minimax_spec;
use crate::search::search_dirs;

verus! {

/// Score of plain minimax (no pruning) for snake `my`, with `cur` to move.
pub open spec fn plain_value(bv: BoardView, depth: nat, cur: int, my: int) -> int {
    minimax_spec(bv, depth, cur, my, i32::MIN as int, i32::MAX as int, false).1
}

/// A snake reported by the live-scan is in range and alive.
proof fn lemma_first_live_props(bv: BoardView, start: int, fuel: nat)
    requires
        first_live_from(bv, start, fuel) is Some,
    ensures
        ({
            let r = first_live_from(bv, start, fuel)->Some_0;
            &&& 0 <= r < bv.snakes.len()
            &&& snake_alive(bv, r)
        }),
    decreases fuel,
{
    if fuel == 0 || !(0 <= start < bv.snakes.len()) {
    } else if snake_alive(bv, start) {
    } else {
        lemma_first_live_props(
            bv,
            (start + 1) % (bv.snakes.len() as int),
            (fuel - 1) as nat,
        );
    }
}

/// Without pruning, the window does not influence the result of a ply.
proof fn lemma_plain_window_irrelevant(
    bv: BoardView,
    depth: nat,
    cur: int,
    my: int,
    a1: int,
    b1: int,
    a2: int,
    b2: int,
)
    ensures
        minimax_spec(bv, depth, cur, my, a1, b1, false) == minimax_spec(
            bv,
            depth,
            cur,
            my,
            a2,
            b2,
            false,
        ),
    decreases depth, 1nat, 0nat,
{
    if depth == 0 || !snake_alive(bv, my) {
    } else if !(0 <= cur < bv.snakes.len() && snake_alive(bv, cur)) && crate::board::live_count(
        bv,
    ) < 2 {
    } else {
        match crate::search::actor_of(bv, cur) {
            None => {},
            Some(actor) => {
                lemma_plain_window_irrelevant_dirs(
                    bv,
                    depth,
                    actor,
                    my,
                    a1,
                    b1,
                    a2,
                    b2,
                    crate::search::all_dirs(),
                    None::<Direction>,
                    crate::search::worst_for(actor == my),
                );
            },
        }
    }
}

/// Without pruning, the window does not influence the fold over a ply's
/// candidate directions.
proof fn lemma_plain_window_irrelevant_dirs(
    bv: BoardView,
    depth: nat,
    actor: int,
    my: int,
    a1: int,
    b1: int,
    a2: int,
    b2: int,
    dirs: Seq<Direction>,
    best_move: Option<Direction>,
    best_score: int,
)
    ensures
        search_dirs(bv, depth, actor, my, a1, b1, false, dirs, best_move, best_score)
            == search_dirs(bv, depth, actor, my, a2, b2, false, dirs, best_move, best_score),
    decreases depth, 0nat, dirs.len(),
{
    if dirs.len() == 0 || depth == 0 {
    } else {
        let d = dirs[0];
        if !crate::legality::legal_spec(bv, actor, d) {
            lemma_plain_window_irrelevant_dirs(
                bv,
                depth,
                actor,
                my,
                a1,
                b1,
                a2,
                b2,
                dirs.drop_first(),
                best_move,
                best_score,
            );
        } else {
            let bv2 = crate::transition::transition_spec(bv, actor, d);
            let next = (actor + 1) % (bv.snakes.len() as int);
            lemma_plain_window_irrelevant(bv2, (depth - 1) as nat, next, my, a1, b1, a2, b2);
            let s = minimax_spec(bv2, (depth - 1) as nat, next, my, a1, b1, false).1;
            let improved = if actor == my {
                s > best_score
            } else {
                s < best_score
            };
            let bm = if improved {
                Some(d)
            } else {
                best_move
            };
            let bs = if improved {
                s
            } else {
                best_score
            };
            let a1n = if actor == my && bs > a1 {
                bs
            } else {
                a1
            };
            let b1n = if actor != my && bs < b1 {
                bs
            } else {
                b1
            };
            let a2n = if actor == my && bs > a2 {
                bs
            } else {
                a2
            };
            let b2n = if actor != my && bs < b2 {
                bs
            } else {
                b2
            };
            lemma_plain_window_irrelevant_dirs(
                bv,
                depth,
                actor,
                my,
                a1n,
                b1n,
                a2n,
                b2n,
                dirs.drop_first(),
                bm,
                bs,
            );
        }
    }
}

/// Without pruning, a maximizing fold never lowers its best score and a
/// minimizing fold never raises it.
proof fn lemma_plain_fold_monotone(
    bv: BoardView,
    depth: nat,
    actor: int,
    my: int,
    a: int,
    b: int,
    dirs: Seq<Direction>,
    best_move: Option<Direction>,
    best_score: int,
)
    ensures
        ({
            let r = search_dirs(bv, depth, actor, my, a, b, false, dirs, best_move, best_score);
            if actor == my {
                r.1 >= best_score
            } else {
                r.1 <= best_score
            }
        }),
    decreases depth, 0nat, dirs.len(),
{
    if dirs.len() == 0 || depth == 0 {
    } else {
        let d = dirs[0];
        if !crate::legality::legal_spec(bv, actor, d) {
            lemma_plain_fold_monotone(
                bv,
                depth,
                actor,
                my,
                a,
                b,
                dirs.drop_first(),
                best_move,
                best_score,
            );
        } else {
            let bv2 = crate::transition::transition_spec(bv, actor, d);
            let next = (actor + 1) % (bv.snakes.len() as int);
            let s = minimax_spec(bv2, (depth - 1) as nat, next, my, a, b, false).1;
            let improved = if actor == my {
                s > best_score
            } else {
                s < best_score
            };
            let bm = if improved {
                Some(d)
            } else {
                best_move
            };
            let bs = if improved {
                s
            } else {
                best_score
            };
            let an = if actor == my && bs > a {
                bs
            } else {
                a
            };
            let bn = if actor != my && bs < b {
                bs
            } else {
                b
            };
            lemma_plain_fold_monotone(bv, depth, actor, my, an, bn, dirs.drop_first(), bm, bs);
        }
    }
}

/// On a well-formed board every search score stays inside the score range.
proof fn lemma_value_bounds(
    bv: BoardView,
    depth: nat,
    cur: int,
    my: int,
    a: int,
    b: int,
    prune: bool,
)
    requires
        wf(bv),
        0 <= cur < bv.snakes.len(),
        0 <= my < bv.snakes.len(),
    ensures
        i32::MIN as int <= minimax_spec(bv, depth, cur, my, a, b, prune).1 <= i32::MAX as int,
    decreases depth, 1nat, 0nat,
{
    crate::eval::lemma_eval_bounds(bv, my);
    if depth == 0 || !snake_alive(bv, my) {
    } else if !(0 <= cur < bv.snakes.len() && snake_alive(bv, cur)) && crate::board::live_count(
        bv,
    ) < 2 {
    } else {
        match crate::search::actor_of(bv, cur) {
            None => {},
            Some(actor) => {
                lemma_first_live_props(bv, cur, bv.snakes.len() as nat);
                lemma_value_bounds_dirs(
                    bv,
                    depth,
                    actor,
                    my,
                    a,
                    b,
                    prune,
                    crate::search::all_dirs(),
                    None::<Direction>,
                    crate::search::worst_for(actor == my),
                );
            },
        }
    }
}

/// On a well-formed board the fold over a ply's candidate directions keeps
/// its best score inside the score range.
proof fn lemma_value_bounds_dirs(
    bv: BoardView,
    depth: nat,
    actor: int,
    my: int,
    a: int,
    b: int,
    prune: bool,
    dirs: Seq<Direction>,
    best_move: Option<Direction>,
    best_score: int,
)
    requires
        wf(bv),
        0 <= actor < bv.snakes.len(),
        snake_alive(bv, actor),
        0 <= my < bv.snakes.len(),
        i32::MIN as int <= best_score <= i32::MAX as int,
    ensures
        ({
            let r = search_dirs(bv, depth, actor, my, a, b, prune, dirs, best_move, best_score);
            i32::MIN as int <= r.1 <= i32::MAX as int
        }),
    decreases depth, 0nat, dirs.len(),
{
    if dirs.len() == 0 || depth == 0 {
    } else {
        let d = dirs[0];
        if !crate::legality::legal_spec(bv, actor, d) {
            lemma_value_bounds_dirs(
                bv,
                depth,
                actor,
                my,
                a,
                b,
                prune,
                dirs.drop_first(),
                best_move,
                best_score,
            );
        } else {
            let bv2 = crate::transition::transition_spec(bv, actor, d);
            let n = bv.snakes.len() as int;
            let next = (actor + 1) % n;
            crate::transition::lemma_transition_wf(bv, actor, d);
            crate::transition::lemma_transition_len(bv, actor, d);
            vstd::arithmetic::div_mod::lemma_mod_division_less_than_divisor(actor + 1, n);
            lemma_value_bounds(bv2, (depth - 1) as nat, next, my, a, b, prune);
            let s = minimax_spec(bv2, (depth - 1) as nat, next, my, a, b, prune).1;
            let improved = if actor == my {
                s > best_score
            } else {
                s < best_score
            };
            let bm = if improved {
                Some(d)
            } else {
                best_move
            };
            let bs = if improved {
                s
            } else {
                best_score
            };
            let an = if actor == my && bs > a {
                bs
            } else {
                a
            };
            let bn = if actor != my && bs < b {
                bs
            } else {
                b
            };
            if prune && bn <= an {
            } else {
                lemma_value_bounds_dirs(
                    bv,
                    depth,
                    actor,
                    my,
                    an,
                    bn,
                    prune,
                    dirs.drop_first(),
                    bm,
                    bs,
                );
            }
        }
    }
}

/// A maximizing fold that has already reached the top score keeps its state:
/// no later branch can strictly improve on it.
proof fn lemma_plain_fold_saturated(
    bv: BoardView,
    depth: nat,
    actor: int,
    my: int,
    a: int,
    b: int,
    dirs: Seq<Direction>,
    best_move: Option<Direction>,
)
    requires
        wf(bv),
        0 <= actor < bv.snakes.len(),
        snake_alive(bv, actor),
        0 <= my < bv.snakes.len(),
        actor == my,
    ensures
        search_dirs(bv, depth, actor, my, a, b, false, dirs, best_move, i32::MAX as int) == (
            best_move,
            i32::MAX as int,
        ),
    decreases depth, 0nat, dirs.len(),
{
    if dirs.len() == 0 || depth == 0 {
    } else {
        let d = dirs[0];
        if !crate::legality::legal_spec(bv, actor, d) {
            lemma_plain_fold_saturated(bv, depth, actor, my, a, b, dirs.drop_first(), best_move);
        } else {
            let bv2 = crate::transition::transition_spec(bv, actor, d);
            let n = bv.snakes.len() as int;
            let next = (actor + 1) % n;
            crate::transition::lemma_transition_wf(bv, actor, d);
            crate::transition::lemma_transition_len(bv, actor, d);
            vstd::arithmetic::div_mod::lemma_mod_division_less_than_divisor(actor + 1, n);
            lemma_value_bounds(bv2, (depth - 1) as nat, next, my, a, b, false);
            let bs = i32::MAX as int;
            let an = if bs > a {
                bs
            } else {
                a
            };
            lemma_plain_fold_saturated(bv, depth, actor, my, an, b, dirs.drop_first(), best_move);
        }
    }
}

/// Fail-hard soundness of one pruned ply searched inside `(a, b)`: its score
/// equals the plain value whenever that value lies strictly inside the
/// window, is at most `a` when the plain value is, and is at least `b` when
/// the plain value is.
proof fn lemma_window_sound(bv: BoardView, depth: nat, cur: int, my: int, a: int, b: int)
    requires
        wf(bv),
        0 <= cur < bv.snakes.len(),
        0 <= my < bv.snakes.len(),
        i32::MIN as int <= a < b <= i32::MAX as int,
    ensures
        ({
            let p = minimax_spec(bv, depth, cur, my, a, b, true).1;
            let v = plain_value(bv, depth, cur, my);
            &&& (v <= a ==> p <= a)
            &&& (a < v < b ==> p == v)
            &&& (v >= b ==> p >= b)
        }),
    decreases depth, 1nat, 0nat,
{
    if depth == 0 || !snake_alive(bv, my) {
    } else if !(0 <= cur < bv.snakes.len() && snake_alive(bv, cur)) && crate::board::live_count(
        bv,
    ) < 2 {
    } else {
        match crate::search::actor_of(bv, cur) {
            None => {},
            Some(actor) => {
                lemma_first_live_props(bv, cur, bv.snakes.len() as nat);
                if actor == my {
                    lemma_window_sound_dirs_max(
                        bv,
                        depth,
                        actor,
                        my,
                        a,
                        b,
                        None::<Direction>,
                        i32::MIN as int,
                        None::<Direction>,
                        i32::MIN as int,
                        crate::search::all_dirs(),
                    );
                } else {
                    lemma_window_sound_dirs_min(
                        bv,
                        depth,
                        actor,
                        my,
                        a,
                        b,
                        None::<Direction>,
                        i32::MAX as int,
                        None::<Direction>,
                        i32::MAX as int,
                        crate::search::all_dirs(),
                    );
                }
            },
        }
    }
}

/// The fold invariant behind `lemma_window_sound` at a maximizing ply. The
/// pruned fold runs at alpha raised to its best score so far; while the
/// plain best is at most the incoming `a0` the pruned best is too, and once
/// the plain best rises above `a0` the two bests coincide.
proof fn lemma_window_sound_dirs_max(
    bv: BoardView,
    depth: nat,
    actor: int,
    my: int,
    a0: int,
    b0: int,
    bm_p: Option<Direction>,
    bs_p: int,
    bm_v: Option<Direction>,
    bs_v: int,
    dirs: Seq<Direction>,
)
    requires
        wf(bv),
        0 <= actor < bv.snakes.len(),
        snake_alive(bv, actor),
        0 <= my < bv.snakes.len(),
        actor == my,
        depth >= 1,
        i32::MIN as int <= a0 < b0 <= i32::MAX as int,
        i32::MIN as int <= bs_p <= i32::MAX as int,
        i32::MIN as int <= bs_v <= i32::MAX as int,
        (if bs_p > a0 {
            bs_p
        } else {
            a0
        }) < b0,
        bs_v <= a0 ==> bs_p <= a0,
        bs_v > a0 ==> bs_p == bs_v,
    ensures
        ({
            let a_p = if bs_p > a0 {
                bs_p
            } else {
                a0
            };
            let rp = search_dirs(bv, depth, actor, my, a_p, b0, true, dirs, bm_p, bs_p);
            let rv = search_dirs(
                bv,
                depth,
                actor,
                my,
                i32::MIN as int,
                i32::MAX as int,
                false,
                dirs,
                bm_v,
                bs_v,
            );
            &&& rv.1 >= bs_v
            &&& (rv.1 <= a0 ==> rp.1 <= a0)
            &&& (a0 < rv.1 < b0 ==> rp.1 == rv.1)
            &&& (rv.1 >= b0 ==> rp.1 >= b0)
        }),
    decreases depth, 0nat, dirs.len(),
{
    let a_p = if bs_p > a0 {
        bs_p
    } else {
        a0
    };
    if dirs.len() == 0 {
    } else {
        let d = dirs[0];
        if !crate::legality::legal_spec(bv, actor, d) {
            lemma_window_sound_dirs_max(
                bv,
                depth,
                actor,
                my,
                a0,
                b0,
                bm_p,
                bs_p,
                bm_v,
                bs_v,
                dirs.drop_first(),
            );
        } else {
            let bv2 = crate::transition::transition_spec(bv, actor, d);
            let n = bv.snakes.len() as int;
            let next = (actor + 1) % n;
            crate::transition::lemma_transition_wf(bv, actor, d);
            crate::transition::lemma_transition_len(bv, actor, d);
            vstd::arithmetic::div_mod::lemma_mod_division_less_than_divisor(actor + 1, n);
            lemma_window_sound(bv2, (depth - 1) as nat, next, my, a_p, b0);
            lemma_value_bounds(bv2, (depth - 1) as nat, next, my, a_p, b0, true);
            lemma_value_bounds(
                bv2,
                (depth - 1) as nat,
                next,
                my,
                i32::MIN as int,
                i32::MAX as int,
                false,
            );
            let s_p = minimax_spec(bv2, (depth - 1) as nat, next, my, a_p, b0, true).1;
            let v_c = plain_value(bv2, (depth - 1) as nat, next, my);
            // One step of the plain fold.
            let improved_v = v_c > bs_v;
            let bm_v2 = if improved_v {
                Some(d)
            } else {
                bm_v
            };
            let bs_v2 = if improved_v {
                v_c
            } else {
                bs_v
            };
            let a_v2 = if bs_v2 > i32::MIN as int {
                bs_v2
            } else {
                i32::MIN as int
            };
            lemma_plain_window_irrelevant_dirs(
                bv,
                depth,
                actor,
                my,
                a_v2,
                i32::MAX as int,
                i32::MIN as int,
                i32::MAX as int,
                dirs.drop_first(),
                bm_v2,
                bs_v2,
            );
            // One step of the pruned fold.
            let improved_p = s_p > bs_p;
            let bm_p2 = if improved_p {
                Some(d)
            } else {
                bm_p
            };
            let bs_p2 = if improved_p {
                s_p
            } else {
                bs_p
            };
            let a2 = if bs_p2 > a_p {
                bs_p2
            } else {
                a_p
            };
            if b0 <= a2 {
                // The pruned fold cuts off: its best has reached the window's
                // top, so the plain fold also ends at or above `b0`.
                assert(bs_p2 == s_p);
                assert(v_c >= b0);
                assert(bs_v2 == v_c);
                lemma_plain_fold_monotone(
                    bv,
                    depth,
                    actor,
                    my,
                    i32::MIN as int,
                    i32::MAX as int,
                    dirs.drop_first(),
                    bm_v2,
                    bs_v2,
                );
            } else {
                lemma_window_sound_dirs_max(
                    bv,
                    depth,
                    actor,
                    my,
                    a0,
                    b0,
                    bm_p2,
                    bs_p2,
                    bm_v2,
                    bs_v2,
                    dirs.drop_first(),
                );
                assert(a2 == if bs_p2 > a0 {
                    bs_p2
                } else {
                    a0
                });
            }
        }
    }
}

/// The fold invariant behind `lemma_window_sound` at a minimizing ply,
/// mirror to the maximizing case: beta is lowered to the best score so far.
proof fn lemma_window_sound_dirs_min(
    bv: BoardView,
    depth: nat,
    actor: int,
    my: int,
    a0: int,
    b0: int,
    bm_p: Option<Direction>,
    bs_p: int,
    bm_v: Option<Direction>,
    bs_v: int,
    dirs: Seq<Direction>,
)
    requires
        wf(bv),
        0 <= actor < bv.snakes.len(),
        snake_alive(bv, actor),
        0 <= my < bv.snakes.len(),
        actor != my,
        depth >= 1,
        i32::MIN as int <= a0 < b0 <= i32::MAX as int,
        i32::MIN as int <= bs_p <= i32::MAX as int,
        i32::MIN as int <= bs_v <= i32::MAX as int,
        (if bs_p < b0 {
            bs_p
        } else {
            b0
        }) > a0,
        bs_v >= b0 ==> bs_p >= b0,
        bs_v < b0 ==> bs_p == bs_v,
    ensures
        ({
            let b_p = if bs_p < b0 {
                bs_p
            } else {
                b0
            };
            let rp = search_dirs(bv, depth, actor, my, a0, b_p, true, dirs, bm_p, bs_p);
            let rv = search_dirs(
                bv,
                depth,
                actor,
                my,
                i32::MIN as int,
                i32::MAX as int,
                false,
                dirs,
                bm_v,
                bs_v,
            );
            &&& rv.1 <= bs_v
            &&& (rv.1 >= b0 ==> rp.1 >= b0)
            &&& (a0 < rv.1 < b0 ==> rp.1 == rv.1)
            &&& (rv.1 <= a0 ==> rp.1 <= a0)
        }),
    decreases depth, 0nat, dirs.len(),
{
    let b_p = if bs_p < b0 {
        bs_p
    } else {
        b0
    };
    if dirs.len() == 0 {
    } else {
        let d = dirs[0];
        if !crate::legality::legal_spec(bv, actor, d) {
            lemma_window_sound_dirs_min(
                bv,
                depth,
                actor,
                my,
                a0,
                b0,
                bm_p,
                bs_p,
                bm_v,
                bs_v,
                dirs.drop_first(),
            );
        } else {
            let bv2 = crate::transition::transition_spec(bv, actor, d);
            let n = bv.snakes.len() as int;
            let next = (actor + 1) % n;
            crate::transition::lemma_transition_wf(bv, actor, d);
            crate::transition::lemma_transition_len(bv, actor, d);
            vstd::arithmetic::div_mod::lemma_mod_division_less_than_divisor(actor + 1, n);
            lemma_window_sound(bv2, (depth - 1) as nat, next, my, a0, b_p);
            lemma_value_bounds(bv2, (depth - 1) as nat, next, my, a0, b_p, true);
            lemma_value_bounds(
                bv2,
                (depth - 1) as nat,
                next,
                my,
                i32::MIN as int,
                i32::MAX as int,
                false,
            );
            let s_p = minimax_spec(bv2, (depth - 1) as nat, next, my, a0, b_p, true).1;
            let v_c = plain_value(bv2, (depth - 1) as nat, next, my);
            // One step of the plain fold.
            let improved_v = v_c < bs_v;
            let bm_v2 = if improved_v {
                Some(d)
            } else {
                bm_v
            };
            let bs_v2 = if improved_v {
                v_c
            } else {
                bs_v
            };
            let b_v2 = if bs_v2 < i32::MAX as int {
                bs_v2
            } else {
                i32::MAX as int
            };
            lemma_plain_window_irrelevant_dirs(
                bv,
                depth,
                actor,
                my,
                i32::MIN as int,
                b_v2,
                i32::MIN as int,
                i32::MAX as int,
                dirs.drop_first(),
                bm_v2,
                bs_v2,
            );
            // One step of the pruned fold.
            let improved_p = s_p < bs_p;
            let bm_p2 = if improved_p {
                Some(d)
            } else {
                bm_p
            };
            let bs_p2 = if improved_p {
                s_p
            } else {
                bs_p
            };
            let b2 = if bs_p2 < b_p {
                bs_p2
            } else {
                b_p
            };
            if b2 <= a0 {
                // The pruned fold cuts off: its best has fallen to the
                // window's bottom, so the plain fold also ends at or below
                // `a0`.
                assert(bs_p2 == s_p);
                assert(v_c <= a0);
                assert(bs_v2 == v_c);
                lemma_plain_fold_monotone(
                    bv,
                    depth,
                    actor,
                    my,
                    i32::MIN as int,
                    i32::MAX as int,
                    dirs.drop_first(),
                    bm_v2,
                    bs_v2,
                );
            } else {
                lemma_window_sound_dirs_min(
                    bv,
                    depth,
                    actor,
                    my,
                    a0,
                    b0,
                    bm_p2,
                    bs_p2,
                    bm_v2,
                    bs_v2,
                    dirs.drop_first(),
                );
                assert(b2 == if bs_p2 < b0 {
                    bs_p2
                } else {
                    b0
                });
            }
        }
    }
}

/// At the root the two folds walk in lockstep: with the full window, alpha
/// equal to the best score so far and no cutoff yet, the pruned and plain
/// folds carry identical state and return identical moves and scores.
proof fn lemma_root_fold_lockstep(
    bv: BoardView,
    depth: nat,
    actor: int,
    my: int,
    bm: Option<Direction>,
    bs: int,
    dirs: Seq<Direction>,
)
    requires
        wf(bv),
        0 <= actor < bv.snakes.len(),
        snake_alive(bv, actor),
        0 <= my < bv.snakes.len(),
        actor == my,
        depth >= 1,
        i32::MIN as int <= bs < i32::MAX as int,
    ensures
        search_dirs(bv, depth, actor, my, bs, i32::MAX as int, true, dirs, bm, bs)
            == search_dirs(
            bv,
            depth,
            actor,
            my,
            i32::MIN as int,
            i32::MAX as int,
            false,
            dirs,
            bm,
            bs,
        ),
    decreases depth, 0nat, dirs.len(),
{
    if dirs.len() == 0 {
    } else {
        let d = dirs[0];
        if !crate::legality::legal_spec(bv, actor, d) {
            lemma_root_fold_lockstep(bv, depth, actor, my, bm, bs, dirs.drop_first());
        } else {
            let bv2 = crate::transition::transition_spec(bv, actor, d);
            let n = bv.snakes.len() as int;
            let next = (actor + 1) % n;
            crate::transition::lemma_transition_wf(bv, actor, d);
            crate::transition::lemma_transition_len(bv, actor, d);
            vstd::arithmetic::div_mod::lemma_mod_division_less_than_divisor(actor + 1, n);
            lemma_window_sound(bv2, (depth - 1) as nat, next, my, bs, i32::MAX as int);
            lemma_value_bounds(
                bv2,
                (depth - 1) as nat,
                next,
                my,
                bs,
                i32::MAX as int,
                true,
            );
            lemma_value_bounds(
                bv2,
                (depth - 1) as nat,
                next,
                my,
                i32::MIN as int,
                i32::MAX as int,
                false,
            );
            let s_p = minimax_spec(bv2, (depth - 1) as nat, next, my, bs, i32::MAX as int, true).1;
            let v_c = plain_value(bv2, (depth - 1) as nat, next, my);
            if v_c <= bs {
                // Neither fold improves.
                assert(s_p <= bs);
                lemma_root_fold_lockstep(bv, depth, actor, my, bm, bs, dirs.drop_first());
                lemma_plain_window_irrelevant_dirs(
                    bv,
                    depth,
                    actor,
                    my,
                    if bs > i32::MIN as int {
                        bs
                    } else {
                        i32::MIN as int
                    },
                    i32::MAX as int,
                    i32::MIN as int,
                    i32::MAX as int,
                    dirs.drop_first(),
                    bm,
                    bs,
                );
            } else if v_c < i32::MAX as int {
                // Both folds improve to the same move and score.
                assert(s_p == v_c);
                lemma_root_fold_lockstep(bv, depth, actor, my, Some(d), v_c, dirs.drop_first());
                lemma_plain_window_irrelevant_dirs(
                    bv,
                    depth,
                    actor,
                    my,
                    v_c,
                    i32::MAX as int,
                    i32::MIN as int,
                    i32::MAX as int,
                    dirs.drop_first(),
                    Some(d),
                    v_c,
                );
            } else {
                // The branch reaches the top score: the pruned fold cuts off
                // with it, and the plain fold can never improve on it.
                assert(v_c == i32::MAX as int);
                assert(s_p == i32::MAX as int);
                lemma_plain_window_irrelevant_dirs(
                    bv,
                    depth,
                    actor,
                    my,
                    i32::MAX as int,
                    i32::MAX as int,
                    i32::MIN as int,
                    i32::MAX as int,
                    dirs.drop_first(),
                    Some(d),
                    i32::MAX as int,
                );
                lemma_plain_fold_saturated(
                    bv,
                    depth,
                    actor,
                    my,
                    i32::MIN as int,
                    i32::MAX as int,
                    dirs.drop_first(),
                    Some(d),
                );
            }
        }
    }
}

/// Law: alpha-beta pruning is an optimization, not a semantic change. On
/// every well-formed board, the pruned search over the full window returns
/// exactly the move and score of plain minimax at equal depth, for the
/// controlled snake to move.
pub proof fn lemma_pruning_preserves_the_choice(bv: BoardView, depth: nat, my: int)
    requires
        wf(bv),
        0 <= my < bv.snakes.len(),
    ensures
        minimax_spec(bv, depth, my, my, i32::MIN as int, i32::MAX as int, true) == minimax_spec(
            bv,
            depth,
            my,
            my,
            i32::MIN as int,
            i32::MAX as int,
            false,
        ),
{
    if depth == 0 || !snake_alive(bv, my) {
    } else {
        assert(crate::search::actor_of(bv, my) == Some(my));
        lemma_root_fold_lockstep(
            bv,
            depth,
            my,
            my,
            None::<Direction>,
            i32::MIN as int,
            crate::search::all_dirs(),
        );
    }
}

} // verus!
