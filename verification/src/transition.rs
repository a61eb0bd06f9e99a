//! The state-transition function: apply one snake's chosen direction to the
//! board, resolving wall, body and head-to-head collisions, food consumption,
//! and starvation, as one atomic update.
//!
//! Policy notes, applied uniformly: a dead snake stays in the collection with
//! an empty body and health 0; head-to-head ties eliminate both snakes in the
//! same call; a strictly longer mover eliminates the shorter head-on victim
//! and then completes its own move; hazards are carried in the board but
//! impose no health penalty here.

use vstd::prelude::*;

use crate::board::Board;
use crate::board::BoardView;
use crate::board::Battlesnake;
use crate::board::Coord;
use crate::board::Direction;
use crate::board::MAX_HEALTH;
use crate::board::SnakeView;
use crate::board::body_blocked;
use crate::board::coord_at;
use crate::board::copy_coords;
use crate::board::dir_dx;
use crate::board::dir_dy;
use crate::board::food_at;
use crate::board::food_index_from;
use crate::board::head_collider;
use crate::board::head_collider_from;
use crate::board::head_of;
use crate::board::in_bounds;
use crate::board::snake_alive;
use crate::board::snake_wf;
use crate::board::wf;
use crate::legality::segment_hit;

verus! {

/// `x` coordinate of the cell snake `i` moves onto in direction `d`.
pub open spec fn cand_x(bv: BoardView, i: int, d: Direction) -> int {
    head_of(bv, i).x as int + dir_dx(d)
}

/// `y` coordinate of the cell snake `i` moves onto in direction `d`.
pub open spec fn cand_y(bv: BoardView, i: int, d: Direction) -> int {
    head_of(bv, i).y as int + dir_dy(d)
}

/// The board with snake `i`'s health and body replaced; everything else,
/// the snake's identity included, is kept.
pub open spec fn set_snake(bv: BoardView, i: int, health: int, body: Seq<Coord>) -> BoardView {
    BoardView {
        width: bv.width,
        height: bv.height,
        snakes: bv.snakes.update(i, SnakeView { id: bv.snakes[i].id, health, body }),
        food: bv.food,
        hazards: bv.hazards,
    }
}

/// The board with snake `i` eliminated: health 0, body cleared.
pub open spec fn kill_snake(bv: BoardView, i: int) -> BoardView {
    set_snake(bv, i, 0, Seq::<Coord>::empty())
}

/// Steps that follow a resolved collision check: push the candidate cell as
/// the new head, then either consume food (health restored to the maximum,
/// tail kept, so the body grows by one) or starve one tick (health down by
/// one; at zero the snake dies, otherwise the tail is popped).
pub open spec fn advance_snake(bv: BoardView, i: int, cand: Coord) -> BoardView {
    let s = bv.snakes[i];
    match food_at(bv.food, cand.x as int, cand.y as int) {
        Some(k) => BoardView {
            width: bv.width,
            height: bv.height,
            snakes: bv.snakes.update(
                i,
                SnakeView { id: s.id, health: MAX_HEALTH as int, body: s.body.insert(0, cand) },
            ),
            food: bv.food.remove(k),
            hazards: bv.hazards,
        },
        None => {
            if s.health <= 1 {
                kill_snake(bv, i)
            } else {
                set_snake(bv, i, s.health - 1, s.body.insert(0, cand).drop_last())
            }
        },
    }
}

/// The whole transition: snake `i` moves in direction `d`. In order: wall
/// collision, body collision (against every snake's non-head segments, the
/// mover's own body included), head-to-head resolution by body length, then
/// the advance with food or starvation.
pub open spec fn transition_spec(bv: BoardView, i: int, d: Direction) -> BoardView {
    let cx = cand_x(bv, i, d);
    let cy = cand_y(bv, i, d);
    if !in_bounds(bv, cx, cy) {
        kill_snake(bv, i)
    } else if body_blocked(bv, cx, cy) {
        kill_snake(bv, i)
    } else {
        match head_collider(bv, i, cx, cy) {
            Some(j) => {
                if bv.snakes[j].body.len() > bv.snakes[i].body.len() {
                    kill_snake(bv, i)
                } else if bv.snakes[j].body.len() == bv.snakes[i].body.len() {
                    kill_snake(kill_snake(bv, i), j)
                } else {
                    advance_snake(kill_snake(bv, j), i, Coord { x: cx as i32, y: cy as i32 })
                }
            },
            None => advance_snake(bv, i, Coord { x: cx as i32, y: cy as i32 }),
        }
    }
}

/// The move ends with the mover occupying the candidate cell: it stays on the
/// grid, meets no body segment, and meets no head of an equal or longer
/// snake.
pub open spec fn move_resolves_to_advance(bv: BoardView, i: int, d: Direction) -> bool {
    let cx = cand_x(bv, i, d);
    let cy = cand_y(bv, i, d);
    &&& in_bounds(bv, cx, cy)
    &&& !body_blocked(bv, cx, cy)
    &&& match head_collider(bv, i, cx, cy) {
        Some(j) => bv.snakes[j].body.len() < bv.snakes[i].body.len(),
        None => true,
    }
}

/// The move resolves to an advance onto a food cell.
pub open spec fn transition_eats(bv: BoardView, i: int, d: Direction) -> bool {
    &&& move_resolves_to_advance(bv, i, d)
    &&& food_at(bv.food, cand_x(bv, i, d), cand_y(bv, i, d)) is Some
}

/// A head collider reported from scan position `j` is a live snake other
/// than `i` whose head sits on the point.
pub proof fn lemma_head_collider_from_props(bv: BoardView, i: int, x: int, y: int, j: int)
    requires
        head_collider_from(bv, i, x, y, j) is Some,
    ensures
        ({
            let r = head_collider_from(bv, i, x, y, j)->Some_0;
            &&& j <= r < bv.snakes.len()
            &&& r != i
            &&& snake_alive(bv, r)
            &&& coord_at(head_of(bv, r), x, y)
        }),
    decreases bv.snakes.len() - j,
{
    if j < 0 || j >= bv.snakes.len() {
    } else if j != i && snake_alive(bv, j) && coord_at(head_of(bv, j), x, y) {
    } else {
        lemma_head_collider_from_props(bv, i, x, y, j + 1);
    }
}

/// A food index reported from scan position `k` addresses a food cell on the
/// point.
pub proof fn lemma_food_index_from_props(food: Seq<Coord>, x: int, y: int, k: int)
    requires
        food_index_from(food, x, y, k) is Some,
    ensures
        ({
            let r = food_index_from(food, x, y, k)->Some_0;
            &&& k <= r < food.len()
            &&& coord_at(food[r], x, y)
        }),
    decreases food.len() - k,
{
    if k < 0 || k >= food.len() {
    } else if coord_at(food[k], x, y) {
    } else {
        lemma_food_index_from_props(food, x, y, k + 1);
    }
}

/// The transition never adds or removes entries of the snake collection:
/// a dead snake is cleared in place, not removed.
pub proof fn lemma_transition_len(bv: BoardView, i: int, d: Direction)
    requires
        0 <= i < bv.snakes.len(),
    ensures
        transition_spec(bv, i, d).snakes.len() == bv.snakes.len(),
{
    let cx = cand_x(bv, i, d);
    let cy = cand_y(bv, i, d);
    let cand = Coord { x: cx as i32, y: cy as i32 };
    if in_bounds(bv, cx, cy) && !body_blocked(bv, cx, cy) {
        match head_collider(bv, i, cx, cy) {
            Some(j) => {
                lemma_head_collider_from_props(bv, i, cx, cy, 0);
                assert(advance_snake(kill_snake(bv, j), i, cand).snakes.len()
                    == bv.snakes.len());
            },
            None => {
                assert(advance_snake(bv, i, cand).snakes.len() == bv.snakes.len());
            },
        }
    }
}

/// Eliminating one snake preserves the board invariant.
pub proof fn lemma_kill_wf(bv: BoardView, i: int)
    requires
        wf(bv),
        0 <= i < bv.snakes.len(),
    ensures
        wf(kill_snake(bv, i)),
{
    let bv2 = kill_snake(bv, i);
    assert(snake_wf(bv, i));
    assert forall|m: int| 0 <= m < bv2.snakes.len() implies #[trigger] snake_wf(bv2, m) by {
        assert(snake_wf(bv, m));
    }
    assert forall|k: int| 0 <= k < bv2.food.len() implies in_bounds(
        bv2,
        #[trigger] bv2.food[k].x as int,
        bv2.food[k].y as int,
    ) by {
        assert(in_bounds(bv, bv.food[k].x as int, bv.food[k].y as int));
    }
}

/// The advance step preserves the board invariant when the candidate cell is
/// on the grid.
pub proof fn lemma_advance_wf(bv: BoardView, i: int, cand: Coord)
    requires
        wf(bv),
        0 <= i < bv.snakes.len(),
        snake_alive(bv, i),
        in_bounds(bv, cand.x as int, cand.y as int),
    ensures
        wf(advance_snake(bv, i, cand)),
{
    let bv2 = advance_snake(bv, i, cand);
    let s = bv.snakes[i];
    assert(snake_wf(bv, i));
    match food_at(bv.food, cand.x as int, cand.y as int) {
        Some(k) => {
            lemma_food_index_from_props(bv.food, cand.x as int, cand.y as int, 0);
            s.body.insert_ensures(0, cand);
            bv.food.remove_ensures(k);
            assert forall|m: int| 0 <= m < bv2.snakes.len() implies #[trigger] snake_wf(bv2, m) by {
                assert(snake_wf(bv, m));
            }
            assert forall|m: int| 0 <= m < bv2.food.len() implies in_bounds(
                bv2,
                #[trigger] bv2.food[m].x as int,
                bv2.food[m].y as int,
            ) by {
                if m < k {
                    assert(bv2.food[m] == bv.food[m]);
                    assert(in_bounds(bv, bv.food[m].x as int, bv.food[m].y as int));
                } else {
                    assert(bv2.food[m] == bv.food[m + 1]);
                    assert(in_bounds(bv, bv.food[m + 1].x as int, bv.food[m + 1].y as int));
                }
            }
        },
        None => {
            if s.health <= 1 {
                lemma_kill_wf(bv, i);
            } else {
                s.body.insert_ensures(0, cand);
                assert(bv2.snakes[i].body.len() == s.body.len());
                assert(bv2.snakes[i].body[0] == cand);
                assert forall|m: int| 0 <= m < bv2.snakes.len() implies #[trigger] snake_wf(
                    bv2,
                    m,
                ) by {
                    assert(snake_wf(bv, m));
                }
                assert forall|m: int| 0 <= m < bv2.food.len() implies in_bounds(
                    bv2,
                    #[trigger] bv2.food[m].x as int,
                    bv2.food[m].y as int,
                ) by {
                    assert(in_bounds(bv, bv.food[m].x as int, bv.food[m].y as int));
                }
            }
        },
    }
}

/// The transition function preserves the board invariant.
pub proof fn lemma_transition_wf(bv: BoardView, i: int, d: Direction)
    requires
        wf(bv),
        0 <= i < bv.snakes.len(),
        snake_alive(bv, i),
    ensures
        wf(transition_spec(bv, i, d)),
{
    let cx = cand_x(bv, i, d);
    let cy = cand_y(bv, i, d);
    if !in_bounds(bv, cx, cy) {
        lemma_kill_wf(bv, i);
    } else if body_blocked(bv, cx, cy) {
        lemma_kill_wf(bv, i);
    } else {
        match head_collider(bv, i, cx, cy) {
            Some(j) => {
                lemma_head_collider_from_props(bv, i, cx, cy, 0);
                if bv.snakes[j].body.len() > bv.snakes[i].body.len() {
                    lemma_kill_wf(bv, i);
                } else if bv.snakes[j].body.len() == bv.snakes[i].body.len() {
                    lemma_kill_wf(bv, i);
                    lemma_kill_wf(kill_snake(bv, i), j);
                } else {
                    lemma_kill_wf(bv, j);
                    lemma_advance_wf(
                        kill_snake(bv, j),
                        i,
                        Coord { x: cx as i32, y: cy as i32 },
                    );
                }
            },
            None => {
                lemma_advance_wf(bv, i, Coord { x: cx as i32, y: cy as i32 });
            },
        }
    }
}

/// Law: a move that consumes food strictly lengthens the mover by one
/// segment, restores its health to the maximum, and removes exactly the one
/// matching coordinate from the food collection.
pub proof fn lemma_transition_eats(bv: BoardView, i: int, d: Direction)
    requires
        wf(bv),
        0 <= i < bv.snakes.len(),
        snake_alive(bv, i),
        transition_eats(bv, i, d),
    ensures
        ({
            let bv2 = transition_spec(bv, i, d);
            let k = food_at(bv.food, cand_x(bv, i, d), cand_y(bv, i, d))->Some_0;
            &&& bv2.snakes[i].body.len() == bv.snakes[i].body.len() + 1
            &&& bv2.snakes[i].health == MAX_HEALTH as int
            &&& 0 <= k < bv.food.len()
            &&& coord_at(bv.food[k], cand_x(bv, i, d), cand_y(bv, i, d))
            &&& bv2.food == bv.food.remove(k)
            &&& bv2.food.len() == bv.food.len() - 1
        }),
{
    let cx = cand_x(bv, i, d);
    let cy = cand_y(bv, i, d);
    let cand = Coord { x: cx as i32, y: cy as i32 };
    lemma_food_index_from_props(bv.food, cx, cy, 0);
    let k = food_at(bv.food, cx, cy)->Some_0;
    bv.food.remove_ensures(k);
    match head_collider(bv, i, cx, cy) {
        Some(j) => {
            lemma_head_collider_from_props(bv, i, cx, cy, 0);
            let killed = kill_snake(bv, j);
            assert(killed.snakes[i] == bv.snakes[i]);
            assert(killed.food == bv.food);
            bv.snakes[i].body.insert_ensures(0, cand);
        },
        None => {
            bv.snakes[i].body.insert_ensures(0, cand);
        },
    }
}

/// Law: a move that ends on an empty cell (no food eaten, no collision)
/// charges exactly one starvation tick and keeps the body length constant:
/// the candidate head is pushed and the tail is popped. The mover must have
/// at least two health; at exactly one, the starvation tick kills it and its
/// body is cleared instead.
pub proof fn lemma_transition_starves(bv: BoardView, i: int, d: Direction)
    requires
        wf(bv),
        0 <= i < bv.snakes.len(),
        snake_alive(bv, i),
        move_resolves_to_advance(bv, i, d),
        food_at(bv.food, cand_x(bv, i, d), cand_y(bv, i, d)) is None,
        bv.snakes[i].health >= 2,
    ensures
        ({
            let bv2 = transition_spec(bv, i, d);
            &&& bv2.snakes[i].health == bv.snakes[i].health - 1
            &&& bv2.snakes[i].body.len() == bv.snakes[i].body.len()
            &&& coord_at(bv2.snakes[i].body[0], cand_x(bv, i, d), cand_y(bv, i, d))
            &&& bv2.food == bv.food
        }),
{
    let cx = cand_x(bv, i, d);
    let cy = cand_y(bv, i, d);
    let cand = Coord { x: cx as i32, y: cy as i32 };
    match head_collider(bv, i, cx, cy) {
        Some(j) => {
            lemma_head_collider_from_props(bv, i, cx, cy, 0);
            let killed = kill_snake(bv, j);
            assert(killed.snakes[i] == bv.snakes[i]);
            assert(killed.food == bv.food);
            bv.snakes[i].body.insert_ensures(0, cand);
        },
        None => {
            bv.snakes[i].body.insert_ensures(0, cand);
        },
    }
}

/// Law: a head-to-head meeting of equal body lengths eliminates both snakes
/// in the same transition call; unequal lengths eliminate only the shorter.
/// A longer mover survives the collision itself, though it can still die of
/// the starvation tick it is charged while completing the move.
pub proof fn lemma_head_to_head(bv: BoardView, i: int, d: Direction)
    requires
        wf(bv),
        0 <= i < bv.snakes.len(),
        snake_alive(bv, i),
        in_bounds(bv, cand_x(bv, i, d), cand_y(bv, i, d)),
        !body_blocked(bv, cand_x(bv, i, d), cand_y(bv, i, d)),
        head_collider(bv, i, cand_x(bv, i, d), cand_y(bv, i, d)) is Some,
    ensures
        ({
            let j = head_collider(bv, i, cand_x(bv, i, d), cand_y(bv, i, d))->Some_0;
            let bv2 = transition_spec(bv, i, d);
            let li = bv.snakes[i].body.len();
            let lj = bv.snakes[j].body.len();
            &&& j != i
            &&& (lj == li ==> !snake_alive(bv2, i) && !snake_alive(bv2, j))
            &&& (lj > li ==> !snake_alive(bv2, i) && bv2.snakes[j] == bv.snakes[j])
            &&& (lj < li ==> !snake_alive(bv2, j) && (snake_alive(bv2, i) <==> (
                food_at(bv.food, cand_x(bv, i, d), cand_y(bv, i, d)) is Some
                    || bv.snakes[i].health >= 2)))
        }),
{
    let cx = cand_x(bv, i, d);
    let cy = cand_y(bv, i, d);
    let cand = Coord { x: cx as i32, y: cy as i32 };
    lemma_head_collider_from_props(bv, i, cx, cy, 0);
    let j = head_collider(bv, i, cx, cy)->Some_0;
    let li = bv.snakes[i].body.len();
    let lj = bv.snakes[j].body.len();
    if lj < li {
        let killed = kill_snake(bv, j);
        assert(killed.snakes[i] == bv.snakes[i]);
        assert(killed.food == bv.food);
        match food_at(bv.food, cx, cy) {
            Some(k) => {
                bv.snakes[i].body.insert_ensures(0, cand);
            },
            None => {
                if bv.snakes[i].health >= 2 {
                    bv.snakes[i].body.insert_ensures(0, cand);
                }
            },
        }
    }
}

/// Replace snake `i`'s health and body, keeping its identity.
fn set_snake_exec(board: &mut Board, i: usize, health: i32, body: Vec<Coord>)
    requires
        i < old(board).snakes.len(),
    ensures
        final(board)@ == set_snake(old(board)@, i as int, health as int, body@),
{
    let ghost pre = board@;
    let ghost bview = body@;
    let old_s = board.snakes.remove(i);
    let new_s = Battlesnake { id: old_s.id, health, body };
    board.snakes.insert(i, new_s);
    proof {
        let target = set_snake(pre, i as int, health as int, bview);
        assert forall|m: int| 0 <= m < board@.snakes.len() implies board@.snakes[m]
            == target.snakes[m] by {
        }
        assert(board@.snakes =~= target.snakes);
        assert(board@ =~= target);
    }
}

/// Eliminate snake `i`: health 0, body cleared.
fn kill_snake_exec(board: &mut Board, i: usize)
    requires
        i < old(board).snakes.len(),
    ensures
        final(board)@ == kill_snake(old(board)@, i as int),
{
    set_snake_exec(board, i, 0, Vec::new());
}

/// Some snake's non-head segment covers `c`.
fn body_hit(board: &Board, c: Coord) -> (r: bool)
    ensures
        r == body_blocked(board@, c.x as int, c.y as int),
{
    let mut j: usize = 0;
    while j < board.snakes.len()
        invariant
            j <= board.snakes.len(),
            forall|j2: int, k: int|
                0 <= j2 < j && 1 <= k < board@.snakes[j2].body.len() ==> !coord_at(
                    #[trigger] board@.snakes[j2].body[k],
                    c.x as int,
                    c.y as int,
                ),
        decreases board.snakes.len() - j,
    {
        if segment_hit(&board.snakes[j].body, 1, c) {
            proof {
                let bj = board@.snakes[j as int].body;
                assert(bj == board.snakes@[j as int].body@);
                let k = choose|k: int|
                    1 <= k < bj.len() && coord_at(#[trigger] bj[k], c.x as int, c.y as int);
                assert(coord_at(board@.snakes[j as int].body[k], c.x as int, c.y as int));
            }
            return true;
        }
        j = j + 1;
    }
    false
}

/// Lowest-indexed live snake other than `i` whose head sits on `c`.
fn find_head_collider(board: &Board, i: usize, c: Coord) -> (r: Option<usize>)
    requires
        i < board.snakes.len(),
    ensures
        match r {
            Some(j) => head_collider(board@, i as int, c.x as int, c.y as int) == Some(j as int)
                && j < board.snakes.len(),
            None => head_collider(board@, i as int, c.x as int, c.y as int) is None,
        },
{
    let ghost bv = board@;
    let ghost cx = c.x as int;
    let ghost cy = c.y as int;
    let mut j: usize = 0;
    while j < board.snakes.len()
        invariant
            j <= board.snakes.len(),
            i < board.snakes.len(),
            bv == board@,
            cx == c.x as int,
            cy == c.y as int,
            head_collider(bv, i as int, cx, cy) == head_collider_from(bv, i as int, cx, cy, j as int),
        decreases board.snakes.len() - j,
    {
        if j != i && board.is_alive(j) {
            let h = board.snakes[j].body[0];
            if h.x == c.x && h.y == c.y {
                return Some(j);
            }
        }
        j = j + 1;
    }
    None
}

/// Lowest-indexed food cell equal to `c`.
fn find_food(board: &Board, c: Coord) -> (r: Option<usize>)
    ensures
        match r {
            Some(k) => food_at(board@.food, c.x as int, c.y as int) == Some(k as int) && k
                < board.food.len(),
            None => food_at(board@.food, c.x as int, c.y as int) is None,
        },
{
    let ghost fv = board@.food;
    let ghost cx = c.x as int;
    let ghost cy = c.y as int;
    let mut k: usize = 0;
    while k < board.food.len()
        invariant
            k <= board.food.len(),
            fv == board@.food,
            cx == c.x as int,
            cy == c.y as int,
            food_at(fv, cx, cy) == food_index_from(fv, cx, cy, k as int),
        decreases board.food.len() - k,
    {
        let f = board.food[k];
        if f.x == c.x && f.y == c.y {
            return Some(k);
        }
        k = k + 1;
    }
    None
}

/// Apply snake `snake_index`'s move in direction `action` to the board, as
/// one atomic update: wall, body and head-to-head collisions are resolved,
/// food is consumed, and a starvation tick is charged otherwise. Returns the
/// food coordinate the mover consumed, if any.
pub fn simulate_move(board: &mut Board, snake_index: usize, action: Direction) -> (r: Option<
    Coord,
>)
    requires
        wf(old(board)@),
        snake_index < old(board).snakes.len(),
        snake_alive(old(board)@, snake_index as int),
    ensures
        final(board)@ == transition_spec(old(board)@, snake_index as int, action),
        wf(final(board)@),
        ({
            let bv = old(board)@;
            let i = snake_index as int;
            if transition_eats(bv, i, action) {
                let k = food_at(bv.food, cand_x(bv, i, action), cand_y(bv, i, action))->Some_0;
                r == Some(bv.food[k])
            } else {
                r is None
            }
        }),
{
    proof {
        lemma_transition_wf(old(board)@, snake_index as int, action);
    }
    let ghost bv = board@;
    let ghost i_spec = snake_index as int;
    let cand = board.candidate_head(snake_index, action);
    if !board.cell_in_bounds(cand) {
        kill_snake_exec(board, snake_index);
        return None;
    }
    if body_hit(board, cand) {
        kill_snake_exec(board, snake_index);
        return None;
    }
    let my_len = board.snakes[snake_index].body.len();
    match find_head_collider(board, snake_index, cand) {
        Some(j) => {
            proof {
                lemma_head_collider_from_props(bv, i_spec, cand.x as int, cand.y as int, 0);
            }
            let other_len = board.snakes[j].body.len();
            if other_len > my_len {
                kill_snake_exec(board, snake_index);
                return None;
            } else if other_len == my_len {
                kill_snake_exec(board, snake_index);
                kill_snake_exec(board, j);
                return None;
            } else {
                kill_snake_exec(board, j);
            }
        },
        None => {},
    }
    // The mover advances onto the candidate cell; collisions are resolved.
    let ghost mid = board@;
    match find_food(board, cand) {
        Some(k) => {
            let eaten = board.food[k];
            let _removed = board.food.remove(k);
            let mut nb = copy_coords(&board.snakes[snake_index].body);
            nb.insert(0, cand);
            set_snake_exec(board, snake_index, MAX_HEALTH, nb);
            proof {
                assert(board@ =~= advance_snake(mid, i_spec, cand));
            }
            return Some(eaten);
        },
        None => {
            let h = board.snakes[snake_index].health;
            if h <= 1 {
                kill_snake_exec(board, snake_index);
                proof {
                    assert(board@ =~= advance_snake(mid, i_spec, cand));
                }
                return None;
            }
            let mut nb = copy_coords(&board.snakes[snake_index].body);
            nb.insert(0, cand);
            let _tail = nb.pop();
            set_snake_exec(board, snake_index, h - 1, nb);
            proof {
                assert(board@ =~= advance_snake(mid, i_spec, cand));
            }
            return None;
        },
    }
}

} // verus!
