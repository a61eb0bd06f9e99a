//! The positional evaluator: maps a board and a reference snake to a scalar
//! score, higher being better for that snake. The score combines survival
//! (dead reference snake scores the minimum), eliminated rivals, raw health,
//! body length, a nearly-full-health bonus, urgency toward the nearest food,
//! a penalty for hugging walls, and the count of free cells around the head.
//! The exact weights are tunable and carry no structural meaning; the shape
//! of each term is pinned by `eval_spec`.

use vstd::prelude::*;

use crate::board::Board;
use crate::board::BoardView;
use crate::board::Coord;
use crate::board::MAX_DIM;
use crate::board::MAX_UNITS;
use crate::board::SnakeView;
use crate::board::cell_occupied;
use crate::board::coord_at;
use crate::board::in_bounds;
use crate::board::snake_wf;
use crate::board::wf;
use crate::legality::segment_hit;

verus! {

/// Score of a dead reference snake; also the search's "worst case" sentinel
/// for a maximizing ply.
pub const DEAD_SCORE: i32 = i32::MIN;

/// Bonus per eliminated rival.
pub const RIVAL_DOWN_BONUS: i32 = 500;

/// Weight of one body segment.
pub const LENGTH_WEIGHT: i32 = 100;

/// Bonus for health above this threshold.
pub const WELL_FED_THRESHOLD: i32 = 95;

/// Size of the well-fed bonus.
pub const WELL_FED_BONUS: i32 = 100;

/// Numerator of the food-urgency term.
pub const FOOD_URGENCY_SCALE: i32 = 100;

/// Penalty for a head within two cells of a wall.
pub const WALL_PENALTY: i32 = 100;

/// Reward per free orthogonal neighbor of the head.
pub const SPACE_WEIGHT: i32 = 50;

/// Absolute value of an integer.
pub open spec fn abs_int(v: int) -> int {
    if v < 0 {
        -v
    } else {
        v
    }
}

/// Manhattan distance between a cell and the point `(x, y)`.
pub open spec fn manhattan(c: Coord, x: int, y: int) -> int {
    abs_int(c.x as int - x) + abs_int(c.y as int - y)
}

/// Least Manhattan distance from `(hx, hy)` to one of the first `n` food
/// cells; the sentinel `i32::MAX` when there are none.
pub open spec fn min_food_dist_upto(food: Seq<Coord>, hx: int, hy: int, n: int) -> int
    decreases n,
{
    if n <= 0 {
        i32::MAX as int
    } else {
        let prev = min_food_dist_upto(food, hx, hy, n - 1);
        let dn = manhattan(food[n - 1], hx, hy);
        if dn < prev {
            dn
        } else {
            prev
        }
    }
}

/// Least Manhattan distance from `(hx, hy)` to any food cell.
pub open spec fn min_food_dist(bv: BoardView, hx: int, hy: int) -> int {
    min_food_dist_upto(bv.food, hx, hy, bv.food.len() as int)
}

/// Number of dead snakes other than `my` among the first `n`.
pub open spec fn dead_rivals_upto(snakes: Seq<SnakeView>, my: int, n: int) -> int
    decreases n,
{
    if n <= 0 {
        0
    } else {
        dead_rivals_upto(snakes, my, n - 1) + if n - 1 != my && snakes[n - 1].body.len() == 0 {
            1int
        } else {
            0int
        }
    }
}

/// Number of dead snakes other than `my` on the board.
pub open spec fn dead_rivals(bv: BoardView, my: int) -> int {
    dead_rivals_upto(bv.snakes, my, bv.snakes.len() as int)
}

/// The point is on the grid and no snake segment covers it.
pub open spec fn free_cell(bv: BoardView, x: int, y: int) -> bool {
    in_bounds(bv, x, y) && !cell_occupied(bv, x, y)
}

/// Number of free orthogonal neighbors of `(hx, hy)`.
pub open spec fn free_neighbor_count(bv: BoardView, hx: int, hy: int) -> int {
    (if free_cell(bv, hx, hy + 1) {
        1int
    } else {
        0int
    }) + (if free_cell(bv, hx, hy - 1) {
        1int
    } else {
        0int
    }) + (if free_cell(bv, hx - 1, hy) {
        1int
    } else {
        0int
    }) + (if free_cell(bv, hx + 1, hy) {
        1int
    } else {
        0int
    })
}

/// The head is within two cells of some wall.
pub open spec fn near_wall(bv: BoardView, hx: int, hy: int) -> bool {
    hx < 2 || hx > bv.width - 3 || hy < 2 || hy > bv.height - 3
}

/// The food-urgency term: decays with distance to the nearest food, zero
/// when the board has no food.
pub open spec fn food_term(bv: BoardView, hx: int, hy: int) -> int {
    let mfd = min_food_dist(bv, hx, hy);
    if mfd != i32::MAX as int {
        FOOD_URGENCY_SCALE as int / (mfd + 1)
    } else {
        0
    }
}

/// The full evaluation: the minimum for a dead reference snake, otherwise
/// the weighted sum of the terms described at the top of this module.
pub open spec fn eval_spec(bv: BoardView, my: int) -> int {
    if bv.snakes[my].body.len() == 0 {
        DEAD_SCORE as int
    } else {
        let s = bv.snakes[my];
        let hx = s.body[0].x as int;
        let hy = s.body[0].y as int;
        RIVAL_DOWN_BONUS as int * dead_rivals(bv, my) + s.health + LENGTH_WEIGHT as int
            * s.body.len() + (if s.health > WELL_FED_THRESHOLD as int {
            WELL_FED_BONUS as int
        } else {
            0int
        }) + food_term(bv, hx, hy) + (if near_wall(bv, hx, hy) {
            -(WALL_PENALTY as int)
        } else {
            0int
        }) + SPACE_WEIGHT as int * free_neighbor_count(bv, hx, hy)
    }
}

/// Two snake collections whose entries agree everywhere but at `my` produce
/// the same dead-rival count.
proof fn lemma_dead_rivals_same(s1: Seq<SnakeView>, s2: Seq<SnakeView>, my: int, n: int)
    requires
        forall|m: int| 0 <= m < n && m != my ==> s1[m] == s2[m],
    ensures
        dead_rivals_upto(s1, my, n) == dead_rivals_upto(s2, my, n),
    decreases n,
{
    if n > 0 {
        lemma_dead_rivals_same(s1, s2, my, n - 1);
    }
}

/// Two boards of equal geometry whose snakes carry the same bodies occupy
/// the same cells.
proof fn lemma_occupied_same(bv1: BoardView, bv2: BoardView, x: int, y: int)
    requires
        bv1.snakes.len() == bv2.snakes.len(),
        forall|j: int| 0 <= j < bv1.snakes.len() ==> #[trigger] bv2.snakes[j].body
            == bv1.snakes[j].body,
    ensures
        cell_occupied(bv1, x, y) == cell_occupied(bv2, x, y),
{
    if cell_occupied(bv1, x, y) {
        let (j, k) = choose|j: int, k: int|
            0 <= j < bv1.snakes.len() && 0 <= k < bv1.snakes[j].body.len() && coord_at(
                #[trigger] bv1.snakes[j].body[k],
                x,
                y,
            );
        assert(coord_at(bv2.snakes[j].body[k], x, y));
    }
    if cell_occupied(bv2, x, y) {
        let (j, k) = choose|j: int, k: int|
            0 <= j < bv2.snakes.len() && 0 <= k < bv2.snakes[j].body.len() && coord_at(
                #[trigger] bv2.snakes[j].body[k],
                x,
                y,
            );
        assert(coord_at(bv1.snakes[j].body[k], x, y));
    }
}

/// Law: the evaluation is monotonic in the reference snake's health — with
/// everything else on the board unchanged, raising the snake's health never
/// lowers its score.
pub proof fn lemma_eval_monotonic_in_health(bv: BoardView, my: int, h2: int)
    requires
        0 <= my < bv.snakes.len(),
        bv.snakes[my].body.len() > 0,
        bv.snakes[my].health <= h2,
    ensures
        eval_spec(bv, my) <= eval_spec(
            crate::transition::set_snake(bv, my, h2, bv.snakes[my].body),
            my,
        ),
{
    let bv2 = crate::transition::set_snake(bv, my, h2, bv.snakes[my].body);
    let hx = bv.snakes[my].body[0].x as int;
    let hy = bv.snakes[my].body[0].y as int;
    lemma_dead_rivals_same(bv.snakes, bv2.snakes, my, bv.snakes.len() as int);
    assert(min_food_dist(bv2, hx, hy) == min_food_dist(bv, hx, hy));
    lemma_occupied_same(bv, bv2, hx, hy + 1);
    lemma_occupied_same(bv, bv2, hx, hy - 1);
    lemma_occupied_same(bv, bv2, hx - 1, hy);
    lemma_occupied_same(bv, bv2, hx + 1, hy);
    assert(free_neighbor_count(bv2, hx, hy) == free_neighbor_count(bv, hx, hy));
}

/// The dead-rival count lies between 0 and `n`.
proof fn lemma_dead_rivals_bounds(snakes: Seq<SnakeView>, my: int, n: int)
    requires
        n >= 0,
    ensures
        0 <= dead_rivals_upto(snakes, my, n) <= n,
    decreases n,
{
    if n > 0 {
        lemma_dead_rivals_bounds(snakes, my, n - 1);
    }
}

/// The running food-distance minimum stays between 0 and the sentinel.
proof fn lemma_min_food_dist_bounds(food: Seq<Coord>, hx: int, hy: int, n: int)
    requires
        n >= 0,
    ensures
        0 <= min_food_dist_upto(food, hx, hy, n) <= i32::MAX as int,
    decreases n,
{
    if n > 0 {
        lemma_min_food_dist_bounds(food, hx, hy, n - 1);
    }
}

/// On a well-formed board every evaluation fits the score range: the bounds
/// of the board invariant cap each term.
pub proof fn lemma_eval_bounds(bv: BoardView, my: int)
    requires
        wf(bv),
        0 <= my < bv.snakes.len(),
    ensures
        i32::MIN as int <= eval_spec(bv, my) <= i32::MAX as int,
{
    if bv.snakes[my].body.len() > 0 {
        let s = bv.snakes[my];
        let hx = s.body[0].x as int;
        let hy = s.body[0].y as int;
        assert(snake_wf(bv, my));
        lemma_dead_rivals_bounds(bv.snakes, my, bv.snakes.len() as int);
        let dr = dead_rivals(bv, my);
        assert(RIVAL_DOWN_BONUS as int * dr == 500 * dr);
        let len = s.body.len() as int;
        assert(LENGTH_WEIGHT as int * len == 100 * len);
        lemma_min_food_dist_bounds(bv.food, hx, hy, bv.food.len() as int);
        let mfd = min_food_dist(bv, hx, hy);
        if mfd != i32::MAX as int {
            vstd::arithmetic::div_mod::lemma_div_pos_is_pos(FOOD_URGENCY_SCALE as int, mfd + 1);
            vstd::arithmetic::div_mod::lemma_div_nonincreasing(
                FOOD_URGENCY_SCALE as int,
                mfd + 1,
            );
        }
        assert(0 <= food_term(bv, hx, hy) <= 100);
        let fc = free_neighbor_count(bv, hx, hy);
        assert(SPACE_WEIGHT as int * fc == 50 * fc);
        assert(0 <= 50 * fc <= 200);
    }
}

/// Manhattan distance between two cells, both within the accepted grid range.
fn manhattan_dist(a: Coord, x: i32, y: i32) -> (r: i32)
    requires
        0 <= a.x <= MAX_DIM,
        0 <= a.y <= MAX_DIM,
        0 <= x <= MAX_DIM,
        0 <= y <= MAX_DIM,
    ensures
        r as int == manhattan(a, x as int, y as int),
        0 <= r <= 2 * MAX_DIM,
{
    let dx = if a.x >= x {
        a.x - x
    } else {
        x - a.x
    };
    let dy = if a.y >= y {
        a.y - y
    } else {
        y - a.y
    };
    dx + dy
}

/// The point is on the grid and free of every snake segment.
fn is_free_cell(board: &Board, x: i32, y: i32) -> (r: bool)
    ensures
        r == free_cell(board@, x as int, y as int),
{
    if !(0 <= x && x < board.width && 0 <= y && y < board.height) {
        return false;
    }
    let c = Coord { x, y };
    let mut j: usize = 0;
    while j < board.snakes.len()
        invariant
            j <= board.snakes.len(),
            c.x == x && c.y == y,
            forall|j2: int, k: int|
                0 <= j2 < j && 0 <= k < board@.snakes[j2].body.len() ==> !coord_at(
                    #[trigger] board@.snakes[j2].body[k],
                    x as int,
                    y as int,
                ),
        decreases board.snakes.len() - j,
    {
        if segment_hit(&board.snakes[j].body, 0, c) {
            proof {
                let bj = board@.snakes[j as int].body;
                assert(bj == board.snakes@[j as int].body@);
                let k = choose|k: int|
                    0 <= k < bj.len() && coord_at(#[trigger] bj[k], x as int, y as int);
                assert(coord_at(board@.snakes[j as int].body[k], x as int, y as int));
            }
            return false;
        }
        j = j + 1;
    }
    true
}

/// The evaluator: the desirability of the board for snake `my_index`.
#[verifier::rlimit(60)]
pub fn evaluate_board(board: &Board, my_index: usize) -> (r: i32)
    requires
        wf(board@),
        my_index < board.snakes.len(),
    ensures
        r as int == eval_spec(board@, my_index as int),
{
    let ghost bv = board@;
    if board.snakes[my_index].body.len() == 0 {
        return DEAD_SCORE;
    }
    assert(snake_wf(bv, my_index as int));
    let head = board.snakes[my_index].body[0];
    let health = board.snakes[my_index].health;
    let my_len = board.snakes[my_index].body.len();

    // Rivals already eliminated.
    let mut dead: usize = 0;
    let mut j: usize = 0;
    while j < board.snakes.len()
        invariant
            j <= board.snakes.len(),
            dead <= j,
            my_index < board.snakes.len(),
            bv == board@,
            dead as int == dead_rivals_upto(bv.snakes, my_index as int, j as int),
        decreases board.snakes.len() - j,
    {
        if j != my_index && board.snakes[j].body.len() == 0 {
            dead = dead + 1;
        }
        j = j + 1;
    }

    // Distance to the nearest food.
    let mut mfd: i32 = i32::MAX;
    let mut k: usize = 0;
    while k < board.food.len()
        invariant
            k <= board.food.len(),
            bv == board@,
            wf(bv),
            0 <= head.x < bv.width,
            0 <= head.y < bv.height,
            mfd as int == min_food_dist_upto(bv.food, head.x as int, head.y as int, k as int),
            0 <= mfd,
        decreases board.food.len() - k,
    {
        let f = board.food[k];
        assert(in_bounds(bv, f.x as int, f.y as int));
        let d = manhattan_dist(f, head.x, head.y);
        if d < mfd {
            mfd = d;
        }
        k = k + 1;
    }

    // Free orthogonal neighbors of the head.
    let mut freec: i32 = 0;
    if is_free_cell(board, head.x, head.y + 1) {
        freec = freec + 1;
    }
    if is_free_cell(board, head.x, head.y - 1) {
        freec = freec + 1;
    }
    if is_free_cell(board, head.x - 1, head.y) {
        freec = freec + 1;
    }
    if is_free_cell(board, head.x + 1, head.y) {
        freec = freec + 1;
    }
    assert(freec as int == free_neighbor_count(bv, head.x as int, head.y as int));

    proof {
        lemma_dead_rivals_bounds(bv.snakes, my_index as int, board.snakes.len() as int);
        assert(dead as int <= 1000);
        assert(my_len as int <= MAX_UNITS as int);
        assert(0 <= health <= 100);
        assert(0 <= freec <= 4);
        assert(0 <= mfd);
    }
    let mut score: i64 = (dead as i64) * (RIVAL_DOWN_BONUS as i64);
    score = score + health as i64;
    score = score + (my_len as i64) * (LENGTH_WEIGHT as i64);
    if health > WELL_FED_THRESHOLD {
        score = score + WELL_FED_BONUS as i64;
    }
    if mfd != i32::MAX {
        proof {
            vstd::arithmetic::div_mod::lemma_div_pos_is_pos(
                FOOD_URGENCY_SCALE as int,
                mfd as int + 1,
            );
            vstd::arithmetic::div_mod::lemma_div_nonincreasing(
                FOOD_URGENCY_SCALE as int,
                mfd as int + 1,
            );
        }
        let ft: i64 = (FOOD_URGENCY_SCALE as i64) / ((mfd as i64) + 1);
        assert(0 <= ft <= FOOD_URGENCY_SCALE as i64);
        score = score + ft;
    }
    if head.x < 2 || head.x > board.width - 3 || head.y < 2 || head.y > board.height - 3 {
        score = score - WALL_PENALTY as i64;
    }
    if freec >= 1 {
        score = score + SPACE_WEIGHT as i64;
    }
    if freec >= 2 {
        score = score + SPACE_WEIGHT as i64;
    }
    if freec >= 3 {
        score = score + SPACE_WEIGHT as i64;
    }
    if freec >= 4 {
        score = score + SPACE_WEIGHT as i64;
    }
    // Bridge each weighted term to its counterpart inside `eval_spec`.
    assert(score as int == eval_spec(bv, my_index as int)) by {
        assert((dead as int) * (RIVAL_DOWN_BONUS as int) == RIVAL_DOWN_BONUS as int
            * dead_rivals(bv, my_index as int));
        assert((my_len as int) * (LENGTH_WEIGHT as int) == LENGTH_WEIGHT as int
            * bv.snakes[my_index as int].body.len());
        assert(SPACE_WEIGHT as int * free_neighbor_count(bv, head.x as int, head.y as int) == 50
            * (freec as int));
    };
    score as i32
}

} // verus!
