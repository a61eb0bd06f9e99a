//! The board model: coordinates, snakes, the board snapshot, their
//! mathematical views, and the well-formedness invariant that every
//! component of the engine preserves.

use vstd::prelude::*;

verus! {

/// Largest grid side the engine accepts; keeps every coordinate step and
/// distance computation inside `i32`.
pub const MAX_DIM: i32 = 1000;

/// Largest number of snakes a board may carry; bounds the evaluator's
/// dead-rival bonus.
pub const MAX_SNAKES: usize = 1000;

/// Cap on one snake's body length plus the board's food count. A snake grows
/// only by consuming food, so the sum never rises during simulation, and it
/// bounds the evaluator's length term.
pub const MAX_UNITS: usize = 2000000;

/// Health an agent is restored to when it eats.
pub const MAX_HEALTH: i32 = 100;

/// One of the four cardinal moves. `Up` increases `y`, `Right` increases `x`.
#[derive(Clone, Copy, PartialEq, Eq, Structural, Debug)]
pub enum Direction {
    Up,
    Down,
    Left,
    Right,
}

/// A cell of the grid, by value.
#[derive(Clone, Copy, PartialEq, Eq, Structural, Debug)]
pub struct Coord {
    pub x: i32,
    pub y: i32,
}

/// A controlled or rival agent. `body[0]` is the head; a dead snake is kept
/// in the board with an empty body and health 0, so index-based turn order
/// stays stable.
pub struct Battlesnake {
    pub id: String,
    pub health: i32,
    pub body: Vec<Coord>,
}

/// Snapshot of one tick: grid size, every snake (dead ones included, with
/// empty bodies), the food cells, and the hazard cells. Hazards are carried
/// through for the caller but impose no health penalty in this engine.
pub struct Board {
    pub width: i32,
    pub height: i32,
    pub snakes: Vec<Battlesnake>,
    pub food: Vec<Coord>,
    pub hazards: Vec<Coord>,
}

/// Per-game metadata handed to the lifecycle hooks; the engine only carries
/// it through.
pub struct Game {
    pub id: String,
}

/// Mathematical view of one snake.
#[verifier::ext_equal]
pub ghost struct SnakeView {
    pub id: Seq<char>,
    pub health: int,
    pub body: Seq<Coord>,
}

/// Mathematical view of a board.
#[verifier::ext_equal]
pub ghost struct BoardView {
    pub width: int,
    pub height: int,
    pub snakes: Seq<SnakeView>,
    pub food: Seq<Coord>,
    pub hazards: Seq<Coord>,
}

impl View for Battlesnake {
    type V = SnakeView;

    open spec fn view(&self) -> SnakeView {
        SnakeView { id: self.id@, health: self.health as int, body: self.body@ }
    }
}

/// View of a whole snake collection, element by element.
pub open spec fn snakes_view(s: Seq<Battlesnake>) -> Seq<SnakeView> {
    Seq::new(s.len(), |i: int| s[i]@)
}

impl View for Board {
    type V = BoardView;

    open spec fn view(&self) -> BoardView {
        BoardView {
            width: self.width as int,
            height: self.height as int,
            snakes: snakes_view(self.snakes@),
            food: self.food@,
            hazards: self.hazards@,
        }
    }
}

/// The cell `c` is exactly the point `(x, y)`.
pub open spec fn coord_at(c: Coord, x: int, y: int) -> bool {
    c.x == x && c.y == y
}

/// The point lies on the grid.
pub open spec fn in_bounds(bv: BoardView, x: int, y: int) -> bool {
    0 <= x < bv.width && 0 <= y < bv.height
}

/// A snake is alive exactly when its body is non-empty.
pub open spec fn snake_alive(bv: BoardView, i: int) -> bool {
    bv.snakes[i].body.len() > 0
}

/// The head cell of snake `i` (its first body segment).
pub open spec fn head_of(bv: BoardView, i: int) -> Coord {
    bv.snakes[i].body[0]
}

/// Horizontal step of a direction.
pub open spec fn dir_dx(d: Direction) -> int {
    match d {
        Direction::Left => -1,
        Direction::Right => 1,
        _ => 0,
    }
}

/// Vertical step of a direction.
pub open spec fn dir_dy(d: Direction) -> int {
    match d {
        Direction::Up => 1,
        Direction::Down => -1,
        _ => 0,
    }
}

/// Per-snake part of the board invariant.
pub open spec fn snake_wf(bv: BoardView, i: int) -> bool {
    &&& 0 <= bv.snakes[i].health <= MAX_HEALTH as int
    &&& (bv.snakes[i].body.len() == 0 <==> bv.snakes[i].health == 0)
    &&& (bv.snakes[i].body.len() > 0 ==> in_bounds(bv, head_of(bv, i).x as int, head_of(bv, i).y as int))
    &&& bv.snakes[i].body.len() + bv.food.len() <= MAX_UNITS as int
}

/// Well-formed board: positive bounded grid, at least one snake, each snake
/// healthy-or-dead consistently with its body, live heads on the grid, and
/// all food on the grid.
pub open spec fn wf(bv: BoardView) -> bool {
    &&& 1 <= bv.width <= MAX_DIM as int
    &&& 1 <= bv.height <= MAX_DIM as int
    &&& 1 <= bv.snakes.len() <= MAX_SNAKES as int
    &&& (forall|i: int| 0 <= i < bv.snakes.len() ==> #[trigger] snake_wf(bv, i))
    &&& (forall|k: int|
        0 <= k < bv.food.len() ==> in_bounds(
            bv,
            #[trigger] bv.food[k].x as int,
            bv.food[k].y as int,
        ))
}

/// Number of live snakes among the first `n`.
pub open spec fn live_count_upto(snakes: Seq<SnakeView>, n: int) -> int
    decreases n,
{
    if n <= 0 {
        0
    } else {
        live_count_upto(snakes, n - 1) + if snakes[n - 1].body.len() > 0 {
            1int
        } else {
            0int
        }
    }
}

/// Number of live snakes on the board.
pub open spec fn live_count(bv: BoardView) -> int {
    live_count_upto(bv.snakes, bv.snakes.len() as int)
}

/// Some segment of some snake (head included) covers the point.
pub open spec fn cell_occupied(bv: BoardView, x: int, y: int) -> bool {
    exists|j: int, k: int|
        0 <= j < bv.snakes.len() && 0 <= k < bv.snakes[j].body.len() && coord_at(
            #[trigger] bv.snakes[j].body[k],
            x,
            y,
        )
}

/// Some snake's non-head segment covers the point. Dead snakes have empty
/// bodies, so only live bodies can block.
pub open spec fn body_blocked(bv: BoardView, x: int, y: int) -> bool {
    exists|j: int, k: int|
        0 <= j < bv.snakes.len() && 1 <= k < bv.snakes[j].body.len() && coord_at(
            #[trigger] bv.snakes[j].body[k],
            x,
            y,
        )
}

/// First snake other than `i`, scanning indices from `j` upward, that is
/// alive with its head on the point.
pub open spec fn head_collider_from(bv: BoardView, i: int, x: int, y: int, j: int) -> Option<int>
    decreases bv.snakes.len() - j,
{
    if j < 0 || j >= bv.snakes.len() {
        None
    } else if j != i && snake_alive(bv, j) && coord_at(head_of(bv, j), x, y) {
        Some(j)
    } else {
        head_collider_from(bv, i, x, y, j + 1)
    }
}

/// Lowest-indexed live snake other than `i` whose head sits on the point.
pub open spec fn head_collider(bv: BoardView, i: int, x: int, y: int) -> Option<int> {
    head_collider_from(bv, i, x, y, 0)
}

/// First food item at the point, scanning indices from `k` upward.
pub open spec fn food_index_from(food: Seq<Coord>, x: int, y: int, k: int) -> Option<int>
    decreases food.len() - k,
{
    if k < 0 || k >= food.len() {
        None
    } else if coord_at(food[k], x, y) {
        Some(k)
    } else {
        food_index_from(food, x, y, k + 1)
    }
}

/// Lowest-indexed food item on the point.
pub open spec fn food_at(food: Seq<Coord>, x: int, y: int) -> Option<int> {
    food_index_from(food, x, y, 0)
}

/// Copy of a coordinate vector, element by element.
pub fn copy_coords(v: &Vec<Coord>) -> (r: Vec<Coord>)
    ensures
        r@ == v@,
{
    let mut r: Vec<Coord> = Vec::new();
    let mut k: usize = 0;
    while k < v.len()
        invariant
            k <= v.len(),
            r@ == v@.subrange(0, k as int),
        decreases v.len() - k,
    {
        r.push(v[k]);
        assert(r@ =~= v@.subrange(0, k as int + 1));
        k = k + 1;
    }
    assert(r@ =~= v@);
    r
}

/// Copy of a snake collection, value for value.
pub fn clone_snakes(v: &Vec<Battlesnake>) -> (r: Vec<Battlesnake>)
    ensures
        snakes_view(r@) == snakes_view(v@),
{
    let mut r: Vec<Battlesnake> = Vec::new();
    let mut i: usize = 0;
    while i < v.len()
        invariant
            i <= v.len(),
            r@.len() == i as int,
            forall|m: int| 0 <= m < i ==> #[trigger] r@[m]@ == v@[m]@,
        decreases v.len() - i,
    {
        let s = &v[i];
        let id2 = s.id.clone();
        let body2 = copy_coords(&s.body);
        r.push(Battlesnake { id: id2, health: s.health, body: body2 });
        i = i + 1;
    }
    proof {
        assert(snakes_view(r@) =~= snakes_view(v@));
    }
    r
}

/// Copy of a whole board snapshot, value for value.
pub fn clone_board(board: &Board) -> (r: Board)
    ensures
        r@ == board@,
{
    let r = Board {
        width: board.width,
        height: board.height,
        snakes: clone_snakes(&board.snakes),
        food: copy_coords(&board.food),
        hazards: copy_coords(&board.hazards),
    };
    proof {
        assert(r@ =~= board@);
    }
    r
}

impl Board {
    /// Snake `i` is alive: its body is non-empty.
    pub fn is_alive(&self, i: usize) -> (r: bool)
        requires
            i < self.snakes.len(),
        ensures
            r == snake_alive(self@, i as int),
    {
        self.snakes[i].body.len() > 0
    }

    /// The point lies on the grid.
    pub fn cell_in_bounds(&self, c: Coord) -> (r: bool)
        ensures
            r == in_bounds(self@, c.x as int, c.y as int),
    {
        0 <= c.x && c.x < self.width && 0 <= c.y && c.y < self.height
    }

    /// The cell snake `i`'s head would reach by moving in direction `d`.
    pub fn candidate_head(&self, i: usize, d: Direction) -> (r: Coord)
        requires
            wf(self@),
            i < self.snakes.len(),
            snake_alive(self@, i as int),
        ensures
            r.x as int == head_of(self@, i as int).x as int + dir_dx(d),
            r.y as int == head_of(self@, i as int).y as int + dir_dy(d),
    {
        let s = &self.snakes[i];
        let h = s.body[0];
        assert(snake_wf(self@, i as int));
        match d {
            Direction::Up => Coord { x: h.x, y: h.y + 1 },
            Direction::Down => Coord { x: h.x, y: h.y - 1 },
            Direction::Left => Coord { x: h.x - 1, y: h.y },
            Direction::Right => Coord { x: h.x + 1, y: h.y },
        }
    }

    /// Decide the board invariant at run time, so a caller holding an
    /// arbitrary snapshot can reject a malformed one before any engine call.
    pub fn check_well_formed(&self) -> (r: bool)
        ensures
            r == wf(self@),
    {
        if !(1 <= self.width && self.width <= MAX_DIM) {
            return false;
        }
        if !(1 <= self.height && self.height <= MAX_DIM) {
            return false;
        }
        if !(1 <= self.snakes.len() && self.snakes.len() <= MAX_SNAKES) {
            return false;
        }
        let mut j: usize = 0;
        while j < self.snakes.len()
            invariant
                j <= self.snakes.len(),
                forall|m: int| 0 <= m < j ==> #[trigger] snake_wf(self@, m),
            decreases self.snakes.len() - j,
        {
            let s = &self.snakes[j];
            if !(0 <= s.health && s.health <= MAX_HEALTH) {
                assert(!snake_wf(self@, j as int));
                return false;
            }
            if (s.body.len() == 0) != (s.health == 0) {
                assert(!snake_wf(self@, j as int));
                return false;
            }
            if s.body.len() > 0 {
                let h = s.body[0];
                if !(0 <= h.x && h.x < self.width && 0 <= h.y && h.y < self.height) {
                    assert(!snake_wf(self@, j as int));
                    return false;
                }
            }
            if self.food.len() > MAX_UNITS || s.body.len() > MAX_UNITS - self.food.len() {
                assert(!snake_wf(self@, j as int));
                return false;
            }
            assert(snake_wf(self@, j as int));
            j = j + 1;
        }
        let mut k: usize = 0;
        while k < self.food.len()
            invariant
                k <= self.food.len(),
                forall|m: int|
                    0 <= m < k ==> in_bounds(self@, #[trigger] self@.food[m].x as int, self@.food[m].y as int),
            decreases self.food.len() - k,
        {
            let f = self.food[k];
            if !(0 <= f.x && f.x < self.width && 0 <= f.y && f.y < self.height) {
                assert(!in_bounds(self@, self@.food[k as int].x as int, self@.food[k as int].y as int));
                return false;
            }
            k = k + 1;
        }
        true
    }

    /// Number of live snakes on the board.
    pub fn count_live(&self) -> (r: usize)
        ensures
            r as int == live_count(self@),
            r <= self.snakes.len(),
    {
        let mut count: usize = 0;
        let mut i: usize = 0;
        while i < self.snakes.len()
            invariant
                i <= self.snakes.len(),
                count <= i,
                count as int == live_count_upto(self@.snakes, i as int),
            decreases self.snakes.len() - i,
        {
            if self.snakes[i].body.len() > 0 {
                count = count + 1;
            }
            i = i + 1;
        }
        count
    }
}

} // verus!
