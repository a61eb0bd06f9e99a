//! End-to-end tests of the board model, legality filter, transition
//! function, evaluator, search engine and decision driver on concrete
//! boards.

use snake_engine::Battlesnake;
use snake_engine::Board;
use snake_engine::Coord;
use snake_engine::Direction;
use snake_engine::Game;
use snake_engine::evaluate_board;
use snake_engine::get_move;
use snake_engine::minimax;
use snake_engine::minimax_plain;
use snake_engine::simulate_move;
use snake_engine::legality::is_legal;

fn c(x: i32, y: i32) -> Coord {
    Coord { x, y }
}

fn snake(id: &str, health: i32, body: Vec<Coord>) -> Battlesnake {
    Battlesnake { id: id.to_string(), health, body }
}

fn board(width: i32, height: i32, snakes: Vec<Battlesnake>, food: Vec<Coord>) -> Board {
    Board { width, height, snakes, food, hazards: Vec::new() }
}

fn game() -> Game {
    Game { id: "g".to_string() }
}

fn snakes_equal(a: &Battlesnake, b: &Battlesnake) -> bool {
    a.id == b.id && a.health == b.health && a.body == b.body
}

fn boards_equal(a: &Board, b: &Board) -> bool {
    a.width == b.width
        && a.height == b.height
        && a.food == b.food
        && a.hazards == b.hazards
        && a.snakes.len() == b.snakes.len()
        && a.snakes.iter().zip(b.snakes.iter()).all(|(x, y)| snakes_equal(x, y))
}

#[test]
fn well_formed_accepts_a_plain_board() {
    let b = board(11, 11, vec![snake("a", 50, vec![c(5, 5), c(5, 4), c(5, 3)])], vec![c(5, 8)]);
    assert!(b.check_well_formed());
}

#[test]
fn well_formed_rejects_bad_boards() {
    let no_snakes = board(11, 11, vec![], vec![]);
    assert!(!no_snakes.check_well_formed());
    let zero_width = board(0, 11, vec![snake("a", 50, vec![c(0, 0)])], vec![]);
    assert!(!zero_width.check_well_formed());
    let dead_with_health = board(11, 11, vec![snake("a", 50, vec![])], vec![]);
    assert!(!dead_with_health.check_well_formed());
    let live_without_health = board(11, 11, vec![snake("a", 0, vec![c(1, 1)])], vec![]);
    assert!(!live_without_health.check_well_formed());
    let head_off_grid = board(11, 11, vec![snake("a", 50, vec![c(11, 5)])], vec![]);
    assert!(!head_off_grid.check_well_formed());
    let food_off_grid = board(11, 11, vec![snake("a", 50, vec![c(5, 5)])], vec![c(-1, 0)]);
    assert!(!food_off_grid.check_well_formed());
}

#[test]
fn legality_rejects_moves_off_the_grid() {
    // Head in the bottom-left corner: both wall-bound directions are illegal.
    let b = board(11, 11, vec![snake("a", 50, vec![c(0, 0), c(1, 0), c(2, 0)])], vec![]);
    assert!(b.check_well_formed());
    assert!(!is_legal(&b, 0, Direction::Down));
    assert!(!is_legal(&b, 0, Direction::Left));
    assert!(is_legal(&b, 0, Direction::Up));
    // Head at the top-right corner.
    let t = board(11, 11, vec![snake("a", 50, vec![c(10, 10), c(10, 9), c(10, 8)])], vec![]);
    assert!(!is_legal(&t, 0, Direction::Up));
    assert!(!is_legal(&t, 0, Direction::Right));
    assert!(is_legal(&t, 0, Direction::Left));
}

#[test]
fn legality_rejects_own_body_and_rival_bodies() {
    let b = board(
        11,
        11,
        vec![
            snake("a", 50, vec![c(5, 5), c(5, 4), c(5, 3)]),
            snake("b", 50, vec![c(5, 7), c(5, 6), c(6, 6)]),
        ],
        vec![],
    );
    assert!(b.check_well_formed());
    // Down reverses into the mover's own neck.
    assert!(!is_legal(&b, 0, Direction::Down));
    // Up meets the rival's non-head segment (5, 6).
    assert!(!is_legal(&b, 0, Direction::Up));
    assert!(is_legal(&b, 0, Direction::Left));
    assert!(is_legal(&b, 0, Direction::Right));
}

#[test]
fn legality_head_to_head_by_length() {
    // A longer rival's head one cell to the right: stepping onto it is
    // suicide, so the filter rejects it.
    let longer = board(
        11,
        11,
        vec![
            snake("a", 50, vec![c(4, 5), c(4, 4), c(4, 3)]),
            snake("b", 50, vec![c(5, 5), c(6, 5), c(7, 5), c(8, 5)]),
        ],
        vec![],
    );
    assert!(!is_legal(&longer, 0, Direction::Right));
    // An equal-length rival head is not filtered: the transition resolves the
    // meeting as a double elimination, which the search may weigh.
    let equal = board(
        11,
        11,
        vec![
            snake("a", 50, vec![c(4, 5), c(4, 4), c(4, 3)]),
            snake("b", 50, vec![c(5, 5), c(6, 5), c(7, 5)]),
        ],
        vec![],
    );
    assert!(is_legal(&equal, 0, Direction::Right));
}

#[test]
fn transition_eating_grows_and_restores_health() {
    let mut b = board(
        11,
        11,
        vec![snake("a", 50, vec![c(5, 5), c(5, 4), c(5, 3)]), snake("b", 60, vec![c(0, 0)])],
        vec![c(5, 6), c(9, 9)],
    );
    assert!(b.check_well_formed());
    let eaten = simulate_move(&mut b, 0, Direction::Up);
    assert_eq!(eaten, Some(c(5, 6)));
    assert_eq!(b.snakes[0].health, 100);
    assert_eq!(b.snakes[0].body, vec![c(5, 6), c(5, 5), c(5, 4), c(5, 3)]);
    // Exactly the one matching food coordinate is gone.
    assert_eq!(b.food, vec![c(9, 9)]);
}

#[test]
fn transition_starvation_tick_preserves_length() {
    let mut b = board(
        11,
        11,
        vec![snake("a", 50, vec![c(5, 5), c(5, 4), c(5, 3)]), snake("b", 60, vec![c(0, 0)])],
        vec![c(9, 9)],
    );
    let eaten = simulate_move(&mut b, 0, Direction::Up);
    assert_eq!(eaten, None);
    assert_eq!(b.snakes[0].health, 49);
    assert_eq!(b.snakes[0].body, vec![c(5, 6), c(5, 5), c(5, 4)]);
    assert_eq!(b.food, vec![c(9, 9)]);
}

#[test]
fn transition_starving_at_one_health_kills() {
    let mut b = board(
        11,
        11,
        vec![snake("a", 1, vec![c(5, 5), c(5, 4), c(5, 3)]), snake("b", 60, vec![c(0, 0)])],
        vec![],
    );
    simulate_move(&mut b, 0, Direction::Up);
    assert_eq!(b.snakes[0].health, 0);
    assert!(b.snakes[0].body.is_empty());
}

#[test]
fn transition_wall_collision_kills_the_mover() {
    let mut b = board(
        11,
        11,
        vec![snake("a", 50, vec![c(0, 5), c(1, 5), c(2, 5)]), snake("b", 60, vec![c(9, 9)])],
        vec![],
    );
    simulate_move(&mut b, 0, Direction::Left);
    assert_eq!(b.snakes[0].health, 0);
    assert!(b.snakes[0].body.is_empty());
    // The rival is untouched.
    assert_eq!(b.snakes[1].body, vec![c(9, 9)]);
}

#[test]
fn transition_body_collision_kills_the_mover() {
    let mut b = board(
        11,
        11,
        vec![
            snake("a", 50, vec![c(4, 5), c(4, 4), c(4, 3)]),
            snake("b", 60, vec![c(5, 6), c(5, 5), c(5, 4)]),
        ],
        vec![],
    );
    // Right runs into the rival's middle segment (5, 5).
    simulate_move(&mut b, 0, Direction::Right);
    assert_eq!(b.snakes[0].health, 0);
    assert!(b.snakes[0].body.is_empty());
    assert_eq!(b.snakes[1].body.len(), 3);
}

#[test]
fn head_to_head_equal_length_eliminates_both() {
    let mut b = board(
        11,
        11,
        vec![
            snake("a", 50, vec![c(4, 5), c(4, 4), c(4, 3)]),
            snake("b", 50, vec![c(5, 5), c(6, 5), c(7, 5)]),
        ],
        vec![],
    );
    simulate_move(&mut b, 0, Direction::Right);
    assert!(b.snakes[0].body.is_empty());
    assert_eq!(b.snakes[0].health, 0);
    assert!(b.snakes[1].body.is_empty());
    assert_eq!(b.snakes[1].health, 0);
}

#[test]
fn head_to_head_unequal_length_eliminates_the_shorter() {
    // The mover is longer: the victim dies, the mover completes its move.
    let mut longer = board(
        11,
        11,
        vec![
            snake("a", 50, vec![c(4, 5), c(4, 4), c(4, 3), c(4, 2)]),
            snake("b", 50, vec![c(5, 5), c(6, 5), c(7, 5)]),
        ],
        vec![],
    );
    simulate_move(&mut longer, 0, Direction::Right);
    assert!(longer.snakes[1].body.is_empty());
    assert_eq!(longer.snakes[0].body, vec![c(5, 5), c(4, 5), c(4, 4), c(4, 3)]);
    assert_eq!(longer.snakes[0].health, 49);
    // The mover is shorter: only the mover dies.
    let mut shorter = board(
        11,
        11,
        vec![
            snake("a", 50, vec![c(4, 5), c(4, 4), c(4, 3)]),
            snake("b", 50, vec![c(5, 5), c(6, 5), c(7, 5), c(8, 5)]),
        ],
        vec![],
    );
    simulate_move(&mut shorter, 0, Direction::Right);
    assert!(shorter.snakes[0].body.is_empty());
    assert_eq!(shorter.snakes[1].body.len(), 4);
    assert_eq!(shorter.snakes[1].health, 50);
}

#[test]
fn equal_snakes_racing_to_one_cell_die_in_either_order() {
    // Two equal-length snakes both one step from the empty cell (2, 2).
    let make = || {
        board(
            11,
            11,
            vec![
                snake("a", 50, vec![c(2, 1), c(2, 0), c(1, 0)]),
                snake("b", 50, vec![c(2, 3), c(2, 4), c(1, 4)]),
            ],
            vec![],
        )
    };
    // First snake moves first.
    let mut ab = make();
    simulate_move(&mut ab, 0, Direction::Up);
    assert_eq!(ab.snakes[0].body[0], c(2, 2));
    simulate_move(&mut ab, 1, Direction::Down);
    assert!(ab.snakes[0].body.is_empty());
    assert!(ab.snakes[1].body.is_empty());
    // Second snake moves first.
    let mut ba = make();
    simulate_move(&mut ba, 1, Direction::Down);
    assert_eq!(ba.snakes[1].body[0], c(2, 2));
    simulate_move(&mut ba, 0, Direction::Up);
    assert!(ba.snakes[0].body.is_empty());
    assert!(ba.snakes[1].body.is_empty());
}

#[test]
fn evaluator_exact_value_on_a_small_board() {
    // Snake of length 3, health 50, head at (5, 5) on 11x11, one food at
    // (5, 8), no rivals dead. Terms: 0 dead rivals, health 50, length 300,
    // no well-fed bonus, food 100 / (3 + 1) = 25, no wall penalty, and all
    // four neighbors free except (5, 4): 3 * 50 = 150. Total 525.
    let b = board(11, 11, vec![snake("a", 50, vec![c(5, 5), c(5, 4), c(5, 3)])], vec![c(5, 8)]);
    assert_eq!(evaluate_board(&b, 0), 50 + 300 + 25 + 150);
}

#[test]
fn evaluator_scores_a_dead_snake_at_the_minimum() {
    let b = board(
        11,
        11,
        vec![snake("a", 0, vec![]), snake("b", 50, vec![c(1, 1)])],
        vec![],
    );
    assert_eq!(evaluate_board(&b, 0), i32::MIN);
    // For the survivor, the dead rival is worth the elimination bonus.
    let alone = evaluate_board(&b, 1);
    let no_rival = board(11, 11, vec![snake("b", 50, vec![c(1, 1)])], vec![]);
    assert_eq!(alone, evaluate_board(&no_rival, 0) + 500);
}

#[test]
fn minimax_at_depth_zero_returns_the_evaluation() {
    let mut b = board(
        11,
        11,
        vec![
            snake("a", 50, vec![c(5, 5), c(5, 4), c(5, 3)]),
            snake("b", 50, vec![c(1, 1), c(1, 2)]),
        ],
        vec![c(5, 8)],
    );
    let e = evaluate_board(&b, 0);
    let (mv, score) = minimax(&mut b, 0, 0, 0, i32::MIN, i32::MAX);
    assert_eq!(mv, None);
    assert_eq!(score, e);
}

#[test]
fn search_restores_the_board_and_repeats_identically() {
    let make = || {
        board(
            9,
            9,
            vec![
                snake("a", 40, vec![c(4, 4), c(4, 3), c(4, 2)]),
                snake("b", 60, vec![c(6, 6), c(6, 7), c(6, 8)]),
            ],
            vec![c(2, 4), c(8, 0)],
        )
    };
    let reference = make();
    let mut b = make();
    let first = minimax(&mut b, 5, 0, 0, i32::MIN, i32::MAX);
    assert!(boards_equal(&b, &reference));
    let second = minimax(&mut b, 5, 0, 0, i32::MIN, i32::MAX);
    assert!(boards_equal(&b, &reference));
    assert_eq!(first, second);
}

#[test]
fn pruned_search_matches_plain_minimax() {
    // Two snakes on a small grid with food between them.
    let make = || {
        board(
            7,
            7,
            vec![
                snake("a", 30, vec![c(1, 3), c(1, 2), c(1, 1)]),
                snake("b", 70, vec![c(5, 3), c(5, 4), c(5, 5)]),
            ],
            vec![c(3, 3)],
        )
    };
    for depth in [1, 2, 3, 4, 5] {
        let mut pruned = make();
        let with_pruning = minimax(&mut pruned, depth, 0, 0, i32::MIN, i32::MAX);
        let mut plain = make();
        let without_pruning = minimax_plain(&mut plain, depth, 0, 0);
        assert_eq!(with_pruning, without_pruning);
    }
}

#[test]
fn single_snake_seeks_food_at_depth_four() {
    // 11x11 grid, one snake of length 3, head (5, 5), food at (5, 8),
    // health 50: Up strictly reduces the Manhattan distance and is chosen.
    let mut b = board(11, 11, vec![snake("a", 50, vec![c(5, 5), c(5, 4), c(5, 3)])], vec![c(5, 8)]);
    assert!(b.check_well_formed());
    let (mv, _score) = minimax(&mut b, 4, 0, 0, i32::MIN, i32::MAX);
    assert_eq!(mv, Some(Direction::Up));
}

#[test]
fn driver_chooses_the_food_direction() {
    let b = board(11, 11, vec![snake("a", 50, vec![c(5, 5), c(5, 4), c(5, 3)])], vec![c(5, 8)]);
    let you = snake("a", 50, vec![c(5, 5), c(5, 4), c(5, 3)]);
    let mv = get_move(&game(), &3, &b, &you);
    assert_eq!(mv, Direction::Up);
}

#[test]
fn cornered_snake_still_gets_a_direction() {
    // Head in the corner, the two on-grid neighbors covered by the snake's
    // own body: every direction is illegal, and the driver answers with the
    // documented default rather than failing.
    let b = board(
        11,
        11,
        vec![snake("a", 50, vec![c(0, 0), c(0, 1), c(1, 1), c(1, 0)])],
        vec![],
    );
    assert!(b.check_well_formed());
    for d in [Direction::Up, Direction::Down, Direction::Left, Direction::Right] {
        assert!(!is_legal(&b, 0, d));
    }
    let you = snake("a", 50, vec![c(0, 0), c(0, 1), c(1, 1), c(1, 0)]);
    let mv = get_move(&game(), &7, &b, &you);
    assert_eq!(mv, Direction::Up);
}

#[test]
fn driver_falls_back_to_a_legal_move() {
    // Both snakes boxed so the controlled one has exactly one legal move;
    // every searched branch ends in death, so the driver's random fallback
    // must pick from the legality filter's output: only Up.
    let b = board(
        3,
        2,
        vec![
            snake("a", 1, vec![c(0, 0), c(1, 0)]),
            snake("b", 50, vec![c(2, 0), c(2, 1)]),
        ],
        vec![],
    );
    assert!(b.check_well_formed());
    assert!(is_legal(&b, 0, Direction::Up));
    assert!(!is_legal(&b, 0, Direction::Down));
    assert!(!is_legal(&b, 0, Direction::Left));
    assert!(!is_legal(&b, 0, Direction::Right));
    let you = snake("a", 1, vec![c(0, 0), c(1, 0)]);
    let mv = get_move(&game(), &1, &b, &you);
    assert_eq!(mv, Direction::Up);
}

#[test]
fn unknown_snake_gets_the_default_direction() {
    let b = board(11, 11, vec![snake("a", 50, vec![c(5, 5)])], vec![]);
    let you = snake("someone-else", 50, vec![c(5, 5)]);
    assert_eq!(get_move(&game(), &0, &b, &you), Direction::Up);
}

#[test]
fn lifecycle_hooks_accept_a_tick() {
    let b = board(11, 11, vec![snake("a", 50, vec![c(5, 5)])], vec![]);
    let you = snake("a", 50, vec![c(5, 5)]);
    snake_engine::start(&game(), &0, &b, &you);
    snake_engine::end(&game(), &0, &b, &you);
}
