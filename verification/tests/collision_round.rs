//! The collision / life state machine and the round lifecycle, up to a
//! full game over.

use snake_core::app_state::AppState;
use snake_core::collision::{collision_system, invincibility_timer_system, InvincibilityTimer};
use snake_core::consts::{INITIAL_LENGTH, INVINCIBILITY_MS};
use snake_core::direction::TurnInput;
use snake_core::geometry::Point;
use snake_core::players_lifes::{game_over, PlayersLifes};
use snake_core::point_list::PointList;
use snake_core::round::Round;

fn pt(x: i64, y: i64) -> Point {
    Point { x, y }
}

fn square_around_origin(half: i64) -> PointList {
    PointList(vec![
        pt(-half, -half),
        pt(half, -half),
        pt(half, half),
        pt(-half, half),
    ])
}

fn straight_chain(n: i64) -> PointList {
    PointList((0..n).map(|i| pt(i * 2000, 0)).collect())
}

#[test]
fn collision_hit_takes_life_truncates_and_grants_invincibility() {
    let mut snake = straight_chain(10);
    let obstacles = vec![square_around_origin(5000)];
    let mut lifes = PlayersLifes(3);
    let mut invincibility: Option<InvincibilityTimer> = None;
    collision_system(&mut snake, &obstacles, &mut lifes, &mut invincibility);
    assert_eq!(lifes.0, 2);
    assert_eq!(snake.len(), 7);
    assert_eq!(
        invincibility,
        Some(InvincibilityTimer {
            remaining_ms: INVINCIBILITY_MS
        })
    );
}

#[test]
fn collision_miss_changes_nothing() {
    let mut snake = straight_chain(10);
    // an obstacle far away from the head
    let obstacles = vec![PointList(vec![
        pt(500_000, 500_000),
        pt(510_000, 500_000),
        pt(505_000, 510_000),
    ])];
    let mut lifes = PlayersLifes(3);
    let mut invincibility: Option<InvincibilityTimer> = None;
    collision_system(&mut snake, &obstacles, &mut lifes, &mut invincibility);
    assert_eq!(lifes.0, 3);
    assert_eq!(snake.len(), 10);
    assert_eq!(invincibility, None);
}

#[test]
fn collision_while_invincible_is_noop() {
    // head inside the obstacle, but a window is open: the life
    // counter, the chain and the window itself are all untouched
    let mut snake = straight_chain(10);
    let chain_before: Vec<Point> = snake.0.clone();
    let obstacles = vec![square_around_origin(5000)];
    let mut lifes = PlayersLifes(3);
    let mut invincibility = Some(InvincibilityTimer { remaining_ms: 1 });
    collision_system(&mut snake, &obstacles, &mut lifes, &mut invincibility);
    assert_eq!(lifes.0, 3);
    assert_eq!(snake.0, chain_before);
    assert_eq!(
        invincibility,
        Some(InvincibilityTimer { remaining_ms: 1 })
    );
}

#[test]
fn invincibility_counts_down_and_expires() {
    let mut w = Some(InvincibilityTimer { remaining_ms: 100 });
    invincibility_timer_system(&mut w, 40);
    assert_eq!(w, Some(InvincibilityTimer { remaining_ms: 60 }));
    invincibility_timer_system(&mut w, 60);
    assert_eq!(w, None);
    invincibility_timer_system(&mut w, 60);
    assert_eq!(w, None);
}

#[test]
fn game_over_fires_only_at_zero() {
    let mut state = AppState::InGame;
    game_over(&mut state, &PlayersLifes(1));
    assert_eq!(state, AppState::InGame);
    game_over(&mut state, &PlayersLifes(0));
    assert_eq!(state, AppState::GameOver);
}

#[test]
fn round_starts_with_default_snake_and_configured_lifes() {
    let mut round = Round::new();
    assert_eq!(round.state, AppState::MainMenu);
    round.start_game(vec![square_around_origin(5000)], 3);
    assert_eq!(round.state, AppState::InGame);
    assert_eq!(round.lifes.0, 3);
    assert_eq!(round.snake.len(), INITIAL_LENGTH);
    for i in 0..INITIAL_LENGTH {
        assert_eq!(round.snake.0[i], pt(i as i64 * 2000, 0));
    }
    assert_eq!(round.foods.len(), 4);
    assert_eq!(round.invincibility, None);
}

#[test]
fn three_unsuppressed_collisions_end_the_round() {
    // the head spawns at the origin, inside a large obstacle; each
    // un-suppressed tick collides once, and between hits the
    // invincibility window must fully elapse. three lives, three
    // hits: the counter reaches zero and the round transitions to
    // game over.
    let mut round = Round::new();
    round.start_game(vec![square_around_origin(200_000)], 3);
    let heading_left = (-1000, 0); // cos/sin of the default heading pi

    let mut hits = 0;
    let mut ticks = 0;
    while round.state == AppState::InGame {
        let lifes_before = round.lifes.0;
        round.apply_turn_input(TurnInput::Straight, 100);
        round.tick(100, heading_left.0, heading_left.1);
        ticks += 1;
        if round.lifes.0 < lifes_before {
            hits += 1;
        }
        assert!(ticks < 1000, "round never ended");
    }
    assert_eq!(hits, 3);
    assert_eq!(round.lifes.0, 0);
    assert_eq!(round.state, AppState::GameOver);
    // each pair of hits is separated by at least the invincibility
    // window: 3 hits cannot happen in fewer ticks than two full
    // windows
    assert!(ticks >= 2 * (INVINCIBILITY_MS / 100) as i32);
}

#[test]
fn tick_moves_head_by_heading_displacement() {
    let mut round = Round::new();
    // an obstacle far away: plain movement, no hit
    round.start_game(
        vec![PointList(vec![
            pt(500_000, 500_000),
            pt(510_000, 500_000),
            pt(505_000, 510_000),
        ])],
        1,
    );
    round.apply_turn_input(TurnInput::Straight, 100);
    round.tick(100, -1000, 0);
    // 20 units/s for 100 ms along the heading: 2 units left
    assert_eq!(round.snake.0[0], pt(-2000, 0));
    round.apply_turn_input(TurnInput::Straight, 100);
    round.tick(100, 0, 1000);
    assert_eq!(round.snake.0[0], pt(-2000, 2000));
}

#[test]
fn cleanup_despawns_round_entities() {
    let mut round = Round::new();
    round.start_game(vec![square_around_origin(200_000)], 1);
    // play until the round is over, then tear the entities down
    while round.state == AppState::InGame {
        round.apply_turn_input(TurnInput::Straight, 100);
        round.tick(100, -1000, 0);
    }
    assert_eq!(round.state, AppState::GameOver);
    round.cleanup_snake();
    round.cleanup_obstacles();
    round.cleanup_foods();
    assert_eq!(round.snake.len(), 0);
    assert!(round.obstacles.is_empty());
    assert!(round.foods.is_empty());
}

#[test]
fn tick_outside_in_game_is_noop() {
    let mut round = Round::new();
    let lifes_before = round.lifes.0;
    round.apply_turn_input(TurnInput::Left, 100);
    round.tick(100, -1000, 0);
    assert_eq!(round.state, AppState::MainMenu);
    assert_eq!(round.lifes.0, lifes_before);
}

#[test]
fn tick_while_invincible_keeps_lifes() {
    let mut round = Round::new();
    round.start_game(vec![square_around_origin(200_000)], 2);
    // first tick: a hit, one life gone, window open
    round.apply_turn_input(TurnInput::Straight, 100);
    round.tick(100, -1000, 0);
    assert_eq!(round.lifes.0, 1);
    // while the window is open, further ticks inside the obstacle
    // take no lives
    for _ in 0..10 {
        round.apply_turn_input(TurnInput::Straight, 100);
        round.tick(100, -1000, 0);
        assert_eq!(round.lifes.0, 1);
    }
}
