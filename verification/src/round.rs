//! Round lifecycle and per-tick orchestration: one context object owns
//! the snake chain, heading, obstacles, food, life counter and
//! invincibility window, and runs the passes of a tick in their fixed
//! order — input, direction, locomotion, growth, collision, life
//! check.

use vstd::prelude::*;
use crate::app_state::AppState;
use crate::collision::{
    InvincibilityTimer, collision_system, hits_any, invincibility_timer_system, obstacle_set_wf,
    window_after,
};
use crate::consts::{
    COLLISION_PENALTY_POINTS, COORD_LIMIT, DISTANCE_BETWEEN_POINTS, INITIAL_FOOD_COUNT,
    INITIAL_LENGTH, INVINCIBILITY_MS, MAX_TICK_MS, MOVEMENT_SPEED, PI_MRAD, PLAY_LIMIT, SCALE,
};
use crate::direction::{Direction, TurnInput, dir_wf, update_direction};
use crate::food::{
    can_feed_n, feed_n, food_collision_system, foods_wf, hit_count_upto, in_spawn_box,
    lemma_feed_n_prefix, picked, spawn_food,
};
use crate::geometry::{Point, between, lemma_tdiv_bound, tdiv, tdiv_i64};
use crate::growth::{feed_in_bounds, feed_spec};
use crate::locomotion::{locomote_spec, update_position};
use crate::players_lifes::{PlayersLifes, game_over};
use crate::point_list::{PointList, chain_in_bounds};
use crate::snake::Snake;

verus! {

/// The point lies within the play area.
pub open spec fn within_play(p: Point) -> bool {
    -PLAY_LIMIT <= p.x <= PLAY_LIMIT && -PLAY_LIMIT <= p.y <= PLAY_LIMIT
}

/// Every snake point lies within the play area; a tick asks for this
/// much room before it moves anything.
pub open spec fn tick_room(s: Seq<Point>) -> bool {
    forall|i: int| 0 <= i < s.len() ==> within_play(#[trigger] s[i])
}

/// One coordinate of the head displacement of a tick: the heading
/// component `u` (cosine or sine of the heading, scaled by `SCALE`)
/// times the movement speed and the frame time, rounded toward zero.
pub open spec fn head_disp(u: int, dt_ms: int) -> int {
    tdiv(u * MOVEMENT_SPEED * dt_ms, SCALE * 1000)
}

/// How far a trailing point follows its predecessor in one tick.
pub open spec fn follow_dist(dt_ms: int) -> int {
    MOVEMENT_SPEED * dt_ms / 1000
}

/// The round context: all state of one play session, owned in one
/// place and handed to the systems that need it.
pub struct Round {
    pub state: AppState,
    pub snake: PointList,
    pub direction: Direction,
    pub obstacles: Vec<PointList>,
    pub foods: Vec<Point>,
    pub lifes: PlayersLifes,
    pub invincibility: Option<InvincibilityTimer>,
}

/// Well-formedness of a round in play: the chain keeps enough tail to
/// pay every remaining collision penalty (three points per life), all
/// geometry is within bounds, the food set keeps its size, and while
/// no invincibility window is open at least one life remains.
pub open spec fn round_wf(r: Round) -> bool {
    r.state == AppState::InGame ==> {
        &&& r.snake@.len() >= 4 + 3 * r.lifes.0
        &&& chain_in_bounds(r.snake@)
        &&& dir_wf(r.direction)
        &&& obstacle_set_wf(r.obstacles@)
        &&& r.foods@.len() == INITIAL_FOOD_COUNT
        &&& foods_wf(r.foods@)
        &&& (r.invincibility.is_none() ==> r.lifes.0 >= 1)
    }
}

/// All points of `post` stay within `b` when `post`'s first point does,
/// all of `pre` does, and every later point of `post` lies between its
/// `pre` position and its updated predecessor — the shape of one
/// locomotion pass.
proof fn lemma_chain_box_aux(pre: Seq<Point>, post: Seq<Point>, b: int, i: int)
    requires
        pre.len() == post.len(),
        0 <= i < post.len(),
        -b <= post[0].x <= b && -b <= post[0].y <= b,
        forall|k: int| 0 <= k < pre.len() ==> -b <= (#[trigger] pre[k]).x <= b && -b <= pre[k].y
            <= b,
        forall|k: int| 1 <= k < post.len() ==> between(
            (#[trigger] post[k]).x as int,
            pre[k].x as int,
            post[k - 1].x as int,
        ) && between(post[k].y as int, pre[k].y as int, post[k - 1].y as int),
    ensures
        -b <= post[i].x <= b && -b <= post[i].y <= b,
    decreases i,
{
    if i > 0 {
        lemma_chain_box_aux(pre, post, b, i - 1);
    }
}

/// The first four feedings of a chain whose last two points lie within
/// `b` all stay within the coordinate bound: the extrapolated tails
/// reach at most 25 times `b`.
#[verifier::rlimit(100)]
pub proof fn lemma_can_feed_initial(s: Seq<Point>, b: int)
    requires
        s.len() >= 2,
        0 < b,
        25 * b <= COORD_LIMIT,
        -b <= s[s.len() - 1].x <= b,
        -b <= s[s.len() - 1].y <= b,
        -b <= s[s.len() - 2].x <= b,
        -b <= s[s.len() - 2].y <= b,
    ensures
        can_feed_n(s, INITIAL_FOOD_COUNT as nat),
{
    let last = s[s.len() - 1];
    let second = s[s.len() - 2];
    let dx = last.x - second.x;
    let dy = last.y - second.y;

    assert(feed_n(s, 0nat) == s);
    assert(can_feed_n(s, 0nat));
    assert(feed_in_bounds(s));
    let t1 = feed_spec(s);
    assert(feed_n(s, 1nat) == t1);
    assert(t1.len() == s.len() + 3);
    assert(t1[t1.len() - 1].x == last.x + 3 * dx && t1[t1.len() - 1].y == last.y + 3 * dy);
    assert(t1[t1.len() - 2].x == last.x + 2 * dx && t1[t1.len() - 2].y == last.y + 2 * dy);
    assert(feed_in_bounds(t1));
    let t2 = feed_spec(t1);
    assert(feed_n(s, 2nat) == t2);
    assert(t2.len() == s.len() + 6);
    assert(t2[t2.len() - 1].x == last.x + 6 * dx && t2[t2.len() - 1].y == last.y + 6 * dy);
    assert(t2[t2.len() - 2].x == last.x + 5 * dx && t2[t2.len() - 2].y == last.y + 5 * dy);
    assert(feed_in_bounds(t2));
    let t3 = feed_spec(t2);
    assert(feed_n(s, 3nat) == t3);
    assert(t3.len() == s.len() + 9);
    assert(t3[t3.len() - 1].x == last.x + 9 * dx && t3[t3.len() - 1].y == last.y + 9 * dy);
    assert(t3[t3.len() - 2].x == last.x + 8 * dx && t3[t3.len() - 2].y == last.y + 8 * dy);
    assert(feed_in_bounds(t3));
    assert(can_feed_n(s, 1nat));
    assert(can_feed_n(s, 2nat));
    assert(can_feed_n(s, 3nat));
    assert(can_feed_n(s, 4nat));
    assert(INITIAL_FOOD_COUNT as nat == 4nat);
}

impl Round {
    /// A fresh context on the main menu: nothing spawned yet.
    pub fn new() -> (r: Round)
        ensures
            r.state == AppState::MainMenu,
            round_wf(r),
    {
        Round {
            state: AppState::MainMenu,
            snake: PointList::new(),
            direction: Direction::default(),
            obstacles: Vec::new(),
            foods: Vec::new(),
            lifes: PlayersLifes::new(),
            invincibility: None,
        }
    }

    /// Enters a round: spawns the default snake chain and heading, the
    /// level's obstacles and the initial food set, and resets the life
    /// counter — a fresh count on every entry, also on replay after a
    /// game over.
    pub fn start_game(&mut self, obstacles: Vec<PointList>, lifes: u32)
        requires
            obstacle_set_wf(obstacles@),
            1 <= lifes,
            4 + 3 * lifes <= INITIAL_LENGTH,
        ensures
            round_wf(*final(self)),
            final(self).state == AppState::InGame,
            final(self).snake@.len() == INITIAL_LENGTH,
            forall|i: int| 0 <= i < INITIAL_LENGTH ==> #[trigger] final(self).snake@[i] == (Point {
                x: (i * DISTANCE_BETWEEN_POINTS) as i64,
                y: 0,
            }),
            dir_wf(final(self).direction),
            final(self).direction.0 == PI_MRAD,
            final(self).obstacles == obstacles,
            final(self).foods@.len() == INITIAL_FOOD_COUNT,
            forall|i: int| 0 <= i < INITIAL_FOOD_COUNT ==> in_spawn_box(
                i,
                #[trigger] final(self).foods@[i],
            ),
            final(self).lifes.0 == lifes,
            final(self).invincibility.is_none(),
            tick_room(final(self).snake@),
    {
        let (_snake, chain, direction) = Snake::get_default_entity_components();
        self.state = AppState::InGame;
        self.snake = chain;
        self.direction = direction;
        self.obstacles = obstacles;
        self.foods = spawn_food();
        self.lifes = PlayersLifes(lifes);
        self.invincibility = None;
        proof {
            assert forall|i: int| 0 <= i < self.snake@.len() implies within_play(
                #[trigger] self.snake@[i],
            ) by {
                assert(self.snake@[i].x == i * DISTANCE_BETWEEN_POINTS);
            }
        }
    }

    /// Whether the whole chain is within the play area: the room a
    /// tick asks for before it moves anything. A driver tests this
    /// each frame and treats a snake outside as a broken invariant.
    pub fn has_tick_room(&self) -> (r: bool)
        ensures
            r == tick_room(self.snake@),
    {
        let n = self.snake.0.len();
        let mut i: usize = 0;
        while i < n
            invariant
                n == self.snake@.len(),
                0 <= i <= n,
                forall|k: int| 0 <= k < i ==> within_play(#[trigger] self.snake@[k]),
            decreases n - i,
        {
            let p = self.snake.0[i];
            if p.x < -PLAY_LIMIT || p.x > PLAY_LIMIT || p.y < -PLAY_LIMIT || p.y > PLAY_LIMIT {
                proof {
                    assert(!within_play(self.snake@[i as int]));
                }
                return false;
            }
            i = i + 1;
        }
        true
    }

    /// First pass of a tick: turns the held input into the heading.
    /// The caller then evaluates cosine and sine of the new heading
    /// and hands the result to `tick`, which runs the remaining
    /// passes; the fixed-point core cannot do the trigonometry
    /// itself. Outside `InGame` this is a no-op.
    pub fn apply_turn_input(&mut self, input: TurnInput, dt_ms: u32)
        requires
            round_wf(*old(self)),
            dt_ms <= MAX_TICK_MS,
        ensures
            round_wf(*final(self)),
            final(self).state == old(self).state,
            final(self).snake == old(self).snake,
            final(self).obstacles == old(self).obstacles,
            final(self).foods == old(self).foods,
            final(self).lifes == old(self).lifes,
            final(self).invincibility == old(self).invincibility,
            old(self).state != AppState::InGame ==> *final(self) == *old(self),
            old(self).state == AppState::InGame ==> {
                &&& dir_wf(final(self).direction)
                &&& (input == TurnInput::Left ==> final(self).direction.0
                    == crate::direction::wrap_angle(
                    old(self).direction.0 + crate::direction::turn_delta(dt_ms as int),
                ))
                &&& (input == TurnInput::Right ==> final(self).direction.0
                    == crate::direction::wrap_angle(
                    old(self).direction.0 - crate::direction::turn_delta(dt_ms as int),
                ))
                &&& (input == TurnInput::Straight ==> final(self).direction == old(
                    self,
                ).direction)
            },
    {
        if !matches!(self.state, AppState::InGame) {
            return;
        }
        update_direction(&mut self.direction, input, dt_ms);
    }

    /// The remaining passes of one tick, in their fixed order:
    /// locomotion of the chain along the heading vector `(ux, uy)`
    /// (cosine and sine of the heading after `apply_turn_input`,
    /// scaled by `SCALE`), food pickup and growth, collision with its
    /// life-state transition, the invincibility countdown, and the
    /// life-counter monitor that ends the round at zero. Outside
    /// `InGame` the tick is a no-op.
    #[verifier::rlimit(100)]
    pub fn tick(&mut self, dt_ms: u32, ux: i64, uy: i64)
        requires
            round_wf(*old(self)),
            dt_ms <= MAX_TICK_MS,
            -SCALE <= ux <= SCALE,
            -SCALE <= uy <= SCALE,
            old(self).state == AppState::InGame ==> tick_room(old(self).snake@),
        ensures
            round_wf(*final(self)),
            old(self).state != AppState::InGame ==> *final(self) == *old(self),
            old(self).state == AppState::InGame ==> ({
                // the tick's passes, written out: `moved` is the chain
                // after locomotion, `hits` how many food items its head
                // reaches, `fed` the chain grown once per pickup, and
                // `hit` whether an un-suppressed collision follows
                let moved = locomote_spec(
                    old(self).snake@,
                    head_disp(ux as int, dt_ms as int),
                    head_disp(uy as int, dt_ms as int),
                    follow_dist(dt_ms as int),
                );
                let hits = hit_count_upto(moved[0], old(self).foods@, old(self).foods@.len() as int);
                let fed = feed_n(moved, hits);
                let hit = old(self).invincibility.is_none() && hits_any(
                    moved[0],
                    old(self).obstacles@,
                );
                &&& (final(self).state == AppState::InGame || final(self).state
                    == AppState::GameOver)
                &&& (final(self).state == AppState::GameOver <==> final(self).lifes.0 == 0)
                &&& final(self).direction == old(self).direction
                &&& final(self).obstacles == old(self).obstacles
                &&& (hit ==> {
                    &&& final(self).lifes.0 == old(self).lifes.0 - 1
                    &&& final(self).snake@ == fed.take(
                        fed.len() - COLLISION_PENALTY_POINTS as int,
                    )
                    &&& final(self).invincibility == window_after(
                        Some(InvincibilityTimer { remaining_ms: INVINCIBILITY_MS }),
                        dt_ms,
                    )
                })
                &&& (!hit ==> {
                    &&& final(self).lifes == old(self).lifes
                    &&& final(self).snake@ == fed
                    &&& final(self).invincibility == window_after(old(self).invincibility, dt_ms)
                })
                &&& final(self).foods@.len() == old(self).foods@.len()
                &&& (forall|j: int| 0 <= j < old(self).foods@.len() && !picked(
                    moved[0],
                    old(self).foods@[j],
                ) ==> final(self).foods@[j] == old(self).foods@[j])
                &&& (forall|j: int| 0 <= j < old(self).foods@.len() && picked(
                    moved[0],
                    old(self).foods@[j],
                ) ==> in_spawn_box(0, #[trigger] final(self).foods@[j]))
                &&& final(self).snake@.len() >= 1 && final(self).snake@[0] == (Point {
                    x: (old(self).snake@[0].x + head_disp(ux as int, dt_ms as int)) as i64,
                    y: (old(self).snake@[0].y + head_disp(uy as int, dt_ms as int)) as i64,
                })
            }),
    {
        if !matches!(self.state, AppState::InGame) {
            return;
        }

        // locomotion: head along the heading, the rest following
        proof {
            assert(SCALE * 1000 == 1_000_000int);
            assert(-2_000_000_000 <= ux as int * MOVEMENT_SPEED as int * dt_ms as int
                <= 2_000_000_000) by (nonlinear_arith)
                requires
                    -1000 <= ux <= 1000,
                    MOVEMENT_SPEED == 20000,
                    0 <= dt_ms <= 100,
            ;
            assert(-2_000_000_000 <= uy as int * MOVEMENT_SPEED as int * dt_ms as int
                <= 2_000_000_000) by (nonlinear_arith)
                requires
                    -1000 <= uy <= 1000,
                    MOVEMENT_SPEED == 20000,
                    0 <= dt_ms <= 100,
            ;
            lemma_tdiv_bound(
                ux as int * MOVEMENT_SPEED as int * dt_ms as int,
                1_000_000int,
                2_000_000_000int,
            );
            lemma_tdiv_bound(
                uy as int * MOVEMENT_SPEED as int * dt_ms as int,
                1_000_000int,
                2_000_000_000int,
            );
            assert(tick_room(self.snake@));
            assert(within_play(self.snake@[0]));
            assert(MOVEMENT_SPEED == 20000int);
            assert(PLAY_LIMIT == 31_250_000int);
            assert(MAX_TICK_MS == 100u32);
            assert(DISTANCE_BETWEEN_POINTS == 2000int);
        }
        let dxv = tdiv_i64(ux * MOVEMENT_SPEED * (dt_ms as i64), SCALE * 1000);
        let dyv = tdiv_i64(uy * MOVEMENT_SPEED * (dt_ms as i64), SCALE * 1000);
        proof {
            assert(MOVEMENT_SPEED as int * dt_ms as int <= 2_000_000) by (nonlinear_arith)
                requires
                    MOVEMENT_SPEED == 20000,
                    0 <= dt_ms <= 100,
            ;
            assert(0 <= MOVEMENT_SPEED as int * dt_ms as int) by (nonlinear_arith)
                requires
                    MOVEMENT_SPEED == 20000,
                    0 <= dt_ms,
            ;
        }
        let s = ((MOVEMENT_SPEED as u64) * (dt_ms as u64) / 1000) as i64;
        let ghost pre_loc = self.snake@;
        update_position(&mut self.snake, dxv, dyv, s);
        proof {
            // the chain now is exactly the locomotion pass of the
            // contract: same displacement, same follow distance
            assert(dxv == head_disp(ux as int, dt_ms as int));
            assert(dyv == head_disp(uy as int, dt_ms as int));
            assert(s as int == follow_dist(dt_ms as int));
            assert(self.snake@ == locomote_spec(
                pre_loc,
                head_disp(ux as int, dt_ms as int),
                head_disp(uy as int, dt_ms as int),
                follow_dist(dt_ms as int),
            ));
            let b = PLAY_LIMIT as int + DISTANCE_BETWEEN_POINTS as int;
            assert forall|i: int| 0 <= i < self.snake@.len() implies -b <= (
            #[trigger] self.snake@[i]).x <= b && -b <= self.snake@[i].y <= b by {
                lemma_chain_box_aux(pre_loc, self.snake@, b, i);
            }
            lemma_can_feed_initial(self.snake@, b);
            assert(25 * b <= COORD_LIMIT);
        }

        // growth: pickups feed the chain, food replenished one-for-one
        let ghost pre_food = self.snake@;
        food_collision_system(&mut self.snake, &mut self.foods);
        proof {
            let hits = hit_count_upto(
                pre_food[0],
                old(self).foods@,
                old(self).foods@.len() as int,
            );
            lemma_feed_n_prefix(pre_food, hits);
            assert(self.snake@.len() >= pre_food.len());
            assert(self.snake@ == feed_n(pre_food, hits));
            assert(self.snake@[0] == pre_food[0]);
        }

        // collision and its life-state transition
        let ghost fed = self.snake@;
        collision_system(
            &mut self.snake,
            &self.obstacles,
            &mut self.lifes,
            &mut self.invincibility,
        );

        // invincibility countdown
        invincibility_timer_system(&mut self.invincibility, dt_ms);

        // life-counter monitor: zero ends the round
        game_over(&mut self.state, &self.lifes);
    }

    /// Teardown on leaving a round: despawns the snake. Runs only
    /// once play is over; re-entry spawns a fresh chain anyway.
    pub fn cleanup_snake(&mut self)
        requires
            old(self).state != AppState::InGame,
        ensures
            final(self).snake@.len() == 0,
            final(self).state == old(self).state,
            final(self).direction == old(self).direction,
            final(self).obstacles == old(self).obstacles,
            final(self).foods == old(self).foods,
            final(self).lifes == old(self).lifes,
            final(self).invincibility == old(self).invincibility,
            round_wf(*final(self)),
    {
        self.snake = PointList::new();
    }

    /// Teardown on leaving a round: despawns every obstacle.
    pub fn cleanup_obstacles(&mut self)
        requires
            old(self).state != AppState::InGame,
        ensures
            final(self).obstacles@.len() == 0,
            final(self).state == old(self).state,
            final(self).snake == old(self).snake,
            final(self).direction == old(self).direction,
            final(self).foods == old(self).foods,
            final(self).lifes == old(self).lifes,
            final(self).invincibility == old(self).invincibility,
            round_wf(*final(self)),
    {
        self.obstacles = Vec::new();
    }

    /// Teardown on leaving a round: despawns every food item.
    pub fn cleanup_foods(&mut self)
        requires
            old(self).state != AppState::InGame,
        ensures
            final(self).foods@.len() == 0,
            final(self).state == old(self).state,
            final(self).snake == old(self).snake,
            final(self).direction == old(self).direction,
            final(self).obstacles == old(self).obstacles,
            final(self).lifes == old(self).lifes,
            final(self).invincibility == old(self).invincibility,
            round_wf(*final(self)),
    {
        self.foods = Vec::new();
    }
}

} // verus!
