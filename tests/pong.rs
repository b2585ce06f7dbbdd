use pong::game::{
    arena_walls, random_samples, ColliderKind, FrameInput, Game, GameError, GameMode, GameState,
    WIN_SCORE,
};
use pong::geometry::{calculate_collision_side, Aabb, CollisionError, CollisionSide, UNITS_PER_PIXEL};
use pong::motion::{
    direction_from_samples, isqrt, Ball, Direction, Paddle, Velocity, DIR_ONE, DIR_TOLERANCE,
    PADDLE_SPAWN_X,
};

const U: i64 = UNITS_PER_PIXEL;

fn idle(delta_us: u32) -> FrameInput {
    FrameInput {
        delta_us,
        player1_up: false,
        player1_down: false,
        player2_up: false,
        player2_down: false,
    }
}

fn squared_len(d: Direction) -> i64 {
    d.x * d.x + d.y * d.y
}

fn is_unit(d: Direction) -> bool {
    (squared_len(d) - DIR_ONE * DIR_ONE).abs() <= DIR_TOLERANCE
}

/// A game in play with the ball at `(x, y)` heading along `direction`.
fn playing_at(x: i64, y: i64, direction: Direction) -> Game {
    let mut g = Game::new(arena_walls());
    g.state = GameState::Playing;
    g.ball.x = x;
    g.ball.y = y;
    g.ball.velocity.direction = direction;
    g
}

#[test]
fn disjoint_boxes_report_no_collision_and_no_change() {
    let ball = Aabb::new(0, 0, 8 * U, 8 * U);
    let other = Aabb::new(100 * U, 0, 8 * U, 64 * U);
    assert!(!ball.intersects(&other));
    assert!(!other.intersects(&ball));

    let mut g = Game::new(vec![other]);
    g.state = GameState::Playing;
    let dir = g.ball.velocity.direction;
    assert_eq!(g.advance(&idle(0), 0, 0), Ok(()));
    assert_eq!(g.state, GameState::Playing);
    assert_eq!(g.mode, GameMode { player1_score: 0, player2_score: 0 });
    assert_eq!(g.ball.velocity.direction, dir);
}

#[test]
fn touching_boxes_intersect() {
    let a = Aabb::new(0, 0, 8 * U, 8 * U);
    let b = Aabb::new(16 * U, 0, 8 * U, 8 * U);
    assert!(a.intersects(&b));
    let c = Aabb::new(16 * U + 1, 0, 8 * U, 8 * U);
    assert!(!a.intersects(&c));
}

#[test]
fn collision_side_each_direction() {
    let wall = Aabb::new(0, 0, 8 * U, 250 * U);
    let ball_right = Aabb::new(16 * U - 100, 0, 8 * U, 8 * U);
    assert_eq!(calculate_collision_side(&ball_right, &wall), Ok(CollisionSide::Right));
    let ball_left = Aabb::new(-16 * U + 100, 0, 8 * U, 8 * U);
    assert_eq!(calculate_collision_side(&ball_left, &wall), Ok(CollisionSide::Left));

    let floor = Aabb::new(0, 0, 250 * U, 8 * U);
    let ball_top = Aabb::new(3 * U, 16 * U - 1, 8 * U, 8 * U);
    assert_eq!(calculate_collision_side(&ball_top, &floor), Ok(CollisionSide::Top));
    let ball_bottom = Aabb::new(3 * U, -16 * U + 1, 8 * U, 8 * U);
    assert_eq!(calculate_collision_side(&ball_bottom, &floor), Ok(CollisionSide::Bottom));
}

#[test]
fn collision_side_indeterminate_when_deep_inside() {
    let wall = Aabb::new(0, 0, 8 * U, 250 * U);
    let ball = Aabb::new(5 * U, 7 * U, 8 * U, 8 * U);
    assert_eq!(
        calculate_collision_side(&ball, &wall),
        Err(CollisionError::IndeterminateSide {
            offset_x: 5 * U,
            offset_y: 7 * U,
            scale_x: 16 * U,
            scale_y: 258 * U,
        })
    );
}

#[test]
fn collision_side_mirrors_when_swapped() {
    let a = Aabb::new(16 * U - 100, 3 * U, 8 * U, 8 * U);
    let b = Aabb::new(0, 0, 8 * U, 64 * U);
    assert_eq!(calculate_collision_side(&a, &b), Ok(CollisionSide::Right));
    assert_eq!(calculate_collision_side(&b, &a), Ok(CollisionSide::Left));
    let c = Aabb::new(2 * U, 72 * U - 5, 8 * U, 8 * U);
    assert_eq!(calculate_collision_side(&c, &b), Ok(CollisionSide::Top));
    assert_eq!(calculate_collision_side(&b, &c), Ok(CollisionSide::Bottom));
}

#[test]
fn top_wall_reflects_without_scoring() {
    let mut g = playing_at(0, 234 * U + U / 2, Direction { x: 741455, y: 741455 });
    assert_eq!(g.advance(&idle(0), 0, 0), Ok(()));
    assert_eq!(g.ball.velocity.direction, Direction { x: 741455, y: -741455 });
    assert_eq!(g.mode, GameMode { player1_score: 0, player2_score: 0 });
    assert_eq!(g.state, GameState::Playing);
}

#[test]
fn bottom_wall_reflects_without_scoring() {
    let mut g = playing_at(10 * U, -234 * U - U / 2, Direction { x: -741455, y: -741455 });
    assert_eq!(g.advance(&idle(0), 0, 0), Ok(()));
    assert_eq!(g.ball.velocity.direction, Direction { x: -741455, y: 741455 });
    assert_eq!(g.mode, GameMode { player1_score: 0, player2_score: 0 });
    assert_eq!(g.state, GameState::Playing);
}

#[test]
fn right_wall_goal_scores_for_player_one() {
    // the ball reaches the right wall from inside, landing on the wall's left face
    let mut g = playing_at(234 * U + U / 2, 0, Direction { x: DIR_ONE, y: 0 });
    g.mode = GameMode { player1_score: 2, player2_score: 3 };
    assert_eq!(g.advance(&idle(0), 0, 0), Ok(()));
    assert_eq!(g.ball.velocity.direction, Direction { x: -DIR_ONE, y: 0 });
    assert_eq!(g.mode, GameMode { player1_score: 3, player2_score: 3 });
    assert_eq!(g.state, GameState::RoundFinished);
}

#[test]
fn left_wall_goal_scores_for_player_two() {
    let mut g = playing_at(-234 * U - U / 2, 0, Direction { x: -DIR_ONE, y: 0 });
    g.mode = GameMode { player1_score: 2, player2_score: 3 };
    assert_eq!(g.advance(&idle(0), 0, 0), Ok(()));
    assert_eq!(g.ball.velocity.direction, Direction { x: DIR_ONE, y: 0 });
    assert_eq!(g.mode, GameMode { player1_score: 2, player2_score: 4 });
    assert_eq!(g.state, GameState::RoundFinished);
}

#[test]
fn right_wall_outer_face_scores_for_player_one() {
    // a long frame carried the ball beyond the right wall's center line
    let mut g = playing_at(265 * U + U / 2, 0, Direction { x: DIR_ONE, y: 0 });
    g.mode = GameMode { player1_score: 2, player2_score: 3 };
    assert_eq!(
        calculate_collision_side(&g.ball.aabb(), &g.walls[2]),
        Ok(CollisionSide::Right)
    );
    assert_eq!(g.advance(&idle(0), 0, 0), Ok(()));
    assert_eq!(g.ball.velocity.direction, Direction { x: -DIR_ONE, y: 0 });
    assert_eq!(g.mode, GameMode { player1_score: 3, player2_score: 3 });
    assert_eq!(g.state, GameState::RoundFinished);
}

#[test]
fn left_wall_outer_face_scores_for_player_two() {
    let mut g = playing_at(-265 * U - U / 2, 0, Direction { x: -DIR_ONE, y: 0 });
    g.mode = GameMode { player1_score: 2, player2_score: 3 };
    assert_eq!(
        calculate_collision_side(&g.ball.aabb(), &g.walls[3]),
        Ok(CollisionSide::Left)
    );
    assert_eq!(g.advance(&idle(0), 0, 0), Ok(()));
    assert_eq!(g.ball.velocity.direction, Direction { x: DIR_ONE, y: 0 });
    assert_eq!(g.mode, GameMode { player1_score: 2, player2_score: 4 });
    assert_eq!(g.state, GameState::RoundFinished);
}

#[test]
fn centred_wall_struck_sideways_goes_by_face() {
    let mut g = Game::new(vec![Aabb::new(0, 100 * U, 20 * U, 8 * U)]);
    g.state = GameState::Playing;
    g.ball.x = -28 * U + 7;
    g.ball.y = 100 * U;
    g.ball.velocity.direction = Direction { x: DIR_ONE, y: 0 };
    assert_eq!(g.advance(&idle(0), 0, 0), Ok(()));
    assert_eq!(g.mode, GameMode { player1_score: 1, player2_score: 0 });
    let mut h = Game::new(vec![Aabb::new(0, 100 * U, 20 * U, 8 * U)]);
    h.state = GameState::Playing;
    h.ball.x = 28 * U - 7;
    h.ball.y = 100 * U;
    h.ball.velocity.direction = Direction { x: -DIR_ONE, y: 0 };
    assert_eq!(h.advance(&idle(0), 0, 0), Ok(()));
    assert_eq!(h.mode, GameMode { player1_score: 0, player2_score: 1 });
}

#[test]
fn paddle_reflects_without_scoring() {
    // player 1's paddle stands at x = 64 px; the ball comes from the left
    let mut g = playing_at(48 * U + 10, 0, Direction { x: DIR_ONE, y: 0 });
    assert_eq!(g.advance(&idle(0), 0, 0), Ok(()));
    assert_eq!(g.ball.velocity.direction, Direction { x: -DIR_ONE, y: 0 });
    assert_eq!(g.mode, GameMode { player1_score: 0, player2_score: 0 });
    assert_eq!(g.state, GameState::Playing);
}

#[test]
fn first_overlapping_collider_wins() {
    let mut g = Game::new(vec![
        Aabb::new(0, 20 * U, 250 * U, 4 * U),
        Aabb::new(-20 * U, 0, 4 * U, 250 * U),
    ]);
    g.state = GameState::Playing;
    g.ball.x = -8 * U;
    g.ball.y = 8 * U;
    g.ball.velocity.direction = Direction { x: -741455, y: 741455 };
    // both walls touch the ball exactly; only the first responds
    assert_eq!(g.advance(&idle(0), 0, 0), Ok(()));
    assert_eq!(g.ball.velocity.direction, Direction { x: -741455, y: -741455 });
    assert_eq!(g.mode, GameMode { player1_score: 0, player2_score: 0 });
}

#[test]
fn indeterminate_side_is_reported_and_leaves_score() {
    let mut g = playing_at(-240 * U, 0, Direction { x: -DIR_ONE, y: 0 });
    let r = g.advance(&idle(0), 0, 0);
    assert_eq!(
        r,
        Err(GameError::Collision(CollisionError::IndeterminateSide {
            offset_x: 10 * U,
            offset_y: 0,
            scale_x: 16 * U,
            scale_y: 258 * U,
        }))
    );
    assert_eq!(g.mode, GameMode { player1_score: 0, player2_score: 0 });
    assert_eq!(g.state, GameState::Playing);
    assert_eq!(g.ball.velocity.direction, Direction { x: -DIR_ONE, y: 0 });
}

#[test]
fn round_finished_with_winner_ends_game() {
    let mut g = Game::new(arena_walls());
    g.state = GameState::RoundFinished;
    g.mode = GameMode { player1_score: WIN_SCORE, player2_score: 2 };
    assert_eq!(g.advance(&idle(0), 0, 0), Ok(()));
    assert_eq!(g.state, GameState::GameFinished);
    assert!(g.is_finished());

    let mut h = Game::new(arena_walls());
    h.state = GameState::RoundFinished;
    h.mode = GameMode { player1_score: 4, player2_score: WIN_SCORE };
    h.check_score();
    assert_eq!(h.state, GameState::GameFinished);
}

#[test]
fn round_finished_without_winner_starts_new_round_and_resets() {
    let mut g = Game::new(arena_walls());
    g.state = GameState::RoundFinished;
    g.mode = GameMode { player1_score: 4, player2_score: 4 };
    g.ball.x = -230 * U;
    g.ball.y = 17 * U;
    g.player1.y = 90 * U;
    g.player2.y = -33 * U;
    assert_eq!(g.advance(&idle(1000), 0, 0), Ok(()));
    assert_eq!(g.state, GameState::RoundStart);
    assert_eq!(g.advance(&idle(1000), 0, -DIR_ONE), Ok(()));
    assert_eq!(g.state, GameState::Playing);
    assert_eq!(g.player1, Paddle { id: 0, x: PADDLE_SPAWN_X, y: 0 });
    assert_eq!(g.player2, Paddle { id: 1, x: -PADDLE_SPAWN_X, y: 0 });
    assert_eq!((g.ball.x, g.ball.y), (0, 0));
    assert_eq!(g.ball.velocity.direction, Direction { x: 0, y: -DIR_ONE });
    assert_eq!(g.mode, GameMode { player1_score: 4, player2_score: 4 });
}

#[test]
fn zero_direction_samples_are_rejected() {
    let mut g = Game::new(arena_walls());
    let before = g.ball;
    assert_eq!(g.advance(&idle(0), 0, 0), Err(GameError::ZeroDirection));
    assert_eq!(g.state, GameState::RoundStart);
    assert_eq!(g.ball, before);
    assert_eq!(g.ball_reset(0, 0), Err(GameError::ZeroDirection));
}

#[test]
fn a_game_ends_after_five_goals() {
    let mut g = Game::new(arena_walls());
    for goal in 1..=5u8 {
        assert_eq!(g.advance(&idle(0), 4095, 0), Ok(()));
        assert_eq!(g.state, GameState::Playing);
        g.ball.x = 234 * U + U / 2;
        assert_eq!(g.advance(&idle(0), 0, 0), Ok(()));
        assert_eq!(g.state, GameState::RoundFinished);
        assert_eq!(g.mode.player1_score, goal);
        assert!(g.mode.player1_score <= WIN_SCORE);
        assert_eq!(g.advance(&idle(0), 0, 0), Ok(()));
        if goal < 5 {
            assert_eq!(g.state, GameState::RoundStart);
        }
    }
    assert_eq!(g.state, GameState::GameFinished);
    assert_eq!(g.mode, GameMode { player1_score: 5, player2_score: 0 });
    // a finished game stays finished
    assert_eq!(g.advance(&idle(16_000), 100, 100), Ok(()));
    assert_eq!(g.state, GameState::GameFinished);
}

#[test]
fn paddle_moves_vertically_only() {
    let mut p = Paddle::spawn(0);
    p.translate(1_000_000, true, false);
    assert_eq!(p, Paddle { id: 0, x: 64 * U, y: 150 * U });
    p.translate(500_000, false, true);
    assert_eq!(p, Paddle { id: 0, x: 64 * U, y: 75 * U });
    p.translate(1_000_000, true, true);
    assert_eq!(p, Paddle { id: 0, x: 64 * U, y: 75 * U });
    let mut q = Paddle::spawn(1);
    for _ in 0..100 {
        q.translate(16_667, false, true);
        assert_eq!(q.x, -64 * U);
    }
    assert_eq!(q.y, -100 * ((150 * U * 16_667) / 1_000_000));
}

#[test]
fn paddles_follow_their_own_keys() {
    let mut g = playing_at(0, 0, Direction { x: 0, y: DIR_ONE });
    let input = FrameInput {
        delta_us: 100_000,
        player1_up: true,
        player1_down: false,
        player2_up: false,
        player2_down: true,
    };
    g.paddles_move(&input);
    assert_eq!(g.player1, Paddle { id: 0, x: 64 * U, y: 15 * U });
    assert_eq!(g.player2, Paddle { id: 1, x: -64 * U, y: -15 * U });
}

#[test]
fn ball_advances_along_its_direction() {
    let mut b = Ball {
        x: 0,
        y: 0,
        velocity: Velocity { speed: 100, direction: Direction { x: DIR_ONE, y: 0 } },
    };
    b.advance(1_000_000);
    assert_eq!((b.x, b.y), (100 * U, 0));
    b.velocity.direction = Direction { x: -741455, y: 741455 };
    b.advance(10_000);
    // 741455 * 100 * 10000 / 10^6 = 741455 units each way
    assert_eq!((b.x, b.y), (100 * U - 741455, 741455));
}

#[test]
fn ball_moves_during_play() {
    let mut g = playing_at(0, 0, Direction { x: 0, y: DIR_ONE });
    assert_eq!(g.advance(&idle(500_000), 0, 0), Ok(()));
    assert_eq!((g.ball.x, g.ball.y), (0, 50 * U));
}

#[test]
fn normalized_directions() {
    assert_eq!(direction_from_samples(0, 0), None);
    assert_eq!(direction_from_samples(DIR_ONE - 1, 0), Some(Direction { x: DIR_ONE, y: 0 }));
    assert_eq!(direction_from_samples(-DIR_ONE, 0), Some(Direction { x: -DIR_ONE, y: 0 }));
    assert_eq!(direction_from_samples(0, 4095), Some(Direction { x: 0, y: DIR_ONE }));
    assert_eq!(direction_from_samples(1, 1), Some(Direction { x: 741455, y: 741455 }));
    assert_eq!(direction_from_samples(-3, 4), Some(Direction { x: -629145, y: 838860 }));
}

#[test]
fn directions_have_unit_length() {
    for sx in (-DIR_ONE..DIR_ONE).step_by(25_013).chain([-1, 0, 1, 3]) {
        for sy in (-DIR_ONE..DIR_ONE).step_by(23_011).chain([-1, 0, 1, 7]) {
            if let Some(d) = direction_from_samples(sx, sy) {
                assert!(is_unit(d), "{} {} -> {:?}", sx, sy, d);
                let len = ((d.x * d.x + d.y * d.y) as f64).sqrt() / DIR_ONE as f64;
                assert!((len - 1.0).abs() <= 1e-5, "{} {} -> {}", sx, sy, len);
                let mut r = d;
                r.reflect_x();
                assert!(is_unit(r));
                r.reflect_y();
                assert!(is_unit(r));
                assert_eq!(r, Direction { x: -d.x, y: -d.y });
            }
        }
    }
}

#[test]
fn integer_square_roots() {
    assert_eq!(isqrt(0), 0);
    assert_eq!(isqrt(1), 1);
    assert_eq!(isqrt(15), 3);
    assert_eq!(isqrt(16), 4);
    assert_eq!(isqrt(33_554_432), 5792);
    assert_eq!(isqrt(u64::MAX as u128), 4_294_967_295);
    assert_eq!(isqrt(u128::MAX), u64::MAX as u128);
    assert_eq!(isqrt(1 << 41), 1_482_910);
}

#[test]
fn random_samples_lie_in_range() {
    for _ in 0..1000 {
        let (sx, sy) = random_samples();
        assert!((-DIR_ONE..DIR_ONE).contains(&sx));
        assert!((-DIR_ONE..DIR_ONE).contains(&sy));
    }
}

#[test]
fn step_starts_a_round_with_a_random_unit_direction() {
    let mut g = Game::new(arena_walls());
    while g.step(&idle(16_000)).is_err() {}
    assert_eq!(g.state, GameState::Playing);
    assert_eq!((g.ball.x, g.ball.y), (0, 0));
    assert!(is_unit(g.ball.velocity.direction));
}

#[test]
fn new_game_starts_before_the_first_round() {
    let g = Game::new(arena_walls());
    assert_eq!(g.state, GameState::RoundStart);
    assert_eq!(g.mode, GameMode { player1_score: 0, player2_score: 0 });
    assert_eq!(g.player1, Paddle { id: 0, x: 64 * U, y: 0 });
    assert_eq!(g.player2, Paddle { id: 1, x: -64 * U, y: 0 });
    assert_eq!(g.ball.velocity.speed, 100);
    assert_eq!(g.walls.len(), 4);
    assert_eq!(g.walls[0], Aabb::new(0, 250 * U, 250 * U, 8 * U));
    assert_eq!(g.walls[3], Aabb::new(-250 * U, 0, 8 * U, 250 * U));
    let cs = g.collider_list();
    assert_eq!(cs.len(), 6);
    assert_eq!(cs[0].kind, ColliderKind::Paddle);
    assert_eq!(cs[2].kind, ColliderKind::Wall);
}
