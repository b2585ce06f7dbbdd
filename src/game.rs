//! Score keeping, collision response and the round lifecycle of a game.
//!
//! When the ball overlaps several colliders in one frame, only the first one responds:
//! paddles are asked first (player 1, then player 2), then the walls in their order.
//! This keeps a frame from reflecting or scoring twice.
use vstd::prelude::*;
use crate::geometry::{
    Aabb, CollisionError, CollisionSide, calculate_collision_side, side_of, UNITS_PER_PIXEL,
};
use crate::motion::{
    Ball, Direction, Paddle, Velocity, BALL_SPEED, PADDLE_SPAWN_X, DIR_ONE, ball_step, clamp_coord,
    direction_from_samples, normalized, sample_in_range, spawn_x, translated_y,
    lemma_reflection_keeps_unit, lemma_normalized_is_unit,
};

verus! {

/// The score at which a player wins.
pub const WIN_SCORE: u8 = 5;

/// Distance from the origin to the middle of each wall, in units.
pub const ARENA_EXTENT: i64 = 250 * UNITS_PER_PIXEL;

/// Half the thickness of a wall, in units.
pub const WALL_HALF_THICKNESS: i64 = 8 * UNITS_PER_PIXEL;

/// The phase of the game; exactly one is current.
#[derive(Clone, Copy, Debug, PartialEq, Eq, Structural)]
pub enum GameState {
    RoundStart,
    Playing,
    RoundFinished,
    GameFinished,
}

/// The two players' scores.
#[derive(Clone, Copy, Debug, PartialEq, Eq, Structural)]
pub struct GameMode {
    pub player1_score: u8,
    pub player2_score: u8,
}

/// What the ball can strike.
#[derive(Clone, Copy, Debug, PartialEq, Eq, Structural)]
pub enum ColliderKind {
    Paddle,
    Wall,
}

#[derive(Clone, Copy, Debug, PartialEq, Eq, Structural)]
pub struct Collider {
    pub aabb: Aabb,
    pub kind: ColliderKind,
}

/// Why a frame could not be completed.
#[derive(Clone, Copy, Debug, PartialEq, Eq, Structural)]
pub enum GameError {
    /// The side of an impact could not be told.
    Collision(CollisionError),
    /// Both direction samples were zero, so the ball got no direction.
    ZeroDirection,
}

/// The keys held during a frame, and the frame's length in microseconds.
#[derive(Clone, Copy, Debug, PartialEq, Eq, Structural)]
pub struct FrameInput {
    pub delta_us: u32,
    pub player1_up: bool,
    pub player1_down: bool,
    pub player2_up: bool,
    pub player2_down: bool,
}

/// The whole game: the ball, player 1's paddle (id 0), player 2's paddle (id 1),
/// the arena walls, the scores and the current phase.
pub struct Game {
    pub ball: Ball,
    pub player1: Paddle,
    pub player2: Paddle,
    pub walls: Vec<Aabb>,
    pub mode: GameMode,
    pub state: GameState,
}

/// Scores stay below the win threshold while a round is being set up or played,
/// and never pass it.
pub open spec fn scores_ok(mode: GameMode, state: GameState) -> bool {
    &&& mode.player1_score <= WIN_SCORE
    &&& mode.player2_score <= WIN_SCORE
    &&& (state == GameState::RoundStart || state == GameState::Playing) ==> (mode.player1_score
        < WIN_SCORE && mode.player2_score < WIN_SCORE)
}

/// The first collider, from index `i` on, that overlaps `b`.
pub open spec fn first_hit_from(b: Aabb, cs: Seq<Collider>, i: int) -> Option<Collider>
    decreases cs.len() - i,
{
    if i < 0 || i >= cs.len() {
        None
    } else if cs[i].aabb.overlaps(b) {
        Some(cs[i])
    } else {
        first_hit_from(b, cs, i + 1)
    }
}

/// Whether a horizontal impact on wall `w` scores for player 1: a wall right of the
/// origin scores for player 1 and one left of it for player 2, whichever face the
/// ball reached. A wall centred on the origin's vertical line goes by the face: its
/// left one scores for player 1.
pub open spec fn goal_for_player1(w: Aabb, side: CollisionSide) -> bool {
    w.center_x > 0 || (w.center_x == 0 && side == CollisionSide::Left)
}

pub open spec fn wall_collider(w: Aabb) -> Collider {
    Collider { aabb: w, kind: ColliderKind::Wall }
}

impl Game {
    pub open spec fn wf(self) -> bool {
        &&& self.ball.wf()
        &&& self.player1.wf()
        &&& self.player2.wf()
        &&& self.player1.id == 0
        &&& self.player2.id == 1
        &&& self.player1.x == spawn_x(0)
        &&& self.player2.x == spawn_x(1)
        &&& forall|i: int| 0 <= i < self.walls@.len() ==> (#[trigger] self.walls@[i]).wf()
        &&& scores_ok(self.mode, self.state)
    }

    /// The colliders in the order they are asked: the paddles, then the walls.
    pub open spec fn colliders(self) -> Seq<Collider> {
        seq![
            Collider { aabb: self.player1.spec_aabb(), kind: ColliderKind::Paddle },
            Collider { aabb: self.player2.spec_aabb(), kind: ColliderKind::Paddle },
        ] + self.walls@.map_values(|w: Aabb| wall_collider(w))
    }

    /// The game after the ball struck `side` of the collider `c`: a horizontal
    /// impact negates the direction's x, a vertical one its y. A horizontal impact on
    /// a wall is a goal, and it ends the round: the goal belongs to player 1 when
    /// `goal_for_player1` holds of the wall and the side, else to player 2.
    pub open spec fn after_hit(self, side: CollisionSide, c: Collider) -> Game {
        let d = self.ball.velocity.direction;
        let m = self.mode;
        let (dir, mode, state) = match side {
            CollisionSide::Top | CollisionSide::Bottom => (d.reflected_y(), m, self.state),
            CollisionSide::Left | CollisionSide::Right => if c.kind != ColliderKind::Wall {
                (d.reflected_x(), m, self.state)
            } else if goal_for_player1(c.aabb, side) {
                (
                    d.reflected_x(),
                    GameMode { player1_score: (m.player1_score + 1) as u8, player2_score: m.player2_score },
                    GameState::RoundFinished,
                )
            } else {
                (
                    d.reflected_x(),
                    GameMode { player1_score: m.player1_score, player2_score: (m.player2_score + 1) as u8 },
                    GameState::RoundFinished,
                )
            },
        };
        Game {
            ball: Ball { x: self.ball.x, y: self.ball.y, velocity: Velocity { speed: self.ball.velocity.speed, direction: dir } },
            player1: self.player1,
            player2: self.player2,
            walls: self.walls,
            mode,
            state,
        }
    }

    /// The game after collision response: unchanged when nothing overlaps the ball,
    /// else the first overlapping collider's response, or the error when its side
    /// cannot be told.
    pub open spec fn resolved(self) -> Result<Game, CollisionError> {
        match first_hit_from(self.ball.spec_aabb(), self.colliders(), 0) {
            None => Ok(self),
            Some(c) => match side_of(self.ball.spec_aabb(), c.aabb) {
                Err(e) => Err(e),
                Ok(side) => Ok(self.after_hit(side, c)),
            },
        }
    }

    /// The game after the ball and paddles moved for one frame.
    pub open spec fn moved(self, input: FrameInput) -> Game {
        let dt = input.delta_us as int;
        let v = self.ball.velocity;
        Game {
            ball: Ball {
                x: clamp_coord(self.ball.x + ball_step(v.direction.x as int, v.speed as int, dt)) as i64,
                y: clamp_coord(self.ball.y + ball_step(v.direction.y as int, v.speed as int, dt)) as i64,
                velocity: v,
            },
            player1: Paddle {
                id: self.player1.id,
                x: self.player1.x,
                y: translated_y(self.player1.y as int, dt, input.player1_up, input.player1_down) as i64,
            },
            player2: Paddle {
                id: self.player2.id,
                x: self.player2.x,
                y: translated_y(self.player2.y as int, dt, input.player2_up, input.player2_down) as i64,
            },
            walls: self.walls,
            mode: self.mode,
            state: self.state,
        }
    }

    /// The game once a round has been set up from the direction samples `(sx, sy)`:
    /// paddles at their spawn, the ball at the origin heading along the samples,
    /// and play under way.
    pub open spec fn round_started(self, sx: int, sy: int) -> Game {
        Game {
            ball: Ball { x: 0, y: 0, velocity: Velocity { speed: self.ball.velocity.speed, direction: normalized(sx, sy) } },
            player1: Paddle { id: self.player1.id, x: spawn_x(self.player1.id), y: 0 },
            player2: Paddle { id: self.player2.id, x: spawn_x(self.player2.id), y: 0 },
            walls: self.walls,
            mode: self.mode,
            state: GameState::Playing,
        }
    }

    /// The phase that follows a finished round.
    pub open spec fn after_round(self) -> GameState {
        if self.mode.player1_score == WIN_SCORE || self.mode.player2_score == WIN_SCORE {
            GameState::GameFinished
        } else {
            GameState::RoundStart
        }
    }

    /// One frame, dispatched on the current phase: the game afterwards and the result.
    /// A failed frame keeps what happened before the failure.
    pub open spec fn frame(self, input: FrameInput, sx: int, sy: int) -> (Game, Result<(), GameError>) {
        match self.state {
            GameState::RoundStart => if sx == 0 && sy == 0 {
                (self, Err(GameError::ZeroDirection))
            } else {
                (self.round_started(sx, sy), Ok(()))
            },
            GameState::Playing => match self.moved(input).resolved() {
                Ok(g) => (g, Ok(())),
                Err(e) => (self.moved(input), Err(GameError::Collision(e))),
            },
            GameState::RoundFinished => (
                Game {
                    ball: self.ball,
                    player1: self.player1,
                    player2: self.player2,
                    walls: self.walls,
                    mode: self.mode,
                    state: self.after_round(),
                },
                Ok(()),
            ),
            GameState::GameFinished => (self, Ok(())),
        }
    }
}

/// The first collider in `cs` that overlaps `b`.
pub fn first_hit(b: &Aabb, cs: &Vec<Collider>) -> (r: Option<Collider>)
    requires
        b.wf(),
        forall|i: int| 0 <= i < cs@.len() ==> (#[trigger] cs@[i]).aabb.wf(),
    ensures
        r == first_hit_from(*b, cs@, 0),
{
    let mut i: usize = 0;
    while i < cs.len()
        invariant
            0 <= i <= cs@.len(),
            b.wf(),
            forall|j: int| 0 <= j < cs@.len() ==> (#[trigger] cs@[j]).aabb.wf(),
            first_hit_from(*b, cs@, 0) == first_hit_from(*b, cs@, i as int),
        decreases cs@.len() - i,
    {
        if cs[i].aabb.intersects(b) {
            return Some(cs[i]);
        }
        i = i + 1;
    }
    None
}

/// The response to any impact during play is still a well-formed game.
proof fn lemma_after_hit_wf(g: Game, side: CollisionSide, c: Collider)
    requires
        g.wf(),
        g.state == GameState::Playing,
    ensures
        g.after_hit(side, c).wf(),
{
    lemma_reflection_keeps_unit(g.ball.velocity.direction);
}

impl Game {
    /// The colliders in the order they are asked.
    pub fn collider_list(&self) -> (r: Vec<Collider>)
        requires
            self.wf(),
        ensures
            r@ == self.colliders(),
            forall|i: int| 0 <= i < r@.len() ==> (#[trigger] r@[i]).aabb.wf(),
    {
        let mut cs: Vec<Collider> = Vec::new();
        cs.push(Collider { aabb: self.player1.aabb(), kind: ColliderKind::Paddle });
        cs.push(Collider { aabb: self.player2.aabb(), kind: ColliderKind::Paddle });
        let mut i: usize = 0;
        while i < self.walls.len()
            invariant
                0 <= i <= self.walls@.len(),
                self.wf(),
                cs@.len() == 2 + i,
                cs@ == self.colliders().subrange(0, 2 + i as int),
            decreases self.walls@.len() - i,
        {
            cs.push(Collider { aabb: self.walls[i], kind: ColliderKind::Wall });
            i = i + 1;
            assert(cs@ =~= self.colliders().subrange(0, 2 + i as int));
        }
        assert(cs@ =~= self.colliders());
        cs
    }

    /// Finds the first collider that the ball overlaps and applies its response:
    /// reflect the ball, and on a goal score and end the round.
    pub fn detect_collision(&mut self) -> (r: Result<(), CollisionError>)
        requires
            old(self).wf(),
            old(self).state == GameState::Playing,
        ensures
            r is Ok ==> old(self).resolved() == Ok::<Game, CollisionError>(*final(self)),
            r is Err ==> old(self).resolved() == Err::<Game, CollisionError>(r->Err_0),
            r is Err ==> *final(self) == *old(self),
            final(self).wf(),
    {
        let b: Aabb = self.ball.aabb();
        let cs: Vec<Collider> = self.collider_list();
        match first_hit(&b, &cs) {
            None => Ok(()),
            Some(c) => {
                proof {
                    lemma_first_hit_in(b, cs@, 0);
                }
                match calculate_collision_side(&b, &c.aabb) {
                    Err(e) => Err(e),
                    Ok(side) => {
                        proof {
                            lemma_after_hit_wf(*self, side, c);
                        }
                        match side {
                            CollisionSide::Top | CollisionSide::Bottom => {
                                self.ball.velocity.direction.reflect_y();
                            },
                            CollisionSide::Left | CollisionSide::Right => {
                                self.ball.velocity.direction.reflect_x();
                                if c.kind == ColliderKind::Wall {
                                    if c.aabb.center_x > 0 || (c.aabb.center_x == 0 && side
                                        == CollisionSide::Left) {
                                        self.mode.player1_score = self.mode.player1_score + 1;
                                    } else {
                                        self.mode.player2_score = self.mode.player2_score + 1;
                                    }
                                    self.state = GameState::RoundFinished;
                                }
                            },
                        }
                        Ok(())
                    },
                }
            },
        }
    }
}

/// A collider that `first_hit_from` returns is one of the sequence.
proof fn lemma_first_hit_in(b: Aabb, cs: Seq<Collider>, i: int)
    requires
        0 <= i,
    ensures
        first_hit_from(b, cs, i) is Some ==> exists|j: int|
            0 <= j < cs.len() && #[trigger] cs[j] == first_hit_from(b, cs, i)->Some_0,
    decreases cs.len() - i,
{
    if i < cs.len() && !cs[i].aabb.overlaps(b) {
        lemma_first_hit_in(b, cs, i + 1);
    }
}

/// Relies on rand::Rng::gen_range over rand::thread_rng: a value drawn from
/// `[low, high)`. It panics only on an empty range, which `requires` leaves out.
#[verifier::external_body]
fn sample_range(low: i64, high: i64) -> (r: i64)
    requires
        low < high,
    ensures
        low <= r < high,
{
    rand::Rng::gen_range(&mut rand::thread_rng(), low..high)
}

/// Draws two direction samples, each standing for a value in [-1, 1).
pub fn random_samples() -> (r: (i64, i64))
    ensures
        sample_in_range(r.0 as int),
        sample_in_range(r.1 as int),
{
    let sx: i64 = sample_range(-DIR_ONE, DIR_ONE);
    let sy: i64 = sample_range(-DIR_ONE, DIR_ONE);
    (sx, sy)
}

/// The four walls of the arena: top, bottom, right, left.
pub fn arena_walls() -> (r: Vec<Aabb>)
    ensures
        r@.len() == 4,
        r@[0] == (Aabb { center_x: 0, center_y: ARENA_EXTENT, half_width: ARENA_EXTENT, half_height: WALL_HALF_THICKNESS }),
        r@[1] == (Aabb { center_x: 0, center_y: -ARENA_EXTENT as i64, half_width: ARENA_EXTENT, half_height: WALL_HALF_THICKNESS }),
        r@[2] == (Aabb { center_x: ARENA_EXTENT, center_y: 0, half_width: WALL_HALF_THICKNESS, half_height: ARENA_EXTENT }),
        r@[3] == (Aabb { center_x: -ARENA_EXTENT as i64, center_y: 0, half_width: WALL_HALF_THICKNESS, half_height: ARENA_EXTENT }),
        forall|i: int| 0 <= i < r@.len() ==> (#[trigger] r@[i]).wf(),
{
    let far: i64 = ARENA_EXTENT;
    let thick: i64 = WALL_HALF_THICKNESS;
    let mut walls: Vec<Aabb> = Vec::new();
    walls.push(Aabb::new(0, far, far, thick));
    walls.push(Aabb::new(0, -far, far, thick));
    walls.push(Aabb::new(far, 0, thick, far));
    walls.push(Aabb::new(-far, 0, thick, far));
    walls
}

impl Game {
    /// A new game in the given arena: no points, paddles at their spawn, the ball at
    /// the origin heading up and to the right, waiting for the first round to start.
    pub fn new(walls: Vec<Aabb>) -> (r: Game)
        requires
            forall|i: int| 0 <= i < walls@.len() ==> (#[trigger] walls@[i]).wf(),
        ensures
            r.walls@ == walls@,
            r.mode == (GameMode { player1_score: 0, player2_score: 0 }),
            r.state == GameState::RoundStart,
            r.player1 == (Paddle { id: 0, x: spawn_x(0), y: 0 }),
            r.player2 == (Paddle { id: 1, x: spawn_x(1), y: 0 }),
            r.ball == (Ball { x: 0, y: 0, velocity: Velocity { speed: BALL_SPEED, direction: normalized(1, 1) } }),
            r.wf(),
    {
        let direction: Direction = direction_from_samples(1, 1).unwrap();
        Game {
            ball: Ball { x: 0, y: 0, velocity: Velocity { speed: BALL_SPEED, direction } },
            player1: Paddle::spawn(0),
            player2: Paddle::spawn(1),
            walls,
            mode: GameMode { player1_score: 0, player2_score: 0 },
            state: GameState::RoundStart,
        }
    }

    /// Moves both paddles by the keys held during the frame.
    pub fn paddles_move(&mut self, input: &FrameInput)
        requires
            old(self).wf(),
        ensures
            final(self).player1 == old(self).moved(*input).player1,
            final(self).player2 == old(self).moved(*input).player2,
            final(self).ball == old(self).ball,
            final(self).walls == old(self).walls,
            final(self).mode == old(self).mode,
            final(self).state == old(self).state,
            final(self).wf(),
    {
        self.player1.translate(input.delta_us, input.player1_up, input.player1_down);
        self.player2.translate(input.delta_us, input.player2_up, input.player2_down);
    }

    /// Moves the ball along its velocity for the frame.
    pub fn ball_move(&mut self, delta_us: u32)
        requires
            old(self).wf(),
        ensures
            final(self).ball == old(self).moved(FrameInput { delta_us, player1_up: false, player1_down: false, player2_up: false, player2_down: false }).ball,
            final(self).player1 == old(self).player1,
            final(self).player2 == old(self).player2,
            final(self).walls == old(self).walls,
            final(self).mode == old(self).mode,
            final(self).state == old(self).state,
            final(self).wf(),
    {
        self.ball.advance(delta_us);
    }

    /// Puts both paddles back at their spawn positions.
    pub fn paddles_reset(&mut self)
        requires
            old(self).wf(),
        ensures
            final(self).player1 == (Paddle { id: 0, x: spawn_x(0), y: 0 }),
            final(self).player2 == (Paddle { id: 1, x: spawn_x(1), y: 0 }),
            final(self).ball == old(self).ball,
            final(self).walls == old(self).walls,
            final(self).mode == old(self).mode,
            final(self).state == old(self).state,
            final(self).wf(),
    {
        self.player1 = Paddle::spawn(self.player1.id);
        self.player2 = Paddle::spawn(self.player2.id);
    }

    /// Centers the ball and points it along the samples `(sx, sy)`. The zero vector
    /// has no direction: the game is then left as it was.
    pub fn ball_reset(&mut self, sx: i64, sy: i64) -> (r: Result<(), GameError>)
        requires
            old(self).wf(),
            sample_in_range(sx as int),
            sample_in_range(sy as int),
        ensures
            r is Err <==> (sx == 0 && sy == 0),
            r is Err ==> r->Err_0 == GameError::ZeroDirection && *final(self) == *old(self),
            r is Ok ==> final(self).ball == (Ball { x: 0, y: 0, velocity: Velocity { speed: old(self).ball.velocity.speed, direction: normalized(sx as int, sy as int) } }),
            final(self).player1 == old(self).player1,
            final(self).player2 == old(self).player2,
            final(self).walls == old(self).walls,
            final(self).mode == old(self).mode,
            final(self).state == old(self).state,
            final(self).wf(),
    {
        match direction_from_samples(sx, sy) {
            None => Err(GameError::ZeroDirection),
            Some(direction) => {
                self.ball.velocity.direction = direction;
                self.ball.x = 0;
                self.ball.y = 0;
                Ok(())
            },
        }
    }

    /// Lets play begin.
    pub fn start_round(&mut self)
        requires
            old(self).wf(),
            old(self).state == GameState::RoundStart,
        ensures
            final(self).state == GameState::Playing,
            final(self).ball == old(self).ball,
            final(self).player1 == old(self).player1,
            final(self).player2 == old(self).player2,
            final(self).walls == old(self).walls,
            final(self).mode == old(self).mode,
            final(self).wf(),
    {
        self.state = GameState::Playing;
    }

    /// After a round: the game is over once a player has reached the win score,
    /// else the next round starts.
    pub fn check_score(&mut self)
        requires
            old(self).wf(),
            old(self).state == GameState::RoundFinished,
        ensures
            final(self).state == old(self).after_round(),
            final(self).ball == old(self).ball,
            final(self).player1 == old(self).player1,
            final(self).player2 == old(self).player2,
            final(self).walls == old(self).walls,
            final(self).mode == old(self).mode,
            final(self).wf(),
    {
        if self.mode.player1_score == WIN_SCORE || self.mode.player2_score == WIN_SCORE {
            self.state = GameState::GameFinished;
        } else {
            self.state = GameState::RoundStart;
        }
    }

    /// Whether the game has ended.
    pub fn is_finished(&self) -> (r: bool)
        ensures
            r == (self.state == GameState::GameFinished),
    {
        self.state == GameState::GameFinished
    }

    /// Runs one frame with the direction samples `(sx, sy)` that a new round would use.
    pub fn advance(&mut self, input: &FrameInput, sx: i64, sy: i64) -> (r: Result<(), GameError>)
        requires
            old(self).wf(),
            sample_in_range(sx as int),
            sample_in_range(sy as int),
        ensures
            (*final(self), r) == old(self).frame(*input, sx as int, sy as int),
            final(self).wf(),
    {
        match self.state {
            GameState::RoundStart => {
                let reset = self.ball_reset(sx, sy);
                if reset.is_err() {
                    return reset;
                }
                self.paddles_reset();
                self.start_round();
                Ok(())
            },
            GameState::Playing => {
                self.ball_move(input.delta_us);
                self.paddles_move(input);
                match self.detect_collision() {
                    Ok(()) => Ok(()),
                    Err(e) => Err(GameError::Collision(e)),
                }
            },
            GameState::RoundFinished => {
                self.check_score();
                Ok(())
            },
            GameState::GameFinished => Ok(()),
        }
    }

    /// Runs one frame; a new round draws its ball direction at random.
    pub fn step(&mut self, input: &FrameInput) -> (r: Result<(), GameError>)
        requires
            old(self).wf(),
        ensures
            exists|sx: int, sy: int|
                sample_in_range(sx) && sample_in_range(sy) && (*final(self), r) == old(self).frame(*input, sx, sy),
            final(self).wf(),
    {
        let (sx, sy) = if self.state == GameState::RoundStart {
            random_samples()
        } else {
            (0, 0)
        };
        self.advance(input, sx, sy)
    }
}

/// A frame leaves a well-formed game well-formed, whatever its input and samples.
pub proof fn lemma_frame_keeps_wf(g: Game, input: FrameInput, sx: int, sy: int)
    requires
        g.wf(),
        sample_in_range(sx),
        sample_in_range(sy),
    ensures
        g.frame(input, sx, sy).0.wf(),
{
    match g.state {
        GameState::RoundStart => {
            if sx != 0 || sy != 0 {
                lemma_normalized_is_unit(sx, sy);
            }
        },
        GameState::Playing => {
            let m = g.moved(input);
            assert(m.wf());
            match first_hit_from(m.ball.spec_aabb(), m.colliders(), 0) {
                None => {},
                Some(c) => {
                    match side_of(m.ball.spec_aabb(), c.aabb) {
                        Err(e) => {},
                        Ok(side) => {
                            lemma_after_hit_wf(m, side, c);
                        },
                    }
                },
            }
        },
        _ => {},
    }
}

/// The ball's direction stays a unit vector across every frame: reflections and
/// round resets alike.
pub proof fn lemma_direction_stays_unit(g: Game, input: FrameInput, sx: int, sy: int)
    requires
        g.wf(),
        sample_in_range(sx),
        sample_in_range(sy),
    ensures
        g.frame(input, sx, sy).0.ball.velocity.direction.wf(),
{
    lemma_frame_keeps_wf(g, input, sx, sy);
}

/// A paddle never moves sideways: no frame changes either paddle's x.
pub proof fn lemma_paddle_x_fixed(g: Game, input: FrameInput, sx: int, sy: int)
    requires
        g.wf(),
        sample_in_range(sx),
        sample_in_range(sy),
    ensures
        g.frame(input, sx, sy).0.player1.x == g.player1.x,
        g.frame(input, sx, sy).0.player2.x == g.player2.x,
{
    lemma_frame_keeps_wf(g, input, sx, sy);
}

/// No score passes the win score, and while a round is being set up or played both
/// scores are below it: a frame keeps this whatever its input and samples.
pub proof fn lemma_scores_capped(g: Game, input: FrameInput, sx: int, sy: int)
    requires
        g.wf(),
        sample_in_range(sx),
        sample_in_range(sy),
    ensures
        g.frame(input, sx, sy).0.mode.player1_score <= WIN_SCORE,
        g.frame(input, sx, sy).0.mode.player2_score <= WIN_SCORE,
        scores_ok(g.frame(input, sx, sy).0.mode, g.frame(input, sx, sy).0.state),
{
    lemma_frame_keeps_wf(g, input, sx, sy);
}

/// When the first collider that the ball overlaps is a wall struck on its top or
/// bottom, the ball's vertical direction is negated and neither the scores nor the
/// phase change.
pub proof fn lemma_wall_vertical_hit(g: Game)
    requires
        g.wf(),
        first_hit_from(g.ball.spec_aabb(), g.colliders(), 0) is Some,
        first_hit_from(g.ball.spec_aabb(), g.colliders(), 0)->Some_0.kind == ColliderKind::Wall,
        side_of(g.ball.spec_aabb(), first_hit_from(g.ball.spec_aabb(), g.colliders(), 0)->Some_0.aabb)
            == Ok::<CollisionSide, CollisionError>(CollisionSide::Top)
            || side_of(g.ball.spec_aabb(), first_hit_from(g.ball.spec_aabb(), g.colliders(), 0)->Some_0.aabb)
            == Ok::<CollisionSide, CollisionError>(CollisionSide::Bottom),
    ensures
        g.resolved() is Ok,
        g.resolved()->Ok_0.ball.velocity.direction == g.ball.velocity.direction.reflected_y(),
        g.resolved()->Ok_0.ball.velocity.direction.x == g.ball.velocity.direction.x,
        g.resolved()->Ok_0.mode == g.mode,
        g.resolved()->Ok_0.state == g.state,
{
}

/// A goal for player 1: when the first collider that the ball overlaps is a wall
/// right of the origin, such as the arena's right wall, struck on either its left or
/// its right face, the ball's horizontal direction is negated, player 1 scores
/// exactly one point, player 2's score stays, and the round is over.
pub proof fn lemma_right_wall_goal(g: Game)
    requires
        g.wf(),
        first_hit_from(g.ball.spec_aabb(), g.colliders(), 0) is Some,
        first_hit_from(g.ball.spec_aabb(), g.colliders(), 0)->Some_0.kind == ColliderKind::Wall,
        first_hit_from(g.ball.spec_aabb(), g.colliders(), 0)->Some_0.aabb.center_x > 0,
        side_of(g.ball.spec_aabb(), first_hit_from(g.ball.spec_aabb(), g.colliders(), 0)->Some_0.aabb)
            == Ok::<CollisionSide, CollisionError>(CollisionSide::Left)
            || side_of(g.ball.spec_aabb(), first_hit_from(g.ball.spec_aabb(), g.colliders(), 0)->Some_0.aabb)
            == Ok::<CollisionSide, CollisionError>(CollisionSide::Right),
    ensures
        g.resolved() is Ok,
        g.resolved()->Ok_0.ball.velocity.direction == g.ball.velocity.direction.reflected_x(),
        g.resolved()->Ok_0.mode.player1_score == g.mode.player1_score + 1,
        g.resolved()->Ok_0.mode.player2_score == g.mode.player2_score,
        g.resolved()->Ok_0.state == GameState::RoundFinished,
{
}

/// A goal for player 2: when the first collider that the ball overlaps is a wall
/// left of the origin, such as the arena's left wall, struck on either its left or
/// its right face, the ball's horizontal direction is negated, player 2 scores
/// exactly one point, player 1's score stays, and the round is over.
pub proof fn lemma_left_wall_goal(g: Game)
    requires
        g.wf(),
        first_hit_from(g.ball.spec_aabb(), g.colliders(), 0) is Some,
        first_hit_from(g.ball.spec_aabb(), g.colliders(), 0)->Some_0.kind == ColliderKind::Wall,
        first_hit_from(g.ball.spec_aabb(), g.colliders(), 0)->Some_0.aabb.center_x < 0,
        side_of(g.ball.spec_aabb(), first_hit_from(g.ball.spec_aabb(), g.colliders(), 0)->Some_0.aabb)
            == Ok::<CollisionSide, CollisionError>(CollisionSide::Left)
            || side_of(g.ball.spec_aabb(), first_hit_from(g.ball.spec_aabb(), g.colliders(), 0)->Some_0.aabb)
            == Ok::<CollisionSide, CollisionError>(CollisionSide::Right),
    ensures
        g.resolved() is Ok,
        g.resolved()->Ok_0.ball.velocity.direction == g.ball.velocity.direction.reflected_x(),
        g.resolved()->Ok_0.mode.player2_score == g.mode.player2_score + 1,
        g.resolved()->Ok_0.mode.player1_score == g.mode.player1_score,
        g.resolved()->Ok_0.state == GameState::RoundFinished,
{
}

/// Without an overlap there is no response: when no paddle or wall overlaps the
/// ball, collision response leaves the game, its scores and its phase as they were.
pub proof fn lemma_no_overlap_no_change(g: Game)
    requires
        g.wf(),
        forall|i: int| 0 <= i < g.colliders().len() ==> !(#[trigger] g.colliders()[i]).aabb.overlaps(
            g.ball.spec_aabb(),
        ),
    ensures
        g.resolved() == Ok::<Game, CollisionError>(g),
{
    lemma_no_hit_from(g.ball.spec_aabb(), g.colliders(), 0);
}

proof fn lemma_no_hit_from(b: Aabb, cs: Seq<Collider>, i: int)
    requires
        0 <= i,
        forall|j: int| 0 <= j < cs.len() ==> !(#[trigger] cs[j]).aabb.overlaps(b),
    ensures
        first_hit_from(b, cs, i) is None,
    decreases cs.len() - i,
{
    if i < cs.len() {
        lemma_no_hit_from(b, cs, i + 1);
    }
}

/// After a finished round the game ends when either score is the win score;
/// otherwise a new round starts, and the frame after that puts both paddles back
/// at their spawn and the ball at the origin with a fresh unit direction.
pub proof fn lemma_round_finished_next(g: Game, input: FrameInput, sx: int, sy: int, next_input: FrameInput, nx: int, ny: int)
    requires
        g.wf(),
        g.state == GameState::RoundFinished,
        sample_in_range(sx),
        sample_in_range(sy),
        sample_in_range(nx),
        sample_in_range(ny),
        nx != 0 || ny != 0,
    ensures
        g.frame(input, sx, sy).1 is Ok,
        (g.mode.player1_score == WIN_SCORE || g.mode.player2_score == WIN_SCORE)
            ==> g.frame(input, sx, sy).0.state == GameState::GameFinished,
        !(g.mode.player1_score == WIN_SCORE || g.mode.player2_score == WIN_SCORE) ==> ({
            let started = g.frame(input, sx, sy).0;
            let reset = started.frame(next_input, nx, ny);
            &&& started.state == GameState::RoundStart
            &&& reset.1 is Ok
            &&& reset.0.state == GameState::Playing
            &&& reset.0.player1 == (Paddle { id: 0, x: PADDLE_SPAWN_X, y: 0 })
            &&& reset.0.player2 == (Paddle { id: 1, x: -PADDLE_SPAWN_X as i64, y: 0 })
            &&& reset.0.ball.x == 0
            &&& reset.0.ball.y == 0
            &&& reset.0.ball.velocity.direction == normalized(nx, ny)
            &&& reset.0.ball.velocity.direction.wf()
            &&& reset.0.mode == g.mode
        }),
{
    lemma_frame_keeps_wf(g, input, sx, sy);
    lemma_normalized_is_unit(nx, ny);
}

} // verus!
