//! Fixed-point motion: unit directions, the ball and the paddles.
use vstd::prelude::*;
use crate::geometry::{Aabb, COORD_LIMIT, UNITS_PER_PIXEL, abs_int, in_coord_range};

verus! {

/// A direction component of this value stands for 1.0.
pub const DIR_ONE: i64 = 1_048_576;

/// How far the squared length of a direction may stray from `DIR_ONE * DIR_ONE`:
/// under 5e-6 of it, so the length itself stays within 1e-5 of one.
pub const DIR_TOLERANCE: i64 = 5 * DIR_ONE;

/// Paddle speed in pixels per second.
pub const PADDLE_SPEED: i64 = 150;

pub const MICROS_PER_SECOND: i64 = 1_000_000;

/// A unit vector in fixed point: each component is scaled by `DIR_ONE`.
#[derive(Clone, Copy, Debug, PartialEq, Eq, Structural)]
pub struct Direction {
    pub x: i64,
    pub y: i64,
}

pub open spec fn squared_len(x: int, y: int) -> int {
    x * x + y * y
}

/// The squared length is within tolerance of one.
pub open spec fn is_unit(x: int, y: int) -> bool {
    DIR_ONE * DIR_ONE - DIR_TOLERANCE <= squared_len(x, y) <= DIR_ONE * DIR_ONE + DIR_TOLERANCE
}

impl Direction {
    pub open spec fn wf(self) -> bool {
        &&& -DIR_ONE <= self.x <= DIR_ONE
        &&& -DIR_ONE <= self.y <= DIR_ONE
        &&& is_unit(self.x as int, self.y as int)
    }

    pub open spec fn reflected_x(self) -> Direction {
        Direction { x: -self.x as i64, y: self.y }
    }

    pub open spec fn reflected_y(self) -> Direction {
        Direction { x: self.x, y: -self.y as i64 }
    }

    /// Negates the horizontal component.
    pub fn reflect_x(&mut self)
        requires
            old(self).wf(),
        ensures
            *final(self) == old(self).reflected_x(),
            final(self).wf(),
    {
        proof {
            lemma_reflection_keeps_unit(*self);
        }
        self.x = -self.x;
    }

    /// Negates the vertical component.
    pub fn reflect_y(&mut self)
        requires
            old(self).wf(),
        ensures
            *final(self) == old(self).reflected_y(),
            final(self).wf(),
    {
        proof {
            lemma_reflection_keeps_unit(*self);
        }
        self.y = -self.y;
    }
}

/// Reflecting a unit direction along either axis leaves it a unit direction.
pub proof fn lemma_reflection_keeps_unit(d: Direction)
    requires
        d.wf(),
    ensures
        d.reflected_x().wf(),
        d.reflected_y().wf(),
{
    let x = d.x as int;
    let y = d.y as int;
    assert((-x) * (-x) == x * x) by (nonlinear_arith);
    assert((-y) * (-y) == y * y) by (nonlinear_arith);
}

/// `r` is the integer square root of `m`.
pub open spec fn is_root(m: int, r: int) -> bool {
    0 <= r && r * r <= m < (r + 1) * (r + 1)
}

/// The integer square root of a non-negative `m`.
pub open spec fn root(m: int) -> int {
    choose|r: int| is_root(m, r)
}

proof fn lemma_root_unique(m: int, r: int, s: int)
    requires
        is_root(m, r),
        is_root(m, s),
    ensures
        r == s,
{
    if r < s {
        assert((r + 1) * (r + 1) <= s * s) by (nonlinear_arith)
            requires
                0 <= r + 1 <= s,
        ;
    } else if s < r {
        assert((s + 1) * (s + 1) <= r * r) by (nonlinear_arith)
            requires
                0 <= s + 1 <= r,
        ;
    }
}

/// Integer square root by bisection.
pub fn isqrt(m: u128) -> (r: u128)
    ensures
        r as int == root(m as int),
        is_root(m as int, r as int),
{
    let mut lo: u128 = 0;
    let mut hi: u128 = 18_446_744_073_709_551_616;
    assert(hi * hi > m) by (nonlinear_arith)
        requires
            hi == 18_446_744_073_709_551_616u128,
    ;
    while hi - lo > 1
        invariant
            lo < hi <= 18_446_744_073_709_551_616,
            lo * lo <= m,
            m < hi * hi,
        decreases hi - lo,
    {
        let mid: u128 = lo + (hi - lo) / 2;
        assert(mid * mid < 340_282_366_920_938_463_463_374_607_431_768_211_456) by (nonlinear_arith)
            requires
                mid < 18_446_744_073_709_551_616,
        ;
        if mid * mid <= m {
            lo = mid;
        } else {
            hi = mid;
        }
    }
    proof {
        assert(is_root(m as int, lo as int));
        lemma_root_unique(m as int, lo as int, root(m as int));
    }
    lo
}

/// Scales `|s|` to a component of the unit vector: `|s| * DIR_ONE^2 / root`, rounded down.
pub open spec fn scaled_component(s: int, len_root: int) -> int {
    let a = abs_int(s);
    let m = a * (DIR_ONE * DIR_ONE) / len_root;
    if s < 0 { -m } else { m }
}

/// The unit direction pointing along `(sx, sy)`: each component is scaled by the
/// integer square root of `(sx^2 + sy^2) * DIR_ONE^2`.
pub open spec fn normalized(sx: int, sy: int) -> Direction {
    let len_root = root(squared_len(sx, sy) * (DIR_ONE * DIR_ONE));
    Direction { x: scaled_component(sx, len_root) as i64, y: scaled_component(sy, len_root) as i64 }
}

pub open spec fn sample_in_range(s: int) -> bool {
    -DIR_ONE <= s < DIR_ONE
}

proof fn lemma_square_of_floor_quotients(a: int, b: int, d: int, p: int, q: int)
    requires
        0 <= a,
        0 <= b,
        a * a + b * b >= 1,
        is_root((a * a + b * b) * (DIR_ONE * DIR_ONE), d),
        p == a * (DIR_ONE * DIR_ONE) / d,
        q == b * (DIR_ONE * DIR_ONE) / d,
    ensures
        0 <= p <= DIR_ONE,
        0 <= q <= DIR_ONE,
        is_unit(p, q),
{
    let s: int = DIR_ONE as int;
    let s2: int = s * s;
    let n: int = a * a + b * b;
    let m: int = n * s2;
    assert(s2 == 1_099_511_627_776);
    assert(m >= s2) by (nonlinear_arith)
        requires
            m == n * s2,
            n >= 1,
            s2 > 0,
    ;
    // the root is at least s, since m >= s^2
    assert(d >= s) by (nonlinear_arith)
        requires
            0 <= d,
            d * d <= m,
            m < (d + 1) * (d + 1),
            m >= s2,
            s2 == s * s,
            s == 1_048_576,
    ;
    assert(p * d <= a * s2 < (p + 1) * d && 0 <= p) by (nonlinear_arith)
        requires
            d > 0,
            a >= 0,
            s2 > 0,
            p == a * s2 / d,
    ;
    assert(q * d <= b * s2 < (q + 1) * d && 0 <= q) by (nonlinear_arith)
        requires
            d > 0,
            b >= 0,
            s2 > 0,
            q == b * s2 / d,
    ;
    // upper bound
    lemma_square_mono(p * d, a * s2);
    lemma_square_mono(q * d, b * s2);
    assert((p * p + q * q) * (d * d) == (p * d) * (p * d) + (q * d) * (q * d)) by (nonlinear_arith);
    assert(m * s2 == (a * s2) * (a * s2) + (b * s2) * (b * s2)) by (nonlinear_arith)
        requires
            m == (a * a + b * b) * s2,
    ;
    assert(m * s2 < (d * d) * (s2 + 2 * s + 1)) by (nonlinear_arith)
        requires
            m < (d + 1) * (d + 1),
            s2 == s * s,
            s > 0,
            d >= s,
    ;
    assert(p * p + q * q < s2 + 2 * s + 1) by (nonlinear_arith)
        requires
            (p * p + q * q) * (d * d) < (d * d) * (s2 + 2 * s + 1),
            d > 0,
    ;
    assert(p <= s && q <= s) by (nonlinear_arith)
        requires
            0 <= p,
            0 <= q,
            p * p + q * q < s2 + 2 * s + 1,
            s2 == s * s,
            s > 0,
    ;
    // lower bound
    lemma_square_strict(a * s2, (p + 1) * d);
    lemma_square_strict(b * s2, (q + 1) * d);
    assert(((p + 1) * (p + 1) + (q + 1) * (q + 1)) * (d * d) == ((p + 1) * d) * ((p + 1) * d) + ((q
        + 1) * d) * ((q + 1) * d)) by (nonlinear_arith);
    assert(m * s2 >= (d * d) * s2) by (nonlinear_arith)
        requires
            d * d <= m,
            s2 > 0,
    ;
    assert((p + 1) * (p + 1) + (q + 1) * (q + 1) > s2) by (nonlinear_arith)
        requires
            ((p + 1) * (p + 1) + (q + 1) * (q + 1)) * (d * d) > (d * d) * s2,
            d > 0,
    ;
    assert(p * p + q * q > s2 - 4 * s - 2) by (nonlinear_arith)
        requires
            (p + 1) * (p + 1) + (q + 1) * (q + 1) > s2,
            0 <= p <= s,
            0 <= q <= s,
    ;
}

proof fn lemma_square_mono(u: int, v: int)
    requires
        0 <= u <= v,
    ensures
        u * u <= v * v,
{
    assert(u * u <= v * v) by (nonlinear_arith)
        requires
            0 <= u <= v,
    ;
}

proof fn lemma_square_strict(u: int, v: int)
    requires
        0 <= u < v,
    ensures
        u * u < v * v,
{
    assert(u * u < v * v) by (nonlinear_arith)
        requires
            0 <= u < v,
    ;
}

/// Every non-negative integer has an integer square root.
pub proof fn lemma_root_exists(m: int)
    requires
        0 <= m,
    ensures
        is_root(m, root(m)),
    decreases m,
{
    if m == 0 {
        assert(is_root(0, 0));
    } else {
        lemma_root_exists(m - 1);
        let r = root(m - 1);
        if (r + 1) * (r + 1) <= m {
            assert(m < (r + 2) * (r + 2)) by (nonlinear_arith)
                requires
                    m - 1 < (r + 1) * (r + 1),
                    0 <= r,
            ;
            assert(is_root(m, r + 1));
        } else {
            assert(is_root(m, r));
        }
    }
}

/// The direction built from two samples that are not both zero is a unit direction.
pub proof fn lemma_normalized_is_unit(sx: int, sy: int)
    requires
        sample_in_range(sx),
        sample_in_range(sy),
        sx != 0 || sy != 0,
    ensures
        normalized(sx, sy).wf(),
{
    let a = abs_int(sx);
    let b = abs_int(sy);
    let one_sq: int = DIR_ONE * DIR_ONE;
    assert(sx * sx == a * a && sy * sy == b * b) by (nonlinear_arith)
        requires
            a == sx || a == -sx,
            b == sy || b == -sy,
    ;
    assert(a * a + b * b >= 1) by (nonlinear_arith)
        requires
            a >= 0,
            b >= 0,
            a > 0 || b > 0,
    ;
    let m = squared_len(sx, sy) * one_sq;
    assert(m >= 0) by (nonlinear_arith)
        requires
            m == (a * a + b * b) * one_sq,
            one_sq > 0,
            a * a + b * b >= 1,
    ;
    lemma_root_exists(m);
    let d = root(m);
    assert(d > 0) by (nonlinear_arith)
        requires
            m == (a * a + b * b) * one_sq,
            a * a + b * b >= 1,
            one_sq == 1_099_511_627_776,
            is_root(m, d),
    ;
    let p = a * one_sq / d;
    let q = b * one_sq / d;
    lemma_square_of_floor_quotients(a, b, d, p, q);
    let x = scaled_component(sx, d);
    let y = scaled_component(sy, d);
    assert(x * x == p * p && y * y == q * q) by (nonlinear_arith)
        requires
            x == p || x == -p,
            y == q || y == -q,
    ;
}

/// Turns two samples, each standing for a value in [-1, 1), into a unit direction.
/// The zero vector has no direction: `None` then.
pub fn direction_from_samples(sx: i64, sy: i64) -> (r: Option<Direction>)
    requires
        sample_in_range(sx as int),
        sample_in_range(sy as int),
    ensures
        r is None <==> (sx == 0 && sy == 0),
        r is Some ==> r->Some_0 == normalized(sx as int, sy as int),
        r is Some ==> r->Some_0.wf(),
{
    if sx == 0 && sy == 0 {
        return None;
    }
    let a: u128 = if sx < 0 { (-sx) as u128 } else { sx as u128 };
    let b: u128 = if sy < 0 { (-sy) as u128 } else { sy as u128 };
    let one_sq: u128 = (DIR_ONE * DIR_ONE) as u128;
    assert(a * a <= 1_099_511_627_776 && b * b <= 1_099_511_627_776) by (nonlinear_arith)
        requires
            a <= 1_048_576,
            b <= 1_048_576,
    ;
    let n: u128 = a * a + b * b;
    assert(n >= 1) by (nonlinear_arith)
        requires
            n == a * a + b * b,
            a > 0 || b > 0,
    ;
    assert(n * one_sq <= 2_199_023_255_552 * 1_099_511_627_776) by (nonlinear_arith)
        requires
            n <= 2_199_023_255_552,
            one_sq == 1_099_511_627_776,
    ;
    let d: u128 = isqrt(n * one_sq);
    proof {
        assert(d > 0) by (nonlinear_arith)
            requires
                n >= 1,
                one_sq == 1_099_511_627_776,
                is_root(n * one_sq, d as int),
        ;
    }
    let pu: u128 = a * one_sq / d;
    let qu: u128 = b * one_sq / d;
    proof {
        lemma_square_of_floor_quotients(a as int, b as int, d as int, pu as int, qu as int);
        assert(sx * sx == a * a && sy * sy == b * b) by (nonlinear_arith)
            requires
                a == sx || a == -sx,
                b == sy || b == -sy,
        ;
        assert(squared_len(sx as int, sy as int) == n as int);
        assert(abs_int(sx as int) == a && abs_int(sy as int) == b);
    }
    let p: i64 = pu as i64;
    let q: i64 = qu as i64;
    let x: i64 = if sx < 0 { -p } else { p };
    let y: i64 = if sy < 0 { -q } else { q };
    proof {
        assert(x * x == p * p && y * y == q * q) by (nonlinear_arith)
            requires
                x == p || x == -p,
                y == q || y == -q,
        ;
    }
    Some(Direction { x, y })
}

/// Half width of a paddle, in units.
pub const PADDLE_HALF_WIDTH: i64 = 8 * UNITS_PER_PIXEL;

/// Half height of a paddle, in units.
pub const PADDLE_HALF_HEIGHT: i64 = 64 * UNITS_PER_PIXEL;

/// Half the side of the square ball, in units.
pub const BALL_HALF_SIZE: i64 = 8 * UNITS_PER_PIXEL;

/// Ball speed in pixels per second.
pub const BALL_SPEED: u16 = 100;

/// Horizontal spawn position of player 0's paddle, in units; player 1's is its negation.
pub const PADDLE_SPAWN_X: i64 = 64 * UNITS_PER_PIXEL;

/// `v` held inside the coordinate range.
pub open spec fn clamp_coord(v: int) -> int {
    if v < -COORD_LIMIT {
        -COORD_LIMIT as int
    } else if v > COORD_LIMIT {
        COORD_LIMIT as int
    } else {
        v
    }
}

fn add_clamped(v: i64, delta: i64) -> (r: i64)
    requires
        in_coord_range(v as int),
        -2 * COORD_LIMIT <= delta <= 2 * COORD_LIMIT,
    ensures
        r == clamp_coord(v + delta),
        in_coord_range(r as int),
{
    let s: i64 = v + delta;
    if s < -COORD_LIMIT {
        -COORD_LIMIT
    } else if s > COORD_LIMIT {
        COORD_LIMIT
    } else {
        s
    }
}

/// How far, in units, a paddle moves in `delta_us` microseconds.
pub open spec fn paddle_step(delta_us: int) -> int {
    PADDLE_SPEED * UNITS_PER_PIXEL * delta_us / (MICROS_PER_SECOND as int)
}

/// The paddle's height after a frame: up first, then down, each by one step.
pub open spec fn translated_y(y: int, delta_us: int, up: bool, down: bool) -> int {
    let raised = if up { clamp_coord(y + paddle_step(delta_us)) } else { y };
    if down { clamp_coord(raised - paddle_step(delta_us)) } else { raised }
}

/// A player's paddle. Player 0 spawns at `PADDLE_SPAWN_X`, player 1 opposite.
#[derive(Clone, Copy, Debug, PartialEq, Eq, Structural)]
pub struct Paddle {
    pub id: u8,
    pub x: i64,
    pub y: i64,
}

pub open spec fn spawn_x(id: u8) -> i64 {
    if id == 0 { PADDLE_SPAWN_X } else { (-PADDLE_SPAWN_X) as i64 }
}

impl Paddle {
    pub open spec fn wf(self) -> bool {
        &&& in_coord_range(self.x as int)
        &&& in_coord_range(self.y as int)
    }

    pub open spec fn spec_aabb(self) -> Aabb {
        Aabb { center_x: self.x, center_y: self.y, half_width: PADDLE_HALF_WIDTH, half_height: PADDLE_HALF_HEIGHT }
    }

    /// The paddle of player `id` at its spawn position.
    pub fn spawn(id: u8) -> (r: Paddle)
        ensures
            r == (Paddle { id, x: spawn_x(id), y: 0 }),
            r.wf(),
    {
        let x: i64 = if id == 0 { PADDLE_SPAWN_X } else { -PADDLE_SPAWN_X };
        Paddle { id, x, y: 0 }
    }

    /// The paddle's bounding box.
    pub fn aabb(&self) -> (r: Aabb)
        requires
            self.wf(),
        ensures
            r == self.spec_aabb(),
            r.wf(),
    {
        Aabb::new(self.x, self.y, PADDLE_HALF_WIDTH, PADDLE_HALF_HEIGHT)
    }

    /// Moves the paddle up while `up` is held and down while `down` is held, at
    /// `PADDLE_SPEED` pixels per second; both held cancel out. It never moves sideways.
    pub fn translate(&mut self, delta_us: u32, up: bool, down: bool)
        requires
            old(self).wf(),
        ensures
            final(self).x == old(self).x,
            final(self).id == old(self).id,
            final(self).y == translated_y(old(self).y as int, delta_us as int, up, down),
            final(self).wf(),
    {
        let rate: i64 = PADDLE_SPEED * UNITS_PER_PIXEL;
        assert(rate * delta_us <= 157_286_400 * 4294967295) by (nonlinear_arith)
            requires
                rate == 157_286_400,
                delta_us <= 4294967295,
        ;
        let step: i64 = rate * (delta_us as i64) / MICROS_PER_SECOND;
        if up {
            self.y = add_clamped(self.y, step);
        }
        if down {
            self.y = add_clamped(self.y, -step);
        }
    }
}

/// The ball's speed in pixels per second and its unit direction.
#[derive(Clone, Copy, Debug, PartialEq, Eq, Structural)]
pub struct Velocity {
    pub speed: u16,
    pub direction: Direction,
}

/// How far, in units, the ball moves along one axis in `delta_us` microseconds when
/// that component of its direction is `c`: `c / DIR_ONE * speed * delta_us / 10^6`
/// pixels, rounded toward zero (a pixel and `DIR_ONE` hold the same number of units).
pub open spec fn ball_step(c: int, speed: int, delta_us: int) -> int {
    let m = abs_int(c) * speed * delta_us / (MICROS_PER_SECOND as int);
    if c < 0 { -m } else { m }
}

/// The square ball.
#[derive(Clone, Copy, Debug, PartialEq, Eq, Structural)]
pub struct Ball {
    pub x: i64,
    pub y: i64,
    pub velocity: Velocity,
}

fn axis_step(c: i64, speed: u16, delta_us: u32) -> (r: i64)
    requires
        -DIR_ONE <= c <= DIR_ONE,
    ensures
        r == ball_step(c as int, speed as int, delta_us as int),
        -2 * COORD_LIMIT <= r <= 2 * COORD_LIMIT,
{
    let a: u128 = if c < 0 { (-c) as u128 } else { c as u128 };
    assert(a * speed <= 1_048_576 * 65535) by (nonlinear_arith)
        requires
            a <= 1_048_576,
            speed <= 65535,
    ;
    let a_speed: u128 = a * (speed as u128);
    assert(a_speed * delta_us <= 1_048_576 * 65535 * 4294967295) by (nonlinear_arith)
        requires
            a_speed <= 1_048_576 * 65535,
            delta_us <= 4294967295,
    ;
    let m: u128 = a_speed * (delta_us as u128) / (MICROS_PER_SECOND as u128);
    assert(m <= 1_048_576 * 65535 * 4294967295 / 1_000_000) by (nonlinear_arith)
        requires
            a_speed * delta_us <= 1_048_576 * 65535 * 4294967295,
            m == a_speed * delta_us / 1_000_000,
    ;
    if c < 0 {
        -(m as i64)
    } else {
        m as i64
    }
}

impl Ball {
    pub open spec fn wf(self) -> bool {
        &&& in_coord_range(self.x as int)
        &&& in_coord_range(self.y as int)
        &&& self.velocity.direction.wf()
    }

    pub open spec fn spec_aabb(self) -> Aabb {
        Aabb { center_x: self.x, center_y: self.y, half_width: BALL_HALF_SIZE, half_height: BALL_HALF_SIZE }
    }

    /// The ball's bounding box.
    pub fn aabb(&self) -> (r: Aabb)
        requires
            self.wf(),
        ensures
            r == self.spec_aabb(),
            r.wf(),
    {
        Aabb::new(self.x, self.y, BALL_HALF_SIZE, BALL_HALF_SIZE)
    }

    /// Advances the ball along its direction for `delta_us` microseconds, each axis on
    /// its own.
    pub fn advance(&mut self, delta_us: u32)
        requires
            old(self).wf(),
        ensures
            final(self).velocity == old(self).velocity,
            final(self).x == clamp_coord(
                old(self).x + ball_step(
                    old(self).velocity.direction.x as int,
                    old(self).velocity.speed as int,
                    delta_us as int,
                ),
            ),
            final(self).y == clamp_coord(
                old(self).y + ball_step(
                    old(self).velocity.direction.y as int,
                    old(self).velocity.speed as int,
                    delta_us as int,
                ),
            ),
            final(self).wf(),
    {
        let dx: i64 = axis_step(self.velocity.direction.x, self.velocity.speed, delta_us);
        let dy: i64 = axis_step(self.velocity.direction.y, self.velocity.speed, delta_us);
        self.x = add_clamped(self.x, dx);
        self.y = add_clamped(self.y, dy);
    }
}

} // verus!
