//! Actors: physics-driven avatars with health and a gun.
use vstd::prelude::*;
use crate::entity::Entity;
use crate::geometry::{
    Vec2, Rect, Arena, UNIT, MICROS, MAX_EXTENT, MAX_SPEED, MAX_DELTA, scale, scaled, capped,
    cap_speed, rect_bounded, lemma_scaled_bounds, lemma_scaled_move,
};
use crate::bullet::{Bullet, BulletType};
use crate::audio::Effect;

verus! {

/// Side of an actor's square.
pub const PLAYER_SIDE: i64 = 80 * UNIT;

/// Half the side of an actor's square.
pub const HALF_SIDE: i64 = 40 * UNIT;

/// Health of a fresh actor.
pub const PLAYER_LIVES: u32 = 100;

/// Acceleration from a single held direction, per second squared.
pub const FORCE: i64 = 1000 * UNIT;

/// Per-axis acceleration when two directions are held: `FORCE / sqrt(2)`, rounded.
pub const DIAGONAL_FORCE: i64 = 707107;

/// Speed change of each actor when the two collide.
pub const BOUNCE_FORCE: i64 = 200 * UNIT;

/// Speed of a projectile along the firing direction.
pub const LAUNCH_SPEED: i64 = 500 * UNIT;

/// Length of a unit heading vector.
pub const HEADING_SCALE: i64 = 1000;

/// Launch speed per unit of heading.
pub const LAUNCH_GAIN: i64 = 500;

/// Time between two shots, in microseconds.
pub const COOLDOWN: u64 = 100_000;

/// The denominator of a per-frame drag factor.
pub const DECAY_SCALE: i64 = 1_000_000;

/// The side an actor or a projectile belongs to.
#[derive(Clone, Copy, Debug, PartialEq, Eq, Structural)]
pub enum PlayerColor {
    Red,
    Blue,
}

/// `1` for the red side, `-1` for the blue side.
pub open spec fn side_sign(c: PlayerColor) -> int {
    match c {
        PlayerColor::Red => 1,
        PlayerColor::Blue => -1,
    }
}

/// The keys an actor reads in one frame.
#[derive(Clone, Copy, Debug, PartialEq, Eq, Structural)]
pub struct Controls {
    pub up: bool,
    pub down: bool,
    pub left: bool,
    pub right: bool,
    pub fire: bool,
}

impl Controls {
    /// No key held.
    pub fn idle() -> (r: Controls)
        ensures
            r == Controls::idle_spec(),
    {
        Controls { up: false, down: false, left: false, right: false, fire: false }
    }

    pub open spec fn idle_spec() -> Controls {
        Controls { up: false, down: false, left: false, right: false, fire: false }
    }

    pub open spec fn is_idle(self) -> bool {
        !self.up && !self.down && !self.left && !self.right
    }
}

/// `-1`, `0` or `1` from a pair of opposite keys.
pub open spec fn axis(neg: bool, pos: bool) -> int {
    (if pos { 1int } else { 0int }) - (if neg { 1int } else { 0int })
}

/// The held directions, made a unit vector (or zero) and scaled by `FORCE`.
pub open spec fn acceleration(c: Controls) -> Vec2 {
    let ax = axis(c.left, c.right);
    let ay = axis(c.up, c.down);
    let f = if ax != 0 && ay != 0 { DIAGONAL_FORCE } else { FORCE };
    Vec2 { x: (ax * f) as i64, y: (ay * f) as i64 }
}

fn axis_of(neg: bool, pos: bool) -> (r: i64)
    ensures
        r == axis(neg, pos),
        -1 <= r <= 1,
{
    let mut a: i64 = 0;
    if neg {
        a = a - 1;
    }
    if pos {
        a = a + 1;
    }
    a
}

/// The acceleration that the held keys ask for.
pub fn acceleration_from_input(c: Controls) -> (r: Vec2)
    ensures
        r == acceleration(c),
        -FORCE <= r.x <= FORCE,
        -FORCE <= r.y <= FORCE,
{
    let ax = axis_of(c.left, c.right);
    let ay = axis_of(c.up, c.down);
    let f = if ax != 0 && ay != 0 {
        DIAGONAL_FORCE
    } else {
        FORCE
    };
    Vec2 { x: ax * f, y: ay * f }
}

/// The largest `r` with `r * r <= n`.
pub open spec fn floor_sqrt(n: nat) -> nat {
    choose|r: nat| is_root(r, n)
}

/// `r` is the square root of `n`, rounded down.
pub open spec fn is_root(r: nat, n: nat) -> bool {
    r * r <= n && n < (r + 1) * (r + 1)
}

proof fn lemma_sqrt_unique(a: nat, b: nat, n: nat)
    requires
        a * a <= n < (a + 1) * (a + 1),
        b * b <= n < (b + 1) * (b + 1),
    ensures
        a == b,
{
    if a < b {
        assert((a + 1) * (a + 1) <= b * b) by (nonlinear_arith)
            requires a + 1 <= b;
    } else if b < a {
        assert((b + 1) * (b + 1) <= a * a) by (nonlinear_arith)
            requires b + 1 <= a;
    }
}

/// The integer square root of `n`, rounded down.
pub fn isqrt(n: u128) -> (r: u128)
    ensures
        r == floor_sqrt(n as nat),
        r * r <= n,
        n < (r + 1) * (r + 1),
{
    let mut lo: u128 = 0;
    let mut hi: u128 = 0x1_0000_0000_0000_0000;
    assert(hi * hi > 0xffff_ffff_ffff_ffff_ffff_ffff_ffff_ffff) by (nonlinear_arith)
        requires hi == 0x1_0000_0000_0000_0000u128;
    while hi - lo > 1
        invariant
            lo < hi <= 0x1_0000_0000_0000_0000,
            lo * lo <= n,
            n < hi * hi,
        decreases hi - lo,
    {
        let mid = lo + (hi - lo) / 2;
        assert(mid * mid <= 0xffff_ffff_ffff_ffff_ffff_ffff_ffff_ffff) by (nonlinear_arith)
            requires mid < 0x1_0000_0000_0000_0000;
        if mid * mid <= n {
            lo = mid;
        } else {
            hi = mid;
        }
    }
    proof {
        assert(is_root(lo as nat, n as nat));
        let w = floor_sqrt(n as nat);
        lemma_sqrt_unique(w, lo as nat, n as nat);
    }
    lo
}

/// The direction from `b` to `a`, with a fixed axis when the two coincide.
pub open spec fn separation(a: Vec2, b: Vec2) -> Vec2 {
    if a == b {
        Vec2 { x: 1, y: 0 }
    } else {
        Vec2 { x: (a.x - b.x) as i64, y: (a.y - b.y) as i64 }
    }
}

/// Precision of the direction used for a push: the length of the
/// separation is taken in millionths of a length unit.
pub const PUSH_SCALE: i64 = 1_000_000;

/// The push's numerator per unit of separation: `BOUNCE_FORCE * PUSH_SCALE`.
pub const PUSH_GAIN: i64 = 200_000_000_000;

/// The length of a separation whose squared length is `n`, in millionths
/// of a unit, rounded up: the square root of `n * PUSH_SCALE^2`, rounded up.
pub open spec fn push_root(n: int) -> int {
    floor_sqrt((n * PUSH_SCALE * PUSH_SCALE - 1) as nat) as int + 1
}

/// `BOUNCE_FORCE` along the direction of `d`: each component is
/// `d * BOUNCE_FORCE / |d|`, with `|d|` taken in millionths and rounded up,
/// and the quotient rounded toward zero.
pub open spec fn knockback(d: Vec2) -> Vec2 {
    let r = push_root(d.x * d.x + d.y * d.y);
    Vec2 {
        x: scaled(d.x as int, PUSH_GAIN as int, r) as i64,
        y: scaled(d.y as int, PUSH_GAIN as int, r) as i64,
    }
}

/// The push's components, for a separation of `(a, b)` with nonnegative
/// components, lie within `BOUNCE_FORCE`, and its length is at least
/// `BOUNCE_FORCE - 2` and at most `BOUNCE_FORCE`.
pub proof fn lemma_push_length(a: int, b: int)
    requires
        0 <= a,
        0 <= b,
        0 < a + b,
    ensures
        ({
            let r = push_root(a * a + b * b);
            let kx = a * PUSH_GAIN / r;
            let ky = b * PUSH_GAIN / r;
            &&& r >= PUSH_SCALE
            &&& 0 <= kx <= BOUNCE_FORCE
            &&& 0 <= ky <= BOUNCE_FORCE
            &&& (BOUNCE_FORCE - 2) * (BOUNCE_FORCE - 2) <= kx * kx + ky * ky <= BOUNCE_FORCE * BOUNCE_FORCE
        }),
{
    let n = a * a + b * b;
    assert(n >= 1) by (nonlinear_arith)
        requires n == a * a + b * b, a >= 0, b >= 0, a + b > 0;
    let big = n * PUSH_SCALE * PUSH_SCALE;
    assert(big >= PUSH_SCALE * PUSH_SCALE) by (nonlinear_arith)
        requires big == n * PUSH_SCALE * PUSH_SCALE, n >= 1;
    lemma_root_exists((big - 1) as nat);
    let f = floor_sqrt((big - 1) as nat) as int;
    let r = f + 1;
    assert((r - 1) * (r - 1) < big && big <= r * r);
    assert(r >= PUSH_SCALE) by (nonlinear_arith)
        requires big <= r * r, big >= PUSH_SCALE * PUSH_SCALE, r >= 1;
    let p = a * PUSH_GAIN;
    let q = b * PUSH_GAIN;
    let kx = p / r;
    let ky = q / r;
    assert(p >= 0 && q >= 0) by (nonlinear_arith)
        requires p == a * PUSH_GAIN, q == b * PUSH_GAIN, a >= 0, b >= 0;
    assert(r * kx <= p && p < r * (kx + 1)) by (nonlinear_arith)
        requires kx == p / r, r > 0, p >= 0;
    assert(r * ky <= q && q < r * (ky + 1)) by (nonlinear_arith)
        requires ky == q / r, r > 0, q >= 0;
    assert(kx >= 0 && ky >= 0) by (nonlinear_arith)
        requires r * kx <= p, p < r * (kx + 1), r > 0, p >= 0,
            r * ky <= q, q < r * (ky + 1), q >= 0;
    let bb = BOUNCE_FORCE * BOUNCE_FORCE;
    assert(p * p + q * q == bb * big) by (nonlinear_arith)
        requires p == a * PUSH_GAIN, q == b * PUSH_GAIN, big == (a * a + b * b) * PUSH_SCALE * PUSH_SCALE,
            bb == BOUNCE_FORCE * BOUNCE_FORCE;
    let k2 = kx * kx + ky * ky;
    // upper bound
    assert((r * kx) * (r * kx) <= p * p) by (nonlinear_arith)
        requires 0 <= r * kx <= p;
    assert((r * ky) * (r * ky) <= q * q) by (nonlinear_arith)
        requires 0 <= r * ky <= q;
    assert(k2 * (r * r) <= bb * (r * r)) by (nonlinear_arith)
        requires (r * kx) * (r * kx) <= p * p, (r * ky) * (r * ky) <= q * q, p * p + q * q == bb * big,
            big <= r * r, k2 == kx * kx + ky * ky, bb >= 0;
    assert(k2 <= bb) by (nonlinear_arith)
        requires k2 * (r * r) <= bb * (r * r), r > 0;
    assert(kx <= BOUNCE_FORCE && ky <= BOUNCE_FORCE) by (nonlinear_arith)
        requires k2 == kx * kx + ky * ky, k2 <= bb, bb == BOUNCE_FORCE * BOUNCE_FORCE, kx >= 0, ky >= 0;
    // lower bound
    assert((r * (kx + 1)) * (r * (kx + 1)) > p * p) by (nonlinear_arith)
        requires r * (kx + 1) > p, p >= 0;
    assert((r * (ky + 1)) * (r * (ky + 1)) > q * q) by (nonlinear_arith)
        requires r * (ky + 1) > q, q >= 0;
    let s = kx + ky;
    let x = k2 + 2 * s + 2;
    assert(x * (r * r) > bb * big) by (nonlinear_arith)
        requires (r * (kx + 1)) * (r * (kx + 1)) > p * p, (r * (ky + 1)) * (r * (ky + 1)) > q * q,
            p * p + q * q == bb * big, x == kx * kx + ky * ky + 2 * (kx + ky) + 2;
    assert(bb * big > bb * ((r - 1) * (r - 1))) by (nonlinear_arith)
        requires (r - 1) * (r - 1) < big, bb > 0;
    assert(x * (r * r) > (bb * r - 2 * bb) * r) by (nonlinear_arith)
        requires x * (r * r) > bb * big, bb * big > bb * ((r - 1) * (r - 1)), r > 0, bb > 0;
    assert(x * r > bb * r - 2 * bb) by (nonlinear_arith)
        requires x * (r * r) > (bb * r - 2 * bb) * r, r > 0;
    assert(2 * bb <= 80000 * r) by (nonlinear_arith)
        requires r >= PUSH_SCALE, bb == BOUNCE_FORCE * BOUNCE_FORCE;
    assert(x > bb - 80000) by (nonlinear_arith)
        requires x * r > bb * r - 2 * bb, 2 * bb <= 80000 * r, r > 0;
    assert(s * s <= 2 * k2) by (nonlinear_arith)
        requires s == kx + ky, k2 == kx * kx + ky * ky;
    assert(s <= 282843) by (nonlinear_arith)
        requires s * s <= 2 * k2, k2 <= bb, bb == BOUNCE_FORCE * BOUNCE_FORCE, s >= 0;
}

/// The push that `a` gets from `b`; `b` gets the opposite. Its length is
/// within two length units of `BOUNCE_FORCE`, never above it, and it points
/// from `b` to `a` on each axis.
pub fn knockback_between(a: Vec2, b: Vec2) -> (k: Vec2)
    requires
        -MAX_EXTENT <= a.x <= MAX_EXTENT,
        -MAX_EXTENT <= a.y <= MAX_EXTENT,
        -MAX_EXTENT <= b.x <= MAX_EXTENT,
        -MAX_EXTENT <= b.y <= MAX_EXTENT,
    ensures
        k == knockback(separation(a, b)),
        -BOUNCE_FORCE <= k.x <= BOUNCE_FORCE,
        -BOUNCE_FORCE <= k.y <= BOUNCE_FORCE,
        (BOUNCE_FORCE - 2) * (BOUNCE_FORCE - 2) <= k.x * k.x + k.y * k.y <= BOUNCE_FORCE * BOUNCE_FORCE,
        k.x * separation(a, b).x >= 0,
        k.y * separation(a, b).y >= 0,
{
    let d = if a == b {
        Vec2 { x: 1, y: 0 }
    } else {
        Vec2 { x: a.x - b.x, y: a.y - b.y }
    };
    let ax: u64 = if d.x >= 0 { d.x as u64 } else { (-d.x) as u64 };
    let ay: u64 = if d.y >= 0 { d.y as u64 } else { (-d.y) as u64 };
    assert(ax * ax <= 4 * MAX_EXTENT * MAX_EXTENT) by (nonlinear_arith)
        requires ax <= 2 * MAX_EXTENT;
    assert(ay * ay <= 4 * MAX_EXTENT * MAX_EXTENT) by (nonlinear_arith)
        requires ay <= 2 * MAX_EXTENT;
    let n = ax * ax + ay * ay;
    assert(n == d.x * d.x + d.y * d.y) by (nonlinear_arith)
        requires
            ax == d.x || ax == -d.x,
            ay == d.y || ay == -d.y,
            n == ax * ax + ay * ay;
    assert(n > 0) by (nonlinear_arith)
        requires n == ax * ax + ay * ay, ax > 0 || ay > 0;
    let scale2: u128 = 1_000_000_000_000;
    assert((n as u128) * scale2 <= 8 * MAX_EXTENT * MAX_EXTENT * 1_000_000_000_000) by (nonlinear_arith)
        requires n <= 8 * MAX_EXTENT * MAX_EXTENT, scale2 == 1_000_000_000_000u128;
    assert((n as u128) * scale2 >= 1) by (nonlinear_arith)
        requires n >= 1, scale2 == 1_000_000_000_000u128;
    let big: u128 = (n as u128) * scale2 - 1;
    let root = isqrt(big);
    assert(root < 0x10_0000_0000_0000) by (nonlinear_arith)
        requires root * root <= big, big < 8 * MAX_EXTENT * MAX_EXTENT * 1_000_000_000_000;
    let r: u128 = root + 1;
    proof {
        lemma_push_length(ax as int, ay as int);
        assert(big as int == (ax * ax + ay * ay) * PUSH_SCALE * PUSH_SCALE - 1);
        assert(r as int == push_root(ax * ax + ay * ay));
        assert(r as int == push_root(d.x * d.x + d.y * d.y));
    }
    let gain: u128 = 200_000_000_000;
    assert((ax as u128) * gain <= 2 * MAX_EXTENT * 200_000_000_000) by (nonlinear_arith)
        requires ax <= 2 * MAX_EXTENT, gain == 200_000_000_000u128;
    assert((ay as u128) * gain <= 2 * MAX_EXTENT * 200_000_000_000) by (nonlinear_arith)
        requires ay <= 2 * MAX_EXTENT, gain == 200_000_000_000u128;
    let kx = ((ax as u128) * gain / r) as i64;
    let ky = ((ay as u128) * gain / r) as i64;
    let k = Vec2 { x: if d.x >= 0 { kx } else { -kx }, y: if d.y >= 0 { ky } else { -ky } };
    proof {
        let kxi = kx as int;
        let kyi = ky as int;
        assert(k.x * k.x == kxi * kxi) by (nonlinear_arith)
            requires k.x == kxi || k.x == -kxi;
        assert(k.y * k.y == kyi * kyi) by (nonlinear_arith)
            requires k.y == kyi || k.y == -kyi;
        assert(k.x * d.x >= 0) by (nonlinear_arith)
            requires (d.x >= 0 && k.x >= 0) || (d.x < 0 && k.x <= 0);
        assert(k.y * d.y >= 0) by (nonlinear_arith)
            requires (d.y >= 0 && k.y >= 0) || (d.y < 0 && k.y <= 0);
    }
    k
}

/// An actor of the arena.
#[derive(Clone, Copy, Debug, PartialEq, Eq, Structural)]
pub struct Player {
    pub color: PlayerColor,
    pub lives: u32,
    pub pos: Vec2,
    pub vel: Vec2,
    /// Microseconds until the next shot is allowed.
    pub shoot_cooldown: u64,
}

impl Player {
    /// Ranges that every actor's values stay in.
    pub open spec fn wf(self) -> bool {
        -MAX_EXTENT <= self.pos.x <= MAX_EXTENT && -MAX_EXTENT <= self.pos.y <= MAX_EXTENT
            && -MAX_SPEED <= self.vel.x <= MAX_SPEED && -MAX_SPEED <= self.vel.y <= MAX_SPEED
            && self.shoot_cooldown <= COOLDOWN
    }

    /// Where an actor of the given side starts in the given arena.
    pub open spec fn spawn(color: PlayerColor, arena: Arena) -> Player {
        let x = match color {
            PlayerColor::Red => arena.width / 4,
            PlayerColor::Blue => arena.width * 3 / 4,
        };
        Player {
            color,
            lives: PLAYER_LIVES,
            pos: Vec2 { x: x as i64, y: (arena.height / 2) as i64 },
            vel: Vec2 { x: 0, y: 0 },
            shoot_cooldown: 0,
        }
    }

    /// The actor's square, centred on its position.
    pub open spec fn collider_spec(self) -> Rect {
        Rect {
            x: (self.pos.x - HALF_SIDE) as i64,
            y: (self.pos.y - HALF_SIDE) as i64,
            w: PLAYER_SIDE,
            h: PLAYER_SIDE,
        }
    }

    /// Velocity and position after one frame of motion, before walls are met.
    pub open spec fn integrated(self, c: Controls, delta: u64, decay: u64) -> Player {
        let acc = acceleration(c);
        let vx = capped(
            scaled(self.vel.x + scaled(acc.x as int, delta as int, MICROS as int), decay as int, DECAY_SCALE as int),
        );
        let vy = capped(
            scaled(self.vel.y + scaled(acc.y as int, delta as int, MICROS as int), decay as int, DECAY_SCALE as int),
        );
        Player {
            pos: Vec2 {
                x: (self.pos.x + scaled(vx, delta as int, MICROS as int)) as i64,
                y: (self.pos.y + scaled(vy, delta as int, MICROS as int)) as i64,
            },
            vel: Vec2 { x: vx as i64, y: vy as i64 },
            ..self
        }
    }

    pub open spec fn crosses_left(self) -> bool {
        self.pos.x - HALF_SIDE < 0
    }

    pub open spec fn crosses_right(self, arena: Arena) -> bool {
        self.pos.x + HALF_SIDE > arena.width
    }

    pub open spec fn crosses_top(self) -> bool {
        self.pos.y - HALF_SIDE < 0
    }

    pub open spec fn crosses_bottom(self, arena: Arena) -> bool {
        self.pos.y + HALF_SIDE > arena.height
    }

    /// Put back at `x` with the horizontal speed reversed.
    pub open spec fn bounced_x(self, x: int) -> Player {
        Player { pos: Vec2 { x: x as i64, ..self.pos }, vel: Vec2 { x: (-self.vel.x) as i64, ..self.vel }, ..self }
    }

    /// Put back at `y` with the vertical speed reversed.
    pub open spec fn bounced_y(self, y: int) -> Player {
        Player { pos: Vec2 { y: y as i64, ..self.pos }, vel: Vec2 { y: (-self.vel.y) as i64, ..self.vel }, ..self }
    }

    pub open spec fn after_left(self) -> Player {
        if self.crosses_left() { self.bounced_x(HALF_SIDE as int) } else { self }
    }

    pub open spec fn after_right(self, arena: Arena) -> Player {
        if self.crosses_right(arena) { self.bounced_x(arena.width - HALF_SIDE) } else { self }
    }

    pub open spec fn after_top(self) -> Player {
        if self.crosses_top() { self.bounced_y(HALF_SIDE as int) } else { self }
    }

    pub open spec fn after_bottom(self, arena: Arena) -> Player {
        if self.crosses_bottom(arena) { self.bounced_y(arena.height - HALF_SIDE) } else { self }
    }

    /// The four edges, met in the order left, right, top, bottom.
    pub open spec fn after_walls(self, arena: Arena) -> Player {
        self.after_left().after_right(arena).after_top().after_bottom(arena)
    }

    /// How many edges the actor bounces off in `after_walls`.
    pub open spec fn wall_hits(self, arena: Arena) -> nat {
        let p1 = self.after_left();
        let p2 = p1.after_right(arena);
        let p3 = p2.after_top();
        (if self.crosses_left() { 1nat } else { 0nat }) + (if p1.crosses_right(arena) { 1nat } else { 0nat })
            + (if p2.crosses_top() { 1nat } else { 0nat }) + (if p3.crosses_bottom(arena) { 1nat } else { 0nat })
    }

    /// The actor after one frame of `delta` microseconds, with drag factor
    /// `decay / DECAY_SCALE`.
    pub open spec fn updated(self, c: Controls, delta: u64, decay: u64, arena: Arena) -> Player {
        let p = self.integrated(c, delta, decay).after_walls(arena);
        Player {
            shoot_cooldown: if self.shoot_cooldown >= delta { (self.shoot_cooldown - delta) as u64 } else { 0 },
            ..p
        }
    }

    /// The launch velocity of a new projectile: `heading` scaled to the
    /// launch speed, turned around for the blue side, plus the actor's
    /// horizontal speed.
    pub open spec fn launch_velocity(self, heading: Vec2) -> Vec2 {
        Vec2 {
            x: (side_sign(self.color) * heading.x * LAUNCH_GAIN + self.vel.x) as i64,
            y: (side_sign(self.color) * heading.y * LAUNCH_GAIN) as i64,
        }
    }

    /// The actor and what `shoot` hands out: nothing while the gun cools
    /// down, else a regular projectile at the actor's position, with the
    /// cooldown restarted.
    pub open spec fn fired(self, heading: Vec2) -> (Player, Option<Bullet>) {
        if self.shoot_cooldown > 0 {
            (self, None)
        } else {
            (
                Player { shoot_cooldown: COOLDOWN, ..self },
                Some(Bullet {
                    color: self.color,
                    pos: self.pos,
                    destroy_flag: false,
                    bullet_type: BulletType::Regular,
                    vel: self.launch_velocity(heading),
                }),
            )
        }
    }

    /// The two actors after `self` and `other` collide: each gets the
    /// knockback away from the other, within the speed range.
    pub open spec fn knocked(self, other: Player) -> (Player, Player) {
        let k = knockback(separation(self.pos, other.pos));
        (
            Player {
                vel: Vec2 { x: capped(self.vel.x + k.x) as i64, y: capped(self.vel.y + k.y) as i64 },
                ..self
            },
            Player {
                vel: Vec2 { x: capped(other.vel.x - k.x) as i64, y: capped(other.vel.y - k.y) as i64 },
                ..other
            },
        )
    }

    /// The actor's tilt in thousandths of a degree.
    pub open spec fn rotation_spec(self) -> int {
        side_sign(self.color) * scaled(self.vel.y as int, 1, 60)
    }

    /// Health after one more hit.
    pub open spec fn hit_lives(lives: u32) -> u32 {
        if lives > 0 { (lives - 1) as u32 } else { 0 }
    }

    /// A fresh actor of the given side.
    pub fn new(color: PlayerColor, arena: Arena) -> (r: Player)
        requires
            arena.wf(),
        ensures
            r == Player::spawn(color, arena),
            r.wf(),
    {
        let x = match color {
            PlayerColor::Red => arena.width / 4,
            PlayerColor::Blue => arena.width * 3 / 4,
        };
        Player {
            color,
            lives: PLAYER_LIVES,
            pos: Vec2 { x, y: arena.height / 2 },
            vel: Vec2 { x: 0, y: 0 },
            shoot_cooldown: 0,
        }
    }

    /// The actor's tilt in thousandths of a degree: a sixtieth of a degree per
    /// pixel per second of vertical speed, turned around for the blue side.
    pub fn rotation(&self) -> (r: i64)
        requires
            self.wf(),
        ensures
            r == self.rotation_spec(),
    {
        let t = scale(self.vel.y, 1, 60);
        match self.color {
            PlayerColor::Red => t,
            PlayerColor::Blue => -t,
        }
    }

    /// Takes one hit: health drops by one unless it is already zero.
    pub fn on_bullet_hit(&mut self, _bullet: &Bullet) -> (r: Effect)
        ensures
            *final(self) == (Player { lives: Player::hit_lives(old(self).lives), ..*old(self) }),
            r == Effect::Hit,
    {
        if self.lives != 0 {
            self.lives = self.lives - 1;
        }
        Effect::Hit
    }

    /// Pushes the two overlapping actors apart along the line between their centres.
    pub fn on_player_hit(&mut self, player: &mut Player) -> (r: Effect)
        requires
            old(self).wf(),
            old(player).wf(),
        ensures
            (*final(self), *final(player)) == old(self).knocked(*old(player)),
            ({
                let d = separation(old(self).pos, old(player).pos);
                let k = knockback(d);
                &&& (BOUNCE_FORCE - 2) * (BOUNCE_FORCE - 2) <= k.x * k.x + k.y * k.y <= BOUNCE_FORCE * BOUNCE_FORCE
                &&& k.x * d.x >= 0
                &&& k.y * d.y >= 0
            }),
            ({
                let k = knockback(separation(old(self).pos, old(player).pos));
                let m = MAX_SPEED - BOUNCE_FORCE;
                -m <= old(self).vel.x <= m && -m <= old(self).vel.y <= m && -m <= old(player).vel.x <= m
                    && -m <= old(player).vel.y <= m ==> {
                    &&& final(self).vel.x == old(self).vel.x + k.x
                    &&& final(self).vel.y == old(self).vel.y + k.y
                    &&& final(player).vel.x == old(player).vel.x - k.x
                    &&& final(player).vel.y == old(player).vel.y - k.y
                }
            }),
            final(self).wf(),
            final(player).wf(),
            r == Effect::Collision,
    {
        let k = knockback_between(self.pos, player.pos);
        self.vel = Vec2 { x: cap_speed(self.vel.x + k.x), y: cap_speed(self.vel.y + k.y) };
        player.vel = Vec2 { x: cap_speed(player.vel.x - k.x), y: cap_speed(player.vel.y - k.y) };
        Effect::Collision
    }

    /// Fires a regular projectile from the actor's position, unless the gun
    /// is still cooling down. `heading` is the unit vector at the actor's
    /// `rotation`, scaled by `HEADING_SCALE`.
    pub fn shoot(&mut self, heading: Vec2) -> (r: Option<Bullet>)
        requires
            old(self).wf(),
            -HEADING_SCALE <= heading.x <= HEADING_SCALE,
            -HEADING_SCALE <= heading.y <= HEADING_SCALE,
        ensures
            (*final(self), r) == old(self).fired(heading),
            final(self).wf(),
            r.is_some() ==> r.unwrap().wf(),
    {
        if self.shoot_cooldown > 0 {
            return None;
        }
        let (hx, hy) = match self.color {
            PlayerColor::Red => (heading.x, heading.y),
            PlayerColor::Blue => (-heading.x, -heading.y),
        };
        let vel = Vec2 { x: hx * LAUNCH_GAIN + self.vel.x, y: hy * LAUNCH_GAIN };
        self.shoot_cooldown = COOLDOWN;
        Some(Bullet::new(self.color, self.pos, vel, BulletType::Regular))
    }

    /// Keeps the actor's square inside the arena: each edge it has crossed puts
    /// it back just inside and reverses the speed across that edge. Returns
    /// the number of bounces.
    pub fn collide_wall(&mut self, arena: Arena) -> (r: u32)
        requires
            arena.wf(),
            -8 * MAX_EXTENT <= old(self).pos.x <= 8 * MAX_EXTENT,
            -8 * MAX_EXTENT <= old(self).pos.y <= 8 * MAX_EXTENT,
            -MAX_SPEED <= old(self).vel.x <= MAX_SPEED,
            -MAX_SPEED <= old(self).vel.y <= MAX_SPEED,
        ensures
            *final(self) == old(self).after_walls(arena),
            r == old(self).wall_hits(arena),
            -MAX_EXTENT <= final(self).pos.x <= MAX_EXTENT,
            -MAX_EXTENT <= final(self).pos.y <= MAX_EXTENT,
    {
        let mut hits: u32 = 0;
        if self.pos.x - HALF_SIDE < 0 {
            self.pos.x = HALF_SIDE;
            self.vel = Vec2 { x: -self.vel.x, y: self.vel.y };
            hits = hits + 1;
        }
        if self.pos.x + HALF_SIDE > arena.width {
            self.pos.x = arena.width - HALF_SIDE;
            self.vel = Vec2 { x: -self.vel.x, y: self.vel.y };
            hits = hits + 1;
        }
        if self.pos.y - HALF_SIDE < 0 {
            self.pos.y = HALF_SIDE;
            self.vel = Vec2 { x: self.vel.x, y: -self.vel.y };
            hits = hits + 1;
        }
        if self.pos.y + HALF_SIDE > arena.height {
            self.pos.y = arena.height - HALF_SIDE;
            self.vel = Vec2 { x: self.vel.x, y: -self.vel.y };
            hits = hits + 1;
        }
        hits
    }

    /// One velocity component after a frame's acceleration, drag and cap.
    fn next_speed(v: i64, acc: i64, delta: u64, decay: u64) -> (r: i64)
        requires
            -MAX_SPEED <= v <= MAX_SPEED,
            -FORCE <= acc <= FORCE,
            delta <= MAX_DELTA,
            decay <= DECAY_SCALE,
        ensures
            r == capped(scaled(v + scaled(acc as int, delta as int, MICROS as int), decay as int, DECAY_SCALE as int)),
            -MAX_SPEED <= r <= MAX_SPEED,
    {
        proof {
            lemma_scaled_move(acc as int, delta as int, FORCE as int);
        }
        let v1 = v + scale(acc, delta as i64, MICROS);
        cap_speed(scale(v1, decay as i64, DECAY_SCALE))
    }

    /// Advances the actor by one frame of `delta` microseconds: the held keys
    /// accelerate it, the drag factor `decay / DECAY_SCALE` slows it, it
    /// moves, bounces off the walls, and its gun cools down. Returns the
    /// number of wall bounces.
    pub fn update(&mut self, c: Controls, delta: u64, decay: u64, arena: Arena) -> (r: u32)
        requires
            old(self).wf(),
            arena.wf(),
            delta <= MAX_DELTA,
            decay <= DECAY_SCALE,
        ensures
            *final(self) == old(self).updated(c, delta, decay, arena),
            r == old(self).integrated(c, delta, decay).wall_hits(arena),
            final(self).wf(),
            c.is_idle() ==> final(self).vel.x * final(self).vel.x + final(self).vel.y * final(self).vel.y
                <= old(self).vel.x * old(self).vel.x + old(self).vel.y * old(self).vel.y,
            c.is_idle() && old(self).vel == (Vec2 { x: 0, y: 0 }) && HALF_SIDE <= old(self).pos.x <= arena.width - HALF_SIDE
                && HALF_SIDE <= old(self).pos.y <= arena.height - HALF_SIDE ==> {
                &&& final(self).pos == old(self).pos
                &&& final(self).vel == old(self).vel
            },
            arena.width >= PLAYER_SIDE && arena.height >= PLAYER_SIDE ==> {
                &&& HALF_SIDE <= final(self).pos.x <= arena.width - HALF_SIDE
                &&& HALF_SIDE <= final(self).pos.y <= arena.height - HALF_SIDE
            },
    {
        let ghost p0 = *self;
        let acc = acceleration_from_input(c);
        let vx = Player::next_speed(self.vel.x, acc.x, delta, decay);
        let vy = Player::next_speed(self.vel.y, acc.y, delta, decay);
        proof {
            lemma_scaled_move(vx as int, delta as int, MAX_SPEED as int);
            lemma_scaled_move(vy as int, delta as int, MAX_SPEED as int);
        }
        let d = delta as i64;
        self.vel = Vec2 { x: vx, y: vy };
        self.pos = Vec2 { x: self.pos.x + scale(vx, d, MICROS), y: self.pos.y + scale(vy, d, MICROS) };
        let ghost moved = *self;
        let hits = self.collide_wall(arena);
        self.shoot_cooldown = self.shoot_cooldown.saturating_sub(delta);
        proof {
            if arena.width >= PLAYER_SIDE && arena.height >= PLAYER_SIDE {
                lemma_walls_contain(moved, arena);
            }
            if c.is_idle() {
                lemma_idle_actor_settles(p0, c, delta, decay, arena);
                let (u, w) = (p0.vel.x as int, self.vel.x as int);
                let (v, z) = (p0.vel.y as int, self.vel.y as int);
                assert(w * w <= u * u) by (nonlinear_arith)
                    requires (u >= 0 && -u <= w <= u) || (u < 0 && u <= w <= -u);
                assert(z * z <= v * v) by (nonlinear_arith)
                    requires (v >= 0 && -v <= z <= v) || (v < 0 && v <= z <= -v);
            }
        }
        hits
    }
}

impl Entity for Player {
    open spec fn valid(&self) -> bool {
        self.wf()
    }

    open spec fn bounding_box(&self) -> Rect {
        self.collider_spec()
    }

    fn collider(&self) -> (r: Option<Rect>) {
        Some(
            Rect {
                x: self.pos.x - HALF_SIDE,
                y: self.pos.y - HALF_SIDE,
                w: PLAYER_SIDE,
                h: PLAYER_SIDE,
            },
        )
    }
}

} // verus!

verus! {

/// Health after `n` hits, one at a time.
pub open spec fn lives_after_hits(lives: u32, n: nat) -> u32
    decreases n,
{
    if n == 0 {
        lives
    } else {
        Player::hit_lives(lives_after_hits(lives, (n - 1) as nat))
    }
}

/// Health never goes up and never below zero: after `n` hits it is
/// `max(0, lives - n)`.
pub proof fn lemma_health_after_hits(lives: u32, n: nat)
    ensures
        lives_after_hits(lives, n) == if n <= lives { lives - n } else { 0 },
        lives_after_hits(lives, n) <= lives,
    decreases n,
{
    if n > 0 {
        lemma_health_after_hits(lives, (n - 1) as nat);
    }
}

/// Firing twice without time passing in between yields at most one
/// projectile, and one exactly when the gun was ready; a frame of zero
/// length does not make the gun ready again.
pub proof fn lemma_cooldown_blocks_second_shot(
    p: Player,
    h1: Vec2,
    h2: Vec2,
    c: Controls,
    decay: u64,
    arena: Arena,
)
    ensures
        p.fired(h1).1.is_some() <==> p.shoot_cooldown == 0,
        p.fired(h1).1.is_some() ==> p.fired(h1).0.fired(h2).1.is_none(),
        p.fired(h1).1.is_some() ==> p.fired(h1).0.updated(c, 0, decay, arena).fired(h2).1.is_none(),
{
}

/// After the walls are met in an arena at least as large as an actor, the
/// actor's square lies within the arena, and the speed across each edge is
/// reversed exactly when the actor had crossed that edge.
pub proof fn lemma_walls_contain(p: Player, arena: Arena)
    requires
        arena.wf(),
        arena.width >= PLAYER_SIDE,
        arena.height >= PLAYER_SIDE,
        -8 * MAX_EXTENT <= p.pos.x <= 8 * MAX_EXTENT,
        -8 * MAX_EXTENT <= p.pos.y <= 8 * MAX_EXTENT,
        -MAX_SPEED <= p.vel.x <= MAX_SPEED,
        -MAX_SPEED <= p.vel.y <= MAX_SPEED,
    ensures
        crate::geometry::rect_within(p.after_walls(arena).collider_spec(), arena.width as int, arena.height as int),
        p.crosses_left() || p.crosses_right(arena) ==> p.after_walls(arena).vel.x == -p.vel.x,
        !(p.crosses_left() || p.crosses_right(arena)) ==> p.after_walls(arena).vel.x == p.vel.x,
        p.crosses_top() || p.crosses_bottom(arena) ==> p.after_walls(arena).vel.y == -p.vel.y,
        !(p.crosses_top() || p.crosses_bottom(arena)) ==> p.after_walls(arena).vel.y == p.vel.y,
{
}

/// Without input, drag never speeds an actor up, and an actor at rest inside
/// the walls stays where it is.
pub proof fn lemma_idle_actor_settles(p: Player, c: Controls, delta: u64, decay: u64, arena: Arena)
    requires
        p.wf(),
        arena.wf(),
        c.is_idle(),
        delta <= MAX_DELTA,
        decay <= DECAY_SCALE,
    ensures
        p.vel.x >= 0 ==> -p.vel.x <= p.updated(c, delta, decay, arena).vel.x <= p.vel.x,
        p.vel.x < 0 ==> p.vel.x <= p.updated(c, delta, decay, arena).vel.x <= -p.vel.x,
        p.vel.y >= 0 ==> -p.vel.y <= p.updated(c, delta, decay, arena).vel.y <= p.vel.y,
        p.vel.y < 0 ==> p.vel.y <= p.updated(c, delta, decay, arena).vel.y <= -p.vel.y,
        p.vel == (Vec2 { x: 0, y: 0 }) && HALF_SIDE <= p.pos.x <= arena.width - HALF_SIDE
            && HALF_SIDE <= p.pos.y <= arena.height - HALF_SIDE ==> {
            &&& p.updated(c, delta, decay, arena).pos == p.pos
            &&& p.updated(c, delta, decay, arena).vel == p.vel
        },
{
    let q = p.integrated(c, delta, decay);
    assert(acceleration(c) == Vec2 { x: 0, y: 0 });
    lemma_scaled_bounds(0, delta as int, MICROS as int);
    lemma_scaled_bounds(p.vel.x as int, decay as int, DECAY_SCALE as int);
    lemma_scaled_bounds(p.vel.y as int, decay as int, DECAY_SCALE as int);
    lemma_scaled_bounds(0, decay as int, DECAY_SCALE as int);
    lemma_scaled_bounds(0, delta as int, MICROS as int);
}

/// The push between two distinct points is never zero, has a length
/// within two units of `BOUNCE_FORCE`, and points from the second point to
/// the first on each axis; coinciding points are pushed apart along the
/// horizontal axis by exactly `BOUNCE_FORCE`.
pub proof fn lemma_knockback_separates(a: Vec2, b: Vec2)
    requires
        -MAX_EXTENT <= a.x <= MAX_EXTENT,
        -MAX_EXTENT <= a.y <= MAX_EXTENT,
        -MAX_EXTENT <= b.x <= MAX_EXTENT,
        -MAX_EXTENT <= b.y <= MAX_EXTENT,
    ensures
        knockback(separation(a, b)).x != 0 || knockback(separation(a, b)).y != 0,
        knockback(separation(a, b)).x * separation(a, b).x >= 0,
        knockback(separation(a, b)).y * separation(a, b).y >= 0,
        a == b ==> knockback(separation(a, b)) == (Vec2 { x: BOUNCE_FORCE, y: 0 }),
{
    lemma_knockback_bounded(a, b);
    let k = knockback(separation(a, b));
    if k.x == 0 && k.y == 0 {
        assert(k.x * k.x + k.y * k.y == 0) by (nonlinear_arith)
            requires k.x == 0, k.y == 0;
    }
    if a == b {
        let big = 1 * PUSH_SCALE * PUSH_SCALE;
        assert(is_root((PUSH_SCALE - 1) as nat, (big - 1) as nat)) by (nonlinear_arith)
            requires big == 1 * PUSH_SCALE * PUSH_SCALE;
        lemma_root_exists((big - 1) as nat);
        lemma_sqrt_unique(floor_sqrt((big - 1) as nat), (PUSH_SCALE - 1) as nat, (big - 1) as nat);
        assert(push_root(1) == PUSH_SCALE);
        assert((1 * PUSH_GAIN) as int / (PUSH_SCALE as int) == BOUNCE_FORCE) by (nonlinear_arith);
        assert((0 * PUSH_GAIN) as int / (PUSH_SCALE as int) == 0) by (nonlinear_arith);
    }
}

/// The push between two actors is at most `BOUNCE_FORCE` on each axis, its
/// length lies within two units of `BOUNCE_FORCE` and never above it, and it
/// points away from the second actor on each axis.
pub proof fn lemma_knockback_bounded(a: Vec2, b: Vec2)
    requires
        -MAX_EXTENT <= a.x <= MAX_EXTENT,
        -MAX_EXTENT <= a.y <= MAX_EXTENT,
        -MAX_EXTENT <= b.x <= MAX_EXTENT,
        -MAX_EXTENT <= b.y <= MAX_EXTENT,
    ensures
        -BOUNCE_FORCE <= knockback(separation(a, b)).x <= BOUNCE_FORCE,
        -BOUNCE_FORCE <= knockback(separation(a, b)).y <= BOUNCE_FORCE,
        (BOUNCE_FORCE - 2) * (BOUNCE_FORCE - 2) <= knockback(separation(a, b)).x * knockback(separation(a, b)).x
            + knockback(separation(a, b)).y * knockback(separation(a, b)).y <= BOUNCE_FORCE * BOUNCE_FORCE,
        knockback(separation(a, b)).x * separation(a, b).x >= 0,
        knockback(separation(a, b)).y * separation(a, b).y >= 0,
{
    let d = separation(a, b);
    let ax: int = if d.x >= 0 { d.x as int } else { -d.x };
    let ay: int = if d.y >= 0 { d.y as int } else { -d.y };
    assert(ax * ax + ay * ay == d.x * d.x + d.y * d.y) by (nonlinear_arith)
        requires ax == d.x || ax == -d.x, ay == d.y || ay == -d.y;
    lemma_push_length(ax, ay);
    let r = push_root(d.x * d.x + d.y * d.y);
    let kx = ax * PUSH_GAIN / r;
    let ky = ay * PUSH_GAIN / r;
    let k = knockback(d);
    assert(k.x == kx || k.x == -kx);
    assert(k.y == ky || k.y == -ky);
    assert(k.x * k.x == kx * kx) by (nonlinear_arith)
        requires k.x == kx || k.x == -kx;
    assert(k.y * k.y == ky * ky) by (nonlinear_arith)
        requires k.y == ky || k.y == -ky;
    assert(k.x * d.x >= 0) by (nonlinear_arith)
        requires (d.x >= 0 && k.x == kx) || (d.x < 0 && k.x == -kx), kx >= 0;
    assert(k.y * d.y >= 0) by (nonlinear_arith)
        requires (d.y >= 0 && k.y == ky) || (d.y < 0 && k.y == -ky), ky >= 0;
}

/// Every natural number has a square root rounded down.
pub proof fn lemma_root_exists(n: nat)
    ensures
        is_root(floor_sqrt(n), n),
    decreases n,
{
    if n == 0 {
        assert(0nat * 0nat <= 0 && 0 < (0nat + 1) * (0nat + 1)) by (nonlinear_arith);
        assert(is_root(0, 0));
    } else {
        lemma_root_exists((n - 1) as nat);
        let r = floor_sqrt((n - 1) as nat);
        if (r + 1) * (r + 1) <= n {
            assert(n < (r + 2) * (r + 2)) by (nonlinear_arith)
                requires n - 1 < (r + 1) * (r + 1), r >= 0;
            assert(is_root(r + 1, n));
        } else {
            assert(is_root(r, n));
        }
    }
}

/// When two actors collide, each one's velocity changes by a nonzero push
/// directed away from the other, the two pushes are opposite, and actors at
/// rest end up moving apart; this holds when the centres coincide too.
pub proof fn lemma_collision_pushes_apart(a: Player, b: Player)
    requires
        a.wf(),
        b.wf(),
        -(MAX_SPEED - BOUNCE_FORCE) <= a.vel.x <= MAX_SPEED - BOUNCE_FORCE,
        -(MAX_SPEED - BOUNCE_FORCE) <= a.vel.y <= MAX_SPEED - BOUNCE_FORCE,
        -(MAX_SPEED - BOUNCE_FORCE) <= b.vel.x <= MAX_SPEED - BOUNCE_FORCE,
        -(MAX_SPEED - BOUNCE_FORCE) <= b.vel.y <= MAX_SPEED - BOUNCE_FORCE,
    ensures
        ({
            let (a2, b2) = a.knocked(b);
            let d = separation(a.pos, b.pos);
            &&& a2.vel.x - a.vel.x != 0 || a2.vel.y - a.vel.y != 0
            &&& (a2.vel.x - a.vel.x) * d.x >= 0
            &&& (a2.vel.y - a.vel.y) * d.y >= 0
            &&& b2.vel.x - b.vel.x == -(a2.vel.x - a.vel.x)
            &&& b2.vel.y - b.vel.y == -(a2.vel.y - a.vel.y)
            &&& a2.pos == a.pos && b2.pos == b.pos
            &&& a.vel == (Vec2 { x: 0, y: 0 }) && b.vel == (Vec2 { x: 0, y: 0 }) ==> {
                &&& a2.vel.x * d.x >= 0 && a2.vel.y * d.y >= 0
                &&& b2.vel.x * d.x <= 0 && b2.vel.y * d.y <= 0
                &&& a2.vel != b2.vel
            }
        }),
{
    lemma_knockback_separates(a.pos, b.pos);
    let k = knockback(separation(a.pos, b.pos));
    let d = separation(a.pos, b.pos);
    lemma_knockback_bounded(a.pos, b.pos);
    assert((-k.x) * d.x <= 0) by (nonlinear_arith)
        requires k.x * d.x >= 0;
    assert((-k.y) * d.y <= 0) by (nonlinear_arith)
        requires k.y * d.y >= 0;
}

/// An actor after `n` frames without input.
pub open spec fn idled(p: Player, delta: u64, decay: u64, arena: Arena, n: nat) -> Player
    decreases n,
{
    if n == 0 {
        p
    } else {
        idled(p, delta, decay, arena, (n - 1) as nat).updated(Controls::idle_spec(), delta, decay, arena)
    }
}

/// An actor at rest inside the walls stays where it is for any number of
/// frames without input.
pub proof fn lemma_rest_is_kept(p: Player, delta: u64, decay: u64, arena: Arena, n: nat)
    requires
        p.wf(),
        arena.wf(),
        delta <= MAX_DELTA,
        decay <= DECAY_SCALE,
        p.vel == (Vec2 { x: 0, y: 0 }),
        HALF_SIDE <= p.pos.x <= arena.width - HALF_SIDE,
        HALF_SIDE <= p.pos.y <= arena.height - HALF_SIDE,
    ensures
        idled(p, delta, decay, arena, n).pos == p.pos,
        idled(p, delta, decay, arena, n).vel == p.vel,
        idled(p, delta, decay, arena, n).wf(),
    decreases n,
{
    if n > 0 {
        lemma_rest_is_kept(p, delta, decay, arena, (n - 1) as nat);
        let q = idled(p, delta, decay, arena, (n - 1) as nat);
        lemma_idle_actor_settles(q, Controls::idle_spec(), delta, decay, arena);
    }
}

} // verus!
