//! Projectiles: straight-line hazards owned by one side.
use vstd::prelude::*;
use crate::entity::Entity;
use crate::geometry::{Vec2, Rect, Arena, UNIT, MICROS, MAX_EXTENT, MAX_SPEED, MAX_DELTA, scale, scaled, rect_bounded};
use crate::player::PlayerColor;

verus! {

/// Half the side of a projectile's box.
pub const BULLET_RADIUS: i64 = 5 * UNIT;

/// How hard a projectile hits.
#[derive(Clone, Copy, Debug, PartialEq, Eq, Structural)]
pub enum BulletType {
    Regular,
    Charged,
}

/// Damage dealt by a projectile of the given class.
pub open spec fn damage_of(t: BulletType) -> u32 {
    match t {
        BulletType::Regular => 1,
        BulletType::Charged => 3,
    }
}

#[derive(Clone, Copy, Debug, PartialEq, Eq, Structural)]
pub struct Bullet {
    pub color: PlayerColor,
    pub pos: Vec2,
    pub destroy_flag: bool,
    pub bullet_type: BulletType,
    pub vel: Vec2,
}

impl Bullet {
    /// Range of the values a live projectile may hold.
    pub open spec fn wf(self) -> bool {
        -2 * MAX_EXTENT <= self.pos.x <= 2 * MAX_EXTENT
            && -2 * MAX_EXTENT <= self.pos.y <= 2 * MAX_EXTENT
            && -2 * MAX_SPEED <= self.vel.x <= 2 * MAX_SPEED
            && -2 * MAX_SPEED <= self.vel.y <= 2 * MAX_SPEED
    }

    /// Where the projectile is after `delta` microseconds of flight.
    pub open spec fn moved(self, delta: u64) -> Bullet {
        Bullet {
            pos: Vec2 {
                x: (self.pos.x + scaled(self.vel.x as int, delta as int, MICROS as int)) as i64,
                y: (self.pos.y + scaled(self.vel.y as int, delta as int, MICROS as int)) as i64,
            },
            ..self
        }
    }

    /// The square box around the projectile's centre.
    pub open spec fn collider_spec(self) -> Rect {
        Rect {
            x: (self.pos.x - BULLET_RADIUS) as i64,
            y: (self.pos.y - BULLET_RADIUS) as i64,
            w: (2 * BULLET_RADIUS) as i64,
            h: (2 * BULLET_RADIUS) as i64,
        }
    }

    pub fn new(color: PlayerColor, pos: Vec2, vel: Vec2, bullet_type: BulletType) -> (r: Bullet)
        ensures
            r == (Bullet { color, pos, destroy_flag: false, bullet_type, vel }),
    {
        Bullet { color, pos, destroy_flag: false, bullet_type, vel }
    }

    pub fn damage(&self) -> (r: u32)
        ensures
            r == damage_of(self.bullet_type),
    {
        match self.bullet_type {
            BulletType::Regular => 1,
            BulletType::Charged => 3,
        }
    }

    /// Moves the projectile along its velocity for `delta` microseconds.
    pub fn update(&mut self, delta: u64)
        requires
            old(self).wf(),
            delta <= MAX_DELTA,
        ensures
            *final(self) == old(self).moved(delta),
    {
        let d = delta as i64;
        let dx = scale(self.vel.x, d, MICROS);
        let dy = scale(self.vel.y, d, MICROS);
        proof {
            crate::geometry::lemma_scaled_move(self.vel.x as int, d as int, 2 * MAX_SPEED);
            crate::geometry::lemma_scaled_move(self.vel.y as int, d as int, 2 * MAX_SPEED);
        }
        self.pos = Vec2 { x: self.pos.x + dx, y: self.pos.y + dy };
    }

    /// Whether the projectile stays for the next collision pass.
    pub open spec fn kept_in(self, arena: Arena) -> bool {
        !self.destroy_flag && arena.holds(self.pos)
    }
}

impl Entity for Bullet {
    open spec fn valid(&self) -> bool {
        self.wf()
    }

    open spec fn bounding_box(&self) -> Rect {
        self.collider_spec()
    }

    fn collider(&self) -> (r: Option<Rect>) {
        Some(
            Rect {
                x: self.pos.x - BULLET_RADIUS,
                y: self.pos.y - BULLET_RADIUS,
                w: 2 * BULLET_RADIUS,
                h: 2 * BULLET_RADIUS,
            },
        )
    }
}

} // verus!
