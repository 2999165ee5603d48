use square_arena::entity::Entity;
use square_arena::bullet::{Bullet, BulletType};
use square_arena::geometry::{Arena, Rect, Vec2, UNIT};
use square_arena::player::{
    acceleration_from_input, isqrt, knockback_between, Controls, Player, PlayerColor,
    BOUNCE_FORCE, COOLDOWN, DIAGONAL_FORCE, FORCE, HALF_SIDE, PLAYER_LIVES,
};
use square_arena::audio::Effect;

fn arena() -> Arena {
    Arena::new(800 * UNIT, 600 * UNIT)
}

fn actor(color: PlayerColor, x: i64, y: i64) -> Player {
    Player {
        color,
        lives: PLAYER_LIVES,
        pos: Vec2::new(x, y),
        vel: Vec2::new(0, 0),
        shoot_cooldown: 0,
    }
}

#[test]
fn damage_by_class() {
    let r = Bullet::new(PlayerColor::Red, Vec2::new(0, 0), Vec2::new(0, 0), BulletType::Regular);
    let c = Bullet::new(PlayerColor::Red, Vec2::new(0, 0), Vec2::new(0, 0), BulletType::Charged);
    assert_eq!(r.damage(), 1);
    assert_eq!(c.damage(), 3);
    assert!(!r.destroy_flag);
}

#[test]
fn bullet_moves_in_a_straight_line() {
    let mut b = Bullet::new(PlayerColor::Blue, Vec2::new(1000, 2000), Vec2::new(500_000, -250_000), BulletType::Regular);
    b.update(100_000);
    assert_eq!(b.pos, Vec2::new(51_000, -23_000));
    assert_eq!(b.vel, Vec2::new(500_000, -250_000));
}

#[test]
fn bullet_collider_is_centred_square() {
    let b = Bullet::new(PlayerColor::Blue, Vec2::new(10_000, 20_000), Vec2::new(0, 0), BulletType::Regular);
    assert_eq!(b.collider(), Some(Rect { x: 5_000, y: 15_000, w: 10_000, h: 10_000 }));
}

#[test]
fn health_drops_by_one_and_stops_at_zero() {
    let mut p = actor(PlayerColor::Red, 100_000, 100_000);
    let b = Bullet::new(PlayerColor::Blue, Vec2::new(0, 0), Vec2::new(0, 0), BulletType::Regular);
    assert_eq!(p.on_bullet_hit(&b), Effect::Hit);
    assert_eq!(p.lives, 99);
    for _ in 0..150 {
        p.on_bullet_hit(&b);
    }
    assert_eq!(p.lives, 0);
}

#[test]
fn health_after_n_hits() {
    let b = Bullet::new(PlayerColor::Blue, Vec2::new(0, 0), Vec2::new(0, 0), BulletType::Regular);
    for n in [0u32, 1, 37, 100, 101, 250] {
        let mut p = actor(PlayerColor::Red, 100_000, 100_000);
        for _ in 0..n {
            p.on_bullet_hit(&b);
        }
        assert_eq!(p.lives, PLAYER_LIVES.saturating_sub(n));
    }
}

#[test]
fn second_shot_is_blocked_by_cooldown() {
    let mut p = actor(PlayerColor::Red, 100_000, 100_000);
    let first = p.shoot(Vec2::new(1000, 0));
    assert_eq!(p.shoot_cooldown, COOLDOWN);
    let second = p.shoot(Vec2::new(1000, 0));
    assert!(first.is_some());
    assert!(second.is_none());
    p.update(Controls::idle(), 0, 1_000_000, arena());
    assert!(p.shoot(Vec2::new(1000, 0)).is_none());
    p.update(Controls::idle(), COOLDOWN, 1_000_000, arena());
    assert_eq!(p.shoot_cooldown, 0);
    assert!(p.shoot(Vec2::new(1000, 0)).is_some());
}

#[test]
fn shot_inherits_horizontal_speed_only() {
    let mut p = actor(PlayerColor::Red, 100_000, 100_000);
    p.vel = Vec2::new(30_000, 40_000);
    let b = p.shoot(Vec2::new(800, 600)).unwrap();
    assert_eq!(b.vel, Vec2::new(800 * 500 + 30_000, 600 * 500));
    assert_eq!(b.pos, Vec2::new(100_000, 100_000));
    assert_eq!(b.color, PlayerColor::Red);
    assert_eq!(b.bullet_type, BulletType::Regular);
}

#[test]
fn blue_fires_the_other_way() {
    let mut p = actor(PlayerColor::Blue, 600_000, 100_000);
    let b = p.shoot(Vec2::new(1000, 0)).unwrap();
    assert_eq!(b.vel, Vec2::new(-500_000, 0));
}

#[test]
fn rotation_follows_vertical_speed() {
    let mut r = actor(PlayerColor::Red, 0, 0);
    r.vel = Vec2::new(0, 120_000);
    assert_eq!(r.rotation(), 2000);
    let mut b = actor(PlayerColor::Blue, 0, 0);
    b.vel = Vec2::new(0, 120_000);
    assert_eq!(b.rotation(), -2000);
    b.vel = Vec2::new(0, -61);
    assert_eq!(b.rotation(), 1);
}

#[test]
fn acceleration_is_unit_or_zero() {
    let mut c = Controls::idle();
    assert_eq!(acceleration_from_input(c), Vec2::new(0, 0));
    c.right = true;
    assert_eq!(acceleration_from_input(c), Vec2::new(FORCE, 0));
    c.up = true;
    assert_eq!(acceleration_from_input(c), Vec2::new(DIAGONAL_FORCE, -DIAGONAL_FORCE));
    c.left = true;
    assert_eq!(acceleration_from_input(c), Vec2::new(0, -FORCE));
}

#[test]
fn update_integrates_force_and_drag() {
    let mut p = actor(PlayerColor::Red, 400_000, 300_000);
    let mut c = Controls::idle();
    c.right = true;
    // one tenth of a second; half the speed is left after drag
    let hits = p.update(c, 100_000, 500_000, arena());
    assert_eq!(hits, 0);
    assert_eq!(p.vel, Vec2::new(50_000, 0));
    assert_eq!(p.pos, Vec2::new(405_000, 300_000));
}

#[test]
fn idle_actor_slows_down_and_rests() {
    let mut p = actor(PlayerColor::Red, 400_000, 300_000);
    p.vel = Vec2::new(-9_000, 7_000);
    let mut last = p.vel;
    for _ in 0..2000 {
        p.update(Controls::idle(), 16_667, 977_160, arena());
        assert!(p.vel.x.abs() <= last.x.abs());
        assert!(p.vel.y.abs() <= last.y.abs());
        last = p.vel;
    }
    assert_eq!(p.vel, Vec2::new(0, 0));
    let rest = p.pos;
    p.update(Controls::idle(), 16_667, 977_160, arena());
    assert_eq!(p.pos, rest);
}

#[test]
fn wall_bounce_clamps_and_reverses() {
    let mut p = actor(PlayerColor::Red, 10 * UNIT, 590 * UNIT);
    p.vel = Vec2::new(-70_000, 90_000);
    let hits = p.collide_wall(arena());
    assert_eq!(hits, 2);
    assert_eq!(p.pos, Vec2::new(HALF_SIDE, 600 * UNIT - HALF_SIDE));
    assert_eq!(p.vel, Vec2::new(70_000, -90_000));
    let r = p.collider().unwrap();
    assert!(r.x >= 0 && r.y >= 0 && r.x + r.w <= 800 * UNIT && r.y + r.h <= 600 * UNIT);
}

#[test]
fn wall_bounce_through_update() {
    let mut p = actor(PlayerColor::Blue, 790 * UNIT, 300 * UNIT);
    p.vel = Vec2::new(100_000, 0);
    let hits = p.update(Controls::idle(), 10_000, 1_000_000, arena());
    assert_eq!(hits, 1);
    assert_eq!(p.pos.x, 800 * UNIT - HALF_SIDE);
    assert_eq!(p.vel.x, -100_000);
}

#[test]
fn integer_square_root() {
    assert_eq!(isqrt(0), 0);
    assert_eq!(isqrt(1), 1);
    assert_eq!(isqrt(24), 4);
    assert_eq!(isqrt(25), 5);
    assert_eq!(isqrt(u64::MAX as u128), 4_294_967_295);
    assert_eq!(isqrt(u128::MAX), 18_446_744_073_709_551_615);
}

#[test]
fn knockback_along_centres() {
    assert_eq!(knockback_between(Vec2::new(3, 4), Vec2::new(0, 0)), Vec2::new(120_000, 160_000));
    assert_eq!(knockback_between(Vec2::new(0, 0), Vec2::new(0, 50)), Vec2::new(0, -BOUNCE_FORCE));
    assert_eq!(knockback_between(Vec2::new(7, 7), Vec2::new(7, 7)), Vec2::new(BOUNCE_FORCE, 0));
}

#[test]
fn knockback_keeps_its_length_for_close_centres() {
    assert_eq!(knockback_between(Vec2::new(1, 1), Vec2::new(0, 0)), Vec2::new(141_421, 141_421));
    assert_eq!(knockback_between(Vec2::new(0, 0), Vec2::new(2, 1)), Vec2::new(-178_885, -89_442));
    for (dx, dy) in [(1i64, 1i64), (2, 1), (1, 3), (-5, 7), (123_456, -7)] {
        let k = knockback_between(Vec2::new(dx, dy), Vec2::new(0, 0));
        let len2 = k.x * k.x + k.y * k.y;
        assert!(len2 <= BOUNCE_FORCE * BOUNCE_FORCE);
        assert!(len2 >= (BOUNCE_FORCE - 2) * (BOUNCE_FORCE - 2));
        assert!(k.x * dx >= 0 && k.y * dy >= 0);
    }
}

#[test]
fn overlapping_actors_push_apart() {
    let mut a = actor(PlayerColor::Red, 300 * UNIT, 300 * UNIT);
    let mut b = actor(PlayerColor::Blue, 330 * UNIT, 260 * UNIT);
    assert!(a.collider().unwrap().overlaps(&b.collider().unwrap()));
    assert_eq!(a.on_player_hit(&mut b), Effect::Collision);
    assert!(a.vel.x < 0 && a.vel.y > 0);
    assert!(b.vel.x > 0 && b.vel.y < 0);
    assert_eq!(a.vel, Vec2::new(-120_000, 160_000));
    assert_eq!(b.vel, Vec2::new(120_000, -160_000));
}

#[test]
fn coinciding_actors_push_apart() {
    let mut a = actor(PlayerColor::Red, 300 * UNIT, 300 * UNIT);
    let mut b = actor(PlayerColor::Blue, 300 * UNIT, 300 * UNIT);
    a.on_player_hit(&mut b);
    assert_eq!(a.vel, Vec2::new(BOUNCE_FORCE, 0));
    assert_eq!(b.vel, Vec2::new(-BOUNCE_FORCE, 0));
}

#[test]
fn spawn_points() {
    let r = Player::new(PlayerColor::Red, arena());
    let b = Player::new(PlayerColor::Blue, arena());
    assert_eq!(r.pos, Vec2::new(200 * UNIT, 300 * UNIT));
    assert_eq!(b.pos, Vec2::new(600 * UNIT, 300 * UNIT));
    assert_eq!(r.lives, 100);
    assert_eq!(r.shoot_cooldown, 0);
    assert_eq!(r.vel, Vec2::new(0, 0));
}
