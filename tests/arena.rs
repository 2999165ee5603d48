use square_arena::audio::{Effect, Music, Theme, GAME_THEME_COUNT};
use square_arena::bullet::{Bullet, BulletType};
use square_arena::game::{clamp_heading, fly_and_cull, pick_theme, resolve_hits, Game};
use square_arena::geometry::{Arena, Vec2, UNIT};
use square_arena::player::{Controls, Player, PlayerColor, COOLDOWN, PLAYER_LIVES};
use square_arena::scenes::{FrameInput, Transition};

const FRAME: u64 = 16_667;
const FRAME_DECAY: u64 = 977_160;

fn arena() -> Arena {
    Arena::new(800 * UNIT, 600 * UNIT)
}

fn input() -> FrameInput {
    FrameInput {
        delta: FRAME,
        decay: FRAME_DECAY,
        arena: arena(),
        escape: false,
        bgm_done: false,
        red: Controls::idle(),
        blue: Controls::idle(),
        mouse: Vec2::new(0, 0),
        click: false,
    }
}

fn level(_rotation: i64) -> Vec2 {
    Vec2::new(1000, 0)
}

fn actor(color: PlayerColor, x: i64, y: i64) -> Player {
    Player { color, lives: PLAYER_LIVES, pos: Vec2::new(x, y), vel: Vec2::new(0, 0), shoot_cooldown: 0 }
}

fn duel() -> Game {
    Game {
        player1: actor(PlayerColor::Red, 100 * UNIT, 100 * UNIT),
        player2: actor(PlayerColor::Blue, 600 * UNIT, 100 * UNIT),
        bullets: vec![],
        last_theme: None,
    }
}

#[test]
fn shot_travels_and_hits_the_other_side() {
    let mut g = duel();
    let mut fire = input();
    fire.red.fire = true;
    let out = g.update(&fire, &level);
    assert_eq!(out.transition, None);
    assert_eq!(out.effects, vec![Effect::Shoot]);
    assert_eq!(g.bullets.len(), 1);
    assert_eq!(g.bullets[0].damage(), 1);
    assert_eq!(g.bullets[0].bullet_type, BulletType::Regular);
    assert_eq!(g.player1.shoot_cooldown, COOLDOWN);
    let mut frames = 0;
    while !g.bullets[0].destroy_flag {
        let out = g.update(&input(), &level);
        frames += 1;
        assert!(frames < 200);
        assert_eq!(g.bullets.len(), 1);
        if g.bullets[0].destroy_flag {
            assert_eq!(out.effects, vec![Effect::Hit]);
        }
    }
    assert_eq!(g.player2.lives, 99);
    assert_eq!(g.player1.lives, 100);
    g.update(&input(), &level);
    assert!(g.bullets.is_empty());
    assert_eq!(g.player2.lives, 99);
}

#[test]
fn own_projectile_never_hurts() {
    let mut p1 = actor(PlayerColor::Red, 100 * UNIT, 100 * UNIT);
    let mut p2 = actor(PlayerColor::Blue, 600 * UNIT, 100 * UNIT);
    let own = vec![Bullet::new(PlayerColor::Red, Vec2::new(100 * UNIT, 100 * UNIT), Vec2::new(0, 0), BulletType::Charged)];
    let (after, hits) = resolve_hits(&own, &mut p1, &mut p2);
    assert_eq!(hits, 0);
    assert_eq!(p1.lives, 100);
    assert!(!after[0].destroy_flag);
    let foe = vec![Bullet::new(PlayerColor::Blue, Vec2::new(100 * UNIT, 100 * UNIT), Vec2::new(0, 0), BulletType::Regular)];
    let (after, hits) = resolve_hits(&foe, &mut p1, &mut p2);
    assert_eq!(hits, 1);
    assert_eq!(p1.lives, 99);
    assert!(after[0].destroy_flag);
}

#[test]
fn projectiles_leaving_the_arena_are_culled() {
    let bullets = vec![
        Bullet::new(PlayerColor::Red, Vec2::new(799 * UNIT, 300 * UNIT), Vec2::new(500_000, 0), BulletType::Regular),
        Bullet::new(PlayerColor::Red, Vec2::new(400 * UNIT, 300 * UNIT), Vec2::new(500_000, 0), BulletType::Regular),
        Bullet::new(PlayerColor::Blue, Vec2::new(400 * UNIT, 1 * UNIT), Vec2::new(0, -500_000), BulletType::Regular),
    ];
    let mut flagged = bullets[1];
    flagged.destroy_flag = true;
    let live = fly_and_cull(&bullets, FRAME, arena());
    assert_eq!(live.len(), 1);
    assert_eq!(live[0].pos, Vec2::new(400 * UNIT + 8_333, 300 * UNIT));
    assert!(fly_and_cull(&vec![flagged], FRAME, arena()).is_empty());
}

#[test]
fn projectile_fired_away_is_gone_in_bounded_frames() {
    let mut g = duel();
    g.player1.pos = Vec2::new(100 * UNIT, 500 * UNIT);
    let mut fire = input();
    fire.blue.fire = true;
    g.update(&fire, &|_r: i64| Vec2::new(-1000, 0));
    assert_eq!(g.bullets.len(), 1);
    assert_eq!(g.bullets[0].vel, Vec2::new(500_000, 0));
    let mut frames = 0;
    while !g.bullets.is_empty() {
        g.update(&input(), &level);
        frames += 1;
        assert!(frames <= 800);
    }
    assert_eq!(g.player1.lives, 100);
}

#[test]
fn actors_forced_together_bounce_apart() {
    let mut g = duel();
    g.player2.pos = Vec2::new(130 * UNIT, 100 * UNIT);
    let out = g.update(&input(), &level);
    assert_eq!(out.effects, vec![Effect::Collision]);
    assert!(g.player1.vel.x < 0);
    assert!(g.player2.vel.x > 0);
    let mut h = duel();
    h.player2.pos = h.player1.pos;
    h.update(&input(), &level);
    assert!(h.player1.vel.x > 0);
    assert!(h.player2.vel.x < 0);
}

#[test]
fn escape_returns_to_menu_and_freezes() {
    let mut g = duel();
    g.player1.vel = Vec2::new(50_000, 0);
    let mut esc = input();
    esc.escape = true;
    esc.red.fire = true;
    let out = g.update(&esc, &level);
    assert_eq!(out.transition, Some(Transition::ToMenu));
    assert!(out.effects.is_empty());
    assert!(out.music.is_empty());
    assert_eq!(g.player1.pos, Vec2::new(100 * UNIT, 100 * UNIT));
    assert!(g.bullets.is_empty());
}

#[test]
fn theme_choice_avoids_repeats() {
    assert_eq!(pick_theme(2, None), 2);
    assert_eq!(pick_theme(2, Some(1)), 2);
    assert_eq!(pick_theme(2, Some(2)), 3);
    assert_eq!(pick_theme(3, Some(3)), 0);
}

#[test]
fn music_queued_when_track_ends() {
    let mut g = duel();
    let mut done = input();
    done.bgm_done = true;
    let mut last = None;
    for _ in 0..50 {
        let out = g.update(&done, &level);
        let t = g.last_theme.unwrap();
        assert!(t < GAME_THEME_COUNT);
        assert_ne!(Some(t), last);
        assert_eq!(out.music, vec![Music::Queue(Theme::Game(t))]);
        last = Some(t);
    }
    let out = g.update(&input(), &level);
    assert!(out.music.is_empty());
    assert_eq!(g.last_theme, last);
}

#[test]
fn headings_are_clamped() {
    assert_eq!(clamp_heading(Vec2::new(5000, -5000)), Vec2::new(1000, -1000));
    assert_eq!(clamp_heading(Vec2::new(707, 707)), Vec2::new(707, 707));
}

#[test]
fn new_round() {
    let g = Game::new(arena());
    assert_eq!(g.player1.color, PlayerColor::Red);
    assert_eq!(g.player2.color, PlayerColor::Blue);
    assert_eq!(g.player1.pos, Vec2::new(200 * UNIT, 300 * UNIT));
    assert!(g.bullets.is_empty());
    assert_eq!(g.last_theme, None);
}
