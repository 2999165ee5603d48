//! The arena: two actors, the projectiles in flight, and the order in which
//! a frame runs.
use vstd::prelude::*;
use crate::entity::Entity;
use crate::audio::{Effect, Music, Theme, GAME_THEME_COUNT};
use crate::bullet::Bullet;
use crate::geometry::{Arena, Vec2, rects_overlap, scaled, MAX_DELTA, MICROS};
use crate::player::{
    Controls, Player, PlayerColor, lives_after_hits, HEADING_SCALE,
};
use crate::scenes::{FrameInput, Outcome, Transition};

verus! {

/// Relies on fastrand::usize over `..n`: a value below `n`, drawn from the
/// thread's generator; it panics when `n` is zero.
#[verifier::external_body]
fn random_below(n: usize) -> (r: usize)
    requires
        n > 0,
    ensures
        r < n,
{
    fastrand::usize(..n)
}

/// The next arena track from a random draw `roll`: the draw itself, or the
/// track after it when the draw repeats the previous one.
pub open spec fn next_theme(roll: usize, last: Option<usize>) -> usize {
    if last == Some(roll) {
        ((roll + 1) % (GAME_THEME_COUNT as int)) as usize
    } else {
        roll
    }
}

/// Picks the next arena track from the draw `roll`, never the previous one.
pub fn pick_theme(roll: usize, last: Option<usize>) -> (r: usize)
    requires
        roll < GAME_THEME_COUNT,
    ensures
        r == next_theme(roll, last),
        r < GAME_THEME_COUNT,
        last != Some(r),
{
    match last {
        Some(l) => {
            if roll == l {
                (roll + 1) % GAME_THEME_COUNT
            } else {
                roll
            }
        },
        None => roll,
    }
}

/// The projectiles that survive a frame: each moves for `delta`
/// microseconds, and those flagged or outside the arena are dropped; the
/// order is kept.
pub open spec fn culled(s: Seq<Bullet>, delta: u64, arena: Arena) -> Seq<Bullet>
    decreases s.len(),
{
    if s.len() == 0 {
        Seq::empty()
    } else {
        let init = culled(s.drop_last(), delta, arena);
        let b = s.last().moved(delta);
        if b.kept_in(arena) {
            init.push(b)
        } else {
            init
        }
    }
}

/// Whether a projectile hurts an actor: it belongs to the other side and
/// the two boxes overlap.
pub open spec fn hurts(b: Bullet, p: Player) -> bool {
    b.color != p.color && rects_overlap(b.collider_spec(), p.collider_spec())
}

/// Whether a projectile strikes the second actor: it does not strike the
/// first, which is checked before.
pub open spec fn hurts_second(b: Bullet, p1: Player, p2: Player) -> bool {
    !hurts(b, p1) && hurts(b, p2)
}

/// The number of projectiles of `s` that strike the first actor.
pub open spec fn hits_on_first(s: Seq<Bullet>, p1: Player) -> nat
    decreases s.len(),
{
    if s.len() == 0 {
        0
    } else {
        hits_on_first(s.drop_last(), p1) + if hurts(s.last(), p1) { 1nat } else { 0nat }
    }
}

/// The number of projectiles of `s` that strike the second actor.
pub open spec fn hits_on_second(s: Seq<Bullet>, p1: Player, p2: Player) -> nat
    decreases s.len(),
{
    if s.len() == 0 {
        0
    } else {
        hits_on_second(s.drop_last(), p1, p2) + if hurts_second(s.last(), p1, p2) { 1nat } else { 0nat }
    }
}

/// The projectiles after the hit pass: each one that struck an actor is
/// flagged for removal.
pub open spec fn struck(s: Seq<Bullet>, p1: Player, p2: Player) -> Seq<Bullet> {
    s.map_values(|b: Bullet| Bullet { destroy_flag: b.destroy_flag || hurts(b, p1) || hurts(b, p2), ..b })
}

/// `n` copies of one effect.
pub open spec fn repeated(e: Effect, n: nat) -> Seq<Effect> {
    Seq::new(n, |i: int| e)
}

/// Appends `n` copies of `e`.
fn push_repeated(v: &mut Vec<Effect>, e: Effect, n: usize)
    ensures
        final(v)@ == old(v)@ + repeated(e, n as nat),
{
    let ghost start = v@;
    let mut i: usize = 0;
    while i < n
        invariant
            i <= n,
            v@ == start + repeated(e, i as nat),
        decreases n - i,
    {
        v.push(e);
        i = i + 1;
        proof {
            assert(v@ =~= start + repeated(e, i as nat));
        }
    }
}

/// Moves every projectile and keeps those still in play.
pub fn fly_and_cull(bullets: &Vec<Bullet>, delta: u64, arena: Arena) -> (r: Vec<Bullet>)
    requires
        forall|i: int| 0 <= i < bullets@.len() ==> (#[trigger] bullets@[i]).wf(),
        delta <= MAX_DELTA,
        arena.wf(),
    ensures
        r@ == culled(bullets@, delta, arena),
        forall|i: int| 0 <= i < r@.len() ==> (#[trigger] r@[i]).wf() && r@[i].kept_in(arena),
{
    let mut out: Vec<Bullet> = Vec::new();
    let mut i: usize = 0;
    while i < bullets.len()
        invariant
            i <= bullets@.len(),
            forall|j: int| 0 <= j < bullets@.len() ==> (#[trigger] bullets@[j]).wf(),
            delta <= MAX_DELTA,
            arena.wf(),
            out@ == culled(bullets@.subrange(0, i as int), delta, arena),
            forall|j: int| 0 <= j < out@.len() ==> (#[trigger] out@[j]).wf() && out@[j].kept_in(arena),
        decreases bullets@.len() - i,
    {
        let mut b = bullets[i];
        b.update(delta);
        if !b.destroy_flag && arena.contains(b.pos) {
            out.push(b);
        }
        proof {
            assert(bullets@.subrange(0, i + 1).drop_last() =~= bullets@.subrange(0, i as int));
        }
        i = i + 1;
    }
    proof {
        assert(bullets@.subrange(0, bullets@.len() as int) =~= bullets@);
    }
    out
}

/// Checks each projectile against the first actor, then against the
/// second; a projectile that strikes one hurts it and is flagged. Returns
/// the projectiles and the number of hits.
pub fn resolve_hits(bullets: &Vec<Bullet>, p1: &mut Player, p2: &mut Player) -> (r: (Vec<Bullet>, usize))
    requires
        forall|i: int| 0 <= i < bullets@.len() ==> (#[trigger] bullets@[i]).wf(),
        old(p1).wf(),
        old(p2).wf(),
    ensures
        r.0@ == struck(bullets@, *old(p1), *old(p2)),
        *final(p1) == (Player { lives: lives_after_hits(old(p1).lives, hits_on_first(bullets@, *old(p1))), ..*old(p1) }),
        *final(p2) == (Player {
            lives: lives_after_hits(old(p2).lives, hits_on_second(bullets@, *old(p1), *old(p2))),
            ..*old(p2)
        }),
        r.1 == hits_on_first(bullets@, *old(p1)) + hits_on_second(bullets@, *old(p1), *old(p2)),
{
    let ghost q1 = *p1;
    let ghost q2 = *p2;
    let c1 = p1.collider().unwrap();
    let c2 = p2.collider().unwrap();
    let mut out: Vec<Bullet> = Vec::new();
    let mut n1: usize = 0;
    let mut n2: usize = 0;
    let mut i: usize = 0;
    while i < bullets.len()
        invariant
            i <= bullets@.len(),
            forall|j: int| 0 <= j < bullets@.len() ==> (#[trigger] bullets@[j]).wf(),
            c1 == q1.collider_spec(),
            c2 == q2.collider_spec(),
            crate::geometry::rect_bounded(c1),
            crate::geometry::rect_bounded(c2),
            out@ == struck(bullets@.subrange(0, i as int), q1, q2),
            n1 == hits_on_first(bullets@.subrange(0, i as int), q1),
            n2 == hits_on_second(bullets@.subrange(0, i as int), q1, q2),
            n1 + n2 <= i,
            *p1 == (Player { lives: lives_after_hits(q1.lives, n1 as nat), ..q1 }),
            *p2 == (Player { lives: lives_after_hits(q2.lives, n2 as nat), ..q2 }),
        decreases bullets@.len() - i,
    {
        let mut b = bullets[i];
        let bc = b.collider().unwrap();
        proof {
            assert(bullets@.subrange(0, i + 1).drop_last() =~= bullets@.subrange(0, i as int));
        }
        if b.color != p1.color && bc.overlaps(&c1) {
            p1.on_bullet_hit(&b);
            b.destroy_flag = true;
            n1 = n1 + 1;
        } else if b.color != p2.color && bc.overlaps(&c2) {
            p2.on_bullet_hit(&b);
            b.destroy_flag = true;
            n2 = n2 + 1;
        }
        out.push(b);
        proof {
            assert(out@ =~= struck(bullets@.subrange(0, i + 1), q1, q2));
        }
        i = i + 1;
    }
    proof {
        assert(bullets@.subrange(0, bullets@.len() as int) =~= bullets@);
    }
    (out, n1 + n2)
}

/// Keeps one heading component within a unit vector's range.
pub open spec fn clamped_unit(v: i64) -> i64 {
    if v > HEADING_SCALE {
        HEADING_SCALE
    } else if v < -HEADING_SCALE {
        (-HEADING_SCALE) as i64
    } else {
        v
    }
}

pub open spec fn clamped_heading(h: Vec2) -> Vec2 {
    Vec2 { x: clamped_unit(h.x), y: clamped_unit(h.y) }
}

/// Brings a heading from the host within a unit vector's range.
pub fn clamp_heading(h: Vec2) -> (r: Vec2)
    ensures
        r == clamped_heading(h),
{
    let x = if h.x > HEADING_SCALE {
        HEADING_SCALE
    } else if h.x < -HEADING_SCALE {
        -HEADING_SCALE
    } else {
        h.x
    };
    let y = if h.y > HEADING_SCALE {
        HEADING_SCALE
    } else if h.y < -HEADING_SCALE {
        -HEADING_SCALE
    } else {
        h.y
    };
    Vec2 { x, y }
}

/// The actor, and the projectile it fires, when its fire key is held.
pub open spec fn armed(p: Player, c: Controls, h: Vec2) -> (Player, Option<Bullet>) {
    if c.fire {
        p.fired(clamped_heading(h))
    } else {
        (p, None)
    }
}

pub open spec fn opt_seq(o: Option<Bullet>) -> Seq<Bullet> {
    match o {
        Some(b) => seq![b],
        None => Seq::empty(),
    }
}

/// `h` is what the host's aim function gave for the actor's rotation, when
/// the actor fired.
pub open spec fn aimed<F: Fn(i64) -> Vec2>(aim: F, p: Player, c: Controls, h: Vec2) -> bool {
    c.fire ==> aim.ensures((p.rotation_spec() as i64,), h)
}

/// The arena scene: the red actor, the blue actor, the projectiles in
/// flight, and the last arena track queued.
#[derive(Debug)]
pub struct Game {
    pub player1: Player,
    pub player2: Player,
    pub bullets: Vec<Bullet>,
    pub last_theme: Option<usize>,
}

impl Game {
    pub open spec fn wf(&self) -> bool {
        &&& self.player1.wf()
        &&& self.player2.wf()
        &&& self.player1.color == PlayerColor::Red
        &&& self.player2.color == PlayerColor::Blue
        &&& forall|i: int| 0 <= i < self.bullets@.len() ==> (#[trigger] self.bullets@[i]).wf()
    }

    /// The two actors after their own updates.
    pub open spec fn updated_pair(&self, input: FrameInput) -> (Player, Player) {
        (
            self.player1.updated(input.red, input.delta, input.decay, input.arena),
            self.player2.updated(input.blue, input.delta, input.decay, input.arena),
        )
    }

    /// Whether the two actors overlap after their updates.
    pub open spec fn actors_touch(&self, input: FrameInput) -> bool {
        rects_overlap(self.updated_pair(input).0.collider_spec(), self.updated_pair(input).1.collider_spec())
    }

    /// The two actors after their updates and their collision.
    pub open spec fn moved_pair(&self, input: FrameInput) -> (Player, Player) {
        if self.actors_touch(input) {
            self.updated_pair(input).0.knocked(self.updated_pair(input).1)
        } else {
            self.updated_pair(input)
        }
    }

    /// The actors after firing, and the projectiles with the new ones last.
    pub open spec fn armed_pair(&self, input: FrameInput, h1: Vec2, h2: Vec2) -> (Player, Player, Seq<Bullet>) {
        let a = armed(self.moved_pair(input).0, input.red, h1);
        let b = armed(self.moved_pair(input).1, input.blue, h2);
        (a.0, b.0, self.bullets@ + opt_seq(a.1) + opt_seq(b.1))
    }

    /// The projectiles left for the hit pass.
    pub open spec fn live(&self, input: FrameInput, h1: Vec2, h2: Vec2) -> Seq<Bullet> {
        culled(self.armed_pair(input, h1, h2).2, input.delta, input.arena)
    }

    /// The actors and the projectiles at the end of a frame in which the
    /// actors aimed along `h1` and `h2`.
    pub open spec fn after_frame(&self, input: FrameInput, h1: Vec2, h2: Vec2) -> (Player, Player, Seq<Bullet>) {
        let a = self.armed_pair(input, h1, h2).0;
        let b = self.armed_pair(input, h1, h2).1;
        let live = self.live(input, h1, h2);
        (
            Player { lives: lives_after_hits(a.lives, hits_on_first(live, a)), ..a },
            Player { lives: lives_after_hits(b.lives, hits_on_second(live, a, b)), ..b },
            struck(live, a, b),
        )
    }

    /// The sounds of such a frame: a collision for each wall bounce and for
    /// the actors meeting, a shot for each projectile fired, a hit for each
    /// projectile that struck.
    pub open spec fn frame_effects(&self, input: FrameInput, h1: Vec2, h2: Vec2) -> Seq<Effect> {
        let walls = self.player1.integrated(input.red, input.delta, input.decay).wall_hits(input.arena)
            + self.player2.integrated(input.blue, input.delta, input.decay).wall_hits(input.arena);
        let touch: nat = if self.actors_touch(input) { 1 } else { 0 };
        let shots = (self.armed_pair(input, h1, h2).2.len() - self.bullets@.len()) as nat;
        let a = self.armed_pair(input, h1, h2).0;
        let b = self.armed_pair(input, h1, h2).1;
        let live = self.live(input, h1, h2);
        repeated(Effect::Collision, walls + touch) + repeated(Effect::Shoot, shots) + repeated(
            Effect::Hit,
            hits_on_first(live, a) + hits_on_second(live, a, b),
        )
    }

    /// In the arena the exit key returns to the menu.
    pub fn handle_common_input(&self, input: &FrameInput) -> (r: Option<Transition>)
        ensures
            r == if input.escape { Some(Transition::ToMenu) } else { None },
    {
        if input.escape {
            Some(Transition::ToMenu)
        } else {
            None
        }
    }

    /// A fresh round: both actors at their spawn points, nothing in flight.
    pub fn new(arena: Arena) -> (r: Game)
        requires
            arena.wf(),
        ensures
            r.player1 == Player::spawn(PlayerColor::Red, arena),
            r.player2 == Player::spawn(PlayerColor::Blue, arena),
            r.bullets@.len() == 0,
            r.last_theme.is_none(),
            r.wf(),
    {
        Game {
            player1: Player::new(PlayerColor::Red, arena),
            player2: Player::new(PlayerColor::Blue, arena),
            bullets: Vec::new(),
            last_theme: None,
        }
    }

    /// Runs one frame. The exit key returns to the menu and changes nothing
    /// else. Otherwise: a new arena track is queued when the music has run
    /// out; the actors move; overlapping actors push each other apart; each
    /// actor whose fire key is held shoots along the heading that `aim`
    /// gives for its rotation; projectiles move, leave when flagged or out
    /// of the arena, and the rest strike the other side's actor.
    pub fn update<F: Fn(i64) -> Vec2>(&mut self, input: &FrameInput, aim: &F) -> (r: Outcome)
        requires
            old(self).wf(),
            input.wf(),
            forall|t: i64| #[trigger] aim.requires((t,)),
        ensures
            final(self).wf(),
            !r.quit,
            input.escape ==> {
                &&& r.transition == Some(Transition::ToMenu)
                &&& *final(self) == *old(self)
                &&& r.effects@.len() == 0
                &&& r.music@.len() == 0
            },
            !input.escape ==> {
                &&& r.transition.is_none()
                &&& exists|h1: Vec2, h2: Vec2|
                    #[trigger] old(self).after_frame(*input, h1, h2) == (
                        final(self).player1,
                        final(self).player2,
                        final(self).bullets@,
                    ) && r.effects@ == old(self).frame_effects(*input, h1, h2) && aimed(
                        *aim,
                        old(self).moved_pair(*input).0,
                        input.red,
                        h1,
                    ) && aimed(*aim, old(self).moved_pair(*input).1, input.blue, h2)
            },
            !input.escape && input.bgm_done ==> {
                &&& final(self).last_theme.is_some()
                &&& final(self).last_theme.unwrap() < GAME_THEME_COUNT
                &&& final(self).last_theme != old(self).last_theme
                &&& r.music@ == seq![Music::Queue(Theme::Game(final(self).last_theme.unwrap()))]
            },
            !input.blue.fire && (forall|i: int| 0 <= i < old(self).bullets@.len() ==> (#[trigger] old(self).bullets@[i]).color
                == PlayerColor::Red) ==> final(self).player1.lives == old(self).player1.lives,
            !input.red.fire && (forall|i: int| 0 <= i < old(self).bullets@.len() ==> (#[trigger] old(self).bullets@[i]).color
                == PlayerColor::Blue) ==> final(self).player2.lives == old(self).player2.lives,
            !input.escape && !input.bgm_done ==> {
                &&& final(self).last_theme == old(self).last_theme
                &&& r.music@.len() == 0
            },
    {
        if let Some(t) = self.handle_common_input(input) {
            return Outcome { transition: Some(t), quit: false, effects: Vec::new(), music: Vec::new() };
        }
        let ghost g0 = *self;
        let mut music: Vec<Music> = Vec::new();
        if input.bgm_done {
            let roll = random_below(GAME_THEME_COUNT);
            let t = pick_theme(roll, self.last_theme);
            music.push(Music::Queue(Theme::Game(t)));
            self.last_theme = Some(t);
        }
        let mut effects = self.move_actors(input);
        let ghost g1 = *self;
        let (h1, h2) = self.fire(input, aim, &mut effects);
        proof {
            assert(self.bullets@ =~= g0.armed_pair(*input, h1, h2).2);
        }
        let ghost e1 = effects@;
        let ghost g2 = *self;
        let hits = self.settle_bullets(input);
        push_repeated(&mut effects, Effect::Hit, hits);
        proof {
            assert(effects@ =~= g0.frame_effects(*input, h1, h2));
            assert(g0.after_frame(*input, h1, h2) == (self.player1, self.player2, self.bullets@));
            let s2 = g0.armed_pair(*input, h1, h2).2;
            let a = g0.armed_pair(*input, h1, h2).0;
            let b = g0.armed_pair(*input, h1, h2).1;
            let live = g0.live(*input, h1, h2);
            if !input.blue.fire && (forall|i: int| 0 <= i < g0.bullets@.len() ==> (#[trigger] g0.bullets@[i]).color == PlayerColor::Red) {
                assert forall|i: int| 0 <= i < s2.len() implies (#[trigger] s2[i]).color == PlayerColor::Red by {
                    if i >= g0.bullets@.len() {
                        assert(s2[i] == armed(g0.moved_pair(*input).0, input.red, h1).1.unwrap());
                    }
                }
                lemma_culled_keeps_side(s2, input.delta, input.arena, PlayerColor::Red);
                lemma_same_side_immune(live, a, b);
            }
            if !input.red.fire && (forall|i: int| 0 <= i < g0.bullets@.len() ==> (#[trigger] g0.bullets@[i]).color == PlayerColor::Blue) {
                assert forall|i: int| 0 <= i < s2.len() implies (#[trigger] s2[i]).color == PlayerColor::Blue by {
                    if i >= g0.bullets@.len() {
                        assert(s2[i] == armed(g0.moved_pair(*input).1, input.blue, h2).1.unwrap());
                    }
                }
                lemma_culled_keeps_side(s2, input.delta, input.arena, PlayerColor::Blue);
                lemma_same_side_immune(live, a, b);
            }
        }
        Outcome { transition: None, quit: false, effects, music }
    }

    /// The actors' own updates and their collision; returns the collision sounds.
    fn move_actors(&mut self, input: &FrameInput) -> (r: Vec<Effect>)
        requires
            old(self).wf(),
            input.wf(),
        ensures
            (final(self).player1, final(self).player2) == old(self).moved_pair(*input),
            final(self).bullets == old(self).bullets,
            final(self).last_theme == old(self).last_theme,
            final(self).wf(),
            r@ == repeated(
                Effect::Collision,
                old(self).player1.integrated(input.red, input.delta, input.decay).wall_hits(input.arena)
                    + old(self).player2.integrated(input.blue, input.delta, input.decay).wall_hits(input.arena)
                    + if old(self).actors_touch(*input) { 1nat } else { 0nat },
            ),
    {
        let mut effects: Vec<Effect> = Vec::new();
        let w1 = self.player1.update(input.red, input.delta, input.decay, input.arena);
        let w2 = self.player2.update(input.blue, input.delta, input.decay, input.arena);
        push_repeated(&mut effects, Effect::Collision, w1 as usize);
        push_repeated(&mut effects, Effect::Collision, w2 as usize);
        let c1 = self.player1.collider().unwrap();
        let c2 = self.player2.collider().unwrap();
        if c1.overlaps(&c2) {
            let e = self.player1.on_player_hit(&mut self.player2);
            effects.push(e);
        }
        proof {
            assert(effects@ =~= repeated(
                Effect::Collision,
                w1 as nat + w2 as nat + if c1.overlaps_spec(c2) { 1nat } else { 0nat },
            ));
        }
        effects
    }

    /// Each actor whose fire key is held shoots; returns the headings used.
    fn fire<F: Fn(i64) -> Vec2>(&mut self, input: &FrameInput, aim: &F, effects: &mut Vec<Effect>) -> (r: (Vec2, Vec2))
        requires
            old(self).wf(),
            forall|t: i64| #[trigger] aim.requires((t,)),
        ensures
            final(self).wf(),
            final(self).last_theme == old(self).last_theme,
            aimed(*aim, old(self).player1, input.red, r.0),
            aimed(*aim, old(self).player2, input.blue, r.1),
            final(self).player1 == armed(old(self).player1, input.red, r.0).0,
            final(self).player2 == armed(old(self).player2, input.blue, r.1).0,
            final(self).bullets@ == old(self).bullets@ + opt_seq(armed(old(self).player1, input.red, r.0).1)
                + opt_seq(armed(old(self).player2, input.blue, r.1).1),
            final(effects)@ == old(effects)@ + repeated(
                Effect::Shoot,
                (final(self).bullets@.len() - old(self).bullets@.len()) as nat,
            ),
    {
        let ghost b0 = self.bullets@;
        let ghost e0 = effects@;
        let mut h1 = Vec2 { x: 0, y: 0 };
        let mut h2 = Vec2 { x: 0, y: 0 };
        if input.red.fire {
            h1 = aim(self.player1.rotation());
            if let Some(b) = self.player1.shoot(clamp_heading(h1)) {
                self.bullets.push(b);
                effects.push(Effect::Shoot);
            }
        }
        let ghost b1 = self.bullets@;
        if input.blue.fire {
            h2 = aim(self.player2.rotation());
            if let Some(b) = self.player2.shoot(clamp_heading(h2)) {
                self.bullets.push(b);
                effects.push(Effect::Shoot);
            }
        }
        proof {
            assert(effects@ =~= e0 + repeated(Effect::Shoot, (self.bullets@.len() - b0.len()) as nat));
        }
        (h1, h2)
    }

    /// Moves and culls the projectiles, then lets the rest strike; returns
    /// the number of hits.
    fn settle_bullets(&mut self, input: &FrameInput) -> (r: usize)
        requires
            old(self).wf(),
            input.wf(),
        ensures
            final(self).wf(),
            final(self).last_theme == old(self).last_theme,
            ({
                let live = culled(old(self).bullets@, input.delta, input.arena);
                let a = old(self).player1;
                let b = old(self).player2;
                &&& final(self).player1 == (Player { lives: lives_after_hits(a.lives, hits_on_first(live, a)), ..a })
                &&& final(self).player2 == (Player { lives: lives_after_hits(b.lives, hits_on_second(live, a, b)), ..b })
                &&& final(self).bullets@ == struck(live, a, b)
                &&& r == hits_on_first(live, a) + hits_on_second(live, a, b)
            }),
    {
        let live = fly_and_cull(&self.bullets, input.delta, input.arena);
        let ghost q1 = self.player1;
        let ghost q2 = self.player2;
        let (after, hits) = resolve_hits(&live, &mut self.player1, &mut self.player2);
        self.bullets = after;
        proof {
            assert forall|i: int| 0 <= i < self.bullets@.len() implies (#[trigger] self.bullets@[i]).wf() by {
                assert(self.bullets@[i] == (Bullet {
                    destroy_flag: live@[i].destroy_flag || hurts(live@[i], q1) || hurts(live@[i], q2),
                    ..live@[i]
                }));
            }
        }
        hits
    }
}

} // verus!

verus! {

/// A projectile never strikes an actor of its own side: when every
/// projectile in play belongs to an actor's side, that actor takes no hit,
/// whatever overlaps.
pub proof fn lemma_same_side_immune(s: Seq<Bullet>, p1: Player, p2: Player)
    ensures
        (forall|i: int| 0 <= i < s.len() ==> (#[trigger] s[i]).color == p1.color) ==> hits_on_first(s, p1) == 0,
        (forall|i: int| 0 <= i < s.len() ==> (#[trigger] s[i]).color == p2.color) ==> hits_on_second(s, p1, p2) == 0,
        forall|b: Bullet| b.color == p1.color ==> !hurts(b, p1),
        forall|b: Bullet| b.color == p2.color ==> !hurts_second(b, p1, p2),
    decreases s.len(),
{
    if s.len() > 0 {
        lemma_same_side_immune(s.drop_last(), p1, p2);
        if forall|i: int| 0 <= i < s.len() ==> (#[trigger] s[i]).color == p1.color {
            assert forall|i: int| 0 <= i < s.drop_last().len() implies (#[trigger] s.drop_last()[i]).color == p1.color by {
                assert(s.drop_last()[i] == s[i]);
            }
            assert(s.last() == s[s.len() - 1]);
        }
        if forall|i: int| 0 <= i < s.len() ==> (#[trigger] s[i]).color == p2.color {
            assert forall|i: int| 0 <= i < s.drop_last().len() implies (#[trigger] s.drop_last()[i]).color == p2.color by {
                assert(s.drop_last()[i] == s[i]);
            }
            assert(s.last() == s[s.len() - 1]);
        }
    }
}

/// Every projectile that survives the cull is unflagged and strictly inside
/// the arena: one that has left the arena is gone in the frame it leaves.
pub proof fn lemma_culled_inside(s: Seq<Bullet>, delta: u64, arena: Arena)
    ensures
        forall|i: int| 0 <= i < culled(s, delta, arena).len() ==> (#[trigger] culled(s, delta, arena)[i]).kept_in(arena),
        culled(s, delta, arena).len() <= s.len(),
    decreases s.len(),
{
    if s.len() > 0 {
        lemma_culled_inside(s.drop_last(), delta, arena);
    }
}

/// A lone projectile after `n` frames of `delta` microseconds, or `None`
/// once the cull has removed it.
pub open spec fn flight(b: Bullet, delta: u64, arena: Arena, n: nat) -> Option<Bullet>
    decreases n,
{
    if n == 0 {
        Some(b)
    } else {
        match flight(b, delta, arena, (n - 1) as nat) {
            Some(c) => if c.moved(delta).kept_in(arena) {
                Some(c.moved(delta))
            } else {
                None
            },
            None => None,
        }
    }
}

/// Speed `v` moves at least one length unit in a frame of `delta`
/// microseconds.
pub open spec fn steps_each_frame(v: i64, delta: u64) -> bool {
    v * delta >= MICROS || v * delta <= -MICROS
}

/// A projectile that moves at least one length unit per frame along some
/// axis is removed within as many frames as the arena is wide or high,
/// whichever is larger.
pub proof fn lemma_flight_ends(b: Bullet, delta: u64, arena: Arena, n: nat)
    requires
        arena.wf(),
        b.wf(),
        arena.holds(b.pos),
        steps_each_frame(b.vel.x, delta) || steps_each_frame(b.vel.y, delta),
        delta <= MAX_DELTA,
        n >= arena.width,
        n >= arena.height,
    ensures
        flight(b, delta, arena, n).is_none(),
{
    lemma_flight_advances(b, delta, arena, n);
}

proof fn lemma_one_step(v: int, d: int)
    requires
        0 <= d,
    ensures
        v * d >= MICROS ==> scaled(v, d, MICROS as int) >= 1,
        v * d <= -MICROS ==> scaled(v, d, MICROS as int) <= -1,
{
    if v * d >= MICROS {
        assert(v * d / (MICROS as int) >= 1) by (nonlinear_arith)
            requires v * d >= MICROS;
        assert(v >= 0) by (nonlinear_arith)
            requires v * d >= MICROS, d >= 0;
    }
    if v * d <= -MICROS {
        assert((-v) * d / (MICROS as int) >= 1) by (nonlinear_arith)
            requires v * d <= -MICROS;
        assert(v < 0) by (nonlinear_arith)
            requires v * d <= -MICROS, d >= 0;
    }
}

proof fn lemma_flight_advances(b: Bullet, delta: u64, arena: Arena, n: nat)
    requires
        arena.wf(),
        b.wf(),
        arena.holds(b.pos),
        delta <= MAX_DELTA,
    ensures
        flight(b, delta, arena, n) matches Some(c) ==> {
            &&& c.vel == b.vel
            &&& c.wf()
            &&& arena.holds(c.pos)
            &&& b.vel.x * delta >= MICROS ==> c.pos.x >= b.pos.x + n
            &&& b.vel.x * delta <= -MICROS ==> c.pos.x <= b.pos.x - n
            &&& b.vel.y * delta >= MICROS ==> c.pos.y >= b.pos.y + n
            &&& b.vel.y * delta <= -MICROS ==> c.pos.y <= b.pos.y - n
        },
    decreases n,
{
    if n > 0 {
        lemma_flight_advances(b, delta, arena, (n - 1) as nat);
        if let Some(c) = flight(b, delta, arena, (n - 1) as nat) {
            lemma_one_step(c.vel.x as int, delta as int);
            lemma_one_step(c.vel.y as int, delta as int);
            crate::geometry::lemma_scaled_move(c.vel.x as int, delta as int, 2 * crate::geometry::MAX_SPEED);
            crate::geometry::lemma_scaled_move(c.vel.y as int, delta as int, 2 * crate::geometry::MAX_SPEED);
        }
    }
}

/// The cull keeps only projectiles of the sequence, so a sequence of one
/// side's projectiles stays so.
pub proof fn lemma_culled_keeps_side(s: Seq<Bullet>, delta: u64, arena: Arena, c: PlayerColor)
    requires
        forall|i: int| 0 <= i < s.len() ==> (#[trigger] s[i]).color == c,
    ensures
        forall|i: int| 0 <= i < culled(s, delta, arena).len() ==> (#[trigger] culled(s, delta, arena)[i]).color == c,
    decreases s.len(),
{
    if s.len() > 0 {
        assert forall|i: int| 0 <= i < s.drop_last().len() implies (#[trigger] s.drop_last()[i]).color == c by {
            assert(s.drop_last()[i] == s[i]);
        }
        lemma_culled_keeps_side(s.drop_last(), delta, arena, c);
        assert(s.last() == s[s.len() - 1]);
    }
}

} // verus!
