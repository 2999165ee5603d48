//! What a scene reports after a frame, and the requests to change scene.
use vstd::prelude::*;
use crate::audio::{Effect, Music};
use crate::geometry::{Arena, Vec2, MAX_DELTA};
use crate::player::{Controls, Player, PlayerColor, DECAY_SCALE};
use crate::game::Game;
use crate::menu::{Menu, MENU_THEME, pressed};
use crate::audio::{Theme, GAME_THEME_COUNT};

verus! {

/// A scene's request to change what runs.
#[derive(Clone, Copy, Debug, PartialEq, Eq, Structural)]
pub enum Transition {
    /// Switch to the menu scene.
    ToMenu,
    /// Switch to the game scene.
    ToGame,
    /// Exit the game.
    Quit,
}

/// Pause before the process exits, so that closing sounds can finish.
pub const QUIT_DELAY_MS: u64 = 500;

/// What the host observed since the previous frame.
#[derive(Clone, Copy, Debug, PartialEq, Eq, Structural)]
pub struct FrameInput {
    /// Length of the frame, in microseconds.
    pub delta: u64,
    /// The drag factor for this frame, in millionths: how much of an actor's
    /// speed is left after `delta` microseconds of drag.
    pub decay: u64,
    /// The playfield, as large as the window.
    pub arena: Arena,
    /// The exit key went down this frame.
    pub escape: bool,
    /// The background music has run out.
    pub bgm_done: bool,
    pub red: Controls,
    pub blue: Controls,
    /// Pointer position, in length units.
    pub mouse: Vec2,
    /// The primary pointer button went down this frame.
    pub click: bool,
}

impl FrameInput {
    pub open spec fn wf(self) -> bool {
        self.delta <= MAX_DELTA && self.decay <= DECAY_SCALE as u64 && self.arena.wf()
    }
}

/// What a frame asks of the host.
#[derive(Debug)]
pub struct Outcome {
    /// The scene change requested in this frame, if any.
    pub transition: Option<Transition>,
    /// The process should exit, after `QUIT_DELAY_MS`.
    pub quit: bool,
    /// Sound effects to play, in order.
    pub effects: Vec<Effect>,
    /// Requests to the background music player, in order.
    pub music: Vec<Music>,
}

/// The scene that runs.
#[derive(Debug)]
pub enum Scene {
    Menu(Menu),
    Game(Game),
}

/// Owns the running scene and swaps it when the scene asks.
#[derive(Debug)]
pub struct SceneManager {
    pub current_scene: Scene,
}

/// A game as it starts in the given arena.
pub open spec fn is_fresh_game(g: Game, arena: Arena) -> bool {
    &&& g.player1 == Player::spawn(PlayerColor::Red, arena)
    &&& g.player2 == Player::spawn(PlayerColor::Blue, arena)
    &&& g.bullets@.len() == 0
    &&& g.last_theme.is_none()
}

impl SceneManager {
    pub open spec fn wf(&self) -> bool {
        match self.current_scene {
            Scene::Menu(m) => m.wf(),
            Scene::Game(g) => g.wf(),
        }
    }

    /// The music that a scene switch asks for: the old music stops, and the
    /// menu's theme loops when the menu comes back.
    pub open spec fn switch_music(t: Transition) -> Seq<Music> {
        match t {
            Transition::ToMenu => seq![Music::Stop, Music::Loop(Theme::Menu)],
            _ => seq![Music::Stop],
        }
    }

    /// Starts at the menu.
    pub fn new() -> (r: SceneManager)
        ensures
            r.current_scene matches Scene::Menu(m) && m.is_fresh(),
            r.wf(),
    {
        SceneManager { current_scene: Scene::Menu(Menu::new()) }
    }

    /// The music to start with the first scene.
    pub fn entry_music(&self) -> (r: Vec<Music>)
        ensures
            self.current_scene is Menu ==> r@ == seq![Music::Loop(Theme::Menu)],
            self.current_scene is Game ==> r@.len() == 0,
    {
        let mut music: Vec<Music> = Vec::new();
        if let Scene::Menu(_) = &self.current_scene {
            music.push(Music::Loop(MENU_THEME));
        }
        music
    }

    /// Carries out a scene switch: stops the music, then builds the menu
    /// or a new round afresh, or reports that the process should exit.
    pub fn transition(&mut self, transition: Transition, arena: Arena, music: &mut Vec<Music>) -> (r: bool)
        requires
            old(self).wf(),
            arena.wf(),
        ensures
            final(self).wf(),
            r == (transition == Transition::Quit),
            final(music)@ == old(music)@ + SceneManager::switch_music(transition),
            transition == Transition::Quit ==> final(self).current_scene == old(self).current_scene,
            transition == Transition::ToMenu ==> (final(self).current_scene matches Scene::Menu(m) && m.is_fresh()),
            transition == Transition::ToGame ==> (final(self).current_scene matches Scene::Game(g) && is_fresh_game(g, arena)),
    {
        music.push(Music::Stop);
        match transition {
            Transition::Quit => true,
            Transition::ToMenu => {
                self.current_scene = Scene::Menu(Menu::new());
                music.push(Music::Loop(MENU_THEME));
                false
            },
            Transition::ToGame => {
                self.current_scene = Scene::Game(Game::new(arena));
                false
            },
        }
    }

    /// Runs one frame of the current scene and carries out the switch it
    /// asks for. `quit` in the result says the process should exit.
    pub fn update<F: Fn(i64) -> Vec2>(&mut self, input: &FrameInput, aim: &F) -> (r: Outcome)
        requires
            old(self).wf(),
            input.wf(),
            forall|t: i64| #[trigger] aim.requires((t,)),
        ensures
            final(self).wf(),
            r.quit == (r.transition == Some(Transition::Quit)),
            old(self).current_scene is Menu && input.escape ==> r.transition == Some(Transition::Quit),
            old(self).current_scene is Game && input.escape ==> r.transition == Some(Transition::ToMenu),
            old(self).current_scene is Game && !input.escape ==> {
                &&& r.transition.is_none()
                &&& final(self).current_scene is Game
                &&& exists|h1: Vec2, h2: Vec2|
                    #[trigger] old(self).current_scene->Game_0.after_frame(*input, h1, h2) == (
                        final(self).current_scene->Game_0.player1,
                        final(self).current_scene->Game_0.player2,
                        final(self).current_scene->Game_0.bullets@,
                    ) && r.effects@ == old(self).current_scene->Game_0.frame_effects(*input, h1, h2)
            },
            old(self).current_scene is Game && !input.escape && input.bgm_done ==> {
                &&& final(self).current_scene->Game_0.last_theme.is_some()
                &&& final(self).current_scene->Game_0.last_theme.unwrap() < GAME_THEME_COUNT
                &&& final(self).current_scene->Game_0.last_theme != old(self).current_scene->Game_0.last_theme
                &&& r.music@ == seq![Music::Queue(Theme::Game(final(self).current_scene->Game_0.last_theme.unwrap()))]
            },
            old(self).current_scene is Game && !input.escape && !input.bgm_done ==> {
                &&& final(self).current_scene->Game_0.last_theme == old(self).current_scene->Game_0.last_theme
                &&& r.music@.len() == 0
            },
            old(self).current_scene is Menu && input.escape ==> final(self).current_scene == old(self).current_scene,
            r.transition == Some(Transition::Quit) ==> final(self).current_scene is Menu,
            old(self).current_scene is Menu && !input.escape && (forall|j: int|
                0 <= j < old(self).current_scene->Menu_0.buttons@.len() ==> !pressed(
                    #[trigger] old(self).current_scene->Menu_0.buttons@[j],
                    *input,
                )) ==> {
                &&& r.transition.is_none()
                &&& r.effects@.len() == 0
                &&& r.music@.len() == 0
                &&& final(self).current_scene is Menu
            },
            forall|k: int|
                old(self).current_scene is Menu && 0 <= k < old(self).current_scene->Menu_0.buttons@.len()
                    && !input.escape && pressed(#[trigger] old(self).current_scene->Menu_0.buttons@[k], *input)
                    && (forall|j: int| 0 <= j < k ==> !pressed(#[trigger] old(self).current_scene->Menu_0.buttons@[j], *input))
                    ==> {
                &&& r.transition == Some(old(self).current_scene->Menu_0.buttons@[k].action)
                &&& r.effects@ == seq![Effect::ButtonClick]
            },
            r.transition == Some(Transition::ToMenu) ==> (final(self).current_scene matches Scene::Menu(m) && m.is_fresh()),
            r.transition == Some(Transition::ToGame) ==> (final(self).current_scene matches Scene::Game(g) && is_fresh_game(g, input.arena)),
            r.transition.is_some() ==> r.music@.subrange(r.music@.len() - SceneManager::switch_music(r.transition.unwrap()).len(), r.music@.len() as int) == SceneManager::switch_music(r.transition.unwrap()),
    {
        let mut out = match &mut self.current_scene {
            Scene::Menu(m) => m.update(input),
            Scene::Game(g) => g.update(input, aim),
        };
        if let Some(t) = out.transition {
            let ghost m0 = out.music@;
            let quit = self.transition(t, input.arena, &mut out.music);
            proof {
                assert(out.music@.subrange(m0.len() as int, out.music@.len() as int) =~= SceneManager::switch_music(t));
            }
            out.quit = quit;
        }
        out
    }
}

} // verus!
