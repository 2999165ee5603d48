//! Identities of the sounds the simulation asks the host to play.
use vstd::prelude::*;

verus! {

/// Number of arena music tracks.
pub const GAME_THEME_COUNT: usize = 4;

/// A background music track.
#[derive(Clone, Copy, Debug, PartialEq, Eq, Structural)]
pub enum Theme {
    Menu,
    Game(usize),
}

/// A one-shot sound effect.
#[derive(Clone, Copy, Debug, PartialEq, Eq, Structural)]
pub enum Effect {
    ButtonClick,
    Shoot,
    Hit,
    Collision,
}

/// A request to the background music player.
#[derive(Clone, Copy, Debug, PartialEq, Eq, Structural)]
pub enum Music {
    /// Stop whatever plays.
    Stop,
    /// Play a theme over and over until stopped.
    Loop(Theme),
    /// Play a theme once, after what plays now.
    Queue(Theme),
}

} // verus!
