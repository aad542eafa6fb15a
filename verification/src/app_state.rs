//! Round lifecycle states: menu, playing, game over.

use vstd::prelude::*;

verus! {

/// Top-level state of the application; a round of play is the time
/// spent in `InGame`.
#[derive(Clone, Copy, Debug, PartialEq, Eq, Structural, Hash)]
pub enum AppState {
    MainMenu,
    InGame,
    GameOver,
}

impl Default for AppState {
    /// The application starts on the main menu.
    fn default() -> (r: Self)
        ensures
            r == AppState::MainMenu,
    {
        AppState::MainMenu
    }
}

} // verus!
