//! The mode of the game and the controller that moves it between modes.

use vstd::prelude::*;
use crate::error::LifeError;

verus! {

/// The mode the game is in.
///
/// A game starts in `Load` while its grid is built, enters `Setup` once when
/// that is done, and from then on flips between `Setup` and `Running`.
#[derive(Debug, Clone, Copy, PartialEq, Eq, Hash, Structural)]
pub enum GameState {
    /// The grid and its tables are being built.
    Load,
    /// Cells may be edited; the grid does not advance by itself.
    Setup,
    /// The grid advances on every tick; edits are left unapplied.
    Running,
}

impl GameState {
    /// The mode an explicit toggle leads to: `Setup` and `Running` change
    /// places, `Load` has no toggle and stays.
    pub open spec fn toggled(self) -> GameState {
        match self {
            GameState::Load => GameState::Load,
            GameState::Setup => GameState::Running,
            GameState::Running => GameState::Setup,
        }
    }

    /// Toggling twice leads back to the mode one started from.
    pub proof fn lemma_toggle_twice(self)
        ensures
            self.toggled().toggled() == self,
    {
    }

    /// A toggle never leads into `Load`, and never out of it.
    pub proof fn lemma_toggle_keeps_load_apart(self)
        ensures
            (self.toggled() == GameState::Load) == (self == GameState::Load),
    {
    }
}

impl Default for GameState {
    fn default() -> (s: GameState)
        ensures
            s == GameState::Load,
    {
        GameState::Load
    }
}

/// Holds the current mode and admits only the transitions of its lifecycle.
#[derive(Debug, Clone, Copy)]
pub struct ModeController {
    state: GameState,
}

impl View for ModeController {
    type V = GameState;

    closed spec fn view(&self) -> GameState {
        self.state
    }
}

impl ModeController {
    /// A controller at the start of its lifecycle.
    pub fn new() -> (c: ModeController)
        ensures
            c@ == GameState::Load,
    {
        ModeController { state: GameState::Load }
    }

    /// The current mode.
    pub fn mode(&self) -> (s: GameState)
        ensures
            s == self@,
        no_unwind
    {
        self.state
    }

    /// Leaves `Load` for `Setup`; this is the step taken once, when
    /// construction is complete. In any other mode nothing changes and the
    /// transition is reported as illegal.
    pub fn finish_load(&mut self) -> (r: Result<(), LifeError>)
        ensures
            old(self)@ == GameState::Load ==> r == Ok::<(), LifeError>(()) && final(self)@
                == GameState::Setup,
            old(self)@ != GameState::Load ==> r == Err::<(), LifeError>(
                LifeError::IllegalTransition,
            ) && final(self)@ == old(self)@,
        no_unwind
    {
        match self.state {
            GameState::Load => {
                self.state = GameState::Setup;
                Ok(())
            },
            _ => Err(LifeError::IllegalTransition),
        }
    }

    /// Flips between `Setup` and `Running` and returns the new mode. During
    /// `Load` there is nothing to flip: the mode stays and the transition is
    /// reported as illegal.
    pub fn toggle(&mut self) -> (r: Result<GameState, LifeError>)
        ensures
            final(self)@ == old(self)@.toggled(),
            old(self)@ != GameState::Load ==> r == Ok::<GameState, LifeError>(old(self)@.toggled()),
            old(self)@ == GameState::Load ==> r == Err::<GameState, LifeError>(
                LifeError::IllegalTransition,
            ),
        no_unwind
    {
        match self.state {
            GameState::Load => Err(LifeError::IllegalTransition),
            GameState::Setup => {
                self.state = GameState::Running;
                Ok(GameState::Running)
            },
            GameState::Running => {
                self.state = GameState::Setup;
                Ok(GameState::Setup)
            },
        }
    }
}

} // verus!
