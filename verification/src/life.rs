//! The game itself: a board, its cells and its mode, and the commands that
//! change them. Every change to the cells comes through here, and the mode
//! decides which commands are taken.

use vstd::prelude::*;
use crate::board::{Board, CellCoord};
use crate::error::{CommandOutcome, LifeError};
use crate::grid::{nothing_staged, GridStorage};
use crate::neighbours::{neighbour_table, NeighbourTable};
use crate::state::{GameState, ModeController};
use crate::stepper::next_generation;

verus! {

/// The time between two ticks that a driver keeps by default, in milliseconds.
pub const UPDATE_INTERVAL_MS: u64 = 20;

/// Draws one boolean with `fastrand::bool`, from the generator that fastrand
/// keeps for the calling thread. Nothing is claimed of the value drawn.
#[verifier::external_body]
fn random_bool() -> (b: bool) {
    fastrand::bool()
}

/// Draws the states of `n` cells, one draw each, in the order of the cells'
/// numbers. Nothing is known of the states drawn but their number.
pub fn draw_cells(n: usize) -> (draws: Vec<bool>)
    ensures
        draws@.len() == n,
{
    let mut draws: Vec<bool> = Vec::new();
    let mut i: usize = 0;
    while i < n
        invariant
            i <= n,
            draws@.len() == i,
        decreases n - i,
    {
        draws.push(random_bool());
        i += 1;
    }
    draws
}

/// A game of life on a board whose edges wrap around.
#[derive(Debug)]
pub struct Life {
    table: NeighbourTable,
    grid: GridStorage,
    mode: ModeController,
}

impl Life {
    /// The board the game is played on.
    pub closed spec fn spec_board(self) -> Board {
        self.table.spec_board()
    }

    /// Whether each cell is alive in the present generation, by cell number.
    pub closed spec fn cells(self) -> Seq<bool> {
        self.grid.current()
    }

    /// The mode the game is in.
    pub closed spec fn spec_mode(self) -> GameState {
        self.mode@
    }

    /// Between two commands nothing is staged, so no generation is ever seen
    /// half applied; and the neighbour table is the one of the board.
    pub closed spec fn settled(self) -> bool {
        &&& self.table.wf()
        &&& self.grid.wf()
        &&& self.grid.staged() == nothing_staged(self.grid.current().len())
    }

    /// A game has one state per cell of its board, has left `Load` behind, and
    /// is settled.
    #[verifier::type_invariant]
    pub open spec fn wf(self) -> bool {
        &&& self.spec_board().wf()
        &&& self.cells().len() == self.spec_board().spec_cell_count()
        &&& self.spec_mode() != GameState::Load
        &&& self.settled()
    }

    /// A game on `board` with every cell dead. The game is built in `Load`
    /// and handed out in `Setup`.
    pub fn new(board: Board) -> (game: Life)
        ensures
            game.wf(),
            game.spec_board() == board,
            game.spec_mode() == GameState::Setup,
            game.cells() == Seq::new(board.spec_cell_count() as nat, |i: int| false),
    {
        let mut mode = ModeController::new();
        let table = NeighbourTable::new(board);
        let grid = GridStorage::new(table.len());
        let _ = mode.finish_load();
        Life { table, grid, mode }
    }

    /// The board the game is played on.
    pub fn board(&self) -> (b: Board)
        ensures
            b == self.spec_board(),
            self.wf(),
    {
        proof {
            use_type_invariant(self);
        }
        self.table.board()
    }

    /// The number of cells on each axis.
    pub fn size(&self) -> (n: u32)
        ensures
            n == self.spec_board().spec_size(),
            self.wf(),
    {
        proof {
            use_type_invariant(self);
        }
        self.table.board().size()
    }

    /// The mode the game is in: `Setup` or `Running`.
    pub fn mode(&self) -> (s: GameState)
        ensures
            s == self.spec_mode(),
            s != GameState::Load,
    {
        proof {
            use_type_invariant(self);
        }
        self.mode.mode()
    }

    /// Whether cell number `idx` is alive.
    pub fn read(&self, idx: usize) -> (r: Result<bool, LifeError>)
        ensures
            idx < self.cells().len() ==> r == Ok::<bool, LifeError>(self.cells()[idx as int]),
            idx >= self.cells().len() ==> r == Err::<bool, LifeError>(LifeError::InvalidIndex),
    {
        self.grid.read(idx)
    }

    /// Whether the cell at `coord` is alive. A coordinate beyond the board is
    /// an error; it is not wrapped.
    pub fn current_alive(&self, coord: CellCoord) -> (r: Result<bool, LifeError>)
        ensures
            self.spec_board().contains(coord) ==> r == Ok::<bool, LifeError>(
                self.cells()[self.spec_board().coord_to_idx(coord)],
            ),
            !self.spec_board().contains(coord) ==> r == Err::<bool, LifeError>(
                LifeError::InvalidIndex,
            ),
    {
        proof {
            use_type_invariant(self);
        }
        let board = self.table.board();
        if board.has_cell(coord) {
            self.grid.read(board.cell_coord_to_idx(coord))
        } else {
            Err(LifeError::InvalidIndex)
        }
    }

    /// Flips cell number `idx` between dead and alive. The command is taken
    /// in `Setup` only; in `Running` it is left unapplied, whatever the index.
    pub fn toggle_cell(&mut self, idx: usize) -> (r: Result<CommandOutcome, LifeError>)
        ensures
            final(self).wf(),
            final(self).spec_board() == old(self).spec_board(),
            final(self).spec_mode() == old(self).spec_mode(),
            old(self).spec_mode() != GameState::Setup ==> {
                &&& r == Ok::<CommandOutcome, LifeError>(CommandOutcome::Rejected)
                &&& final(self).cells() == old(self).cells()
            },
            old(self).spec_mode() == GameState::Setup && idx >= old(self).cells().len() ==> {
                &&& r == Err::<CommandOutcome, LifeError>(LifeError::InvalidIndex)
                &&& final(self).cells() == old(self).cells()
            },
            old(self).spec_mode() == GameState::Setup && idx < old(self).cells().len() ==> {
                &&& r == Ok::<CommandOutcome, LifeError>(CommandOutcome::Applied)
                &&& final(self).cells() == old(self).cells().update(
                    idx as int,
                    !old(self).cells()[idx as int],
                )
                &&& final(self).cells() != old(self).cells()
            },
    {
        proof {
            use_type_invariant(&*self);
        }
        match self.mode.mode() {
            GameState::Setup => {},
            _ => {
                return Ok(CommandOutcome::Rejected);
            },
        }
        match self.grid.read(idx) {
            Ok(alive) => {
                let _ = self.grid.set_current(idx, !alive);
                assert(self.grid.current()[idx as int] != old(self).grid.current()[idx as int]);
                Ok(CommandOutcome::Applied)
            },
            Err(e) => Err(e),
        }
    }

    /// Flips the cell at `coord` between dead and alive. The command is
    /// taken in `Setup` only; a coordinate beyond the board is then an error,
    /// it is not wrapped.
    pub fn toggle_cell_at(&mut self, coord: CellCoord) -> (r: Result<CommandOutcome, LifeError>)
        ensures
            final(self).wf(),
            final(self).spec_board() == old(self).spec_board(),
            final(self).spec_mode() == old(self).spec_mode(),
            old(self).spec_mode() != GameState::Setup ==> {
                &&& r == Ok::<CommandOutcome, LifeError>(CommandOutcome::Rejected)
                &&& final(self).cells() == old(self).cells()
            },
            old(self).spec_mode() == GameState::Setup && !old(self).spec_board().contains(coord)
                ==> {
                &&& r == Err::<CommandOutcome, LifeError>(LifeError::InvalidIndex)
                &&& final(self).cells() == old(self).cells()
            },
            old(self).spec_mode() == GameState::Setup && old(self).spec_board().contains(coord)
                ==> {
                &&& r == Ok::<CommandOutcome, LifeError>(CommandOutcome::Applied)
                &&& final(self).cells() == old(self).cells().update(
                    old(self).spec_board().coord_to_idx(coord),
                    !old(self).cells()[old(self).spec_board().coord_to_idx(coord)],
                )
                &&& final(self).cells() != old(self).cells()
            },
    {
        proof {
            use_type_invariant(&*self);
        }
        let board = self.table.board();
        if board.has_cell(coord) {
            self.toggle_cell(board.cell_coord_to_idx(coord))
        } else {
            match self.mode.mode() {
                GameState::Setup => Err(LifeError::InvalidIndex),
                _ => Ok(CommandOutcome::Rejected),
            }
        }
    }

    /// Gives the cells the states in `draws`, cell number `k` the `k`-th of
    /// them, whatever the cells were before. The command is taken in `Setup`
    /// only; there must then be exactly one state per cell, else no cell is
    /// written and the mismatch is an error.
    pub fn assign(&mut self, draws: &Vec<bool>) -> (r: Result<CommandOutcome, LifeError>)
        ensures
            final(self).wf(),
            final(self).spec_board() == old(self).spec_board(),
            final(self).spec_mode() == old(self).spec_mode(),
            old(self).spec_mode() != GameState::Setup ==> {
                &&& r == Ok::<CommandOutcome, LifeError>(CommandOutcome::Rejected)
                &&& final(self).cells() == old(self).cells()
            },
            old(self).spec_mode() == GameState::Setup && draws@.len() != old(self).cells().len()
                ==> {
                &&& r == Err::<CommandOutcome, LifeError>(LifeError::InvalidIndex)
                &&& final(self).cells() == old(self).cells()
            },
            old(self).spec_mode() == GameState::Setup && draws@.len() == old(self).cells().len()
                ==> {
                &&& r == Ok::<CommandOutcome, LifeError>(CommandOutcome::Applied)
                &&& final(self).cells() == draws@
            },
    {
        proof {
            use_type_invariant(&*self);
        }
        match self.mode.mode() {
            GameState::Setup => {},
            _ => {
                return Ok(CommandOutcome::Rejected);
            },
        }
        let n: usize = self.grid.len();
        if draws.len() != n {
            return Err(LifeError::InvalidIndex);
        }
        let mut i: usize = 0;
        while i < n
            invariant
                i <= n,
                self.wf(),
                n == self.cells().len(),
                n == draws@.len(),
                self.spec_board() == old(self).spec_board(),
                self.spec_mode() == old(self).spec_mode(),
                forall|j: int| 0 <= j < i ==> self.cells()[j] == draws@[j],
            decreases n - i,
        {
            let _ = self.grid.set_current(i, draws[i]);
            i += 1;
        }
        assert(self.cells() =~= draws@);
        Ok(CommandOutcome::Applied)
    }

    /// Gives every cell a state drawn at random, one draw per cell: in
    /// `Setup` the states are drawn with `draw_cells` and handed to `assign`,
    /// which says where each draw goes. In `Running` nothing is drawn and
    /// every cell stays as it is. Which states are drawn is not known
    /// beforehand, so of the cells themselves only their number is stated.
    pub fn randomize(&mut self) -> (outcome: CommandOutcome)
        ensures
            final(self).wf(),
            final(self).spec_board() == old(self).spec_board(),
            final(self).spec_mode() == old(self).spec_mode(),
            final(self).cells().len() == old(self).cells().len(),
            outcome == CommandOutcome::Applied <==> old(self).spec_mode() == GameState::Setup,
            outcome == CommandOutcome::Rejected <==> old(self).spec_mode() != GameState::Setup,
            outcome == CommandOutcome::Rejected ==> final(self).cells() == old(self).cells(),
    {
        proof {
            use_type_invariant(&*self);
        }
        match self.mode.mode() {
            GameState::Setup => {},
            _ => {
                return CommandOutcome::Rejected;
            },
        }
        let draws: Vec<bool> = draw_cells(self.grid.len());
        match self.assign(&draws) {
            Ok(outcome) => outcome,
            Err(_) => unreached(),
        }
    }

    /// Flips the mode between `Setup` and `Running` and returns the new mode.
    /// The cells are not touched.
    pub fn toggle_mode(&mut self) -> (s: GameState)
        ensures
            final(self).wf(),
            s == final(self).spec_mode(),
            final(self).spec_mode() == old(self).spec_mode().toggled(),
            final(self).spec_board() == old(self).spec_board(),
            final(self).cells() == old(self).cells(),
    {
        proof {
            use_type_invariant(&*self);
        }
        let _ = self.mode.toggle();
        self.mode.mode()
    }

    /// One tick. In `Running` the grid advances by exactly one generation,
    /// the whole of it: every cell's next state is worked out from the
    /// generation before the tick, and after the tick every cell shows the
    /// next generation. In `Setup` the tick is left unapplied.
    pub fn step(&mut self) -> (outcome: CommandOutcome)
        ensures
            final(self).wf(),
            final(self).spec_board() == old(self).spec_board(),
            final(self).spec_mode() == old(self).spec_mode(),
            old(self).spec_mode() == GameState::Running ==> {
                &&& outcome == CommandOutcome::Applied
                &&& final(self).cells() == next_generation(
                    old(self).cells(),
                    neighbour_table(old(self).spec_board()),
                )
            },
            old(self).spec_mode() != GameState::Running ==> {
                &&& outcome == CommandOutcome::Rejected
                &&& final(self).cells() == old(self).cells()
            },
    {
        proof {
            use_type_invariant(&*self);
        }
        match self.mode.mode() {
            GameState::Running => {},
            _ => {
                return CommandOutcome::Rejected;
            },
        }
        let _ = crate::stepper::step(&mut self.grid, &self.table);
        CommandOutcome::Applied
    }
}

impl Default for Life {
    /// A game on the default board, every cell dead.
    fn default() -> (game: Life)
        ensures
            game.wf(),
            game.spec_board().spec_size() == crate::board::BOARD_SIZE,
            game.spec_mode() == GameState::Setup,
            game.cells() == Seq::new(game.spec_board().spec_cell_count() as nat, |i: int| false),
    {
        Life::new(Board::default())
    }
}

} // verus!
