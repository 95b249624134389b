//! What a command can come back with.

use vstd::prelude::*;

verus! {

/// A defect in the caller: these are never recovered from inside the engine.
#[derive(Debug, Clone, Copy, PartialEq, Eq, Hash, Structural)]
pub enum LifeError {
    /// An index or a coordinate that lies outside the grid was handed to an
    /// operation that reads or writes a cell.
    InvalidIndex,
    /// A mode transition was asked for that the mode's lifecycle does not have.
    IllegalTransition,
}

/// Whether a command took effect. A command that arrives in the wrong mode is
/// not an error: it is left unapplied and reported as such.
#[derive(Debug, Clone, Copy, PartialEq, Eq, Hash, Structural)]
pub enum CommandOutcome {
    /// The command was carried out.
    Applied,
    /// The mode did not allow the command; nothing changed.
    Rejected,
}

} // verus!
