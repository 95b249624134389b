//! The cells' storage: the state of every cell in the present generation and,
//! beside it, the state staged for the next one.

use vstd::prelude::*;
use crate::error::LifeError;

verus! {

/// The generation that a commit leaves behind: a cell with a staged state
/// takes it, a cell without one keeps the state it has.
pub open spec fn committed(current: Seq<bool>, staged: Seq<Option<bool>>) -> Seq<bool> {
    Seq::new(
        current.len(),
        |i: int|
            match staged[i] {
                Some(alive) => alive,
                None => current[i],
            },
    )
}

/// A staged buffer of `len` cells in which nothing is staged.
pub open spec fn nothing_staged(len: nat) -> Seq<Option<bool>> {
    Seq::new(len, |i: int| None::<bool>)
}

/// Two buffers of equal length, indexed by cell number: whether each cell is
/// alive now, and what, if anything, is staged for it.
#[derive(Debug)]
pub struct GridStorage {
    current: Vec<bool>,
    staged: Vec<Option<bool>>,
}

impl GridStorage {
    /// Whether each cell is alive in the present generation.
    pub closed spec fn current(self) -> Seq<bool> {
        self.current@
    }

    /// What is staged for each cell: `None` where nothing has been computed.
    pub closed spec fn staged(self) -> Seq<Option<bool>> {
        self.staged@
    }

    /// The two buffers hold the same cells.
    #[verifier::type_invariant]
    pub open spec fn wf(self) -> bool {
        self.current().len() == self.staged().len()
    }

    /// A storage of `cells` cells, all dead, with nothing staged.
    pub fn new(cells: usize) -> (g: GridStorage)
        ensures
            g.wf(),
            g.current() == Seq::new(cells as nat, |i: int| false),
            g.staged() == nothing_staged(cells as nat),
    {
        let mut current: Vec<bool> = Vec::new();
        let mut staged: Vec<Option<bool>> = Vec::new();
        let mut i: usize = 0;
        while i < cells
            invariant
                i <= cells,
                current@.len() == i,
                staged@.len() == i,
                forall|j: int| 0 <= j < i ==> !current@[j],
                forall|j: int| 0 <= j < i ==> staged@[j] is None,
            decreases cells - i,
        {
            current.push(false);
            staged.push(None);
            i += 1;
        }
        assert(current@ =~= Seq::new(cells as nat, |i: int| false));
        assert(staged@ =~= nothing_staged(cells as nat));
        GridStorage { current, staged }
    }

    /// The number of cells.
    pub fn len(&self) -> (n: usize)
        ensures
            self.wf(),
            n == self.current().len(),
            n == self.staged().len(),
        no_unwind
    {
        proof {
            use_type_invariant(self);
        }
        self.current.len()
    }

    /// Whether cell `idx` is alive in the present generation.
    pub fn read(&self, idx: usize) -> (r: Result<bool, LifeError>)
        ensures
            idx < self.current().len() ==> r == Ok::<bool, LifeError>(self.current()[idx as int]),
            idx >= self.current().len() ==> r == Err::<bool, LifeError>(LifeError::InvalidIndex),
        no_unwind
    {
        if idx < self.current.len() {
            Ok(self.current[idx])
        } else {
            Err(LifeError::InvalidIndex)
        }
    }

    /// Whether cell `idx`, a cell of the storage, is alive.
    pub(crate) fn is_alive(&self, idx: usize) -> (alive: bool)
        requires
            idx < self.current().len(),
        ensures
            alive == self.current()[idx as int],
        no_unwind
    {
        self.current[idx]
    }

    /// Stages `value` as the next state of cell `idx`. The present generation
    /// is not touched.
    pub fn stage(&mut self, idx: usize, value: bool) -> (r: Result<(), LifeError>)
        ensures
            final(self).wf(),
            final(self).current() == old(self).current(),
            idx < old(self).current().len() ==> {
                &&& r == Ok::<(), LifeError>(())
                &&& final(self).staged() == old(self).staged().update(idx as int, Some(value))
            },
            idx >= old(self).current().len() ==> {
                &&& r == Err::<(), LifeError>(LifeError::InvalidIndex)
                &&& final(self).staged() == old(self).staged()
            },
        no_unwind
    {
        proof {
            use_type_invariant(&*self);
        }
        if idx < self.staged.len() {
            self.staged[idx] = Some(value);
            Ok(())
        } else {
            Err(LifeError::InvalidIndex)
        }
    }

    /// Writes `value` as the present state of cell `idx`, past the staging.
    pub fn set_current(&mut self, idx: usize, value: bool) -> (r: Result<(), LifeError>)
        ensures
            final(self).wf(),
            final(self).staged() == old(self).staged(),
            idx < old(self).current().len() ==> {
                &&& r == Ok::<(), LifeError>(())
                &&& final(self).current() == old(self).current().update(idx as int, value)
            },
            idx >= old(self).current().len() ==> {
                &&& r == Err::<(), LifeError>(LifeError::InvalidIndex)
                &&& final(self).current() == old(self).current()
            },
        no_unwind
    {
        proof {
            use_type_invariant(&*self);
        }
        if idx < self.current.len() {
            self.current[idx] = value;
            Ok(())
        } else {
            Err(LifeError::InvalidIndex)
        }
    }

    /// Makes the staged generation the present one: every cell with a staged
    /// state takes it, every other cell keeps its state, and nothing is left
    /// staged.
    pub fn commit(&mut self)
        ensures
            final(self).wf(),
            final(self).current() == committed(old(self).current(), old(self).staged()),
            final(self).staged() == nothing_staged(old(self).staged().len()),
        no_unwind
    {
        proof {
            use_type_invariant(&*self);
        }
        let n: usize = self.current.len();
        let mut i: usize = 0;
        while i < n
            invariant
                i <= n,
                self.current@.len() == n,
                self.staged@.len() == n,
                old(self).current@.len() == n,
                old(self).staged@.len() == n,
                forall|j: int|
                    0 <= j < i ==> #[trigger] self.current@[j] == committed(
                        old(self).current@,
                        old(self).staged@,
                    )[j],
                forall|j: int| 0 <= j < i ==> #[trigger] self.staged@[j] is None,
                forall|j: int| i <= j < n ==> #[trigger] self.current@[j] == old(self).current@[j],
                forall|j: int| i <= j < n ==> #[trigger] self.staged@[j] == old(self).staged@[j],
            decreases n - i,
        {
            if let Some(alive) = self.staged[i] {
                self.current[i] = alive;
                self.staged[i] = None;
            }
            i += 1;
        }
        assert(self.current@ =~= committed(old(self).current@, old(self).staged@));
        assert(self.staged@ =~= nothing_staged(old(self).staged@.len()));
    }
}

impl Clone for GridStorage {
    /// A storage with the same cells and the same staged states.
    fn clone(&self) -> (g: GridStorage)
        ensures
            g.wf(),
            g.current() == self.current(),
            g.staged() == self.staged(),
    {
        proof {
            use_type_invariant(self);
        }
        let current: Vec<bool> = self.current.clone();
        let staged: Vec<Option<bool>> = self.staged.clone();
        assert(current@ =~= self.current@);
        assert(staged@ =~= self.staged@);
        GridStorage { current, staged }
    }
}

} // verus!
