//! The advance of one generation: first the next state of every cell is
//! worked out from the present generation and staged, then everything staged
//! is committed at once.

use vstd::prelude::*;
use crate::error::LifeError;
use crate::grid::{committed, nothing_staged, GridStorage};
use crate::neighbours::NeighbourTable;

verus! {

/// How many of the first `k` cells listed in `around` are alive in `current`.
pub open spec fn live_among(current: Seq<bool>, around: Seq<usize>, k: int) -> int
    decreases k,
{
    if k <= 0 {
        0
    } else {
        live_among(current, around, k - 1) + if current[around[k - 1] as int] {
            1int
        } else {
            0int
        }
    }
}

/// How many of the cells listed in `around` are alive in `current`.
pub open spec fn live_neighbours(current: Seq<bool>, around: Seq<usize>) -> int {
    live_among(current, around, around.len() as int)
}

/// What the rule stages for a cell with `count` live neighbours: with three
/// the cell lives, with two nothing is staged, with any other number it dies.
pub open spec fn rule(count: int) -> Option<bool> {
    if count == 3 {
        Some(true)
    } else if count == 2 {
        None
    } else {
        Some(false)
    }
}

/// Whether a cell lives in the next generation: it does with three live
/// neighbours, and with two if it lives now.
pub open spec fn next_alive(alive: bool, count: int) -> bool {
    count == 3 || (count == 2 && alive)
}

/// The staged buffer after the rule has been applied to every cell of
/// `current`: where the rule stages a state it stands, elsewhere what was
/// staged before stays.
pub open spec fn staged_generation(
    current: Seq<bool>,
    staged: Seq<Option<bool>>,
    table: Seq<Seq<usize>>,
) -> Seq<Option<bool>> {
    Seq::new(
        staged.len(),
        |i: int|
            match rule(live_neighbours(current, table[i])) {
                Some(alive) => Some(alive),
                None => staged[i],
            },
    )
}

/// The generation that follows `current` on a grid whose neighbours are given
/// by `table`.
pub open spec fn next_generation(current: Seq<bool>, table: Seq<Seq<usize>>) -> Seq<bool> {
    Seq::new(current.len(), |i: int| next_alive(current[i], live_neighbours(current, table[i])))
}

/// Where none of the first `k` cells listed is alive, the count is zero.
pub proof fn lemma_live_among_none(current: Seq<bool>, around: Seq<usize>, k: int)
    requires
        0 <= k <= around.len(),
        forall|j: int| 0 <= j < k ==> !current[#[trigger] around[j] as int],
    ensures
        live_among(current, around, k) == 0,
    decreases k,
{
    if k > 0 {
        lemma_live_among_none(current, around, k - 1);
    }
}

/// A cell with no live cell around it is dead in the next generation,
/// whether it was alive or not.
pub proof fn lemma_isolated_cell_dies(current: Seq<bool>, table: Seq<Seq<usize>>, i: int)
    requires
        0 <= i < current.len(),
        forall|k: int| 0 <= k < table[i].len() ==> !current[#[trigger] table[i][k] as int],
    ensures
        !next_generation(current, table)[i],
{
    lemma_live_among_none(current, table[i], table[i].len() as int);
}

/// The rule, cell by cell: in the next generation a cell with three live
/// neighbours is alive, a cell with two is as it was, and a cell with any
/// other number of live neighbours is dead.
pub proof fn lemma_next_generation_rule(current: Seq<bool>, table: Seq<Seq<usize>>, i: int)
    requires
        0 <= i < current.len(),
    ensures
        next_generation(current, table).len() == current.len(),
        live_neighbours(current, table[i]) == 3 ==> next_generation(current, table)[i],
        live_neighbours(current, table[i]) == 2 ==> next_generation(current, table)[i]
            == current[i],
        live_neighbours(current, table[i]) != 2 && live_neighbours(current, table[i]) != 3
            ==> !next_generation(current, table)[i],
{
}

/// Staging by the rule with nothing staged before, then committing, gives the
/// next generation: to stage nothing for a cell with two live neighbours is
/// to let it keep its state.
pub proof fn lemma_stage_then_commit(current: Seq<bool>, table: Seq<Seq<usize>>)
    ensures
        committed(current, staged_generation(current, nothing_staged(current.len()), table))
            == next_generation(current, table),
{
    assert(committed(current, staged_generation(current, nothing_staged(current.len()), table))
        =~= next_generation(current, table));
}

/// What the rule stages for a cell with `count` live neighbours.
pub fn rule_for(count: u8) -> (staged: Option<bool>)
    ensures
        staged == rule(count as int),
    no_unwind
{
    if count == 3 {
        Some(true)
    } else if count == 2 {
        None
    } else {
        Some(false)
    }
}

/// Counts the live cells among the eight listed in `around`.
fn count_live(grid: &GridStorage, around: &[usize; 8]) -> (count: u8)
    requires
        forall|k: int| 0 <= k < 8 ==> #[trigger] around@[k] < grid.current().len(),
    ensures
        count == live_neighbours(grid.current(), around@),
        count <= 8,
    no_unwind
{
    let mut count: u8 = 0;
    let mut k: usize = 0;
    while k < 8
        invariant
            k <= 8,
            count <= k,
            count == live_among(grid.current(), around@, k as int),
            forall|j: int| 0 <= j < 8 ==> #[trigger] around@[j] < grid.current().len(),
        decreases 8 - k,
    {
        if grid.is_alive(around[k]) {
            count += 1;
        }
        k += 1;
    }
    count
}

/// The first phase: applies the rule to every cell of the present generation
/// and stages the outcome. Only the staged buffer is written, so every count
/// is taken from the same generation.
///
/// The table must be that of a board with as many cells as the storage has;
/// otherwise nothing is staged and the mismatch is reported.
pub fn compute(grid: &mut GridStorage, table: &NeighbourTable) -> (r: Result<(), LifeError>)
    ensures
        final(grid).wf(),
        final(grid).current() == old(grid).current(),
        old(grid).current().len() == table.spec_board().spec_cell_count() ==> {
            &&& r == Ok::<(), LifeError>(())
            &&& final(grid).staged() == staged_generation(
                old(grid).current(),
                old(grid).staged(),
                table.entries(),
            )
        },
        old(grid).current().len() != table.spec_board().spec_cell_count() ==> {
            &&& r == Err::<(), LifeError>(LifeError::InvalidIndex)
            &&& final(grid).staged() == old(grid).staged()
        },
    no_unwind
{
    let n: usize = grid.len();
    if n != table.len() {
        return Err(LifeError::InvalidIndex);
    }
    let mut i: usize = 0;
    while i < n
        invariant
            i <= n,
            grid.wf(),
            table.wf(),
            n == table.spec_board().spec_cell_count(),
            grid.current() == old(grid).current(),
            grid.current().len() == n,
            grid.staged().len() == n,
            old(grid).staged().len() == n,
            forall|j: int|
                0 <= j < i ==> #[trigger] grid.staged()[j] == staged_generation(
                    old(grid).current(),
                    old(grid).staged(),
                    table.entries(),
                )[j],
            forall|j: int| i <= j < n ==> #[trigger] grid.staged()[j] == old(grid).staged()[j],
        decreases n - i,
    {
        let around: [usize; 8] = table.neighbours(i);
        let count: u8 = count_live(grid, &around);
        match rule_for(count) {
            Some(alive) => {
                let _ = grid.stage(i, alive);
            },
            None => {},
        }
        i += 1;
    }
    assert(grid.staged() =~= staged_generation(
        old(grid).current(),
        old(grid).staged(),
        table.entries(),
    ));
    Ok(())
}

/// Advances the grid by one generation: the rule is applied to every cell of
/// the present generation, and only then is the outcome committed, all of it.
/// With nothing staged beforehand the grid ends in the next generation, with
/// nothing staged again.
///
/// The table must be that of a board with as many cells as the storage has;
/// otherwise the grid stays as it is and the mismatch is reported.
pub fn step(grid: &mut GridStorage, table: &NeighbourTable) -> (r: Result<(), LifeError>)
    ensures
        final(grid).wf(),
        old(grid).current().len() == table.spec_board().spec_cell_count() ==> {
            &&& r == Ok::<(), LifeError>(())
            &&& final(grid).current() == committed(
                old(grid).current(),
                staged_generation(old(grid).current(), old(grid).staged(), table.entries()),
            )
            &&& final(grid).staged() == nothing_staged(old(grid).staged().len())
            &&& old(grid).staged() == nothing_staged(old(grid).staged().len())
                ==> final(grid).current() == next_generation(
                old(grid).current(),
                table.entries(),
            )
        },
        old(grid).current().len() != table.spec_board().spec_cell_count() ==> {
            &&& r == Err::<(), LifeError>(LifeError::InvalidIndex)
            &&& final(grid).current() == old(grid).current()
            &&& final(grid).staged() == old(grid).staged()
        },
    no_unwind
{
    match compute(grid, table) {
        Ok(()) => {
            grid.commit();
            proof {
                lemma_stage_then_commit(old(grid).current(), table.entries());
            }
            Ok(())
        },
        Err(e) => Err(e),
    }
}

} // verus!
