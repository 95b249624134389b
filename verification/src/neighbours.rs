//! The neighbour table: for every cell the numbers of the eight cells around
//! it, worked out once from the board and looked up from then on.

use vstd::prelude::*;
use crate::board::{
    lemma_linear_index_inverse, linear_index, offset_x, offset_y, wrap_axis, Board,
};

verus! {

/// The table of a board: entry `i` holds the numbers of the eight cells around
/// cell number `i`.
pub open spec fn neighbour_table(board: Board) -> Seq<Seq<usize>> {
    Seq::new(
        board.spec_cell_count() as nat,
        |i: int| board.neighbours_of(board.idx_to_coord(i as usize)),
    )
}

/// Every entry of a board's table has eight numbers, each the number of a cell
/// of the board.
pub proof fn lemma_table_entry(board: Board, i: int, k: int)
    requires
        board.wf(),
        0 <= i < board.spec_cell_count(),
        0 <= k < 8,
    ensures
        neighbour_table(board).len() == board.spec_cell_count(),
        neighbour_table(board)[i].len() == 8,
        neighbour_table(board)[i][k] < board.spec_cell_count(),
        neighbour_table(board)[i][k] == board.neighbour(board.idx_to_coord(i as usize), k),
{
    board.lemma_neighbours_in_range(board.idx_to_coord(i as usize), k);
}

/// Where the `k`-th number of an entry leads: to the cell one step from the
/// entry's own cell along each axis, each axis wrapped by itself.
pub proof fn lemma_table_entry_position(board: Board, i: int, k: int)
    requires
        board.wf(),
        0 <= i < board.spec_cell_count(),
        0 <= k < 8,
    ensures
        0 <= neighbour_table(board)[i][k] < board.spec_cell_count(),
        board.idx_to_coord(neighbour_table(board)[i][k]).x == wrap_axis(
            board.idx_to_coord(i as usize).x + offset_x(k),
            board.spec_size(),
        ),
        board.idx_to_coord(neighbour_table(board)[i][k]).y == wrap_axis(
            board.idx_to_coord(i as usize).y + offset_y(k),
            board.spec_size(),
        ),
{
    let n: int = board.spec_size();
    let p = board.idx_to_coord(i as usize);
    lemma_table_entry(board, i, k);
    board.lemma_idx_round_trip(i as usize);
    board.lemma_wf_count();
    let x: int = wrap_axis(p.x + offset_x(k), n);
    let y: int = wrap_axis(p.y + offset_y(k), n);
    lemma_linear_index_inverse(n, x, y);
    assert(neighbour_table(board)[i][k] == linear_index(n, x, y));
}

/// On a board of at least three cells per axis, the eight numbers of an entry
/// are eight different cells, none of them the entry's own cell.
pub proof fn lemma_table_entry_distinct(board: Board, i: int, j: int, k: int)
    requires
        board.wf(),
        board.spec_size() >= 3,
        0 <= i < board.spec_cell_count(),
        0 <= j < 8,
        0 <= k < 8,
        j != k,
    ensures
        neighbour_table(board)[i][j] != neighbour_table(board)[i][k],
        neighbour_table(board)[i][j] != i,
{
    lemma_table_entry(board, i, j);
    lemma_table_entry(board, i, k);
    board.lemma_idx_round_trip(i as usize);
    board.lemma_neighbours_distinct(board.idx_to_coord(i as usize), j, k);
}

/// The neighbours of every cell of one board. The table is filled when it is
/// made and never changes.
#[derive(Debug)]
pub struct NeighbourTable {
    board: Board,
    table: Vec<[usize; 8]>,
}

impl NeighbourTable {
    /// The board the table was made for.
    pub closed spec fn spec_board(self) -> Board {
        self.board
    }

    /// The entries, one per cell, each as the sequence of its eight numbers.
    pub closed spec fn entries(self) -> Seq<Seq<usize>> {
        Seq::new(self.table@.len(), |i: int| self.table@[i]@)
    }

    /// The entries are those of the board's table.
    #[verifier::type_invariant]
    pub open spec fn wf(self) -> bool {
        &&& self.spec_board().wf()
        &&& self.entries() == neighbour_table(self.spec_board())
    }

    /// Works out the table of `board`.
    pub fn new(board: Board) -> (t: NeighbourTable)
        ensures
            t.wf(),
            t.spec_board() == board,
    {
        let count: usize = board.cell_count();
        let mut table: Vec<[usize; 8]> = Vec::new();
        let mut i: usize = 0;
        while i < count
            invariant
                i <= count,
                count == board.spec_cell_count(),
                table@.len() == i,
                forall|j: int|
                    0 <= j < i ==> (#[trigger] table@[j])@ == board.neighbours_of(
                        board.idx_to_coord(j as usize),
                    ),
            decreases count - i,
        {
            let coord = board.idx_to_cell_coord(i);
            let entry: [usize; 8] = board.neighbour_indices(coord);
            table.push(entry);
            i += 1;
        }
        proof {
            board.lemma_wf_count();
            assert(Seq::new(table@.len(), |i: int| table@[i]@) =~= neighbour_table(board));
        }
        NeighbourTable { board, table }
    }

    /// The board the table was made for.
    pub fn board(&self) -> (b: Board)
        ensures
            b == self.spec_board(),
            self.wf(),
    {
        proof {
            use_type_invariant(self);
        }
        self.board
    }

    /// The number of cells the table has an entry for.
    pub fn len(&self) -> (n: usize)
        ensures
            n == self.spec_board().spec_cell_count(),
            n == self.entries().len(),
            self.wf(),
        no_unwind
    {
        proof {
            use_type_invariant(self);
            assert(self.entries().len() == self.table@.len());
            assert(neighbour_table(self.spec_board()).len() == self.spec_board().spec_cell_count());
        }
        self.table.len()
    }

    /// The numbers of the eight cells around cell number `idx`.
    pub fn neighbours(&self, idx: usize) -> (r: [usize; 8])
        requires
            idx < self.spec_board().spec_cell_count(),
        ensures
            r@ == self.entries()[idx as int],
            r@ == self.spec_board().neighbours_of(self.spec_board().idx_to_coord(idx)),
            forall|k: int| 0 <= k < 8 ==> #[trigger] r@[k] < self.spec_board().spec_cell_count(),
            self.spec_board().spec_size() >= 3 ==> forall|j: int, k: int|
                0 <= j < k < 8 ==> #[trigger] r@[j] != #[trigger] r@[k],
        no_unwind
    {
        proof {
            use_type_invariant(self);
            assert(self.entries().len() == self.table@.len());
            assert(neighbour_table(self.spec_board()).len() == self.spec_board().spec_cell_count());
            assert(self.entries()[idx as int] == self.table@[idx as int]@);
            assert forall|k: int| 0 <= k < 8 implies #[trigger] self.entries()[idx as int][k]
                < self.spec_board().spec_cell_count() by {
                lemma_table_entry(self.spec_board(), idx as int, k);
            }
            if self.spec_board().spec_size() >= 3 {
                let entry = self.entries()[idx as int];
                assert forall|j: int, k: int| 0 <= j < k < 8 implies #[trigger] entry[j]
                    != #[trigger] entry[k] by {
                    lemma_table_entry_distinct(self.spec_board(), idx as int, j, k);
                }
            }
        }
        self.table[idx]
    }
}

} // verus!
