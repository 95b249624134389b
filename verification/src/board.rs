//! The board: how many cells it has on each axis, how they are numbered, and
//! which cells lie around a cell once the edges are joined.

use vstd::prelude::*;
use vstd::arithmetic::div_mod::lemma_fundamental_div_mod_converse;

verus! {

/// The number of cells on each axis of the board a game has by default.
pub const BOARD_SIZE: u32 = 128;

/// The largest number of cells per axis a board can have. The cells of a board
/// are numbered in 32 bits, and the square of this is the largest that fits.
pub const MAX_BOARD_SIZE: u32 = 65535;

/// A cell's position: `x` counts columns, `y` counts rows.
#[derive(Debug, Clone, Copy, PartialEq, Eq, Hash, Structural)]
pub struct CellCoord {
    pub x: u32,
    pub y: u32,
}

/// Whether a board can have `n` cells on each axis.
pub open spec fn valid_size(n: int) -> bool {
    0 < n <= MAX_BOARD_SIZE
}

/// The number of the cell in column `x` of row `y` on a board of `n` cells per
/// axis. Rows are numbered one after the other; a column or row beyond the
/// board is first reduced modulo `n`.
pub open spec fn linear_index(n: int, x: int, y: int) -> int {
    (y % n) * n + (x % n)
}

/// Where a position that went one step along an axis of length `n` ends up:
/// a step off the low edge comes back in at the high edge, a step off the high
/// edge at the low edge.
pub open spec fn wrap_axis(v: int, n: int) -> int {
    if v < 0 {
        n - 1
    } else if v >= n {
        0
    } else {
        v
    }
}

/// The place of the `k`-th neighbour in the 3×3 block around a cell, the block
/// read row by row. The block's centre, place 4, is the cell itself and is
/// passed over.
pub open spec fn neighbour_slot(k: int) -> int {
    if k < 4 {
        k
    } else {
        k + 1
    }
}

/// The step along the columns that leads to the `k`-th neighbour.
pub open spec fn offset_x(k: int) -> int {
    neighbour_slot(k) % 3 - 1
}

/// The step along the rows that leads to the `k`-th neighbour.
pub open spec fn offset_y(k: int) -> int {
    neighbour_slot(k) / 3 - 1
}

/// The eight steps in their order: the row above from left to right, then
/// left and right in the cell's own row, then the row below from left to
/// right.
pub proof fn lemma_offsets()
    ensures
        offset_x(0) == -1 && offset_y(0) == -1,
        offset_x(1) == 0 && offset_y(1) == -1,
        offset_x(2) == 1 && offset_y(2) == -1,
        offset_x(3) == -1 && offset_y(3) == 0,
        offset_x(4) == 1 && offset_y(4) == 0,
        offset_x(5) == -1 && offset_y(5) == 1,
        offset_x(6) == 0 && offset_y(6) == 1,
        offset_x(7) == 1 && offset_y(7) == 1,
{
}

/// A cell number lies in `0 .. n * n`, whatever the column and row.
pub proof fn lemma_linear_index_bounds(n: int, x: int, y: int)
    requires
        0 < n,
    ensures
        0 <= linear_index(n, x, y) < n * n,
{
    let r: int = y % n;
    let c: int = x % n;
    assert(0 <= r <= n - 1 && 0 <= c < n);
    assert(0 <= r * n && r * n <= (n - 1) * n && (n - 1) * n == n * n - n) by (nonlinear_arith)
        requires
            0 <= r <= n - 1,
            0 < n,
    ;
}

/// Within the board a cell number gives back its column and row: the column
/// is the remainder by `n`, the row the quotient.
pub proof fn lemma_linear_index_inverse(n: int, x: int, y: int)
    requires
        0 <= x < n,
        0 <= y < n,
    ensures
        linear_index(n, x, y) == y * n + x,
        linear_index(n, x, y) % n == x,
        linear_index(n, x, y) / n == y,
{
    vstd::arithmetic::div_mod::lemma_small_mod(x as nat, n as nat);
    vstd::arithmetic::div_mod::lemma_small_mod(y as nat, n as nat);
    lemma_fundamental_div_mod_converse(y * n + x, n, y, x);
}

/// A square board of `size` by `size` cells whose edges wrap around.
#[derive(Debug, Clone, Copy, PartialEq, Eq, Structural)]
pub struct Board {
    size: u32,
}

impl Board {
    /// The number of cells on each axis.
    pub closed spec fn spec_size(self) -> int {
        self.size as int
    }

    /// Every board has at least one cell per axis and at most `MAX_BOARD_SIZE`.
    #[verifier::type_invariant]
    pub open spec fn wf(self) -> bool {
        valid_size(self.spec_size())
    }

    /// The number of cells of the board.
    pub open spec fn spec_cell_count(self) -> int {
        self.spec_size() * self.spec_size()
    }

    /// Whether `coord` names a cell of the board.
    pub open spec fn contains(self, coord: CellCoord) -> bool {
        coord.x < self.spec_size() && coord.y < self.spec_size()
    }

    /// The number of the cell at `coord`.
    pub open spec fn coord_to_idx(self, coord: CellCoord) -> int {
        linear_index(self.spec_size(), coord.x as int, coord.y as int)
    }

    /// The position of cell number `idx`. Like every cell number the index is
    /// taken in 32 bits; the column is its remainder by the size, the row the
    /// quotient.
    pub open spec fn idx_to_coord(self, idx: usize) -> CellCoord {
        let low: int = idx as int % 0x1_0000_0000;
        CellCoord {
            x: (low % self.spec_size()) as u32,
            y: (low / self.spec_size()) as u32,
        }
    }

    /// The number of the `k`-th cell around `coord`: one step from `coord`
    /// along each axis, each axis wrapped by itself.
    pub open spec fn neighbour(self, coord: CellCoord, k: int) -> int {
        linear_index(
            self.spec_size(),
            wrap_axis(coord.x + offset_x(k), self.spec_size()),
            wrap_axis(coord.y + offset_y(k), self.spec_size()),
        )
    }

    /// The numbers of the eight cells around `coord`, the 3×3 block read row
    /// by row with its centre left out.
    pub open spec fn neighbours_of(self, coord: CellCoord) -> Seq<usize> {
        Seq::new(8, |k: int| self.neighbour(coord, k) as usize)
    }

    /// A board of `size` cells per axis, where there is one: the size must be
    /// positive and at most `MAX_BOARD_SIZE`.
    pub fn new(size: u32) -> (b: Option<Board>)
        ensures
            b is Some <==> valid_size(size as int),
            b is Some ==> b->0.spec_size() == size && b->0.wf(),
    {
        if size == 0 || size > MAX_BOARD_SIZE {
            None
        } else {
            Some(Board { size })
        }
    }

    /// The number of cells on each axis.
    pub fn size(&self) -> (n: u32)
        ensures
            n == self.spec_size(),
            self.wf(),
    {
        proof {
            use_type_invariant(self);
        }
        self.size
    }

    /// The number of cells of the board.
    pub fn cell_count(&self) -> (n: usize)
        ensures
            n == self.spec_cell_count(),
            0 < n <= MAX_BOARD_SIZE * MAX_BOARD_SIZE,
            self.wf(),
    {
        proof {
            use_type_invariant(self);
            lemma_square_fits(self.size as int);
        }
        let n: usize = self.size as usize;
        n * n
    }

    /// Whether `coord` names a cell of the board.
    pub fn has_cell(&self, coord: CellCoord) -> (b: bool)
        ensures
            b == self.contains(coord),
    {
        coord.x < self.size && coord.y < self.size
    }

    /// The number of the cell at `coord`. A coordinate beyond the board is
    /// reduced modulo the size on each axis.
    pub fn cell_coord_to_idx(&self, cell_coord: CellCoord) -> (idx: usize)
        ensures
            idx == self.coord_to_idx(cell_coord),
            idx < self.spec_cell_count(),
            self.contains(cell_coord) ==> idx == cell_coord.y * self.spec_size() + cell_coord.x,
    {
        proof {
            use_type_invariant(self);
            let n: int = self.size as int;
            lemma_linear_index_bounds(n, cell_coord.x as int, cell_coord.y as int);
            lemma_square_fits(n);
            if self.contains(cell_coord) {
                lemma_linear_index_inverse(n, cell_coord.x as int, cell_coord.y as int);
            }
            let r: int = cell_coord.y as int % n;
            assert(0 <= r * n <= n * n) by (nonlinear_arith)
                requires
                    0 <= r < n,
            ;
        }
        let row: u32 = cell_coord.y % self.size;
        let col: u32 = cell_coord.x % self.size;
        let idx: u32 = row * self.size + col;
        idx as usize
    }

    /// The position of cell number `idx`.
    pub fn idx_to_cell_coord(&self, idx: usize) -> (coord: CellCoord)
        ensures
            coord == self.idx_to_coord(idx),
            idx < self.spec_cell_count() ==> self.contains(coord) && coord.x == idx as int
                % self.spec_size() && coord.y == idx as int / self.spec_size(),
    {
        proof {
            use_type_invariant(self);
            let n: int = self.size as int;
            lemma_square_fits(n);
            if idx < n * n {
                assert(idx as int / n < n) by (nonlinear_arith)
                    requires
                        0 <= idx < n * n,
                        0 < n,
                ;
            }
        }
        let wide: u64 = idx as u64;
        let low: u32 = (wide % 0x1_0000_0000u64) as u32;
        CellCoord { x: low % self.size, y: low / self.size }
    }

    /// Moves `v` by `step - 1` along an axis and wraps it.
    fn wrapped(&self, v: u32, step: u8) -> (w: u32)
        requires
            step < 3,
        ensures
            w == wrap_axis(v + step - 1, self.spec_size()),
            w < self.spec_size(),
    {
        proof {
            use_type_invariant(self);
        }
        let pos: i64 = v as i64 + step as i64 - 1;
        if pos < 0 {
            self.size - 1
        } else if pos >= self.size as i64 {
            0
        } else {
            pos as u32
        }
    }

    /// The numbers of the eight cells around `cell_coord`, edges joined: the
    /// 3×3 block around the cell read row by row, its centre left out.
    pub fn neighbour_indices(&self, cell_coord: CellCoord) -> (result: [usize; 8])
        ensures
            result@ == self.neighbours_of(cell_coord),
            forall|k: int|
                0 <= k < 8 ==> #[trigger] result@[k] == self.neighbour(cell_coord, k)
                    && result@[k] < self.spec_cell_count(),
            self.spec_size() >= 3 && self.contains(cell_coord) ==> forall|j: int, k: int|
                0 <= j < k < 8 ==> #[trigger] result@[j] != #[trigger] result@[k],
    {
        let mut result: [usize; 8] = [0; 8];
        let mut k: usize = 0;
        while k < 8
            invariant
                0 <= k <= 8,
                forall|j: int|
                    0 <= j < k ==> #[trigger] result@[j] == self.neighbour(cell_coord, j)
                        && result@[j] < self.spec_cell_count(),
            decreases 8 - k,
        {
            let slot: u8 = if k < 4 {
                k as u8
            } else {
                (k + 1) as u8
            };
            let x: u32 = self.wrapped(cell_coord.x, slot % 3);
            let y: u32 = self.wrapped(cell_coord.y, slot / 3);
            let idx: usize = self.cell_coord_to_idx(CellCoord { x, y });
            result[k] = idx;
            k += 1;
        }
        proof {
            use_type_invariant(self);
            assert(result@ =~= self.neighbours_of(cell_coord));
            if self.spec_size() >= 3 && self.contains(cell_coord) {
                assert forall|j: int, k: int| 0 <= j < k < 8 implies #[trigger] result@[j]
                    != #[trigger] result@[k] by {
                    self.lemma_neighbours_distinct(cell_coord, j, k);
                }
            }
        }
        result
    }

    /// A board has at least one cell, and its cells can be counted in 32 bits.
    pub proof fn lemma_wf_count(self)
        requires
            self.wf(),
        ensures
            0 < self.spec_cell_count() <= MAX_BOARD_SIZE * MAX_BOARD_SIZE,
            self.spec_cell_count() <= u32::MAX,
            self.spec_cell_count() <= usize::MAX,
    {
        lemma_square_fits(self.spec_size());
    }

    /// Numbering a cell of the board and reading the number back gives the
    /// cell's own position.
    pub proof fn lemma_coord_round_trip(self, coord: CellCoord)
        requires
            self.wf(),
            self.contains(coord),
        ensures
            0 <= self.coord_to_idx(coord) < self.spec_cell_count(),
            self.idx_to_coord(self.coord_to_idx(coord) as usize) == coord,
    {
        let n: int = self.spec_size();
        lemma_linear_index_bounds(n, coord.x as int, coord.y as int);
        lemma_linear_index_inverse(n, coord.x as int, coord.y as int);
        lemma_square_fits(n);
    }

    /// Reading the position of a cell number of the board and numbering it
    /// again gives the number back, and the position lies on the board.
    pub proof fn lemma_idx_round_trip(self, idx: usize)
        requires
            self.wf(),
            idx < self.spec_cell_count(),
        ensures
            self.contains(self.idx_to_coord(idx)),
            self.coord_to_idx(self.idx_to_coord(idx)) == idx,
    {
        let n: int = self.spec_size();
        lemma_square_fits(n);
        let i: int = idx as int;
        assert(i / n < n && 0 <= i / n) by (nonlinear_arith)
            requires
                0 <= i < n * n,
                0 < n,
        ;
        vstd::arithmetic::div_mod::lemma_fundamental_div_mod(i, n);
        lemma_linear_index_inverse(n, i % n, i / n);
        assert(n * (i / n) == (i / n) * n) by (nonlinear_arith);
    }

    /// Each of the eight neighbours of any position is a cell of the board.
    pub proof fn lemma_neighbours_in_range(self, coord: CellCoord, k: int)
        requires
            self.wf(),
            0 <= k < 8,
        ensures
            0 <= self.neighbour(coord, k) < self.spec_cell_count(),
            self.neighbours_of(coord)[k] == self.neighbour(coord, k),
    {
        let n: int = self.spec_size();
        lemma_linear_index_bounds(
            n,
            wrap_axis(coord.x + offset_x(k), n),
            wrap_axis(coord.y + offset_y(k), n),
        );
        lemma_square_fits(n);
    }

    /// On a board of at least three cells per axis, the eight neighbours of a
    /// cell of the board are eight different cells, and none is the cell
    /// itself.
    pub proof fn lemma_neighbours_distinct(self, coord: CellCoord, j: int, k: int)
        requires
            self.wf(),
            self.spec_size() >= 3,
            self.contains(coord),
            0 <= j < 8,
            0 <= k < 8,
            j != k,
        ensures
            self.neighbour(coord, j) != self.neighbour(coord, k),
            self.neighbour(coord, j) != self.coord_to_idx(coord),
            self.neighbours_of(coord)[j] != self.neighbours_of(coord)[k],
    {
        let n: int = self.spec_size();
        let xj: int = wrap_axis(coord.x + offset_x(j), n);
        let yj: int = wrap_axis(coord.y + offset_y(j), n);
        let xk: int = wrap_axis(coord.x + offset_x(k), n);
        let yk: int = wrap_axis(coord.y + offset_y(k), n);
        lemma_linear_index_inverse(n, xj, yj);
        lemma_linear_index_inverse(n, xk, yk);
        lemma_linear_index_inverse(n, coord.x as int, coord.y as int);
        self.lemma_neighbours_in_range(coord, j);
        self.lemma_neighbours_in_range(coord, k);
        assert(xj != xk || yj != yk);
        assert(xj != coord.x || yj != coord.y);
    }
}

/// The square of a valid size fits in 32 bits, and so in a `usize`.
proof fn lemma_square_fits(n: int)
    requires
        valid_size(n),
    ensures
        0 < n * n <= MAX_BOARD_SIZE * MAX_BOARD_SIZE,
        MAX_BOARD_SIZE * MAX_BOARD_SIZE == 4294836225,
        n * n <= u32::MAX,
        n * n <= usize::MAX,
{
    assert(0 < n * n <= 65535 * 65535) by (nonlinear_arith)
        requires
            0 < n <= 65535,
    ;
}

impl Default for Board {
    /// The board of `BOARD_SIZE` cells per axis.
    fn default() -> (b: Board)
        ensures
            b.spec_size() == BOARD_SIZE,
            b.wf(),
    {
        Board { size: BOARD_SIZE }
    }
}

} // verus!
