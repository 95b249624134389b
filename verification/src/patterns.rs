//! How a known pattern evolves: the blinker, three cells in a row that turn
//! upright in one generation and back in the next.

use vstd::prelude::*;
use crate::board::{lemma_offsets, offset_x, offset_y, wrap_axis, Board, CellCoord};
use crate::neighbours::{lemma_table_entry, lemma_table_entry_position, neighbour_table};
use crate::stepper::{live_among, next_alive, next_generation};

verus! {

/// One where `alive`, zero where not.
pub open spec fn one_if(alive: bool) -> int {
    if alive {
        1
    } else {
        0
    }
}

/// Whether the cell in column `x` of row `y` is one of the three cells of
/// the blinker around column `cx` of row `cy` on a board of `n` cells per
/// axis, edges joined. An upright blinker stands in the column of its
/// centre, the other lies along its row.
pub open spec fn blinker_at(n: int, cx: int, cy: int, upright: bool, x: int, y: int) -> bool {
    if upright {
        x == cx && (y == cy || y == wrap_axis(cy - 1, n) || y == wrap_axis(cy + 1, n))
    } else {
        y == cy && (x == cx || x == wrap_axis(cx - 1, n) || x == wrap_axis(cx + 1, n))
    }
}

/// Whether `coord` is one of the three cells of the blinker around `centre`.
pub open spec fn in_blinker(
    board: Board,
    centre: CellCoord,
    upright: bool,
    coord: CellCoord,
) -> bool {
    blinker_at(
        board.spec_size(),
        centre.x as int,
        centre.y as int,
        upright,
        coord.x as int,
        coord.y as int,
    )
}

/// How many of the first `k` cells around column `x` of row `y` belong to
/// the blinker, the cells around taken in the order of the neighbours.
pub open spec fn blinker_among(
    n: int,
    cx: int,
    cy: int,
    upright: bool,
    x: int,
    y: int,
    k: int,
) -> int
    decreases k,
{
    if k <= 0 {
        0
    } else {
        blinker_among(n, cx, cy, upright, x, y, k - 1) + one_if(
            blinker_at(
                n,
                cx,
                cy,
                upright,
                wrap_axis(x + offset_x(k - 1), n),
                wrap_axis(y + offset_y(k - 1), n),
            ),
        )
    }
}

/// How many of the eight cells around column `x` of row `y` belong to the
/// blinker.
pub open spec fn blinker_around(n: int, cx: int, cy: int, upright: bool, x: int, y: int) -> int {
    blinker_among(n, cx, cy, upright, x, y, 8)
}

/// The count around a cell, written out position by position: the row
/// above from left to right, the two cells beside, the row below.
proof fn lemma_blinker_around(n: int, cx: int, cy: int, upright: bool, x: int, y: int)
    requires
        0 <= x < n,
        0 <= y < n,
    ensures
        blinker_around(n, cx, cy, upright, x, y) == ({
            let l: int = wrap_axis(x - 1, n);
            let r: int = wrap_axis(x + 1, n);
            let u: int = wrap_axis(y - 1, n);
            let d: int = wrap_axis(y + 1, n);
            one_if(blinker_at(n, cx, cy, upright, l, u)) + one_if(
                blinker_at(n, cx, cy, upright, x, u),
            ) + one_if(blinker_at(n, cx, cy, upright, r, u)) + one_if(
                blinker_at(n, cx, cy, upright, l, y),
            ) + one_if(blinker_at(n, cx, cy, upright, r, y)) + one_if(
                blinker_at(n, cx, cy, upright, l, d),
            ) + one_if(blinker_at(n, cx, cy, upright, x, d)) + one_if(
                blinker_at(n, cx, cy, upright, r, d),
            )
        }),
{
    reveal_with_fuel(blinker_among, 9);
    lemma_offsets();
}

/// The rule applied to one cell of a board that holds a blinker and nothing
/// else: the cell lives on exactly if it belongs to the blinker turned by a
/// quarter.
proof fn lemma_blinker_rule(n: int, cx: int, cy: int, upright: bool, x: int, y: int)
    requires
        n >= 4,
        0 <= cx < n,
        0 <= cy < n,
        0 <= x < n,
        0 <= y < n,
    ensures
        next_alive(
            blinker_at(n, cx, cy, upright, x, y),
            blinker_around(n, cx, cy, upright, x, y),
        ) == blinker_at(n, cx, cy, !upright, x, y),
{
    lemma_blinker_around(n, cx, cy, upright, x, y);
}

/// The generation in which the three cells of the blinker around `centre`
/// are alive and no other cell is.
pub open spec fn blinker(board: Board, centre: CellCoord, upright: bool) -> Seq<bool> {
    Seq::new(
        board.spec_cell_count() as nat,
        |i: int| in_blinker(board, centre, upright, board.idx_to_coord(i as usize)),
    )
}

/// Whether the `k`-th neighbour of cell number `i` is alive in a blinker: it
/// is if the position one step from the cell belongs to the blinker.
proof fn lemma_blinker_neighbour(board: Board, centre: CellCoord, upright: bool, i: int, k: int)
    requires
        board.wf(),
        0 <= i < board.spec_cell_count(),
        0 <= k < 8,
    ensures
        blinker(board, centre, upright)[neighbour_table(board)[i][k] as int] == blinker_at(
            board.spec_size(),
            centre.x as int,
            centre.y as int,
            upright,
            wrap_axis(board.idx_to_coord(i as usize).x + offset_x(k), board.spec_size()),
            wrap_axis(board.idx_to_coord(i as usize).y + offset_y(k), board.spec_size()),
        ),
{
    lemma_table_entry_position(board, i, k);
}

/// The live cells among the first `k` neighbours of cell number `i` in a
/// blinker are the cells of the blinker among the first `k` positions around
/// the cell.
proof fn lemma_blinker_count(board: Board, centre: CellCoord, upright: bool, i: int, k: int)
    requires
        board.wf(),
        0 <= i < board.spec_cell_count(),
        0 <= k <= 8,
    ensures
        live_among(blinker(board, centre, upright), neighbour_table(board)[i], k) == blinker_among(
            board.spec_size(),
            centre.x as int,
            centre.y as int,
            upright,
            board.idx_to_coord(i as usize).x as int,
            board.idx_to_coord(i as usize).y as int,
            k,
        ),
    decreases k,
{
    if k > 0 {
        lemma_blinker_count(board, centre, upright, i, k - 1);
        lemma_blinker_neighbour(board, centre, upright, i, k - 1);
    }
}

/// One cell of a blinker's next generation: it is the cell of the blinker
/// turned by a quarter.
proof fn lemma_blinker_cell(board: Board, centre: CellCoord, upright: bool, i: int)
    requires
        board.wf(),
        board.spec_size() >= 4,
        board.contains(centre),
        0 <= i < board.spec_cell_count(),
    ensures
        next_generation(blinker(board, centre, upright), neighbour_table(board))[i] == blinker(
            board,
            centre,
            !upright,
        )[i],
{
    let p = board.idx_to_coord(i as usize);
    board.lemma_idx_round_trip(i as usize);
    lemma_table_entry(board, i, 0);
    lemma_blinker_count(board, centre, upright, i, 8);
    lemma_blinker_rule(
        board.spec_size(),
        centre.x as int,
        centre.y as int,
        upright,
        p.x as int,
        p.y as int,
    );
}

/// A blinker turns by a quarter with every generation: on a board of at
/// least four cells per axis, the generation after a blinker is the blinker
/// around the same centre in the other orientation.
pub proof fn lemma_blinker_turns(board: Board, centre: CellCoord, upright: bool)
    requires
        board.wf(),
        board.spec_size() >= 4,
        board.contains(centre),
    ensures
        next_generation(blinker(board, centre, upright), neighbour_table(board)) == blinker(
            board,
            centre,
            !upright,
        ),
{
    let next = next_generation(blinker(board, centre, upright), neighbour_table(board));
    let turned = blinker(board, centre, !upright);
    board.lemma_wf_count();
    assert forall|i: int| 0 <= i < next.len() implies next[i] == turned[i] by {
        lemma_blinker_cell(board, centre, upright, i);
    }
    assert(next =~= turned);
}

/// A blinker has period two: on a board of at least four cells per axis,
/// two generations after a blinker the same blinker is back.
pub proof fn lemma_blinker_period_two(board: Board, centre: CellCoord, upright: bool)
    requires
        board.wf(),
        board.spec_size() >= 4,
        board.contains(centre),
    ensures
        next_generation(
            next_generation(blinker(board, centre, upright), neighbour_table(board)),
            neighbour_table(board),
        ) == blinker(board, centre, upright),
        next_generation(blinker(board, centre, upright), neighbour_table(board)) != blinker(
            board,
            centre,
            upright,
        ),
{
    lemma_blinker_turns(board, centre, upright);
    lemma_blinker_turns(board, centre, !upright);
    // The cell beside the centre along the blinker is alive in one orientation only.
    let n: int = board.spec_size();
    let beside = if upright {
        CellCoord { x: centre.x, y: wrap_axis(centre.y + 1, n) as u32 }
    } else {
        CellCoord { x: wrap_axis(centre.x + 1, n) as u32, y: centre.y }
    };
    board.lemma_coord_round_trip(beside);
    let j: int = board.coord_to_idx(beside);
    assert(blinker(board, centre, upright)[j]);
    assert(!blinker(board, centre, !upright)[j]);
}

} // verus!
