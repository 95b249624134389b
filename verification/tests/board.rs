use conway_gol::board::{Board, CellCoord, BOARD_SIZE, MAX_BOARD_SIZE};
use conway_gol::neighbours::NeighbourTable;

fn uvec2(x: u32, y: u32) -> CellCoord {
    CellCoord { x, y }
}

#[test]
fn board_works() {
    let board = Board::new(8).unwrap();

    assert_eq!(64, board.cell_count());

    let pos1_1 = uvec2(1, 1);
    assert_eq!(9, board.cell_coord_to_idx(pos1_1));
    assert_eq!(0, board.cell_coord_to_idx(uvec2(8, 8)));
    assert_eq!(7, board.cell_coord_to_idx(uvec2(7, 8)));
    assert_eq!(56, board.cell_coord_to_idx(uvec2(8, 7)));
    assert_eq!(uvec2(7, 7), board.idx_to_cell_coord(63));

    let neigh1_1 = board.neighbour_indices(pos1_1);
    let expected_1_1 = [
        board.cell_coord_to_idx(uvec2(0, 0)),
        board.cell_coord_to_idx(uvec2(1, 0)),
        board.cell_coord_to_idx(uvec2(2, 0)),
        board.cell_coord_to_idx(uvec2(0, 1)),
        board.cell_coord_to_idx(uvec2(2, 1)),
        board.cell_coord_to_idx(uvec2(0, 2)),
        board.cell_coord_to_idx(uvec2(1, 2)),
        board.cell_coord_to_idx(uvec2(2, 2)),
    ];
    assert_eq!(expected_1_1, neigh1_1);

    let neigh0_1 = board.neighbour_indices(uvec2(0, 1));
    let expected_0_1 = [
        board.cell_coord_to_idx(uvec2(7, 0)),
        board.cell_coord_to_idx(uvec2(0, 0)),
        board.cell_coord_to_idx(uvec2(1, 0)),
        board.cell_coord_to_idx(uvec2(7, 1)),
        board.cell_coord_to_idx(uvec2(1, 1)),
        board.cell_coord_to_idx(uvec2(7, 2)),
        board.cell_coord_to_idx(uvec2(0, 2)),
        board.cell_coord_to_idx(uvec2(1, 2)),
    ];
    assert_eq!(expected_0_1, neigh0_1);
}

#[test]
fn board_size_limits() {
    assert!(Board::new(0).is_none());
    assert!(Board::new(1).is_some());
    assert!(Board::new(MAX_BOARD_SIZE).is_some());
    assert!(Board::new(MAX_BOARD_SIZE + 1).is_none());
    assert!(Board::new(u32::MAX).is_none());
    assert_eq!(65535, MAX_BOARD_SIZE);
}

#[test]
fn board_size_and_cell_count() {
    let board = Board::new(8).unwrap();
    assert_eq!(8, board.size());
    assert_eq!(64, board.cell_count());
    let largest = Board::new(MAX_BOARD_SIZE).unwrap();
    assert_eq!(4_294_836_225, largest.cell_count());
    assert_eq!(1, Board::new(1).unwrap().cell_count());
}

#[test]
fn default_board_has_default_size() {
    let board = Board::default();
    assert_eq!(128, BOARD_SIZE);
    assert_eq!(BOARD_SIZE, board.size());
    assert_eq!(128 * 128, board.cell_count());
}

#[test]
fn has_cell_tells_the_board_from_beyond() {
    let board = Board::new(8).unwrap();
    assert!(board.has_cell(uvec2(0, 0)));
    assert!(board.has_cell(uvec2(7, 7)));
    assert!(!board.has_cell(uvec2(8, 0)));
    assert!(!board.has_cell(uvec2(0, 8)));
    assert!(!board.has_cell(uvec2(u32::MAX, u32::MAX)));
}

#[test]
fn coord_to_idx_is_row_major() {
    let board = Board::new(5).unwrap();
    assert_eq!(0, board.cell_coord_to_idx(uvec2(0, 0)));
    assert_eq!(4, board.cell_coord_to_idx(uvec2(4, 0)));
    assert_eq!(5, board.cell_coord_to_idx(uvec2(0, 1)));
    assert_eq!(17, board.cell_coord_to_idx(uvec2(2, 3)));
    assert_eq!(24, board.cell_coord_to_idx(uvec2(4, 4)));
}

#[test]
fn coord_to_idx_reduces_coordinates_beyond_the_board() {
    let board = Board::new(5).unwrap();
    assert_eq!(17, board.cell_coord_to_idx(uvec2(7, 8)));
    assert_eq!(0, board.cell_coord_to_idx(uvec2(5, 5)));
    // u32::MAX = 4294967295 = 5 * 858993459, so it reduces to 0.
    assert_eq!(0, board.cell_coord_to_idx(uvec2(u32::MAX, u32::MAX)));
    let largest = Board::new(MAX_BOARD_SIZE).unwrap();
    assert_eq!(
        4_294_836_224,
        largest.cell_coord_to_idx(uvec2(MAX_BOARD_SIZE - 1, MAX_BOARD_SIZE - 1))
    );
}

#[test]
fn idx_to_coord_splits_into_column_and_row() {
    let board = Board::new(5).unwrap();
    assert_eq!(uvec2(0, 0), board.idx_to_cell_coord(0));
    assert_eq!(uvec2(2, 3), board.idx_to_cell_coord(17));
    assert_eq!(uvec2(4, 4), board.idx_to_cell_coord(24));
}

#[test]
fn idx_to_coord_beyond_the_board_leaves_the_board() {
    let board = Board::new(8).unwrap();
    assert_eq!(uvec2(0, 8), board.idx_to_cell_coord(64));
    assert_eq!(uvec2(1, 12), board.idx_to_cell_coord(97));
    assert!(!board.has_cell(board.idx_to_cell_coord(64)));
}

#[test]
fn idx_to_coord_takes_the_index_in_32_bits() {
    let board = Board::new(8).unwrap();
    if usize::BITS > 32 {
        let idx = (1u64 << 32) as usize + 9;
        assert_eq!(uvec2(1, 1), board.idx_to_cell_coord(idx));
    }
    let last = u32::MAX as usize;
    assert_eq!(uvec2(7, 536_870_911), board.idx_to_cell_coord(last));
}

#[test]
fn round_trip_from_coordinates() {
    for n in [1u32, 2, 3, 8, 17] {
        let board = Board::new(n).unwrap();
        for y in 0..n {
            for x in 0..n {
                let idx = board.cell_coord_to_idx(uvec2(x, y));
                assert_eq!((y * n + x) as usize, idx);
                assert_eq!(uvec2(x, y), board.idx_to_cell_coord(idx));
            }
        }
    }
}

#[test]
fn round_trip_from_indices() {
    for n in [1u32, 2, 3, 8, 17] {
        let board = Board::new(n).unwrap();
        for idx in 0..board.cell_count() {
            let coord = board.idx_to_cell_coord(idx);
            assert!(board.has_cell(coord));
            assert_eq!(idx, board.cell_coord_to_idx(coord));
        }
    }
}

#[test]
fn round_trip_on_the_largest_board() {
    let board = Board::new(MAX_BOARD_SIZE).unwrap();
    for coord in [uvec2(0, 0), uvec2(65534, 0), uvec2(0, 65534), uvec2(65534, 65534), uvec2(12345, 54321)] {
        let idx = board.cell_coord_to_idx(coord);
        assert_eq!(coord.y as usize * 65535 + coord.x as usize, idx);
        assert_eq!(coord, board.idx_to_cell_coord(idx));
    }
}

#[test]
fn neighbours_are_distinct_and_in_range() {
    for n in [3u32, 4, 8, 11] {
        let board = Board::new(n).unwrap();
        for idx in 0..board.cell_count() {
            let around = board.neighbour_indices(board.idx_to_cell_coord(idx));
            for j in 0..8 {
                assert!(around[j] < board.cell_count());
                assert_ne!(idx, around[j]);
                for k in 0..j {
                    assert_ne!(around[j], around[k]);
                }
            }
        }
    }
}

#[test]
fn neighbours_on_small_boards_stay_in_range() {
    let one = Board::new(1).unwrap();
    assert_eq!([0usize; 8], one.neighbour_indices(uvec2(0, 0)));
    let two = Board::new(2).unwrap();
    // On two columns both the step left and the step right lead to the other column.
    assert_eq!([3usize, 2, 3, 1, 1, 3, 2, 3], two.neighbour_indices(uvec2(0, 0)));
    assert_eq!([0usize, 1, 0, 2, 2, 0, 1, 0], two.neighbour_indices(uvec2(1, 1)));
}

#[test]
fn left_edge_wraps_to_the_right_edge() {
    let board = Board::new(8).unwrap();
    let around = board.neighbour_indices(uvec2(0, 1));
    assert!(around.contains(&board.cell_coord_to_idx(uvec2(7, 0))));
    assert!(around.contains(&board.cell_coord_to_idx(uvec2(7, 1))));
    assert!(around.contains(&board.cell_coord_to_idx(uvec2(7, 2))));
    assert_eq!([7usize, 0, 1, 15, 9, 23, 16, 17], around);
}

#[test]
fn corners_wrap_on_both_axes() {
    let board = Board::new(8).unwrap();
    assert_eq!([63usize, 56, 57, 7, 1, 15, 8, 9], board.neighbour_indices(uvec2(0, 0)));
    assert_eq!([54usize, 55, 48, 62, 56, 6, 7, 0], board.neighbour_indices(uvec2(7, 7)));
}

#[test]
fn neighbours_come_row_by_row() {
    let board = Board::new(8).unwrap();
    assert_eq!([18usize, 19, 20, 26, 28, 34, 35, 36], board.neighbour_indices(uvec2(3, 3)));
}

#[test]
fn neighbours_of_a_position_beyond_the_board() {
    let board = Board::new(8).unwrap();
    // One step beyond the high edge: the step back lands on the edge, the rest wraps to 0.
    assert_eq!([7usize, 0, 0, 15, 8, 23, 16, 16], board.neighbour_indices(uvec2(8, 1)));
    // Far beyond on both axes everything wraps to cell 0.
    assert_eq!([0usize; 8], board.neighbour_indices(uvec2(100, 100)));
    assert_eq!([0usize; 8], board.neighbour_indices(uvec2(u32::MAX, u32::MAX)));
}

#[test]
fn table_holds_the_neighbours_of_every_cell() {
    let board = Board::new(8).unwrap();
    let table = NeighbourTable::new(board);
    assert_eq!(64, table.len());
    assert_eq!(board, table.board());
    for idx in 0..table.len() {
        let expected = board.neighbour_indices(board.idx_to_cell_coord(idx));
        assert_eq!(expected, table.neighbours(idx));
    }
    assert_eq!([7usize, 0, 1, 15, 9, 23, 16, 17], table.neighbours(8));
}

#[test]
fn table_of_the_smallest_board() {
    let table = NeighbourTable::new(Board::new(1).unwrap());
    assert_eq!(1, table.len());
    assert_eq!([0usize; 8], table.neighbours(0));
}
