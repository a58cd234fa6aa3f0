use game_of_life::game::{Board, Square};

fn blinker_pattern() -> Vec<Vec<bool>> {
    vec![
        vec![false, true, false],
        vec![false, true, false],
        vec![false, true, false],
    ]
}

fn liveness(board: &Board) -> Vec<Vec<bool>> {
    board
        .board
        .iter()
        .map(|row| row.iter().map(|cell| cell.alive).collect())
        .collect()
}

fn assert_positions(board: &Board) {
    assert_eq!(board.board.len(), board.rows);
    for (i, row) in board.board.iter().enumerate() {
        assert_eq!(row.len(), board.cols);
        for (j, cell) in row.iter().enumerate() {
            assert_eq!(cell.row, i);
            assert_eq!(cell.col, j);
        }
    }
}

#[test]
fn test_assign_board_from_vec() {
    let blinker_vec = vec![
        vec![false, true, false],
        vec![false, true, false],
        vec![false, true, false],
    ];
    let blinker = Board::from_vec(blinker_vec);

    assert_eq!(blinker.rows, 3);
    assert_eq!(blinker.cols, 3);
    assert!(!blinker.board.is_empty());

    assert_eq!(blinker.board[1][0].alive, false);
    assert_eq!(blinker.board[0][1].alive, true);
}

#[test]
fn test_init_from_empty_vec() {
    let empty = Board::from_vec(vec![]);

    assert_eq!(empty.rows, 0);
    assert_eq!(empty.cols, 0);
    assert!(empty.board.is_empty());
}

#[test]
fn test_init_empty_board() {
    let with_size = Board::with_size(8, 24);

    assert_eq!(with_size.rows, 8);
    assert_eq!(with_size.cols, 24);
    assert!(!with_size.board.is_empty());
    for row in with_size.board {
        for cell in row {
            assert!(
                !cell.alive,
                "Verifying cells are initialized as dead, cell ({},{}) wasn't",
                cell.row,
                cell.col
            );
        }
    }
}

#[test]
fn test_advance_state() {
    let blinker_vec = vec![
        vec![false, true, false],
        vec![false, true, false],
        vec![false, true, false],
    ];
    let mut blinker = Board::from_vec(blinker_vec);

    blinker.advance_state();

    assert_eq!(blinker.board[1][0].alive, true);
    assert_eq!(blinker.board[0][1].alive, false);

    blinker.advance_state();

    assert_eq!(blinker.board[1][0].alive, false);
    assert_eq!(blinker.board[0][1].alive, true);
}

#[test]
fn set_cell_out_of_bounds() {
    let blinker_vec = vec![
        vec![false, true, false],
        vec![false, true, false],
        vec![false, true, false],
    ];
    let mut blinker = Board::from_vec(blinker_vec);

    let res = blinker.set_cell(10, 12, true);
    assert_eq!(res, Err("Index out of range"));
}

#[test]
fn verify_extend_board() {
    let blinker_vec = vec![
        vec![false, true, false],
        vec![false, true, false],
        vec![false, true, false],
    ];
    let mut blinker = Board::from_vec(blinker_vec);

    blinker.resize_board(10, 12);

    assert_eq!(blinker.rows, 10, "Expected {}, found {}", 10, blinker.rows);
    assert_eq!(blinker.board.len(), 10);
    assert_eq!(blinker.cols, 12, "Expected {}, found {}", 12, blinker.cols);
    assert_eq!(blinker.board[0].len(), 12);

    assert!(blinker.board[9][11].alive == false);

    for (i, row) in blinker.board.iter().enumerate() {
        for (j, cell) in row.iter().enumerate() {
            assert!(cell.row == i);
            assert!(cell.col == j);
        }
    }
}

#[test]
fn verify_shrink_board() {
    let blinker_vec = vec![
        vec![false, true, false, false, false, false],
        vec![false, true, false, false, false, false],
        vec![false, true, false, false, false, false],
        vec![false, true, false, false, false, false],
        vec![false, true, false, false, false, false],
        vec![false, true, false, false, false, false],
    ];
    let mut blinker = Board::from_vec(blinker_vec);

    blinker.resize_board(3, 4);

    assert_eq!(blinker.rows, 3, "Expected {}, found {}", 3, blinker.rows);
    assert_eq!(blinker.board.len(), 3);
    assert_eq!(blinker.cols, 4, "Expected {}, found {}", 4, blinker.cols);
    assert_eq!(blinker.board[0].len(), 4);

    assert!(blinker.board[0][1].alive);

    for (i, row) in blinker.board.iter().enumerate() {
        for (j, cell) in row.iter().enumerate() {
            assert!(cell.row == i);
            assert!(cell.col == j);
        }
    }
}

#[test]
fn with_size_cells_are_dead_and_know_their_place() {
    let board = Board::with_size(4, 7);
    assert_eq!(board.rows, 4);
    assert_eq!(board.cols, 7);
    assert_positions(&board);
    for row in &board.board {
        for cell in row {
            assert!(!cell.alive);
            assert_eq!(cell.neighbours_alive, 0);
        }
    }
}

#[test]
fn with_size_zero_rows_or_columns_is_empty() {
    let no_rows = Board::with_size(0, 5);
    assert_eq!((no_rows.rows, no_rows.cols), (0, 5));
    assert!(no_rows.board.is_empty());
    assert_eq!(no_rows.to_string(), "");

    let no_cols = Board::with_size(3, 0);
    assert_eq!((no_cols.rows, no_cols.cols), (3, 0));
    assert_eq!(no_cols.board.len(), 3);
    assert!(no_cols.board.iter().all(|row| row.is_empty()));
    assert_eq!(no_cols.to_string(), "\n\n\n");
}

#[test]
fn from_vec_round_trips_a_rectangular_pattern() {
    let pattern = vec![
        vec![true, false, false, true],
        vec![false, false, true, true],
    ];
    let board = Board::from_vec(pattern.clone());
    assert_eq!(board.rows, 2);
    assert_eq!(board.cols, 4);
    assert_eq!(liveness(&board), pattern);
    assert_positions(&board);
}

#[test]
fn from_vec_takes_the_width_of_the_first_row() {
    let board = Board::from_vec(vec![
        vec![true, true],
        vec![true],
        vec![false, true, true],
    ]);
    assert_eq!(board.rows, 3);
    assert_eq!(board.cols, 2);
    assert_eq!(
        liveness(&board),
        vec![vec![true, true], vec![true, false], vec![false, true]]
    );
    assert_positions(&board);
}

#[test]
fn set_board_replaces_cells_and_dimensions() {
    let mut board = Board::with_size(5, 5);
    board.set_board(vec![vec![true, false], vec![false, true], vec![true, true]]);
    assert_eq!(board.rows, 3);
    assert_eq!(board.cols, 2);
    assert_eq!(
        liveness(&board),
        vec![vec![true, false], vec![false, true], vec![true, true]]
    );
    assert_positions(&board);
}

#[test]
fn blinker_oscillates_with_period_two() {
    let mut blinker = Board::from_vec(blinker_pattern());

    blinker.advance_state();
    assert_eq!(
        liveness(&blinker),
        vec![
            vec![false, false, false],
            vec![true, true, true],
            vec![false, false, false],
        ]
    );

    blinker.advance_state();
    assert_eq!(liveness(&blinker), blinker_pattern());
    assert_positions(&blinker);
}

#[test]
fn block_is_a_still_life() {
    let pattern = vec![
        vec![false, false, false, false],
        vec![false, true, true, false],
        vec![false, true, true, false],
        vec![false, false, false, false],
    ];
    let mut block = Board::from_vec(pattern.clone());
    block.advance_state();
    assert_eq!(liveness(&block), pattern);
}

#[test]
fn advance_stores_the_neighbour_counts_of_the_generation_left() {
    let mut blinker = Board::from_vec(blinker_pattern());
    blinker.advance_state();
    let counts: Vec<Vec<u32>> = blinker
        .board
        .iter()
        .map(|row| row.iter().map(|cell| cell.neighbours_alive).collect())
        .collect();
    assert_eq!(counts, vec![vec![2, 1, 2], vec![3, 2, 3], vec![2, 1, 2]]);
}

#[test]
fn advance_on_an_empty_board_does_nothing() {
    let mut empty = Board::from_vec(vec![]);
    empty.advance_state();
    assert_eq!((empty.rows, empty.cols), (0, 0));
    assert!(empty.board.is_empty());
}

#[test]
fn lone_cell_dies_and_three_neighbours_give_birth() {
    let mut board = Board::from_vec(vec![
        vec![true, true, false],
        vec![true, false, false],
        vec![false, false, true],
    ]);
    board.advance_state();
    assert_eq!(
        liveness(&board),
        vec![
            vec![true, true, false],
            vec![true, false, false],
            vec![false, false, false],
        ]
    );
}

#[test]
fn crowded_cell_dies() {
    let mut board = Board::from_vec(vec![
        vec![true, true, true],
        vec![true, true, false],
        vec![false, false, false],
    ]);
    board.advance_state();
    assert_eq!(
        liveness(&board),
        vec![
            vec![true, false, true],
            vec![true, false, true],
            vec![false, false, false],
        ]
    );
}

#[test]
fn set_cell_rejects_the_first_index_past_each_edge() {
    let mut blinker = Board::from_vec(blinker_pattern());
    assert_eq!(blinker.set_cell(3, 0, true), Err("Index out of range"));
    assert_eq!(blinker.set_cell(0, 3, true), Err("Index out of range"));
    assert_eq!(blinker.set_cell(3, 3, true), Err("Index out of range"));
    assert_eq!(liveness(&blinker), blinker_pattern());
}

#[test]
fn set_cell_changes_only_the_cell_addressed() {
    let mut blinker = Board::from_vec(blinker_pattern());
    assert_eq!(blinker.set_cell(2, 2, true), Ok(()));
    assert_eq!(blinker.set_cell(0, 1, false), Ok(()));
    assert_eq!(
        liveness(&blinker),
        vec![
            vec![false, false, false],
            vec![false, true, false],
            vec![false, true, true],
        ]
    );
    assert_positions(&blinker);
}

#[test]
fn set_cell_on_an_empty_board_is_out_of_range() {
    let mut empty = Board::with_size(0, 0);
    assert_eq!(empty.set_cell(0, 0, true), Err("Index out of range"));
}

#[test]
fn resize_grow_keeps_the_blinker() {
    let mut blinker = Board::from_vec(blinker_pattern());
    blinker.resize_board(10, 12);
    assert_eq!((blinker.rows, blinker.cols), (10, 12));
    assert!(blinker.board[0][1].alive);
    assert!(!blinker.board[9][11].alive);
    assert_positions(&blinker);
    for (i, row) in liveness(&blinker).iter().enumerate() {
        for (j, alive) in row.iter().enumerate() {
            assert_eq!(*alive, i < 3 && j == 1);
        }
    }
}

#[test]
fn resize_to_the_same_size_changes_nothing() {
    let mut blinker = Board::from_vec(blinker_pattern());
    blinker.advance_state();
    let cells_before: Vec<Vec<Square>> = blinker.board.clone();
    blinker.resize_board(3, 3);
    assert_eq!((blinker.rows, blinker.cols), (3, 3));
    assert_eq!(blinker.board, cells_before);
}

#[test]
fn resize_can_shrink_columns_while_growing_rows() {
    let mut blinker = Board::from_vec(blinker_pattern());
    blinker.resize_board(5, 2);
    assert_eq!((blinker.rows, blinker.cols), (5, 2));
    assert_positions(&blinker);
    assert_eq!(
        liveness(&blinker),
        vec![
            vec![false, true],
            vec![false, true],
            vec![false, true],
            vec![false, false],
            vec![false, false],
        ]
    );
}

#[test]
fn resize_can_shrink_rows_while_growing_columns() {
    let mut blinker = Board::from_vec(blinker_pattern());
    blinker.resize_board(2, 5);
    assert_eq!((blinker.rows, blinker.cols), (2, 5));
    assert_positions(&blinker);
    assert_eq!(
        liveness(&blinker),
        vec![
            vec![false, true, false, false, false],
            vec![false, true, false, false, false],
        ]
    );
}

#[test]
fn resize_rows_then_columns_equals_columns_then_rows() {
    let mut direct = Board::from_vec(blinker_pattern());
    direct.resize_board(5, 2);

    let mut rows_first = Board::from_vec(blinker_pattern());
    rows_first.resize_board(5, 3);
    rows_first.resize_board(5, 2);

    let mut cols_first = Board::from_vec(blinker_pattern());
    cols_first.resize_board(3, 2);
    cols_first.resize_board(5, 2);

    assert_eq!(rows_first.board, direct.board);
    assert_eq!(cols_first.board, direct.board);
}

#[test]
fn resize_from_and_to_nothing() {
    let mut board = Board::with_size(0, 0);
    board.resize_board(2, 3);
    assert_eq!((board.rows, board.cols), (2, 3));
    assert_positions(&board);
    assert_eq!(liveness(&board), vec![vec![false; 3]; 2]);

    board.resize_board(0, 0);
    assert_eq!((board.rows, board.cols), (0, 0));
    assert!(board.board.is_empty());
}

#[test]
fn neighbours_at_the_corner_are_a_two_by_two_block() {
    let board = Board::from_vec(vec![
        vec![true, true, true],
        vec![true, true, true],
        vec![true, true, true],
    ]);
    let around = board.get_neighbours(0, 0);
    let places: Vec<(usize, usize)> = around.iter().map(|cell| (cell.row, cell.col)).collect();
    assert_eq!(places, vec![(0, 0), (0, 1), (1, 0), (1, 1)]);
    assert_eq!(board.board[0][0].count_living_neighbours(&board), 3);
}

#[test]
fn neighbours_in_the_middle_are_the_whole_block() {
    let board = Board::from_vec(vec![
        vec![true, true, true],
        vec![true, true, true],
        vec![true, true, true],
    ]);
    let around = board.get_neighbours(1, 1);
    let places: Vec<(usize, usize)> = around.iter().map(|cell| (cell.row, cell.col)).collect();
    assert_eq!(
        places,
        vec![(0, 0), (0, 1), (0, 2), (1, 0), (1, 1), (1, 2), (2, 0), (2, 1), (2, 2)]
    );
    assert_eq!(board.board[1][1].count_living_neighbours(&board), 8);
    assert_eq!(board.board[2][1].count_living_neighbours(&board), 5);
}

#[test]
fn neighbours_on_a_single_cell_board() {
    let board = Board::from_vec(vec![vec![true]]);
    assert_eq!(board.get_neighbours(0, 0).len(), 1);
    assert_eq!(board.board[0][0].count_living_neighbours(&board), 0);
}

#[test]
fn neighbours_beyond_the_board() {
    let board = Board::from_vec(blinker_pattern());
    assert!(board.get_neighbours(7, 7).is_empty());
    assert!(board.get_neighbours(usize::MAX, usize::MAX).is_empty());
    let below: Vec<(usize, usize)> = board
        .get_neighbours(3, 1)
        .iter()
        .map(|cell| (cell.row, cell.col))
        .collect();
    assert_eq!(below, vec![(2, 0), (2, 1), (2, 2)]);
}

#[test]
fn a_foreign_cell_excludes_nothing() {
    let board = Board::from_vec(blinker_pattern());
    let stranger = Square { alive: false, row: 1, col: 1, neighbours_alive: 0 };
    assert_eq!(stranger.count_living_neighbours(&board), 3);
    assert_eq!(board.board[1][1].count_living_neighbours(&board), 2);
}

#[test]
fn update_status_follows_the_rule() {
    for n in 0..=8u32 {
        let mut live = Square { alive: true, row: 0, col: 0, neighbours_alive: n };
        live.update_status();
        assert_eq!(live.alive, n == 2 || n == 3);
        assert_eq!(live.neighbours_alive, n);

        let mut dead = Square { alive: false, row: 4, col: 9, neighbours_alive: n };
        dead.update_status();
        assert_eq!(dead.alive, n == 3);
        assert_eq!((dead.row, dead.col), (4, 9));
    }
}

#[test]
fn to_string_draws_one_line_per_row() {
    let blinker = Board::from_vec(blinker_pattern());
    assert_eq!(
        blinker.to_string(),
        "\u{2592}\u{2588}\u{2592}\n\u{2592}\u{2588}\u{2592}\n\u{2592}\u{2588}\u{2592}\n"
    );
    let empty = Board::from_vec(vec![]);
    assert_eq!(empty.to_string(), "");
}

#[test]
fn is_well_formed_tells_a_board_from_a_jagged_one() {
    let mut board = Board::from_vec(blinker_pattern());
    assert!(board.is_well_formed());
    assert!(Board::with_size(0, 5).is_well_formed());

    board.board[1].pop();
    assert!(!board.is_well_formed());

    let mut board = Board::from_vec(blinker_pattern());
    board.rows = 4;
    assert!(!board.is_well_formed());

    let mut board = Board::from_vec(blinker_pattern());
    board.board[2][1].col = 2;
    assert!(!board.is_well_formed());

    let mut board = Board::from_vec(blinker_pattern());
    board.board[2][1].row = 0;
    assert!(!board.is_well_formed());
}

#[test]
fn default_board_and_cell() {
    let board = Board::default();
    assert_eq!((board.rows, board.cols), (0, 0));
    assert!(board.board.is_empty());
    assert!(board.is_well_formed());
    assert_eq!(
        Square::default(),
        Square { alive: false, row: 0, col: 0, neighbours_alive: 0 }
    );
}
