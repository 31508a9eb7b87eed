use sudoku_validator::flag::ValidityFlag;
use sudoku_validator::group::{cell_position, check_group, Grid, GroupKind};
use sudoku_validator::validator::{all_groups, verdict_message, GridError, SudokuValidator};

fn solved() -> Grid {
    [
        [6, 2, 4, 5, 3, 9, 1, 8, 7],
        [5, 1, 9, 7, 2, 8, 6, 3, 4],
        [8, 3, 7, 6, 1, 4, 2, 9, 5],
        [1, 4, 3, 8, 6, 5, 7, 2, 9],
        [9, 5, 8, 2, 4, 7, 3, 6, 1],
        [7, 6, 2, 3, 9, 1, 4, 5, 8],
        [3, 7, 1, 9, 5, 6, 8, 4, 2],
        [4, 9, 6, 1, 8, 2, 5, 7, 3],
        [2, 8, 5, 4, 7, 3, 9, 1, 6],
    ]
}

const KINDS: [GroupKind; 3] = [GroupKind::Row, GroupKind::Column, GroupKind::Subgrid];

#[test]
fn solved_grid_is_valid() {
    assert!(SudokuValidator::new(solved()).validate());
}

#[test]
fn solved_grid_passes_every_group() {
    let g = solved();
    for kind in KINDS {
        for index in 0..9 {
            assert!(check_group(&g, kind, index));
        }
    }
}

#[test]
fn duplicate_in_first_row_is_invalid() {
    let mut g = solved();
    g[0][0] = g[0][1];
    let v = SudokuValidator::new(g);
    assert!(!v.check_group(GroupKind::Row, 0));
    assert!(!v.validate());
}

#[test]
fn swapping_first_two_cells_of_a_row_keeps_the_row_valid() {
    let mut g = solved();
    let t = g[0][0];
    g[0][0] = g[0][1];
    g[0][1] = t;
    let v = SudokuValidator::new(g);
    assert!(v.check_group(GroupKind::Row, 0));
    assert!(v.check_group(GroupKind::Subgrid, 0));
}

#[test]
fn zero_in_last_cell_is_invalid() {
    let mut g = solved();
    g[8][8] = 0;
    let v = SudokuValidator::new(g);
    assert!(!v.validate());
    assert!(!v.check_group(GroupKind::Row, 8));
    assert!(!v.check_group(GroupKind::Column, 8));
    assert!(!v.check_group(GroupKind::Subgrid, 8));
    assert!(v.check_group(GroupKind::Row, 0));
}

#[test]
fn ten_in_first_cell_is_invalid() {
    let mut g = solved();
    g[0][0] = 10;
    assert!(!SudokuValidator::new(g).validate());
    assert!(!check_group(&g, GroupKind::Row, 0));
    assert!(!check_group(&g, GroupKind::Column, 0));
    assert!(!check_group(&g, GroupKind::Subgrid, 0));
}

#[test]
fn largest_cell_value_is_invalid() {
    let mut g = solved();
    g[4][4] = 255;
    assert!(!SudokuValidator::new(g).validate());
    assert!(!check_group(&g, GroupKind::Subgrid, 4));
}

#[test]
fn all_nines_grid_is_invalid() {
    let g: Grid = [[9; 9]; 9];
    assert!(!SudokuValidator::new(g).validate());
    for kind in KINDS {
        for index in 0..9 {
            assert!(!check_group(&g, kind, index));
        }
    }
}

#[test]
fn every_duplicate_in_every_group_is_caught() {
    for kind in KINDS {
        for index in 0..9 {
            for p in 0..9 {
                for q in 0..9 {
                    if p == q {
                        continue;
                    }
                    let mut g = solved();
                    let (rp, cp) = cell_position(kind, index, p);
                    let (rq, cq) = cell_position(kind, index, q);
                    g[rp][cp] = g[rq][cq];
                    assert!(!check_group(&g, kind, index));
                    assert!(!SudokuValidator::new(g).validate());
                }
            }
        }
    }
}

#[test]
fn every_out_of_range_value_is_caught() {
    for kind in KINDS {
        for index in 0..9 {
            for p in 0..9 {
                for bad in [0u8, 10, 11, 200] {
                    let mut g = solved();
                    let (r, c) = cell_position(kind, index, p);
                    g[r][c] = bad;
                    assert!(!check_group(&g, kind, index));
                }
            }
        }
    }
}

#[test]
fn permuted_row_passes_its_own_check() {
    let mut g = solved();
    g[3] = [9, 8, 7, 6, 5, 4, 3, 2, 1];
    assert!(check_group(&g, GroupKind::Row, 3));
    assert!(!check_group(&g, GroupKind::Column, 0));
}

#[test]
fn relabelled_grid_is_valid() {
    let mut g = solved();
    for row in g.iter_mut() {
        for cell in row.iter_mut() {
            *cell = 10 - *cell;
        }
    }
    assert!(SudokuValidator::new(g).validate());
}

#[test]
fn any_order_of_group_checks_agrees() {
    let mut bad = solved();
    bad[5][2] = bad[5][7];
    for g in [solved(), bad] {
        let v = SudokuValidator::new(g);
        let mut groups = all_groups();
        groups.reverse();
        let mut flag = ValidityFlag::new();
        for (kind, index) in groups {
            flag.record(v.check_group(kind, index));
        }
        assert_eq!(flag.is_valid(), v.validate());
    }
}

#[test]
fn validate_twice_gives_the_same_result() {
    let mut bad = solved();
    bad[0][0] = 1;
    for g in [solved(), bad] {
        let v = SudokuValidator::new(g);
        let first = v.validate();
        let second = v.validate();
        assert_eq!(first, second);
        assert_eq!(SudokuValidator::new(g).validate(), first);
    }
}

#[test]
fn all_groups_lists_each_group_once() {
    let groups = all_groups();
    assert_eq!(groups.len(), 27);
    assert_eq!(groups[0], (GroupKind::Row, 0));
    assert_eq!(groups[9], (GroupKind::Column, 0));
    assert_eq!(groups[26], (GroupKind::Subgrid, 8));
    for (i, a) in groups.iter().enumerate() {
        for b in groups.iter().skip(i + 1) {
            assert_ne!(a, b);
        }
    }
}

#[test]
fn subgrid_positions() {
    assert_eq!(cell_position(GroupKind::Subgrid, 0, 0), (0, 0));
    assert_eq!(cell_position(GroupKind::Subgrid, 4, 4), (4, 4));
    assert_eq!(cell_position(GroupKind::Subgrid, 5, 7), (5, 7));
    assert_eq!(cell_position(GroupKind::Subgrid, 7, 2), (6, 5));
    assert_eq!(cell_position(GroupKind::Row, 2, 6), (2, 6));
    assert_eq!(cell_position(GroupKind::Column, 2, 6), (6, 2));
}

#[test]
fn flag_never_turns_back_to_true() {
    let mut flag = ValidityFlag::new();
    assert!(flag.is_valid());
    flag.record(true);
    assert!(flag.is_valid());
    flag.record(false);
    assert!(!flag.is_valid());
    flag.record(true);
    flag.record(false);
    flag.record(true);
    assert!(!flag.is_valid());
}

#[test]
fn rows_of_the_right_shape_are_taken() {
    let rows: Vec<Vec<u8>> = solved().iter().map(|r| r.to_vec()).collect();
    let v = SudokuValidator::from_rows(&rows).unwrap();
    assert!(v.validate());
    let mut bad = rows.clone();
    bad[2][3] = 0;
    assert!(!SudokuValidator::from_rows(&bad).unwrap().validate());
}

#[test]
fn wrong_shape_is_refused() {
    let rows: Vec<Vec<u8>> = solved().iter().map(|r| r.to_vec()).collect();
    let mut short = rows.clone();
    short.pop();
    assert_eq!(SudokuValidator::from_rows(&short).unwrap_err(), GridError::InvalidDimensions);
    let mut ragged = rows.clone();
    ragged[4].push(1);
    assert_eq!(SudokuValidator::from_rows(&ragged).unwrap_err(), GridError::InvalidDimensions);
    let empty: Vec<Vec<u8>> = Vec::new();
    assert_eq!(SudokuValidator::from_rows(&empty).unwrap_err(), GridError::InvalidDimensions);
}

#[test]
fn verdict_messages() {
    assert_eq!(verdict_message(true), "The Sudoku puzzle is valid.");
    assert_eq!(verdict_message(false), "The Sudoku puzzle is not valid.");
}
