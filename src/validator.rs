//! Validation of a whole grid.

use vstd::prelude::*;
use crate::flag::ValidityFlag;
use crate::group::{check_group, grid_view, group_valid, Grid, GroupKind};

verus! {

/// Every row, every column and every box of `m` holds each digit once.
pub open spec fn grid_valid(m: Seq<Seq<u8>>) -> bool {
    forall|kind: GroupKind, index: int| 0 <= index < 9 ==> #[trigger] group_valid(m, kind, index)
}

/// The family of the groups numbered `9 * k` to `9 * k + 8`.
pub open spec fn kind_at(k: int) -> GroupKind {
    if k == 0 {
        GroupKind::Row
    } else if k == 1 {
        GroupKind::Column
    } else {
        GroupKind::Subgrid
    }
}

/// The 27 groups: the rows, then the columns, then the boxes.
pub open spec fn group_order() -> Seq<(GroupKind, int)> {
    Seq::new(27, |i: int| (kind_at(i / 9), i % 9))
}

/// Where the group `(kind, index)` stands in `group_order`.
pub open spec fn group_slot(kind: GroupKind, index: int) -> int {
    match kind {
        GroupKind::Row => index,
        GroupKind::Column => 9 + index,
        GroupKind::Subgrid => 18 + index,
    }
}

/// Each group has its slot in `group_order`.
pub proof fn lemma_group_slot(kind: GroupKind, index: int)
    requires
        0 <= index < 9,
    ensures
        0 <= group_slot(kind, index) < 27,
        group_order()[group_slot(kind, index)] == (kind, index),
{
}

/// Lists the 27 groups in `group_order`.
pub fn all_groups() -> (r: Vec<(GroupKind, usize)>)
    ensures
        r@.len() == 27,
        forall|i: int|
            0 <= i < 27 ==> (#[trigger] r@[i]).0 == group_order()[i].0 && r@[i].1
                == group_order()[i].1,
{
    let kinds: [GroupKind; 3] = [GroupKind::Row, GroupKind::Column, GroupKind::Subgrid];
    let mut groups: Vec<(GroupKind, usize)> = Vec::new();
    let mut k: usize = 0;
    while k < 3
        invariant
            k <= 3,
            groups@.len() == 9 * k,
            forall|j: int| 0 <= j < 3 ==> kinds@[j] == kind_at(j),
            forall|i: int|
                0 <= i < 9 * k ==> (#[trigger] groups@[i]).0 == group_order()[i].0 && groups@[i].1
                    == group_order()[i].1,
        decreases 3 - k,
    {
        let mut index: usize = 0;
        while index < 9
            invariant
                k < 3,
                index <= 9,
                groups@.len() == 9 * k + index,
                forall|j: int| 0 <= j < 3 ==> kinds@[j] == kind_at(j),
                forall|i: int|
                    0 <= i < 9 * k + index ==> (#[trigger] groups@[i]).0 == group_order()[i].0
                        && groups@[i].1 == group_order()[i].1,
            decreases 9 - index,
        {
            groups.push((kinds[k], index));
            assert((9 * k + index) / 9 == k && (9 * k + index) % 9 == index);
            index += 1;
        }
        k += 1;
    }
    groups
}

/// Why a grid could not be taken for validation.
#[derive(Clone, Copy, Debug, PartialEq, Eq, Structural)]
pub enum GridError {
    /// The grid is not nine rows of nine cells.
    InvalidDimensions,
}

/// Nine rows of nine cells each.
pub open spec fn has_grid_shape(rows: Seq<Vec<u8>>) -> bool {
    &&& rows.len() == 9
    &&& forall|r: int| 0 <= r < 9 ==> (#[trigger] rows[r])@.len() == 9
}

/// The line that reports the outcome of a validation.
pub fn verdict_message(valid: bool) -> (r: &'static str)
    ensures
        valid ==> r@ == "The Sudoku puzzle is valid."@,
        !valid ==> r@ == "The Sudoku puzzle is not valid."@,
{
    if valid {
        "The Sudoku puzzle is valid."
    } else {
        "The Sudoku puzzle is not valid."
    }
}

/// A grid under validation. The grid is only read.
#[derive(Clone, Copy, Debug)]
pub struct SudokuValidator {
    grid: Grid,
}

impl View for SudokuValidator {
    type V = Seq<Seq<u8>>;

    closed spec fn view(&self) -> Seq<Seq<u8>> {
        grid_view(self.grid)
    }
}

impl SudokuValidator {
    /// Takes the grid to validate.
    pub fn new(grid: Grid) -> (r: Self)
        ensures
            r@ == grid_view(grid),
    {
        SudokuValidator { grid }
    }

    /// Takes the grid given as rows, or fails with `InvalidDimensions` unless
    /// there are nine rows of nine cells.
    pub fn from_rows(rows: &Vec<Vec<u8>>) -> (r: Result<Self, GridError>)
        ensures
            r is Ok <==> has_grid_shape(rows@),
            r is Err ==> r == Err::<Self, GridError>(GridError::InvalidDimensions),
            r matches Ok(v) ==> v@ == Seq::new(9, |i: int| rows@[i]@),
    {
        if rows.len() != 9 {
            return Err(GridError::InvalidDimensions);
        }
        let mut i: usize = 0;
        while i < 9
            invariant
                rows@.len() == 9,
                i <= 9,
                forall|r: int| 0 <= r < i ==> (#[trigger] rows@[r])@.len() == 9,
            decreases 9 - i,
        {
            if rows[i].len() != 9 {
                return Err(GridError::InvalidDimensions);
            }
            i += 1;
        }
        let mut grid: Grid = [[0u8; 9]; 9];
        let mut r: usize = 0;
        while r < 9
            invariant
                has_grid_shape(rows@),
                r <= 9,
                forall|a: int| 0 <= a < r ==> (#[trigger] grid@[a])@ == rows@[a]@,
            decreases 9 - r,
        {
            let mut row: [u8; 9] = [0u8; 9];
            let mut c: usize = 0;
            while c < 9
                invariant
                    has_grid_shape(rows@),
                    r < 9,
                    c <= 9,
                    forall|b: int| 0 <= b < c ==> row@[b] == rows@[r as int]@[b],
                decreases 9 - c,
            {
                row[c] = rows[r][c];
                c += 1;
            }
            assert(row@ == rows@[r as int]@);
            grid[r] = row;
            r += 1;
        }
        let v = SudokuValidator { grid };
        assert(v@ == Seq::new(9, |i: int| rows@[i]@));
        Ok(v)
    }

    /// Checks one group of the grid.
    pub fn check_group(&self, kind: GroupKind, index: usize) -> (r: bool)
        requires
            index < 9,
        ensures
            r == group_valid(self@, kind, index as int),
    {
        check_group(&self.grid, kind, index)
    }

    /// Checks all groups of the grid, folding each outcome into a validity
    /// flag and skipping the remaining groups once the flag has turned false.
    pub fn validate(&self) -> (r: bool)
        ensures
            r == grid_valid(self@),
    {
        let groups = all_groups();
        let mut flag = ValidityFlag::new();
        let mut i: usize = 0;
        while i < groups.len() && flag.is_valid()
            invariant
                groups@.len() == 27,
                i <= 27,
                forall|j: int|
                    0 <= j < 27 ==> (#[trigger] groups@[j]).0 == group_order()[j].0
                        && groups@[j].1 == group_order()[j].1,
                flag@ == forall|j: int|
                    0 <= j < i ==> #[trigger] group_valid(
                        self@,
                        groups@[j].0,
                        groups@[j].1 as int,
                    ),
            decreases 27 - i,
        {
            let (kind, index) = groups[i];
            flag.record(self.check_group(kind, index));
            i += 1;
        }
        proof {
            if flag@ {
                assert(i == 27);
                assert forall|kind: GroupKind, index: int| 0 <= index < 9 implies #[trigger] group_valid(
                    self@,
                    kind,
                    index,
                ) by {
                    lemma_group_slot(kind, index);
                    let j = group_slot(kind, index);
                    assert(group_valid(self@, groups@[j].0, groups@[j].1 as int));
                }
            } else {
                let j = choose|j: int|
                    0 <= j < i && !group_valid(self@, groups@[j].0, groups@[j].1 as int);
                assert(!group_valid(self@, groups@[j].0, groups@[j].1 as int));
            }
        }
        flag.is_valid()
    }
}

} // verus!
