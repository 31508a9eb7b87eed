//! The 27 groups of a grid and the check of one group.

use vstd::prelude::*;

verus! {

/// A 9x9 grid of cell values, indexed `[row][column]`.
pub type Grid = [[u8; 9]; 9];

/// The three families of groups.
#[derive(Clone, Copy, Debug, PartialEq, Eq, Structural)]
pub enum GroupKind {
    Row,
    Column,
    Subgrid,
}

/// The grid as a sequence of rows.
pub open spec fn grid_view(g: Grid) -> Seq<Seq<u8>> {
    Seq::new(9, |r: int| g@[r]@)
}

/// A sequence of rows of nine cells each, nine rows in all.
pub open spec fn is_square(m: Seq<Seq<u8>>) -> bool {
    &&& m.len() == 9
    &&& forall|r: int| 0 <= r < 9 ==> (#[trigger] m[r]).len() == 9
}

/// Row of the `pos`-th cell of the group `(kind, index)`.
pub open spec fn cell_row(kind: GroupKind, index: int, pos: int) -> int {
    match kind {
        GroupKind::Row => index,
        GroupKind::Column => pos,
        GroupKind::Subgrid => (index / 3) * 3 + pos / 3,
    }
}

/// Column of the `pos`-th cell of the group `(kind, index)`.
pub open spec fn cell_col(kind: GroupKind, index: int, pos: int) -> int {
    match kind {
        GroupKind::Row => pos,
        GroupKind::Column => index,
        GroupKind::Subgrid => (index % 3) * 3 + pos % 3,
    }
}

/// The nine values of the group `(kind, index)`, in scan order.
pub open spec fn group_values(m: Seq<Seq<u8>>, kind: GroupKind, index: int) -> Seq<u8> {
    Seq::new(9, |pos: int| m[cell_row(kind, index, pos)][cell_col(kind, index, pos)])
}

/// A value that may stand in a solved grid.
pub open spec fn is_digit(v: u8) -> bool {
    1 <= v <= 9
}

/// Nine pairwise distinct digits: each of 1..9 exactly once.
pub open spec fn is_digit_permutation(s: Seq<u8>) -> bool {
    &&& s.len() == 9
    &&& forall|i: int| 0 <= i < s.len() ==> is_digit(#[trigger] s[i])
    &&& s.no_duplicates()
}

/// The group `(kind, index)` holds each digit exactly once.
pub open spec fn group_valid(m: Seq<Seq<u8>>, kind: GroupKind, index: int) -> bool {
    is_digit_permutation(group_values(m, kind, index))
}

/// Position in the grid of the `pos`-th cell of the group `(kind, index)`.
pub fn cell_position(kind: GroupKind, index: usize, pos: usize) -> (r: (usize, usize))
    requires
        index < 9,
        pos < 9,
    ensures
        r.0 == cell_row(kind, index as int, pos as int),
        r.1 == cell_col(kind, index as int, pos as int),
        r.0 < 9,
        r.1 < 9,
{
    match kind {
        GroupKind::Row => (index, pos),
        GroupKind::Column => (pos, index),
        GroupKind::Subgrid => ((index / 3) * 3 + pos / 3, (index % 3) * 3 + pos % 3),
    }
}

/// Scans the group `(kind, index)` of `grid` and stops at the first value
/// that is out of range or seen before in the group.
pub fn check_group(grid: &Grid, kind: GroupKind, index: usize) -> (r: bool)
    requires
        index < 9,
    ensures
        r == group_valid(grid_view(*grid), kind, index as int),
{
    let ghost vals = group_values(grid_view(*grid), kind, index as int);
    let mut seen: [bool; 10] = [false; 10];
    let mut pos: usize = 0;
    while pos < 9
        invariant
            index < 9,
            pos <= 9,
            vals == group_values(grid_view(*grid), kind, index as int),
            forall|i: int| 0 <= i < pos ==> is_digit(#[trigger] vals[i]),
            forall|i: int, j: int| 0 <= i < j < pos ==> vals[i] != vals[j],
            forall|d: int|
                1 <= d <= 9 ==> (#[trigger] seen@[d] <==> exists|i: int|
                    0 <= i < pos && vals[i] as int == d),
        decreases 9 - pos,
    {
        let (row, col) = cell_position(kind, index, pos);
        let digit = grid[row][col];
        assert(digit == vals[pos as int]);
        if digit < 1 || digit > 9 || seen[digit as usize] {
            proof {
                if is_digit(digit) {
                    let i = choose|i: int| 0 <= i < pos && vals[i] as int == digit as int;
                    assert(vals[i] == vals[pos as int]);
                }
            }
            return false;
        }
        seen[digit as usize] = true;
        pos += 1;
    }
    true
}

} // verus!
