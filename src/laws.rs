//! What holds of group checks and of whole validations.

use vstd::prelude::*;
use vstd::set_lib::{lemma_int_range, lemma_len_subset, lemma_subset_equality, set_int_range};
use crate::flag::recorded;
use crate::group::{
    cell_col, cell_row, group_valid, group_values, is_digit, is_digit_permutation, is_square,
    GroupKind,
};
use crate::validator::grid_valid;

verus! {

broadcast use vstd::seq_lib::seq_to_set_is_finite;

/// Each of the digits 1..9 occurs in `s`.
pub open spec fn holds_every_digit(s: Seq<u8>) -> bool {
    forall|d: u8| is_digit(d) ==> #[trigger] s.contains(d)
}

/// `m` with the cell at (`row`, `col`) overwritten by `v`.
pub open spec fn set_cell(m: Seq<Seq<u8>>, row: int, col: int, v: u8) -> Seq<Seq<u8>> {
    m.update(row, m[row].update(col, v))
}

/// The group `(kind, index)` occurs in `order`.
pub open spec fn schedules(order: Seq<(GroupKind, int)>, kind: GroupKind, index: int) -> bool {
    exists|i: int| 0 <= i < order.len() && order[i] == (kind, index)
}

/// The values of `s` as integers.
spec fn as_ints(s: Seq<u8>) -> Seq<int> {
    s.map_values(|v: u8| v as int)
}

/// Nine cells hold each digit exactly once (pairwise distinct values in
/// 1..9) exactly when every digit 1..9 occurs among them.
pub proof fn lemma_permutation_iff_every_digit(s: Seq<u8>)
    requires
        s.len() == 9,
    ensures
        is_digit_permutation(s) <==> holds_every_digit(s),
{
    let t = as_ints(s);
    let ts = t.to_set();
    let digits = set_int_range(1, 10);
    lemma_int_range(1, 10);
    t.lemma_cardinality_of_set();
    if holds_every_digit(s) {
        assert forall|d: int| #[trigger] digits.contains(d) implies ts.contains(d) by {
            assert(s.contains(d as u8));
            let i = choose|i: int| 0 <= i < s.len() && s[i] == d as u8;
            assert(t[i] == d);
        }
        lemma_len_subset(digits, ts);
        lemma_subset_equality(digits, ts);
        t.lemma_no_dup_set_cardinality();
        assert forall|i: int| 0 <= i < s.len() implies is_digit(#[trigger] s[i]) by {
            assert(ts.contains(t[i]));
        }
        assert forall|i: int, j: int| 0 <= i < s.len() && 0 <= j < s.len() && i != j implies s[i]
            != s[j] by {
            assert(t[i] != t[j]);
        }
    }
    if is_digit_permutation(s) {
        assert(t.no_duplicates()) by {
            assert forall|i: int, j: int| 0 <= i < t.len() && 0 <= j < t.len() && i != j implies t[i]
                != t[j] by {
                assert(s[i] != s[j]);
            }
        }
        t.unique_seq_to_set();
        assert forall|x: int| #[trigger] ts.contains(x) implies digits.contains(x) by {
            let i = choose|i: int| 0 <= i < t.len() && t[i] == x;
            assert(is_digit(s[i]));
        }
        lemma_subset_equality(ts, digits);
        assert forall|d: u8| is_digit(d) implies #[trigger] s.contains(d) by {
            assert(digits.contains(d as int));
            let i = choose|i: int| 0 <= i < t.len() && t[i] == d as int;
            assert(s[i] == d);
        }
    }
}

/// A group whose nine cells hold every digit 1..9 passes its check.
pub proof fn lemma_full_group_passes(m: Seq<Seq<u8>>, kind: GroupKind, index: int)
    requires
        0 <= index < 9,
        holds_every_digit(group_values(m, kind, index)),
    ensures
        group_valid(m, kind, index),
{
    lemma_permutation_iff_every_digit(group_values(m, kind, index));
}

/// Every cell of a group lies in the grid.
pub proof fn lemma_cell_in_grid(kind: GroupKind, index: int, pos: int)
    requires
        0 <= index < 9,
        0 <= pos < 9,
    ensures
        0 <= cell_row(kind, index, pos) < 9,
        0 <= cell_col(kind, index, pos) < 9,
{
}

/// Two positions of one group name two different cells.
pub proof fn lemma_cells_distinct(kind: GroupKind, index: int, p: int, q: int)
    requires
        0 <= index < 9,
        0 <= p < 9,
        0 <= q < 9,
        p != q,
    ensures
        cell_row(kind, index, p) != cell_row(kind, index, q) || cell_col(kind, index, p)
            != cell_col(kind, index, q),
{
}

/// Overwriting one cell of a group with the value of another cell of the
/// same group makes the group, and so the grid, invalid.
pub proof fn lemma_duplicate_fails(m: Seq<Seq<u8>>, kind: GroupKind, index: int, p: int, q: int)
    requires
        is_square(m),
        0 <= index < 9,
        0 <= p < 9,
        0 <= q < 9,
        p != q,
    ensures
        !group_valid(
            set_cell(
                m,
                cell_row(kind, index, p),
                cell_col(kind, index, p),
                group_values(m, kind, index)[q],
            ),
            kind,
            index,
        ),
        !grid_valid(
            set_cell(
                m,
                cell_row(kind, index, p),
                cell_col(kind, index, p),
                group_values(m, kind, index)[q],
            ),
        ),
{
    let v = group_values(m, kind, index)[q];
    let m2 = set_cell(m, cell_row(kind, index, p), cell_col(kind, index, p), v);
    lemma_cell_in_grid(kind, index, p);
    lemma_cell_in_grid(kind, index, q);
    lemma_cells_distinct(kind, index, p, q);
    let vals = group_values(m2, kind, index);
    assert(vals[p] == v);
    assert(vals[q] == v);
    assert(!group_valid(m2, kind, index));
}

/// Writing a value outside 1..9 into a cell of a group makes the group, and
/// so the grid, invalid.
pub proof fn lemma_out_of_range_fails(
    m: Seq<Seq<u8>>,
    kind: GroupKind,
    index: int,
    p: int,
    v: u8,
)
    requires
        is_square(m),
        0 <= index < 9,
        0 <= p < 9,
        !is_digit(v),
    ensures
        !group_valid(set_cell(m, cell_row(kind, index, p), cell_col(kind, index, p), v), kind, index),
        !grid_valid(set_cell(m, cell_row(kind, index, p), cell_col(kind, index, p), v)),
{
    let m2 = set_cell(m, cell_row(kind, index, p), cell_col(kind, index, p), v);
    lemma_cell_in_grid(kind, index, p);
    assert(group_values(m2, kind, index)[p] == v);
    assert(!group_valid(m2, kind, index));
}

/// Recording outcomes from `start` leaves the flag true exactly when it
/// started true and every outcome was a pass.
pub proof fn lemma_recorded_is_conjunction(start: bool, results: Seq<bool>)
    ensures
        recorded(start, results) == (start && forall|i: int|
            0 <= i < results.len() ==> #[trigger] results[i]),
    decreases results.len(),
{
    if results.len() > 0 {
        lemma_recorded_is_conjunction(start, results.drop_last());
        if !recorded(start, results) && start {
            if results.last() {
                let i = choose|i: int|
                    0 <= i < results.drop_last().len() && !#[trigger] results.drop_last()[i];
                assert(!results[i]);
            }
        }
        if recorded(start, results) {
            assert forall|i: int| 0 <= i < results.len() implies #[trigger] results[i] by {
                if i < results.len() - 1 {
                    assert(results.drop_last()[i]);
                }
            }
        }
    }
}

/// Once the flag is false, no later outcome turns it true again.
pub proof fn lemma_flag_never_resets(results: Seq<bool>)
    ensures
        !recorded(false, results),
{
    lemma_recorded_is_conjunction(false, results);
}

/// Checking the groups in any order, or any number of times, so long as
/// each of the 27 groups is checked at least once, and folding the outcomes
/// into a fresh flag, gives the validity of the grid: the result does not
/// depend on how the checks are scheduled.
pub proof fn lemma_any_order_agrees(m: Seq<Seq<u8>>, order: Seq<(GroupKind, int)>)
    requires
        forall|i: int| 0 <= i < order.len() ==> 0 <= (#[trigger] order[i]).1 < 9,
        forall|kind: GroupKind, index: int|
            0 <= index < 9 ==> #[trigger] schedules(order, kind, index),
    ensures
        recorded(
            true,
            Seq::new(order.len(), |i: int| group_valid(m, order[i].0, order[i].1)),
        ) == grid_valid(m),
{
    let results = Seq::new(order.len(), |i: int| group_valid(m, order[i].0, order[i].1));
    lemma_recorded_is_conjunction(true, results);
    if grid_valid(m) {
        assert forall|i: int| 0 <= i < results.len() implies #[trigger] results[i] by {
            assert(group_valid(m, order[i].0, order[i].1));
        }
    } else {
        let (kind, index) = choose|kind: GroupKind, index: int|
            0 <= index < 9 && !group_valid(m, kind, index);
        assert(schedules(order, kind, index));
        let i = choose|i: int| 0 <= i < order.len() && order[i] == (kind, index);
        assert(!results[i]);
    }
}

} // verus!
