//! Laying a series out for a chart that grows from the right.

use vstd::prelude::*;

verus! {

/// A series laid out over `width` columns with its first sample in the
/// rightmost column, the next one to its left and so on. Columns that no
/// sample reaches hold 0, and samples beyond the leftmost column are left
/// out.
pub open spec fn laid_right_to_left(series: Seq<u64>, width: nat) -> Seq<u64> {
    Seq::new(
        width,
        |column: int|
            if width - 1 - column < series.len() {
                series[width - 1 - column]
            } else {
                0
            },
    )
}

/// Lays `series` out over `width` columns, first sample rightmost.
pub fn right_to_left(series: &Vec<u64>, width: usize) -> (columns: Vec<u64>)
    ensures
        columns@ == laid_right_to_left(series@, width as nat),
{
    let mut columns: Vec<u64> = Vec::new();
    let mut column: usize = 0;
    while column < width
        invariant
            0 <= column <= width,
            columns@.len() == column,
            forall|c: int|
                0 <= c < column ==> columns@[c] == laid_right_to_left(series@, width as nat)[c],
        decreases width - column,
    {
        let from_right = width - 1 - column;
        if from_right < series.len() {
            columns.push(series[from_right]);
        } else {
            columns.push(0);
        }
        column = column + 1;
    }
    columns
}

} // verus!
