//! The plain-text rendering of a board, as pure specification: the debug
//! dump draws one character per cell and one line per row.

use vstd::prelude::*;

verus! {

/// The character drawn for one cell: '0' for a live cell, ' ' for a dead one.
pub open spec fn cell_char(b: bool) -> char {
    if b {
        '0'
    } else {
        ' '
    }
}

/// The text of one row: one character per cell, closed by a newline.
pub open spec fn row_text(row: Seq<bool>) -> Seq<char> {
    row.map_values(|b: bool| cell_char(b)).push('\n')
}

/// The text of the first `k` rows of the board, in order.
pub open spec fn rows_text(b: Seq<Seq<bool>>, k: int) -> Seq<char>
    decreases k,
{
    if k <= 0 {
        Seq::empty()
    } else {
        rows_text(b, k - 1) + row_text(b[k - 1])
    }
}

/// The text of the whole board, row by row.
pub open spec fn board_text(b: Seq<Seq<bool>>) -> Seq<char> {
    rows_text(b, b.len() as int)
}

} // verus!
