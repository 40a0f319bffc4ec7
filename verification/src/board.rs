//! The board: the ninety numbers laid out in nine rows of ten, with the
//! drawn ones shown.

use crate::pool::contains;
use crate::store::{drawn_on_day_of, values_in, values_of, NumberStore};
use vstd::prelude::*;

verus! {

/// Rows of the board.
pub const ROWS: usize = 9;

/// Numbers in one row of the board.
pub const COLUMNS: usize = 10;

/// The number whose place on the board is `column` of `row`: the rows hold
/// 1 to 10, 11 to 20, and so on to 81 to 90.
pub open spec fn number_at(row: int, column: int) -> int {
    row * COLUMNS + column + 1
}

/// What the board shows at `column` of `row` once `drawn` have been drawn:
/// the number of that place if it was drawn, and 0 if not.
pub open spec fn shown_at(drawn: Seq<i32>, row: int, column: int) -> i32 {
    if drawn.contains(number_at(row, column) as i32) {
        number_at(row, column) as i32
    } else {
        0
    }
}

/// `row` is row number `index` of the board for `drawn`.
pub open spec fn is_row(drawn: Seq<i32>, index: int, row: Seq<i32>) -> bool {
    &&& row.len() == COLUMNS
    &&& forall|column: int| 0 <= column < COLUMNS ==> row[column] == shown_at(drawn, index, column)
}

/// What the page of the board shows.
#[derive(Clone, Debug, PartialEq, Eq)]
pub struct BoardView {
    /// The board, row by row.
    pub numbers: Vec<Vec<i32>>,
    /// Every drawn number, in the order of the draws.
    pub chrono_numbers: Vec<i32>,
    /// The numbers drawn today, in the order of the draws.
    pub drawn_today: Vec<i32>,
}

/// One row of the board for `drawn`.
fn board_row(drawn: &Vec<i32>, index: usize) -> (row: Vec<i32>)
    requires
        index < ROWS,
    ensures
        is_row(drawn@, index as int, row@),
{
    let mut row: Vec<i32> = Vec::new();
    let mut column: usize = 0;
    while column < COLUMNS
        invariant
            index < ROWS,
            column <= COLUMNS,
            row@.len() == column,
            forall|c: int| 0 <= c < column ==> row@[c] == shown_at(drawn@, index as int, c),
        decreases COLUMNS - column,
    {
        let number: i32 = (index * COLUMNS + column + 1) as i32;
        if contains(drawn, number) {
            row.push(number);
        } else {
            row.push(0);
        }
        column += 1;
    }
    row
}

/// The board for `drawn`: nine rows of ten places. A place shows its number
/// if that number was drawn, and 0 if not.
pub fn board(drawn: &Vec<i32>) -> (rows: Vec<Vec<i32>>)
    ensures
        rows@.len() == ROWS,
        forall|index: int| 0 <= index < ROWS ==> is_row(drawn@, index, #[trigger] rows@[index]@),
{
    let mut rows: Vec<Vec<i32>> = Vec::new();
    let mut index: usize = 0;
    while index < ROWS
        invariant
            index <= ROWS,
            rows@.len() == index,
            forall|k: int| 0 <= k < index ==> is_row(drawn@, k, #[trigger] rows@[k]@),
        decreases ROWS - index,
    {
        rows.push(board_row(drawn, index));
        index += 1;
    }
    rows
}

/// What the page of the board shows for `store` at `now`: the board, the
/// whole history, and what was drawn on the day of `now`.
pub fn board_view(store: &NumberStore, now: u64) -> (view: BoardView)
    requires
        store.wf(),
    ensures
        view.numbers@.len() == ROWS,
        forall|index: int|
            0 <= index < ROWS ==> is_row(values_of(store@), index, #[trigger] view.numbers@[index]@),
        view.chrono_numbers@ == values_of(store@),
        view.drawn_today@ == values_of(drawn_on_day_of(store@, now)),
{
    let chrono_numbers = store.values();
    let numbers = board(&chrono_numbers);
    let drawn_today = values_in(&store.drawn_today(now));
    BoardView { numbers, chrono_numbers, drawn_today }
}

} // verus!
