//! Moving about the contact sheet: its cursor and its columns.

use vstd::prelude::*;

verus! {

/// Columns the sheet starts with, and the range they may be changed within.
pub const GRID_COLS_DEFAULT: usize = 4;

pub const GRID_COLS_MIN: usize = 1;

pub const GRID_COLS_MAX: usize = 12;

/// The nearest number to `x` from `low` to `high`.
pub open spec fn clamped(x: int, low: int, high: int) -> int {
    if x < low {
        low
    } else if x > high {
        high
    } else {
        x
    }
}

/// The cell `dx` columns and `dy` rows from `cursor` in a sheet of `n` cells in
/// `cols` columns: moves stop at the edges, and at the last cell of a row that is
/// not full.
pub open spec fn cursor_after(cursor: int, n: int, cols: int, dx: int, dy: int) -> int {
    if n == 0 {
        0
    } else {
        let rows = (n + cols - 1) / cols;
        let col = clamped(cursor % cols + dx, 0, cols - 1);
        let row = clamped(cursor / cols + dy, 0, rows - 1);
        let cell = row * cols + col;
        if cell < n {
            cell
        } else {
            n - 1
        }
    }
}

fn clamp(x: i128, low: i128, high: i128) -> (r: i128)
    ensures
        r == clamped(x as int, low as int, high as int),
{
    if x < low {
        low
    } else if x > high {
        high
    } else {
        x
    }
}

/// New cursor index after moving `(dx, dy)` cells within a `cols`-wide grid of
/// `n` cells.
pub fn move_cursor(cursor: usize, n: usize, cols: usize, dx: i32, dy: i32) -> (cell: usize)
    requires
        n > 0 ==> cols > 0,
    ensures
        cell == cursor_after(cursor as int, n as int, cols as int, dx as int, dy as int),
{
    if n == 0 {
        return 0;
    }
    let width: i128 = cols as i128;
    let rows: i128 = (n as i128 + width - 1) / width;
    let col: i128 = clamp((cursor % cols) as i128 + dx as i128, 0, width - 1);
    let row: i128 = clamp((cursor / cols) as i128 + dy as i128, 0, rows - 1);
    proof {
        lemma_rows(n as int, cols as int);
        lemma_cell_fits(n as int, cols as int, row as int, col as int);
    }
    let cell: i128 = row * width + col;
    if cell < n as i128 {
        cell as usize
    } else {
        n - 1
    }
}

proof fn lemma_cell_fits(n: int, cols: int, row: int, col: int)
    requires
        n > 0,
        cols > 0,
        0 <= row <= (n + cols - 1) / cols - 1,
        0 <= col < cols,
    ensures
        0 <= row * cols + col < n + cols,
        0 <= row * cols < n,
{
    let rows = (n + cols - 1) / cols;
    let r = (n + cols - 1) % cols;
    assert(n + cols - 1 == cols * rows + r && 0 <= r < cols) by (nonlinear_arith)
        requires
            rows == (n + cols - 1) / cols,
            r == (n + cols - 1) % cols,
            cols > 0,
    ;
    assert(0 <= row * cols <= cols * rows - cols) by (nonlinear_arith)
        requires
            0 <= row <= rows - 1,
            cols > 0,
    ;
}

proof fn lemma_rows(n: int, cols: int)
    requires
        n > 0,
        cols > 0,
    ensures
        (n + cols - 1) / cols >= 1,
{
    let rows = (n + cols - 1) / cols;
    assert(rows >= 1) by (nonlinear_arith)
        requires
            rows == (n + cols - 1) / cols,
            n > 0,
            cols > 0,
    ;
}

/// The cursor never lands past the thumbnails there are.
pub proof fn the_cursor_stays_on_the_sheet(cursor: int, n: int, cols: int, dx: int, dy: int)
    requires
        n > 0,
        cols > 0,
        cursor >= 0,
    ensures
        0 <= cursor_after(cursor, n, cols, dx, dy) < n,
{
    lemma_rows(n, cols);
    let rows = (n + cols - 1) / cols;
    let col = clamped(cursor % cols + dx, 0, cols - 1);
    let row = clamped(cursor / cols + dy, 0, rows - 1);
    lemma_cell_fits(n, cols, row, col);
}

/// Inside the sheet the cursor moves by exactly the step asked for: one column
/// over within its row, or one row over within its column.
pub proof fn the_cursor_moves_by_its_step(cursor: int, n: int, cols: int, dx: int, dy: int)
    requires
        cols > 0,
        0 <= cursor < n,
        0 <= cursor % cols + dx < cols,
        0 <= cursor + dx + dy * cols < n,
    ensures
        cursor_after(cursor, n, cols, dx, dy) == cursor + dx + dy * cols,
{
    let q = cursor / cols;
    let r = cursor % cols;
    let rows = (n + cols - 1) / cols;
    assert(cursor == q * cols + r && 0 <= r < cols) by (nonlinear_arith)
        requires
            q == cursor / cols,
            r == cursor % cols,
            cols > 0,
    ;
    let row = q + dy;
    assert(row * cols == q * cols + dy * cols) by (nonlinear_arith)
        requires
            row == q + dy,
    ;
    assert(row >= 0) by (nonlinear_arith)
        requires
            row * cols + (r + dx) >= 0,
            r + dx < cols,
            cols > 0,
    ;
    assert(row <= rows - 1) by (nonlinear_arith)
        requires
            row * cols + (r + dx) < n,
            r + dx >= 0,
            rows == (n + cols - 1) / cols,
            cols > 0,
    ;
}

/// Columns once fewer, larger thumbnails were asked for.
pub fn larger(cols: usize) -> (c: usize)
    ensures
        c == clamped(cols - 1, GRID_COLS_MIN as int, usize::MAX as int),
{
    if cols <= GRID_COLS_MIN {
        GRID_COLS_MIN
    } else {
        cols - 1
    }
}

/// Columns once more, smaller thumbnails were asked for.
pub fn smaller(cols: usize) -> (c: usize)
    ensures
        c == clamped(cols + 1, 0, GRID_COLS_MAX as int),
{
    if cols >= GRID_COLS_MAX {
        GRID_COLS_MAX
    } else {
        cols + 1
    }
}

/// Holding a number to a range takes it to the nearest number of the range, and
/// leaves it where it is inside.
pub proof fn holding_to_a_range_takes_the_nearest(x: int, low: int, high: int, y: int)
    requires
        low <= y <= high,
    ensures
        low <= clamped(x, low, high) <= high,
        low <= x <= high ==> clamped(x, low, high) == x,
        x <= y ==> clamped(x, low, high) <= y && (clamped(x, low, high) == x || clamped(
            x,
            low,
            high,
        ) == low),
        x >= y ==> clamped(x, low, high) >= y && (clamped(x, low, high) == x || clamped(
            x,
            low,
            high,
        ) == high),
{
}

/// A move stops at the edges of the sheet, column and row by themselves, and at
/// the last cell where it would end behind it.
pub proof fn a_move_stops_at_the_edges(
    q: int,
    r: int,
    n: int,
    cols: int,
    dx: int,
    dy: int,
    row: int,
    col: int,
    last: int,
)
    requires
        cols > 0,
        0 <= q,
        0 <= r < cols,
        0 <= col < cols,
        0 <= row <= last,
        last * cols < n <= (last + 1) * cols,
        col == r + dx || (col == 0 && r + dx < 0) || (col == cols - 1 && r + dx >= cols),
        row == q + dy || (row == 0 && q + dy < 0) || (row == last && q + dy > last),
    ensures
        cursor_after(q * cols + r, n, cols, dx, dy) == if row * cols + col < n {
            row * cols + col
        } else {
            n - 1
        },
{
    let cursor = q * cols + r;
    vstd::arithmetic::div_mod::lemma_fundamental_div_mod_converse(cursor, cols, q, r);
    assert(n > 0) by (nonlinear_arith)
        requires
            last * cols < n,
            last >= 0,
            cols > 0,
    ;
    let rows = (n + cols - 1) / cols;
    let rest = n + cols - 1 - (last + 1) * cols;
    assert((last + 1) * cols == last * cols + cols) by (nonlinear_arith);
    vstd::arithmetic::div_mod::lemma_fundamental_div_mod_converse(
        n + cols - 1,
        cols,
        last + 1,
        rest,
    );
    assert(rows == last + 1);
}

/// A sheet without thumbnails has its cursor at the first place.
pub proof fn an_empty_sheet_has_its_cursor_first(cursor: int, cols: int, dx: int, dy: int)
    ensures
        cursor_after(cursor, 0, cols, dx, dy) == 0,
{
}

} // verus!
