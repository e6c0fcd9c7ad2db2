//! The layout engine: packs names of different widths, column by column,
//! into the fewest rows whose grid fits the terminal.

use vstd::arithmetic::div_mod::{lemma_fundamental_div_mod, lemma_fundamental_div_mod_converse};
use vstd::prelude::*;
use vstd::string::*;

verus! {

/// Blank columns between two columns of a grid.
pub const GAP: usize = 2;

/// One entry as it goes to the terminal: its text, which may carry escape
/// sequences, and the number of columns that it takes on the screen.
#[derive(Debug, Clone, PartialEq, Eq)]
pub struct DisplayString {
    pub text: String,
    pub width: usize,
}

/// How the entries are set out.
#[derive(Debug, Clone, PartialEq, Eq)]
pub enum Arrangement {
    /// All entries on one line, a space between each two.
    Joined,
    /// A grid filled column by column: entry `i` stands in row `i % rows` of
    /// column `i / rows`, and `column_widths` holds the widest entry of each
    /// column.
    Grid { rows: usize, column_widths: Vec<usize> },
}

/// An `Arrangement` as a mathematical value.
pub enum Shape {
    Joined,
    Grid { rows: nat, column_widths: Seq<nat> },
}

/// The numbers of a vector of widths.
pub open spec fn as_nats(v: Seq<usize>) -> Seq<nat> {
    v.map_values(|w: usize| w as nat)
}

impl View for Arrangement {
    type V = Shape;

    open spec fn view(&self) -> Shape {
        match self {
            Arrangement::Joined => Shape::Joined,
            Arrangement::Grid { rows, column_widths } => Shape::Grid {
                rows: *rows as nat,
                column_widths: as_nats(column_widths@),
            },
        }
    }
}

/// The texts of the entries, in order.
pub open spec fn texts(names: Seq<DisplayString>) -> Seq<Seq<char>> {
    names.map_values(|n: DisplayString| n.text@)
}

/// The visible widths of the entries, in order.
pub open spec fn widths(names: Seq<DisplayString>) -> Seq<nat> {
    names.map_values(|n: DisplayString| n.width as nat)
}

/// Sum of a sequence of widths.
pub open spec fn total(s: Seq<nat>) -> nat
    decreases s.len(),
{
    if s.len() == 0 {
        0
    } else {
        total(s.drop_last()) + s.last()
    }
}

/// Width of the single line that holds every entry with one space between
/// each two.
pub open spec fn joined_width(widths: Seq<nat>) -> int {
    total(widths) + widths.len() - 1
}

/// Columns that `count` entries take in `rows` rows: `count / rows`, rounded
/// up.
pub open spec fn columns(count: nat, rows: nat) -> nat {
    if rows == 0 {
        0
    } else {
        ((count + rows - 1) / (rows as int)) as nat
    }
}

/// The largest of `widths[from..to]`, 0 where that range is empty.
pub open spec fn widest(widths: Seq<nat>, from: int, to: int) -> nat
    decreases to - from,
{
    if from >= to {
        0
    } else if widest(widths, from, to - 1) >= widths[to - 1] {
        widest(widths, from, to - 1)
    } else {
        widths[to - 1]
    }
}

/// Index after the last entry of column `col`.
pub open spec fn column_end(count: nat, rows: nat, col: int) -> int {
    if col * rows + rows <= count {
        col * rows + rows
    } else {
        count as int
    }
}

/// Width of column `col`: that of the widest among the entries
/// `col * rows .. col * rows + rows` that exist.
pub open spec fn column_width(widths: Seq<nat>, rows: nat, col: int) -> nat {
    widest(widths, col * rows, column_end(widths.len(), rows, col))
}

/// The width of each column of the grid with `rows` rows.
pub open spec fn column_widths(widths: Seq<nat>, rows: nat) -> Seq<nat> {
    Seq::new(columns(widths.len(), rows), |col: int| column_width(widths, rows, col))
}

/// Width of the grid with `rows` rows: its columns, and the gap between
/// each two.
pub open spec fn grid_width(widths: Seq<nat>, rows: nat) -> int {
    total(column_widths(widths, rows)) + GAP * (columns(widths.len(), rows) - 1)
}

/// The grid with `rows` rows is no wider than the terminal.
pub open spec fn fits(widths: Seq<nat>, rows: nat, terminal_width: nat) -> bool {
    grid_width(widths, rows) <= terminal_width
}

/// The first row count from `from` on, below the number of entries, whose
/// grid fits; the number of entries where there is none.
pub open spec fn first_fit(widths: Seq<nat>, terminal_width: nat, from: nat) -> nat
    decreases widths.len() - from,
{
    if from >= widths.len() {
        widths.len()
    } else if fits(widths, from, terminal_width) {
        from
    } else {
        first_fit(widths, terminal_width, from + 1)
    }
}

/// Rows of the grid that is chosen: the fewest that fit, one row for each
/// entry where no grid fits.
pub open spec fn optimal_rows(widths: Seq<nat>, terminal_width: nat) -> nat {
    first_fit(widths, terminal_width, 1)
}

/// The arrangement that is chosen: the single line where it fits or there is
/// nothing to show, else the grid of `optimal_rows`.
pub open spec fn arrangement(widths: Seq<nat>, terminal_width: nat) -> Shape {
    if widths.len() == 0 || joined_width(widths) <= terminal_width {
        Shape::Joined
    } else {
        Shape::Grid {
            rows: optimal_rows(widths, terminal_width),
            column_widths: column_widths(widths, optimal_rows(widths, terminal_width)),
        }
    }
}

proof fn lemma_product_bounds(a: int, b: int, rows: int)
    by (nonlinear_arith)
    requires
        0 <= a <= b,
        0 <= rows,
    ensures
        0 <= a * rows <= b * rows,
        (a + 1) * rows == a * rows + rows,
{
}

/// The columns are just enough for the entries: the last one is not empty,
/// and together they have room for all.
pub proof fn lemma_columns(count: nat, rows: nat)
    requires
        rows >= 1,
    ensures
        columns(count, rows) * rows >= count,
        columns(count, rows) * rows < count + rows,
        columns(count, rows) == count / rows + if count % rows == 0 {
            0int
        } else {
            1int
        },
        count == 0 <==> columns(count, rows) == 0,
        0 < count <= rows <==> columns(count, rows) == 1,
        columns(count, rows) <= count,
{
    let d = rows as int;
    let q = count as int / d;
    let r = count as int % d;
    lemma_fundamental_div_mod(count as int, d);
    assert(d * q == q * d) by (nonlinear_arith);
    if r == 0 {
        lemma_fundamental_div_mod_converse(count + rows - 1, d, q, d - 1);
    } else {
        assert((q + 1) * d == q * d + d) by (nonlinear_arith);
        lemma_fundamental_div_mod_converse(count + rows - 1, d, q + 1, r - 1);
    }
    assert(q >= 0 && (q == 0 ==> q * d == 0) && (q == 1 ==> q * d == d) && (q >= 2 ==> q * d >= 2
        * d) && q <= q * d) by (nonlinear_arith)
        requires
            d >= 1,
            q * d <= count,
            count < q * d + d,
    ;
}

/// Every column before the last is full, and each starts below the number
/// of entries.
pub proof fn lemma_column_start(count: nat, rows: nat, col: int)
    requires
        rows >= 1,
        0 <= col < columns(count, rows),
    ensures
        0 <= col * rows < count,
        col + 1 < columns(count, rows) ==> col * rows + rows < count,
        col + 1 == columns(count, rows) ==> col * rows + rows >= count,
{
    lemma_columns(count, rows);
    let cols = columns(count, rows) as int;
    lemma_product_bounds(col, cols - 1, rows as int);
    lemma_product_bounds(cols - 1, cols - 1, rows as int);
    if col + 1 < cols {
        lemma_product_bounds(col + 1, cols - 1, rows as int);
        lemma_product_bounds(col, col, rows as int);
    }
}

/// `widest` is an upper bound of its range, and one of its entries.
pub proof fn lemma_widest(widths: Seq<nat>, from: int, to: int)
    requires
        0 <= from <= to <= widths.len(),
    ensures
        forall|i: int| from <= i < to ==> widths[i] <= widest(widths, from, to),
        from < to ==> exists|i: int| from <= i < to && widths[i] == widest(widths, from, to),
    decreases to - from,
{
    if from < to {
        lemma_widest(widths, from, to - 1);
        if from < to - 1 && widest(widths, from, to - 1) >= widths[to - 1] {
            let i = choose|i: int| from <= i < to - 1 && widths[i] == widest(widths, from, to - 1);
            assert(from <= i < to && widths[i] == widest(widths, from, to));
        } else {
            assert(widths[to - 1] == widest(widths, from, to));
        }
    }
}

/// From `from` on, `first_fit` finds the first row count that fits, or
/// ends at the number of entries.
pub proof fn lemma_first_fit(widths: Seq<nat>, terminal_width: nat, from: nat)
    requires
        from <= widths.len(),
    ensures
        from <= first_fit(widths, terminal_width, from) <= widths.len(),
        forall|rows: nat|
            from <= rows < first_fit(widths, terminal_width, from) ==> !fits(
                widths,
                rows,
                terminal_width,
            ),
        first_fit(widths, terminal_width, from) < widths.len() ==> fits(
            widths,
            first_fit(widths, terminal_width, from),
            terminal_width,
        ),
    decreases widths.len() - from,
{
    if from < widths.len() && !fits(widths, from, terminal_width) {
        lemma_first_fit(widths, terminal_width, from + 1);
    }
}

/// The rows of the chosen grid lie between one and the number of entries,
/// and its grid is no wider than the terminal unless it is the grid of one
/// entry to a row, taken because no grid of fewer rows fits.
pub proof fn lemma_grid_within_terminal(widths: Seq<nat>, terminal_width: nat)
    requires
        widths.len() >= 1,
    ensures
        1 <= optimal_rows(widths, terminal_width) <= widths.len(),
        grid_width(widths, optimal_rows(widths, terminal_width)) <= terminal_width || (
        optimal_rows(widths, terminal_width) == widths.len() && forall|rows: nat|
            1 <= rows < widths.len() ==> !fits(widths, rows, terminal_width)),
{
    lemma_first_fit(widths, terminal_width, 1);
}

/// No grid of fewer rows than the chosen one fits the terminal.
pub proof fn lemma_rows_minimal(widths: Seq<nat>, terminal_width: nat, rows: nat)
    requires
        1 <= rows < optimal_rows(widths, terminal_width),
    ensures
        !fits(widths, rows, terminal_width),
{
    if widths.len() >= 1 {
        lemma_first_fit(widths, terminal_width, 1);
    }
}

/// Only one row count is the smallest that fits, or the number of entries
/// where none below it fits: the one chosen.
pub proof fn lemma_optimal_rows_unique(widths: Seq<nat>, terminal_width: nat, rows: nat)
    requires
        1 <= rows <= widths.len(),
        forall|fewer: nat| 1 <= fewer < rows ==> !fits(widths, fewer, terminal_width),
        rows < widths.len() ==> fits(widths, rows, terminal_width),
    ensures
        rows == optimal_rows(widths, terminal_width),
{
    lemma_first_fit(widths, terminal_width, 1);
}

/// Where the single line fits, it is chosen, whatever grid would fit too.
pub proof fn lemma_single_line_first(widths: Seq<nat>, terminal_width: nat)
    requires
        joined_width(widths) <= terminal_width,
    ensures
        arrangement(widths, terminal_width) == Shape::Joined,
{
}

/// A grid is chosen only for entries that do not fit one line, and it then
/// has the chosen rows, with one width for each of its columns.
pub proof fn lemma_grid_shape(widths: Seq<nat>, terminal_width: nat)
    requires
        arrangement(widths, terminal_width) is Grid,
    ensures
        widths.len() >= 1,
        joined_width(widths) > terminal_width,
        arrangement(widths, terminal_width)->rows == optimal_rows(widths, terminal_width),
        1 <= arrangement(widths, terminal_width)->rows <= widths.len(),
        arrangement(widths, terminal_width)->column_widths.len() == columns(
            widths.len(),
            arrangement(widths, terminal_width)->rows,
        ),
{
    lemma_first_fit(widths, terminal_width, 1);
}

/// A grid of fewer rows than entries has two columns or more, and so is at
/// least as wide as the gap.
pub proof fn lemma_gap_counts(widths: Seq<nat>, rows: nat)
    requires
        1 <= rows < widths.len(),
    ensures
        columns(widths.len(), rows) >= 2,
        grid_width(widths, rows) >= GAP,
{
    lemma_columns(widths.len(), rows);
}

/// On a terminal of width 0 every entry gets a row of its own.
pub proof fn lemma_zero_width(widths: Seq<nat>)
    requires
        widths.len() >= 2,
    ensures
        arrangement(widths, 0) == (Shape::Grid {
            rows: widths.len(),
            column_widths: column_widths(widths, widths.len()),
        }),
{
    assert forall|rows: nat| 1 <= rows < widths.len() implies !fits(widths, rows, 0) by {
        lemma_gap_counts(widths, rows);
    }
    lemma_first_fit(widths, 0, 1);
}

impl DisplayString {
    /// An entry with the width that its text takes on the screen.
    pub fn new(text: String, width: usize) -> (name: DisplayString)
        ensures
            name.text == text,
            name.width == width,
    {
        DisplayString { text, width }
    }

    /// An entry whose every character takes one column.
    pub fn plain(text: String) -> (name: DisplayString)
        ensures
            name.text == text,
            name.width == text@.len(),
    {
        let width = text.as_str().unicode_len();
        DisplayString { text, width }
    }
}

fn column_count(count: usize, rows: usize) -> (cols: usize)
    requires
        rows >= 1,
    ensures
        cols == columns(count as nat, rows as nat),
{
    proof {
        lemma_columns(count as nat, rows as nat);
    }
    if count % rows == 0 {
        count / rows
    } else {
        count / rows + 1
    }
}

/// The width of each column when the entries stand in `rows` rows.
pub fn calculate_column_widths(names: &Vec<DisplayString>, rows: usize) -> (col_widths: Vec<usize>)
    requires
        rows >= 1,
    ensures
        as_nats(col_widths@) == column_widths(widths(names@), rows as nat),
{
    let count = names.len();
    let cols = column_count(count, rows);
    let ghost w = widths(names@);
    let mut col_widths: Vec<usize> = Vec::new();
    let mut col: usize = 0;
    while col < cols
        invariant
            rows >= 1,
            count == names@.len(),
            w == widths(names@),
            cols == columns(count as nat, rows as nat),
            col <= cols,
            col_widths@.len() == col,
            forall|c: int|
                0 <= c < col ==> col_widths@[c] as nat == column_width(w, rows as nat, c),
        decreases cols - col,
    {
        proof {
            lemma_column_start(count as nat, rows as nat, col as int);
        }
        let base = col * rows;
        let mut best: usize = 0;
        let mut row: usize = 0;
        while row < rows && row < count - base
            invariant
                base < count,
                count == names@.len(),
                w == widths(names@),
                row <= rows,
                base + row <= count,
                best as nat == widest(w, base as int, base + row),
            decreases rows - row,
        {
            let width = names[base + row].width;
            if width > best {
                best = width;
            }
            row += 1;
        }
        col_widths.push(best);
        col += 1;
    }
    assert(as_nats(col_widths@) =~= column_widths(w, rows as nat));
    col_widths
}

fn sum_of(values: &Vec<usize>) -> (sum: u128)
    ensures
        sum == total(as_nats(values@)),
        sum <= values@.len() * 0xFFFF_FFFF_FFFF_FFFF,
{
    let ghost v = as_nats(values@);
    let mut sum: u128 = 0;
    let mut i: usize = 0;
    while i < values.len()
        invariant
            v == as_nats(values@),
            i <= values@.len(),
            sum == total(v.take(i as int)),
            sum <= i * 0xFFFF_FFFF_FFFF_FFFF,
        decreases values@.len() - i,
    {
        assert(v.take(i + 1).drop_last() =~= v.take(i as int));
        sum = sum + values[i] as u128;
        i += 1;
    }
    assert(v.take(i as int) =~= v);
    sum
}

fn sum_of_widths(names: &Vec<DisplayString>) -> (sum: u128)
    ensures
        sum == total(widths(names@)),
        sum <= names@.len() * 0xFFFF_FFFF_FFFF_FFFF,
{
    let ghost w = widths(names@);
    let mut sum: u128 = 0;
    let mut i: usize = 0;
    while i < names.len()
        invariant
            w == widths(names@),
            i <= names@.len(),
            sum == total(w.take(i as int)),
            sum <= i * 0xFFFF_FFFF_FFFF_FFFF,
        decreases names@.len() - i,
    {
        assert(w.take(i + 1).drop_last() =~= w.take(i as int));
        sum = sum + names[i].width as u128;
        i += 1;
    }
    assert(w.take(i as int) =~= w);
    sum
}

fn grid_fits(names: &Vec<DisplayString>, rows: usize, term_cols: usize) -> (ok: bool)
    requires
        1 <= rows,
        names@.len() >= 1,
    ensures
        ok == fits(widths(names@), rows as nat, term_cols as nat),
{
    let col_widths = calculate_column_widths(names, rows);
    let cols = col_widths.len();
    proof {
        lemma_columns(names@.len(), rows as nat);
    }
    sum_of(&col_widths) + GAP as u128 * (cols as u128 - 1) <= term_cols as u128
}

/// The number of rows of the grid: the fewest, from one row up, whose grid
/// is no wider than `term_cols`; one row for each entry where none is.
pub fn calculate_optimal_layout(names: &Vec<DisplayString>, term_cols: usize) -> (rows: usize)
    ensures
        rows == optimal_rows(widths(names@), term_cols as nat),
{
    let count = names.len();
    let mut rows: usize = 1;
    while rows < count
        invariant
            1 <= rows,
            count == names@.len(),
            first_fit(widths(names@), term_cols as nat, rows as nat) == optimal_rows(
                widths(names@),
                term_cols as nat,
            ),
        decreases count - rows,
    {
        if grid_fits(names, rows, term_cols) {
            return rows;
        }
        rows += 1;
    }
    count
}

/// Chooses the arrangement of `names` for a terminal of `terminal_width`
/// columns.
pub fn layout(names: &Vec<DisplayString>, terminal_width: usize) -> (shape: Arrangement)
    ensures
        shape@ == arrangement(widths(names@), terminal_width as nat),
        names@.len() == 0 || joined_width(widths(names@)) <= terminal_width
            <==> shape is Joined,
        shape matches Arrangement::Grid { rows, column_widths } ==> {
            &&& 1 <= rows <= names@.len()
            &&& column_widths@.len() == columns(names@.len(), rows as nat)
            &&& forall|fewer: nat|
                1 <= fewer < rows ==> !fits(widths(names@), fewer, terminal_width as nat)
            &&& grid_width(widths(names@), rows as nat) <= terminal_width || rows
                == names@.len()
        },
{
    let count = names.len();
    proof {
        if count >= 1 {
            lemma_first_fit(widths(names@), terminal_width as nat, 1);
        }
    }
    if count == 0 {
        return Arrangement::Joined;
    }
    if sum_of_widths(names) + (count as u128 - 1) <= terminal_width as u128 {
        return Arrangement::Joined;
    }
    let rows = calculate_optimal_layout(names, terminal_width);
    let column_widths = calculate_column_widths(names, rows);
    assert(as_nats(column_widths@).len() == column_widths@.len());
    Arrangement::Grid { rows, column_widths }
}

} // verus!
