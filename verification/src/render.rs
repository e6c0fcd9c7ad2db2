//! Turns an arrangement into the text that goes to the terminal.

use crate::layout::{
    arrangement, as_nats, calculate_column_widths, column_width, column_widths, columns, layout,
    lemma_column_start, lemma_columns, lemma_first_fit, lemma_widest, texts, total, widths,
    Arrangement, DisplayString, Shape, GAP,
};
use crate::text::{
    joined, lemma_trim_end_idempotent, push_spaces, repeated, trim_end, trim_line,
};
use vstd::prelude::*;
use vstd::string::*;

verus! {

/// Columns assumed where the terminal does not tell its width.
pub const DEFAULT_COLUMNS: usize = 80;

/// What stands in `row` of column `col`: nothing where the grid has no
/// entry there; else the entry's text, followed in every column but the
/// last by spaces up to the column's width and by the gap.
pub open spec fn cell(
    texts: Seq<Seq<char>>,
    widths: Seq<nat>,
    rows: nat,
    row: int,
    col: int,
) -> Seq<char> {
    let index = col * rows + row;
    if index < texts.len() {
        if col + 1 < columns(texts.len(), rows) {
            texts[index] + repeated(
                ' ',
                (column_width(widths, rows, col) - widths[index] + GAP) as nat,
            )
        } else {
            texts[index]
        }
    } else {
        Seq::empty()
    }
}

/// The cells of `row` in the columns before `upto`, one after the other.
pub open spec fn cells(
    texts: Seq<Seq<char>>,
    widths: Seq<nat>,
    rows: nat,
    row: int,
    upto: int,
) -> Seq<char>
    decreases upto,
{
    if upto <= 0 {
        Seq::empty()
    } else {
        cells(texts, widths, rows, row, upto - 1) + cell(texts, widths, rows, row, upto - 1)
    }
}

/// One line of the grid: the cells of `row`, without white space at the end.
pub open spec fn grid_line(texts: Seq<Seq<char>>, widths: Seq<nat>, rows: nat, row: int) -> Seq<
    char,
> {
    trim_end(cells(texts, widths, rows, row, columns(texts.len(), rows) as int))
}

/// The lines of the grid with `rows` rows, from the top.
pub open spec fn grid_lines(texts: Seq<Seq<char>>, widths: Seq<nat>, rows: nat) -> Seq<Seq<char>> {
    Seq::new(rows, |row: int| grid_line(texts, widths, rows, row))
}

/// The grid as one text: its lines with a line break between each two, and
/// no white space at the end.
pub open spec fn grid_text(texts: Seq<Seq<char>>, widths: Seq<nat>, rows: nat) -> Seq<char> {
    trim_end(joined(grid_lines(texts, widths, rows), seq!['\n']))
}

/// The listing for a terminal of `terminal_width` columns: the entries on
/// one line where `arrangement` says so, else its grid.
pub open spec fn rendering(texts: Seq<Seq<char>>, widths: Seq<nat>, terminal_width: nat) -> Seq<
    char,
> {
    match arrangement(widths, terminal_width) {
        Shape::Joined => joined(texts, seq![' ']),
        Shape::Grid { rows, .. } => grid_text(texts, widths, rows),
    }
}

/// The listing depends on nothing but the texts, the widths and the
/// terminal's width: entries that agree in these are arranged and written
/// alike.
pub proof fn lemma_rendering_deterministic(
    first: Seq<DisplayString>,
    second: Seq<DisplayString>,
    terminal_width: nat,
)
    requires
        texts(first) == texts(second),
        widths(first) == widths(second),
    ensures
        arrangement(widths(first), terminal_width) == arrangement(widths(second), terminal_width),
        rendering(texts(first), widths(first), terminal_width) == rendering(
            texts(second),
            widths(second),
            terminal_width,
        ),
{
}

/// A single entry is written as it is, without padding, whatever the
/// terminal's width; where it does not fit, without the white space at its
/// end.
pub proof fn lemma_single_entry(texts: Seq<Seq<char>>, widths: Seq<nat>, terminal_width: nat)
    requires
        texts.len() == 1,
        widths.len() == 1,
    ensures
        widths[0] <= terminal_width ==> rendering(texts, widths, terminal_width) == texts[0],
        widths[0] > terminal_width ==> rendering(texts, widths, terminal_width) == trim_end(
            texts[0],
        ),
{
    lemma_trim_end_idempotent(texts[0]);
    assert(total(widths) == widths[0]) by {
        assert(widths.drop_last().len() == 0);
        assert(total(widths.drop_last()) == 0);
    }
    if widths[0] > terminal_width {
        lemma_first_fit(widths, terminal_width, 1);
        lemma_columns(1, 1);
        let lines = grid_lines(texts, widths, 1);
        assert(cells(texts, widths, 1, 0, 0) =~= Seq::<char>::empty());
        assert(cells(texts, widths, 1, 0, 1) =~= texts[0]);
        assert(lines.len() == 1);
        assert(lines[0] == trim_end(texts[0]));
    }
}

/// The width to lay out for: the one asked for; else the width that the
/// terminal reports, unless that is 0; else `DEFAULT_COLUMNS`.
pub fn terminal_columns(requested: Option<usize>, detected: Option<(u16, u16)>) -> (width: usize)
    ensures
        width == match (requested, detected) {
            (Some(asked), _) => asked,
            (None, Some(size)) => if size.0 > 0 {
                size.0 as usize
            } else {
                DEFAULT_COLUMNS
            },
            (None, None) => DEFAULT_COLUMNS,
        },
{
    match requested {
        Some(asked) => asked,
        None => match detected {
            Some(size) => if size.0 > 0 {
                size.0 as usize
            } else {
                DEFAULT_COLUMNS
            },
            None => DEFAULT_COLUMNS,
        },
    }
}

/// The texts of `names` with `sep` between each two.
fn join_names(names: &Vec<DisplayString>, sep: &str) -> (out: String)
    ensures
        out@ == joined(texts(names@), sep@),
{
    let ghost t = texts(names@);
    let mut out = String::new();
    let mut i: usize = 0;
    while i < names.len()
        invariant
            t == texts(names@),
            i <= names@.len(),
            out@ == joined(t.take(i as int), sep@),
        decreases names@.len() - i,
    {
        assert(t.take(i + 1).drop_last() =~= t.take(i as int));
        if i > 0 {
            out.append(sep);
        }
        out.append(names[i].text.as_str());
        i += 1;
        assert(out@ =~= joined(t.take(i as int), sep@));
    }
    assert(t.take(i as int) =~= t);
    out
}

fn render_rows(names: &Vec<DisplayString>, rows: usize, col_widths: &Vec<usize>) -> (out: String)
    requires
        rows >= 1,
        as_nats(col_widths@) == column_widths(widths(names@), rows as nat),
    ensures
        out@ == grid_text(texts(names@), widths(names@), rows as nat),
{
    let ghost t = texts(names@);
    let ghost w = widths(names@);
    let ghost lines = grid_lines(t, w, rows as nat);
    let count = names.len();
    let cols = col_widths.len();
    proof {
        reveal_strlit("\n");
        assert("\n"@ =~= seq!['\n']);
        assert(as_nats(col_widths@).len() == cols);
    }
    let mut output = String::new();
    let mut row: usize = 0;
    while row < rows
        invariant
            rows >= 1,
            count == names@.len(),
            t == texts(names@),
            w == widths(names@),
            lines == grid_lines(t, w, rows as nat),
            cols == columns(count as nat, rows as nat),
            cols == col_widths@.len(),
            as_nats(col_widths@) == column_widths(w, rows as nat),
            row <= rows,
            "\n"@ == seq!['\n'],
            output@ == joined(lines.take(row as int), seq!['\n']),
        decreases rows - row,
    {
        let mut line = String::new();
        let mut col: usize = 0;
        while col < cols
            invariant
                rows >= 1,
                row < rows,
                count == names@.len(),
                t == texts(names@),
                w == widths(names@),
                cols == columns(count as nat, rows as nat),
                cols == col_widths@.len(),
                as_nats(col_widths@) == column_widths(w, rows as nat),
                col <= cols,
                line@ == cells(t, w, rows as nat, row as int, col as int),
            decreases cols - col,
        {
            proof {
                lemma_column_start(count as nat, rows as nat, col as int);
            }
            let base = col * rows;
            if row < count - base {
                let name = &names[base + row];
                line.append(name.text.as_str());
                if col + 1 < cols {
                    proof {
                        lemma_widest(w, base as int, base + rows);
                        assert(as_nats(col_widths@)[col as int] == column_width(
                            w,
                            rows as nat,
                            col as int,
                        ));
                        assert(w[base + row] == name.width);
                    }
                    let padding = col_widths[col] - name.width;
                    push_spaces(&mut line, padding);
                    push_spaces(&mut line, GAP);
                    assert(repeated(' ', padding as nat) + repeated(' ', GAP as nat) =~= repeated(
                        ' ',
                        (padding + GAP) as nat,
                    ));
                }
            }
            col += 1;
            assert(line@ =~= cells(t, w, rows as nat, row as int, col as int));
        }
        assert(lines.take(row + 1).drop_last() =~= lines.take(row as int));
        if row > 0 {
            output.append("\n");
        }
        output.append(trim_line(line.as_str()));
        row += 1;
        assert(output@ =~= joined(lines.take(row as int), seq!['\n']));
    }
    assert(lines.take(row as int) =~= lines);
    trim_line(output.as_str()).to_owned()
}

/// Writes the grid with `rows` rows.
pub fn render_grid(names: &Vec<DisplayString>, rows: usize) -> (out: String)
    requires
        rows >= 1,
    ensures
        out@ == grid_text(texts(names@), widths(names@), rows as nat),
{
    let col_widths = calculate_column_widths(names, rows);
    render_rows(names, rows, &col_widths)
}

/// Lays the entries out for a terminal of `term_cols` columns and writes
/// them: on one line where that fits, else in the grid with the fewest rows
/// that fits.
pub fn format_with_terminal_width(names: Vec<DisplayString>, term_cols: usize) -> (out: String)
    ensures
        out@ == rendering(texts(names@), widths(names@), term_cols as nat),
{
    proof {
        reveal_strlit(" ");
        assert(" "@ =~= seq![' ']);
    }
    match layout(&names, term_cols) {
        Arrangement::Joined => join_names(&names, " "),
        Arrangement::Grid { rows, column_widths } => {
            proof {
                lemma_first_fit(widths(names@), term_cols as nat, 1);
            }
            render_rows(&names, rows, &column_widths)
        },
    }
}

} // verus!
