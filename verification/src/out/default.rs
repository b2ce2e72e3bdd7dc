//! The grid view: names packed column by column into as few rows as the
//! terminal's width allows.

use crate::element::{element_views, rendered_text, Element, ElementView};
use crate::utils::{
    get_string_length, pad_string, pad_text, sort_elements, sorted_views, terminal_width, SortBy,
};
use vstd::prelude::*;
use vstd::string::*;

verus! {

/// Widths as natural numbers.
pub open spec fn as_nats(widths: Seq<usize>) -> Seq<nat> {
    widths.map_values(|w: usize| w as nat)
}

/// The display width of each text.
pub open spec fn lengths(cells: Seq<Seq<char>>) -> Seq<nat> {
    cells.map_values(|c: Seq<char>| c.len())
}

/// The greatest of `widths[start..end]`, 0 where the range is empty.
pub open spec fn block_width(widths: Seq<nat>, start: int, end: int) -> nat
    decreases end - start,
{
    if start >= end {
        0
    } else {
        let rest = block_width(widths, start, end - 1);
        if widths[end - 1] > rest {
            widths[end - 1]
        } else {
            rest
        }
    }
}

/// Where the column that starts at entry `start` ends: `rows` entries on,
/// or at the last entry.
pub open spec fn column_end(n: int, rows: int, start: int) -> int {
    if start + rows < n {
        start + rows
    } else {
        n
    }
}

/// The width of the column that starts at entry `start`: that of its widest
/// entry.
pub open spec fn column_width(widths: Seq<nat>, rows: int, start: int) -> nat {
    block_width(widths, start, column_end(widths.len() as int, rows, start))
}

/// The summed widths of the columns from the one that starts at entry
/// `start` on, where each column holds `rows` entries in a row and the last
/// one what is left.
pub open spec fn total_width_from(widths: Seq<nat>, rows: int, start: int) -> nat
    decreases widths.len() - start,
{
    if start >= widths.len() || rows < 1 || start < 0 {
        0
    } else {
        column_width(widths, rows, start) + total_width_from(
            widths,
            rows,
            column_end(widths.len() as int, rows, start),
        )
    }
}

/// The width of the grid with `rows` rows: the sum of its column widths.
pub open spec fn total_width(widths: Seq<nat>, rows: int) -> nat {
    total_width_from(widths, rows, 0)
}

/// Whether the grid with `rows` rows fits a terminal of `width` columns: its
/// width stays below `width - 1`.
pub open spec fn fits(widths: Seq<nat>, rows: int, width: int) -> bool {
    total_width(widths, rows) < width - 1
}

/// The first number of rows from `rows` on whose grid fits; the number of
/// entries, which makes a single column, where none fits.
pub open spec fn first_fit_from(widths: Seq<nat>, width: int, rows: int) -> int
    decreases widths.len() - rows,
{
    if rows >= widths.len() || fits(widths, rows, width) {
        rows
    } else {
        first_fit_from(widths, width, rows + 1)
    }
}

/// The number of rows of the grid: the least that fits, at least 1.
pub open spec fn grid_rows(widths: Seq<nat>, width: int) -> int {
    first_fit_from(widths, width, 1)
}

/// Row `k` of the grid from the column that starts at entry `start` on:
/// from each column its entry `k`, padded to the column's width; a column
/// that is too short to have one ends the row.
pub open spec fn line_from(cells: Seq<Seq<char>>, rows: int, k: int, start: int) -> Seq<char>
    decreases cells.len() - start,
{
    if start + k >= cells.len() || rows < 1 || start < 0 || k < 0 {
        Seq::empty()
    } else {
        pad_text(cells[start + k], column_width(lengths(cells), rows, start), true) + line_from(
            cells,
            rows,
            k,
            column_end(cells.len() as int, rows, start),
        )
    }
}

/// The first `upto` rows of the grid, each closed by a line feed.
pub open spec fn lines_upto(cells: Seq<Seq<char>>, rows: int, upto: int) -> Seq<char>
    decreases upto,
{
    if upto <= 0 {
        Seq::empty()
    } else {
        lines_upto(cells, rows, upto - 1) + line_from(cells, rows, upto - 1, 0) + "\n"@
    }
}

/// The grid of `cells` for a terminal of `width` columns: its rows, then an
/// empty line.
pub open spec fn grid_text(cells: Seq<Seq<char>>, width: int) -> Seq<char> {
    let rows = grid_rows(lengths(cells), width);
    lines_upto(cells, rows, rows) + "\n"@
}

/// The cells of the grid view: the entries sorted by name, each as a
/// listing shows it.
pub open spec fn grid_cells(s: Seq<ElementView>) -> Seq<Seq<char>> {
    sorted_views(s, SortBy::NAME).map_values(|e: ElementView| rendered_text(e))
}

/// The number of columns of a grid of `n` entries in `rows` rows: `n / rows`
/// rounded up.
pub open spec fn column_count(n: int, rows: int) -> int {
    (n + rows - 1) / rows
}

/// The summed widths of the first `cols` columns, where column `j` holds
/// the entries from `rows * j` up to `rows * (j + 1)`, as far as there are
/// entries.
pub open spec fn width_of_columns(widths: Seq<nat>, rows: int, cols: int) -> nat
    decreases cols,
{
    if cols <= 0 {
        0
    } else {
        let end = if rows * cols < widths.len() {
            rows * cols
        } else {
            widths.len() as int
        };
        width_of_columns(widths, rows, cols - 1) + block_width(widths, rows * (cols - 1), end)
    }
}

/// Where column `j` starts, and that there are `column_count` columns.
proof fn lemma_column_bounds(n: int, rows: int, j: int)
    requires
        rows >= 1,
        n >= 0,
        0 <= j,
    ensures
        j < column_count(n, rows) <==> rows * j < n,
        rows * (j + 1) == rows * j + rows,
        column_count(n, rows) >= 0,
{
    let q = column_count(n, rows);
    vstd::arithmetic::div_mod::lemma_fundamental_div_mod(n + rows - 1, rows);
    vstd::arithmetic::div_mod::lemma_mod_bound(n + rows - 1, rows);
    assert(rows * (j + 1) == rows * j + rows) by (nonlinear_arith);
    if j < q {
        assert(rows * j <= rows * (q - 1)) by (nonlinear_arith)
            requires
                rows >= 1,
                0 <= j <= q - 1,
        ;
        assert(rows * (q - 1) == rows * q - rows) by (nonlinear_arith);
    } else {
        assert(rows * j >= rows * q) by (nonlinear_arith)
            requires
                rows >= 1,
                j >= q,
        ;
    }
}

/// The first `j` columns and the columns from column `j` on make the grid.
proof fn lemma_width_from_column(widths: Seq<nat>, rows: int, j: int)
    requires
        rows >= 1,
        0 <= j <= column_count(widths.len() as int, rows),
    ensures
        width_of_columns(widths, rows, j) + total_width_from(
            widths,
            rows,
            if rows * j < widths.len() {
                rows * j
            } else {
                widths.len() as int
            },
        ) == total_width(widths, rows),
    decreases j,
{
    if j == 0 {
        assert(rows * 0 == 0) by (nonlinear_arith);
    } else {
        lemma_width_from_column(widths, rows, j - 1);
        lemma_column_bounds(widths.len() as int, rows, j - 1);
    }
}

/// The grid with `rows` rows has `column_count` columns, column `j` holding
/// the entries from `rows * j` on, and its width is the sum of their widths.
pub proof fn lemma_total_width_by_columns(widths: Seq<nat>, rows: int)
    requires
        rows >= 1,
    ensures
        total_width(widths, rows) == width_of_columns(
            widths,
            rows,
            column_count(widths.len() as int, rows),
        ),
{
    let n = widths.len() as int;
    let cols = column_count(n, rows);
    lemma_column_bounds(n, rows, cols);
    lemma_width_from_column(widths, rows, cols);
}

/// The chosen number of rows is the least that fits: where a single column
/// fits the terminal, the chosen grid fits it, and no grid with fewer rows
/// does.
pub proof fn lemma_grid_rows_least(widths: Seq<nat>, width: int)
    requires
        fits(widths, if widths.len() > 1 { widths.len() as int } else { 1 }, width),
    ensures
        fits(widths, grid_rows(widths, width), width),
        forall|rows: int| 1 <= rows < grid_rows(widths, width) ==> !fits(widths, rows, width),
{
    lemma_first_fit(widths, width, 1);
}

/// The search for the number of rows stops at the first grid that fits and
/// never goes past a single column.
pub proof fn lemma_first_fit(widths: Seq<nat>, width: int, from: int)
    requires
        1 <= from,
    ensures
        from <= first_fit_from(widths, width, from),
        first_fit_from(widths, width, from) <= widths.len() || first_fit_from(widths, width, from)
            == from,
        forall|rows: int|
            from <= rows < first_fit_from(widths, width, from) ==> !fits(widths, rows, width),
        fits(widths, first_fit_from(widths, width, from), width) || first_fit_from(
            widths,
            width,
            from,
        ) >= widths.len(),
    decreases widths.len() - from,
{
    if from < widths.len() && !fits(widths, from, width) {
        lemma_first_fit(widths, width, from + 1);
    }
}

fn widest_in(widths: &Vec<usize>, start: usize, end: usize) -> (widest: usize)
    requires
        start <= end <= widths.len(),
    ensures
        widest == block_width(as_nats(widths@), start as int, end as int),
{
    let mut widest: usize = 0;
    let mut i: usize = start;
    while i < end
        invariant
            start <= i <= end <= widths.len(),
            widest == block_width(as_nats(widths@), start as int, i as int),
        decreases end - i,
    {
        if widths[i] > widest {
            widest = widths[i];
        }
        i += 1;
    }
    widest
}

fn end_of_column(n: usize, rows: usize, start: usize) -> (end: usize)
    requires
        start <= n,
    ensures
        end == column_end(n as int, rows as int, start as int),
{
    if n - start > rows {
        start + rows
    } else {
        n
    }
}

/// Whether the grid of entries that wide, with `rows` rows, fits a terminal
/// of `width` columns. A grid without rows has no width.
pub fn fits_width(widths: &Vec<usize>, rows: usize, width: usize) -> (ok: bool)
    ensures
        ok == fits(as_nats(widths@), rows as int, width as int),
{
    if width <= 1 {
        return false;
    }
    if rows == 0 {
        return true;
    }
    let bound: usize = width - 1;
    let n = widths.len();
    let ghost ws = as_nats(widths@);
    let mut total: usize = 0;
    let mut start: usize = 0;
    while start < n
        invariant
            start <= n,
            n == widths.len(),
            rows >= 1,
            ws == as_nats(widths@),
            bound == width - 1,
            total < bound,
            total + total_width_from(ws, rows as int, start as int) == total_width(
                ws,
                rows as int,
            ),
        decreases n - start,
    {
        let end = end_of_column(n, rows, start);
        let w = widest_in(widths, start, end);
        if w >= bound - total {
            return false;
        }
        total = total + w;
        start = end;
    }
    true
}

/// The number of rows of the grid of entries that wide on a terminal of
/// `width` columns: the least whose grid fits, and a single column where
/// none does.
pub fn row_count(widths: &Vec<usize>, width: usize) -> (rows: usize)
    ensures
        rows == grid_rows(as_nats(widths@), width as int),
        1 <= rows,
        rows <= widths.len() || rows == 1,
        forall|fewer: int| 1 <= fewer < rows ==> !fits(as_nats(widths@), fewer, width as int),
        fits(as_nats(widths@), rows as int, width as int) || rows >= widths.len(),
{
    let n = widths.len();
    let ghost ws = as_nats(widths@);
    let mut rows: usize = 1;
    proof {
        lemma_first_fit(ws, width as int, 1);
    }
    while rows < n && !fits_width(widths, rows, width)
        invariant
            1 <= rows,
            rows <= n || rows == 1,
            n == widths.len(),
            ws == as_nats(widths@),
            first_fit_from(ws, width as int, 1) == first_fit_from(ws, width as int, rows as int),
        decreases n - rows,
    {
        rows += 1;
    }
    rows
}

/// Lays texts out as a grid for a terminal of `width` columns: column by
/// column, each text padded to the width of its column, in the least number
/// of rows that fits.
pub fn pack_grid(cells: &Vec<String>, width: usize) -> (text: String)
    ensures
        text@ == grid_text(cells@.map_values(|c: String| c@), width as int),
{
    let n = cells.len();
    let ghost cs = cells@.map_values(|c: String| c@);
    let mut widths: Vec<usize> = Vec::new();
    let mut i: usize = 0;
    while i < n
        invariant
            i <= n,
            n == cells.len(),
            widths.len() == i,
            forall|j: int| 0 <= j < i ==> #[trigger] widths@[j] == cells@[j]@.len(),
        decreases n - i,
    {
        widths.push(get_string_length(cells[i].as_str()));
        i += 1;
    }
    let rows = row_count(&widths, width);
    let mut text = String::new();
    let mut k: usize = 0;
    while k < rows
        invariant
            k <= rows,
            1 <= rows,
            n == cells.len(),
            n == widths.len(),
            cs == cells@.map_values(|c: String| c@),
            as_nats(widths@) == lengths(cs),
            text@ == lines_upto(cs, rows as int, k as int),
        decreases rows - k,
    {
        let ghost done = text@;
        let mut start: usize = 0;
        while start < n && k < n - start
            invariant
                start <= n,
                k < rows,
                n == cells.len(),
                n == widths.len(),
                cs == cells@.map_values(|c: String| c@),
                as_nats(widths@) == lengths(cs),
                text@ + line_from(cs, rows as int, k as int, start as int) == done + line_from(
                    cs,
                    rows as int,
                    k as int,
                    0,
                ),
            decreases n - start,
        {
            let end = end_of_column(n, rows, start);
            let w = widest_in(&widths, start, end);
            let cell = pad_string(cells[start + k].clone(), w, true);
            text.append(cell.as_str());
            start = end;
        }
        proof {
            reveal_strlit("\n");
        }
        text.append("\n");
        k += 1;
    }
    text.append("\n");
    text
}

/// The grid view of `elements` for a terminal of `width` columns: the
/// entries sorted by name, each with its glyph, and behind the grid an
/// empty line.
pub fn render_grid(elements: Vec<Element>, width: usize) -> (text: String)
    ensures
        text@ == grid_text(grid_cells(element_views(elements@)), width as int),
{
    let mut elements = elements;
    let ghost given = element_views(elements@);
    sort_elements(&mut elements, &SortBy::NAME);
    let mut cells: Vec<String> = Vec::new();
    let mut i: usize = 0;
    while i < elements.len()
        invariant
            i <= elements.len(),
            cells.len() == i,
            element_views(elements@) == sorted_views(given, SortBy::NAME),
            forall|j: int| 0 <= j < i ==> (#[trigger] cells@[j])@ == rendered_text(elements@[j]@),
        decreases elements.len() - i,
    {
        cells.push(elements[i].to_string());
        i += 1;
    }
    assert(cells@.map_values(|c: String| c@) =~= grid_cells(given));
    pack_grid(&cells, width)
}

/// The grid view of `elements` for the terminal that the process writes
/// to; `None` where there is no terminal to measure.
pub fn default(elements: Vec<Element>) -> (text: Option<String>)
    ensures
        text matches Some(t) ==> exists|width: usize|
            t@ == grid_text(grid_cells(element_views(elements@)), width as int),
{
    grid_for_terminal(elements, terminal_width())
}

/// The grid view of `elements` for a terminal that was asked for its
/// width: `terminal` is its answer, `None` where there is no terminal to
/// measure. With a width the view is the grid for that width; without one
/// there is no view.
pub fn grid_for_terminal(
    elements: Vec<Element>,
    terminal: Option<usize>,
) -> (text: Option<String>)
    ensures
        match terminal {
            Some(width) => text matches Some(t) && t@ == grid_text(
                grid_cells(element_views(elements@)),
                width as int,
            ),
            None => text is None,
        },
{
    match terminal {
        Some(width) => Some(render_grid(elements, width)),
        None => None,
    }
}

} // verus!
