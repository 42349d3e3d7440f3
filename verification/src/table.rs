//! Table layout: the least width of every column, the lines and the height
//! of every row, and the drawing of rows and their borders.

use crate::columns::{fit_columns, fitted, ints, sum_to, MAX_MIN_WIDTH};
use crate::draw::{
    emit, ops_view, paragraph_ops, render_paragraph_lines, DrawOp, DrawOpView, LineSetting,
};
use crate::flow::{
    build_paragraph_lines, line_drawable, lines_drawable, lines_view, paragraph_lines, LineView,
    TextLine, MAX_WORD_WIDTH,
};
use crate::fonts::{measure, text_width, FontTable};
use crate::metrics::{
    ascent, ascent_of, first_ascender_ratio, first_line_ratio, first_size, font_metric,
    line_height, line_height_of, DEFAULT_FONT_SIZE, DEFAULT_LINE_HEIGHT, MAX_LINE_HEIGHT,
};
use crate::model::{
    cell_chars, lemma_cell_chars_monotonic, lemma_total_chars_monotonic, runs_wf, total_chars,
    Alignment, Document, Paragraph, Run, Table, TableCell, TableRow,
};
use crate::page::{at_top, is_at_top, page_top, turned, Layout, PageBuilder, MIN_SLOT};
use crate::text::{chars_of, lemma_word_spans, spans_view, split_words, word_spans, words};
use crate::units::{max_i64, max_int, MAX_CELL_CHARS, MAX_COORD, MAX_RATIO};
use vstd::prelude::*;

verus! {

/// Space between the left edge of a cell and its text.
pub const TABLE_CELL_PAD_LEFT: i64 = 5_400;

/// Thickness of the rules around a cell.
pub const TABLE_BORDER_WIDTH: i64 = 500;

/// The width of the widest of the first `n` words of a text.
pub open spec fn widest_word(widths: Seq<i64>, s: Seq<char>, size: int, n: int) -> int
    decreases n,
{
    if n <= 0 {
        0
    } else {
        max_int(widest_word(widths, s, size, n - 1), text_width(widths, words(s)[n - 1], size))
    }
}

/// The width of the widest word of a run at the run's size; nothing for a run
/// whose font is not registered.
pub open spec fn run_widest(run: Run, fonts: FontTable) -> int {
    match fonts.entry_of(run) {
        Some(i) => widest_word(
            fonts.entries@[i].widths_1000@,
            run.text@,
            run.font_size as int,
            words(run.text@).len() as int,
        ),
        None => 0,
    }
}

pub open spec fn runs_widest(runs: Seq<Run>, fonts: FontTable, n: int) -> int
    decreases n,
{
    if n <= 0 {
        0
    } else {
        max_int(runs_widest(runs, fonts, n - 1), run_widest(runs[n - 1], fonts))
    }
}

pub open spec fn paragraphs_widest(paragraphs: Seq<Paragraph>, fonts: FontTable, n: int) -> int
    decreases n,
{
    if n <= 0 {
        0
    } else {
        max_int(
            paragraphs_widest(paragraphs, fonts, n - 1),
            runs_widest(paragraphs[n - 1].runs@, fonts, paragraphs[n - 1].runs@.len() as int),
        )
    }
}

/// The width of the widest word in a cell.
pub open spec fn cell_widest(cell: TableCell, fonts: FontTable) -> int {
    paragraphs_widest(cell.paragraphs@, fonts, cell.paragraphs@.len() as int)
}

/// The least width of column `ci`, going by the first `n` rows: the width of
/// the widest word in a cell of the column.
pub open spec fn column_min(rows: Seq<TableRow>, fonts: FontTable, ci: int, n: int) -> int
    decreases n,
{
    if n <= 0 {
        0
    } else {
        let before = column_min(rows, fonts, ci, n - 1);
        if ci < rows[n - 1].cells@.len() {
            max_int(before, cell_widest(rows[n - 1].cells@[ci], fonts))
        } else {
            before
        }
    }
}

/// The least widths of a table's columns.
pub open spec fn column_mins(table: Table, fonts: FontTable) -> Seq<int> {
    Seq::new(
        table.col_widths@.len(),
        |ci: int| column_min(table.rows@, fonts, ci, table.rows@.len() as int),
    )
}

fn widest_in_run(run: &Run, fonts: &FontTable) -> (w: i64)
    requires
        fonts.wf(),
        run.wf(),
    ensures
        w == run_widest(*run, *fonts),
        0 <= w <= MAX_MIN_WIDTH,
{
    match fonts.find(run) {
        Some(idx) => {
            let entry = &fonts.entries[idx];
            let chars = chars_of(run.text.as_str());
            let spans = split_words(&chars);
            proof {
                lemma_word_spans(chars@, 0);
            }
            let mut w: i64 = 0;
            let mut i: usize = 0;
            while i < spans.len()
                invariant
                    i <= spans@.len(),
                    entry.wf(),
                    run.wf(),
                    chars@ == run.text@,
                    spans_view(spans@) == word_spans(chars@, 0),
                    spans@.len() == word_spans(chars@, 0).len(),
                    forall|n: int|
                        0 <= n < word_spans(chars@, 0).len() ==> {
                            let p = #[trigger] word_spans(chars@, 0)[n];
                            0 <= p.0 < p.1 <= chars@.len()
                        },
                    w == widest_word(
                        entry.widths_1000@,
                        run.text@,
                        run.font_size as int,
                        i as int,
                    ),
                    0 <= w <= MAX_MIN_WIDTH,
                decreases spans.len() - i,
            {
                let (a, b) = spans[i];
                proof {
                    assert(word_spans(chars@, 0)[i as int] == (a as int, b as int));
                }
                let ww = measure(&entry.widths_1000, &chars, a, b, run.font_size);
                w = max_i64(w, ww);
                i += 1;
            }
            w
        },
        None => 0,
    }
}

fn widest_in_cell(cell: &TableCell, fonts: &FontTable) -> (w: i64)
    requires
        fonts.wf(),
        cell.wf(),
    ensures
        w == cell_widest(*cell, *fonts),
        0 <= w <= MAX_MIN_WIDTH,
{
    let mut w: i64 = 0;
    let mut p: usize = 0;
    while p < cell.paragraphs.len()
        invariant
            p <= cell.paragraphs@.len(),
            fonts.wf(),
            cell.wf(),
            w == paragraphs_widest(cell.paragraphs@, *fonts, p as int),
            0 <= w <= MAX_MIN_WIDTH,
        decreases cell.paragraphs.len() - p,
    {
        let para = &cell.paragraphs[p];
        let mut v: i64 = 0;
        let mut r: usize = 0;
        while r < para.runs.len()
            invariant
                r <= para.runs@.len(),
                fonts.wf(),
                runs_wf(para.runs@),
                v == runs_widest(para.runs@, *fonts, r as int),
                0 <= v <= MAX_MIN_WIDTH,
            decreases para.runs.len() - r,
        {
            v = max_i64(v, widest_in_run(&para.runs[r], fonts));
            r += 1;
        }
        w = max_i64(w, v);
        p += 1;
    }
    w
}

/// Fits the columns of a table to the words in them.
///
/// The least width of a column is the width of the widest word in it. A
/// column narrower than that is grown, and the columns that have width to
/// spare give it up in proportion to what they can spare. Where they cannot
/// spare enough, the least widths are scaled down. The fitted widths add up
/// to the sum of the width hints.
pub fn auto_fit_columns(table: &Table, seen_fonts: &FontTable) -> (widths: Vec<i64>)
    requires
        seen_fonts.wf(),
        table.wf(),
    ensures
        ints(widths@) == fitted(ints(table.col_widths@), column_mins(*table, *seen_fonts)),
        widths@.len() == table.col_widths@.len(),
        forall|i: int| 0 <= i < widths@.len() ==> 0 <= #[trigger] widths@[i] <= MAX_MIN_WIDTH,
        sum_to(ints(widths@), widths@.len() as int) == sum_to(
            ints(table.col_widths@),
            table.col_widths@.len() as int,
        ),
{
    let ncols = table.col_widths.len();
    let mut mins: Vec<i64> = Vec::new();
    let mut c: usize = 0;
    while c < ncols
        invariant
            c <= ncols,
            mins@.len() == c,
            forall|k: int| 0 <= k < c ==> #[trigger] mins@[k] == 0,
        decreases ncols - c,
    {
        mins.push(0);
        c += 1;
    }
    let mut r: usize = 0;
    while r < table.rows.len()
        invariant
            r <= table.rows@.len(),
            seen_fonts.wf(),
            table.wf(),
            ncols == table.col_widths@.len(),
            mins@.len() == ncols,
            forall|k: int|
                0 <= k < ncols ==> #[trigger] mins@[k] as int == column_min(
                    table.rows@,
                    *seen_fonts,
                    k,
                    r as int,
                ),
            forall|k: int| 0 <= k < ncols ==> 0 <= #[trigger] mins@[k] <= MAX_MIN_WIDTH,
        decreases table.rows.len() - r,
    {
        let row = &table.rows[r];
        let mut ci: usize = 0;
        while ci < row.cells.len() && ci < ncols
            invariant
                ci <= row.cells@.len(),
                ci <= ncols,
                r < table.rows@.len(),
                row == table.rows@[r as int],
                row.wf(),
                seen_fonts.wf(),
                mins@.len() == ncols,
                forall|k: int|
                    0 <= k < ci ==> #[trigger] mins@[k] as int == column_min(
                        table.rows@,
                        *seen_fonts,
                        k,
                        r as int + 1,
                    ),
                forall|k: int|
                    ci <= k < ncols ==> #[trigger] mins@[k] as int == column_min(
                        table.rows@,
                        *seen_fonts,
                        k,
                        r as int,
                    ),
                forall|k: int| 0 <= k < ncols ==> 0 <= #[trigger] mins@[k] <= MAX_MIN_WIDTH,
            decreases row.cells.len() - ci,
        {
            let w = widest_in_cell(&row.cells[ci], seen_fonts);
            let m = max_i64(mins[ci], w);
            mins.set(ci, m);
            ci += 1;
        }
        r += 1;
    }
    proof {
        assert(ints(mins@) =~= column_mins(*table, *seen_fonts));
    }
    fit_columns(&table.col_widths, &mins)
}

/// The width that the cell `ci` of a row is laid out in: the fitted width of
/// its column, or its own width where the table states no such column.
pub open spec fn column_width(widths: Seq<int>, cell: TableCell, ci: int) -> int {
    if 0 <= ci < widths.len() {
        widths[ci]
    } else {
        cell.width as int
    }
}

/// The line spacing of a paragraph: its own, or the document's.
pub open spec fn spacing_of(para: Paragraph, doc_spacing: int) -> int {
    match para.line_spacing {
        Some(s) => s as int,
        None => doc_spacing,
    }
}

/// The height of a line of a paragraph in a cell, which goes by the
/// paragraph's first run.
pub open spec fn cell_line_height(para: Paragraph, fonts: FontTable, doc_spacing: int) -> int {
    line_height(
        first_size(para.runs@) as int,
        first_line_ratio(para.runs@, fonts),
        spacing_of(para, doc_spacing),
    )
}

/// The number of lines of a paragraph in a cell: none for a paragraph
/// without runs.
pub open spec fn cell_line_count(para: Paragraph, fonts: FontTable, width: int) -> int {
    if para.runs@.len() > 0 {
        paragraph_lines(para.runs@, fonts, width).len() as int
    } else {
        0
    }
}

/// The height of the first `n` of a stack of paragraphs, of which paragraph
/// `p` has `counts[p]` lines of height `heights[p]`.
pub open spec fn stack(counts: Seq<int>, heights: Seq<int>, n: int) -> int
    decreases n,
{
    if n <= 0 {
        0
    } else {
        stack(counts, heights, n - 1) + counts[n - 1] * heights[n - 1]
    }
}

/// The largest of the first `n` heights, and zero if none is positive.
pub open spec fn tallest_of(heights: Seq<int>, n: int) -> int
    decreases n,
{
    if n <= 0 {
        0
    } else {
        max_int(tallest_of(heights, n - 1), heights[n - 1])
    }
}

/// A stack does not get lower when its paragraphs get more lines.
pub proof fn lemma_stack_monotonic(a: Seq<int>, b: Seq<int>, heights: Seq<int>, n: int)
    requires
        0 <= n <= a.len(),
        n <= b.len(),
        n <= heights.len(),
        forall|p: int| 0 <= p < n ==> #[trigger] a[p] <= b[p],
        forall|p: int| 0 <= p < n ==> 0 <= #[trigger] heights[p],
    ensures
        stack(a, heights, n) <= stack(b, heights, n),
    decreases n,
{
    if n > 0 {
        lemma_stack_monotonic(a, b, heights, n - 1);
        crate::units::lemma_mul_monotonic(a[n - 1], b[n - 1], heights[n - 1]);
    }
}

/// The tallest of some heights does not get lower when the heights grow.
pub proof fn lemma_tallest_monotonic(a: Seq<int>, b: Seq<int>, n: int)
    requires
        0 <= n <= a.len(),
        n <= b.len(),
        forall|c: int| 0 <= c < n ==> #[trigger] a[c] <= b[c],
    ensures
        tallest_of(a, n) <= tallest_of(b, n),
    decreases n,
{
    if n > 0 {
        lemma_tallest_monotonic(a, b, n - 1);
    }
}

pub open spec fn cell_counts(paragraphs: Seq<Paragraph>, fonts: FontTable, width: int) -> Seq<int> {
    Seq::new(paragraphs.len(), |p: int| cell_line_count(paragraphs[p], fonts, width))
}

pub open spec fn cell_heights(paragraphs: Seq<Paragraph>, fonts: FontTable, doc_spacing: int) -> Seq<
    int,
> {
    Seq::new(paragraphs.len(), |p: int| cell_line_height(paragraphs[p], fonts, doc_spacing))
}

/// The height of a cell's text: its paragraphs stacked.
pub open spec fn cell_height(cell: TableCell, fonts: FontTable, doc_spacing: int, width: int) -> int {
    stack(
        cell_counts(cell.paragraphs@, fonts, width),
        cell_heights(cell.paragraphs@, fonts, doc_spacing),
        cell.paragraphs@.len() as int,
    )
}

/// The lines of the first `n` paragraphs of a cell, one after the other.
pub open spec fn cell_text(paragraphs: Seq<Paragraph>, fonts: FontTable, width: int, n: int) -> Seq<
    LineView,
>
    decreases n,
{
    if n <= 0 {
        Seq::empty()
    } else if paragraphs[n - 1].runs@.len() > 0 {
        cell_text(paragraphs, fonts, width, n - 1) + paragraph_lines(
            paragraphs[n - 1].runs@,
            fonts,
            width,
        )
    } else {
        cell_text(paragraphs, fonts, width, n - 1)
    }
}

/// The paragraph among the first `n` that the cell's baseline and pitch go
/// by: the first that has runs, or the last where none has.
pub open spec fn lead(paragraphs: Seq<Paragraph>, fonts: FontTable, width: int, n: int) -> int
    decreases n,
{
    if n <= 0 {
        -1
    } else if cell_text(paragraphs, fonts, width, n - 1).len() == 0 {
        n - 1
    } else {
        lead(paragraphs, fonts, width, n - 1)
    }
}

/// The font size that a cell's baseline goes by.
pub open spec fn cell_font_size(cell: TableCell, fonts: FontTable, width: int) -> int {
    let p = lead(cell.paragraphs@, fonts, width, cell.paragraphs@.len() as int);
    if p < 0 {
        DEFAULT_FONT_SIZE as int
    } else {
        first_size(cell.paragraphs@[p].runs@) as int
    }
}

/// The distance between the baselines of a cell's lines.
pub open spec fn cell_pitch(cell: TableCell, fonts: FontTable, doc_spacing: int, width: int) -> int {
    let p = lead(cell.paragraphs@, fonts, width, cell.paragraphs@.len() as int);
    if p < 0 {
        DEFAULT_LINE_HEIGHT as int
    } else {
        cell_line_height(cell.paragraphs@[p], fonts, doc_spacing)
    }
}

/// Every run of the paragraphs has its font registered.
pub open spec fn paragraphs_covered(fonts: FontTable, paragraphs: Seq<Paragraph>) -> bool {
    forall|p: int| 0 <= p < paragraphs.len() ==> fonts.covers_all((#[trigger] paragraphs[p]).runs@)
}

pub open spec fn table_covered(fonts: FontTable, table: Table) -> bool {
    forall|r: int, c: int|
        0 <= r < table.rows@.len() && 0 <= c < table.rows@[r].cells@.len()
            ==> paragraphs_covered(fonts, (#[trigger] table.rows@[r].cells@[c]).paragraphs@)
}

/// The lines of a cell and what they are drawn by.
#[derive(Debug)]
pub struct CellLines {
    pub lines: Vec<TextLine>,
    /// Distance between baselines.
    pub line_h: i64,
    /// The size that the first baseline goes by.
    pub font_size: i64,
    /// Height of the text.
    pub height: i64,
}

#[derive(Debug)]
pub struct RowLayout {
    pub height: i64,
    pub cell_lines: Vec<CellLines>,
}

/// Tallest text of a cell.
pub const MAX_CELL_HEIGHT: i64 = 400_000_000_000_000_000;

/// Lays out the text of one cell at a given width.
pub fn layout_cell(cell: &TableCell, fonts: &FontTable, doc_spacing: i64, width: i64) -> (out:
    CellLines)
    requires
        fonts.wf(),
        cell.wf(),
        paragraphs_covered(*fonts, cell.paragraphs@),
        0 <= doc_spacing <= MAX_RATIO,
        -MAX_WORD_WIDTH <= width <= MAX_WORD_WIDTH,
    ensures
        lines_view(out.lines@) == cell_text(
            cell.paragraphs@,
            *fonts,
            width as int,
            cell.paragraphs@.len() as int,
        ),
        out.height == cell_height(*cell, *fonts, doc_spacing as int, width as int),
        out.font_size == cell_font_size(*cell, *fonts, width as int),
        out.line_h == cell_pitch(*cell, *fonts, doc_spacing as int, width as int),
        lines_drawable(lines_view(out.lines@)),
        0 <= out.height <= MAX_CELL_HEIGHT,
        0 <= out.line_h <= MAX_LINE_HEIGHT,
        0 <= out.font_size <= crate::units::MAX_FONT_SIZE,
{
    let mut lines: Vec<TextLine> = Vec::new();
    let mut height: i64 = 0;
    let mut font_size: i64 = DEFAULT_FONT_SIZE;
    let mut line_h: i64 = DEFAULT_LINE_HEIGHT;
    let ghost counts = cell_counts(cell.paragraphs@, *fonts, width as int);
    let ghost heights = cell_heights(cell.paragraphs@, *fonts, doc_spacing as int);
    let mut p: usize = 0;
    while p < cell.paragraphs.len()
        invariant
            p <= cell.paragraphs@.len(),
            fonts.wf(),
            cell.wf(),
            paragraphs_covered(*fonts, cell.paragraphs@),
            0 <= doc_spacing <= MAX_RATIO,
            -MAX_WORD_WIDTH <= width <= MAX_WORD_WIDTH,
            counts == cell_counts(cell.paragraphs@, *fonts, width as int),
            heights == cell_heights(cell.paragraphs@, *fonts, doc_spacing as int),
            lines_view(lines@) == cell_text(cell.paragraphs@, *fonts, width as int, p as int),
            height == stack(counts, heights, p as int),
            0 <= height <= (cell_chars(cell.paragraphs@, p as int) + p) * 200_000_000,
            lines@.len() <= cell_chars(cell.paragraphs@, p as int) + p,
            0 <= cell_chars(cell.paragraphs@, p as int) <= MAX_CELL_CHARS,
            forall|k: int| 0 <= k < lines@.len() ==> line_drawable(#[trigger] lines_view(lines@)[k]),
            font_size == (if lead(cell.paragraphs@, *fonts, width as int, p as int) < 0 {
                DEFAULT_FONT_SIZE as int
            } else {
                first_size(
                    cell.paragraphs@[lead(cell.paragraphs@, *fonts, width as int, p as int)].runs@,
                ) as int
            }),
            line_h == (if lead(cell.paragraphs@, *fonts, width as int, p as int) < 0 {
                DEFAULT_LINE_HEIGHT as int
            } else {
                cell_line_height(
                    cell.paragraphs@[lead(cell.paragraphs@, *fonts, width as int, p as int)],
                    *fonts,
                    doc_spacing as int,
                )
            }),
            0 <= line_h <= MAX_LINE_HEIGHT,
            0 <= font_size <= crate::units::MAX_FONT_SIZE,
        decreases cell.paragraphs.len() - p,
    {
        let para = &cell.paragraphs[p];
        let m = font_metric(&para.runs, fonts);
        let spacing = match para.line_spacing {
            Some(s) => s,
            None => doc_spacing,
        };
        let h = line_height_of(m.font_size, m.line_h_ratio, spacing);
        if lines.len() == 0 {
            font_size = m.font_size;
            line_h = h;
        }
        if para.runs.len() > 0 {
            let mut more = build_paragraph_lines(&para.runs, fonts, width);
            let ghost before = lines_view(lines@);
            let ghost added = lines_view(more@);
            proof {
                let so_far = cell_chars(cell.paragraphs@, p as int) + p;
                let own = total_chars(para.runs@, para.runs@.len() as int);
                lemma_total_chars_monotonic(para.runs@, 0, para.runs@.len() as int);
                assert(0 <= more@.len() * h <= 1_000_000 * 200_000_000 && height + more@.len() * h
                    <= (so_far + own + 1) * 200_000_000) by (nonlinear_arith)
                    requires
                        0 <= more@.len() <= 1_000_000,
                        more@.len() <= own + 1,
                        0 <= h <= 200_000_000,
                        0 <= height <= so_far * 200_000_000,
                ;
            }
            height = height + (more.len() as i64) * h;
            lines.append(&mut more);
            proof {
                assert forall|k: int| 0 <= k < lines@.len() implies line_drawable(
                    #[trigger] lines_view(lines@)[k],
                ) by {
                    if k < before.len() {
                        assert(lines_view(lines@)[k] == before[k]);
                    } else {
                        assert(lines_view(lines@)[k] == added[k - before.len()]);
                    }
                }
            }
        } else {
            proof {
                assert(counts[p as int] * heights[p as int] == 0) by (nonlinear_arith)
                    requires
                        counts[p as int] == 0,
                ;
            }
        }
        proof {
            lemma_cell_chars_monotonic(
                cell.paragraphs@,
                p as int + 1,
                cell.paragraphs@.len() as int,
            );
            let so_far = cell_chars(cell.paragraphs@, p as int);
            let own = total_chars(para.runs@, para.runs@.len() as int);
            lemma_total_chars_monotonic(para.runs@, 0, para.runs@.len() as int);
            assert((so_far + p) * 200_000_000 <= (so_far + own + p + 1) * 200_000_000)
                by (nonlinear_arith)
                requires
                    0 <= own,
            ;
        }
        p += 1;
    }
    proof {
        let all = cell_chars(cell.paragraphs@, cell.paragraphs@.len() as int) + cell.paragraphs@.len();
        assert(all * 200_000_000 <= 2_000_000_000 * 200_000_000) by (nonlinear_arith)
            requires
                all <= 2_000_000_000,
        ;
    }
    CellLines { lines, line_h, font_size, height }
}

/// What `out` has to hold to be the layout of a cell at a given width.
pub open spec fn cell_laid(
    out: CellLines,
    cell: TableCell,
    fonts: FontTable,
    doc_spacing: int,
    width: int,
) -> bool {
    &&& lines_view(out.lines@) == cell_text(
        cell.paragraphs@,
        fonts,
        width,
        cell.paragraphs@.len() as int,
    )
    &&& out.height == cell_height(cell, fonts, doc_spacing, width)
    &&& out.font_size == cell_font_size(cell, fonts, width)
    &&& out.line_h == cell_pitch(cell, fonts, doc_spacing, width)
    &&& lines_drawable(lines_view(out.lines@))
    &&& 0 <= out.height <= MAX_CELL_HEIGHT
    &&& 0 <= out.line_h <= MAX_LINE_HEIGHT
    &&& 0 <= out.font_size <= crate::units::MAX_FONT_SIZE
}

/// The heights of the text of a row's cells.
pub open spec fn row_cell_heights(
    row: TableRow,
    widths: Seq<int>,
    fonts: FontTable,
    doc_spacing: int,
) -> Seq<int> {
    Seq::new(
        row.cells@.len(),
        |ci: int|
            cell_height(row.cells@[ci], fonts, doc_spacing, column_width(widths, row.cells@[ci], ci)),
    )
}

/// The height of a row: that of its tallest cell and the border.
pub open spec fn row_height(row: TableRow, widths: Seq<int>, fonts: FontTable, doc_spacing: int) -> int {
    tallest_of(row_cell_heights(row, widths, fonts, doc_spacing), row.cells@.len() as int)
        + TABLE_BORDER_WIDTH
}

/// What `layout` has to hold to be the layout of a row.
pub open spec fn row_laid(
    layout: RowLayout,
    row: TableRow,
    widths: Seq<int>,
    fonts: FontTable,
    doc_spacing: int,
) -> bool {
    &&& layout.height == row_height(row, widths, fonts, doc_spacing)
    &&& TABLE_BORDER_WIDTH <= layout.height <= MAX_CELL_HEIGHT + TABLE_BORDER_WIDTH
    &&& layout.cell_lines@.len() == row.cells@.len()
    &&& forall|ci: int|
        0 <= ci < row.cells@.len() ==> cell_laid(
            #[trigger] layout.cell_lines@[ci],
            row.cells@[ci],
            fonts,
            doc_spacing,
            column_width(widths, row.cells@[ci], ci),
        )
}

pub open spec fn fitted_ok(widths: Seq<i64>) -> bool {
    &&& widths.len() <= crate::units::MAX_COLUMNS
    &&& forall|i: int| 0 <= i < widths.len() ==> -MAX_MIN_WIDTH <= #[trigger] widths[i]
        <= MAX_MIN_WIDTH
}

fn column_width_of(col_widths: &Vec<i64>, cell: &TableCell, ci: usize) -> (w: i64)
    requires
        fitted_ok(col_widths@),
        cell.wf(),
    ensures
        w == column_width(ints(col_widths@), *cell, ci as int),
        -MAX_MIN_WIDTH <= w <= MAX_MIN_WIDTH,
{
    if ci < col_widths.len() {
        col_widths[ci]
    } else {
        cell.width
    }
}

/// Lays out one row.
pub fn layout_row(row: &TableRow, col_widths: &Vec<i64>, doc_spacing: i64, fonts: &FontTable) -> (layout:
    RowLayout)
    requires
        fonts.wf(),
        row.wf(),
        fitted_ok(col_widths@),
        0 <= doc_spacing <= MAX_RATIO,
        forall|c: int|
            0 <= c < row.cells@.len() ==> paragraphs_covered(
                *fonts,
                (#[trigger] row.cells@[c]).paragraphs@,
            ),
    ensures
        row_laid(layout, *row, ints(col_widths@), *fonts, doc_spacing as int),
{
    let mut max_h: i64 = 0;
    let mut cell_lines: Vec<CellLines> = Vec::new();
    let ghost widths = ints(col_widths@);
    let ghost heights = row_cell_heights(*row, widths, *fonts, doc_spacing as int);
    let mut ci: usize = 0;
    while ci < row.cells.len()
        invariant
            ci <= row.cells@.len(),
            fonts.wf(),
            row.wf(),
            fitted_ok(col_widths@),
            0 <= doc_spacing <= MAX_RATIO,
            widths == ints(col_widths@),
            heights == row_cell_heights(*row, widths, *fonts, doc_spacing as int),
            forall|c: int|
                0 <= c < row.cells@.len() ==> paragraphs_covered(
                    *fonts,
                    (#[trigger] row.cells@[c]).paragraphs@,
                ),
            max_h == tallest_of(heights, ci as int),
            0 <= max_h <= MAX_CELL_HEIGHT,
            cell_lines@.len() == ci,
            forall|c: int|
                0 <= c < ci ==> cell_laid(
                    #[trigger] cell_lines@[c],
                    row.cells@[c],
                    *fonts,
                    doc_spacing as int,
                    column_width(widths, row.cells@[c], c),
                ),
        decreases row.cells.len() - ci,
    {
        let cell = &row.cells[ci];
        assert(paragraphs_covered(*fonts, row.cells@[ci as int].paragraphs@));
        let w = column_width_of(col_widths, cell, ci);
        let out = layout_cell(cell, fonts, doc_spacing, w);
        max_h = max_i64(max_h, out.height);
        cell_lines.push(out);
        ci += 1;
    }
    RowLayout { height: max_h + TABLE_BORDER_WIDTH, cell_lines }
}

/// Lays out every row of a table at the fitted column widths: the lines of
/// each cell and the height of each row.
pub fn compute_row_layouts(
    table: &Table,
    col_widths: &Vec<i64>,
    doc: &Document,
    seen_fonts: &FontTable,
) -> (layouts: Vec<RowLayout>)
    requires
        seen_fonts.wf(),
        table.wf(),
        table_covered(*seen_fonts, *table),
        fitted_ok(col_widths@),
        0 <= doc.line_spacing <= MAX_RATIO,
    ensures
        layouts@.len() == table.rows@.len(),
        forall|r: int|
            0 <= r < table.rows@.len() ==> row_laid(
                #[trigger] layouts@[r],
                table.rows@[r],
                ints(col_widths@),
                *seen_fonts,
                doc.line_spacing as int,
            ),
{
    let mut layouts: Vec<RowLayout> = Vec::new();
    let mut r: usize = 0;
    while r < table.rows.len()
        invariant
            r <= table.rows@.len(),
            seen_fonts.wf(),
            table.wf(),
            table_covered(*seen_fonts, *table),
            fitted_ok(col_widths@),
            0 <= doc.line_spacing <= MAX_RATIO,
            layouts@.len() == r,
            forall|k: int|
                0 <= k < r ==> row_laid(
                    #[trigger] layouts@[k],
                    table.rows@[k],
                    ints(col_widths@),
                    *seen_fonts,
                    doc.line_spacing as int,
                ),
        decreases table.rows.len() - r,
    {
        let row = &table.rows[r];
        let layout = layout_row(row, col_widths, doc.line_spacing, seen_fonts);
        layouts.push(layout);
        r += 1;
    }
    layouts
}

/// Row height does not get lower when the cells of the row get more lines:
/// for two rows of cells whose paragraphs have the same line heights, where
/// every paragraph of the second has at least as many lines as that of the
/// first, the second row is at least as tall.
pub proof fn lemma_row_height_monotonic(
    counts_a: Seq<Seq<int>>,
    counts_b: Seq<Seq<int>>,
    heights: Seq<Seq<int>>,
)
    requires
        counts_a.len() == counts_b.len() == heights.len(),
        forall|c: int|
            0 <= c < heights.len() ==> (#[trigger] counts_a[c]).len() == heights[c].len()
                && counts_b[c].len() == heights[c].len(),
        forall|c: int, p: int|
            0 <= c < heights.len() && 0 <= p < heights[c].len() ==> counts_a[c][p] <= counts_b[c][p]
                && 0 <= #[trigger] heights[c][p],
    ensures
        tallest_of(
            Seq::new(
                heights.len(),
                |c: int| stack(counts_a[c], heights[c], heights[c].len() as int),
            ),
            heights.len() as int,
        ) + TABLE_BORDER_WIDTH <= tallest_of(
            Seq::new(
                heights.len(),
                |c: int| stack(counts_b[c], heights[c], heights[c].len() as int),
            ),
            heights.len() as int,
        ) + TABLE_BORDER_WIDTH,
{
    let a = Seq::new(
        heights.len(),
        |c: int| stack(counts_a[c], heights[c], heights[c].len() as int),
    );
    let b = Seq::new(
        heights.len(),
        |c: int| stack(counts_b[c], heights[c], heights[c].len() as int),
    );
    assert forall|c: int| 0 <= c < heights.len() implies #[trigger] a[c] <= b[c] by {
        assert forall|p: int| 0 <= p < heights[c].len() implies #[trigger] counts_a[c][p]
            <= counts_b[c][p] by {
            assert(0 <= heights[c][p]);
        }
        assert forall|p: int| 0 <= p < heights[c].len() implies 0 <= #[trigger] heights[c][p] by {}
        lemma_stack_monotonic(counts_a[c], counts_b[c], heights[c], heights[c].len() as int);
    }
    lemma_tallest_monotonic(a, b, heights.len() as int);
}

/// The left edge of cell `ci`: the margin and the widths of the cells before
/// it.
pub open spec fn cell_left(row: TableRow, widths: Seq<int>, left: int, ci: int) -> int
    decreases ci,
{
    if ci <= 0 {
        left
    } else {
        cell_left(row, widths, left, ci - 1) + column_width(widths, row.cells@[ci - 1], ci - 1)
    }
}

/// Whether no line holds a chunk.
pub open spec fn all_blank(lines: Seq<LineView>) -> bool {
    forall|k: int| 0 <= k < lines.len() ==> (#[trigger] lines[k]).chunks.len() == 0
}

/// The alignment of a cell: that of its first paragraph.
pub open spec fn cell_alignment(cell: TableCell) -> Alignment {
    if cell.paragraphs@.len() > 0 {
        cell.paragraphs@[0].alignment
    } else {
        Alignment::Left
    }
}

/// The ascender ratio that a cell's first baseline goes by: that of the
/// first run of its first paragraph.
pub open spec fn cell_ascender(cell: TableCell, fonts: FontTable) -> Option<i64> {
    if cell.paragraphs@.len() > 0 {
        first_ascender_ratio(cell.paragraphs@[0].runs@, fonts)
    } else {
        None
    }
}

/// How the lines of cell `ci` are set in a row whose top is at `row_top`.
pub open spec fn cell_setting(
    doc: Document,
    fonts: FontTable,
    row: TableRow,
    widths: Seq<int>,
    row_top: int,
    ci: int,
) -> LineSetting {
    let cell = row.cells@[ci];
    let w = column_width(widths, cell, ci);
    LineSetting {
        alignment: cell_alignment(cell),
        left: cell_left(row, widths, doc.margin_left as int, ci) + TABLE_CELL_PAD_LEFT,
        available: w,
        first_baseline: row_top - ascent(cell_font_size(cell, fonts, w), cell_ascender(cell, fonts)),
        pitch: cell_pitch(cell, fonts, doc.line_spacing as int, w),
        from: 0,
    }
}

/// The instructions for the text of cell `ci`: none where the cell has no
/// line that holds a chunk.
pub open spec fn cell_ops(
    doc: Document,
    fonts: FontTable,
    row: TableRow,
    widths: Seq<int>,
    row_top: int,
    ci: int,
) -> Seq<DrawOpView> {
    let cell = row.cells@[ci];
    let w = column_width(widths, cell, ci);
    let lines = cell_text(cell.paragraphs@, fonts, w, cell.paragraphs@.len() as int);
    if lines.len() > 0 && !all_blank(lines) {
        paragraph_ops(
            lines,
            cell_setting(doc, fonts, row, widths, row_top, ci),
            lines.len() as int,
        )
    } else {
        Seq::empty()
    }
}

/// The instructions for the text of the first `n` cells of a row.
pub open spec fn row_text_ops(
    doc: Document,
    fonts: FontTable,
    row: TableRow,
    widths: Seq<int>,
    row_top: int,
    n: int,
) -> Seq<DrawOpView>
    decreases n,
{
    if n <= 0 {
        Seq::empty()
    } else {
        row_text_ops(doc, fonts, row, widths, row_top, n - 1) + cell_ops(
            doc,
            fonts,
            row,
            widths,
            row_top,
            n - 1,
        )
    }
}

/// The border of cell `ci`. The first cell's border reaches further left by
/// the cell padding, so that the text of the table lines up with the text
/// around it.
pub open spec fn border_rect(
    doc: Document,
    row: TableRow,
    widths: Seq<int>,
    bottom: int,
    height: int,
    ci: int,
) -> DrawOpView {
    let w = column_width(widths, row.cells@[ci], ci);
    if ci == 0 {
        DrawOpView::StrokeRect {
            x: doc.margin_left - TABLE_CELL_PAD_LEFT,
            y: bottom,
            width: w + TABLE_CELL_PAD_LEFT,
            height: height,
        }
    } else {
        DrawOpView::StrokeRect {
            x: cell_left(row, widths, doc.margin_left as int, ci),
            y: bottom,
            width: w,
            height: height,
        }
    }
}

pub open spec fn border_rects(
    doc: Document,
    row: TableRow,
    widths: Seq<int>,
    bottom: int,
    height: int,
    n: int,
) -> Seq<DrawOpView>
    decreases n,
{
    if n <= 0 {
        Seq::empty()
    } else {
        border_rects(doc, row, widths, bottom, height, n - 1).push(
            border_rect(doc, row, widths, bottom, height, n - 1),
        )
    }
}

/// The instructions for the borders of a row.
pub open spec fn row_border_ops(
    doc: Document,
    row: TableRow,
    widths: Seq<int>,
    bottom: int,
    height: int,
) -> Seq<DrawOpView> {
    seq![DrawOpView::SaveState, DrawOpView::LineWidth { width: TABLE_BORDER_WIDTH as int }]
        + border_rects(doc, row, widths, bottom, height, row.cells@.len() as int)
        + seq![DrawOpView::RestoreState]
}

/// The state after a row is placed. A row that does not fit in what is left
/// of the page goes to the next page whole, unless the page is empty.
pub open spec fn row_placed(
    doc: Document,
    fonts: FontTable,
    row: TableRow,
    widths: Seq<int>,
    st: Layout,
) -> Layout {
    let h = row_height(row, widths, fonts, doc.line_spacing as int);
    let top = page_top(doc);
    let at = if !at_top(st.slot_top, top) && st.slot_top - h < doc.margin_bottom {
        turned(st, top)
    } else {
        st
    };
    Layout {
        content: at.content + row_text_ops(
            doc,
            fonts,
            row,
            widths,
            at.slot_top,
            row.cells@.len() as int,
        ) + row_border_ops(doc, row, widths, at.slot_top - h, h),
        slot_top: at.slot_top - h,
        ..at
    }
}

/// The state after the first `n` rows of a table are placed.
pub open spec fn rows_placed(
    doc: Document,
    fonts: FontTable,
    table: Table,
    widths: Seq<int>,
    st: Layout,
    n: int,
) -> Layout
    decreases n,
{
    if n <= 0 {
        st
    } else {
        row_placed(
            doc,
            fonts,
            table.rows@[n - 1],
            widths,
            rows_placed(doc, fonts, table, widths, st, n - 1),
        )
    }
}

/// The state after a table is placed: the cursor moves down by the space
/// after the block before, and the rows follow one another.
pub open spec fn table_placed(doc: Document, fonts: FontTable, table: Table, st: Layout) -> Layout {
    let widths = fitted(ints(table.col_widths@), column_mins(table, fonts));
    let start = Layout { slot_top: st.slot_top - st.prev_space_after, ..st };
    Layout {
        prev_space_after: 0,
        ..rows_placed(doc, fonts, table, widths, start, table.rows@.len() as int)
    }
}

/// What the placing of blocks asks of the cursor.
pub open spec fn slot_ok(st: Layout, doc: Document) -> bool {
    &&& MIN_SLOT + st.prev_space_after <= st.slot_top <= page_top(doc)
    &&& 0 <= st.prev_space_after <= MAX_COORD
}

fn lines_all_blank(lines: &Vec<TextLine>) -> (b: bool)
    ensures
        b == all_blank(lines_view(lines@)),
{
    let mut k: usize = 0;
    while k < lines.len()
        invariant
            k <= lines@.len(),
            forall|j: int| 0 <= j < k ==> (#[trigger] lines_view(lines@)[j]).chunks.len() == 0,
        decreases lines.len() - k,
    {
        if lines[k].chunks.len() > 0 {
            assert(lines_view(lines@)[k as int].chunks.len() == lines@[k as int].chunks@.len());
            return false;
        }
        k += 1;
    }
    true
}

/// Draws the text and the borders of one row whose top is at `row_top`.
fn draw_row(
    content: &mut Vec<DrawOp>,
    doc: &Document,
    fonts: &FontTable,
    row: &TableRow,
    layout: &RowLayout,
    col_widths: &Vec<i64>,
    row_top: i64,
)
    requires
        doc.in_bounds(),
        fonts.wf(),
        row.wf(),
        fitted_ok(col_widths@),
        row_laid(*layout, *row, ints(col_widths@), *fonts, doc.line_spacing as int),
        MIN_SLOT - MAX_COORD <= row_top <= 2 * MAX_COORD,
    ensures
        ops_view(final(content)@) == ops_view(old(content)@) + row_text_ops(
            *doc,
            *fonts,
            *row,
            ints(col_widths@),
            row_top as int,
            row.cells@.len() as int,
        ) + row_border_ops(
            *doc,
            *row,
            ints(col_widths@),
            row_top - layout.height,
            layout.height as int,
        ),
{
    let ghost before = ops_view(content@);
    let ghost widths = ints(col_widths@);
    let n = row.cells.len();
    let mut cell_x: i64 = doc.margin_left;
    let mut ci: usize = 0;
    while ci < n
        invariant
            ci <= n,
            n == row.cells@.len(),
            n <= 10_000,
            doc.in_bounds(),
            fonts.wf(),
            row.wf(),
            fitted_ok(col_widths@),
            widths == ints(col_widths@),
            row_laid(*layout, *row, widths, *fonts, doc.line_spacing as int),
            MIN_SLOT - MAX_COORD <= row_top <= 2 * MAX_COORD,
            cell_x == cell_left(*row, widths, doc.margin_left as int, ci as int),
            -MAX_COORD - ci * MAX_MIN_WIDTH <= cell_x <= MAX_COORD + ci * MAX_MIN_WIDTH,
            ops_view(content@) == before + row_text_ops(
                *doc,
                *fonts,
                *row,
                widths,
                row_top as int,
                ci as int,
            ),
        decreases n - ci,
    {
        let cell = &row.cells[ci];
        let laid = &layout.cell_lines[ci];
        let col_w = column_width_of(col_widths, cell, ci);
        if laid.lines.len() > 0 && !lines_all_blank(&laid.lines) {
            let m = if cell.paragraphs.len() > 0 {
                font_metric(&cell.paragraphs[0].runs, fonts).ascender_ratio
            } else {
                None
            };
            let baseline = row_top - ascent_of(laid.font_size, m);
            let alignment = if cell.paragraphs.len() > 0 {
                cell.paragraphs[0].alignment
            } else {
                Alignment::Left
            };
            render_paragraph_lines(
                content,
                &laid.lines,
                0,
                laid.lines.len(),
                alignment,
                cell_x + TABLE_CELL_PAD_LEFT,
                col_w,
                baseline,
                laid.line_h,
            );
        }
        cell_x = cell_x + col_w;
        ci += 1;
    }
    let row_bottom = row_top - layout.height;
    emit(content, DrawOp::SaveState);
    emit(content, DrawOp::LineWidth { width: TABLE_BORDER_WIDTH });
    let ghost head = ops_view(content@);
    let mut bx: i64 = doc.margin_left - TABLE_CELL_PAD_LEFT;
    let mut cj: usize = 0;
    while cj < n
        invariant
            cj <= n,
            n == row.cells@.len(),
            n <= 10_000,
            doc.in_bounds(),
            row.wf(),
            fitted_ok(col_widths@),
            widths == ints(col_widths@),
            row_bottom == row_top - layout.height,
            MIN_SLOT - MAX_COORD <= row_top <= 2 * MAX_COORD,
            TABLE_BORDER_WIDTH <= layout.height <= MAX_CELL_HEIGHT + TABLE_BORDER_WIDTH,
            cj > 0 ==> bx == cell_left(*row, widths, doc.margin_left as int, cj as int),
            cj == 0 ==> bx == doc.margin_left - TABLE_CELL_PAD_LEFT,
            -MAX_COORD - TABLE_CELL_PAD_LEFT - cj * MAX_MIN_WIDTH <= bx <= MAX_COORD + cj
                * MAX_MIN_WIDTH,
            ops_view(content@) == head + border_rects(
                *doc,
                *row,
                widths,
                row_bottom as int,
                layout.height as int,
                cj as int,
            ),
        decreases n - cj,
    {
        let cell = &row.cells[cj];
        let col_w = column_width_of(col_widths, cell, cj);
        let border_w = if cj == 0 {
            col_w + TABLE_CELL_PAD_LEFT
        } else {
            col_w
        };
        emit(content, DrawOp::StrokeRect { x: bx, y: row_bottom, width: border_w, height: layout.height });
        proof {
            let rect = border_rect(
                *doc,
                *row,
                widths,
                row_bottom as int,
                layout.height as int,
                cj as int,
            );
        }
        bx = bx + border_w;
        cj += 1;
    }
    emit(content, DrawOp::RestoreState);
}

/// Places a table row by row.
///
/// The cursor first moves down by the space after the block before. A row
/// that does not fit in what is left of the page goes to the next page whole;
/// on an empty page a row is placed even if it does not fit.
pub fn render_table(table: &Table, doc: &Document, seen_fonts: &FontTable, builder: &mut PageBuilder)
    requires
        doc.has_page(),
        doc.in_bounds(),
        seen_fonts.wf(),
        table.wf(),
        table_covered(*seen_fonts, *table),
        slot_ok(old(builder)@, *doc),
    ensures
        final(builder)@ == table_placed(*doc, *seen_fonts, *table, old(builder)@),
        slot_ok(final(builder)@, *doc),
        final(builder).images == old(builder).images,
{
    let col_widths = auto_fit_columns(table, seen_fonts);
    let layouts = compute_row_layouts(table, &col_widths, doc, seen_fonts);
    let ghost widths = ints(col_widths@);
    let ghost start = Layout { slot_top: builder@.slot_top - builder@.prev_space_after, ..builder@ };
    let top = doc.page_height - doc.margin_top;
    builder.slot_top = builder.slot_top - builder.prev_space_after;
    builder.prev_space_after = 0;
    let mut r: usize = 0;
    while r < table.rows.len()
        invariant
            r <= table.rows@.len(),
            doc.has_page(),
            doc.in_bounds(),
            seen_fonts.wf(),
            table.wf(),
            fitted_ok(col_widths@),
            widths == ints(col_widths@),
            top == page_top(*doc),
            layouts@.len() == table.rows@.len(),
            forall|k: int|
                0 <= k < table.rows@.len() ==> row_laid(
                    #[trigger] layouts@[k],
                    table.rows@[k],
                    widths,
                    *seen_fonts,
                    doc.line_spacing as int,
                ),
            builder@ == (Layout {
                prev_space_after: 0,
                ..rows_placed(*doc, *seen_fonts, *table, widths, start, r as int)
            }),
            MIN_SLOT <= builder.slot_top <= top,
            builder.images == old(builder).images,
        decreases table.rows.len() - r,
    {
        let row = &table.rows[r];
        let layout = &layouts[r];
        if !is_at_top(builder.slot_top, top) && builder.slot_top - layout.height < doc.margin_bottom {
            builder.new_page(top);
        }
        let row_top = builder.slot_top;
        draw_row(&mut builder.content, doc, seen_fonts, row, layout, &col_widths, row_top);
        builder.slot_top = row_top - layout.height;
        r += 1;
    }
}

} // verus!
