//! Drawing instructions, and the drawing of finished lines.
//!
//! A page is a list of instructions in the order in which they are to be
//! carried out. Coordinates have their origin at the lower left corner of
//! the page.

use crate::flow::{
    chunk_drawable, line_drawable, lines_drawable, lines_view, ChunkView, LineView, TextLine,
    WordChunk, MAX_DRAW, MAX_LINES,
};
use crate::model::Alignment;
use crate::units::{floor_div, max_i64, max_int, mul_div, percent, scale_percent, MAX_FONT_SIZE};
use crate::winansi::{to_winansi_bytes, winansi_encode};
use vstd::prelude::*;

verus! {

#[derive(Debug)]
pub enum DrawOp {
    /// Fill with a colour from here on.
    FillRgb { r: u8, g: u8, b: u8 },
    /// Fill with a grey from here on, in thousandths of white.
    FillGray { level: i64 },
    /// Show text with its baseline starting at `(x, y)`.
    Text { font: String, size: i64, x: i64, y: i64, bytes: Vec<u8> },
    /// Fill the rectangle whose lower left corner is `(x, y)`.
    FillRect { x: i64, y: i64, width: i64, height: i64 },
    /// Stroke the outline of the rectangle whose lower left corner is `(x, y)`.
    StrokeRect { x: i64, y: i64, width: i64, height: i64 },
    LineWidth { width: i64 },
    SaveState,
    RestoreState,
    /// Place an image with its lower left corner at `(x, y)`.
    Image { name: String, x: i64, y: i64, width: i64, height: i64 },
}

pub enum DrawOpView {
    FillRgb { r: u8, g: u8, b: u8 },
    FillGray { level: int },
    Text { font: Seq<char>, size: int, x: int, y: int, bytes: Seq<u8> },
    FillRect { x: int, y: int, width: int, height: int },
    StrokeRect { x: int, y: int, width: int, height: int },
    LineWidth { width: int },
    SaveState,
    RestoreState,
    Image { name: Seq<char>, x: int, y: int, width: int, height: int },
}

impl View for DrawOp {
    type V = DrawOpView;

    open spec fn view(&self) -> DrawOpView {
        match self {
            DrawOp::FillRgb { r, g, b } => DrawOpView::FillRgb { r: *r, g: *g, b: *b },
            DrawOp::FillGray { level } => DrawOpView::FillGray { level: *level as int },
            DrawOp::Text { font, size, x, y, bytes } => DrawOpView::Text {
                font: font@,
                size: *size as int,
                x: *x as int,
                y: *y as int,
                bytes: bytes@,
            },
            DrawOp::FillRect { x, y, width, height } => DrawOpView::FillRect {
                x: *x as int,
                y: *y as int,
                width: *width as int,
                height: *height as int,
            },
            DrawOp::StrokeRect { x, y, width, height } => DrawOpView::StrokeRect {
                x: *x as int,
                y: *y as int,
                width: *width as int,
                height: *height as int,
            },
            DrawOp::LineWidth { width } => DrawOpView::LineWidth { width: *width as int },
            DrawOp::SaveState => DrawOpView::SaveState,
            DrawOp::RestoreState => DrawOpView::RestoreState,
            DrawOp::Image { name, x, y, width, height } => DrawOpView::Image {
                name: name@,
                x: *x as int,
                y: *y as int,
                width: *width as int,
                height: *height as int,
            },
        }
    }
}

pub open spec fn ops_view(ops: Seq<DrawOp>) -> Seq<DrawOpView> {
    Seq::new(ops.len(), |i: int| ops[i]@)
}

/// Appends one instruction.
pub fn emit(content: &mut Vec<DrawOp>, op: DrawOp)
    ensures
        ops_view(final(content)@) == ops_view(old(content)@).push(op@),
{
    content.push(op);
}

/// A line is justified only in a justified paragraph, only if it is not the
/// paragraph's last line, and only if it holds more than one chunk.
pub open spec fn justified(alignment: Alignment, line_index: int, line_count: int, chunks: int) -> bool {
    alignment == Alignment::Justify && line_index != line_count - 1 && chunks > 1
}

/// The last line of a paragraph is never justified.
pub proof fn lemma_last_line_not_justified(alignment: Alignment, line_count: int, chunks: int)
    ensures
        !justified(alignment, line_count - 1, line_count, chunks),
{
}

pub fn is_justified(alignment: Alignment, line_index: usize, line_count: usize, chunks: usize) -> (j:
    bool)
    ensures
        j == justified(alignment, line_index as int, line_count as int, chunks as int),
{
    alignment == Alignment::Justify && (line_count == 0 || line_index != line_count - 1) && chunks > 1
}

/// Where a line starts: at the left edge, or moved right by the slack or by
/// half of it.
pub open spec fn line_start(alignment: Alignment, left: int, available: int, line_width: int) -> int {
    match alignment {
        Alignment::Center => left + (available - line_width) / 2,
        Alignment::Right => left + available - line_width,
        _ => left,
    }
}

/// How far chunk `i` of a line is moved to the right: on a justified line
/// the slack times `i` divided by the number of gaps, so that the gaps grow
/// alike and the last chunk moves by all of the slack; else nothing.
pub open spec fn gap_shift(
    alignment: Alignment,
    line_index: int,
    line_count: int,
    chunks: int,
    available: int,
    line_width: int,
    i: int,
) -> int {
    if justified(alignment, line_index, line_count, chunks) {
        i * (available - line_width) / (chunks - 1)
    } else {
        0
    }
}

/// On a justified line the last chunk is moved by all of the slack: where
/// it ended at the width of the line, it now ends at the right edge.
pub proof fn lemma_justified_reaches_edge(
    alignment: Alignment,
    line_index: int,
    line_count: int,
    chunks: int,
    available: int,
    line_width: int,
)
    requires
        justified(alignment, line_index, line_count, chunks),
    ensures
        gap_shift(alignment, line_index, line_count, chunks, available, line_width, 0) == 0,
        gap_shift(alignment, line_index, line_count, chunks, available, line_width, chunks - 1)
            == available - line_width,
{
    let m = chunks - 1;
    let d = available - line_width;
    assert(m * d / m == d && 0 * d / m == 0) by (nonlinear_arith)
        requires
            m > 0,
    ;
}

/// The thickness of an underline or a strike: a twentieth of the font size,
/// and at least half a point.
pub open spec fn rule_thickness(size: int) -> int {
    max_int(percent(size, 5), 500)
}

/// The instruction that sets the fill colour of a chunk.
pub open spec fn color_op(color: Option<[u8; 3]>) -> DrawOpView {
    match color {
        Some(c) => DrawOpView::FillRgb { r: c[0], g: c[1], b: c[2] },
        None => DrawOpView::FillGray { level: 0 },
    }
}

/// The instructions for one chunk whose line starts at `(x, y)`: a change of
/// colour where the chunk's colour is not the current one, the text, and the
/// rules under and through it.
pub open spec fn chunk_ops(c: ChunkView, x: int, y: int, current: Option<[u8; 3]>) -> Seq<
    DrawOpView,
> {
    let color = if c.color != current {
        seq![color_op(c.color)]
    } else {
        Seq::empty()
    };
    let text = seq![
        DrawOpView::Text {
            font: c.pdf_font,
            size: c.font_size,
            x: x,
            y: y + c.y_offset,
            bytes: winansi_encode(c.text),
        },
    ];
    let under = if c.underline {
        seq![
            DrawOpView::FillRect {
                x: x,
                y: y - percent(c.font_size, 12) - rule_thickness(c.font_size),
                width: c.width,
                height: rule_thickness(c.font_size),
            },
        ]
    } else {
        Seq::empty()
    };
    let strike = if c.strikethrough {
        seq![
            DrawOpView::FillRect {
                x: x,
                y: y + percent(c.font_size, 30),
                width: c.width,
                height: rule_thickness(c.font_size),
            },
        ]
    } else {
        Seq::empty()
    };
    color + text + under + strike
}

/// How a paragraph's lines are set.
pub struct LineSetting {
    pub alignment: Alignment,
    /// Left edge of the text.
    pub left: int,
    /// Width available to a line.
    pub available: int,
    /// Baseline of the first line that is drawn.
    pub first_baseline: int,
    /// Distance from one baseline to the next.
    pub pitch: int,
    /// Index of the first line that is drawn.
    pub from: int,
}

/// The colour in force after the first `i` chunks of line `k`, where `start`
/// was in force at the start of line `from`.
pub open spec fn color_after(
    lines: Seq<LineView>,
    from: int,
    k: int,
    i: int,
    start: Option<[u8; 3]>,
) -> Option<[u8; 3]>
    decreases k - from, i,
{
    if i > 0 {
        lines[k].chunks[i - 1].color
    } else if k > from {
        color_after(lines, from, k - 1, lines[k - 1].chunks.len() as int, start)
    } else {
        start
    }
}

/// The horizontal position of chunk `i` of line `k`.
pub open spec fn chunk_x(lines: Seq<LineView>, set: LineSetting, k: int, i: int) -> int {
    let line = lines[k];
    line_start(set.alignment, set.left, set.available, line.total_width) + line.chunks[i].x_offset
        + gap_shift(
        set.alignment,
        k,
        lines.len() as int,
        line.chunks.len() as int,
        set.available,
        line.total_width,
        i,
    )
}

/// The baseline of line `k`.
pub open spec fn line_y(set: LineSetting, k: int) -> int {
    set.first_baseline - (k - set.from) * set.pitch
}

/// The instructions for the first `i` chunks of line `k`.
pub open spec fn line_ops(lines: Seq<LineView>, set: LineSetting, k: int, i: int) -> Seq<
    DrawOpView,
>
    decreases i,
{
    if i <= 0 {
        Seq::empty()
    } else {
        line_ops(lines, set, k, i - 1) + chunk_ops(
            lines[k].chunks[i - 1],
            chunk_x(lines, set, k, i - 1),
            line_y(set, k),
            color_after(lines, set.from, k, i - 1, None),
        )
    }
}

/// The instructions for the lines `set.from..to`.
pub open spec fn lines_ops(lines: Seq<LineView>, set: LineSetting, to: int) -> Seq<DrawOpView>
    decreases to - set.from,
{
    if to <= set.from {
        Seq::empty()
    } else {
        lines_ops(lines, set, to - 1) + line_ops(
            lines,
            set,
            to - 1,
            lines[to - 1].chunks.len() as int,
        )
    }
}

/// The instructions for the lines `set.from..to` of a paragraph: the lines in
/// order, and a return to black if the last chunk was coloured.
pub open spec fn paragraph_ops(lines: Seq<LineView>, set: LineSetting, to: int) -> Seq<DrawOpView> {
    let reset = if color_after(lines, set.from, to, 0, None) is Some {
        seq![DrawOpView::FillGray { level: 0 }]
    } else {
        Seq::empty()
    };
    lines_ops(lines, set, to) + reset
}

pub fn rule_thickness_of(size: i64) -> (t: i64)
    requires
        0 <= size <= MAX_FONT_SIZE,
    ensures
        t == rule_thickness(size as int),
        0 < t <= MAX_FONT_SIZE,
{
    proof {
        crate::flow::lemma_percent_range(size as int, 5);
    }
    max_i64(scale_percent(size, 5), 500)
}

/// Draws one chunk.
fn draw_chunk(content: &mut Vec<DrawOp>, chunk: &WordChunk, x: i64, y: i64, current: Option<[u8; 3]>)
    requires
        chunk_drawable(chunk@),
        -4 * MAX_DRAW <= x <= 4 * MAX_DRAW,
        -4 * MAX_DRAW <= y <= 4 * MAX_DRAW,
    ensures
        ops_view(final(content)@) == ops_view(old(content)@) + chunk_ops(
            chunk@,
            x as int,
            y as int,
            current,
        ),
{
    let changed = match (chunk.color, current) {
        (Some(a), Some(b)) => a[0] != b[0] || a[1] != b[1] || a[2] != b[2],
        (None, None) => false,
        _ => true,
    };
    proof {
        if let (Some(a), Some(b)) = (chunk.color, current) {
            if !changed {
                assert(a =~= b);
            }
        }
    }
    if changed {
        match chunk.color {
            Some(rgb) => emit(content, DrawOp::FillRgb { r: rgb[0], g: rgb[1], b: rgb[2] }),
            None => emit(content, DrawOp::FillGray { level: 0 }),
        }
    }
    let bytes = to_winansi_bytes(chunk.text.as_str());
    emit(
        content,
        DrawOp::Text { font: chunk.pdf_font.clone(), size: chunk.font_size, x, y: y + chunk.y_offset, bytes },
    );
    proof {
        crate::flow::lemma_percent_range(chunk.font_size as int, 12);
        crate::flow::lemma_percent_range(chunk.font_size as int, 30);
    }
    if chunk.underline {
        let thick = rule_thickness_of(chunk.font_size);
        let ul_y = y - scale_percent(chunk.font_size, 12);
        emit(content, DrawOp::FillRect { x, y: ul_y - thick, width: chunk.width, height: thick });
    }
    if chunk.strikethrough {
        let thick = rule_thickness_of(chunk.font_size);
        let st_y = y + scale_percent(chunk.font_size, 30);
        emit(content, DrawOp::FillRect { x, y: st_y, width: chunk.width, height: thick });
    }
}

/// A part of a number is between nothing and the number.
pub proof fn lemma_stretch_range(i: int, m: int, d: int)
    by (nonlinear_arith)
    requires
        0 <= i <= m,
        m > 0,
    ensures
        d >= 0 ==> 0 <= i * d / m <= d,
        d < 0 ==> d <= i * d / m <= 0,
{
}

pub open spec fn setting_ok(set: LineSetting) -> bool {
    &&& -MAX_DRAW <= set.left <= MAX_DRAW
    &&& -MAX_DRAW <= set.available <= MAX_DRAW
    &&& -MAX_DRAW <= set.first_baseline <= MAX_DRAW
    &&& 0 <= set.pitch <= 200_000_000
}

/// Draws the lines `from..to` of a paragraph, the first of them on the
/// baseline `first_baseline_y` and each following one `line_pitch` lower.
///
/// A line starts at `margin_left` for left-aligned and justified text and is
/// moved right by the slack, or by half of it, for right-aligned and centred
/// text. On a justified line that is not the paragraph's last and holds more
/// than one chunk, the slack is divided evenly over the gaps between chunks.
pub fn render_paragraph_lines(
    content: &mut Vec<DrawOp>,
    lines: &Vec<TextLine>,
    from: usize,
    to: usize,
    alignment: Alignment,
    margin_left: i64,
    text_width: i64,
    first_baseline_y: i64,
    line_pitch: i64,
)
    requires
        from <= to <= lines@.len(),
        lines_drawable(lines_view(lines@)),
        setting_ok(
            LineSetting {
                alignment,
                left: margin_left as int,
                available: text_width as int,
                first_baseline: first_baseline_y as int,
                pitch: line_pitch as int,
                from: from as int,
            },
        ),
    ensures
        ops_view(final(content)@) == ops_view(old(content)@) + paragraph_ops(
            lines_view(lines@),
            LineSetting {
                alignment,
                left: margin_left as int,
                available: text_width as int,
                first_baseline: first_baseline_y as int,
                pitch: line_pitch as int,
                from: from as int,
            },
            to as int,
        ),
{
    let ghost before = ops_view(content@);
    let ghost all = lines_view(lines@);
    let ghost set = LineSetting {
        alignment,
        left: margin_left as int,
        available: text_width as int,
        first_baseline: first_baseline_y as int,
        pitch: line_pitch as int,
        from: from as int,
    };
    let mut current: Option<[u8; 3]> = None;
    let mut k: usize = from;
    while k < to
        invariant
            from <= k <= to <= lines@.len(),
            all == lines_view(lines@),
            lines_drawable(all),
            setting_ok(set),
            set == (LineSetting {
                alignment,
                left: margin_left as int,
                available: text_width as int,
                first_baseline: first_baseline_y as int,
                pitch: line_pitch as int,
                from: from as int,
            }),
            current == color_after(all, from as int, k as int, 0, None),
            ops_view(content@) == before + lines_ops(all, set, k as int),
        decreases to - k,
    {
        let line = &lines[k];
        let n = line.chunks.len();
        proof {
            assert(0 <= (k - from) * line_pitch <= 2_000_000_000 * 200_000_000) by (nonlinear_arith)
                requires
                    0 <= k - from <= 2_000_000_000,
                    0 <= line_pitch <= 200_000_000,
            ;
        }
        let y = first_baseline_y - ((k - from) as i64) * line_pitch;
        let start = match alignment {
            Alignment::Center => margin_left + floor_div(text_width - line.total_width, 2),
            Alignment::Right => margin_left + text_width - line.total_width,
            _ => margin_left,
        };
        let stretched = is_justified(alignment, k, lines.len(), n);
        let ghost line_before = ops_view(content@);
        let mut i: usize = 0;
        while i < n
            invariant
                i <= n,
                n == line.chunks@.len(),
                n <= MAX_LINES,
                from <= k < to <= lines@.len(),
                all == lines_view(lines@),
                all[k as int] == line@,
                line_drawable(line@),
                setting_ok(set),
                set == (LineSetting {
                    alignment,
                    left: margin_left as int,
                    available: text_width as int,
                    first_baseline: first_baseline_y as int,
                    pitch: line_pitch as int,
                    from: from as int,
                }),
                y == line_y(set, k as int),
                -2 * MAX_DRAW <= y <= 2 * MAX_DRAW,
                start == line_start(alignment, set.left, set.available, line@.total_width),
                stretched == justified(alignment, k as int, all.len() as int, n as int),
                current == color_after(all, from as int, k as int, i as int, None),
                ops_view(content@) == line_before + line_ops(all, set, k as int, i as int),
            decreases n - i,
        {
            let chunk = &line.chunks[i];
            proof {
                assert(chunk_drawable(line@.chunks[i as int]));
            }
            let shift = if stretched {
                proof {
                    lemma_stretch_range(i as int, n - 1, text_width - line.total_width);
                }
                mul_div(i as i64, text_width - line.total_width, (n - 1) as i64)
            } else {
                0
            };
            let x = start + chunk.x_offset + shift;
            draw_chunk(content, chunk, x, y, current);
            current = chunk.color;
            i += 1;
        }
        k += 1;
    }
    if current.is_some() {
        emit(content, DrawOp::FillGray { level: 0 });
    }
}

} // verus!
