//! The pagination engine: blocks are placed from top to bottom, and a block
//! that does not fit in what is left of a page moves to the next.
//!
//! A paragraph that does not fit may be split, but only so that at least two
//! of its lines stay on the page and at least two move on; else it moves
//! whole. On an empty page a paragraph is placed even if it does not fit.

use crate::draw::{
    emit, ops_view, paragraph_ops, render_paragraph_lines, DrawOp, DrawOpView, LineSetting,
};
use crate::flow::{
    build_paragraph_lines, entry_for, lines_drawable, lines_view, paragraph_lines, LineView,
    TextLine,
};
use crate::fonts::FontTable;
use crate::metrics::{
    ascent, ascent_of, first_line_height, first_line_height_of, line_height, line_height_of,
    metrics_ok, tallest, tallest_run_metrics, RunMetrics, MAX_LINE_HEIGHT,
};
use crate::model::{Block, Document, Paragraph, Run};
use crate::number::{numbered, numbered_name};
use crate::page::{at_top, is_at_top, page_top, turned, Layout, PageBuilder, MIN_SLOT};
use crate::table::{render_table, slot_ok, table_covered, table_placed};
use crate::tabs::{build_tabbed_line, tabbed_line};
use crate::units::{floor_div, max_i64, max_int, MAX_COORD, MAX_PARA_CHARS};
use crate::winansi::{to_winansi_bytes, winansi_encode};
use vstd::prelude::*;

verus! {

/// Narrowest text area of a paragraph: a point.
pub const MIN_TEXT_WIDTH: i64 = 1000;

/// What is done with a paragraph that is to be placed.
#[derive(Clone, Copy, Debug, PartialEq, Eq, Structural)]
pub enum Placement {
    /// It is placed at the cursor.
    Here,
    /// Its first `kept` lines are placed at the cursor and the rest at the
    /// top of the next page.
    Split { kept: usize },
    /// It is placed at the top of the next page.
    NextPage,
}

/// `a - b`, and zero where `b` is larger.
pub open spec fn minus_or_zero(a: int, b: int) -> int {
    if a >= b {
        a - b
    } else {
        0
    }
}

/// The number of lines that fit in `available`: none unless the first line
/// fits, and one more for every line height that fits below it.
pub open spec fn lines_that_fit(available: int, first_line_h: int, line_h: int) -> int {
    if line_h > 0 && available >= first_line_h {
        1 + (available - first_line_h) / line_h
    } else {
        0
    }
}

/// The number of lines to keep on the page where `fit` lines fit: where
/// fewer than two lines would be left over, two are.
pub open spec fn kept_lines(fit: int, total: int) -> int {
    if fit > 0 && minus_or_zero(total, fit) < 2 {
        minus_or_zero(total, 2)
    } else {
        fit
    }
}

/// What is done with a paragraph of `total` lines that needs `gap` above it
/// and `content_h` for itself, with the cursor at `slot_top`. It is placed at
/// the cursor if the page is empty or if it fits together with `keep`, the
/// room that the start of the next paragraph needs. Else it is split if at
/// least two lines can stay and at least two move on, and moves whole if not.
pub open spec fn placement(
    slot_top: int,
    top: int,
    margin_bottom: int,
    gap: int,
    content_h: int,
    keep: int,
    first_line_h: int,
    line_h: int,
    total: int,
) -> Placement {
    if !at_top(slot_top, top) && slot_top - (gap + content_h) - keep < margin_bottom {
        let kept = kept_lines(
            lines_that_fit(slot_top - gap - margin_bottom, first_line_h, line_h),
            total,
        );
        if 2 <= kept < total {
            Placement::Split { kept: kept as usize }
        } else {
            Placement::NextPage
        }
    } else {
        Placement::Here
    }
}

/// A paragraph of five lines that does not fit, with room for exactly two
/// lines below the cursor, is split into two lines that stay and three
/// that move on, where the first line is no taller than the others.
pub proof fn lemma_five_lines_room_for_two(
    slot_top: int,
    top: int,
    margin_bottom: int,
    gap: int,
    content_h: int,
    keep: int,
    first_line_h: int,
    line_h: int,
)
    requires
        !at_top(slot_top, top),
        slot_top - (gap + content_h) - keep < margin_bottom,
        0 < first_line_h <= line_h,
        slot_top - gap - margin_bottom == 2 * line_h,
    ensures
        placement(slot_top, top, margin_bottom, gap, content_h, keep, first_line_h, line_h, 5)
            == (Placement::Split { kept: 2 }),
{
    assert((2 * line_h - first_line_h) / line_h == 1) by (nonlinear_arith)
        requires
            0 < first_line_h <= line_h,
    ;
}

/// Where a paragraph is split, at least two lines stay and at least two move
/// on.
pub proof fn lemma_split_keeps_two(
    slot_top: int,
    top: int,
    margin_bottom: int,
    gap: int,
    content_h: int,
    keep: int,
    first_line_h: int,
    line_h: int,
    total: int,
)
    requires
        0 <= total <= usize::MAX,
    ensures
        placement(
            slot_top,
            top,
            margin_bottom,
            gap,
            content_h,
            keep,
            first_line_h,
            line_h,
            total,
        ) matches Placement::Split { kept } ==> kept >= 2 && total - kept >= 2,
{
}

/// A paragraph of fewer than four lines is never split.
pub proof fn lemma_short_paragraph_not_split(
    slot_top: int,
    top: int,
    margin_bottom: int,
    gap: int,
    content_h: int,
    keep: int,
    first_line_h: int,
    line_h: int,
    total: int,
)
    requires
        0 <= total < 4,
    ensures
        !(placement(
            slot_top,
            top,
            margin_bottom,
            gap,
            content_h,
            keep,
            first_line_h,
            line_h,
            total,
        ) is Split),
{
}

/// Decides what is done with a paragraph.
pub fn place(
    slot_top: i64,
    top: i64,
    margin_bottom: i64,
    gap: i64,
    content_h: i64,
    keep: i64,
    first_line_h: i64,
    line_h: i64,
    total: usize,
) -> (p: Placement)
    requires
        MIN_SLOT <= slot_top <= 2 * MAX_COORD,
        -MAX_COORD <= top <= 2 * MAX_COORD,
        -MAX_COORD <= margin_bottom <= MAX_COORD,
        0 <= gap <= MAX_COORD,
        0 <= content_h <= 1_000_000_000_000_000,
        0 <= keep <= 2 * MAX_COORD,
        0 <= first_line_h <= MAX_LINE_HEIGHT,
        0 <= line_h <= MAX_LINE_HEIGHT,
        total <= MAX_PARA_CHARS,
    ensures
        p == placement(
            slot_top as int,
            top as int,
            margin_bottom as int,
            gap as int,
            content_h as int,
            keep as int,
            first_line_h as int,
            line_h as int,
            total as int,
        ),
        p matches Placement::Split { kept } ==> 2 <= kept && kept + 2 <= total,
{
    if !is_at_top(slot_top, top) && slot_top - (gap + content_h) - keep < margin_bottom {
        let available = slot_top - gap - margin_bottom;
        let fit: i64 = if line_h > 0 && available >= first_line_h {
            let q = (available - first_line_h) / line_h;
            proof {
                assert(0 <= q <= available - first_line_h) by (nonlinear_arith)
                    requires
                        q == (available - first_line_h) / (line_h as int),
                        line_h > 0,
                        available - first_line_h >= 0,
                ;
            }
            1 + q
        } else {
            0
        };
        let n = total as i64;
        let left = if n >= fit {
            n - fit
        } else {
            0
        };
        let kept = if fit > 0 && left < 2 {
            if n >= 2 {
                n - 2
            } else {
                0
            }
        } else {
            fit
        };
        if 2 <= kept && kept < n {
            Placement::Split { kept: kept as usize }
        } else {
            Placement::NextPage
        }
    } else {
        Placement::Here
    }
}

/// The paragraph at index `i`, if there is a block at `i` and it is one.
pub open spec fn block_paragraph(blocks: Seq<Block>, i: int) -> Option<Paragraph> {
    if 0 <= i < blocks.len() {
        match blocks[i] {
            Block::Paragraph(p) => Some(p),
            Block::Table(_) => None,
        }
    } else {
        None
    }
}

fn paragraph_at(blocks: &Vec<Block>, i: usize) -> (p: Option<&Paragraph>)
    ensures
        match p {
            Some(q) => block_paragraph(blocks@, i as int) == Some(*q),
            None => block_paragraph(blocks@, i as int) is None,
        },
{
    if i < blocks.len() {
        match &blocks[i] {
            Block::Paragraph(p) => Some(p),
            Block::Table(_) => None,
        }
    } else {
        None
    }
}

pub open spec fn contextual(p: Option<Paragraph>) -> bool {
    p matches Some(q) && q.contextual_spacing
}

/// The space before a paragraph: none between two paragraphs that both ask
/// for contextual spacing.
pub open spec fn space_before_of(blocks: Seq<Block>, i: int) -> int {
    let para = block_paragraph(blocks, i).unwrap();
    if para.contextual_spacing && contextual(block_paragraph(blocks, i - 1)) {
        0
    } else {
        para.space_before as int
    }
}

/// The space after a paragraph: none between two paragraphs that both ask
/// for contextual spacing.
pub open spec fn space_after_of(blocks: Seq<Block>, i: int) -> int {
    let para = block_paragraph(blocks, i).unwrap();
    if para.contextual_spacing && contextual(block_paragraph(blocks, i + 1)) {
        0
    } else {
        para.space_after as int
    }
}

/// The room that a paragraph which is kept with the next asks for below
/// itself: the gap to the next paragraph and the height of its first line.
pub open spec fn keep_next_extra(fonts: FontTable, blocks: Seq<Block>, i: int) -> int {
    let para = block_paragraph(blocks, i).unwrap();
    match block_paragraph(blocks, i + 1) {
        Some(next) => if para.keep_next {
            let m = tallest(next.runs@, fonts, next.runs@.len() as int);
            max_int(space_after_of(blocks, i), next.space_before as int) + first_line_height(
                m.font_size as int,
                m.line_h_ratio,
                1200,
            )
        } else {
            0
        },
        None => 0,
    }
}

pub open spec fn has_tabs(runs: Seq<Run>) -> bool {
    exists|k: int| 0 <= k < runs.len() && (#[trigger] runs[k]).is_tab
}

/// Whether a paragraph holds nothing to set in lines: an image, or no runs.
pub open spec fn is_figure(para: Paragraph) -> bool {
    para.image is Some || para.runs@.len() == 0
}

/// The width of the text area between the margins.
pub open spec fn text_area_width(doc: Document) -> int {
    doc.page_width - doc.margin_left - doc.margin_right
}

/// The width available to a paragraph's lines: the text area less the
/// indent, and at least a point.
pub open spec fn para_width(doc: Document, para: Paragraph) -> int {
    max_int(text_area_width(doc) - para.indent_left, MIN_TEXT_WIDTH as int)
}

/// The lines of a paragraph: none for a figure, one for a paragraph with
/// tabs, and the wrapped lines else.
pub open spec fn para_lines(doc: Document, fonts: FontTable, para: Paragraph) -> Seq<LineView> {
    if is_figure(para) {
        Seq::empty()
    } else if has_tabs(para.runs@) {
        seq![tabbed_line(para.runs@, fonts, para.tab_stops@, para.indent_left as int)]
    } else {
        paragraph_lines(para.runs@, fonts, para_width(doc, para))
    }
}

/// What is known of a paragraph before it is placed.
pub struct Measure {
    /// The gap above it: the larger of the space after the block before and
    /// its own space before.
    pub gap: int,
    /// The space after it.
    pub after: int,
    pub metrics: RunMetrics,
    pub line_h: int,
    pub lines: Seq<LineView>,
    /// The height of its lines, or of its figure.
    pub content_h: int,
    /// The room it asks for below itself.
    pub keep: int,
}

pub open spec fn measured(doc: Document, fonts: FontTable, i: int, prev_space_after: int) -> Measure {
    let para = block_paragraph(doc.blocks@, i).unwrap();
    let metrics = tallest(para.runs@, fonts, para.runs@.len() as int);
    let spacing = match para.line_spacing {
        Some(s) => s as int,
        None => doc.line_spacing as int,
    };
    let line_h = line_height(metrics.font_size as int, metrics.line_h_ratio, spacing);
    let lines = para_lines(doc, fonts, para);
    Measure {
        gap: max_int(prev_space_after, space_before_of(doc.blocks@, i)),
        after: space_after_of(doc.blocks@, i),
        metrics,
        line_h,
        lines,
        content_h: if is_figure(para) {
            max_int(para.content_height as int, doc.line_pitch as int)
        } else {
            lines.len() * line_h
        },
        keep: keep_next_extra(fonts, doc.blocks@, i),
    }
}

/// What is measured of a paragraph before it is placed.
#[derive(Debug)]
pub struct ParaLayout {
    pub gap: i64,
    pub after: i64,
    pub metrics: RunMetrics,
    pub line_h: i64,
    pub lines: Vec<TextLine>,
    pub content_h: i64,
    pub keep: i64,
}

impl View for ParaLayout {
    type V = Measure;

    open spec fn view(&self) -> Measure {
        Measure {
            gap: self.gap as int,
            after: self.after as int,
            metrics: self.metrics,
            line_h: self.line_h as int,
            lines: lines_view(self.lines@),
            content_h: self.content_h as int,
            keep: self.keep as int,
        }
    }
}

/// Every run of every block has its font registered.
pub open spec fn blocks_covered(fonts: FontTable, blocks: Seq<Block>) -> bool {
    forall|i: int|
        0 <= i < blocks.len() ==> match #[trigger] blocks[i] {
            Block::Paragraph(p) => fonts.covers_all(p.runs@),
            Block::Table(t) => table_covered(fonts, t),
        }
}

pub open spec fn measure_ok(m: Measure) -> bool {
    &&& 0 <= m.gap <= MAX_COORD
    &&& 0 <= m.after <= MAX_COORD
    &&& metrics_ok(m.metrics)
    &&& 0 <= m.line_h <= MAX_LINE_HEIGHT
    &&& lines_drawable(m.lines)
    &&& m.lines.len() <= MAX_PARA_CHARS
    &&& 0 <= m.content_h <= 200_000_000_000_000
    &&& 0 <= m.keep <= 2 * MAX_COORD
}

fn any_tab(runs: &Vec<Run>) -> (b: bool)
    ensures
        b == has_tabs(runs@),
{
    let mut k: usize = 0;
    while k < runs.len()
        invariant
            k <= runs@.len(),
            forall|j: int| 0 <= j < k ==> !(#[trigger] runs@[j]).is_tab,
        decreases runs.len() - k,
    {
        if runs[k].is_tab {
            return true;
        }
        k += 1;
    }
    false
}

/// Measures the paragraph at block `i`.
pub fn measure_paragraph(doc: &Document, fonts: &FontTable, i: usize, prev_space_after: i64) -> (out:
    ParaLayout)
    requires
        doc.has_page(),
        doc.in_bounds(),
        fonts.wf(),
        blocks_covered(*fonts, doc.blocks@),
        block_paragraph(doc.blocks@, i as int) is Some,
        0 <= prev_space_after <= MAX_COORD,
    ensures
        out@ == measured(*doc, *fonts, i as int, prev_space_after as int),
        measure_ok(out@),
{
    let para = paragraph_at(&doc.blocks, i).unwrap();
    let prev = if i > 0 {
        paragraph_at(&doc.blocks, i - 1)
    } else {
        None
    };
    let count = doc.blocks.len();
    assert(i < count);
    let next = paragraph_at(&doc.blocks, i + 1);
    let prev_contextual = match prev {
        Some(p) => p.contextual_spacing,
        None => false,
    };
    let next_contextual = match next {
        Some(p) => p.contextual_spacing,
        None => false,
    };
    let before = if para.contextual_spacing && prev_contextual {
        0
    } else {
        para.space_before
    };
    let after = if para.contextual_spacing && next_contextual {
        0
    } else {
        para.space_after
    };
    let gap = max_i64(prev_space_after, before);
    let metrics = tallest_run_metrics(&para.runs, fonts);
    let spacing = match para.line_spacing {
        Some(s) => s,
        None => doc.line_spacing,
    };
    let line_h = line_height_of(metrics.font_size, metrics.line_h_ratio, spacing);
    let figure = para.image.is_some() || para.runs.len() == 0;
    let lines: Vec<TextLine> = if figure {
        let v: Vec<TextLine> = Vec::new();
        proof {
            assert(lines_view(v@) =~= Seq::<LineView>::empty());
        }
        v
    } else if any_tab(&para.runs) {
        build_tabbed_line(&para.runs, fonts, &para.tab_stops, para.indent_left)
    } else {
        let width = max_i64(
            doc.page_width - doc.margin_left - doc.margin_right - para.indent_left,
            MIN_TEXT_WIDTH,
        );
        build_paragraph_lines(&para.runs, fonts, width)
    };
    let content_h = if figure {
        max_i64(para.content_height, doc.line_pitch)
    } else {
        proof {
            assert(0 <= lines@.len() * line_h <= 1_000_000 * 200_000_000) by (nonlinear_arith)
                requires
                    0 <= lines@.len() <= 1_000_000,
                    0 <= line_h <= 200_000_000,
            ;
        }
        (lines.len() as i64) * line_h
    };
    let keep = match next {
        Some(n) => {
            if para.keep_next {
                let m = tallest_run_metrics(&n.runs, fonts);
                max_i64(after, n.space_before) + first_line_height_of(
                    m.font_size,
                    m.line_h_ratio,
                    1200,
                )
            } else {
                0
            }
        },
        None => 0,
    };
    ParaLayout { gap, after, metrics, line_h, lines, content_h, keep }
}

/// Whether a paragraph that starts a page holds nothing but the break.
pub open spec fn only_break(para: Paragraph) -> bool {
    forall|k: int|
        0 <= k < para.runs@.len() ==> (#[trigger] para.runs@[k]).is_tab || para.runs@[k].text@.len()
            == 0
}

fn is_only_break(para: &Paragraph) -> (b: bool)
    ensures
        b == only_break(*para),
{
    let mut k: usize = 0;
    while k < para.runs.len()
        invariant
            k <= para.runs@.len(),
            forall|j: int|
                0 <= j < k ==> (#[trigger] para.runs@[j]).is_tab || para.runs@[j].text@.len() == 0,
        decreases para.runs.len() - k,
    {
        if !para.runs[k].is_tab && !para.runs[k].text.as_str().is_empty() {
            return false;
        }
        k += 1;
    }
    true
}

/// The name of the `n`-th image of a document.
pub open spec fn image_name(n: int) -> Seq<char> {
    numbered_name(seq!['I', 'm'], n as nat)
}

/// How the lines of a paragraph are set, from line `from` on, with the top
/// of the first of them at `slot`.
pub open spec fn para_setting(doc: Document, para: Paragraph, m: Measure, slot: int, from: int) -> LineSetting {
    LineSetting {
        alignment: para.alignment,
        left: doc.margin_left + para.indent_left,
        available: para_width(doc, para),
        first_baseline: slot - ascent(m.metrics.font_size as int, m.metrics.ascender_ratio),
        pitch: m.line_h,
        from,
    }
}

/// The instruction for the label of a list item: none without a label.
pub open spec fn label_ops(doc: Document, fonts: FontTable, para: Paragraph, m: Measure, slot: int) -> Seq<
    DrawOpView,
> {
    if para.list_label@.len() > 0 {
        seq![
            DrawOpView::Text {
                font: entry_for(fonts, para.runs@[0]).pdf_name@,
                size: m.metrics.font_size as int,
                x: doc.margin_left + max_int(para.indent_left - para.indent_hanging, 0),
                y: slot - ascent(m.metrics.font_size as int, m.metrics.ascender_ratio),
                bytes: winansi_encode(para.list_label@),
            },
        ]
    } else {
        Seq::empty()
    }
}

/// The instructions for a figure: the image, centred in the text area, or a
/// grey rectangle in its place where the paragraph holds no image.
pub open spec fn figure_ops(doc: Document, para: Paragraph, m: Measure, slot: int, images: int) -> Seq<
    DrawOpView,
> {
    match para.image {
        Some(img) => seq![
            DrawOpView::Image {
                name: image_name(images),
                x: doc.margin_left + max_int(text_area_width(doc) - img.display_width, 0) / 2,
                y: slot - img.display_height,
                width: img.display_width as int,
                height: img.display_height as int,
            },
        ],
        None => seq![
            DrawOpView::FillGray { level: 500 },
            DrawOpView::FillRect {
                x: doc.margin_left as int,
                y: slot - m.content_h,
                width: text_area_width(doc),
                height: m.content_h,
            },
            DrawOpView::FillGray { level: 0 },
        ],
    }
}

/// The instructions for a paragraph that is placed whole with its top at
/// `slot`.
pub open spec fn body_ops(
    doc: Document,
    fonts: FontTable,
    para: Paragraph,
    m: Measure,
    slot: int,
    images: int,
) -> Seq<DrawOpView> {
    if is_figure(para) && para.content_height > 0 {
        figure_ops(doc, para, m, slot, images)
    } else if m.lines.len() > 0 {
        label_ops(doc, fonts, para, m, slot) + paragraph_ops(
            m.lines,
            para_setting(doc, para, m, slot, 0),
            m.lines.len() as int,
        )
    } else {
        Seq::empty()
    }
}

/// The instructions for the rule below a paragraph: none without a border.
pub open spec fn border_ops(doc: Document, para: Paragraph, m: Measure, slot: int) -> Seq<
    DrawOpView,
> {
    match para.border_bottom {
        Some(b) => seq![
            DrawOpView::FillRgb { r: b.color[0], g: b.color[1], b: b.color[2] },
            DrawOpView::FillRect {
                x: doc.margin_left as int,
                y: slot - m.content_h - b.space_pt - b.width_pt,
                width: text_area_width(doc),
                height: b.width_pt as int,
            },
            DrawOpView::FillRgb { r: 0, g: 0, b: 0 },
        ],
        None => Seq::empty(),
    }
}

/// The state after a paragraph is placed whole, with `gap` above it. At the
/// top of a page that is not the first there is no gap.
pub open spec fn whole_placed(
    doc: Document,
    fonts: FontTable,
    para: Paragraph,
    m: Measure,
    st: Layout,
    gap: int,
) -> Layout {
    let used = if st.pages.len() > 0 && at_top(st.slot_top, page_top(doc)) {
        0
    } else {
        gap
    };
    let slot = st.slot_top - used;
    Layout {
        content: st.content + body_ops(doc, fonts, para, m, slot, st.images) + border_ops(
            doc,
            para,
            m,
            slot,
        ),
        slot_top: slot - m.content_h,
        prev_space_after: m.after,
        ..st
    }
}

/// The state after a paragraph is split: its first `kept` lines end the
/// page, and the rest start the next.
pub open spec fn split_placed(
    doc: Document,
    fonts: FontTable,
    para: Paragraph,
    m: Measure,
    st: Layout,
    kept: int,
) -> Layout {
    let slot = st.slot_top - m.gap;
    let top = page_top(doc);
    let first = st.content + label_ops(doc, fonts, para, m, slot) + paragraph_ops(
        m.lines,
        para_setting(doc, para, m, slot, 0),
        kept,
    );
    Layout {
        pages: st.pages.push(first),
        content: paragraph_ops(m.lines, para_setting(doc, para, m, top, kept), m.lines.len() as int),
        slot_top: top - (m.lines.len() - kept) * m.line_h,
        prev_space_after: m.after,
        ..st
    }
}

/// The state after the paragraph at block `i` is set.
pub open spec fn paragraph_set(doc: Document, fonts: FontTable, i: int, st: Layout) -> Layout {
    let para = block_paragraph(doc.blocks@, i).unwrap();
    let m = measured(doc, fonts, i, st.prev_space_after);
    let top = page_top(doc);
    match placement(
        st.slot_top,
        top,
        doc.margin_bottom as int,
        m.gap,
        m.content_h,
        m.keep,
        first_line_height(m.metrics.font_size as int, m.metrics.line_h_ratio, 1000),
        m.line_h,
        m.lines.len() as int,
    ) {
        Placement::Split { kept } => split_placed(doc, fonts, para, m, st, kept as int),
        Placement::NextPage => whole_placed(doc, fonts, para, m, turned(st, top), 0),
        Placement::Here => whole_placed(doc, fonts, para, m, st, m.gap),
    }
}

/// The state after the paragraph at block `i` is placed. A paragraph that
/// asks for a page break starts a page, unless the page is empty, and takes
/// no gap above it; if it holds nothing but the break, nothing more is done.
pub open spec fn paragraph_placed(doc: Document, fonts: FontTable, i: int, st: Layout) -> Layout {
    let para = block_paragraph(doc.blocks@, i).unwrap();
    let top = page_top(doc);
    let counted = Layout {
        images: st.images + if para.image is Some {
            1int
        } else {
            0int
        },
        ..st
    };
    if para.page_break_before {
        let at = if at_top(counted.slot_top, top) {
            counted
        } else {
            turned(counted, top)
        };
        let broken = Layout { prev_space_after: 0, ..at };
        if only_break(para) {
            broken
        } else {
            paragraph_set(doc, fonts, i, broken)
        }
    } else {
        paragraph_set(doc, fonts, i, counted)
    }
}

/// The state after the block at `i` is placed.
pub open spec fn block_placed(doc: Document, fonts: FontTable, i: int, st: Layout) -> Layout {
    match doc.blocks@[i] {
        Block::Paragraph(_) => paragraph_placed(doc, fonts, i, st),
        Block::Table(t) => table_placed(doc, fonts, t, st),
    }
}

/// The state after the first `n` blocks are placed.
pub open spec fn blocks_placed(doc: Document, fonts: FontTable, n: int) -> Layout
    decreases n,
{
    if n <= 0 {
        Layout {
            pages: Seq::empty(),
            content: Seq::empty(),
            slot_top: page_top(doc),
            prev_space_after: 0,
            images: 0,
        }
    } else {
        block_placed(doc, fonts, n - 1, blocks_placed(doc, fonts, n - 1))
    }
}

/// The pages of a document's body: the finished pages and the page that the
/// last block left.
pub open spec fn body_pages(doc: Document, fonts: FontTable) -> Seq<Seq<DrawOpView>> {
    let st = blocks_placed(doc, fonts, doc.blocks@.len() as int);
    st.pages.push(st.content)
}

fn draw_label(
    content: &mut Vec<DrawOp>,
    doc: &Document,
    fonts: &FontTable,
    para: &Paragraph,
    layout: &ParaLayout,
    slot: i64,
)
    requires
        doc.in_bounds(),
        fonts.wf(),
        para.wf(),
        fonts.covers_all(para.runs@),
        para.runs@.len() > 0,
        measure_ok(layout@),
        MIN_SLOT - MAX_COORD <= slot <= 2 * MAX_COORD,
    ensures
        ops_view(final(content)@) == ops_view(old(content)@) + label_ops(
            *doc,
            *fonts,
            *para,
            layout@,
            slot as int,
        ),
{
    if !para.list_label.as_str().is_empty() {
        let idx = fonts.find(&para.runs[0]).unwrap();
        let baseline = slot - ascent_of(layout.metrics.font_size, layout.metrics.ascender_ratio);
        let x = doc.margin_left + max_i64(para.indent_left - para.indent_hanging, 0);
        emit(
            content,
            DrawOp::Text {
                font: fonts.entries[idx].pdf_name.clone(),
                size: layout.metrics.font_size,
                x,
                y: baseline,
                bytes: to_winansi_bytes(para.list_label.as_str()),
            },
        );
    }
}

fn draw_lines(
    content: &mut Vec<DrawOp>,
    doc: &Document,
    para: &Paragraph,
    layout: &ParaLayout,
    slot: i64,
    from: usize,
    to: usize,
)
    requires
        doc.has_page(),
        doc.in_bounds(),
        para.wf(),
        measure_ok(layout@),
        MIN_SLOT - MAX_COORD <= slot <= 2 * MAX_COORD,
        from <= to <= layout.lines@.len(),
    ensures
        ops_view(final(content)@) == ops_view(old(content)@) + paragraph_ops(
            layout@.lines,
            para_setting(*doc, *para, layout@, slot as int, from as int),
            to as int,
        ),
{
    let baseline = slot - ascent_of(layout.metrics.font_size, layout.metrics.ascender_ratio);
    let width = max_i64(
        doc.page_width - doc.margin_left - doc.margin_right - para.indent_left,
        MIN_TEXT_WIDTH,
    );
    render_paragraph_lines(
        content,
        &layout.lines,
        from,
        to,
        para.alignment,
        doc.margin_left + para.indent_left,
        width,
        baseline,
        layout.line_h,
    );
}

fn draw_figure(
    content: &mut Vec<DrawOp>,
    doc: &Document,
    para: &Paragraph,
    layout: &ParaLayout,
    slot: i64,
    images: usize,
)
    requires
        doc.has_page(),
        doc.in_bounds(),
        para.wf(),
        measure_ok(layout@),
        MIN_SLOT - MAX_COORD <= slot <= 2 * MAX_COORD,
    ensures
        ops_view(final(content)@) == ops_view(old(content)@) + figure_ops(
            *doc,
            *para,
            layout@,
            slot as int,
            images as int,
        ),
{
    let text_width = doc.page_width - doc.margin_left - doc.margin_right;
    match &para.image {
        Some(img) => {
            proof {
                reveal_strlit("Im");
                assert("Im"@ =~= seq!['I', 'm']);
            }
            let name = numbered("Im", images as u128);
            let x = doc.margin_left + floor_div(max_i64(text_width - img.display_width, 0), 2);
            emit(
                content,
                DrawOp::Image {
                    name,
                    x,
                    y: slot - img.display_height,
                    width: img.display_width,
                    height: img.display_height,
                },
            );
        },
        None => {
            emit(content, DrawOp::FillGray { level: 500 });
            emit(
                content,
                DrawOp::FillRect {
                    x: doc.margin_left,
                    y: slot - layout.content_h,
                    width: text_width,
                    height: layout.content_h,
                },
            );
            emit(content, DrawOp::FillGray { level: 0 });
        },
    }
}

fn draw_border(
    content: &mut Vec<DrawOp>,
    doc: &Document,
    para: &Paragraph,
    layout: &ParaLayout,
    slot: i64,
)
    requires
        doc.has_page(),
        doc.in_bounds(),
        para.wf(),
        measure_ok(layout@),
        MIN_SLOT - MAX_COORD <= slot <= 2 * MAX_COORD,
    ensures
        ops_view(final(content)@) == ops_view(old(content)@) + border_ops(
            *doc,
            *para,
            layout@,
            slot as int,
        ),
{
    match &para.border_bottom {
        Some(b) => {
            let text_width = doc.page_width - doc.margin_left - doc.margin_right;
            let line_y = slot - layout.content_h - b.space_pt;
            emit(content, DrawOp::FillRgb { r: b.color[0], g: b.color[1], b: b.color[2] });
            emit(
                content,
                DrawOp::FillRect {
                    x: doc.margin_left,
                    y: line_y - b.width_pt,
                    width: text_width,
                    height: b.width_pt,
                },
            );
            emit(content, DrawOp::FillRgb { r: 0, g: 0, b: 0 });
        },
        None => {
        },
    }
}

/// Places a paragraph whole at the cursor, with `gap` above it.
fn place_whole(
    builder: &mut PageBuilder,
    doc: &Document,
    fonts: &FontTable,
    para: &Paragraph,
    layout: &ParaLayout,
    gap: i64,
)
    requires
        doc.has_page(),
        doc.in_bounds(),
        fonts.wf(),
        para.wf(),
        fonts.covers_all(para.runs@),
        measure_ok(layout@),
        layout@.lines.len() > 0 ==> para.runs@.len() > 0,
        0 <= gap <= MAX_COORD,
        MIN_SLOT <= old(builder).slot_top <= page_top(*doc),
    ensures
        final(builder)@ == whole_placed(*doc, *fonts, *para, layout@, old(builder)@, gap as int),
        old(builder).slot_top - gap - layout.content_h <= final(builder).slot_top <= old(
            builder,
        ).slot_top,
        final(builder).prev_space_after == layout.after,
        final(builder).images == old(builder).images,
{
    let ghost st = builder@;
    let top = doc.page_height - doc.margin_top;
    let used = if builder.pages.len() > 0 && is_at_top(builder.slot_top, top) {
        0
    } else {
        gap
    };
    let slot = builder.slot_top - used;
    let ghost before = ops_view(builder.content@);
    if (para.image.is_some() || para.runs.len() == 0) && para.content_height > 0 {
        draw_figure(&mut builder.content, doc, para, layout, slot, builder.images);
    } else if layout.lines.len() > 0 {
        draw_label(&mut builder.content, doc, fonts, para, layout, slot);
        draw_lines(&mut builder.content, doc, para, layout, slot, 0, layout.lines.len());
        proof {
            let body = body_ops(*doc, *fonts, *para, layout@, slot as int, st.images);
            assert(ops_view(builder.content@) =~= before + body);
        }
    }
    draw_border(&mut builder.content, doc, para, layout, slot);
    builder.slot_top = slot - layout.content_h;
    builder.prev_space_after = layout.after;
}

/// Places the first `kept` lines of a paragraph at the cursor and the rest
/// at the top of the next page.
fn place_split(
    builder: &mut PageBuilder,
    doc: &Document,
    fonts: &FontTable,
    para: &Paragraph,
    layout: &ParaLayout,
    kept: usize,
)
    requires
        doc.has_page(),
        doc.in_bounds(),
        fonts.wf(),
        para.wf(),
        fonts.covers_all(para.runs@),
        measure_ok(layout@),
        para.runs@.len() > 0,
        2 <= kept,
        kept + 2 <= layout.lines@.len(),
        MIN_SLOT <= old(builder).slot_top <= page_top(*doc),
    ensures
        final(builder)@ == split_placed(*doc, *fonts, *para, layout@, old(builder)@, kept as int),
        page_top(*doc) - 200_000_000_000_000 <= final(builder).slot_top <= page_top(*doc),
        final(builder).prev_space_after == layout.after,
        final(builder).images == old(builder).images,
{
    let top = doc.page_height - doc.margin_top;
    let slot = builder.slot_top - layout.gap;
    draw_label(&mut builder.content, doc, fonts, para, layout, slot);
    draw_lines(&mut builder.content, doc, para, layout, slot, 0, kept);
    builder.new_page(top);
    draw_lines(&mut builder.content, doc, para, layout, top, kept, layout.lines.len());
    proof {
        assert(0 <= (layout.lines@.len() - kept) * layout.line_h <= 1_000_000 * 200_000_000)
            by (nonlinear_arith)
            requires
                0 <= layout.lines@.len() - kept <= 1_000_000,
                0 <= layout.line_h <= 200_000_000,
        ;
    }
    builder.slot_top = top - ((layout.lines.len() - kept) as i64) * layout.line_h;
    builder.prev_space_after = layout.after;
}

/// Places the paragraph at block `i`.
pub fn place_paragraph(doc: &Document, fonts: &FontTable, i: usize, builder: &mut PageBuilder)
    requires
        doc.has_page(),
        doc.in_bounds(),
        fonts.wf(),
        blocks_covered(*fonts, doc.blocks@),
        block_paragraph(doc.blocks@, i as int) is Some,
        slot_ok(old(builder)@, *doc),
        old(builder).images <= i,
    ensures
        final(builder)@ == paragraph_placed(*doc, *fonts, i as int, old(builder)@),
        slot_ok(final(builder)@, *doc),
        final(builder).images <= i + 1,
{
    let para = paragraph_at(&doc.blocks, i).unwrap();
    let count = doc.blocks.len();
    assert(i < count);
    let top = doc.page_height - doc.margin_top;
    if para.image.is_some() {
        builder.images = builder.images + 1;
    }
    if para.page_break_before {
        if !is_at_top(builder.slot_top, top) {
            builder.new_page(top);
        }
        builder.prev_space_after = 0;
        if is_only_break(para) {
            return ;
        }
    }
    let layout = measure_paragraph(doc, fonts, i, builder.prev_space_after);
    let first_h = first_line_height_of(layout.metrics.font_size, layout.metrics.line_h_ratio, 1000);
    let decided = place(
        builder.slot_top,
        top,
        doc.margin_bottom,
        layout.gap,
        layout.content_h,
        layout.keep,
        first_h,
        layout.line_h,
        layout.lines.len(),
    );
    match decided {
        Placement::Split { kept } => {
            place_split(builder, doc, fonts, para, &layout, kept);
        },
        Placement::NextPage => {
            builder.new_page(top);
            place_whole(builder, doc, fonts, para, &layout, 0);
        },
        Placement::Here => {
            place_whole(builder, doc, fonts, para, &layout, layout.gap);
        },
    }
}

/// Every block is within the bounds in which blocks are placed.
pub open spec fn placeable(doc: Document, fonts: FontTable) -> bool {
    &&& doc.has_page()
    &&& doc.in_bounds()
    &&& fonts.wf()
    &&& blocks_covered(fonts, doc.blocks@)
}

/// Places the block at `i`.
pub fn place_block(doc: &Document, fonts: &FontTable, i: usize, builder: &mut PageBuilder)
    requires
        placeable(*doc, *fonts),
        i < doc.blocks@.len(),
        slot_ok(old(builder)@, *doc),
        old(builder).images <= i,
    ensures
        final(builder)@ == block_placed(*doc, *fonts, i as int, old(builder)@),
        slot_ok(final(builder)@, *doc),
        final(builder).images <= i + 1,
{
    match &doc.blocks[i] {
        Block::Paragraph(_) => {
            place_paragraph(doc, fonts, i, builder);
        },
        Block::Table(table) => {
            render_table(table, doc, fonts, builder);
        },
    }
}

/// Places the blocks of a document, one after the other.
pub fn place_blocks(doc: &Document, fonts: &FontTable) -> (builder: PageBuilder)
    requires
        placeable(*doc, *fonts),
    ensures
        builder@ == blocks_placed(*doc, *fonts, doc.blocks@.len() as int),
{
    let top = doc.page_height - doc.margin_top;
    let mut builder = PageBuilder::new(top);
    let mut i: usize = 0;
    while i < doc.blocks.len()
        invariant
            i <= doc.blocks@.len(),
            placeable(*doc, *fonts),
            builder@ == blocks_placed(*doc, *fonts, i as int),
            slot_ok(builder@, *doc),
            builder.images <= i,
        decreases doc.blocks.len() - i,
    {
        place_block(doc, fonts, i, &mut builder);
        i += 1;
    }
    builder
}

} // verus!
