//! The document model that the layout engine reads.
//!
//! Lengths are in thousandths of a point and ratios in thousandths (see
//! `units`). A document is laid out only if it is well formed: every number
//! in it lies inside the range the engine computes in, spaces and sizes are
//! not negative, and every list is short enough for its sums to stay inside
//! that range.

use crate::units::{
    within, MAX_CELL_CHARS, MAX_CELL_PARAGRAPHS, MAX_COLUMNS, MAX_COORD, MAX_FONT_SIZE,
    MAX_PARA_CHARS, MAX_RATIO, MAX_RUNS, MAX_RUN_CHARS,
};
use vstd::prelude::*;

verus! {

#[derive(Clone, Copy, Debug, PartialEq, Eq, Structural)]
pub enum Alignment {
    Left,
    Center,
    Right,
    Justify,
}

#[derive(Clone, Copy, Debug, PartialEq, Eq, Structural)]
pub enum TabAlignment {
    Left,
    Center,
    Right,
    Decimal,
}

#[derive(Clone, Copy, Debug)]
pub struct TabStop {
    /// Distance from the left margin.
    pub position: i64,
    pub alignment: TabAlignment,
    pub leader: Option<char>,
}

#[derive(Clone, Copy, Debug, PartialEq, Eq, Structural)]
pub enum VertAlign {
    Baseline,
    Superscript,
    Subscript,
}

/// A field whose text is known only once the pages are counted.
#[derive(Clone, Copy, Debug, PartialEq, Eq, Structural)]
pub enum FieldCode {
    Page,
    NumPages,
}

#[derive(Debug)]
pub struct Run {
    pub text: String,
    pub font_size: i64,
    pub font_name: String,
    pub bold: bool,
    pub italic: bool,
    pub underline: bool,
    pub strikethrough: bool,
    /// `None` is the automatic colour, black.
    pub color: Option<[u8; 3]>,
    pub is_tab: bool,
    pub vertical_align: VertAlign,
    /// Resolved only inside headers and footers.
    pub field_code: Option<FieldCode>,
}

#[derive(Debug)]
pub struct EmbeddedImage {
    pub data: Vec<u8>,
    pub pixel_width: u32,
    pub pixel_height: u32,
    pub display_width: i64,
    pub display_height: i64,
}

#[derive(Clone, Copy, Debug)]
pub struct BorderBottom {
    /// Thickness of the rule.
    pub width_pt: i64,
    /// Gap between the text and the rule.
    pub space_pt: i64,
    pub color: [u8; 3],
}

#[derive(Debug)]
pub struct Paragraph {
    pub runs: Vec<Run>,
    pub space_before: i64,
    pub space_after: i64,
    /// Height of the drawing the paragraph holds, if any.
    pub content_height: i64,
    pub alignment: Alignment,
    pub indent_left: i64,
    pub indent_hanging: i64,
    pub list_label: String,
    pub contextual_spacing: bool,
    pub keep_next: bool,
    /// Overrides the document's line spacing.
    pub line_spacing: Option<i64>,
    pub image: Option<EmbeddedImage>,
    pub border_bottom: Option<BorderBottom>,
    pub page_break_before: bool,
    pub tab_stops: Vec<TabStop>,
}

#[derive(Debug)]
pub struct TableCell {
    pub width: i64,
    pub paragraphs: Vec<Paragraph>,
}

#[derive(Debug)]
pub struct TableRow {
    pub cells: Vec<TableCell>,
}

#[derive(Debug)]
pub struct Table {
    /// Width hints, one per column.
    pub col_widths: Vec<i64>,
    pub rows: Vec<TableRow>,
}

#[derive(Debug)]
pub enum Block {
    Paragraph(Paragraph),
    Table(Table),
}

#[derive(Debug)]
pub struct HeaderFooter {
    pub paragraphs: Vec<Paragraph>,
}

/// Font bytes that a document carries, for one family and style.
#[derive(Debug)]
pub struct EmbeddedFont {
    /// The family name in lower case.
    pub family: String,
    pub bold: bool,
    pub italic: bool,
    pub data: Vec<u8>,
}

#[derive(Debug)]
pub struct Document {
    pub page_width: i64,
    pub page_height: i64,
    pub margin_top: i64,
    pub margin_bottom: i64,
    pub margin_left: i64,
    pub margin_right: i64,
    /// Distance of the header's first line from the top edge.
    pub header_margin: i64,
    /// Distance of the footer's first line from the bottom edge.
    pub footer_margin: i64,
    pub line_pitch: i64,
    /// Line spacing where a paragraph states none.
    pub line_spacing: i64,
    pub blocks: Vec<Block>,
    pub header_default: Option<HeaderFooter>,
    pub header_first: Option<HeaderFooter>,
    pub footer_default: Option<HeaderFooter>,
    pub footer_first: Option<HeaderFooter>,
    pub different_first_page: bool,
    /// Where two entries share a family and style, the first counts.
    pub embedded_fonts: Vec<EmbeddedFont>,
}

impl Run {
    pub open spec fn wf(&self) -> bool {
        &&& 0 <= self.font_size <= MAX_FONT_SIZE
        &&& self.text@.len() <= MAX_RUN_CHARS
    }

    pub fn is_wf(&self) -> (b: bool)
        ensures
            b == self.wf(),
    {
        0 <= self.font_size && self.font_size <= MAX_FONT_SIZE && self.text.as_str().unicode_len()
            <= MAX_RUN_CHARS
    }
}

impl TabStop {
    pub open spec fn wf(&self) -> bool {
        within(self.position as int, MAX_COORD as int)
    }

    pub fn is_wf(&self) -> (b: bool)
        ensures
            b == self.wf(),
    {
        -MAX_COORD <= self.position && self.position <= MAX_COORD
    }
}

pub fn in_range(x: i64, bound: i64) -> (b: bool)
    requires
        0 <= bound < i64::MAX,
    ensures
        b == within(x as int, bound as int),
{
    -bound <= x && x <= bound
}

/// A length that is not negative.
pub open spec fn extent(x: int) -> bool {
    0 <= x <= MAX_COORD
}

pub fn is_extent(x: i64) -> (b: bool)
    ensures
        b == extent(x as int),
{
    0 <= x && x <= MAX_COORD
}

/// The number of characters in the first `n` runs.
pub open spec fn total_chars(runs: Seq<Run>, n: int) -> int
    decreases n,
{
    if n <= 0 {
        0
    } else {
        total_chars(runs, n - 1) + runs[n - 1].text@.len()
    }
}

pub proof fn lemma_total_chars_monotonic(runs: Seq<Run>, n: int, m: int)
    requires
        0 <= n <= m,
    ensures
        0 <= total_chars(runs, n) <= total_chars(runs, m),
    decreases m,
{
    if n < m {
        lemma_total_chars_monotonic(runs, n, m - 1);
    } else if n > 0 {
        lemma_total_chars_monotonic(runs, n - 1, n - 1);
    }
}

pub open spec fn runs_wf(runs: Seq<Run>) -> bool {
    &&& runs.len() <= MAX_RUNS
    &&& forall|i: int| 0 <= i < runs.len() ==> (#[trigger] runs[i]).wf()
    &&& total_chars(runs, runs.len() as int) <= MAX_PARA_CHARS
}

pub fn check_runs(runs: &Vec<Run>) -> (b: bool)
    ensures
        b == runs_wf(runs@),
{
    if runs.len() > MAX_RUNS {
        return false;
    }
    let mut total: usize = 0;
    let mut i: usize = 0;
    while i < runs.len()
        invariant
            i <= runs.len() <= MAX_RUNS,
            forall|k: int| 0 <= k < i ==> (#[trigger] runs@[k]).wf(),
            total == total_chars(runs@, i as int),
            total <= MAX_PARA_CHARS,
        decreases runs.len() - i,
    {
        if !runs[i].is_wf() {
            return false;
        }
        total = total + runs[i].text.as_str().unicode_len();
        if total > MAX_PARA_CHARS {
            proof {
                lemma_total_chars_monotonic(runs@, i as int + 1, runs@.len() as int);
            }
            return false;
        }
        i += 1;
    }
    true
}

pub open spec fn tab_stops_wf(stops: Seq<TabStop>) -> bool {
    forall|i: int| 0 <= i < stops.len() ==> (#[trigger] stops[i]).wf()
}

pub fn check_tab_stops(stops: &Vec<TabStop>) -> (b: bool)
    ensures
        b == tab_stops_wf(stops@),
{
    let mut i: usize = 0;
    while i < stops.len()
        invariant
            i <= stops.len(),
            forall|k: int| 0 <= k < i ==> (#[trigger] stops@[k]).wf(),
        decreases stops.len() - i,
    {
        if !stops[i].is_wf() {
            return false;
        }
        i += 1;
    }
    true
}

impl Paragraph {
    pub open spec fn wf(&self) -> bool {
        &&& runs_wf(self.runs@)
        &&& tab_stops_wf(self.tab_stops@)
        &&& extent(self.space_before as int)
        &&& extent(self.space_after as int)
        &&& extent(self.content_height as int)
        &&& within(self.indent_left as int, MAX_COORD as int)
        &&& within(self.indent_hanging as int, MAX_COORD as int)
        &&& (self.line_spacing matches Some(ls) ==> 0 <= ls <= MAX_RATIO)
        &&& (self.image matches Some(img) ==> extent(img.display_width as int) && extent(
            img.display_height as int,
        ))
        &&& (self.border_bottom matches Some(b) ==> extent(b.width_pt as int) && extent(
            b.space_pt as int,
        ))
    }

    pub fn is_wf(&self) -> (b: bool)
        ensures
            b == self.wf(),
    {
        let spacing_ok = match self.line_spacing {
            Some(ls) => 0 <= ls && ls <= MAX_RATIO,
            None => true,
        };
        let image_ok = match &self.image {
            Some(img) => is_extent(img.display_width) && is_extent(img.display_height),
            None => true,
        };
        let border_ok = match &self.border_bottom {
            Some(b) => is_extent(b.width_pt) && is_extent(b.space_pt),
            None => true,
        };
        check_runs(&self.runs) && check_tab_stops(&self.tab_stops) && is_extent(self.space_before)
            && is_extent(self.space_after) && is_extent(self.content_height) && in_range(
            self.indent_left,
            MAX_COORD,
        ) && in_range(self.indent_hanging, MAX_COORD) && spacing_ok && image_ok && border_ok
    }
}

/// The number of characters in the first `n` paragraphs.
pub open spec fn cell_chars(paragraphs: Seq<Paragraph>, n: int) -> int
    decreases n,
{
    if n <= 0 {
        0
    } else {
        cell_chars(paragraphs, n - 1) + total_chars(
            paragraphs[n - 1].runs@,
            paragraphs[n - 1].runs@.len() as int,
        )
    }
}

/// The paragraphs of a table cell, a header or a footer are well formed if
/// each is, and if they are not too many and do not hold too many
/// characters for their heights to be added up.
pub open spec fn paragraphs_wf(paragraphs: Seq<Paragraph>) -> bool {
    &&& paragraphs.len() <= MAX_CELL_PARAGRAPHS
    &&& forall|i: int| 0 <= i < paragraphs.len() ==> (#[trigger] paragraphs[i]).wf()
    &&& cell_chars(paragraphs, paragraphs.len() as int) <= MAX_CELL_CHARS
}

/// The number of characters in the runs of a well-formed paragraph.
fn count_chars(runs: &Vec<Run>) -> (total: usize)
    requires
        runs_wf(runs@),
    ensures
        total == total_chars(runs@, runs@.len() as int),
        total <= MAX_PARA_CHARS,
{
    let mut total: usize = 0;
    let mut i: usize = 0;
    while i < runs.len()
        invariant
            i <= runs.len(),
            runs_wf(runs@),
            total == total_chars(runs@, i as int),
        decreases runs.len() - i,
    {
        proof {
            lemma_total_chars_monotonic(runs@, i as int + 1, runs@.len() as int);
        }
        total = total + runs[i].text.as_str().unicode_len();
        i += 1;
    }
    total
}

pub fn check_paragraphs(paragraphs: &Vec<Paragraph>) -> (b: bool)
    ensures
        b == paragraphs_wf(paragraphs@),
{
    if paragraphs.len() > MAX_CELL_PARAGRAPHS {
        return false;
    }
    let mut chars: usize = 0;
    let mut i: usize = 0;
    while i < paragraphs.len()
        invariant
            i <= paragraphs.len() <= MAX_CELL_PARAGRAPHS,
            forall|k: int| 0 <= k < i ==> (#[trigger] paragraphs@[k]).wf(),
            chars == cell_chars(paragraphs@, i as int),
            chars <= MAX_CELL_CHARS,
        decreases paragraphs.len() - i,
    {
        if !paragraphs[i].is_wf() {
            return false;
        }
        chars = chars + count_chars(&paragraphs[i].runs);
        if chars > MAX_CELL_CHARS {
            proof {
                lemma_cell_chars_monotonic(paragraphs@, i as int + 1, paragraphs@.len() as int);
            }
            return false;
        }
        i += 1;
    }
    true
}

pub proof fn lemma_cell_chars_monotonic(paragraphs: Seq<Paragraph>, n: int, m: int)
    requires
        0 <= n <= m,
    ensures
        0 <= cell_chars(paragraphs, n) <= cell_chars(paragraphs, m),
    decreases m,
{
    if n < m {
        lemma_cell_chars_monotonic(paragraphs, n, m - 1);
        lemma_total_chars_monotonic(paragraphs[m - 1].runs@, 0, paragraphs[m - 1].runs@.len() as int);
    } else if n > 0 {
        lemma_cell_chars_monotonic(paragraphs, n - 1, n - 1);
        lemma_total_chars_monotonic(paragraphs[n - 1].runs@, 0, paragraphs[n - 1].runs@.len() as int);
    }
}

impl TableCell {
    pub open spec fn wf(&self) -> bool {
        &&& extent(self.width as int)
        &&& paragraphs_wf(self.paragraphs@)
    }

    pub fn is_wf(&self) -> (b: bool)
        ensures
            b == self.wf(),
    {
        is_extent(self.width) && check_paragraphs(&self.paragraphs)
    }
}

impl TableRow {
    pub open spec fn wf(&self) -> bool {
        &&& self.cells@.len() <= MAX_COLUMNS
        &&& forall|i: int| 0 <= i < self.cells@.len() ==> (#[trigger] self.cells@[i]).wf()
    }

    pub fn is_wf(&self) -> (b: bool)
        ensures
            b == self.wf(),
    {
        if self.cells.len() > MAX_COLUMNS {
            return false;
        }
        let mut i: usize = 0;
        while i < self.cells.len()
            invariant
                i <= self.cells.len(),
                forall|k: int| 0 <= k < i ==> (#[trigger] self.cells@[k]).wf(),
            decreases self.cells.len() - i,
        {
            if !self.cells[i].is_wf() {
                return false;
            }
            i += 1;
        }
        true
    }
}

impl Table {
    pub open spec fn wf(&self) -> bool {
        &&& self.col_widths@.len() <= MAX_COLUMNS
        &&& forall|i: int|
            0 <= i < self.col_widths@.len() ==> extent((#[trigger] self.col_widths@[i]) as int)
        &&& forall|i: int| 0 <= i < self.rows@.len() ==> (#[trigger] self.rows@[i]).wf()
    }

    pub fn is_wf(&self) -> (b: bool)
        ensures
            b == self.wf(),
    {
        if self.col_widths.len() > MAX_COLUMNS {
            return false;
        }
        let mut i: usize = 0;
        while i < self.col_widths.len()
            invariant
                i <= self.col_widths.len(),
                forall|k: int| 0 <= k < i ==> extent((#[trigger] self.col_widths@[k]) as int),
            decreases self.col_widths.len() - i,
        {
            if !is_extent(self.col_widths[i]) {
                return false;
            }
            i += 1;
        }
        let mut j: usize = 0;
        while j < self.rows.len()
            invariant
                j <= self.rows.len(),
                forall|k: int| 0 <= k < j ==> (#[trigger] self.rows@[k]).wf(),
            decreases self.rows.len() - j,
        {
            if !self.rows[j].is_wf() {
                return false;
            }
            j += 1;
        }
        true
    }
}

impl Block {
    pub open spec fn wf(&self) -> bool {
        match self {
            Block::Paragraph(p) => p.wf(),
            Block::Table(t) => t.wf(),
        }
    }

    pub fn is_wf(&self) -> (b: bool)
        ensures
            b == self.wf(),
    {
        match self {
            Block::Paragraph(p) => p.is_wf(),
            Block::Table(t) => t.is_wf(),
        }
    }
}

impl HeaderFooter {
    pub open spec fn wf(&self) -> bool {
        paragraphs_wf(self.paragraphs@)
    }

    pub fn is_wf(&self) -> (b: bool)
        ensures
            b == self.wf(),
    {
        check_paragraphs(&self.paragraphs)
    }
}

pub open spec fn header_footer_wf(hf: Option<HeaderFooter>) -> bool {
    hf matches Some(h) ==> h.wf()
}

pub fn check_header_footer(hf: &Option<HeaderFooter>) -> (b: bool)
    ensures
        b == header_footer_wf(*hf),
{
    match hf {
        Some(h) => h.is_wf(),
        None => true,
    }
}

pub open spec fn blocks_wf(blocks: Seq<Block>) -> bool {
    forall|i: int| 0 <= i < blocks.len() ==> (#[trigger] blocks[i]).wf()
}

pub fn check_blocks(blocks: &Vec<Block>) -> (b: bool)
    ensures
        b == blocks_wf(blocks@),
{
    let mut i: usize = 0;
    while i < blocks.len()
        invariant
            i <= blocks.len(),
            forall|k: int| 0 <= k < i ==> (#[trigger] blocks@[k]).wf(),
        decreases blocks.len() - i,
    {
        if !blocks[i].is_wf() {
            return false;
        }
        i += 1;
    }
    true
}

impl Document {
    /// The page has a positive size.
    pub open spec fn has_page(&self) -> bool {
        self.page_width > 0 && self.page_height > 0
    }

    /// Every number lies in the range the engine computes in.
    pub open spec fn in_bounds(&self) -> bool {
        &&& self.page_width <= MAX_COORD
        &&& self.page_height <= MAX_COORD
        &&& within(self.margin_top as int, MAX_COORD as int)
        &&& within(self.margin_bottom as int, MAX_COORD as int)
        &&& within(self.margin_left as int, MAX_COORD as int)
        &&& within(self.margin_right as int, MAX_COORD as int)
        &&& within(self.header_margin as int, MAX_COORD as int)
        &&& within(self.footer_margin as int, MAX_COORD as int)
        &&& extent(self.line_pitch as int)
        &&& 0 <= self.line_spacing <= MAX_RATIO
        &&& blocks_wf(self.blocks@)
        &&& header_footer_wf(self.header_default)
        &&& header_footer_wf(self.header_first)
        &&& header_footer_wf(self.footer_default)
        &&& header_footer_wf(self.footer_first)
    }

    pub open spec fn wf(&self) -> bool {
        &&& self.blocks@.len() > 0
        &&& self.has_page()
        &&& self.in_bounds()
    }

    pub fn check_bounds(&self) -> (b: bool)
        ensures
            b == self.in_bounds(),
    {
        self.page_width <= MAX_COORD && self.page_height <= MAX_COORD && in_range(
            self.margin_top,
            MAX_COORD,
        ) && in_range(self.margin_bottom, MAX_COORD) && in_range(self.margin_left, MAX_COORD)
            && in_range(self.margin_right, MAX_COORD) && in_range(self.header_margin, MAX_COORD)
            && in_range(self.footer_margin, MAX_COORD) && is_extent(self.line_pitch) && 0
            <= self.line_spacing && self.line_spacing <= MAX_RATIO && check_blocks(&self.blocks)
            && check_header_footer(&self.header_default) && check_header_footer(&self.header_first)
            && check_header_footer(&self.footer_default) && check_header_footer(
            &self.footer_first,
        )
    }
}

} // verus!
