//! The text flow engine: runs become measured words, and words become lines.
//!
//! Breaking is greedy. A word goes on the current line if it ends at or
//! before the available width, else it starts the next line at offset zero.
//! A word that is wider than the available width is still placed, alone on
//! its line.

use crate::fonts::{measure, measure_space, space_width, text_width, FontEntry, FontTable};
use crate::model::{runs_wf, total_chars, Run, VertAlign};
use crate::text::{
    chars_of, ends_with_space, ends_with_whitespace, lemma_word_spans, split_words, spans_view,
    starts_with_space, starts_with_whitespace, word_spans, words,
};
use crate::units::{percent, scale_percent, MAX_FONT_SIZE, MAX_PARA_CHARS, MAX_RUN_CHARS};
use vstd::prelude::*;
use vstd::string::StringExecFns;

verus! {

/// Widest word: every character of the longest run at the widest advance and
/// the largest size.
pub const MAX_WORD_WIDTH: i64 = 20_000_000_000_000;

/// Widest space.
pub const MAX_GAP: i64 = 200_000_000;

/// One word, placed on a line.
#[derive(Debug)]
pub struct WordChunk {
    /// The resource name of the font.
    pub pdf_font: String,
    pub text: String,
    /// The size the word is set at, after any reduction for a raised or
    /// lowered run.
    pub font_size: i64,
    pub color: Option<[u8; 3]>,
    /// Distance from the start of the line.
    pub x_offset: i64,
    pub width: i64,
    pub underline: bool,
    pub strikethrough: bool,
    /// Distance above the baseline.
    pub y_offset: i64,
}

#[derive(Debug)]
pub struct TextLine {
    pub chunks: Vec<WordChunk>,
    pub total_width: i64,
}

pub struct ChunkView {
    pub pdf_font: Seq<char>,
    pub text: Seq<char>,
    pub font_size: int,
    pub color: Option<[u8; 3]>,
    pub x_offset: int,
    pub width: int,
    pub underline: bool,
    pub strikethrough: bool,
    pub y_offset: int,
}

pub struct LineView {
    pub chunks: Seq<ChunkView>,
    pub total_width: int,
}

impl View for WordChunk {
    type V = ChunkView;

    open spec fn view(&self) -> ChunkView {
        ChunkView {
            pdf_font: self.pdf_font@,
            text: self.text@,
            font_size: self.font_size as int,
            color: self.color,
            x_offset: self.x_offset as int,
            width: self.width as int,
            underline: self.underline,
            strikethrough: self.strikethrough,
            y_offset: self.y_offset as int,
        }
    }
}

pub open spec fn chunks_view(chunks: Seq<WordChunk>) -> Seq<ChunkView> {
    Seq::new(chunks.len(), |i: int| chunks[i]@)
}

impl View for TextLine {
    type V = LineView;

    open spec fn view(&self) -> LineView {
        LineView { chunks: chunks_view(self.chunks@), total_width: self.total_width as int }
    }
}

pub open spec fn lines_view(lines: Seq<TextLine>) -> Seq<LineView> {
    Seq::new(lines.len(), |i: int| lines[i]@)
}

/// The size a run is set at: raised and lowered runs at 58 hundredths.
pub open spec fn effective_size(run: Run) -> int {
    match run.vertical_align {
        VertAlign::Baseline => run.font_size as int,
        _ => percent(run.font_size as int, 58),
    }
}

/// How far above the baseline a run is set: 35 hundredths of its size up for
/// a raised run, 14 hundredths down for a lowered one.
pub open spec fn baseline_shift(run: Run) -> int {
    match run.vertical_align {
        VertAlign::Superscript => percent(run.font_size as int, 35),
        VertAlign::Subscript => -percent(run.font_size as int, 14),
        VertAlign::Baseline => 0,
    }
}

pub proof fn lemma_percent_range(x: int, h: int)
    by (nonlinear_arith)
    requires
        0 <= x,
        0 <= h <= 100,
    ensures
        0 <= percent(x, h) <= x,
{
}

pub fn effective_font_size(run: &Run) -> (s: i64)
    requires
        run.wf(),
    ensures
        s == effective_size(*run),
        0 <= s <= MAX_FONT_SIZE,
{
    proof {
        lemma_percent_range(run.font_size as int, 58);
    }
    match run.vertical_align {
        VertAlign::Baseline => run.font_size,
        _ => scale_percent(run.font_size, 58),
    }
}

pub fn vert_y_offset(run: &Run) -> (y: i64)
    requires
        run.wf(),
    ensures
        y == baseline_shift(*run),
        -MAX_FONT_SIZE <= y <= MAX_FONT_SIZE,
{
    proof {
        lemma_percent_range(run.font_size as int, 35);
        lemma_percent_range(run.font_size as int, 14);
    }
    match run.vertical_align {
        VertAlign::Superscript => scale_percent(run.font_size, 35),
        VertAlign::Subscript => -scale_percent(run.font_size, 14),
        VertAlign::Baseline => 0,
    }
}

/// The chunk for one word of a run, at offset `x`.
pub open spec fn chunk_of(run: Run, entry: FontEntry, word: Seq<char>, x: int) -> ChunkView {
    ChunkView {
        pdf_font: entry.pdf_name@,
        text: word,
        font_size: effective_size(run),
        color: run.color,
        x_offset: x,
        width: text_width(entry.widths_1000@, word, effective_size(run)),
        underline: run.underline,
        strikethrough: run.strikethrough,
        y_offset: baseline_shift(run),
    }
}

/// A measured word that is not placed yet.
pub struct Item {
    /// The word's chunk, at offset zero.
    pub chunk: ChunkView,
    /// Whether whitespace separates the word from what precedes it.
    pub spaced: bool,
    /// The width of that whitespace: a space of the run that holds it.
    pub gap: int,
}

/// What a run hands to the run after it.
pub struct Carry {
    /// Whether the text ended with whitespace.
    pub ended_with_space: bool,
    /// The width of a space in the run.
    pub space: int,
}

/// The entry of the font that a run is set in.
pub open spec fn entry_for(fonts: FontTable, run: Run) -> FontEntry {
    fonts.entries@[fonts.entry_of(run).unwrap()]
}

pub open spec fn run_space(fonts: FontTable, run: Run) -> int {
    space_width(entry_for(fonts, run).widths_1000@, effective_size(run))
}

/// What the last run before `n` that is no tab hands on.
pub open spec fn carried(runs: Seq<Run>, fonts: FontTable, n: int) -> Carry
    decreases n,
{
    if n <= 0 {
        Carry { ended_with_space: false, space: 0 }
    } else if runs[n - 1].is_tab {
        carried(runs, fonts, n - 1)
    } else {
        Carry {
            ended_with_space: ends_with_space(runs[n - 1].text@),
            space: run_space(fonts, runs[n - 1]),
        }
    }
}

/// The `i`-th word of a run as an item. A word after the first, or the first
/// of a run that starts with whitespace, is separated by a space of its own
/// run; the first word of a run that follows trailing whitespace is separated
/// by a space of the run before.
pub open spec fn item_of(run: Run, entry: FontEntry, carry: Carry, i: int) -> Item {
    let own = i > 0 || starts_with_space(run.text@);
    Item {
        chunk: chunk_of(run, entry, words(run.text@)[i], 0),
        spaced: own || carry.ended_with_space,
        gap: if own {
            space_width(entry.widths_1000@, effective_size(run))
        } else {
            carry.space
        },
    }
}

pub open spec fn run_items(run: Run, entry: FontEntry, carry: Carry) -> Seq<Item> {
    Seq::new(words(run.text@).len(), |i: int| item_of(run, entry, carry, i))
}

/// The words of the first `n` runs, tabs left out.
pub open spec fn para_items(runs: Seq<Run>, fonts: FontTable, n: int) -> Seq<Item>
    decreases n,
{
    if n <= 0 {
        Seq::empty()
    } else if runs[n - 1].is_tab {
        para_items(runs, fonts, n - 1)
    } else {
        para_items(runs, fonts, n - 1) + run_items(
            runs[n - 1],
            entry_for(fonts, runs[n - 1]),
            carried(runs, fonts, n - 1),
        )
    }
}

pub open spec fn item_ok(item: Item) -> bool {
    &&& item.chunk.x_offset == 0
    &&& 0 <= item.chunk.width <= MAX_WORD_WIDTH
    &&& 0 <= item.gap <= MAX_GAP
    &&& -MAX_FONT_SIZE <= item.chunk.y_offset <= MAX_FONT_SIZE
    &&& 0 <= item.chunk.font_size <= MAX_FONT_SIZE
}

pub open spec fn items_ok(items: Seq<Item>) -> bool {
    forall|i: int| 0 <= i < items.len() ==> item_ok(#[trigger] items[i])
}

/// The lines finished so far, the line being filled, and the cursor: the
/// offset at which the line being filled ends.
pub struct FlowState {
    pub lines: Seq<LineView>,
    pub current: Seq<ChunkView>,
    pub x: int,
}

pub open spec fn placed(chunk: ChunkView, x: int) -> ChunkView {
    ChunkView { x_offset: x, ..chunk }
}

/// Where an item would start on the line being filled.
pub open spec fn proposed_x(st: FlowState, item: Item) -> int {
    if st.current.len() > 0 && item.spaced {
        st.x + item.gap
    } else {
        st.x
    }
}

/// Whether an item has to start a new line.
pub open spec fn breaks_before(st: FlowState, item: Item, max_width: int) -> bool {
    st.current.len() > 0 && proposed_x(st, item) + item.chunk.width > max_width
}

/// Places one item.
pub open spec fn flow_step(st: FlowState, item: Item, max_width: int) -> FlowState {
    if breaks_before(st, item, max_width) {
        FlowState {
            lines: st.lines.push(LineView { chunks: st.current, total_width: st.x }),
            current: seq![placed(item.chunk, 0)],
            x: item.chunk.width,
        }
    } else {
        FlowState {
            lines: st.lines,
            current: st.current.push(placed(item.chunk, proposed_x(st, item))),
            x: proposed_x(st, item) + item.chunk.width,
        }
    }
}

/// The state after the first `n` items are placed.
pub open spec fn flow(items: Seq<Item>, max_width: int, n: int) -> FlowState
    decreases n,
{
    if n <= 0 {
        FlowState { lines: Seq::empty(), current: Seq::empty(), x: 0 }
    } else {
        flow_step(flow(items, max_width, n - 1), items[n - 1], max_width)
    }
}

pub open spec fn empty_line() -> LineView {
    LineView { chunks: Seq::empty(), total_width: 0 }
}

/// The lines of a finished flow: the last line is closed, and a flow without
/// words is one empty line.
pub open spec fn finished(st: FlowState) -> Seq<LineView> {
    if st.current.len() > 0 {
        st.lines.push(LineView { chunks: st.current, total_width: st.x })
    } else if st.lines.len() == 0 {
        seq![empty_line()]
    } else {
        st.lines
    }
}

/// The lines that a sequence of items breaks into.
pub open spec fn wrapped(items: Seq<Item>, max_width: int) -> Seq<LineView> {
    finished(flow(items, max_width, items.len() as int))
}

/// The lines of a paragraph's runs at a given width.
pub open spec fn paragraph_lines(runs: Seq<Run>, fonts: FontTable, max_width: int) -> Seq<
    LineView,
> {
    wrapped(para_items(runs, fonts, runs.len() as int), max_width)
}

/// What holds of the chunks of a line that ends at `x`: the first is at
/// offset zero, none is negative in offset or width, each ends at or before
/// `x`, the last ends at `x`, and where there are two or more, `x` is within
/// the available width.
pub open spec fn chunks_fit(chunks: Seq<ChunkView>, x: int, max_width: int) -> bool {
    &&& chunks.len() == 0 ==> x == 0
    &&& chunks.len() > 0 ==> chunks[0].x_offset == 0 && x == chunks.last().x_offset
        + chunks.last().width
    &&& forall|i: int|
        0 <= i < chunks.len() ==> {
            let c = #[trigger] chunks[i];
            0 <= c.x_offset && 0 <= c.width <= MAX_WORD_WIDTH && c.x_offset + c.width <= x
        }
    &&& forall|i: int, j: int|
        0 <= i < j < chunks.len() ==> (#[trigger] chunks[i]).x_offset + chunks[i].width <= (
        #[trigger] chunks[j]).x_offset
    &&& chunks.len() > 1 ==> x <= max_width
    &&& x <= MAX_WORD_WIDTH || x <= max_width
}

/// A line holds at least one chunk, and its chunks fit.
pub open spec fn line_ok(line: LineView, max_width: int) -> bool {
    line.chunks.len() > 0 && chunks_fit(line.chunks, line.total_width, max_width)
}

pub open spec fn state_ok(st: FlowState, max_width: int) -> bool {
    &&& chunks_fit(st.current, st.x, max_width)
    &&& forall|k: int| 0 <= k < st.lines.len() ==> line_ok(#[trigger] st.lines[k], max_width)
    &&& st.lines.len() > 0 ==> st.current.len() > 0
}

/// Placing an item keeps the state in order.
pub proof fn lemma_flow_step(st: FlowState, item: Item, max_width: int)
    requires
        state_ok(st, max_width),
        item_ok(item),
    ensures
        state_ok(flow_step(st, item, max_width), max_width),
{
}

/// Every state of a flow is in order.
pub proof fn lemma_flow_ok(items: Seq<Item>, max_width: int, n: int)
    requires
        items_ok(items),
        0 <= n <= items.len(),
    ensures
        state_ok(flow(items, max_width, n), max_width),
    decreases n,
{
    if n > 0 {
        lemma_flow_ok(items, max_width, n - 1);
        lemma_flow_step(flow(items, max_width, n - 1), items[n - 1], max_width);
    }
}

/// On every line of a wrapped paragraph each chunk ends at or before the
/// available width, unless the chunk is alone on its line; and a paragraph
/// without words is one empty line.
pub proof fn lemma_wrapped_fits(items: Seq<Item>, max_width: int)
    requires
        items_ok(items),
    ensures
        wrapped(items, max_width).len() >= 1,
        items.len() == 0 ==> wrapped(items, max_width) == seq![empty_line()],
        items.len() > 0 ==> forall|k: int|
            0 <= k < wrapped(items, max_width).len() ==> line_ok(
                #[trigger] wrapped(items, max_width)[k],
                max_width,
            ),
        forall|k: int, i: int|
            #![trigger wrapped(items, max_width)[k].chunks[i]]
            0 <= k < wrapped(items, max_width).len() && 0 <= i < wrapped(
                items,
                max_width,
            )[k].chunks.len() ==> {
                let line = wrapped(items, max_width)[k];
                let c = line.chunks[i];
                &&& c.x_offset + c.width <= line.total_width
                &&& (c.x_offset + c.width <= max_width || line.chunks.len() == 1)
            },
{
    let n = items.len() as int;
    lemma_flow_ok(items, max_width, n);
}

/// Largest magnitude of a coordinate that is handed to the drawing functions.
pub const MAX_DRAW: i64 = 1_000_000_000_000_000_000;

/// Largest number of lines in a paragraph, and of chunks on a line.
pub const MAX_LINES: usize = 2_000_000_000;

/// Most that the words of one run add to the width of a line, spaces
/// included.
pub const MAX_RUN_WIDTH: i64 = 30_000_000_000_000;

/// What the drawing functions ask of a chunk.
pub open spec fn chunk_drawable(c: ChunkView) -> bool {
    &&& 0 <= c.x_offset <= MAX_DRAW
    &&& 0 <= c.width <= MAX_DRAW
    &&& 0 <= c.font_size <= MAX_FONT_SIZE
    &&& -MAX_FONT_SIZE <= c.y_offset <= MAX_FONT_SIZE
}

pub open spec fn line_drawable(line: LineView) -> bool {
    &&& 0 <= line.total_width <= MAX_DRAW
    &&& line.chunks.len() <= MAX_LINES
    &&& forall|i: int| 0 <= i < line.chunks.len() ==> chunk_drawable(#[trigger] line.chunks[i])
}

pub open spec fn lines_drawable(lines: Seq<LineView>) -> bool {
    &&& lines.len() <= MAX_LINES
    &&& forall|k: int| 0 <= k < lines.len() ==> line_drawable(#[trigger] lines[k])
}

/// The sizes of a flow after `n` items: no line and no list of lines is
/// longer than `n`, and every chunk has the size and the shift of its item.
pub open spec fn flow_sized(st: FlowState, n: int) -> bool {
    &&& st.current.len() <= n
    &&& n > 0 ==> st.lines.len() + 1 <= n
    &&& n <= 0 ==> st.lines.len() == 0
    &&& forall|i: int|
        0 <= i < st.current.len() ==> {
            let c = #[trigger] st.current[i];
            0 <= c.font_size <= MAX_FONT_SIZE && -MAX_FONT_SIZE <= c.y_offset <= MAX_FONT_SIZE
        }
    &&& forall|k: int|
        0 <= k < st.lines.len() ==> {
            let l = #[trigger] st.lines[k];
            &&& l.chunks.len() <= n
            &&& forall|i: int|
                0 <= i < l.chunks.len() ==> {
                    let c = #[trigger] l.chunks[i];
                    0 <= c.font_size <= MAX_FONT_SIZE && -MAX_FONT_SIZE <= c.y_offset
                        <= MAX_FONT_SIZE
                }
        }
}

pub proof fn lemma_flow_sized(items: Seq<Item>, max_width: int, n: int)
    requires
        items_ok(items),
        0 <= n <= items.len(),
    ensures
        flow_sized(flow(items, max_width, n), n),
        state_ok(flow(items, max_width, n), max_width),
    decreases n,
{
    lemma_flow_ok(items, max_width, n);
    if n > 0 {
        lemma_flow_sized(items, max_width, n - 1);
    }
}

/// The lines of a wrapped paragraph can be drawn.
pub proof fn lemma_wrapped_drawable(items: Seq<Item>, max_width: int)
    requires
        items_ok(items),
        items.len() <= MAX_LINES,
        -MAX_WORD_WIDTH <= max_width <= MAX_WORD_WIDTH,
    ensures
        lines_drawable(wrapped(items, max_width)),
        items.len() > 0 ==> wrapped(items, max_width).len() <= items.len(),
{
    let n = items.len() as int;
    lemma_flow_sized(items, max_width, n);
}

/// The sum of the widths and gaps of the first `n` items.
pub open spec fn items_total(items: Seq<Item>, n: int) -> int
    decreases n,
{
    if n <= 0 {
        0
    } else {
        items_total(items, n - 1) + items[n - 1].chunk.width + items[n - 1].gap
    }
}

/// The total of a concatenation's first items is that of the first part's.
pub proof fn lemma_items_total_prefix(a: Seq<Item>, b: Seq<Item>, n: int)
    requires
        0 <= n <= a.len(),
    ensures
        items_total(a + b, n) == items_total(a, n),
    decreases n,
{
    if n > 0 {
        lemma_items_total_prefix(a, b, n - 1);
    }
}

/// A measured word with the whitespace before it.
#[derive(Debug)]
pub struct WordItem {
    /// The word's chunk, at offset zero.
    pub chunk: WordChunk,
    pub spaced: bool,
    pub gap: i64,
}

impl View for WordItem {
    type V = Item;

    open spec fn view(&self) -> Item {
        Item { chunk: self.chunk@, spaced: self.spaced, gap: self.gap as int }
    }
}

pub open spec fn items_view(items: Seq<WordItem>) -> Seq<Item> {
    Seq::new(items.len(), |i: int| items[i]@)
}

/// Closes a line: the chunks leave `chunks`, and the line's width is where
/// its last chunk ends.
pub fn finish_line(chunks: &mut Vec<WordChunk>) -> (line: TextLine)
    requires
        old(chunks)@.len() > 0 ==> i64::MIN <= old(chunks)@.last().x_offset + old(
            chunks,
        )@.last().width <= i64::MAX,
    ensures
        final(chunks)@.len() == 0,
        line.chunks@ == old(chunks)@,
        line.total_width == if old(chunks)@.len() > 0 {
            old(chunks)@.last().x_offset + old(chunks)@.last().width
        } else {
            0
        },
{
    let total_width = if chunks.len() > 0 {
        let last = &chunks[chunks.len() - 1];
        last.x_offset + last.width
    } else {
        0
    };
    let mut taken: Vec<WordChunk> = Vec::new();
    std::mem::swap(chunks, &mut taken);
    TextLine { chunks: taken, total_width }
}

/// Measures the words of one run and appends them to `items`.
pub fn measure_run(
    items: &mut Vec<WordItem>,
    run: &Run,
    entry: &FontEntry,
    carry_ws: bool,
    carry_space: i64,
) -> (out: (bool, i64))
    requires
        run.wf(),
        entry.wf(),
        0 <= carry_space <= MAX_GAP,
        items_ok(items_view(old(items)@)),
    ensures
        items_view(final(items)@) == items_view(old(items)@) + run_items(
            *run,
            *entry,
            Carry { ended_with_space: carry_ws, space: carry_space as int },
        ),
        items_ok(items_view(final(items)@)),
        out.0 == ends_with_space(run.text@),
        out.1 == space_width(entry.widths_1000@, effective_size(*run)),
        0 <= out.1 <= MAX_GAP,
        final(items)@.len() <= old(items)@.len() + run.text@.len(),
        items_total(items_view(final(items)@), final(items)@.len() as int) <= items_total(
            items_view(old(items)@),
            old(items)@.len() as int,
        ) + MAX_RUN_WIDTH,
        items_total(items_view(final(items)@), final(items)@.len() as int) <= items_total(
            items_view(old(items)@),
            old(items)@.len() as int,
        ) + (run.text@.len() + 1) * 200_000_000,
{
    let ghost base_total = items_total(items_view(items@), items@.len() as int);
    let ghost base_len = items@.len();
    let ghost mut reach: int = 0;
    let size = effective_font_size(run);
    let space_w = measure_space(&entry.widths_1000, size);
    let chars = chars_of(run.text.as_str());
    let spans = split_words(&chars);
    let starts = starts_with_whitespace(&chars);
    let y = vert_y_offset(run);
    let ghost base = items_view(items@);
    let ghost carry = Carry { ended_with_space: carry_ws, space: carry_space as int };
    let ghost all = run_items(*run, *entry, carry);
    proof {
        lemma_word_spans(chars@, 0);
    }
    let mut i: usize = 0;
    while i < spans.len()
        invariant
            i <= spans.len(),
            entry.wf(),
            run.wf(),
            chars@ == run.text@,
            spans_view(spans@) == word_spans(chars@, 0),
            spans@.len() == word_spans(chars@, 0).len(),
            forall|n: int|
                0 <= n < word_spans(chars@, 0).len() ==> {
                    let p = #[trigger] word_spans(chars@, 0)[n];
                    0 <= p.0 < p.1 <= chars@.len()
                },
            starts == starts_with_space(run.text@),
            size == effective_size(*run),
            0 <= size <= MAX_FONT_SIZE,
            space_w == space_width(entry.widths_1000@, size as int),
            0 <= space_w <= MAX_GAP,
            0 <= carry_space <= MAX_GAP,
            y == baseline_shift(*run),
            -MAX_FONT_SIZE <= y <= MAX_FONT_SIZE,
            carry == (Carry { ended_with_space: carry_ws, space: carry_space as int }),
            all == run_items(*run, *entry, carry),
            items_view(items@) == base + all.take(i as int),
            items_ok(items_view(items@)),
            forall|n: int, m: int|
                0 <= n < m < word_spans(chars@, 0).len() ==> (#[trigger] word_spans(
                    chars@,
                    0,
                )[n]).1 < (#[trigger] word_spans(chars@, 0)[m]).0,
            chars@.len() <= MAX_RUN_CHARS,
            items@.len() == base_len + i,
            spans@.len() <= chars@.len(),
            0 <= reach <= chars@.len() + 1,
            i > 0 ==> reach == word_spans(chars@, 0)[i - 1].1 + 1,
            i == 0 ==> reach == 0,
            items_total(items_view(items@), items@.len() as int) <= base_total + reach
                * 200_000_000,
        decreases spans.len() - i,
    {
        let (a, b) = spans[i];
        let ghost before_items = items_view(items@);
        let w = measure(&entry.widths_1000, &chars, a, b, size);
        let own = i > 0 || starts;
        let word = String::from_str(run.text.as_str().substring_char(a, b));
        let item = WordItem {
            chunk: WordChunk {
                pdf_font: entry.pdf_name.clone(),
                text: word,
                font_size: size,
                color: run.color,
                x_offset: 0,
                width: w,
                underline: run.underline,
                strikethrough: run.strikethrough,
                y_offset: y,
            },
            spaced: own || carry_ws,
            gap: if own {
                space_w
            } else {
                carry_space
            },
        };
        proof {
            assert(item@ == item_of(*run, *entry, carry, i as int));
            assert(items_view(items@.push(item)) =~= items_view(items@).push(item@));
            let after_items = before_items.push(item@);
            assert(after_items =~= before_items + seq![item@]);
            lemma_items_total_prefix(before_items, seq![item@], before_items.len() as int);
            reach = b + 1;
        }
        items.push(item);
        i += 1;
    }
    (ends_with_whitespace(&chars), space_w)
}

/// Measures the words of a paragraph's runs. Runs that are tabs are passed
/// over.
pub fn measure_runs(runs: &Vec<Run>, fonts: &FontTable) -> (items: Vec<WordItem>)
    requires
        fonts.wf(),
        runs_wf(runs@),
        fonts.covers(runs@),
    ensures
        items_view(items@) == para_items(runs@, *fonts, runs@.len() as int),
        items_ok(items_view(items@)),
        items@.len() <= MAX_PARA_CHARS,
        items@.len() <= total_chars(runs@, runs@.len() as int),
{
    let mut items: Vec<WordItem> = Vec::new();
    let mut prev_ws = false;
    let mut prev_space: i64 = 0;
    let mut r: usize = 0;
    while r < runs.len()
        invariant
            r <= runs.len(),
            fonts.wf(),
            runs_wf(runs@),
            fonts.covers(runs@),
            items_view(items@) == para_items(runs@, *fonts, r as int),
            items_ok(items_view(items@)),
            items@.len() <= total_chars(runs@, r as int),
            carried(runs@, *fonts, r as int) == (Carry {
                ended_with_space: prev_ws,
                space: prev_space as int,
            }),
            0 <= prev_space <= MAX_GAP,
        decreases runs.len() - r,
    {
        let run = &runs[r];
        if !run.is_tab {
            let idx = fonts.find(run).unwrap();
            let entry = &fonts.entries[idx];
            let out = measure_run(&mut items, run, entry, prev_ws, prev_space);
            prev_ws = out.0;
            prev_space = out.1;
        }
        r += 1;
    }
    items
}

/// Breaks measured words into lines no wider than `max_width`.
pub fn break_lines(items: &Vec<WordItem>, max_width: i64) -> (lines: Vec<TextLine>)
    requires
        items_ok(items_view(items@)),
        -MAX_WORD_WIDTH <= max_width <= MAX_WORD_WIDTH,
    ensures
        lines_view(lines@) == wrapped(items_view(items@), max_width as int),
{
    let mut lines: Vec<TextLine> = Vec::new();
    let mut current: Vec<WordChunk> = Vec::new();
    let mut x: i64 = 0;
    let mut i: usize = 0;
    let ghost all = items_view(items@);
    proof {
        assert(lines_view(lines@) =~= Seq::<LineView>::empty());
        assert(chunks_view(current@) =~= Seq::<ChunkView>::empty());
    }
    while i < items.len()
        invariant
            i <= items.len(),
            all == items_view(items@),
            items_ok(all),
            -MAX_WORD_WIDTH <= max_width <= MAX_WORD_WIDTH,
            flow(all, max_width as int, i as int) == (FlowState {
                lines: lines_view(lines@),
                current: chunks_view(current@),
                x: x as int,
            }),
            state_ok(flow(all, max_width as int, i as int), max_width as int),
        decreases items.len() - i,
    {
        let item = &items[i];
        let ghost st = flow(all, max_width as int, i as int);
        proof {
            assert(item_ok(all[i as int]));
            lemma_flow_step(st, item@, max_width as int);
        }
        let proposed = if current.len() > 0 && item.spaced {
            x + item.gap
        } else {
            x
        };
        let at: i64;
        if current.len() > 0 && proposed + item.chunk.width > max_width {
            let ghost before = lines_view(lines@);
            let line = finish_line(&mut current);
            proof {
                assert(lines_view(lines@.push(line)) =~= before.push(line@));
            }
            lines.push(line);
            at = 0;
        } else {
            at = proposed;
        }
        let chunk = WordChunk {
            pdf_font: item.chunk.pdf_font.clone(),
            text: item.chunk.text.clone(),
            font_size: item.chunk.font_size,
            color: item.chunk.color,
            x_offset: at,
            width: item.chunk.width,
            underline: item.chunk.underline,
            strikethrough: item.chunk.strikethrough,
            y_offset: item.chunk.y_offset,
        };
        proof {
            assert(chunks_view(current@.push(chunk)) =~= chunks_view(current@).push(chunk@));
            if breaks_before(st, item@, max_width as int) {
                assert(chunks_view(current@).push(chunk@) =~= seq![chunk@]);
            }
        }
        current.push(chunk);
        x = at + item.chunk.width;
        i += 1;
    }
    if current.len() > 0 {
        let line = finish_line(&mut current);
        lines.push(line);
    } else if lines.len() == 0 {
        let line = TextLine { chunks: Vec::new(), total_width: 0 };
        lines.push(line);
    }
    lines
}

/// Lays a paragraph's runs out in lines no wider than `max_width`.
///
/// The words of the runs are placed in order. Between two words stands a
/// space where the text has whitespace between them, as wide as a space of
/// the run that holds the whitespace; the first word of a line stands at
/// offset zero. Runs that are tabs are passed over.
pub fn build_paragraph_lines(runs: &Vec<Run>, seen_fonts: &FontTable, max_width: i64) -> (lines:
    Vec<TextLine>)
    requires
        seen_fonts.wf(),
        runs_wf(runs@),
        seen_fonts.covers(runs@),
        -MAX_WORD_WIDTH <= max_width <= MAX_WORD_WIDTH,
    ensures
        lines_view(lines@) == paragraph_lines(runs@, *seen_fonts, max_width as int),
        lines_drawable(lines_view(lines@)),
        1 <= lines@.len() <= MAX_PARA_CHARS,
        lines@.len() == 1 || lines@.len() <= total_chars(runs@, runs@.len() as int),
        runs@.len() == 0 ==> lines@.len() == 1 && lines@[0].chunks@.len() == 0
            && lines@[0].total_width == 0,
        forall|k: int, i: int|
            #![trigger lines@[k].chunks@[i]]
            0 <= k < lines@.len() && 0 <= i < lines@[k].chunks@.len() ==> {
                let c = lines@[k].chunks@[i];
                &&& c.x_offset + c.width <= lines@[k].total_width
                &&& (c.x_offset + c.width <= max_width || lines@[k].chunks@.len() == 1)
            },
{
    let items = measure_runs(runs, seen_fonts);
    let lines = break_lines(&items, max_width);
    proof {
        let spec_lines = wrapped(items_view(items@), max_width as int);
        lemma_wrapped_fits(items_view(items@), max_width as int);
        lemma_wrapped_drawable(items_view(items@), max_width as int);
        lemma_flow_sized(items_view(items@), max_width as int, items@.len() as int);
        assert forall|k: int, i: int|
            #![trigger lines@[k].chunks@[i]]
            0 <= k < lines@.len() && 0 <= i < lines@[k].chunks@.len() implies {
            let c = lines@[k].chunks@[i];
            &&& c.x_offset + c.width <= lines@[k].total_width
            &&& (c.x_offset + c.width <= max_width || lines@[k].chunks@.len() == 1)
        } by {
            assert(spec_lines[k].chunks[i] == lines@[k].chunks@[i]@);
        }
        if runs@.len() == 0 {
            assert(lines_view(lines@)[0] == lines@[0]@);
        }
    }
    lines
}

} // verus!
