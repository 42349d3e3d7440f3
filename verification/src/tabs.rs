//! Lines with tabs.
//!
//! A paragraph that holds tabs is set on one line and is not wrapped. The
//! tabs cut the runs into segments; each segment after the first starts at
//! the tab stop that follows the end of the segment before it.

use crate::flow::{
    chunks_view, effective_font_size, effective_size, entry_for, items_ok, items_total,
    items_view, lines_drawable, lines_view, measure_run, placed, run_items, Carry, ChunkView,
    Item, LineView, TextLine, WordChunk, WordItem,
};
use crate::fonts::{
    advance_of, glyph_advance, measure, text_width, FontEntry, FontTable,
};
use crate::model::{
    lemma_total_chars_monotonic, runs_wf, tab_stops_wf, total_chars, Run, TabAlignment, TabStop,
};
use crate::text::{chars_of, ends_with_space, repeated};
use crate::units::{
    floor_div, max_i64, max_int, scale, scaled, MAX_COORD, MAX_FONT_SIZE, MAX_PARA_CHARS,
};
use vstd::prelude::*;

verus! {

/// Distance between the tab stops that stand where none is configured.
pub const DEFAULT_TAB_INTERVAL: i64 = 36_000;

/// How far beyond the cursor a tab stop has to be to count.
pub const TAB_TOLERANCE: i64 = 500;

/// The first configured stop at or after index `i` that lies more than the
/// tolerance beyond `abs_x`.
pub open spec fn configured_stop(stops: Seq<TabStop>, abs_x: int, i: int) -> Option<TabStop>
    decreases stops.len() - i,
{
    if 0 <= i < stops.len() {
        if stops[i].position > abs_x + TAB_TOLERANCE {
            Some(stops[i])
        } else {
            configured_stop(stops, abs_x, i + 1)
        }
    } else {
        None
    }
}

/// The position of the default stop after `abs_x`: the next multiple of the
/// default interval.
pub open spec fn default_stop_position(abs_x: int) -> int {
    (abs_x / (DEFAULT_TAB_INTERVAL as int) + 1) * DEFAULT_TAB_INTERVAL
}

/// The position and alignment of the stop that a tab at `abs_x` moves to.
pub open spec fn next_stop(stops: Seq<TabStop>, abs_x: int) -> (int, TabAlignment) {
    match configured_stop(stops, abs_x, 0) {
        Some(s) => (s.position as int, s.alignment),
        None => (default_stop_position(abs_x), TabAlignment::Left),
    }
}

/// The leader of the stop that a tab at `abs_x` moves to.
pub open spec fn next_leader(stops: Seq<TabStop>, abs_x: int) -> Option<char> {
    match configured_stop(stops, abs_x, 0) {
        Some(s) => s.leader,
        None => None,
    }
}

fn find_configured(stops: &Vec<TabStop>, abs_x: i64) -> (r: Option<TabStop>)
    requires
        -MAX_DRAW_X <= abs_x <= MAX_DRAW_X,
    ensures
        r == configured_stop(stops@, abs_x as int, 0),
{
    let mut i: usize = 0;
    while i < stops.len()
        invariant
            i <= stops.len(),
            -MAX_DRAW_X <= abs_x <= MAX_DRAW_X,
            configured_stop(stops@, abs_x as int, 0) == configured_stop(
                stops@,
                abs_x as int,
                i as int,
            ),
        decreases stops.len() - i,
    {
        if stops[i].position > abs_x + TAB_TOLERANCE {
            return Some(stops[i]);
        }
        i += 1;
    }
    None
}

/// Largest cursor position on a line with tabs.
pub const MAX_DRAW_X: i64 = 600_000_000_000_000_000;

/// The stop that a tab moves to from the cursor `current_x`: the first
/// configured stop that lies more than half a point beyond the cursor, else
/// the next multiple of the default interval, left-aligned and without
/// leader. Stops are measured from the margin, the cursor from the indent.
pub fn find_next_tab_stop(current_x: i64, tab_stops: &Vec<TabStop>, indent_left: i64) -> (stop:
    TabStop)
    requires
        0 <= current_x <= MAX_DRAW_X - 2 * MAX_COORD,
        -MAX_COORD <= indent_left <= MAX_COORD,
        tab_stops_wf(tab_stops@),
    ensures
        configured_stop(tab_stops@, current_x + indent_left, 0) is Some ==> stop.position
            <= MAX_COORD,
        (stop.position as int, stop.alignment) == next_stop(
            tab_stops@,
            current_x + indent_left,
        ),
        stop.leader == next_leader(tab_stops@, current_x + indent_left),
        stop.position > current_x + indent_left,
        configured_stop(tab_stops@, current_x + indent_left, 0) is None ==> stop.position
            <= current_x + indent_left + DEFAULT_TAB_INTERVAL,
{
    let abs_x = current_x + indent_left;
    match find_configured(tab_stops, abs_x) {
        Some(s) => {
            proof {
                lemma_configured_stop(tab_stops@, abs_x as int, 0);
            }
            s
        },
        None => {
            let q = floor_div(abs_x, DEFAULT_TAB_INTERVAL);
            assert(abs_x < (q + 1) * 36_000 <= abs_x + 36_000) by (nonlinear_arith)
                requires
                    q == abs_x as int / 36_000,
            ;
            TabStop {
                position: (q + 1) * DEFAULT_TAB_INTERVAL,
                alignment: TabAlignment::Left,
                leader: None,
            }
        },
    }
}

pub proof fn lemma_configured_stop(stops: Seq<TabStop>, abs_x: int, i: int)
    requires
        0 <= i,
    ensures
        configured_stop(stops, abs_x, i) matches Some(s) ==> s.position > abs_x + TAB_TOLERANCE
            && exists|k: int| i <= k < stops.len() && stops[k] == s,
    decreases stops.len() - i,
{
    if i < stops.len() {
        if !(stops[i].position > abs_x + TAB_TOLERANCE) {
            lemma_configured_stop(stops, abs_x, i + 1);
        }
    }
}

/// The first index at or after `a` that holds a tab, or the length.
pub open spec fn next_tab(runs: Seq<Run>, a: int) -> int
    decreases runs.len() - a,
{
    if 0 <= a < runs.len() && !runs[a].is_tab {
        next_tab(runs, a + 1)
    } else {
        a
    }
}

/// The words of the runs `a..n` of a segment. Within a segment a word is
/// separated from what precedes it where the text has whitespace between
/// them, by a space of the word's own run.
pub open spec fn segment_items(runs: Seq<Run>, fonts: FontTable, a: int, n: int) -> Seq<Item>
    decreases n - a,
{
    if n <= a {
        Seq::empty()
    } else {
        let run = runs[n - 1];
        let entry = entry_for(fonts, run);
        segment_items(runs, fonts, a, n - 1) + run_items(
            run,
            entry,
            Carry {
                ended_with_space: n - 1 > a && ends_with_space(runs[n - 2].text@),
                space: crate::fonts::space_width(entry.widths_1000@, effective_size(run)),
            },
        )
    }
}

/// The measured width of the first `n` items of a segment: the words, and a
/// space before each word but the first.
pub open spec fn items_width(items: Seq<Item>, n: int) -> int
    decreases n,
{
    if n <= 0 {
        0
    } else {
        items_width(items, n - 1) + items[n - 1].chunk.width + if n > 1 {
            items[n - 1].gap
        } else {
            0
        }
    }
}

/// The index of the first `.` at or after `i`, or the length.
pub open spec fn first_dot(s: Seq<char>, i: int) -> int
    decreases s.len() - i,
{
    if 0 <= i < s.len() && s[i] != '.' {
        first_dot(s, i + 1)
    } else {
        i
    }
}

/// The width of what the runs `a..b` hold before their first `.`, every
/// character measured in its own run's font; the whole width where they hold
/// no `.`.
pub open spec fn before_dot_width(runs: Seq<Run>, fonts: FontTable, a: int, b: int) -> int
    decreases b - a,
{
    if a >= b {
        0
    } else {
        let t = runs[a].text@;
        let d = first_dot(t, 0);
        let w = text_width(
            entry_for(fonts, runs[a]).widths_1000@,
            t.take(d),
            effective_size(runs[a]),
        );
        if d < t.len() {
            w
        } else {
            w + before_dot_width(runs, fonts, a + 1, b)
        }
    }
}

/// The chunks set so far and the cursor.
pub struct TabState {
    pub chunks: Seq<ChunkView>,
    pub x: int,
}

/// Sets one item at the cursor, after a space where the item is separated
/// from what precedes it and the line holds a chunk already.
pub open spec fn set_step(st: TabState, item: Item) -> TabState {
    let p = if st.chunks.len() > 0 && item.spaced {
        st.x + item.gap
    } else {
        st.x
    };
    TabState { chunks: st.chunks.push(placed(item.chunk, p)), x: p + item.chunk.width }
}

/// Sets the first `n` items.
pub open spec fn set_items(st: TabState, items: Seq<Item>, n: int) -> TabState
    decreases n,
{
    if n <= 0 {
        st
    } else {
        set_step(set_items(st, items, n - 1), items[n - 1])
    }
}

/// Where a segment starts after a tab: at the stop for a left stop; moved
/// back by half or all of the segment's width for a centre or right stop, and
/// by the width before the decimal point for a decimal stop; never before the
/// cursor.
pub open spec fn segment_start(
    alignment: TabAlignment,
    tab_target: int,
    x: int,
    width: int,
    before_dot: int,
) -> int {
    match alignment {
        TabAlignment::Left => max_int(tab_target, x),
        TabAlignment::Center => max_int(tab_target - width / 2, x),
        TabAlignment::Right => max_int(tab_target - width, x),
        TabAlignment::Decimal => max_int(tab_target - before_dot, x),
    }
}

/// The last run before `a` that is no tab.
pub open spec fn last_text_run(runs: Seq<Run>, a: int) -> Option<int>
    decreases a,
{
    if a <= 0 || a > runs.len() {
        None
    } else if !runs[a - 1].is_tab {
        Some(a - 1)
    } else {
        last_text_run(runs, a - 1)
    }
}

/// The run whose font a leader before the segment `a..b` is set in: the
/// segment's first run, or for an empty segment the last run before it.
pub open spec fn leader_run(runs: Seq<Run>, a: int, b: int) -> Option<int> {
    if a < b {
        Some(a)
    } else {
        last_text_run(runs, a)
    }
}

/// The leader that fills the gap between the cursor `x` and `start`: as many
/// copies of the leader character as fit in the gap less one character's
/// width, ending at `start`. There is none unless the gap is wider than two
/// characters.
pub open spec fn leader_chunk(
    run: Run,
    entry: FontEntry,
    leader: char,
    x: int,
    start: int,
) -> Option<ChunkView> {
    let w = scaled(glyph_advance(entry.widths_1000@, leader), effective_size(run));
    let gap = start - x;
    if w > 0 && gap > 2 * w {
        let count = (gap - w) / w;
        Some(
            ChunkView {
                pdf_font: entry.pdf_name@,
                text: Seq::new(count as nat, |i: int| leader),
                font_size: effective_size(run),
                color: run.color,
                x_offset: start - count * w,
                width: count * w,
                underline: false,
                strikethrough: false,
                y_offset: 0,
            },
        )
    } else {
        None
    }
}

/// The state after the tab before the segment `a..b`: the leader, if the stop
/// has one and a run gives it a font, and the cursor at the segment's start.
pub open spec fn after_tab(
    st: TabState,
    runs: Seq<Run>,
    fonts: FontTable,
    stops: Seq<TabStop>,
    indent_left: int,
    a: int,
    b: int,
) -> TabState {
    let stop = next_stop(stops, st.x + indent_left);
    let items = segment_items(runs, fonts, a, b);
    let start = segment_start(
        stop.1,
        stop.0 - indent_left,
        st.x,
        items_width(items, items.len() as int),
        before_dot_width(runs, fonts, a, b),
    );
    let leader = match (next_leader(stops, st.x + indent_left), leader_run(runs, a, b)) {
        (Some(ch), Some(r)) => leader_chunk(runs[r], entry_for(fonts, runs[r]), ch, st.x, start),
        _ => None,
    };
    TabState {
        chunks: match leader {
            Some(c) => st.chunks.push(c),
            None => st.chunks,
        },
        x: start,
    }
}

/// The state after the segments that start at or after run `a` are set;
/// `first` says whether the segment at `a` is the line's first, which no tab
/// precedes.
pub open spec fn tabbed(
    st: TabState,
    runs: Seq<Run>,
    fonts: FontTable,
    stops: Seq<TabStop>,
    indent_left: int,
    a: int,
    first: bool,
) -> TabState
    decreases runs.len() - a,
{
    let b = next_tab(runs, a);
    let items = segment_items(runs, fonts, a, b);
    let moved = if first {
        st
    } else {
        after_tab(st, runs, fonts, stops, indent_left, a, b)
    };
    let set = set_items(moved, items, items.len() as int);
    if 0 <= a <= b < runs.len() {
        tabbed(set, runs, fonts, stops, indent_left, b + 1, false)
    } else {
        set
    }
}

/// The one line of a paragraph with tabs.
pub open spec fn tabbed_line(
    runs: Seq<Run>,
    fonts: FontTable,
    stops: Seq<TabStop>,
    indent_left: int,
) -> LineView {
    let st = tabbed(
        TabState { chunks: Seq::empty(), x: 0 },
        runs,
        fonts,
        stops,
        indent_left,
        0,
        true,
    );
    LineView {
        chunks: st.chunks,
        total_width: if st.chunks.len() > 0 {
            st.chunks.last().x_offset + st.chunks.last().width
        } else {
            0
        },
    }
}

fn next_tab_index(runs: &Vec<Run>, a: usize) -> (b: usize)
    requires
        a <= runs@.len(),
    ensures
        b == next_tab(runs@, a as int),
        a <= b <= runs@.len(),
        forall|k: int| a <= k < b ==> !(#[trigger] runs@[k]).is_tab,
        b < runs@.len() ==> runs@[b as int].is_tab,
{
    let mut b: usize = a;
    while b < runs.len() && !runs[b].is_tab
        invariant
            a <= b <= runs@.len(),
            next_tab(runs@, a as int) == next_tab(runs@, b as int),
            forall|k: int| a <= k < b ==> !(#[trigger] runs@[k]).is_tab,
        decreases runs.len() - b,
    {
        b += 1;
    }
    b
}

/// The number of characters in the runs `a..b`.
pub open spec fn segment_chars(runs: Seq<Run>, a: int, b: int) -> int {
    total_chars(runs, b) - total_chars(runs, a)
}

/// Measures the words of the runs `a..b`, which hold no tab.
pub fn measure_segment(runs: &Vec<Run>, a: usize, b: usize, fonts: &FontTable) -> (items: Vec<
    WordItem,
>)
    requires
        fonts.wf(),
        runs_wf(runs@),
        fonts.covers(runs@),
        a <= b <= runs@.len(),
        forall|k: int| a <= k < b ==> !(#[trigger] runs@[k]).is_tab,
    ensures
        items_view(items@) == segment_items(runs@, *fonts, a as int, b as int),
        items_ok(items_view(items@)),
        items@.len() <= segment_chars(runs@, a as int, b as int),
        0 <= items_total(items_view(items@), items@.len() as int) <= (segment_chars(
            runs@,
            a as int,
            b as int,
        ) + (b - a)) * 200_000_000,
{
    proof {
        assert((segment_chars(runs@, a as int, a as int) + 0) * 200_000_000 == 0);
    }
    let mut items: Vec<WordItem> = Vec::new();
    let mut prev_ws = false;
    let mut r: usize = a;
    while r < b
        invariant
            a <= r <= b <= runs@.len(),
            fonts.wf(),
            runs_wf(runs@),
            fonts.covers(runs@),
            forall|k: int| a <= k < b ==> !(#[trigger] runs@[k]).is_tab,
            items_view(items@) == segment_items(runs@, *fonts, a as int, r as int),
            items_ok(items_view(items@)),
            items@.len() <= segment_chars(runs@, a as int, r as int),
            items_total(items_view(items@), items@.len() as int) <= (segment_chars(
                runs@,
                a as int,
                r as int,
            ) + (r - a)) * 200_000_000,
            prev_ws == (r > a && ends_with_space(runs@[r - 1].text@)),
        decreases b - r,
    {
        let run = &runs[r];
        let idx = fonts.find(run).unwrap();
        let entry = &fonts.entries[idx];
        let size = effective_font_size(run);
        let space_w = crate::fonts::measure_space(&entry.widths_1000, size);
        let ghost before_total = items_total(items_view(items@), items@.len() as int);
        let out = measure_run(&mut items, run, entry, prev_ws, space_w);
        proof {
            let chars = segment_chars(runs@, a as int, r as int);
            let own = run.text@.len() as int;
            assert(segment_chars(runs@, a as int, r as int + 1) == chars + own);
            assert((chars + (r - a)) * 200_000_000 + (own + 1) * 200_000_000 == (chars + own + (r
                + 1 - a)) * 200_000_000) by (nonlinear_arith);
        }
        prev_ws = out.0;
        r += 1;
    }
    proof {
        lemma_items_total_nonneg(items_view(items@), items@.len() as int);
    }
    items
}

pub proof fn lemma_items_total_nonneg(items: Seq<Item>, n: int)
    requires
        items_ok(items),
        0 <= n <= items.len(),
    ensures
        0 <= items_width(items, n) <= items_total(items, n),
    decreases n,
{
    if n > 0 {
        lemma_items_total_nonneg(items, n - 1);
    }
}

/// The width of measured words with a space before each but the first.
fn items_width_of(items: &Vec<WordItem>) -> (w: i64)
    requires
        items_ok(items_view(items@)),
        items_total(items_view(items@), items@.len() as int) <= MAX_DRAW_X,
    ensures
        w == items_width(items_view(items@), items@.len() as int),
        0 <= w <= items_total(items_view(items@), items@.len() as int),
{
    let mut w: i64 = 0;
    let mut i: usize = 0;
    let ghost all = items_view(items@);
    while i < items.len()
        invariant
            i <= items@.len(),
            all == items_view(items@),
            items_ok(all),
            items_total(all, items@.len() as int) <= MAX_DRAW_X,
            w == items_width(all, i as int),
            0 <= w <= items_total(all, i as int),
        decreases items.len() - i,
    {
        proof {
            lemma_items_total_monotonic(all, i as int + 1, items@.len() as int);
        }
        w = w + items[i].chunk.width;
        if i > 0 {
            w = w + items[i].gap;
        }
        i += 1;
    }
    w
}

pub proof fn lemma_items_total_monotonic(items: Seq<Item>, n: int, m: int)
    requires
        items_ok(items),
        0 <= n <= m <= items.len(),
    ensures
        items_total(items, n) <= items_total(items, m),
    decreases m - n,
{
    if n < m {
        lemma_items_total_monotonic(items, n, m - 1);
    }
}

/// The measured width of the runs `a..b`, which hold no tab: their words, and
/// a space before each word but the first.
pub fn segment_width(runs: &Vec<Run>, a: usize, b: usize, seen_fonts: &FontTable) -> (w: i64)
    requires
        seen_fonts.wf(),
        runs_wf(runs@),
        seen_fonts.covers(runs@),
        a <= b <= runs@.len(),
        forall|k: int| a <= k < b ==> !(#[trigger] runs@[k]).is_tab,
    ensures
        w == items_width(
            segment_items(runs@, *seen_fonts, a as int, b as int),
            segment_items(runs@, *seen_fonts, a as int, b as int).len() as int,
        ),
{
    let items = measure_segment(runs, a, b, seen_fonts);
    proof {
        lemma_segment_total(runs@, a as int, b as int);
    }
    items_width_of(&items)
}

/// The runs `a..b` of a well-formed paragraph hold no more characters than
/// a paragraph may hold, and their words are no wider than a line with tabs
/// may be.
pub proof fn lemma_segment_total(runs: Seq<Run>, a: int, b: int)
    requires
        runs_wf(runs),
        0 <= a <= b <= runs.len(),
    ensures
        0 <= segment_chars(runs, a, b) <= total_chars(runs, b) <= MAX_PARA_CHARS,
        0 <= total_chars(runs, a) <= total_chars(runs, b),
        (segment_chars(runs, a, b) + (b - a)) * 200_000_000 <= 210_000_000_000_000_000,
{
    lemma_total_chars_monotonic(runs, a, b);
    lemma_total_chars_monotonic(runs, b, runs.len() as int);
    let n = segment_chars(runs, a, b) + (b - a);
    assert(n * 200_000_000 <= 210_000_000_000_000_000) by (nonlinear_arith)
        requires
            0 <= n <= 1_000_000 + 1_000_000_000,
    ;
}

/// The width of what the runs `a..b` hold before their first `.`.
pub fn decimal_before_width(runs: &Vec<Run>, a: usize, b: usize, seen_fonts: &FontTable) -> (w:
    i64)
    requires
        seen_fonts.wf(),
        runs_wf(runs@),
        seen_fonts.covers(runs@),
        a <= b <= runs@.len(),
        forall|k: int| a <= k < b ==> !(#[trigger] runs@[k]).is_tab,
    ensures
        w == before_dot_width(runs@, *seen_fonts, a as int, b as int),
        0 <= w <= segment_chars(runs@, a as int, b as int) * 200_000_000,
{
    proof {
        lemma_segment_total(runs@, a as int, b as int);
    }
    let mut w: i64 = 0;
    let mut r: usize = a;
    while r < b
        invariant
            a <= r <= b <= runs@.len(),
            seen_fonts.wf(),
            runs_wf(runs@),
            seen_fonts.covers(runs@),
            forall|k: int| a <= k < b ==> !(#[trigger] runs@[k]).is_tab,
            0 <= w <= segment_chars(runs@, a as int, r as int) * 200_000_000,
            segment_chars(runs@, a as int, b as int) <= MAX_PARA_CHARS,
            before_dot_width(runs@, *seen_fonts, a as int, b as int) == w + before_dot_width(
                runs@,
                *seen_fonts,
                r as int,
                b as int,
            ),
        decreases b - r,
    {
        let run = &runs[r];
        let idx = seen_fonts.find(run).unwrap();
        let entry = &seen_fonts.entries[idx];
        let size = effective_font_size(run);
        let chars = chars_of(run.text.as_str());
        let mut d: usize = 0;
        while d < chars.len() && chars[d] != '.'
            invariant
                d <= chars@.len(),
                first_dot(chars@, 0) == first_dot(chars@, d as int),
            decreases chars.len() - d,
        {
            d += 1;
        }
        let part = measure(&entry.widths_1000, &chars, 0, d, size);
        proof {
            let done = segment_chars(runs@, a as int, r as int);
            let own = run.text@.len() as int;
            assert(segment_chars(runs@, a as int, r as int + 1) == done + own);
            lemma_total_chars_monotonic(runs@, r as int + 1, b as int);
            lemma_total_chars_monotonic(runs@, a as int, r as int);
            assert(done * 200_000_000 + d * 200_000_000 <= (done + own) * 200_000_000
                <= segment_chars(runs@, a as int, b as int) * 200_000_000 <= 1_000_000
                * 200_000_000) by (nonlinear_arith)
                requires
                    0 <= d <= own,
                    0 <= done,
                    done + own <= segment_chars(runs@, a as int, b as int) <= 1_000_000,
            ;
        }
        w = w + part;
        if d < chars.len() {
            return w;
        }
        r += 1;
    }
    w
}

/// The leader between the cursor `x` and `start`, if one fits.
fn make_leader(run: &Run, entry: &FontEntry, leader: char, x: i64, start: i64) -> (c: Option<
    WordChunk,
>)
    requires
        run.wf(),
        entry.wf(),
        0 <= x <= start <= MAX_DRAW_X,
        start - x <= 4_000_000_000,
    ensures
        match c {
            Some(chunk) => leader_chunk(*run, *entry, leader, x as int, start as int) == Some(
                chunk@,
            ) && x <= chunk.x_offset && chunk.x_offset + chunk.width == start && chunk.width >= 0
                && 0 <= chunk.font_size <= MAX_FONT_SIZE,
            None => leader_chunk(*run, *entry, leader, x as int, start as int) is None,
        },
{
    let size = effective_font_size(run);
    let adv = advance_of(&entry.widths_1000, leader);
    proof {
        assert(0 <= adv as int * size as int / 1000 <= 200_000_000) by (nonlinear_arith)
            requires
                0 <= adv <= 100_000,
                0 <= size <= 2_000_000,
        ;
    }
    let w = scale(adv, size);
    let gap = start - x;
    if w > 0 && gap > 2 * w {
        let count = (gap - w) / w;
        proof {
            assert(1 <= count <= gap && count * w <= gap - w) by (nonlinear_arith)
                requires
                    w > 0,
                    gap > 2 * w,
                    count == (gap - w) / (w as int),
            ;
        }
        let text = repeated(leader, count as usize);
        let width = count * w;
        Some(
            WordChunk {
                pdf_font: entry.pdf_name.clone(),
                text,
                font_size: size,
                color: run.color,
                x_offset: start - width,
                width,
                underline: false,
                strikethrough: false,
                y_offset: 0,
            },
        )
    } else {
        None
    }
}

fn find_last_text_run(runs: &Vec<Run>, a: usize) -> (r: Option<usize>)
    requires
        a <= runs@.len(),
    ensures
        match r {
            Some(i) => last_text_run(runs@, a as int) == Some(i as int) && i < a
                && !runs@[i as int].is_tab,
            None => last_text_run(runs@, a as int) is None,
        },
{
    let mut i: usize = a;
    while i > 0
        invariant
            i <= a <= runs@.len(),
            last_text_run(runs@, a as int) == last_text_run(runs@, i as int),
        decreases i,
    {
        if !runs[i - 1].is_tab {
            return Some(i - 1);
        }
        i -= 1;
    }
    None
}

/// What holds of the chunks of a line with tabs whose cursor is at `x`: no
/// chunk is negative in offset or width, and none ends after the cursor or
/// after the last chunk.
pub open spec fn tab_chunks_ok(chunks: Seq<ChunkView>, x: int) -> bool {
    forall|i: int|
        0 <= i < chunks.len() ==> {
            let c = #[trigger] chunks[i];
            &&& 0 <= c.x_offset
            &&& 0 <= c.width
            &&& c.x_offset + c.width <= x
            &&& c.x_offset + c.width <= chunks.last().x_offset + chunks.last().width
            &&& 0 <= c.font_size <= MAX_FONT_SIZE
            &&& -MAX_FONT_SIZE <= c.y_offset <= MAX_FONT_SIZE
        }
}

/// Sets measured words at the cursor, one after the other.
fn set_chunks(chunks: &mut Vec<WordChunk>, x: i64, items: &Vec<WordItem>) -> (end: i64)
    requires
        items_ok(items_view(items@)),
        0 <= x,
        x + items_total(items_view(items@), items@.len() as int) <= MAX_DRAW_X,
        tab_chunks_ok(chunks_view(old(chunks)@), x as int),
    ensures
        set_items(
            TabState { chunks: chunks_view(old(chunks)@), x: x as int },
            items_view(items@),
            items@.len() as int,
        ) == (TabState { chunks: chunks_view(final(chunks)@), x: end as int }),
        x <= end <= x + items_total(items_view(items@), items@.len() as int),
        tab_chunks_ok(chunks_view(final(chunks)@), end as int),
        final(chunks)@.len() == old(chunks)@.len() + items@.len(),
{
    let ghost all = items_view(items@);
    let ghost start = TabState { chunks: chunks_view(chunks@), x: x as int };
    let mut cur: i64 = x;
    let mut i: usize = 0;
    while i < items.len()
        invariant
            i <= items@.len(),
            all == items_view(items@),
            items_ok(all),
            0 <= x <= cur,
            x + items_total(all, items@.len() as int) <= MAX_DRAW_X,
            cur <= x + items_total(all, i as int),
            set_items(start, all, i as int) == (TabState {
                chunks: chunks_view(chunks@),
                x: cur as int,
            }),
            tab_chunks_ok(chunks_view(chunks@), cur as int),
            chunks@.len() == old(chunks)@.len() + i,
        decreases items.len() - i,
    {
        let item = &items[i];
        proof {
            lemma_items_total_monotonic(all, i as int + 1, items@.len() as int);
        }
        let at = if chunks.len() > 0 && item.spaced {
            cur + item.gap
        } else {
            cur
        };
        let chunk = WordChunk {
            pdf_font: item.chunk.pdf_font.clone(),
            text: item.chunk.text.clone(),
            font_size: item.chunk.font_size,
            color: item.chunk.color,
            x_offset: at,
            width: item.chunk.width,
            underline: item.chunk.underline,
            strikethrough: item.chunk.strikethrough,
            y_offset: item.chunk.y_offset,
        };
        let ghost before = chunks_view(chunks@);
        proof {
            assert(chunks_view(chunks@.push(chunk)) =~= before.push(chunk@));
        }
        chunks.push(chunk);
        cur = at + item.chunk.width;
        proof {
            let after = chunks_view(chunks@);
            assert forall|k: int| 0 <= k < after.len() implies {
                let c = #[trigger] after[k];
                &&& 0 <= c.x_offset
                &&& 0 <= c.width
                &&& c.x_offset + c.width <= cur
                &&& c.x_offset + c.width <= after.last().x_offset + after.last().width
                &&& 0 <= c.font_size <= MAX_FONT_SIZE
                &&& -MAX_FONT_SIZE <= c.y_offset <= MAX_FONT_SIZE
            } by {
                if k < before.len() {
                    assert(after[k] == before[k]);
                }
            }
        }
        i += 1;
    }
    cur
}

/// Sets a paragraph that holds tabs on one line.
///
/// The runs between two tabs form a segment. The first segment starts at
/// offset zero. A tab moves the cursor to the next stop, and the segment
/// after it is placed by the stop's alignment; a leader fills the gap before
/// it where the stop has one. Within a segment the words follow one another,
/// separated by a space where the text has whitespace between them.
pub fn build_tabbed_line(
    runs: &Vec<Run>,
    seen_fonts: &FontTable,
    tab_stops: &Vec<TabStop>,
    indent_left: i64,
) -> (lines: Vec<TextLine>)
    requires
        seen_fonts.wf(),
        runs_wf(runs@),
        seen_fonts.covers(runs@),
        tab_stops_wf(tab_stops@),
        -MAX_COORD <= indent_left <= MAX_COORD,
    ensures
        lines_view(lines@) == seq![
            tabbed_line(runs@, *seen_fonts, tab_stops@, indent_left as int),
        ],
        lines_drawable(lines_view(lines@)),
        lines@.len() == 1,
        forall|i: int|
            0 <= i < lines@[0].chunks@.len() ==> (#[trigger] lines@[0].chunks@[i]).x_offset
                + lines@[0].chunks@[i].width <= lines@[0].total_width,
{
    let mut chunks: Vec<WordChunk> = Vec::new();
    let mut x: i64 = 0;
    let mut a: usize = 0;
    let mut first = true;
    let ghost goal = tabbed(
        TabState { chunks: Seq::empty(), x: 0 },
        runs@,
        *seen_fonts,
        tab_stops@,
        indent_left as int,
        0,
        true,
    );
    proof {
        assert(chunks_view(chunks@) =~= Seq::<ChunkView>::empty());
    }
    loop
        invariant_except_break
            a <= runs@.len(),
            goal == tabbed(
                TabState { chunks: chunks_view(chunks@), x: x as int },
                runs@,
                *seen_fonts,
                tab_stops@,
                indent_left as int,
                a as int,
                first,
            ),
            0 <= x <= 2_000_000_000 + (total_chars(runs@, a as int) + a) * 300_000_000,
            chunks@.len() <= total_chars(runs@, a as int) + a,
        invariant
            seen_fonts.wf(),
            runs_wf(runs@),
            seen_fonts.covers(runs@),
            tab_stops_wf(tab_stops@),
            -MAX_COORD <= indent_left <= MAX_COORD,
            tab_chunks_ok(chunks_view(chunks@), x as int),
        ensures
            goal == (TabState { chunks: chunks_view(chunks@), x: x as int }),
            0 <= x <= MAX_DRAW_X,
            chunks@.len() <= 2_000_000_000,
        decreases runs@.len() - a,
    {
        let b = next_tab_index(runs, a);
        let items = measure_segment(runs, a, b, seen_fonts);
        let ghost st = TabState { chunks: chunks_view(chunks@), x: x as int };
        proof {
            lemma_items_total_nonneg(items_view(items@), items@.len() as int);
            lemma_segment_total(runs@, a as int, b as int);
            lemma_segment_total(runs@, 0, a as int);
            let before = total_chars(runs@, a as int) + a;
            let own = segment_chars(runs@, a as int, b as int) + (b - a);
            assert(before * 300_000_000 <= 301_000_000_000_000_000 && 2_000_000_000 + before
                * 300_000_000 + 36_000 + own * 200_000_000 <= 2_000_000_000 + (before + own + 1)
                * 300_000_000 <= 2_000_000_000 + 302_000_000_000_000_000) by (nonlinear_arith)
                requires
                    0 <= before,
                    0 <= own,
                    before + own <= 1_000_000 + 1_000_000_000,
            ;
            if b < runs@.len() {
                lemma_total_chars_monotonic(runs@, b as int, b as int + 1);
            }
        }
        if !first {
            let stop = find_next_tab_stop(x, tab_stops, indent_left);
            let tab_target = stop.position - indent_left;
            let start = match stop.alignment {
                TabAlignment::Left => max_i64(tab_target, x),
                TabAlignment::Center => {
                    let sw = items_width_of(&items);
                    max_i64(tab_target - floor_div(sw, 2), x)
                },
                TabAlignment::Right => {
                    let sw = items_width_of(&items);
                    max_i64(tab_target - sw, x)
                },
                TabAlignment::Decimal => {
                    let bw = decimal_before_width(runs, a, b, seen_fonts);
                    assert(segment_chars(runs@, a as int, b as int) * 200_000_000 <= 1_000_000
                        * 200_000_000) by (nonlinear_arith)
                        requires
                            segment_chars(runs@, a as int, b as int) <= 1_000_000,
                    ;
                    max_i64(tab_target - bw, x)
                },
            };
            let mut made: Option<WordChunk> = None;
            if let Some(ch) = stop.leader {
                let from = if a < b {
                    Some(a)
                } else {
                    find_last_text_run(runs, a)
                };
                if let Some(r) = from {
                    let run = &runs[r];
                    let idx = seen_fonts.find(run).unwrap();
                    made = make_leader(run, &seen_fonts.entries[idx], ch, x, start);
                }
            }
            match made {
                Some(c) => {
                    chunks.push(c);
                },
                None => {},
            }
            proof {
                let moved = after_tab(
                    st,
                    runs@,
                    *seen_fonts,
                    tab_stops@,
                    indent_left as int,
                    a as int,
                    b as int,
                );
                assert(moved.chunks == chunks_view(chunks@));
            }
            x = start;
        }
        x = set_chunks(&mut chunks, x, &items);
        if b >= runs.len() {
            break ;
        }
        a = b + 1;
        first = false;
    }
    let total_width = if chunks.len() > 0 {
        let last = &chunks[chunks.len() - 1];
        last.x_offset + last.width
    } else {
        0
    };
    let line = TextLine { chunks, total_width };
    let mut lines: Vec<TextLine> = Vec::new();
    lines.push(line);
    proof {
        assert forall|i: int| 0 <= i < lines@[0].chunks@.len() implies (
        #[trigger] lines@[0].chunks@[i]).x_offset + lines@[0].chunks@[i].width
            <= lines@[0].total_width by {
            assert(lines@[0]@.chunks[i] == lines@[0].chunks@[i]@);
        }
    }
    lines
}

} // verus!
