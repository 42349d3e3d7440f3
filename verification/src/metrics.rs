//! Vertical metrics of a paragraph: which run sets the line height and the
//! baseline, and how tall a line is.

use crate::fonts::FontTable;
use crate::model::{runs_wf, Run};
use crate::units::{lemma_mul_div_range, scale, scaled, MAX_FONT_SIZE, MAX_RATIO};
use vstd::prelude::*;

verus! {

/// The font size of text whose size nothing states: twelve points.
pub const DEFAULT_FONT_SIZE: i64 = 12_000;

/// The ascender ratio of a font whose metrics are not known.
pub const DEFAULT_ASCENDER_RATIO: i64 = 750;

/// The line-height ratio of a font whose metrics are not known.
pub const DEFAULT_LINE_RATIO: i64 = 1200;

/// The line height of text whose size nothing states.
pub const DEFAULT_LINE_HEIGHT: i64 = 14_400;

/// Tallest line.
pub const MAX_LINE_HEIGHT: i64 = 200_000_000;

/// The size and the ratios of the run that a paragraph's lines are set by.
#[derive(Clone, Copy, Debug)]
pub struct RunMetrics {
    pub font_size: i64,
    pub line_h_ratio: Option<i64>,
    pub ascender_ratio: Option<i64>,
}

/// The line-height ratio of the font a run is set in, if the font is
/// registered and its metrics are known.
pub open spec fn line_ratio_of(fonts: FontTable, run: Run) -> Option<i64> {
    match fonts.entry_of(run) {
        Some(i) => fonts.entries@[i].line_h_ratio,
        None => None,
    }
}

/// The ascender ratio of the font a run is set in, if the font is registered
/// and its metrics are known.
pub open spec fn ascender_ratio_of(fonts: FontTable, run: Run) -> Option<i64> {
    match fonts.entry_of(run) {
        Some(i) => fonts.entries@[i].ascender_ratio,
        None => None,
    }
}

pub open spec fn ratio_or(r: Option<i64>, default: int) -> int {
    match r {
        Some(v) => v as int,
        None => default,
    }
}

/// The visual ascent of a run: its size times its font's ascender ratio.
pub open spec fn visual_ascent(fonts: FontTable, run: Run) -> int {
    run.font_size * ratio_or(ascender_ratio_of(fonts, run), DEFAULT_ASCENDER_RATIO as int)
}

pub open spec fn metrics_of(fonts: FontTable, run: Run) -> RunMetrics {
    RunMetrics {
        font_size: run.font_size,
        line_h_ratio: line_ratio_of(fonts, run),
        ascender_ratio: ascender_ratio_of(fonts, run),
    }
}

/// The size a paragraph is set at where none of its runs has an ascent: that
/// of its first run, or the default.
pub open spec fn first_size(runs: Seq<Run>) -> i64 {
    if runs.len() > 0 {
        runs[0].font_size
    } else {
        DEFAULT_FONT_SIZE
    }
}

/// The largest visual ascent among the first `n` runs, and zero if none is
/// positive.
pub open spec fn tallest_ascent(runs: Seq<Run>, fonts: FontTable, n: int) -> int
    decreases n,
{
    if n <= 0 {
        0
    } else {
        let before = tallest_ascent(runs, fonts, n - 1);
        let a = visual_ascent(fonts, runs[n - 1]);
        if a > before {
            a
        } else {
            before
        }
    }
}

/// The metrics of the first among the first `n` runs that has the largest
/// visual ascent; where no run has a positive ascent, the first run's size
/// and no ratios.
pub open spec fn tallest(runs: Seq<Run>, fonts: FontTable, n: int) -> RunMetrics
    decreases n,
{
    if n <= 0 {
        RunMetrics { font_size: first_size(runs), line_h_ratio: None, ascender_ratio: None }
    } else if visual_ascent(fonts, runs[n - 1]) > tallest_ascent(runs, fonts, n - 1) {
        metrics_of(fonts, runs[n - 1])
    } else {
        tallest(runs, fonts, n - 1)
    }
}

pub open spec fn metrics_ok(m: RunMetrics) -> bool {
    &&& 0 <= m.font_size <= MAX_FONT_SIZE
    &&& (m.line_h_ratio matches Some(r) ==> 0 <= r <= MAX_RATIO)
    &&& (m.ascender_ratio matches Some(r) ==> -MAX_RATIO <= r <= MAX_RATIO)
}

/// The metrics of the run with the tallest visual ascent.
pub fn tallest_run_metrics(runs: &Vec<Run>, seen_fonts: &FontTable) -> (m: RunMetrics)
    requires
        seen_fonts.wf(),
        runs_wf(runs@),
    ensures
        m == tallest(runs@, *seen_fonts, runs@.len() as int),
        metrics_ok(m),
{
    let mut best = RunMetrics {
        font_size: if runs.len() > 0 {
            runs[0].font_size
        } else {
            DEFAULT_FONT_SIZE
        },
        line_h_ratio: None,
        ascender_ratio: None,
    };
    let mut best_ascent: i64 = 0;
    let mut i: usize = 0;
    while i < runs.len()
        invariant
            i <= runs@.len(),
            seen_fonts.wf(),
            runs_wf(runs@),
            best == tallest(runs@, *seen_fonts, i as int),
            best_ascent == tallest_ascent(runs@, *seen_fonts, i as int),
            0 <= best_ascent <= MAX_FONT_SIZE * MAX_RATIO,
            metrics_ok(best),
        decreases runs.len() - i,
    {
        let run = &runs[i];
        let found = seen_fonts.find(run);
        let (lhr, ar) = match found {
            Some(idx) => (seen_fonts.entries[idx].line_h_ratio, seen_fonts.entries[idx].ascender_ratio),
            None => (None, None),
        };
        let ratio = match ar {
            Some(v) => v,
            None => DEFAULT_ASCENDER_RATIO,
        };
        proof {
            lemma_mul_div_range(
                run.font_size as int,
                ratio as int,
                1,
                MAX_FONT_SIZE as int,
                MAX_RATIO as int,
            );
        }
        let ascent = run.font_size * ratio;
        if ascent > best_ascent {
            best_ascent = ascent;
            best = RunMetrics { font_size: run.font_size, line_h_ratio: lhr, ascender_ratio: ar };
        }
        i += 1;
    }
    best
}

/// The line-height ratio of a paragraph's first run.
pub open spec fn first_line_ratio(runs: Seq<Run>, fonts: FontTable) -> Option<i64> {
    if runs.len() > 0 {
        line_ratio_of(fonts, runs[0])
    } else {
        None
    }
}

/// The ascender ratio of a paragraph's first run.
pub open spec fn first_ascender_ratio(runs: Seq<Run>, fonts: FontTable) -> Option<i64> {
    if runs.len() > 0 {
        ascender_ratio_of(fonts, runs[0])
    } else {
        None
    }
}

/// The size and the ratios of a paragraph's first run.
pub fn font_metric(runs: &Vec<Run>, seen_fonts: &FontTable) -> (m: RunMetrics)
    requires
        seen_fonts.wf(),
        runs_wf(runs@),
    ensures
        m.font_size == first_size(runs@),
        m.line_h_ratio == first_line_ratio(runs@, *seen_fonts),
        m.ascender_ratio == first_ascender_ratio(runs@, *seen_fonts),
        metrics_ok(m),
{
    if runs.len() > 0 {
        let run = &runs[0];
        match seen_fonts.find(run) {
            Some(idx) => RunMetrics {
                font_size: run.font_size,
                line_h_ratio: seen_fonts.entries[idx].line_h_ratio,
                ascender_ratio: seen_fonts.entries[idx].ascender_ratio,
            },
            None => RunMetrics { font_size: run.font_size, line_h_ratio: None, ascender_ratio: None },
        }
    } else {
        RunMetrics { font_size: DEFAULT_FONT_SIZE, line_h_ratio: None, ascender_ratio: None }
    }
}

/// The height of a line: the font size times the line-height ratio times the
/// line spacing; twelve tenths of the font size where the ratio is not known.
pub open spec fn line_height(font_size: int, ratio: Option<i64>, spacing: int) -> int {
    match ratio {
        Some(r) => scaled(scaled(font_size, r as int), spacing),
        None => scaled(font_size, DEFAULT_LINE_RATIO as int),
    }
}

/// The height of a paragraph's first line, which takes no line spacing: the
/// font size times the line-height ratio, or `fallback` thousandths of the
/// font size where the ratio is not known.
pub open spec fn first_line_height(font_size: int, ratio: Option<i64>, fallback: int) -> int {
    match ratio {
        Some(r) => scaled(font_size, r as int),
        None => scaled(font_size, fallback),
    }
}

/// The distance from the top of a line to its baseline.
pub open spec fn ascent(font_size: int, ratio: Option<i64>) -> int {
    scaled(font_size, ratio_or(ratio, DEFAULT_ASCENDER_RATIO as int))
}

pub proof fn lemma_scaled_range(x: int, r: int, xm: int, rm: int)
    by (nonlinear_arith)
    requires
        0 <= x <= xm,
        -rm <= r <= rm,
    ensures
        -(xm * rm) / 1000 - 1 <= scaled(x, r) <= (xm * rm) / 1000,
        r >= 0 ==> 0 <= scaled(x, r),
{
}

pub fn line_height_of(font_size: i64, ratio: Option<i64>, spacing: i64) -> (h: i64)
    requires
        0 <= font_size <= MAX_FONT_SIZE,
        ratio matches Some(r) ==> 0 <= r <= MAX_RATIO,
        0 <= spacing <= MAX_RATIO,
    ensures
        h == line_height(font_size as int, ratio, spacing as int),
        0 <= h <= MAX_LINE_HEIGHT,
{
    match ratio {
        Some(r) => {
            proof {
                lemma_scaled_range(
                    font_size as int,
                    r as int,
                    MAX_FONT_SIZE as int,
                    MAX_RATIO as int,
                );
                lemma_scaled_range(
                    scaled(font_size as int, r as int),
                    spacing as int,
                    20_000_000,
                    MAX_RATIO as int,
                );
            }
            scale(scale(font_size, r), spacing)
        },
        None => {
            proof {
                lemma_scaled_range(font_size as int, 1200, MAX_FONT_SIZE as int, 1200);
            }
            scale(font_size, DEFAULT_LINE_RATIO)
        },
    }
}

pub fn first_line_height_of(font_size: i64, ratio: Option<i64>, fallback: i64) -> (h: i64)
    requires
        0 <= font_size <= MAX_FONT_SIZE,
        ratio matches Some(r) ==> 0 <= r <= MAX_RATIO,
        0 <= fallback <= MAX_RATIO,
    ensures
        h == first_line_height(font_size as int, ratio, fallback as int),
        0 <= h <= 20_000_000,
{
    let r = match ratio {
        Some(r) => r,
        None => fallback,
    };
    proof {
        lemma_scaled_range(font_size as int, r as int, MAX_FONT_SIZE as int, MAX_RATIO as int);
    }
    scale(font_size, r)
}

pub fn ascent_of(font_size: i64, ratio: Option<i64>) -> (a: i64)
    requires
        0 <= font_size <= MAX_FONT_SIZE,
        ratio matches Some(r) ==> -MAX_RATIO <= r <= MAX_RATIO,
    ensures
        a == ascent(font_size as int, ratio),
        -20_000_001 <= a <= 20_000_000,
{
    let r = match ratio {
        Some(r) => r,
        None => DEFAULT_ASCENDER_RATIO,
    };
    proof {
        lemma_scaled_range(font_size as int, r as int, MAX_FONT_SIZE as int, MAX_RATIO as int);
    }
    scale(font_size, r)
}

} // verus!
