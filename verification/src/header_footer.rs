//! Headers and footers.
//!
//! They are laid over the finished pages, once the number of pages is known.
//! A run that is a field shows the number of its page or the number of pages
//! in place of its text; nothing else of the run changes.

use crate::content::RunView;
use crate::draw::{ops_view, paragraph_ops, render_paragraph_lines, DrawOp, DrawOpView, LineSetting};
use crate::flow::{build_paragraph_lines, paragraph_lines};
use crate::fonts::FontTable;
use crate::metrics::{
    ascent, ascent_of, first_line_ratio, font_metric, lemma_scaled_range, line_height,
    line_height_of, ratio_or, tallest, tallest_run_metrics, DEFAULT_ASCENDER_RATIO,
};
use crate::model::{
    lemma_total_chars_monotonic, runs_wf, total_chars, Document, FieldCode, HeaderFooter,
    Paragraph, Run,
};
use crate::number::{decimal_digits, decimal_string, lemma_digits_len_u64};
use crate::pagination::text_area_width;
use crate::table::{paragraphs_covered, spacing_of};
use crate::units::{scale, scaled, MAX_FONT_SIZE, MAX_PARA_CHARS, MAX_RATIO};
use vstd::prelude::*;

verus! {

/// Most characters that a field's text can have.
pub const FIELD_CHARS: usize = 20;

/// The text that a run shows on page `page` of `total`.
pub open spec fn field_text(run: Run, page: nat, total: nat) -> Seq<char> {
    match run.field_code {
        Some(FieldCode::Page) => decimal_digits(page),
        Some(FieldCode::NumPages) => decimal_digits(total),
        None => run.text@,
    }
}

/// Whether `out` is `run` with its field resolved: the text is the field's
/// value, a field is no tab, and every other attribute is that of `run`.
pub open spec fn run_resolved(out: Run, run: Run, page: nat, total: nat) -> bool {
    &&& out.text@ == field_text(run, page, total)
    &&& out.font_size == run.font_size
    &&& out.font_name@ == run.font_name@
    &&& out.bold == run.bold
    &&& out.italic == run.italic
    &&& out.underline == run.underline
    &&& out.strikethrough == run.strikethrough
    &&& out.color == run.color
    &&& out.vertical_align == run.vertical_align
    &&& out.is_tab == (run.field_code is None && run.is_tab)
    &&& out.field_code is None
}

/// A resolved field shows the number of the page, or the number of pages,
/// in decimal digits, and keeps every other attribute of its run: a page
/// field on page three shows `3`, and a field for the number of pages of a
/// document of seven pages shows `7`.
pub proof fn lemma_field_shows_number(out: Run, run: Run, page: nat, total: nat)
    requires
        run_resolved(out, run, page, total),
    ensures
        out@ == (RunView {
            text: field_text(run, page, total),
            is_tab: run.field_code is None && run.is_tab,
            field_code: None,
            ..run@
        }),
        run.field_code == Some(FieldCode::Page) ==> out.text@ == decimal_digits(page),
        run.field_code == Some(FieldCode::NumPages) ==> out.text@ == decimal_digits(total),
        run.field_code is None ==> out.text@ == run.text@,
        run.field_code == Some(FieldCode::Page) && page == 3 ==> out.text@ == seq!['3'],
        run.field_code == Some(FieldCode::NumPages) && total == 7 ==> out.text@ == seq!['7'],
{
    assert(decimal_digits(3) =~= seq!['3']);
    assert(decimal_digits(7) =~= seq!['7']);
}

pub open spec fn runs_resolved(out: Seq<Run>, runs: Seq<Run>, page: nat, total: nat) -> bool {
    &&& out.len() == runs.len()
    &&& forall|i: int| 0 <= i < runs.len() ==> run_resolved(#[trigger] out[i], runs[i], page, total)
}

/// Whether the runs leave room for the text of their fields.
pub open spec fn field_room(runs: Seq<Run>) -> bool {
    total_chars(runs, runs.len() as int) + FIELD_CHARS * runs.len() <= MAX_PARA_CHARS
}

/// Resolves the field of one run.
pub fn resolve_run(run: &Run, page_num: usize, total_pages: usize) -> (out: Run)
    ensures
        run_resolved(out, *run, page_num as nat, total_pages as nat),
{
    let (text, is_tab) = match run.field_code {
        Some(FieldCode::Page) => (decimal_string(page_num as u64), false),
        Some(FieldCode::NumPages) => (decimal_string(total_pages as u64), false),
        None => (run.text.clone(), run.is_tab),
    };
    Run {
        text,
        font_size: run.font_size,
        font_name: run.font_name.clone(),
        bold: run.bold,
        italic: run.italic,
        underline: run.underline,
        strikethrough: run.strikethrough,
        color: run.color,
        is_tab,
        vertical_align: run.vertical_align,
        field_code: None,
    }
}

/// Resolves the fields of the runs of a paragraph.
pub fn resolve_fields(runs: &Vec<Run>, page_num: usize, total_pages: usize) -> (out: Vec<Run>)
    ensures
        runs_resolved(out@, runs@, page_num as nat, total_pages as nat),
        runs_wf(runs@) && field_room(runs@) ==> runs_wf(out@),
{
    let mut out: Vec<Run> = Vec::new();
    let mut i: usize = 0;
    while i < runs.len()
        invariant
            i <= runs@.len(),
            out@.len() == i,
            forall|k: int|
                0 <= k < i ==> run_resolved(
                    #[trigger] out@[k],
                    runs@[k],
                    page_num as nat,
                    total_pages as nat,
                ),
            total_chars(out@, i as int) <= total_chars(runs@, i as int) + FIELD_CHARS * i,
        decreases runs.len() - i,
    {
        let r = resolve_run(&runs[i], page_num, total_pages);
        proof {
            lemma_digits_len_u64(page_num as u64);
            lemma_digits_len_u64(total_pages as u64);
            let before = out@;
            let after = before.push(r);
            lemma_total_chars_prefix(before, after, i as int);
        }
        out.push(r);
        i += 1;
    }
    proof {
        if runs_wf(runs@) && field_room(runs@) {
            assert forall|k: int| 0 <= k < out@.len() implies (#[trigger] out@[k]).wf() by {
                lemma_digits_len_u64(page_num as u64);
                lemma_digits_len_u64(total_pages as u64);
            }
        }
    }
    out
}

/// The characters of the first runs do not depend on the runs after them.
pub proof fn lemma_total_chars_prefix(a: Seq<Run>, b: Seq<Run>, n: int)
    requires
        0 <= n <= a.len(),
        n <= b.len(),
        forall|k: int| 0 <= k < n ==> a[k] == b[k],
    ensures
        total_chars(a, n) == total_chars(b, n),
    decreases n,
{
    if n > 0 {
        lemma_total_chars_prefix(a, b, n - 1);
    }
}

/// Resolving fields keeps the font of every run.
pub proof fn lemma_resolved_covered(fonts: FontTable, out: Seq<Run>, runs: Seq<Run>, page: nat, total: nat)
    requires
        runs_resolved(out, runs, page, total),
        fonts.covers_all(runs),
    ensures
        fonts.covers_all(out),
        fonts.covers(out),
{
}

/// How the lines of a header or footer paragraph are set: between the
/// margins, with the first baseline below the header margin by the ascent,
/// or above the footer margin by what is left of the font size.
pub open spec fn hf_setting(
    doc: Document,
    fonts: FontTable,
    para: Paragraph,
    runs: Seq<Run>,
    is_header: bool,
) -> LineSetting {
    let m = tallest(runs, fonts, runs.len() as int);
    LineSetting {
        alignment: para.alignment,
        left: doc.margin_left as int,
        available: text_area_width(doc),
        first_baseline: if is_header {
            doc.page_height - doc.header_margin - ascent(m.font_size as int, m.ascender_ratio)
        } else {
            doc.footer_margin + scaled(
                m.font_size as int,
                1000 - ratio_or(m.ascender_ratio, DEFAULT_ASCENDER_RATIO as int),
            )
        },
        pitch: line_height(
            m.font_size as int,
            first_line_ratio(runs, fonts),
            spacing_of(para, doc.line_spacing as int),
        ),
        from: 0,
    }
}

/// The instructions for one paragraph of a header or footer, whose runs with
/// their fields resolved are `runs`: none for a paragraph without runs.
pub open spec fn hf_paragraph_ops(
    doc: Document,
    fonts: FontTable,
    para: Paragraph,
    runs: Seq<Run>,
    is_header: bool,
) -> Seq<DrawOpView> {
    if para.runs@.len() == 0 {
        Seq::empty()
    } else {
        let lines = paragraph_lines(runs, fonts, text_area_width(doc));
        paragraph_ops(lines, hf_setting(doc, fonts, para, runs, is_header), lines.len() as int)
    }
}

/// The instructions for the first `n` paragraphs of a header or footer;
/// `resolved[p]` are the runs of paragraph `p` with their fields resolved.
pub open spec fn hf_ops(
    doc: Document,
    fonts: FontTable,
    hf: HeaderFooter,
    resolved: Seq<Seq<Run>>,
    is_header: bool,
    n: int,
) -> Seq<DrawOpView>
    decreases n,
{
    if n <= 0 {
        Seq::empty()
    } else {
        hf_ops(doc, fonts, hf, resolved, is_header, n - 1) + hf_paragraph_ops(
            doc,
            fonts,
            hf.paragraphs@[n - 1],
            resolved[n - 1],
            is_header,
        )
    }
}

/// Whether `resolved` holds the runs of every paragraph with their fields
/// resolved for page `page` of `total`.
pub open spec fn hf_resolved(resolved: Seq<Seq<Run>>, hf: HeaderFooter, page: nat, total: nat) -> bool {
    &&& resolved.len() == hf.paragraphs@.len()
    &&& forall|p: int|
        0 <= p < hf.paragraphs@.len() ==> runs_resolved(
            #[trigger] resolved[p],
            hf.paragraphs@[p].runs@,
            page,
            total,
        )
}

/// Every paragraph leaves room for the text of its fields.
pub open spec fn hf_room(hf: HeaderFooter) -> bool {
    forall|p: int| 0 <= p < hf.paragraphs@.len() ==> field_room((#[trigger] hf.paragraphs@[p]).runs@)
}

pub fn check_room(hf: &HeaderFooter) -> (b: bool)
    requires
        hf.wf(),
    ensures
        b == hf_room(*hf),
{
    let mut p: usize = 0;
    while p < hf.paragraphs.len()
        invariant
            p <= hf.paragraphs@.len(),
            hf.wf(),
            forall|k: int| 0 <= k < p ==> field_room((#[trigger] hf.paragraphs@[k]).runs@),
        decreases hf.paragraphs.len() - p,
    {
        let runs = &hf.paragraphs[p].runs;
        let mut total: usize = 0;
        let mut i: usize = 0;
        while i < runs.len()
            invariant
                i <= runs@.len(),
                runs_wf(runs@),
                total == total_chars(runs@, i as int),
                total <= MAX_PARA_CHARS,
            decreases runs.len() - i,
        {
            proof {
                lemma_total_chars_monotonic(runs@, i as int + 1, runs@.len() as int);
            }
            total = total + runs[i].text.as_str().unicode_len();
            i += 1;
        }
        if runs.len() > MAX_PARA_CHARS / FIELD_CHARS {
            return false;
        }
        if total + FIELD_CHARS * runs.len() > MAX_PARA_CHARS {
            return false;
        }
        p += 1;
    }
    true
}

/// Lays a header or a footer over a page. Every paragraph is set on the same
/// first baseline, with its fields resolved for page `page_num` of
/// `total_pages`.
pub fn render_header_footer(
    content: &mut Vec<DrawOp>,
    hf: &HeaderFooter,
    seen_fonts: &FontTable,
    doc: &Document,
    is_header: bool,
    page_num: usize,
    total_pages: usize,
)
    requires
        doc.has_page(),
        doc.in_bounds(),
        seen_fonts.wf(),
        hf.wf(),
        hf_room(*hf),
        paragraphs_covered(*seen_fonts, hf.paragraphs@),
    ensures
        exists|resolved: Seq<Seq<Run>>|
            hf_resolved(resolved, *hf, page_num as nat, total_pages as nat) && ops_view(
                final(content)@,
            ) == ops_view(old(content)@) + #[trigger] hf_ops(
                *doc,
                *seen_fonts,
                *hf,
                resolved,
                is_header,
                hf.paragraphs@.len() as int,
            ),
{
    let ghost before = ops_view(content@);
    let ghost mut resolved: Seq<Seq<Run>> = Seq::empty();
    let text_width = doc.page_width - doc.margin_left - doc.margin_right;
    let mut p: usize = 0;
    while p < hf.paragraphs.len()
        invariant
            p <= hf.paragraphs@.len(),
            doc.has_page(),
            doc.in_bounds(),
            seen_fonts.wf(),
            hf.wf(),
            hf_room(*hf),
            paragraphs_covered(*seen_fonts, hf.paragraphs@),
            text_width == text_area_width(*doc),
            resolved.len() == p,
            forall|k: int|
                0 <= k < p ==> runs_resolved(
                    #[trigger] resolved[k],
                    hf.paragraphs@[k].runs@,
                    page_num as nat,
                    total_pages as nat,
                ),
            ops_view(content@) == before + hf_ops(
                *doc,
                *seen_fonts,
                *hf,
                resolved,
                is_header,
                p as int,
            ),
        decreases hf.paragraphs.len() - p,
    {
        let para = &hf.paragraphs[p];
        let runs = resolve_fields(&para.runs, page_num, total_pages);
        let ghost old_resolved = resolved;
        proof {
            lemma_resolved_covered(
                *seen_fonts,
                runs@,
                para.runs@,
                page_num as nat,
                total_pages as nat,
            );
            resolved = resolved.push(runs@);
            lemma_hf_ops_prefix(*doc, *seen_fonts, *hf, old_resolved, resolved, is_header, p as int);
        }
        if para.runs.len() > 0 {
            let lines = build_paragraph_lines(&runs, seen_fonts, text_width);
            let m = tallest_run_metrics(&runs, seen_fonts);
            let baseline = if is_header {
                doc.page_height - doc.header_margin - ascent_of(m.font_size, m.ascender_ratio)
            } else {
                let ratio = match m.ascender_ratio {
                    Some(r) => r,
                    None => DEFAULT_ASCENDER_RATIO,
                };
                proof {
                    lemma_scaled_range(
                        m.font_size as int,
                        1000 - ratio,
                        MAX_FONT_SIZE as int,
                        MAX_RATIO + 1000,
                    );
                }
                doc.footer_margin + scale(m.font_size, 1000 - ratio)
            };
            let spacing = match para.line_spacing {
                Some(s) => s,
                None => doc.line_spacing,
            };
            let first = font_metric(&runs, seen_fonts);
            let line_h = line_height_of(m.font_size, first.line_h_ratio, spacing);
            render_paragraph_lines(
                content,
                &lines,
                0,
                lines.len(),
                para.alignment,
                doc.margin_left,
                text_width,
                baseline,
                line_h,
            );
        }
        p += 1;
    }
}

/// The instructions for the first paragraphs do not depend on the runs
/// resolved for the paragraphs after them.
pub proof fn lemma_hf_ops_prefix(
    doc: Document,
    fonts: FontTable,
    hf: HeaderFooter,
    a: Seq<Seq<Run>>,
    b: Seq<Seq<Run>>,
    is_header: bool,
    n: int,
)
    requires
        0 <= n <= a.len(),
        n <= b.len(),
        forall|k: int| 0 <= k < n ==> a[k] == b[k],
    ensures
        hf_ops(doc, fonts, hf, a, is_header, n) == hf_ops(doc, fonts, hf, b, is_header, n),
    decreases n,
{
    if n > 0 {
        lemma_hf_ops_prefix(doc, fonts, hf, a, b, is_header, n - 1);
    }
}

/// Whether two runs say the same: the same text, the same font and the same
/// attributes.
pub open spec fn run_same(a: Run, b: Run) -> bool {
    &&& a.text@ == b.text@
    &&& a.font_size == b.font_size
    &&& a.font_name@ == b.font_name@
    &&& a.bold == b.bold
    &&& a.italic == b.italic
    &&& a.underline == b.underline
    &&& a.strikethrough == b.strikethrough
    &&& a.color == b.color
    &&& a.vertical_align == b.vertical_align
    &&& a.is_tab == b.is_tab
    &&& a.field_code == b.field_code
}

pub open spec fn runs_same(a: Seq<Run>, b: Seq<Run>) -> bool {
    &&& a.len() == b.len()
    &&& forall|i: int| 0 <= i < a.len() ==> run_same(#[trigger] a[i], b[i])
}

/// Runs that say the same are measured alike.
pub proof fn lemma_same_items(a: Seq<Run>, b: Seq<Run>, fonts: FontTable, n: int)
    requires
        runs_same(a, b),
        0 <= n <= a.len(),
    ensures
        crate::flow::para_items(a, fonts, n) == crate::flow::para_items(b, fonts, n),
        crate::flow::carried(a, fonts, n) == crate::flow::carried(b, fonts, n),
    decreases n,
{
    if n > 0 {
        lemma_same_items(a, b, fonts, n - 1);
    }
}

/// Runs that say the same have the same tallest run.
pub proof fn lemma_same_tallest(a: Seq<Run>, b: Seq<Run>, fonts: FontTable, n: int)
    requires
        runs_same(a, b),
        0 <= n <= a.len(),
    ensures
        tallest(a, fonts, n) == tallest(b, fonts, n),
        crate::metrics::tallest_ascent(a, fonts, n) == crate::metrics::tallest_ascent(b, fonts, n),
    decreases n,
{
    if n > 0 {
        lemma_same_tallest(a, b, fonts, n - 1);
    }
}

/// What is laid over a page for a header or footer is the same for all
/// runs that hold the header's or footer's fields resolved: the fields of a
/// page determine the instructions.
pub proof fn lemma_hf_ops_unique(
    doc: Document,
    fonts: FontTable,
    hf: HeaderFooter,
    x: Seq<Seq<Run>>,
    y: Seq<Seq<Run>>,
    is_header: bool,
    page: nat,
    total: nat,
    n: int,
)
    requires
        hf_resolved(x, hf, page, total),
        hf_resolved(y, hf, page, total),
        0 <= n <= hf.paragraphs@.len(),
    ensures
        hf_ops(doc, fonts, hf, x, is_header, n) == hf_ops(doc, fonts, hf, y, is_header, n),
    decreases n,
{
    if n > 0 {
        lemma_hf_ops_unique(doc, fonts, hf, x, y, is_header, page, total, n - 1);
        let a = x[n - 1];
        let b = y[n - 1];
        lemma_same_items(a, b, fonts, a.len() as int);
        lemma_same_tallest(a, b, fonts, a.len() as int);
    }
}

} // verus!
