use docxside_pdf::flow::{build_paragraph_lines, effective_font_size, vert_y_offset};
use docxside_pdf::fonts::{FontEntry, FontTable};
use docxside_pdf::model::{Run, VertAlign};

fn fixed_font(advance: i64) -> FontTable {
    FontTable {
        keys: vec!["Test".to_string(), "Test/B".to_string()],
        entries: vec![
            FontEntry {
                pdf_name: "F1".to_string(),
                font_ref: 3,
                widths_1000: vec![advance; 224],
                line_h_ratio: Some(1200),
                ascender_ratio: Some(800),
            },
            FontEntry {
                pdf_name: "F2".to_string(),
                font_ref: 6,
                widths_1000: vec![advance; 224],
                line_h_ratio: Some(1200),
                ascender_ratio: Some(800),
            },
        ],
    }
}

fn sized(text: &str, bold: bool, font_size: i64) -> Run {
    Run {
        text: text.to_string(),
        font_size,
        font_name: "Test".to_string(),
        bold,
        italic: false,
        underline: false,
        strikethrough: false,
        color: None,
        is_tab: false,
        vertical_align: VertAlign::Baseline,
        field_code: None,
    }
}

fn run(text: &str, bold: bool) -> Run {
    sized(text, bold, 10_000)
}

#[test]
fn empty_runs_give_one_empty_line() {
    let fonts = fixed_font(500);
    let lines = build_paragraph_lines(&vec![], &fonts, 100_000);
    assert_eq!(lines.len(), 1);
    assert_eq!(lines[0].chunks.len(), 0);
    assert_eq!(lines[0].total_width, 0);
}

#[test]
fn whitespace_only_gives_one_empty_line() {
    let fonts = fixed_font(500);
    let lines = build_paragraph_lines(&vec![run("  \t ", false)], &fonts, 100_000);
    assert_eq!(lines.len(), 1);
    assert_eq!(lines[0].chunks.len(), 0);
    assert_eq!(lines[0].total_width, 0);
}

#[test]
fn hello_world_fits_one_line_exactly() {
    // Each glyph is 500/1000 em at 10pt: 5pt. "Hello" and "world" are 25pt
    // each, the space between them 5pt: 55pt in all.
    let fonts = fixed_font(500);
    let runs = vec![run("Hello ", false), run("world", true)];
    let lines = build_paragraph_lines(&runs, &fonts, 55_000);
    assert_eq!(lines.len(), 1);
    assert_eq!(lines[0].chunks.len(), 2);
    assert_eq!(lines[0].chunks[0].text, "Hello");
    assert_eq!(lines[0].chunks[0].x_offset, 0);
    assert_eq!(lines[0].chunks[0].width, 25_000);
    assert_eq!(lines[0].chunks[0].pdf_font, "F1");
    assert_eq!(lines[0].chunks[1].text, "world");
    assert_eq!(lines[0].chunks[1].x_offset, 30_000);
    assert_eq!(lines[0].chunks[1].width, 25_000);
    assert_eq!(lines[0].chunks[1].pdf_font, "F2");
    assert_eq!(lines[0].total_width, 55_000);
}

#[test]
fn one_unit_less_breaks_the_line() {
    let fonts = fixed_font(500);
    let runs = vec![run("Hello ", false), run("world", true)];
    let lines = build_paragraph_lines(&runs, &fonts, 54_999);
    assert_eq!(lines.len(), 2);
    assert_eq!(lines[0].chunks.len(), 1);
    assert_eq!(lines[0].total_width, 25_000);
    assert_eq!(lines[1].chunks.len(), 1);
    assert_eq!(lines[1].chunks[0].text, "world");
    assert_eq!(lines[1].chunks[0].x_offset, 0);
    assert_eq!(lines[1].total_width, 25_000);
}

#[test]
fn words_wrap_greedily() {
    let fonts = fixed_font(500);
    let lines = build_paragraph_lines(&vec![run("aaa bbb ccc", false)], &fonts, 35_000);
    assert_eq!(lines.len(), 2);
    assert_eq!(lines[0].chunks.len(), 2);
    assert_eq!(lines[0].chunks[1].x_offset, 20_000);
    assert_eq!(lines[0].total_width, 35_000);
    assert_eq!(lines[1].chunks.len(), 1);
    assert_eq!(lines[1].chunks[0].text, "ccc");
    assert_eq!(lines[1].chunks[0].x_offset, 0);
}

#[test]
fn no_chunk_overflows_unless_alone() {
    let fonts = fixed_font(500);
    let text = "a bb ccc dddd eeeee ffffff ggggggg hhhhhhhh iiiiiiiii";
    for max_width in [0, 4_999, 5_000, 12_000, 30_000, 45_000, 1_000_000] {
        let lines = build_paragraph_lines(&vec![run(text, false)], &fonts, max_width);
        let mut words = 0;
        for line in &lines {
            assert!(!line.chunks.is_empty());
            for chunk in &line.chunks {
                words += 1;
                assert!(chunk.x_offset + chunk.width <= line.total_width);
                assert!(chunk.x_offset + chunk.width <= max_width || line.chunks.len() == 1);
            }
        }
        assert_eq!(words, 9);
    }
}

#[test]
fn overlong_word_stands_alone() {
    let fonts = fixed_font(500);
    let lines = build_paragraph_lines(&vec![run("aaa bbb", false)], &fonts, 10_000);
    assert_eq!(lines.len(), 2);
    assert_eq!(lines[0].chunks.len(), 1);
    assert_eq!(lines[0].chunks[0].width, 15_000);
    assert_eq!(lines[0].total_width, 15_000);
    assert_eq!(lines[1].chunks.len(), 1);
}

#[test]
fn adjacent_runs_are_not_separated() {
    let fonts = fixed_font(500);
    let runs = vec![run("bold", true), run(", then", false)];
    let lines = build_paragraph_lines(&runs, &fonts, 1_000_000);
    assert_eq!(lines.len(), 1);
    let chunks = &lines[0].chunks;
    assert_eq!(chunks.len(), 3);
    assert_eq!(chunks[0].text, "bold");
    assert_eq!(chunks[1].text, ",");
    assert_eq!(chunks[1].x_offset, 20_000);
    assert_eq!(chunks[2].text, "then");
    assert_eq!(chunks[2].x_offset, 30_000);
}

#[test]
fn leading_space_is_as_wide_as_in_the_run_that_holds_it() {
    let fonts = fixed_font(500);
    let runs = vec![sized("a", false, 10_000), sized(" b", false, 20_000)];
    let lines = build_paragraph_lines(&runs, &fonts, 1_000_000);
    let chunks = &lines[0].chunks;
    assert_eq!(chunks[0].width, 5_000);
    assert_eq!(chunks[1].x_offset, 15_000);
    assert_eq!(chunks[1].width, 10_000);
    assert_eq!(chunks[1].font_size, 20_000);
}

#[test]
fn trailing_space_is_as_wide_as_in_the_run_that_holds_it() {
    let fonts = fixed_font(500);
    let runs = vec![sized("a ", false, 10_000), sized("b", false, 20_000)];
    let lines = build_paragraph_lines(&runs, &fonts, 1_000_000);
    let chunks = &lines[0].chunks;
    assert_eq!(chunks[1].x_offset, 10_000);
}

#[test]
fn tabs_are_passed_over() {
    let fonts = fixed_font(500);
    let mut tab = run("", false);
    tab.is_tab = true;
    tab.font_name = "Unregistered".to_string();
    let runs = vec![run("a", false), tab, run("b", false)];
    let lines = build_paragraph_lines(&runs, &fonts, 1_000_000);
    assert_eq!(lines[0].chunks.len(), 2);
    assert_eq!(lines[0].chunks[1].x_offset, 5_000);
}

#[test]
fn raised_and_lowered_runs() {
    let mut up = run("x", false);
    up.vertical_align = VertAlign::Superscript;
    let mut down = run("x", false);
    down.vertical_align = VertAlign::Subscript;
    let plain = run("x", false);
    assert_eq!(effective_font_size(&up), 5_800);
    assert_eq!(effective_font_size(&down), 5_800);
    assert_eq!(effective_font_size(&plain), 10_000);
    assert_eq!(vert_y_offset(&up), 3_500);
    assert_eq!(vert_y_offset(&down), -1_400);
    assert_eq!(vert_y_offset(&plain), 0);
    let fonts = fixed_font(500);
    let lines = build_paragraph_lines(&vec![up], &fonts, 1_000_000);
    assert_eq!(lines[0].chunks[0].font_size, 5_800);
    assert_eq!(lines[0].chunks[0].width, 2_900);
    assert_eq!(lines[0].chunks[0].y_offset, 3_500);
}

#[test]
fn characters_outside_the_set_take_no_width() {
    let fonts = fixed_font(500);
    let lines = build_paragraph_lines(&vec![run("\u{65e5}\u{672c} a\u{20ac}", false)], &fonts, 1_000_000);
    let chunks = &lines[0].chunks;
    assert_eq!(chunks.len(), 2);
    assert_eq!(chunks[0].width, 0);
    assert_eq!(chunks[1].x_offset, 5_000);
    assert_eq!(chunks[1].width, 10_000);
}

#[test]
fn attributes_come_from_the_run() {
    let fonts = fixed_font(500);
    let mut r = run("word", false);
    r.color = Some([1, 2, 3]);
    r.underline = true;
    r.strikethrough = true;
    let lines = build_paragraph_lines(&vec![r], &fonts, 1_000_000);
    let c = &lines[0].chunks[0];
    assert_eq!(c.color, Some([1, 2, 3]));
    assert!(c.underline);
    assert!(c.strikethrough);
}
