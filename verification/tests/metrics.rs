use docxside_pdf::fonts::{FontEntry, FontTable};
use docxside_pdf::metrics::{
    ascent_of, first_line_height_of, font_metric, line_height_of, tallest_run_metrics,
};
use docxside_pdf::model::{Run, VertAlign};

fn table() -> FontTable {
    let entry = |name: &str, line: Option<i64>, asc: Option<i64>| FontEntry {
        pdf_name: name.to_string(),
        font_ref: 1,
        widths_1000: vec![500; 224],
        line_h_ratio: line,
        ascender_ratio: asc,
    };
    FontTable {
        keys: vec!["Tall".to_string(), "Flat".to_string(), "Generic".to_string()],
        entries: vec![entry("F1", Some(1_300), Some(1_000)), entry("F2", Some(1_100), Some(500)), entry("F3", None, None)],
    }
}

fn run(font: &str, size: i64) -> Run {
    Run {
        text: "x".to_string(),
        font_size: size,
        font_name: font.to_string(),
        bold: false,
        italic: false,
        underline: false,
        strikethrough: false,
        color: None,
        is_tab: false,
        vertical_align: VertAlign::Baseline,
        field_code: None,
    }
}

#[test]
fn the_tallest_ascent_wins_not_the_first_run() {
    let runs = vec![run("Flat", 20_000), run("Tall", 12_000), run("Generic", 14_000)];
    // Ascents: 10pt, 12pt and 10.5pt.
    let m = tallest_run_metrics(&runs, &table());
    assert_eq!(m.font_size, 12_000);
    assert_eq!(m.line_h_ratio, Some(1_300));
    assert_eq!(m.ascender_ratio, Some(1_000));
    let first = font_metric(&runs, &table());
    assert_eq!(first.font_size, 20_000);
    assert_eq!(first.line_h_ratio, Some(1_100));
}

#[test]
fn the_first_of_equal_ascents_wins() {
    let runs = vec![run("Flat", 24_000), run("Tall", 12_000)];
    let m = tallest_run_metrics(&runs, &table());
    assert_eq!(m.font_size, 24_000);
    assert_eq!(m.ascender_ratio, Some(500));
}

#[test]
fn unregistered_and_generic_fonts_count_with_three_quarters() {
    let runs = vec![run("Flat", 10_000), run("Unknown", 8_000)];
    let m = tallest_run_metrics(&runs, &table());
    assert_eq!(m.font_size, 8_000);
    assert_eq!(m.line_h_ratio, None);
    assert_eq!(m.ascender_ratio, None);
}

#[test]
fn without_runs_the_size_is_twelve_points() {
    let m = tallest_run_metrics(&vec![], &table());
    assert_eq!(m.font_size, 12_000);
    assert_eq!(m.line_h_ratio, None);
    assert_eq!(m.ascender_ratio, None);
    assert_eq!(font_metric(&vec![], &table()).font_size, 12_000);
    // Runs without any ascent leave the first run's size.
    let zero = vec![run("Tall", 0), run("Flat", 0)];
    let m = tallest_run_metrics(&zero, &table());
    assert_eq!(m.font_size, 0);
    assert_eq!(m.line_h_ratio, None);
}

#[test]
fn line_heights() {
    assert_eq!(line_height_of(12_000, Some(1_150), 1_158), 15_980);
    assert_eq!(line_height_of(12_000, None, 2_000), 14_400);
    assert_eq!(line_height_of(10_000, Some(1_000), 1_000), 10_000);
    assert_eq!(line_height_of(0, Some(1_000), 1_000), 0);
    assert_eq!(first_line_height_of(12_000, Some(1_150), 1_000), 13_800);
    assert_eq!(first_line_height_of(12_000, None, 1_000), 12_000);
    assert_eq!(first_line_height_of(12_000, None, 1_200), 14_400);
    assert_eq!(ascent_of(12_000, Some(900)), 10_800);
    assert_eq!(ascent_of(12_000, None), 9_000);
    assert_eq!(ascent_of(12_000, Some(-250)), -3_000);
    assert_eq!(ascent_of(1, Some(-1)), -1);
}
