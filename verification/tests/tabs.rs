use docxside_pdf::fonts::{FontEntry, FontTable};
use docxside_pdf::model::{Run, TabAlignment, TabStop, VertAlign};
use docxside_pdf::tabs::{
    build_tabbed_line, decimal_before_width, find_next_tab_stop, segment_width,
};

fn fonts() -> FontTable {
    FontTable {
        keys: vec!["Test".to_string()],
        entries: vec![FontEntry {
            pdf_name: "F1".to_string(),
            font_ref: 3,
            widths_1000: vec![500; 224],
            line_h_ratio: None,
            ascender_ratio: None,
        }],
    }
}

fn run(text: &str) -> Run {
    Run {
        text: text.to_string(),
        font_size: 10_000,
        font_name: "Test".to_string(),
        bold: false,
        italic: false,
        underline: false,
        strikethrough: false,
        color: None,
        is_tab: false,
        vertical_align: VertAlign::Baseline,
        field_code: None,
    }
}

fn tab() -> Run {
    let mut r = run("");
    r.is_tab = true;
    r
}

fn stop(position: i64, alignment: TabAlignment, leader: Option<char>) -> TabStop {
    TabStop { position, alignment, leader }
}

#[test]
fn default_stop_is_the_next_multiple_of_half_an_inch() {
    let s = find_next_tab_stop(0, &vec![], 0);
    assert_eq!(s.position, 36_000);
    assert_eq!(s.alignment, TabAlignment::Left);
    assert_eq!(s.leader, None);
    assert_eq!(find_next_tab_stop(36_000, &vec![], 0).position, 72_000);
    assert_eq!(find_next_tab_stop(35_999, &vec![], 0).position, 36_000);
    assert_eq!(find_next_tab_stop(10_000, &vec![], 30_000).position, 72_000);
}

#[test]
fn configured_stop_has_to_lie_beyond_the_cursor() {
    let stops = vec![stop(50_000, TabAlignment::Right, Some('.')), stop(90_000, TabAlignment::Center, None)];
    let s = find_next_tab_stop(0, &stops, 0);
    assert_eq!(s.position, 50_000);
    assert_eq!(s.alignment, TabAlignment::Right);
    assert_eq!(s.leader, Some('.'));
    // Half a point short of the stop the stop no longer counts.
    assert_eq!(find_next_tab_stop(49_500, &stops, 0).position, 90_000);
    assert_eq!(find_next_tab_stop(49_499, &stops, 0).position, 50_000);
    assert_eq!(find_next_tab_stop(90_000, &stops, 0).position, 108_000);
}

#[test]
fn segment_width_counts_a_space_before_every_word_but_the_first() {
    let runs = vec![run("ab"), run("cd ef")];
    assert_eq!(segment_width(&runs, 0, 2, &fonts()), 10_000 + 5_000 + 10_000 + 5_000 + 10_000);
    assert_eq!(segment_width(&runs, 0, 0, &fonts()), 0);
}

#[test]
fn width_before_the_decimal_point() {
    let runs = vec![run("12"), run("3.45")];
    assert_eq!(decimal_before_width(&runs, 0, 2, &fonts()), 15_000);
    assert_eq!(decimal_before_width(&vec![run("1234")], 0, 1, &fonts()), 20_000);
    assert_eq!(decimal_before_width(&vec![run(".5")], 0, 1, &fonts()), 0);
}

#[test]
fn left_tab_moves_to_the_stop() {
    let runs = vec![run("ab"), tab(), run("cd")];
    let lines = build_tabbed_line(&runs, &fonts(), &vec![], 0);
    assert_eq!(lines.len(), 1);
    let chunks = &lines[0].chunks;
    assert_eq!(chunks.len(), 2);
    assert_eq!(chunks[0].x_offset, 0);
    assert_eq!(chunks[1].text, "cd");
    assert_eq!(chunks[1].x_offset, 36_000);
    assert_eq!(lines[0].total_width, 46_000);
}

#[test]
fn stops_are_measured_from_the_margin() {
    let runs = vec![run("ab"), tab(), run("cd")];
    let lines = build_tabbed_line(&runs, &fonts(), &vec![], 20_000);
    // The cursor is at 10pt from the indent, 30pt from the margin; the next
    // default stop is at 36pt from the margin, 16pt from the indent.
    assert_eq!(lines[0].chunks[1].x_offset, 16_000);
}

#[test]
fn right_centre_and_decimal_tabs() {
    let runs = vec![run("ab"), tab(), run("12.5")];
    let right = build_tabbed_line(&runs, &fonts(), &vec![stop(100_000, TabAlignment::Right, None)], 0);
    assert_eq!(right[0].chunks[1].x_offset, 80_000);
    let centre = build_tabbed_line(&runs, &fonts(), &vec![stop(100_000, TabAlignment::Center, None)], 0);
    assert_eq!(centre[0].chunks[1].x_offset, 90_000);
    let decimal = build_tabbed_line(&runs, &fonts(), &vec![stop(100_000, TabAlignment::Decimal, None)], 0);
    assert_eq!(decimal[0].chunks[1].x_offset, 90_000);
}

#[test]
fn a_segment_never_starts_before_the_cursor() {
    let runs = vec![run("abcdefghij"), tab(), run("0123456789")];
    let lines = build_tabbed_line(&runs, &fonts(), &vec![stop(60_000, TabAlignment::Right, None)], 0);
    assert_eq!(lines[0].chunks[1].x_offset, 50_000);
}

#[test]
fn leader_fills_the_gap() {
    let runs = vec![run("ab"), tab(), run("cd")];
    let lines = build_tabbed_line(&runs, &fonts(), &vec![stop(100_000, TabAlignment::Right, Some('.'))], 0);
    let chunks = &lines[0].chunks;
    assert_eq!(chunks.len(), 3);
    assert_eq!(chunks[1].text, "...............");
    assert_eq!(chunks[1].width, 75_000);
    assert_eq!(chunks[1].x_offset, 15_000);
    assert!(!chunks[1].underline);
    assert_eq!(chunks[2].x_offset, 90_000);
    assert_eq!(lines[0].total_width, 100_000);
}

#[test]
fn no_leader_in_a_narrow_gap() {
    let runs = vec![run("ab"), tab(), run("cd")];
    // The gap from 10pt to 20pt is exactly two characters wide: too narrow.
    let lines = build_tabbed_line(&runs, &fonts(), &vec![stop(20_000, TabAlignment::Left, Some('.'))], 0);
    assert_eq!(lines[0].chunks.len(), 2);
    let wider = build_tabbed_line(&runs, &fonts(), &vec![stop(20_001, TabAlignment::Left, Some('.'))], 0);
    assert_eq!(wider[0].chunks.len(), 3);
    assert_eq!(wider[0].chunks[1].text, ".");
    assert_eq!(wider[0].chunks[1].x_offset, 15_001);
}

#[test]
fn trailing_tab_and_empty_segments() {
    let runs = vec![tab(), run("a"), tab()];
    let lines = build_tabbed_line(&runs, &fonts(), &vec![], 0);
    assert_eq!(lines[0].chunks.len(), 1);
    assert_eq!(lines[0].chunks[0].x_offset, 36_000);
    assert_eq!(lines[0].total_width, 41_000);
    let only = build_tabbed_line(&vec![tab()], &fonts(), &vec![], 0);
    assert_eq!(only.len(), 1);
    assert_eq!(only[0].chunks.len(), 0);
    assert_eq!(only[0].total_width, 0);
}

#[test]
fn words_within_a_segment() {
    let runs = vec![tab(), run("a b"), run("c"), run(" d")];
    let lines = build_tabbed_line(&runs, &fonts(), &vec![], 0);
    let xs: Vec<i64> = lines[0].chunks.iter().map(|c| c.x_offset).collect();
    assert_eq!(xs, vec![36_000, 46_000, 51_000, 61_000]);
}
