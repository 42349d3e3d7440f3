use docxside_pdf::draw::DrawOp;
use docxside_pdf::error::Error;
use docxside_pdf::fonts::{FontEntry, FontTable};
use docxside_pdf::model::{
    Alignment, Block, BorderBottom, Document, EmbeddedImage, FieldCode, HeaderFooter, Paragraph,
    Run, Table, TableCell, TableRow, VertAlign,
};
use docxside_pdf::render::{check_document, render};

fn fonts() -> FontTable {
    FontTable {
        keys: vec!["Test".to_string()],
        entries: vec![FontEntry {
            pdf_name: "F1".to_string(),
            font_ref: 3,
            widths_1000: vec![500; 224],
            line_h_ratio: None,
            ascender_ratio: None,
        }],
    }
}

fn run(text: &str) -> Run {
    Run {
        text: text.to_string(),
        font_size: 12_000,
        font_name: "Test".to_string(),
        bold: false,
        italic: false,
        underline: false,
        strikethrough: false,
        color: None,
        is_tab: false,
        vertical_align: VertAlign::Baseline,
        field_code: None,
    }
}

fn para(runs: Vec<Run>) -> Paragraph {
    Paragraph {
        runs,
        space_before: 0,
        space_after: 0,
        content_height: 0,
        alignment: Alignment::Left,
        indent_left: 0,
        indent_hanging: 0,
        list_label: String::new(),
        contextual_spacing: false,
        keep_next: false,
        line_spacing: None,
        image: None,
        border_bottom: None,
        page_break_before: false,
        tab_stops: vec![],
    }
}

fn doc(blocks: Vec<Block>) -> Document {
    Document {
        page_width: 612_000,
        page_height: 792_000,
        margin_top: 72_000,
        margin_bottom: 72_000,
        margin_left: 72_000,
        margin_right: 72_000,
        header_margin: 36_000,
        footer_margin: 36_000,
        line_pitch: 14_400,
        line_spacing: 1_000,
        blocks,
        header_default: None,
        header_first: None,
        footer_default: None,
        footer_first: None,
        different_first_page: false,
        embedded_fonts: vec![],
    }
}

fn texts(ops: &[DrawOp]) -> Vec<(String, i64, i64)> {
    let mut out = Vec::new();
    for op in ops {
        if let DrawOp::Text { x, y, bytes, .. } = op {
            out.push((String::from_utf8(bytes.clone()).unwrap(), *x, *y));
        }
    }
    out
}

fn shown(ops: &[DrawOp]) -> Vec<String> {
    ops.iter().map(|op| format!("{:?}", op)).collect()
}

fn reason(r: Result<Vec<Vec<DrawOp>>, Error>) -> String {
    match r {
        Err(Error::Pdf(reason)) => reason,
        Err(e) => panic!("unexpected error {:?}", e),
        Ok(_) => panic!("rendered"),
    }
}

/// A word of forty characters: 240pt wide, so that no two share a line.
fn long_word(c: char) -> String {
    std::iter::repeat(c).take(40).collect()
}

fn five_lines() -> Paragraph {
    let text = ['a', 'b', 'c', 'd', 'e'].iter().map(|c| long_word(*c)).collect::<Vec<_>>().join(" ");
    para(vec![run(&text)])
}

fn filler(height: i64) -> Paragraph {
    let mut p = para(vec![]);
    p.content_height = height;
    p
}

#[test]
fn one_paragraph_on_one_page() {
    let d = doc(vec![Block::Paragraph(para(vec![run("Hello world")]))]);
    let pages = render(&d, &fonts()).unwrap();
    assert_eq!(pages.len(), 1);
    assert_eq!(
        shown(&pages[0]),
        vec![
            "Text { font: \"F1\", size: 12000, x: 72000, y: 711000, bytes: [72, 101, 108, 108, 111] }",
            "Text { font: \"F1\", size: 12000, x: 108000, y: 711000, bytes: [119, 111, 114, 108, 100] }",
        ]
    );
}

#[test]
fn documents_that_are_refused() {
    assert_eq!(reason(render(&doc(vec![]), &fonts())), "empty document");
    let mut flat = doc(vec![Block::Paragraph(para(vec![run("a")]))]);
    flat.page_height = 0;
    assert_eq!(reason(render(&flat, &fonts())), "page size is not positive");
    let mut narrow = doc(vec![Block::Paragraph(para(vec![run("a")]))]);
    narrow.page_width = -1;
    assert_eq!(reason(render(&narrow, &fonts())), "page size is not positive");
    let mut huge = doc(vec![Block::Paragraph(para(vec![run("a")]))]);
    huge.margin_left = 1_000_000_001;
    assert_eq!(reason(render(&huge, &fonts())), "document exceeds the layout limits");
    let mut negative = para(vec![run("a")]);
    negative.space_before = -1;
    assert_eq!(reason(render(&doc(vec![Block::Paragraph(negative)]), &fonts())), "document exceeds the layout limits");
    let mut big = run("a");
    big.font_size = 2_000_001;
    assert_eq!(reason(render(&doc(vec![Block::Paragraph(para(vec![big]))]), &fonts())), "document exceeds the layout limits");
    let mut broken = fonts();
    broken.entries[0].widths_1000.pop();
    assert_eq!(reason(render(&doc(vec![Block::Paragraph(para(vec![run("a")]))]), &broken)), "font table is malformed");
    let mut other = run("a");
    other.bold = true;
    assert_eq!(reason(render(&doc(vec![Block::Paragraph(para(vec![other]))]), &fonts())), "font not registered");
    let mut in_cell = run("a");
    in_cell.font_name = "Other".to_string();
    let table = Table { col_widths: vec![100_000], rows: vec![TableRow { cells: vec![TableCell { width: 100_000, paragraphs: vec![para(vec![in_cell])] }] }] };
    assert_eq!(reason(render(&doc(vec![Block::Table(table)]), &fonts())), "font not registered");
    assert!(check_document(&doc(vec![Block::Paragraph(para(vec![run("a")]))]), &fonts()).is_none());
}

#[test]
fn paragraph_is_split_two_and_three() {
    // The filler leaves room for two lines and 12 units more.
    let d = doc(vec![Block::Paragraph(filler(621_600 - 12)), Block::Paragraph(five_lines())]);
    let pages = render(&d, &fonts()).unwrap();
    assert_eq!(pages.len(), 2);
    let first = texts(&pages[0]);
    assert_eq!(first.len(), 2);
    assert_eq!(first[0], (long_word('a'), 72_000, 98_412 - 9_000));
    assert_eq!(first[1], (long_word('b'), 72_000, 98_412 - 9_000 - 14_400));
    let second = texts(&pages[1]);
    assert_eq!(second.len(), 3);
    assert_eq!(second[0], (long_word('c'), 72_000, 711_000));
    assert_eq!(second[1], (long_word('d'), 72_000, 696_600));
    assert_eq!(second[2], (long_word('e'), 72_000, 682_200));
}

#[test]
fn paragraph_that_cannot_be_split_moves_whole() {
    // Room for one line only.
    let d = doc(vec![Block::Paragraph(filler(636_000)), Block::Paragraph(five_lines())]);
    let pages = render(&d, &fonts()).unwrap();
    assert_eq!(pages.len(), 2);
    assert_eq!(texts(&pages[0]).len(), 0);
    assert_eq!(texts(&pages[1]).len(), 5);
    assert_eq!(texts(&pages[1])[0].2, 711_000);
}

#[test]
fn figure_without_image_is_a_grey_rectangle() {
    let d = doc(vec![Block::Paragraph(filler(100_000))]);
    let pages = render(&d, &fonts()).unwrap();
    assert_eq!(
        shown(&pages[0]),
        vec![
            "FillGray { level: 500 }",
            "FillRect { x: 72000, y: 620000, width: 468000, height: 100000 }",
            "FillGray { level: 0 }",
        ]
    );
}

#[test]
fn image_is_centred_and_named_by_its_number() {
    let mut first = para(vec![run("ignored")]);
    first.content_height = 50_000;
    first.image = Some(EmbeddedImage { data: vec![1, 2, 3], pixel_width: 10, pixel_height: 5, display_width: 100_000, display_height: 50_000 });
    let mut second = para(vec![]);
    second.content_height = 60_000;
    second.image = Some(EmbeddedImage { data: vec![], pixel_width: 1, pixel_height: 1, display_width: 500_000, display_height: 60_000 });
    let d = doc(vec![Block::Paragraph(first), Block::Paragraph(second)]);
    let pages = render(&d, &fonts()).unwrap();
    assert_eq!(
        shown(&pages[0]),
        vec![
            "Image { name: \"Im1\", x: 256000, y: 670000, width: 100000, height: 50000 }",
            "Image { name: \"Im2\", x: 72000, y: 610000, width: 500000, height: 60000 }",
        ]
    );
}

#[test]
fn empty_paragraph_takes_a_line_pitch() {
    let d = doc(vec![Block::Paragraph(para(vec![])), Block::Paragraph(para(vec![run("a")]))]);
    let pages = render(&d, &fonts()).unwrap();
    assert_eq!(texts(&pages[0]), vec![("a".to_string(), 72_000, 720_000 - 14_400 - 9_000)]);
}

#[test]
fn space_between_paragraphs_is_the_larger_of_the_two() {
    let mut a = para(vec![run("a")]);
    a.space_after = 8_000;
    let mut b = para(vec![run("b")]);
    b.space_before = 5_000;
    b.space_after = 3_000;
    let mut c = para(vec![run("c")]);
    c.space_before = 10_000;
    let d = doc(vec![Block::Paragraph(a), Block::Paragraph(b), Block::Paragraph(c)]);
    let pages = render(&d, &fonts()).unwrap();
    let t = texts(&pages[0]);
    assert_eq!(t[0].2, 711_000);
    assert_eq!(t[1].2, 711_000 - 14_400 - 8_000);
    assert_eq!(t[2].2, 711_000 - 14_400 - 8_000 - 14_400 - 10_000);
}

#[test]
fn contextual_spacing_drops_the_space_between_like_paragraphs() {
    let mut a = para(vec![run("a")]);
    a.space_after = 8_000;
    a.contextual_spacing = true;
    let mut b = para(vec![run("b")]);
    b.space_before = 5_000;
    b.space_after = 8_000;
    b.contextual_spacing = true;
    let mut c = para(vec![run("c")]);
    c.space_before = 2_000;
    let d = doc(vec![Block::Paragraph(a), Block::Paragraph(b), Block::Paragraph(c)]);
    let pages = render(&d, &fonts()).unwrap();
    let t = texts(&pages[0]);
    assert_eq!(t[1].2, 711_000 - 14_400);
    assert_eq!(t[2].2, 711_000 - 14_400 - 14_400 - 8_000);
}

#[test]
fn first_paragraph_keeps_its_space_before_but_not_at_the_top_of_later_pages() {
    let mut a = para(vec![run("a")]);
    a.space_before = 20_000;
    let mut b = para(vec![run("b")]);
    b.space_before = 20_000;
    b.page_break_before = true;
    let d = doc(vec![Block::Paragraph(a), Block::Paragraph(b)]);
    let pages = render(&d, &fonts()).unwrap();
    assert_eq!(pages.len(), 2);
    assert_eq!(texts(&pages[0])[0].2, 711_000 - 20_000);
    assert_eq!(texts(&pages[1])[0].2, 711_000);
}

#[test]
fn page_breaks() {
    let mut only_break = para(vec![]);
    only_break.page_break_before = true;
    let mut at_top = para(vec![run("first")]);
    at_top.page_break_before = true;
    let d = doc(vec![
        Block::Paragraph(at_top),
        Block::Paragraph(only_break),
        Block::Paragraph(para(vec![run("second")])),
    ]);
    let pages = render(&d, &fonts()).unwrap();
    // The break at the top of the first page does nothing; the paragraph
    // that holds nothing but a break starts the second page and takes no room.
    assert_eq!(pages.len(), 2);
    assert_eq!(texts(&pages[0]), vec![("first".to_string(), 72_000, 711_000)]);
    assert_eq!(texts(&pages[1]), vec![("second".to_string(), 72_000, 711_000)]);
}

#[test]
fn keep_with_next_moves_a_heading_along() {
    let mut heading = para(vec![run("heading")]);
    heading.keep_next = true;
    heading.space_after = 6_000;
    let mut body = para(vec![run("body")]);
    body.space_before = 4_000;
    // The heading alone would fit; with the gap and the first line of the
    // body, 14.4pt each, it does not.
    let d = doc(vec![
        Block::Paragraph(filler(648_000 - 14_400 - 6_000 - 14_400 + 1)),
        Block::Paragraph(heading),
        Block::Paragraph(body),
    ]);
    let pages = render(&d, &fonts()).unwrap();
    assert_eq!(pages.len(), 2);
    assert_eq!(texts(&pages[0]).len(), 0);
    assert_eq!(texts(&pages[1]).len(), 2);
}

#[test]
fn content_taller_than_a_page_is_placed_all_the_same() {
    let words: Vec<String> = (0..60).map(|_| long_word('x')).collect();
    let d = doc(vec![Block::Paragraph(para(vec![run(&words.join(" "))]))]);
    let pages = render(&d, &fonts()).unwrap();
    // On an empty page the paragraph is placed whole and runs over the
    // bottom margin.
    assert_eq!(pages.len(), 1);
    let t = texts(&pages[0]);
    assert_eq!(t.len(), 60);
    assert_eq!(t[59].2, 711_000 - 59 * 14_400);
    assert!(t[59].2 < 72_000);
}

#[test]
fn list_label_indent_and_border() {
    let mut p = para(vec![run("item")]);
    p.list_label = "\u{2022}".to_string();
    p.indent_left = 36_000;
    p.indent_hanging = 18_000;
    p.border_bottom = Some(BorderBottom { width_pt: 500, space_pt: 1_000, color: [10, 20, 30] });
    let d = doc(vec![Block::Paragraph(p)]);
    let pages = render(&d, &fonts()).unwrap();
    assert_eq!(
        shown(&pages[0]),
        vec![
            "Text { font: \"F1\", size: 12000, x: 90000, y: 711000, bytes: [149] }",
            "Text { font: \"F1\", size: 12000, x: 108000, y: 711000, bytes: [105, 116, 101, 109] }",
            "FillRgb { r: 10, g: 20, b: 30 }",
            "FillRect { x: 72000, y: 704100, width: 468000, height: 500 }",
            "FillRgb { r: 0, g: 0, b: 0 }",
        ]
    );
}

#[test]
fn paragraph_with_tabs_is_one_line() {
    let mut tab = run("");
    tab.is_tab = true;
    let d = doc(vec![Block::Paragraph(para(vec![run("a"), tab, run("b")]))]);
    let pages = render(&d, &fonts()).unwrap();
    assert_eq!(texts(&pages[0]), vec![("a".to_string(), 72_000, 711_000), ("b".to_string(), 108_000, 711_000)]);
}

#[test]
fn tallest_run_sets_line_height_and_baseline() {
    let mut f = fonts();
    f.entries[0].line_h_ratio = Some(1_100);
    f.entries[0].ascender_ratio = Some(900);
    let mut big = run("B");
    big.font_size = 24_000;
    let mut d = doc(vec![Block::Paragraph(para(vec![run("a "), big])), Block::Paragraph(para(vec![run("c")]))]);
    d.line_spacing = 1_500;
    let pages = render(&d, &f).unwrap();
    let t = texts(&pages[0]);
    // Baseline: 24pt * 0.9 below the top. Line height: 24pt * 1.1 * 1.5.
    assert_eq!(t[0].2, 720_000 - 21_600);
    assert_eq!(t[1].2, 720_000 - 21_600);
    assert_eq!(t[2].2, 720_000 - 39_600 - 10_800);
}

fn cell(text: &str) -> TableCell {
    TableCell { width: 100_000, paragraphs: vec![para(vec![run(text)])] }
}

#[test]
fn table_rows_and_borders() {
    let table = Table {
        col_widths: vec![100_000, 100_000],
        rows: vec![TableRow { cells: vec![cell("ab"), cell("cd ef")] }],
    };
    let d = doc(vec![Block::Table(table)]);
    let pages = render(&d, &fonts()).unwrap();
    assert_eq!(
        shown(&pages[0]),
        vec![
            "Text { font: \"F1\", size: 12000, x: 77400, y: 711000, bytes: [97, 98] }",
            "Text { font: \"F1\", size: 12000, x: 177400, y: 711000, bytes: [99, 100] }",
            "Text { font: \"F1\", size: 12000, x: 195400, y: 711000, bytes: [101, 102] }",
            "SaveState",
            "LineWidth { width: 500 }",
            "StrokeRect { x: 66600, y: 705100, width: 105400, height: 14900 }",
            "StrokeRect { x: 172000, y: 705100, width: 100000, height: 14900 }",
            "RestoreState",
        ]
    );
}

#[test]
fn table_row_moves_to_the_next_page_whole() {
    let table = Table {
        col_widths: vec![100_000],
        rows: vec![TableRow { cells: vec![cell("one")] }, TableRow { cells: vec![cell("two")] }],
    };
    // Room for the first row and one unit less than the second needs.
    let d = doc(vec![Block::Paragraph(filler(648_000 - 2 * 14_900 + 1)), Block::Table(table)]);
    let pages = render(&d, &fonts()).unwrap();
    assert_eq!(pages.len(), 2);
    assert_eq!(texts(&pages[0]).len(), 1);
    assert_eq!(texts(&pages[1]), vec![("two".to_string(), 77_400, 711_000)]);
}

#[test]
fn table_takes_the_space_after_the_paragraph_before() {
    let mut p = para(vec![run("a")]);
    p.space_after = 10_000;
    let table = Table { col_widths: vec![100_000], rows: vec![TableRow { cells: vec![cell("b")] }] };
    let d = doc(vec![Block::Paragraph(p), Block::Table(table), Block::Paragraph(para(vec![run("c")]))]);
    let pages = render(&d, &fonts()).unwrap();
    let t = texts(&pages[0]);
    assert_eq!(t[1].2, 720_000 - 14_400 - 10_000 - 9_000);
    assert_eq!(t[2].2, 720_000 - 14_400 - 10_000 - 14_900 - 9_000);
}

fn footer(runs: Vec<Run>) -> HeaderFooter {
    let mut p = para(runs);
    p.alignment = Alignment::Center;
    HeaderFooter { paragraphs: vec![p] }
}

#[test]
fn footer_shows_the_page_number_on_every_page() {
    let mut page = run("#");
    page.field_code = Some(FieldCode::Page);
    page.bold = false;
    let mut count = run("#");
    count.field_code = Some(FieldCode::NumPages);
    let mut second = para(vec![run("two")]);
    second.page_break_before = true;
    let mut third = para(vec![run("three")]);
    third.page_break_before = true;
    let mut d = doc(vec![Block::Paragraph(para(vec![run("one")])), Block::Paragraph(second), Block::Paragraph(third)]);
    d.footer_default = Some(footer(vec![run("Page "), page, run(" of "), count]));
    let pages = render(&d, &fonts()).unwrap();
    assert_eq!(pages.len(), 3);
    for (i, p) in pages.iter().enumerate() {
        let t = texts(p);
        let words: Vec<&str> = t.iter().map(|x| x.0.as_str()).collect();
        let number = (i + 1).to_string();
        assert_eq!(words[1..], ["Page", number.as_str(), "of", "3"]);
        // Baseline: the footer margin plus what is left of the font size
        // above the ascent.
        assert_eq!(t[1].2, 36_000 + 3_000);
        // "Page n of 3" is 11 characters of 6pt, centred in 468pt.
        assert_eq!(t[1].1, 72_000 + (468_000 - 66_000) / 2);
    }
}

#[test]
fn first_page_has_its_own_header() {
    let mut second = para(vec![run("two")]);
    second.page_break_before = true;
    let mut d = doc(vec![Block::Paragraph(para(vec![run("one")])), Block::Paragraph(second)]);
    d.header_default = Some(HeaderFooter { paragraphs: vec![para(vec![run("default")])] });
    d.header_first = Some(HeaderFooter { paragraphs: vec![para(vec![run("first")]), para(vec![])] });
    d.different_first_page = true;
    let pages = render(&d, &fonts()).unwrap();
    assert_eq!(texts(&pages[0]), vec![("one".to_string(), 72_000, 711_000), ("first".to_string(), 72_000, 792_000 - 36_000 - 9_000)]);
    assert_eq!(texts(&pages[1])[1].0, "default");
    d.different_first_page = false;
    let pages = render(&d, &fonts()).unwrap();
    assert_eq!(texts(&pages[0])[1].0, "default");
    // Without a footer for the first page, the first page has none.
    d.different_first_page = true;
    d.footer_default = Some(footer(vec![run("foot")]));
    let pages = render(&d, &fonts()).unwrap();
    assert_eq!(texts(&pages[0]).len(), 2);
    assert_eq!(texts(&pages[1]).len(), 3);
}

#[test]
fn a_cell_may_hold_many_paragraphs() {
    let paragraphs: Vec<Paragraph> = (0..1_500).map(|_| para(vec![run("x")])).collect();
    let table = Table {
        col_widths: vec![100_000],
        rows: vec![TableRow { cells: vec![TableCell { width: 100_000, paragraphs }] }],
    };
    let pages = render(&doc(vec![Block::Table(table)]), &fonts()).unwrap();
    let shown: usize = pages.iter().map(|p| texts(p).len()).sum();
    assert_eq!(shown, 1_500);
}

#[test]
fn a_paragraph_may_hold_many_runs() {
    let runs: Vec<Run> = (0..20_000).map(|_| run("a ")).collect();
    let pages = render(&doc(vec![Block::Paragraph(para(runs))]), &fonts()).unwrap();
    let shown: usize = pages.iter().map(|p| texts(p).len()).sum();
    assert_eq!(shown, 20_000);
}
