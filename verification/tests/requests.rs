use docxside_pdf::model::{
    Alignment, Block, Document, HeaderFooter, Paragraph, Run, Table, TableCell, TableRow, VertAlign,
};
use docxside_pdf::requests::collect_fonts;

fn run(font: &str, bold: bool, italic: bool) -> Run {
    Run {
        text: "x".to_string(),
        font_size: 12_000,
        font_name: font.to_string(),
        bold,
        italic,
        underline: false,
        strikethrough: false,
        color: None,
        is_tab: false,
        vertical_align: VertAlign::Baseline,
        field_code: None,
    }
}

fn para(runs: Vec<Run>) -> Paragraph {
    Paragraph {
        runs,
        space_before: 0,
        space_after: 0,
        content_height: 0,
        alignment: Alignment::Left,
        indent_left: 0,
        indent_hanging: 0,
        list_label: String::new(),
        contextual_spacing: false,
        keep_next: false,
        line_spacing: None,
        image: None,
        border_bottom: None,
        page_break_before: false,
        tab_stops: vec![],
    }
}

fn doc(blocks: Vec<Block>) -> Document {
    Document {
        page_width: 612_000,
        page_height: 792_000,
        margin_top: 72_000,
        margin_bottom: 72_000,
        margin_left: 72_000,
        margin_right: 72_000,
        header_margin: 36_000,
        footer_margin: 36_000,
        line_pitch: 14_400,
        line_spacing: 1_000,
        blocks,
        header_default: None,
        header_first: None,
        footer_default: None,
        footer_first: None,
        different_first_page: false,
        embedded_fonts: vec![],
    }
}

#[test]
fn a_document_without_runs_asks_for_helvetica() {
    let requests = collect_fonts(&doc(vec![Block::Paragraph(para(vec![]))]));
    assert_eq!(requests.len(), 1);
    assert_eq!(requests[0].key, "Helvetica");
    assert_eq!(requests[0].family, "Helvetica");
    assert!(!requests[0].bold && !requests[0].italic);
    assert_eq!(requests[0].pdf_name, "F1");
}

#[test]
fn every_family_and_style_is_asked_for_once_in_order() {
    let table = Table {
        col_widths: vec![],
        rows: vec![TableRow {
            cells: vec![
                TableCell { width: 0, paragraphs: vec![para(vec![run("Arial", false, false)])] },
                TableCell { width: 0, paragraphs: vec![para(vec![run("Courier", false, true)])] },
            ],
        }],
    };
    let mut d = doc(vec![
        Block::Paragraph(para(vec![run("Times; serif", false, false), run("Arial", true, false)])),
        Block::Table(table),
        Block::Paragraph(para(vec![run(" Times ", false, false), run("Arial", true, true)])),
    ]);
    d.footer_first = Some(HeaderFooter { paragraphs: vec![para(vec![run("Last", false, false)])] });
    d.header_first = Some(HeaderFooter { paragraphs: vec![para(vec![run("Second", false, false)])] });
    d.footer_default = Some(HeaderFooter { paragraphs: vec![para(vec![run("Third", false, false), run("Arial", false, false)])] });
    d.header_default = Some(HeaderFooter { paragraphs: vec![para(vec![run("First", false, false)])] });
    let requests = collect_fonts(&d);
    let seen: Vec<(String, String, bool, bool, String)> = requests
        .iter()
        .map(|r| (r.key.clone(), r.family.clone(), r.bold, r.italic, r.pdf_name.clone()))
        .collect();
    let want = |key: &str, family: &str, bold: bool, italic: bool, name: &str| {
        (key.to_string(), family.to_string(), bold, italic, name.to_string())
    };
    assert_eq!(
        seen,
        vec![
            want("Times", "Times", false, false, "F1"),
            want("Arial/B", "Arial", true, false, "F2"),
            want("Arial", "Arial", false, false, "F3"),
            want("Courier/I", "Courier", false, true, "F4"),
            want("Arial/BI", "Arial", true, true, "F5"),
            want("First", "First", false, false, "F6"),
            want("Second", "Second", false, false, "F7"),
            want("Third", "Third", false, false, "F8"),
            want("Last", "Last", false, false, "F9"),
        ]
    );
}
