use docxside_pdf::draw::{is_justified, render_paragraph_lines, DrawOp};
use docxside_pdf::flow::{TextLine, WordChunk};
use docxside_pdf::model::Alignment;

fn chunk(text: &str, x_offset: i64, width: i64) -> WordChunk {
    WordChunk {
        pdf_font: "F1".to_string(),
        text: text.to_string(),
        font_size: 10_000,
        color: None,
        x_offset,
        width,
        underline: false,
        strikethrough: false,
        y_offset: 0,
    }
}

fn two_lines() -> Vec<TextLine> {
    vec![
        TextLine { chunks: vec![chunk("a", 0, 5_000), chunk("b", 10_000, 5_000)], total_width: 15_000 },
        TextLine { chunks: vec![chunk("c", 0, 5_000), chunk("d", 10_000, 5_000)], total_width: 15_000 },
    ]
}

fn texts(ops: &[DrawOp]) -> Vec<(String, i64, i64)> {
    let mut out = Vec::new();
    for op in ops {
        if let DrawOp::Text { x, y, bytes, .. } = op {
            out.push((String::from_utf8(bytes.clone()).unwrap(), *x, *y));
        }
    }
    out
}

fn draw(alignment: Alignment, from: usize, to: usize) -> Vec<DrawOp> {
    let mut ops = Vec::new();
    render_paragraph_lines(&mut ops, &two_lines(), from, to, alignment, 72_000, 100_000, 700_000, 14_000);
    ops
}

#[test]
fn left_aligned_lines() {
    let ops = draw(Alignment::Left, 0, 2);
    assert_eq!(
        texts(&ops),
        vec![
            ("a".to_string(), 72_000, 700_000),
            ("b".to_string(), 82_000, 700_000),
            ("c".to_string(), 72_000, 686_000),
            ("d".to_string(), 82_000, 686_000),
        ]
    );
    assert_eq!(ops.len(), 4);
}

#[test]
fn centred_and_right_aligned_lines() {
    let centred = texts(&draw(Alignment::Center, 0, 1));
    assert_eq!(centred[0].1, 114_500);
    assert_eq!(centred[1].1, 124_500);
    let right = texts(&draw(Alignment::Right, 0, 1));
    assert_eq!(right[0].1, 157_000);
    assert_eq!(right[1].1, 167_000);
}

#[test]
fn justified_lines_but_for_the_last() {
    let ops = texts(&draw(Alignment::Justify, 0, 2));
    // The first line is stretched to the full width.
    assert_eq!(ops[0].1, 72_000);
    assert_eq!(ops[1].1, 72_000 + 10_000 + 85_000);
    // The last line of the paragraph is not, whatever slack it has.
    assert_eq!(ops[2].1, 72_000);
    assert_eq!(ops[3].1, 82_000);
}

#[test]
fn the_rest_of_a_split_paragraph_starts_on_the_first_baseline() {
    let ops = texts(&draw(Alignment::Justify, 1, 2));
    assert_eq!(ops, vec![("c".to_string(), 72_000, 700_000), ("d".to_string(), 82_000, 700_000)]);
    // Drawn as the first part of a longer paragraph, the same line is
    // justified: it is the last that is drawn, not the last of the paragraph.
    let first = texts(&draw(Alignment::Justify, 0, 1));
    assert_eq!(first[1].1, 167_000);
}

#[test]
fn when_a_line_is_justified() {
    assert!(is_justified(Alignment::Justify, 0, 2, 2));
    assert!(!is_justified(Alignment::Justify, 1, 2, 2));
    assert!(!is_justified(Alignment::Justify, 0, 2, 1));
    assert!(!is_justified(Alignment::Left, 0, 2, 2));
    assert!(!is_justified(Alignment::Justify, 0, 1, 5));
}

#[test]
fn single_chunk_lines_are_not_stretched() {
    let lines = vec![
        TextLine { chunks: vec![chunk("a", 0, 5_000)], total_width: 5_000 },
        TextLine { chunks: vec![chunk("b", 0, 5_000)], total_width: 5_000 },
    ];
    let mut ops = Vec::new();
    render_paragraph_lines(&mut ops, &lines, 0, 2, Alignment::Justify, 0, 100_000, 0, 10_000);
    assert_eq!(texts(&ops), vec![("a".to_string(), 0, 0), ("b".to_string(), 0, -10_000)]);
}

#[test]
fn colours_rules_and_shifts() {
    let mut red = chunk("r", 0, 5_000);
    red.color = Some([255, 0, 0]);
    red.underline = true;
    let mut also_red = chunk("s", 10_000, 5_000);
    also_red.color = Some([255, 0, 0]);
    also_red.strikethrough = true;
    also_red.y_offset = 3_500;
    let black = chunk("t", 20_000, 5_000);
    let mut blue = chunk("u", 30_000, 5_000);
    blue.color = Some([0, 0, 255]);
    blue.font_size = 4_000;
    blue.underline = true;
    let lines = vec![TextLine { chunks: vec![red, also_red, black, blue], total_width: 35_000 }];
    let mut ops = Vec::new();
    render_paragraph_lines(&mut ops, &lines, 0, 1, Alignment::Left, 0, 100_000, 100_000, 12_000);
    let shown: Vec<String> = ops.iter().map(|op| format!("{:?}", op)).collect();
    assert_eq!(
        shown,
        vec![
            "FillRgb { r: 255, g: 0, b: 0 }",
            "Text { font: \"F1\", size: 10000, x: 0, y: 100000, bytes: [114] }",
            // A twentieth of 10pt is half a point; the rule lies 1.2pt below
            // the baseline.
            "FillRect { x: 0, y: 98300, width: 5000, height: 500 }",
            "Text { font: \"F1\", size: 10000, x: 10000, y: 103500, bytes: [115] }",
            "FillRect { x: 10000, y: 103000, width: 5000, height: 500 }",
            "FillGray { level: 0 }",
            "Text { font: \"F1\", size: 10000, x: 20000, y: 100000, bytes: [116] }",
            "FillRgb { r: 0, g: 0, b: 255 }",
            "Text { font: \"F1\", size: 4000, x: 30000, y: 100000, bytes: [117] }",
            // A twentieth of 4pt would be thinner than half a point.
            "FillRect { x: 30000, y: 99020, width: 5000, height: 500 }",
            "FillGray { level: 0 }",
        ]
    );
}

#[test]
fn text_is_narrowed_to_the_character_set() {
    let lines = vec![TextLine { chunks: vec![chunk("a\u{20ac}\u{65e5}b", 0, 5_000)], total_width: 5_000 }];
    let mut ops = Vec::new();
    render_paragraph_lines(&mut ops, &lines, 0, 1, Alignment::Left, 0, 100_000, 0, 10_000);
    match &ops[0] {
        DrawOp::Text { bytes, .. } => assert_eq!(bytes, &vec![b'a', 0x80, b'b']),
        _ => panic!("no text"),
    }
}

#[test]
fn nothing_is_drawn_for_no_lines() {
    let mut ops = vec![DrawOp::SaveState];
    render_paragraph_lines(&mut ops, &two_lines(), 1, 1, Alignment::Left, 0, 100_000, 0, 10_000);
    assert_eq!(ops.len(), 1);
}

#[test]
fn the_last_chunk_of_a_justified_line_ends_at_the_right_edge() {
    // Four chunks of a point with gaps of a point, and ten thousandths of
    // slack that the three gaps cannot share alike.
    let lines = vec![
        TextLine {
            chunks: vec![
                chunk("a", 0, 1_000),
                chunk("b", 2_000, 1_000),
                chunk("c", 4_000, 1_000),
                chunk("d", 6_000, 1_000),
            ],
            total_width: 7_000,
        },
        TextLine { chunks: vec![chunk("e", 0, 1_000)], total_width: 1_000 },
    ];
    let mut ops = Vec::new();
    render_paragraph_lines(&mut ops, &lines, 0, 2, Alignment::Justify, 0, 7_010, 700_000, 14_000);
    let xs: Vec<i64> = texts(&ops).iter().map(|t| t.1).collect();
    assert_eq!(xs, vec![0, 2_003, 4_006, 6_010, 0]);
    assert_eq!(xs[3] + 1_000, 7_010);
}

#[test]
fn control_characters_are_not_drawn() {
    let lines = vec![TextLine { chunks: vec![chunk("a\u{1}b\tc", 0, 1_000)], total_width: 1_000 }];
    let mut ops = Vec::new();
    render_paragraph_lines(&mut ops, &lines, 0, 1, Alignment::Left, 0, 7_000, 700_000, 14_000);
    assert_eq!(texts(&ops)[0].0, "abc");
    for op in &ops {
        if let DrawOp::Text { bytes, .. } = op {
            assert!(bytes.iter().all(|b| *b >= 32));
        }
    }
}
