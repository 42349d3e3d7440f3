use docxside_pdf::fonts::{
    advance_of, font_key, measure, measure_space, primary_font_name, FontEntry, FontTable,
};
use docxside_pdf::model::{Run, VertAlign};
use docxside_pdf::text::{chars_of, ends_with_whitespace, is_whitespace, repeated, split_words, starts_with_whitespace, str_equal};

fn run(font_name: &str, bold: bool, italic: bool) -> Run {
    Run {
        text: String::new(),
        font_size: 10_000,
        font_name: font_name.to_string(),
        bold,
        italic,
        underline: false,
        strikethrough: false,
        color: None,
        is_tab: false,
        vertical_align: VertAlign::Baseline,
        field_code: None,
    }
}

fn entry(name: &str, advance: i64) -> FontEntry {
    FontEntry {
        pdf_name: name.to_string(),
        font_ref: 1,
        widths_1000: vec![advance; 224],
        line_h_ratio: None,
        ascender_ratio: None,
    }
}

#[test]
fn primary_font_names() {
    assert_eq!(primary_font_name("Arial"), "Arial");
    assert_eq!(primary_font_name("Arial; Helvetica; sans-serif"), "Arial");
    assert_eq!(primary_font_name("  Times New Roman ;Arial"), "Times New Roman");
    assert_eq!(primary_font_name(";Arial"), "");
    assert_eq!(primary_font_name("   "), "");
    assert_eq!(primary_font_name(""), "");
    assert_eq!(primary_font_name("\u{a0}A b\t"), "A b");
}

#[test]
fn font_keys() {
    assert_eq!(font_key(&run("Arial", false, false)), "Arial");
    assert_eq!(font_key(&run("Arial", true, false)), "Arial/B");
    assert_eq!(font_key(&run("Arial", false, true)), "Arial/I");
    assert_eq!(font_key(&run(" Arial ;Helvetica", true, true)), "Arial/BI");
}

#[test]
fn font_table_lookup() {
    let mut table = FontTable::new();
    assert!(table.check());
    table.insert("Arial".to_string(), entry("F1", 500));
    table.insert("Arial/B".to_string(), entry("F2", 600));
    table.insert("Arial".to_string(), entry("F3", 700));
    assert!(table.check());
    assert_eq!(table.lookup(&"Arial".to_string()), Some(0));
    assert_eq!(table.lookup(&"Arial/B".to_string()), Some(1));
    assert_eq!(table.lookup(&"Arial/I".to_string()), None);
    assert_eq!(table.find(&run("Arial;x", true, false)), Some(1));
    assert_eq!(table.find(&run("Times", false, false)), None);
    assert!(table.check_cover(&vec![run("Arial", false, false), run("Arial", true, false)]));
    assert!(!table.check_cover(&vec![run("Arial", false, false), run("Arial", true, true)]));
    assert!(table.check_cover(&vec![]));
}

#[test]
fn malformed_tables() {
    let mut short = entry("F1", 500);
    short.widths_1000.pop();
    assert!(!short.check());
    let mut negative = entry("F1", 500);
    negative.widths_1000[7] = -1;
    assert!(!negative.check());
    let mut wide = entry("F1", 500);
    wide.widths_1000[223] = 100_001;
    assert!(!wide.check());
    let mut ratio = entry("F1", 500);
    ratio.line_h_ratio = Some(10_001);
    assert!(!ratio.check());
    ratio.line_h_ratio = Some(10_000);
    ratio.ascender_ratio = Some(-10_000);
    assert!(ratio.check());
    let table = FontTable { keys: vec![], entries: vec![entry("F1", 500)] };
    assert!(!table.check());
}

#[test]
fn measuring() {
    let mut widths = vec![0i64; 224];
    widths[0] = 250; // space
    widths[(b'a' - 32) as usize] = 500;
    widths[(b'W' - 32) as usize] = 1_000;
    widths[0x80 - 32] = 720; // the euro sign
    let chars = chars_of("aW a\u{20ac}\u{65e5}\n");
    assert_eq!(measure(&widths, &chars, 0, 2, 10_000), 15_000);
    assert_eq!(measure(&widths, &chars, 0, 4, 10_000), 22_500);
    assert_eq!(measure(&widths, &chars, 4, 7, 12_000), 8_640);
    assert_eq!(measure(&widths, &chars, 2, 2, 10_000), 0);
    // The advances are summed before they are scaled, and the product is
    // rounded down.
    assert_eq!(measure(&widths, &chars, 0, 2, 1), 1);
    assert_eq!(measure(&widths, &chars, 0, 1, 1), 0);
    assert_eq!(measure_space(&widths, 10_000), 2_500);
    assert_eq!(advance_of(&widths, 'a'), 500);
    assert_eq!(advance_of(&widths, '\u{20ac}'), 720);
    assert_eq!(advance_of(&widths, '\u{65e5}'), 0);
    assert_eq!(advance_of(&widths, '\n'), 0);
}

#[test]
fn whitespace_and_words() {
    for c in [' ', '\t', '\n', '\u{b}', '\u{c}', '\r', '\u{85}', '\u{a0}', '\u{1680}', '\u{2000}', '\u{200a}', '\u{2028}', '\u{2029}', '\u{202f}', '\u{205f}', '\u{3000}'] {
        assert!(is_whitespace(c));
        assert!(c.is_whitespace());
    }
    for c in ['a', '\u{8}', '\u{e}', '\u{200b}', '\u{feff}', '\u{180e}', '0'] {
        assert!(!is_whitespace(c));
        assert!(!c.is_whitespace());
    }
    let chars = chars_of("  one two\u{a0}three\t");
    assert_eq!(split_words(&chars), vec![(2, 5), (6, 9), (10, 15)]);
    assert!(starts_with_whitespace(&chars));
    assert!(ends_with_whitespace(&chars));
    let plain = chars_of("x");
    assert_eq!(split_words(&plain), vec![(0, 1)]);
    assert!(!starts_with_whitespace(&plain));
    assert!(!ends_with_whitespace(&plain));
    assert_eq!(split_words(&chars_of("")), vec![]);
    assert_eq!(split_words(&chars_of(" \n ")), vec![]);
    assert!(!starts_with_whitespace(&chars_of("")));
}

#[test]
fn every_character_is_told_from_whitespace_as_the_standard_library_does() {
    for n in 0u32..0x3100 {
        if let Some(c) = char::from_u32(n) {
            assert_eq!(is_whitespace(c), c.is_whitespace());
        }
    }
}

#[test]
fn text_helpers() {
    assert_eq!(chars_of("a\u{e9}\u{1f600}"), vec!['a', '\u{e9}', '\u{1f600}']);
    assert!(str_equal("abc", "abc"));
    assert!(!str_equal("abc", "abd"));
    assert!(!str_equal("abc", "ab"));
    assert!(str_equal("", ""));
    assert_eq!(repeated('.', 3), "...");
    assert_eq!(repeated('x', 0), "");
}
