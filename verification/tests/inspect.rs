use docxside_pdf::inspect::{
    available_path, candidate_path, ink_passes, is_ink, is_listed, jaccard, modifiers, pad,
    parse_rpr_into, tally, StyleInfo,
};
use docxside_pdf::number::parse_natural;
use docxside_pdf::styles::WML_NS;
use docxside_pdf::xml::{collect_named, find_named, XmlAttr, XmlNode};

#[test]
fn ink_and_paper() {
    assert!(is_ink(0, 0, 0));
    assert!(is_ink(199, 199, 199));
    assert!(!is_ink(200, 200, 200));
    assert!(!is_ink(255, 255, 255));
    // Green weighs most.
    assert!(is_ink(255, 0, 255));
    assert!(!is_ink(255, 255, 0));
}

#[test]
fn ink_overlap() {
    let ink = [0u8, 0, 0];
    let paper = [255u8, 255, 255];
    let a = vec![ink, ink, paper, paper];
    let b = vec![ink, paper, ink, paper];
    assert_eq!(jaccard(&a, &b), (1, 3));
    assert_eq!(jaccard(&a, &a), (2, 2));
    assert_eq!(jaccard(&vec![], &vec![]), (0, 0));
    assert_eq!(jaccard(&vec![paper], &vec![paper]), (0, 0));
}

#[test]
fn other_names_for_a_file() {
    assert_eq!(candidate_path("report", ".pdf", 2), "report(2).pdf");
    assert_eq!(candidate_path("report", "", 10), "report(10)");
    assert_eq!(candidate_path("", ".pdf", 3), "(3).pdf");
}

#[test]
fn font_of_a_style() {
    let mut style = StyleInfo {
        name: "Heading 1".to_string(),
        font_ascii: Some("Arial".to_string()),
        font_theme: Some("majorHAnsi".to_string()),
        size_half_pt: Some(25),
        bold: true,
        italic: false,
    };
    assert_eq!(style.font_display(), "Arial");
    assert_eq!(style.size_pt(), Some(12_500));
    style.font_ascii = None;
    assert_eq!(style.font_display(), "<theme:majorHAnsi>");
    style.font_theme = None;
    style.size_half_pt = None;
    assert_eq!(style.font_display(), "inherited");
    assert_eq!(style.size_pt(), None);
}

#[test]
fn a_free_name_is_kept() {
    let taken = vec!["other.pdf".to_string(), "report(2).pdf".to_string()];
    assert_eq!(available_path("report.pdf", "report", ".pdf", &taken), "report.pdf");
    assert_eq!(available_path("report.pdf", "report", ".pdf", &Vec::new()), "report.pdf");
}

#[test]
fn a_taken_name_gets_the_first_free_number() {
    let taken = vec!["report.pdf".to_string()];
    assert_eq!(available_path("report.pdf", "report", ".pdf", &taken), "report(2).pdf");
    let taken = vec![
        "report(3).pdf".to_string(),
        "report.pdf".to_string(),
        "report(2).pdf".to_string(),
        "report(5).pdf".to_string(),
    ];
    assert_eq!(available_path("report.pdf", "report", ".pdf", &taken), "report(4).pdf");
    let taken = vec!["notes".to_string(), "notes(2)".to_string()];
    assert_eq!(available_path("notes", "notes", "", &taken), "notes(3)");
}

#[test]
fn numbers_of_free_names_go_past_nine() {
    let mut taken = vec!["a.pdf".to_string()];
    for n in 2..=11 {
        taken.push(format!("a({n}).pdf"));
    }
    assert_eq!(available_path("a.pdf", "a", ".pdf", &taken), "a(12).pdf");
}

fn element(ns: Option<&str>, name: &str, attrs: &[(&str, &str)], children: Vec<XmlNode>) -> XmlNode {
    XmlNode {
        namespace: ns.map(str::to_string),
        name: name.to_string(),
        attributes: attrs
            .iter()
            .map(|(n, v)| XmlAttr {
                namespace: Some(WML_NS.to_string()),
                name: n.to_string(),
                value: v.to_string(),
            })
            .collect(),
        children,
        text: None,
    }
}

fn wml(name: &str, attrs: &[(&str, &str)], children: Vec<XmlNode>) -> XmlNode {
    element(Some(WML_NS), name, attrs, children)
}

fn read(children: Vec<XmlNode>) -> StyleInfo {
    let mut info = StyleInfo::new("Normal");
    parse_rpr_into(&wml("rPr", &[], children), &mut info);
    info
}

#[test]
fn numbers_up_to_a_bound() {
    assert_eq!(parse_natural("0", 10), Some(0));
    assert_eq!(parse_natural("10", 10), Some(10));
    assert_eq!(parse_natural("11", 10), None);
    assert_eq!(parse_natural("+7", 10), Some(7));
    assert_eq!(parse_natural("007", 10), Some(7));
    assert_eq!(parse_natural("", 10), None);
    assert_eq!(parse_natural("+", 10), None);
    assert_eq!(parse_natural("-1", 10), None);
    assert_eq!(parse_natural("1.5", 10), None);
    assert_eq!(parse_natural(" 1", 10), None);
    assert_eq!(parse_natural("4294967295", u32::MAX), Some(u32::MAX));
    assert_eq!(parse_natural("4294967296", u32::MAX), None);
    assert_eq!(parse_natural("99999999999999999999999", u32::MAX), None);
}

#[test]
fn run_properties_are_read_by_local_name() {
    let info = read(vec![
        wml("rFonts", &[("ascii", "Georgia"), ("hAnsi", "Arial")], vec![]),
        wml("sz", &[("val", "21")], vec![]),
        wml("b", &[], vec![]),
        wml("i", &[("val", "0")], vec![]),
        wml("color", &[("val", "FF0000")], vec![]),
    ]);
    assert_eq!(info.name, "Normal");
    assert_eq!(info.font_ascii.as_deref(), Some("Georgia"));
    assert_eq!(info.font_theme, None);
    assert_eq!(info.size_half_pt, Some(21));
    assert!(info.bold);
    assert!(!info.italic);
    // The namespace of the element does not count.
    let other = element(None, "sz", &[("val", "30")], vec![]);
    assert_eq!(read(vec![other]).size_half_pt, Some(30));
}

#[test]
fn high_ansi_fonts_stand_in_where_no_ascii_font_is_stated() {
    let info = read(vec![wml("rFonts", &[("hAnsi", "Arial"), ("hAnsiTheme", "minorHAnsi")], vec![])]);
    assert_eq!(info.font_ascii.as_deref(), Some("Arial"));
    assert_eq!(info.font_theme.as_deref(), Some("minorHAnsi"));
    let info = read(vec![wml("rFonts", &[("asciiTheme", "majorHAnsi"), ("hAnsi", "Arial")], vec![])]);
    assert_eq!(info.font_ascii, None);
    assert_eq!(info.font_theme.as_deref(), Some("majorHAnsi"));
    // A font that is known already is kept.
    let info = read(vec![
        wml("rFonts", &[("ascii", "Georgia")], vec![]),
        wml("rFonts", &[("hAnsi", "Arial")], vec![]),
    ]);
    assert_eq!(info.font_ascii.as_deref(), Some("Georgia"));
    let info = read(vec![wml("rFonts", &[], vec![])]);
    assert_eq!(info.font_ascii, None);
    assert_eq!(info.font_theme, None);
}

#[test]
fn sizes_and_switches_of_run_properties() {
    assert_eq!(read(vec![wml("sz", &[("val", "x")], vec![])]).size_half_pt, None);
    assert_eq!(read(vec![wml("sz", &[], vec![])]).size_half_pt, None);
    let info = read(vec![wml("sz", &[("val", "24")], vec![]), wml("sz", &[("val", "-3")], vec![])]);
    assert_eq!(info.size_half_pt, Some(24));
    assert!(read(vec![wml("b", &[("val", "true")], vec![])]).bold);
    assert!(read(vec![wml("b", &[("val", "1")], vec![])]).bold);
    assert!(!read(vec![wml("b", &[("val", "false")], vec![])]).bold);
    assert!(!read(vec![wml("b", &[], vec![]), wml("b", &[("val", "0")], vec![])]).bold);
    assert!(read(vec![wml("i", &[], vec![])]).italic);
    assert!(!read(vec![]).italic);
}

#[test]
fn how_sizes_and_modifiers_are_shown() {
    let mut info = StyleInfo::new("Title");
    assert_eq!(info.size_display(), "inherited");
    info.size_half_pt = Some(24);
    assert_eq!(info.size_display(), "12pt");
    info.size_half_pt = Some(21);
    assert_eq!(info.size_display(), "10.5pt");
    info.size_half_pt = Some(0);
    assert_eq!(info.size_display(), "0pt");
    info.size_half_pt = Some(1);
    assert_eq!(info.size_display(), "0.5pt");
    assert_eq!(modifiers(false, false), "");
    assert_eq!(modifiers(true, false), " (bold)");
    assert_eq!(modifiers(false, true), " (italic)");
    assert_eq!(modifiers(true, true), " (bold, italic)");
}

#[test]
fn padding_and_rows() {
    assert_eq!(pad("ab", 5), "ab   ");
    assert_eq!(pad("abcde", 5), "abcde");
    assert_eq!(pad("abcdef", 5), "abcdef");
    assert_eq!(pad("", 2), "  ");
    // Width counts characters, not bytes.
    assert_eq!(pad("\u{e9}t\u{e9}", 4), "\u{e9}t\u{e9} ");
    let mut info = StyleInfo::new("Heading 1");
    info.font_theme = Some("majorHAnsi".to_string());
    info.size_half_pt = Some(32);
    info.bold = true;
    assert_eq!(
        info.row(),
        format!("  {:<20}  {:<28}  {}{}", "Heading 1", "<theme:majorHAnsi>", "16pt", " (bold)")
    );
    assert_eq!(info.run_key(), "<theme:majorHAnsi> 16pt");
    assert_eq!(StyleInfo::new("x").run_key(), "inherited inherited");
}

#[test]
fn the_styles_that_are_listed() {
    for name in [
        "Normal",
        "Default Paragraph Font",
        "Heading 1",
        "Heading 2",
        "Heading 3",
        "Heading 4",
        "Title",
        "Subtitle",
        "Body Text",
        "Caption",
    ] {
        assert!(is_listed(name), "{name}");
    }
    assert!(!is_listed("Heading 5"));
    assert!(!is_listed("normal"));
    assert!(!is_listed(""));
}

#[test]
fn keys_are_counted_in_the_order_they_are_met() {
    let keys: Vec<String> = ["a", "b", "a", "c", "b", "a"].iter().map(|s| s.to_string()).collect();
    let seen: Vec<(String, usize)> = tally(&keys).into_iter().map(|t| (t.key, t.count)).collect();
    assert_eq!(
        seen,
        vec![("a".to_string(), 3), ("b".to_string(), 2), ("c".to_string(), 1)]
    );
    assert!(tally(&Vec::new()).is_empty());
}

#[test]
fn elements_are_found_in_document_order() {
    let tree = wml(
        "body",
        &[],
        vec![
            wml("p", &[("id", "1")], vec![wml("r", &[("id", "2")], vec![])]),
            element(None, "r", &[("id", "3")], vec![]),
            wml("r", &[("id", "4")], vec![wml("r", &[("id", "5")], vec![])]),
        ],
    );
    let first = find_named(&tree, WML_NS, "r").unwrap();
    assert_eq!(first.attributes[0].value, "2");
    assert!(find_named(&tree, WML_NS, "tbl").is_none());
    assert_eq!(find_named(&tree, WML_NS, "body").unwrap().children.len(), 3);
    let mut all: Vec<&XmlNode> = Vec::new();
    collect_named(&tree, WML_NS, "r", &mut all);
    let ids: Vec<&str> = all.iter().map(|n| n.attributes[0].value.as_str()).collect();
    assert_eq!(ids, vec!["2", "4", "5"]);
    collect_named(&tree, WML_NS, "p", &mut all);
    assert_eq!(all.len(), 4);
    assert_eq!(all[3].attributes[0].value, "1");
}

#[test]
fn renderings_are_alike_from_two_fifths_on() {
    assert!(ink_passes(0, 0));
    assert!(ink_passes(2, 5));
    assert!(ink_passes(40, 100));
    assert!(!ink_passes(39, 100));
    assert!(!ink_passes(0, 1));
    assert!(ink_passes(7, 7));
    assert!(ink_passes(u64::MAX, u64::MAX));
    assert!(!ink_passes(1, u64::MAX));
}
