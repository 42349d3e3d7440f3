use docxside_pdf::docx::ThemeFonts;
use docxside_pdf::error::Error;
use docxside_pdf::model::{Alignment, Block, Paragraph};
use docxside_pdf::numbering::{
    count_item, list_label, parse_list_info, parse_numbering, parse_u8, replace_all, LevelDef,
};
use docxside_pdf::number::parse_number;
use docxside_pdf::package::{
    attach_image, compute_drawing_info, find_blip_embed, find_target, parse, parse_font_table,
    parse_relationships, parse_runs, store_embedded_font, zip_path, EmbedPlan, ImageCandidate,
};
use docxside_pdf::styles::{
    border_bottom_extra, find_style, is_on, latin_typeface, parse_border_bottom, parse_styles,
    parse_theme, read_units, resolve_based_on, twips_attr, twips_to_pts, wml, wml_attr,
    ParagraphStyle, DML_NS, REL_NS, WML_NS, WPD_NS,
};
use docxside_pdf::xml::{XmlAttr, XmlNode};

fn el(ns: &str, name: &str, attrs: &[(&str, &str, &str)], children: Vec<XmlNode>) -> XmlNode {
    XmlNode {
        namespace: if ns.is_empty() { None } else { Some(ns.to_string()) },
        name: name.to_string(),
        attributes: attrs
            .iter()
            .map(|(ns, name, value)| XmlAttr {
                namespace: if ns.is_empty() { None } else { Some(ns.to_string()) },
                name: name.to_string(),
                value: value.to_string(),
            })
            .collect(),
        children,
        text: None,
    }
}

/// An element of the word-processing markup whose attributes are in that
/// namespace too.
fn w(name: &str, attrs: &[(&str, &str)], children: Vec<XmlNode>) -> XmlNode {
    let full: Vec<(&str, &str, &str)> = attrs.iter().map(|(n, v)| (WML_NS, *n, *v)).collect();
    el(WML_NS, name, &full, children)
}

fn val(name: &str, value: &str) -> XmlNode {
    w(name, &[("val", value)], vec![])
}

fn text_run(text: &str, props: Vec<XmlNode>) -> XmlNode {
    let mut t = w("t", &[], vec![]);
    t.text = Some(text.to_string());
    let mut children = Vec::new();
    if !props.is_empty() {
        children.push(w("rPr", &[], props));
    }
    children.push(t);
    w("r", &[], children)
}

fn theme() -> ThemeFonts {
    ThemeFonts { major: "Major".to_string(), minor: "Minor".to_string() }
}

#[test]
fn numbers_from_text() {
    assert_eq!(parse_number("240"), Some(240_000));
    assert_eq!(parse_number("0"), Some(0));
    assert_eq!(parse_number("-20"), Some(-20_000));
    assert_eq!(parse_number("+7"), Some(7_000));
    assert_eq!(parse_number("12.5"), Some(12_500));
    assert_eq!(parse_number("12.3456"), Some(12_345));
    assert_eq!(parse_number(".5"), Some(500));
    assert_eq!(parse_number("5."), Some(5_000));
    assert_eq!(parse_number("-0.001"), Some(-1));
    assert_eq!(parse_number("1000000000000"), Some(1_000_000_000_000_000));
    assert_eq!(parse_number("1000000000000.001"), None);
    assert_eq!(parse_number("99999999999999999999999"), None);
    assert_eq!(parse_number(""), None);
    assert_eq!(parse_number("."), None);
    assert_eq!(parse_number("-"), None);
    assert_eq!(parse_number("1e3"), None);
    assert_eq!(parse_number("12a"), None);
    assert_eq!(parse_number("1.2.3"), None);
    assert_eq!(parse_number(" 1"), None);
    assert_eq!(parse_number("--1"), None);
    assert_eq!(parse_u8("0"), Some(0));
    assert_eq!(parse_u8("255"), Some(255));
    assert_eq!(parse_u8("+8"), Some(8));
    assert_eq!(parse_u8("007"), Some(7));
    assert_eq!(parse_u8("256"), None);
    assert_eq!(parse_u8("-1"), None);
    assert_eq!(parse_u8("1.0"), None);
    assert_eq!(parse_u8(""), None);
    assert_eq!(parse_u8("+"), None);
    assert_eq!(parse_u8("99999999999999999999"), None);
}

#[test]
fn units() {
    assert_eq!(read_units("240", 20), Some(12_000));
    assert_eq!(read_units("24", 2), Some(12_000));
    assert_eq!(read_units("4", 8), Some(500));
    assert_eq!(read_units("278", 240), Some(1_158));
    assert_eq!(read_units("914400", 12_700), Some(72_000));
    assert_eq!(read_units("-1", 20), Some(-50));
    assert_eq!(read_units("x", 20), None);
    assert_eq!(twips_to_pts(240_000), 12_000);
    assert_eq!(twips_to_pts(-1), -1);
}

#[test]
fn finding_elements_and_attributes() {
    let node = w(
        "pPr",
        &[("w", "100")],
        vec![el(DML_NS, "jc", &[], vec![]), val("jc", "center"), val("jc", "right"), w("keepNext", &[], vec![])],
    );
    assert_eq!(wml(&node, "jc").unwrap().attributes[0].value, "center");
    assert!(wml(&node, "spacing").is_none());
    assert_eq!(wml_attr(&node, "jc"), Some("center"));
    assert_eq!(wml_attr(&node, "keepNext"), None);
    assert_eq!(wml_attr(&node, "missing"), None);
    assert_eq!(twips_attr(&node, "w"), Some(5_000));
    assert_eq!(twips_attr(&node, "h"), None);
    // An attribute without namespace is found by its local name only.
    let plain = el("", "Relationship", &[(REL_NS, "Id", "namespaced"), ("", "Target", "t")], vec![]);
    assert_eq!(plain.attribute("Id"), Some("namespaced"));
    assert_eq!(plain.attribute_ns(REL_NS, "Id"), Some("namespaced"));
    assert_eq!(plain.attribute_ns(REL_NS, "Target"), None);
    assert!(plain.child(WML_NS, "x").is_none());
    assert!(!plain.has_name(WML_NS, "Relationship"));
    assert!(node.has_name(WML_NS, "pPr"));
    assert!(!node.has_name(DML_NS, "pPr"));
}

#[test]
fn switches() {
    assert!(is_on(&w("b", &[], vec![])));
    assert!(is_on(&val("b", "1")));
    assert!(is_on(&val("b", "true")));
    assert!(!is_on(&val("b", "0")));
    assert!(!is_on(&val("b", "false")));
}

fn border(attrs: &[(&str, &str)]) -> XmlNode {
    w("pPr", &[], vec![w("pBdr", &[], vec![w("bottom", attrs, vec![])])])
}

#[test]
fn rules_below_paragraphs() {
    let b = parse_border_bottom(&border(&[("val", "single"), ("sz", "12"), ("space", "1"), ("color", "FF0000")])).unwrap();
    assert_eq!((b.width_pt, b.space_pt, b.color), (1_500, 1_000, [255, 0, 0]));
    let plain = parse_border_bottom(&border(&[("val", "single")])).unwrap();
    assert_eq!((plain.width_pt, plain.space_pt, plain.color), (500, 0, [0, 0, 0]));
    let auto = parse_border_bottom(&border(&[("val", "double"), ("color", "auto"), ("sz", "x")])).unwrap();
    assert_eq!((auto.width_pt, auto.color), (500, [0, 0, 0]));
    assert!(parse_border_bottom(&border(&[("val", "none"), ("sz", "12")])).is_none());
    assert!(parse_border_bottom(&border(&[("val", "nil")])).is_none());
    assert!(parse_border_bottom(&border(&[("sz", "12")])).is_none());
    assert!(parse_border_bottom(&w("pPr", &[], vec![])).is_none());
    assert!(parse_border_bottom(&w("pPr", &[], vec![w("pBdr", &[], vec![])])).is_none());
    assert_eq!(border_bottom_extra(&border(&[("val", "single"), ("sz", "12"), ("space", "1")])), 2_500);
    assert_eq!(border_bottom_extra(&w("pPr", &[], vec![])), 0);
}

fn font_scheme(major: &str, minor: &str) -> XmlNode {
    let latin = |face: &str| el(DML_NS, "latin", &[("", "typeface", face)], vec![]);
    el(
        DML_NS,
        "theme",
        &[],
        vec![el(
            DML_NS,
            "themeElements",
            &[],
            vec![el(
                DML_NS,
                "fontScheme",
                &[],
                vec![el(DML_NS, "majorFont", &[], vec![latin(major)]), el(DML_NS, "minorFont", &[], vec![latin(minor)])],
            )],
        )],
    )
}

#[test]
fn theme_fonts() {
    let t = parse_theme(Some(&font_scheme("Cambria", "Calibri")));
    assert_eq!((t.major.as_str(), t.minor.as_str()), ("Cambria", "Calibri"));
    let none = parse_theme(None);
    assert_eq!((none.major.as_str(), none.minor.as_str()), ("Aptos Display", "Aptos"));
    // An empty typeface says nothing.
    let t = parse_theme(Some(&font_scheme("", "Calibri")));
    assert_eq!((t.major.as_str(), t.minor.as_str()), ("Aptos Display", "Calibri"));
    assert_eq!(latin_typeface(&el(DML_NS, "majorFont", &[], vec![])), None);
    // The markup of another namespace is passed over.
    let mut other = font_scheme("Cambria", "Calibri");
    other.children[0].children[0].children[0].namespace = Some(WML_NS.to_string());
    let t = parse_theme(Some(&other));
    assert_eq!((t.major.as_str(), t.minor.as_str()), ("Aptos Display", "Calibri"));
}

fn style(id: &str, based_on: Option<&str>, ppr: Vec<XmlNode>, rpr: Vec<XmlNode>) -> XmlNode {
    let mut children = Vec::new();
    if let Some(b) = based_on {
        children.push(val("basedOn", b));
    }
    children.push(w("pPr", &[], ppr));
    children.push(w("rPr", &[], rpr));
    w("style", &[("type", "paragraph"), ("styleId", id)], children)
}

fn styles_part() -> XmlNode {
    w(
        "styles",
        &[],
        vec![
            w(
                "docDefaults",
                &[],
                vec![
                    w("rPrDefault", &[], vec![w("rPr", &[], vec![val("sz", "22"), w("rFonts", &[("asciiTheme", "minorHAnsi")], vec![])])]),
                    w("pPrDefault", &[], vec![w("pPr", &[], vec![w("spacing", &[("after", "160"), ("line", "278")], vec![])])]),
                ],
            ),
            style("Normal", None, vec![], vec![]),
            style(
                "Heading1",
                Some("Normal"),
                vec![w("spacing", &[("before", "360"), ("after", "80")], vec![]), w("keepNext", &[], vec![]), val("jc", "center")],
                vec![val("sz", "40"), w("rFonts", &[("asciiTheme", "majorHAnsi")], vec![]), val("color", "0F4761"), w("b", &[], vec![])],
            ),
            style("Title", Some("Heading1"), vec![w("contextualSpacing", &[], vec![])], vec![val("sz", "56"), val("b", "0")]),
            w("style", &[("type", "character"), ("styleId", "Strong")], vec![]),
            w("style", &[("type", "paragraph")], vec![]),
        ],
    )
}

#[test]
fn styles_and_what_they_take_over() {
    let info = parse_styles(Some(&styles_part()), &theme());
    assert_eq!(info.defaults.font_size, 11_000);
    assert_eq!(info.defaults.font_name, "Minor");
    assert_eq!(info.defaults.space_after, 8_000);
    assert_eq!(info.defaults.line_spacing, 1_158);
    assert_eq!(info.paragraph_styles.len(), 3);
    let h = &info.paragraph_styles[find_style(&info.paragraph_styles, "Heading1").unwrap()];
    assert_eq!(h.font_size, Some(20_000));
    assert_eq!(h.font_name.as_deref(), Some("Major"));
    assert_eq!(h.bold, Some(true));
    assert_eq!(h.italic, None);
    assert_eq!(h.color, Some([0x0f, 0x47, 0x61]));
    assert_eq!(h.space_before, 18_000);
    assert_eq!(h.space_after, Some(4_000));
    assert_eq!(h.alignment, Some(Alignment::Center));
    assert!(h.keep_next);
    assert!(!h.contextual_spacing);
    assert_eq!(h.based_on.as_deref(), Some("Normal"));
    let t = &info.paragraph_styles[find_style(&info.paragraph_styles, "Title").unwrap()];
    // Its own where it states something, the heading's where it does not.
    assert_eq!(t.font_size, Some(28_000));
    assert_eq!(t.bold, Some(false));
    assert_eq!(t.font_name.as_deref(), Some("Major"));
    assert_eq!(t.color, Some([0x0f, 0x47, 0x61]));
    assert_eq!(t.alignment, Some(Alignment::Center));
    assert_eq!(t.space_after, Some(4_000));
    // Space before and keeping with the next are not taken over.
    assert_eq!(t.space_before, 0);
    assert!(!t.keep_next);
    assert!(t.contextual_spacing);
    let n = &info.paragraph_styles[find_style(&info.paragraph_styles, "Normal").unwrap()];
    assert_eq!(n.font_size, None);
    assert!(find_style(&info.paragraph_styles, "Strong").is_none());
    let none = parse_styles(None, &theme());
    assert_eq!((none.defaults.font_size, none.defaults.space_after, none.defaults.line_spacing), (12_000, 8_000, 1_200));
    assert_eq!(none.defaults.font_name, "Minor");
    assert!(none.paragraph_styles.is_empty());
}

fn bare(id: &str, based_on: Option<&str>, font_size: Option<i64>, bold: Option<bool>) -> ParagraphStyle {
    ParagraphStyle {
        id: id.to_string(),
        font_size,
        font_name: None,
        bold,
        italic: None,
        color: None,
        space_before: 0,
        space_after: None,
        alignment: None,
        contextual_spacing: false,
        keep_next: false,
        line_spacing: None,
        border_bottom_extra: 0,
        border_bottom: None,
        based_on: based_on.map(|b| b.to_string()),
    }
}

#[test]
fn the_nearest_style_that_states_a_property_gives_it() {
    let mut styles = vec![
        bare("c", Some("b"), None, None),
        bare("a", None, Some(10_000), Some(true)),
        bare("b", Some("a"), Some(20_000), None),
        bare("orphan", Some("missing"), None, None),
    ];
    resolve_based_on(&mut styles);
    assert_eq!((styles[0].font_size, styles[0].bold), (Some(20_000), Some(true)));
    assert_eq!((styles[1].font_size, styles[1].bold), (Some(10_000), Some(true)));
    assert_eq!((styles[2].font_size, styles[2].bold), (Some(20_000), Some(true)));
    assert_eq!((styles[3].font_size, styles[3].bold), (None, None));
}

#[test]
fn styles_based_on_one_another_in_a_circle() {
    let mut styles = vec![bare("x", Some("y"), Some(10_000), None), bare("y", Some("x"), None, Some(true)), bare("self", Some("self"), None, None)];
    resolve_based_on(&mut styles);
    assert_eq!((styles[0].font_size, styles[0].bold), (Some(10_000), Some(true)));
    assert_eq!((styles[1].font_size, styles[1].bold), (Some(10_000), Some(true)));
    assert_eq!((styles[2].font_size, styles[2].bold), (None, None));
}

#[test]
fn the_last_style_of_an_id_counts() {
    let styles = vec![bare("a", None, Some(1), None), bare("b", None, None, None), bare("a", None, Some(2), None)];
    assert_eq!(find_style(&styles, "a"), Some(2));
    assert_eq!(find_style(&styles, "b"), Some(1));
    assert_eq!(find_style(&styles, "c"), None);
}

#[test]
fn replacing() {
    assert_eq!(replace_all("%1.%2.%1", "%1", "7"), "7.%2.7");
    assert_eq!(replace_all("aaa", "aa", "b"), "ba");
    assert_eq!(replace_all("abc", "", "x"), "abc");
    assert_eq!(replace_all("abc", "abcd", "x"), "abc");
    assert_eq!(replace_all("", "a", "x"), "");
    assert_eq!(replace_all("abab", "ab", ""), "");
}

fn level(ilvl: u8, num_fmt: &str, lvl_text: &str) -> LevelDef {
    LevelDef { ilvl, num_fmt: num_fmt.to_string(), lvl_text: lvl_text.to_string(), indent_left: 36_000, indent_hanging: 18_000 }
}

#[test]
fn labels_of_list_items() {
    assert_eq!(list_label(&level(0, "bullet", "\u{f0b7}"), 3), "\u{2022}");
    assert_eq!(list_label(&level(0, "decimal", "%1."), 3), "3.");
    assert_eq!(list_label(&level(1, "decimal", "%1.%2)"), 12), "%1.12)");
    assert_eq!(list_label(&level(9, "lowerLetter", "(%10)"), 4), "(4)");
    assert_eq!(list_label(&level(0, "decimal", ""), 1), "");
}

fn numbering_part() -> XmlNode {
    let lvl = |ilvl: &str, fmt: &str, text: &str, left: &str| {
        w(
            "lvl",
            &[("ilvl", ilvl)],
            vec![val("numFmt", fmt), val("lvlText", text), w("pPr", &[], vec![w("ind", &[("left", left), ("hanging", "360")], vec![])])],
        )
    };
    w(
        "numbering",
        &[],
        vec![
            w("abstractNum", &[("abstractNumId", "0")], vec![lvl("0", "decimal", "%1.", "720"), lvl("1", "bullet", "o", "1440"), lvl("x", "decimal", "", "0")]),
            w("abstractNum", &[("abstractNumId", "1")], vec![w("lvl", &[("ilvl", "0")], vec![])]),
            w("num", &[("numId", "5")], vec![val("abstractNumId", "0")]),
            w("num", &[("numId", "6")], vec![val("abstractNumId", "1")]),
            w("num", &[("numId", "7")], vec![val("abstractNumId", "9")]),
            w("num", &[("numId", "8")], vec![]),
        ],
    )
}

fn num_pr(num_id: &str, ilvl: Option<&str>) -> XmlNode {
    let mut children = vec![val("numId", num_id)];
    if let Some(l) = ilvl {
        children.push(val("ilvl", l));
    }
    w("numPr", &[], children)
}

#[test]
fn list_definitions_and_items() {
    let numbering = parse_numbering(Some(&numbering_part()));
    assert_eq!(numbering.abstract_nums.len(), 2);
    assert_eq!(numbering.abstract_nums[0].levels.len(), 2);
    assert_eq!(numbering.abstract_nums[1].levels[0].num_fmt, "bullet");
    assert_eq!(numbering.abstract_nums[1].levels[0].lvl_text, "");
    assert_eq!(numbering.num_to_abstract.len(), 3);
    let mut counters = Vec::new();
    let item = |n: &XmlNode, c: &mut Vec<_>| parse_list_info(Some(n), &numbering, c);
    assert_eq!(item(&num_pr("5", Some("0")), &mut counters), (36_000, 18_000, "1.".to_string()));
    assert_eq!(item(&num_pr("5", None), &mut counters), (36_000, 18_000, "2.".to_string()));
    assert_eq!(item(&num_pr("5", Some("1")), &mut counters), (72_000, 18_000, "\u{2022}".to_string()));
    assert_eq!(item(&num_pr("5", Some("bad")), &mut counters), (36_000, 18_000, "3.".to_string()));
    assert_eq!(item(&num_pr("6", Some("0")), &mut counters), (0, 0, "\u{2022}".to_string()));
    // A list or level that is not defined.
    assert_eq!(item(&num_pr("7", Some("0")), &mut counters), (0, 0, String::new()));
    assert_eq!(item(&num_pr("1", Some("0")), &mut counters), (0, 0, String::new()));
    assert_eq!(item(&num_pr("5", Some("2")), &mut counters), (0, 0, String::new()));
    assert_eq!(item(&w("numPr", &[], vec![]), &mut counters), (0, 0, String::new()));
    assert_eq!(parse_list_info(None, &numbering, &mut counters), (0, 0, String::new()));
    assert_eq!(counters.len(), 3);
    let none = parse_numbering(None);
    assert!(none.abstract_nums.is_empty() && none.num_to_abstract.is_empty());
}

#[test]
fn counting_items() {
    let mut counters = Vec::new();
    assert_eq!(count_item(&mut counters, "1", 0), 1);
    assert_eq!(count_item(&mut counters, "1", 0), 2);
    assert_eq!(count_item(&mut counters, "1", 1), 1);
    assert_eq!(count_item(&mut counters, "2", 0), 1);
    assert_eq!(count_item(&mut counters, "1", 0), 3);
    counters[0].count = u32::MAX;
    assert_eq!(count_item(&mut counters, "1", 0), u32::MAX);
}

fn rels_part() -> XmlNode {
    let rel = |id: &str, target: &str| el("ns", "Relationship", &[("", "Id", id), ("", "Target", target)], vec![]);
    el(
        "ns",
        "Relationships",
        &[],
        vec![
            rel("rId1", "media/image1.jpeg"),
            rel("rId2", "/word/media/image2.jpeg"),
            el("ns", "Relationship", &[("", "Id", "rId3")], vec![]),
            el("ns", "Other", &[("", "Id", "rId4"), ("", "Target", "x")], vec![]),
            rel("rId1", "media/later.jpeg"),
        ],
    )
}

#[test]
fn relationships_and_paths() {
    let rels = parse_relationships(Some(&rels_part()));
    assert_eq!(rels.len(), 3);
    assert_eq!(find_target(&rels, "rId1"), Some("media/later.jpeg"));
    assert_eq!(find_target(&rels, "rId2"), Some("/word/media/image2.jpeg"));
    assert_eq!(find_target(&rels, "rId3"), None);
    assert_eq!(find_target(&rels, "rId4"), None);
    assert!(parse_relationships(None).is_empty());
    assert_eq!(zip_path("media/image1.jpeg"), "word/media/image1.jpeg");
    assert_eq!(zip_path("/word/media/image2.jpeg"), "word/media/image2.jpeg");
    assert_eq!(zip_path("/"), "");
    assert_eq!(zip_path(""), "word/");
    assert_eq!(zip_path("//x"), "/x");
}

#[test]
fn fonts_that_a_package_carries() {
    let embed = |tag: &str, id: &str, key: Option<&str>| {
        let mut attrs = vec![(REL_NS, "id", id)];
        if let Some(k) = key {
            attrs.push((WML_NS, "fontKey", k));
        }
        el(WML_NS, tag, &attrs, vec![])
    };
    let table = w(
        "fonts",
        &[],
        vec![
            w(
                "font",
                &[("name", "Aptos")],
                vec![
                    embed("embedBold", "rId2", None),
                    embed("embedRegular", "rId1", Some("{302EE813-EB4A-4642-A93A-89EF99B2457E}")),
                    embed("embedItalic", "rId9", None),
                    embed("embedBoldItalic", "rId1", Some("not a key")),
                ],
            ),
            w("font", &[], vec![embed("embedRegular", "rId1", None)]),
            el(DML_NS, "font", &[(WML_NS, "name", "Other")], vec![embed("embedRegular", "rId1", None)]),
        ],
    );
    let rels = parse_relationships(Some(&rels_part()));
    let plans = parse_font_table(Some(&table), &rels);
    let seen: Vec<(&str, bool, bool, &str, bool)> = plans.iter().map(|p| (p.font_name.as_str(), p.bold, p.italic, p.zip_path.as_str(), p.key.is_some())).collect();
    assert_eq!(
        seen,
        vec![
            ("Aptos", false, false, "word/media/later.jpeg", true),
            ("Aptos", true, false, "word/media/image2.jpeg", false),
            ("Aptos", true, true, "word/media/later.jpeg", false),
        ]
    );
    assert_eq!(plans[0].key.unwrap()[0], 0x7e);
    assert!(parse_font_table(None, &rels).is_empty());
}

#[test]
fn storing_carried_fonts() {
    let plan = |name: &str, bold: bool, key: Option<[u8; 16]>| EmbedPlan { font_name: name.to_string(), bold, italic: false, zip_path: String::new(), key };
    let mut fonts = Vec::new();
    store_embedded_font(&mut fonts, &plan("Aptos", false, None), vec![1, 2, 3]);
    store_embedded_font(&mut fonts, &plan("Aptos", true, Some([0xff; 16])), vec![0x0f; 40]);
    store_embedded_font(&mut fonts, &plan("APTOS", false, None), vec![4]);
    assert_eq!(fonts.len(), 2);
    assert_eq!((fonts[0].family.as_str(), fonts[0].bold, &fonts[0].data), ("aptos", false, &vec![4]));
    assert_eq!(fonts[1].family, "aptos");
    assert!(fonts[1].bold);
    assert_eq!(fonts[1].data[..32], [0xf0; 32]);
    assert_eq!(fonts[1].data[32..], [0x0f; 8]);
}

fn styles_for_runs() -> docxside_pdf::styles::StylesInfo {
    parse_styles(Some(&styles_part()), &theme())
}

#[test]
fn runs_of_a_paragraph() {
    let styles = styles_for_runs();
    let para = w(
        "p",
        &[],
        vec![
            w("pPr", &[], vec![val("pStyle", "Heading1")]),
            text_run("plain ", vec![]),
            text_run("own", vec![val("sz", "24"), w("rFonts", &[("ascii", "Courier")], vec![]), val("b", "0"), w("i", &[], vec![]), val("color", "00FF00")]),
            text_run("", vec![]),
            w("hyperlink", &[], vec![text_run("link", vec![val("color", "auto")]), val("r", "x")]),
            el(DML_NS, "r", &[], vec![]),
        ],
    );
    let runs = parse_runs(&para, &styles, &theme());
    let seen: Vec<(&str, i64, &str, bool, bool, Option<[u8; 3]>)> =
        runs.iter().map(|r| (r.text.as_str(), r.font_size, r.font_name.as_str(), r.bold, r.italic, r.color)).collect();
    assert_eq!(
        seen,
        vec![
            ("plain ", 20_000, "Major", true, false, Some([0x0f, 0x47, 0x61])),
            ("own", 12_000, "Courier", false, true, Some([0, 255, 0])),
            ("link", 20_000, "Major", true, false, Some([0x0f, 0x47, 0x61])),
        ]
    );
    assert!(runs.iter().all(|r| !r.underline && !r.strikethrough && !r.is_tab && r.field_code.is_none()));
}

#[test]
fn runs_without_style_and_the_mark_of_an_empty_paragraph() {
    let styles = styles_for_runs();
    let plain = w("p", &[], vec![text_run("a", vec![])]);
    let runs = parse_runs(&plain, &styles, &theme());
    assert_eq!((runs[0].font_size, runs[0].font_name.as_str(), runs[0].bold, runs[0].color), (11_000, "Minor", false, None));
    let unknown = w("p", &[], vec![w("pPr", &[], vec![val("pStyle", "Nope")]), text_run("a", vec![])]);
    assert_eq!(parse_runs(&unknown, &styles, &theme())[0].font_size, 11_000);
    let empty = w("p", &[], vec![w("pPr", &[], vec![val("pStyle", "Heading1"), w("rPr", &[], vec![val("sz", "32")])])]);
    let runs = parse_runs(&empty, &styles, &theme());
    assert_eq!(runs.len(), 1);
    assert_eq!((runs[0].text.as_str(), runs[0].font_size, runs[0].font_name.as_str(), runs[0].bold, runs[0].color), ("", 16_000, "Major", true, None));
    let no_size = w("p", &[], vec![w("pPr", &[], vec![w("rPr", &[], vec![w("b", &[], vec![])])])]);
    assert!(parse_runs(&no_size, &styles, &theme()).is_empty());
    assert!(parse_runs(&w("p", &[], vec![]), &styles, &theme()).is_empty());
}

fn drawing(kind: &str, cx: &str, cy: &str, embed: Option<&str>) -> XmlNode {
    let mut children = vec![el(WPD_NS, "extent", &[("", "cx", cx), ("", "cy", cy)], vec![])];
    if let Some(id) = embed {
        children.push(el(DML_NS, "graphic", &[], vec![el(DML_NS, "graphicData", &[], vec![el("pic", "pic", &[], vec![el("pic", "blipFill", &[], vec![el(DML_NS, "blip", &[(REL_NS, "embed", id)], vec![])])])])]));
    }
    w("drawing", &[], vec![el(WPD_NS, kind, &[], children)])
}

#[test]
fn drawings_of_a_paragraph() {
    let rels = parse_relationships(Some(&rels_part()));
    let para = w(
        "p",
        &[],
        vec![
            w("r", &[], vec![drawing("inline", "1270000", "635000", Some("rId2"))]),
            drawing("anchor", "12700", "1905000", Some("rId7")),
            w("r", &[], vec![drawing("other", "99999999", "99999999", Some("rId1"))]),
            w("r", &[], vec![drawing("inline", "x", "", Some("rId1"))]),
            w("r", &[], vec![drawing("inline", "25400", "25400", None)]),
        ],
    );
    let info = compute_drawing_info(&para, &rels);
    assert_eq!(info.height, 150_000);
    let seen: Vec<(&str, i64, i64)> = info.candidates.iter().map(|c| (c.zip_path.as_str(), c.display_width, c.display_height)).collect();
    assert_eq!(seen, vec![("word/media/image2.jpeg", 100_000, 50_000), ("word/media/later.jpeg", 0, 0)]);
    let none = compute_drawing_info(&w("p", &[], vec![text_run("a", vec![])]), &rels);
    assert_eq!(none.height, 0);
    assert!(none.candidates.is_empty());
    assert_eq!(find_blip_embed(&drawing("inline", "1", "1", Some("rId5"))), Some("rId5"));
    assert_eq!(find_blip_embed(&drawing("inline", "1", "1", None)), None);
}

fn empty_paragraph() -> Paragraph {
    Paragraph {
        runs: vec![],
        space_before: 0,
        space_after: 0,
        content_height: 0,
        alignment: Alignment::Left,
        indent_left: 0,
        indent_hanging: 0,
        list_label: String::new(),
        contextual_spacing: false,
        keep_next: false,
        line_spacing: None,
        image: None,
        border_bottom: None,
        page_break_before: false,
        tab_stops: vec![],
    }
}

#[test]
fn images_are_attached_once_and_only_if_they_are_jpeg() {
    let candidate = ImageCandidate { zip_path: "word/media/a.jpeg".to_string(), display_width: 100_000, display_height: 50_000 };
    let mut jpeg = vec![0xff, 0xd8, 0xff, 0xc0, 0, 17, 8, 0, 20, 0, 30, 3, 1, 0x22, 0, 2, 0x11, 1, 3, 0x11, 1, 0xff, 0xd9];
    let mut p = empty_paragraph();
    assert!(!attach_image(&mut p, &candidate, vec![1, 2, 3]));
    assert!(p.image.is_none());
    assert!(attach_image(&mut p, &candidate, jpeg.clone()));
    let img = p.image.as_ref().unwrap();
    assert_eq!((img.pixel_width, img.pixel_height, img.display_width, img.display_height), (30, 20, 100_000, 50_000));
    assert_eq!(img.data, jpeg);
    jpeg[8] = 99;
    assert!(!attach_image(&mut p, &candidate, jpeg));
    assert_eq!(p.image.as_ref().unwrap().pixel_height, 20);
}

fn document(body: Vec<XmlNode>) -> XmlNode {
    w("document", &[], vec![w("body", &[], body)])
}

fn parsed(root: &XmlNode) -> docxside_pdf::package::ParsedDocument {
    let styles = styles_for_runs();
    let numbering = parse_numbering(Some(&numbering_part()));
    let rels = parse_relationships(Some(&rels_part()));
    parse(root, &styles, &theme(), &numbering, &rels).unwrap()
}

#[test]
fn a_document_without_body_is_refused() {
    let styles = styles_for_runs();
    let numbering = parse_numbering(None);
    match parse(&w("document", &[], vec![]), &styles, &theme(), &numbering, &vec![]) {
        Err(Error::Pdf(reason)) => assert_eq!(reason, "Missing w:body"),
        other => panic!("{:?}", other.map(|_| ())),
    }
}

#[test]
fn page_geometry() {
    let d = parsed(&document(vec![])).document;
    assert_eq!((d.page_width, d.page_height), (612_000, 792_000));
    assert_eq!((d.margin_top, d.margin_bottom, d.margin_left, d.margin_right), (72_000, 72_000, 72_000, 72_000));
    assert_eq!((d.header_margin, d.footer_margin), (36_000, 36_000));
    // Twelve tenths of the default font size of 11pt.
    assert_eq!(d.line_pitch, 13_200);
    assert_eq!(d.line_spacing, 1_158);
    assert!(d.blocks.is_empty());
    let sect = w(
        "sectPr",
        &[],
        vec![
            w("pgSz", &[("w", "11906"), ("h", "16838")], vec![]),
            w("pgMar", &[("top", "1440"), ("bottom", "1134"), ("left", "1701"), ("right", "850"), ("header", "708"), ("footer", "709")], vec![]),
            w("docGrid", &[("linePitch", "360")], vec![]),
        ],
    );
    let d = parsed(&document(vec![sect])).document;
    assert_eq!((d.page_width, d.page_height), (595_300, 841_900));
    assert_eq!((d.margin_top, d.margin_bottom, d.margin_left, d.margin_right), (72_000, 56_700, 85_050, 42_500));
    assert_eq!((d.header_margin, d.footer_margin), (35_400, 35_450));
    assert_eq!(d.line_pitch, 18_000);
}

fn paragraph_of(block: &Block) -> &Paragraph {
    match block {
        Block::Paragraph(p) => p,
        Block::Table(_) => panic!("a table"),
    }
}

#[test]
fn paragraphs_of_the_body() {
    let styled = w("p", &[], vec![w("pPr", &[], vec![val("pStyle", "Heading1")]), text_run("Heading", vec![])]);
    let own = w(
        "p",
        &[],
        vec![
            w(
                "pPr",
                &[],
                vec![
                    val("pStyle", "Heading1"),
                    w("spacing", &[("before", "100"), ("after", "200"), ("line", "480")], vec![]),
                    val("jc", "both"),
                    w("contextualSpacing", &[], vec![]),
                    w("pBdr", &[], vec![w("bottom", &[("val", "single"), ("sz", "8"), ("space", "2")], vec![])]),
                    w("ind", &[("left", "400")], vec![]),
                    num_pr("5", Some("0")),
                ],
            ),
            text_run("Item", vec![]),
            w("r", &[], vec![drawing("inline", "1270000", "635000", Some("rId2"))]),
        ],
    );
    let plain = w("p", &[], vec![w("pPr", &[], vec![num_pr("5", None), w("rPr", &[], vec![val("sz", "30")])])]);
    let out = parsed(&document(vec![styled, el(DML_NS, "p", &[], vec![]), own, w("bookmarkStart", &[], vec![]), plain]));
    let d = &out.document;
    assert_eq!(d.blocks.len(), 3);
    let a = paragraph_of(&d.blocks[0]);
    assert_eq!((a.space_before, a.space_after), (18_000, 4_000));
    assert_eq!(a.alignment, Alignment::Center);
    assert!(a.keep_next && !a.contextual_spacing);
    assert_eq!(a.line_spacing, None);
    assert_eq!((a.indent_left, a.indent_hanging, a.list_label.as_str()), (0, 0, ""));
    assert_eq!(a.content_height, 0);
    assert!(a.border_bottom.is_none());
    let b = paragraph_of(&d.blocks[1]);
    // The space after takes the rule's gap and width with it.
    assert_eq!((b.space_before, b.space_after), (5_000, 10_000 + 2_000 + 1_000));
    assert_eq!(b.alignment, Alignment::Justify);
    assert!(b.keep_next && b.contextual_spacing);
    assert_eq!(b.line_spacing, Some(2_000));
    assert_eq!((b.indent_left, b.indent_hanging, b.list_label.as_str()), (20_000, 18_000, "1."));
    assert_eq!(b.content_height, 50_000);
    assert_eq!(b.border_bottom.unwrap().width_pt, 1_000);
    assert!(b.image.is_none());
    let c = paragraph_of(&d.blocks[2]);
    assert_eq!((c.space_before, c.space_after), (0, 8_000));
    assert_eq!(c.alignment, Alignment::Left);
    assert_eq!((c.indent_left, c.indent_hanging, c.list_label.as_str()), (36_000, 18_000, "2."));
    assert_eq!(c.runs.len(), 1);
    assert_eq!((c.runs[0].text.as_str(), c.runs[0].font_size), ("", 15_000));
    assert_eq!(out.drawings.len(), 1);
    assert_eq!(out.drawings[0].block, 1);
    assert_eq!(out.drawings[0].candidates[0].zip_path, "word/media/image2.jpeg");
}

#[test]
fn tables_of_the_body() {
    let cell = |width: Option<&str>, text: &str| {
        let mut children = Vec::new();
        if let Some(wd) = width {
            children.push(w("tcPr", &[], vec![w("tcW", &[("w", wd)], vec![])]));
        }
        children.push(w("p", &[], vec![w("pPr", &[], vec![val("jc", "right")]), text_run(text, vec![])]));
        children.push(w("p", &[], vec![]));
        w("tc", &[], children)
    };
    let tbl = w(
        "tbl",
        &[],
        vec![
            w("tblGrid", &[], vec![w("gridCol", &[("w", "2000")], vec![]), w("gridCol", &[("w", "bad")], vec![]), w("gridCol", &[("w", "3000")], vec![])]),
            w("tr", &[], vec![cell(Some("1000"), "a"), cell(None, "b"), cell(None, "c")]),
            w("tr", &[], vec![]),
        ],
    );
    let out = parsed(&document(vec![tbl]));
    let table = match &out.document.blocks[0] {
        Block::Table(t) => t,
        _ => panic!("no table"),
    };
    assert_eq!(table.col_widths, vec![100_000, 150_000]);
    assert_eq!(table.rows.len(), 2);
    let widths: Vec<i64> = table.rows[0].cells.iter().map(|c| c.width).collect();
    // As the cell says; as the column; an inch where there is no column.
    assert_eq!(widths, vec![50_000, 150_000, 72_000]);
    let p = &table.rows[0].cells[0].paragraphs[0];
    assert_eq!(p.alignment, Alignment::Right);
    assert_eq!(p.line_spacing, Some(1_000));
    assert_eq!((p.space_before, p.space_after), (0, 0));
    assert_eq!(p.runs[0].text, "a");
    assert_eq!(table.rows[0].cells[0].paragraphs.len(), 2);
    assert!(table.rows[1].cells.is_empty());
}
