use docxside_pdf::model::EmbeddedFont;
use docxside_pdf::registry::{
    embed_truetype, find_font_file, font_family_name, font_file_kind, get_font_index,
    helvetica_widths, read_font_style, register_font, FontFile, FontIndex, FontSource, HostFace,
    HostFile,
};
use docxside_pdf::face::{cmap_passes, is_readable, load, FaceName};

struct Face {
    units_per_em: u16,
    family: &'static str,
    bold: bool,
    italic: bool,
    wide_advance: u16,
}

const PLAIN: Face = Face { units_per_em: 2000, family: "Test Sans", bold: false, italic: false, wide_advance: 1200 };

fn be16(v: u16) -> [u8; 2] {
    v.to_be_bytes()
}

fn utf16(s: &str) -> Vec<u8> {
    s.encode_utf16().flat_map(|u| u.to_be_bytes()).collect()
}

fn head(face: &Face) -> Vec<u8> {
    let mut t = vec![0u8; 54];
    t[0..4].copy_from_slice(&0x0001_0000u32.to_be_bytes());
    t[12..16].copy_from_slice(&0x5f0f_3cf5u32.to_be_bytes());
    t[18..20].copy_from_slice(&be16(face.units_per_em));
    t[36..38].copy_from_slice(&(-200i16).to_be_bytes());
    t[38..40].copy_from_slice(&(-500i16).to_be_bytes());
    t[40..42].copy_from_slice(&2400i16.to_be_bytes());
    t[42..44].copy_from_slice(&1900i16.to_be_bytes());
    t
}

fn hhea() -> Vec<u8> {
    let mut t = vec![0u8; 36];
    t[0..4].copy_from_slice(&0x0001_0000u32.to_be_bytes());
    t[4..6].copy_from_slice(&1600i16.to_be_bytes());
    t[6..8].copy_from_slice(&(-400i16).to_be_bytes());
    t[8..10].copy_from_slice(&180i16.to_be_bytes());
    t[34..36].copy_from_slice(&be16(3));
    t
}

fn maxp() -> Vec<u8> {
    let mut t = 0x0000_5000u32.to_be_bytes().to_vec();
    t.extend_from_slice(&be16(3));
    t
}

fn hmtx(face: &Face) -> Vec<u8> {
    let mut t = Vec::new();
    for advance in [500u16, 600, face.wide_advance] {
        t.extend_from_slice(&be16(advance));
        t.extend_from_slice(&be16(0));
    }
    t
}

fn cmap() -> Vec<u8> {
    let mut t = Vec::new();
    t.extend_from_slice(&be16(0));
    t.extend_from_slice(&be16(1));
    t.extend_from_slice(&be16(3));
    t.extend_from_slice(&be16(1));
    t.extend_from_slice(&12u32.to_be_bytes());
    t.extend_from_slice(&be16(0));
    t.extend_from_slice(&be16(262));
    t.extend_from_slice(&be16(0));
    for code in 0u32..256 {
        t.push(if code == 'W' as u32 { 2 } else if (32..127).contains(&code) { 1 } else { 0 });
    }
    t
}

fn name(face: &Face) -> Vec<u8> {
    // A family name in an encoding that is not Unicode, the full name, and
    // the family name in Unicode.
    let strings = [(1u16, 0u16, 1u16, b"Old".to_vec()), (3, 1, 4, utf16("Full Name")), (3, 1, 1, utf16(face.family))];
    let mut t = Vec::new();
    t.extend_from_slice(&be16(0));
    t.extend_from_slice(&be16(strings.len() as u16));
    t.extend_from_slice(&be16(6 + 12 * strings.len() as u16));
    let mut offset = 0u16;
    for (platform, encoding, id, bytes) in &strings {
        t.extend_from_slice(&be16(*platform));
        t.extend_from_slice(&be16(*encoding));
        t.extend_from_slice(&be16(0x409));
        t.extend_from_slice(&be16(*id));
        t.extend_from_slice(&be16(bytes.len() as u16));
        t.extend_from_slice(&be16(offset));
        offset += bytes.len() as u16;
    }
    for (_, _, _, bytes) in &strings {
        t.extend_from_slice(bytes);
    }
    t
}

fn os2(face: &Face) -> Vec<u8> {
    let mut t = vec![0u8; 96];
    t[0..2].copy_from_slice(&be16(2));
    let selection = (if face.bold { 0x20 } else { 0 }) | (if face.italic { 0x01 } else { 0 });
    t[62..64].copy_from_slice(&be16(selection));
    t[88..90].copy_from_slice(&1360i16.to_be_bytes());
    t
}

/// A font with three glyphs, whose tables start at `base` in the file.
fn font_at(face: &Face, base: u32) -> Vec<u8> {
    let tables: Vec<(&[u8; 4], Vec<u8>)> = vec![
        (b"OS/2", os2(face)),
        (b"cmap", cmap()),
        (b"head", head(face)),
        (b"hhea", hhea()),
        (b"hmtx", hmtx(face)),
        (b"maxp", maxp()),
        (b"name", name(face)),
    ];
    let mut out = Vec::new();
    out.extend_from_slice(&0x0001_0000u32.to_be_bytes());
    out.extend_from_slice(&be16(tables.len() as u16));
    out.extend_from_slice(&[0; 6]);
    let mut offset = 12 + 16 * tables.len() as u32;
    for (tag, data) in &tables {
        out.extend_from_slice(*tag);
        out.extend_from_slice(&[0; 4]);
        out.extend_from_slice(&(base + offset).to_be_bytes());
        out.extend_from_slice(&(data.len() as u32).to_be_bytes());
        offset += data.len() as u32;
    }
    for (_, data) in &tables {
        out.extend_from_slice(data);
    }
    out
}

fn font(face: &Face) -> Vec<u8> {
    font_at(face, 0)
}

fn collection(faces: &[Face]) -> Vec<u8> {
    let header = 12 + 4 * faces.len() as u32;
    let mut blobs: Vec<Vec<u8>> = Vec::new();
    let mut at = header;
    let mut offsets = Vec::new();
    for face in faces {
        let blob = font_at(face, at);
        offsets.push(at);
        at += blob.len() as u32;
        blobs.push(blob);
    }
    let mut out = b"ttcf".to_vec();
    out.extend_from_slice(&0x0001_0000u32.to_be_bytes());
    out.extend_from_slice(&(faces.len() as u32).to_be_bytes());
    for o in offsets {
        out.extend_from_slice(&o.to_be_bytes());
    }
    for blob in blobs {
        out.extend_from_slice(&blob);
    }
    out
}

#[test]
fn metrics_of_a_face() {
    let m = embed_truetype("Test Sans", &font(&PLAIN), 0).unwrap();
    assert_eq!(m.widths_1000.len(), 224);
    // Advances of 600 and 1200 units at 2000 units per em.
    assert_eq!(m.widths_1000[0], 300);
    assert_eq!(m.widths_1000[(b'a' - 32) as usize], 300);
    assert_eq!(m.widths_1000[(b'W' - 32) as usize], 600);
    // No glyph for the tilde's neighbour, the Latin-1 letters or the euro.
    assert_eq!(m.widths_1000[127 - 32], 0);
    assert_eq!(m.widths_1000[0x80 - 32], 0);
    assert_eq!(m.widths_1000[0xe9 - 32], 0);
    assert_eq!(m.line_h_ratio, 1_090);
    assert_eq!(m.ascender_ratio, 800);
    assert_eq!(m.ascent, 800);
    assert_eq!(m.descent, -200);
    assert_eq!(m.cap_height, 680);
    assert_eq!(m.bbox, [-100, -250, 1_200, 950]);
    assert_eq!(m.ps_name, "TestSans");
}

#[test]
fn what_is_no_usable_face() {
    assert!(embed_truetype("x", &vec![], 0).is_none());
    assert!(embed_truetype("x", &vec![1, 2, 3, 4, 5, 6, 7, 8], 0).is_none());
    // A plain font file has one face only.
    assert!(embed_truetype("x", &font(&PLAIN), 1).is_none());
    // A glyph of 1700 units at 16 units per em is wider than a hundred ems.
    let coarse = Face { units_per_em: 16, wide_advance: 1700, ..PLAIN };
    assert!(embed_truetype("x", &font(&coarse), 0).is_none());
    // Units per em that the parser refuses.
    let fine = Face { units_per_em: 15, ..PLAIN };
    assert!(embed_truetype("x", &font(&fine), 0).is_none());
}

#[test]
fn family_and_style_of_a_face() {
    assert_eq!(read_font_style(&font(&PLAIN), 0), Some(("Test Sans".to_string(), false, false)));
    let bold = Face { bold: true, family: "Other", ..PLAIN };
    assert_eq!(read_font_style(&font(&bold), 0), Some(("Other".to_string(), true, false)));
    let italic = Face { italic: true, ..PLAIN };
    assert_eq!(read_font_style(&font(&italic), 0), Some(("Test Sans".to_string(), false, true)));
    assert_eq!(read_font_style(&vec![0; 64], 0), None);
    let both = collection(&[PLAIN, bold]);
    assert_eq!(read_font_style(&both, 1), Some(("Other".to_string(), true, false)));
    assert_eq!(read_font_style(&both, 2), None);
}

#[test]
fn family_name_among_the_records() {
    let record = |name_id: u16, unicode: bool, text: Option<&str>| FaceName { name_id, unicode, text: text.map(|t| t.to_string()) };
    let names = vec![
        record(4, true, Some("Full")),
        record(1, false, Some("Not Unicode")),
        record(1, true, None),
        record(1, true, Some("Family")),
        record(1, true, Some("Later")),
    ];
    assert_eq!(font_family_name(&names), Some("Family".to_string()));
    assert_eq!(font_family_name(&names[..3].iter().map(|n| record(n.name_id, n.unicode, n.text.as_deref())).collect()), None);
    assert_eq!(font_family_name(&vec![]), None);
}

fn file(family: &str, bold: bool, italic: bool, path: &str) -> FontFile {
    FontFile { family: family.to_string(), bold, italic, path: path.to_string(), face_index: 0 }
}

#[test]
fn exact_style_comes_before_the_regular_face() {
    let index = FontIndex {
        files: vec![
            file("arial", false, false, "arial.ttf"),
            file("arial", true, false, "arialbd.ttf"),
            file("arial", false, false, "other.ttf"),
            file("times", true, true, "timesbi.ttf"),
            file("\u{e4}rial", false, false, "umlaut.ttf"),
        ],
    };
    assert_eq!(find_font_file(&index, "Arial", true, false).unwrap().path, "arialbd.ttf");
    assert_eq!(find_font_file(&index, "ARIAL", false, false).unwrap().path, "arial.ttf");
    // No italic face: the regular one stands in.
    assert_eq!(find_font_file(&index, "arial", false, true).unwrap().path, "arial.ttf");
    assert_eq!(find_font_file(&index, "arial", true, true).unwrap().path, "arial.ttf");
    // No regular face to fall back to, and none to stand in for it.
    assert!(find_font_file(&index, "Times", true, false).is_none());
    assert!(find_font_file(&index, "Times", false, false).is_none());
    assert_eq!(find_font_file(&index, "TIMES", true, true).unwrap().path, "timesbi.ttf");
    assert!(find_font_file(&index, "Courier", false, false).is_none());
    assert_eq!(find_font_file(&index, "\u{c4}RIAL", false, false).unwrap().path, "umlaut.ttf");
}

#[test]
fn faces_of_files_and_collections() {
    let mut index = FontIndex::new();
    index.add_file("plain.ttf", &font(&PLAIN), false);
    let bold = Face { bold: true, family: "Other", ..PLAIN };
    index.add_file("both.ttc", &collection(&[PLAIN, bold]), true);
    index.add_file("broken.ttf", &vec![0; 100], false);
    // A file that is taken for a collection and is none has one face.
    index.add_file("single.ttc", &font(&PLAIN), true);
    let seen: Vec<(&str, bool, &str, u32)> = index.files.iter().map(|f| (f.family.as_str(), f.bold, f.path.as_str(), f.face_index)).collect();
    assert_eq!(
        seen,
        vec![
            ("test sans", false, "plain.ttf", 0),
            ("test sans", false, "both.ttc", 0),
            ("other", true, "both.ttc", 1),
            ("test sans", false, "single.ttc", 0),
        ]
    );
    assert_eq!(find_font_file(&index, "Test Sans", false, false).unwrap().path, "plain.ttf");
    assert_eq!(find_font_file(&index, "OTHER", true, false).unwrap().face_index, 1);
}

#[test]
fn the_index_of_the_font_files_of_a_host() {
    let bold = Face { bold: true, family: "Other", ..PLAIN };
    let files = vec![
        HostFile { path: "a/plain.ttf".to_string(), data: font(&PLAIN), is_collection: false },
        HostFile { path: "a/broken.otf".to_string(), data: vec![1, 2, 3], is_collection: false },
        HostFile {
            path: "b/both.ttc".to_string(),
            data: collection(&[bold, PLAIN]),
            is_collection: true,
        },
    ];
    let index = get_font_index(&files);
    let seen: Vec<(&str, bool, &str, u32)> = index.files.iter().map(|f| (f.family.as_str(), f.bold, f.path.as_str(), f.face_index)).collect();
    assert_eq!(
        seen,
        vec![
            ("test sans", false, "a/plain.ttf", 0),
            ("other", true, "b/both.ttc", 0),
            ("test sans", false, "b/both.ttc", 1),
        ]
    );
    assert_eq!(find_font_file(&index, "test SANS", false, false).unwrap().path, "a/plain.ttf");
    assert!(get_font_index(&Vec::new()).files.is_empty());
}

#[test]
fn which_files_are_font_files() {
    assert_eq!(font_file_kind("ttf"), Some(false));
    assert_eq!(font_file_kind("OTF"), Some(false));
    assert_eq!(font_file_kind("otf"), Some(false));
    assert_eq!(font_file_kind("TTF"), Some(false));
    assert_eq!(font_file_kind("ttc"), Some(true));
    assert_eq!(font_file_kind("TTC"), Some(true));
    assert_eq!(font_file_kind("Ttf"), None);
    assert_eq!(font_file_kind("woff"), None);
    assert_eq!(font_file_kind(""), None);
}

/// A font collection of twelve bytes that states a number of faces.
fn collection_of(faces: u32) -> Vec<u8> {
    let mut data = b"ttcf".to_vec();
    data.extend_from_slice(&0x0001_0000u32.to_be_bytes());
    data.extend_from_slice(&faces.to_be_bytes());
    data
}

#[test]
fn a_collection_whose_faces_lie_beyond_the_file_holds_no_face() {
    let data = collection_of(0x4000_0000);
    assert!(!is_readable(&data));
    assert!(load(&data, 0).is_none());
    assert!(embed_truetype("x", &data, 0).is_none());
    assert!(read_font_style(&data, 0).is_none());
    assert!(read_font_style(&collection_of(u32::MAX), 7).is_none());
    assert!(embed_truetype("x", &collection_of(1), 0).is_none());
    // A collection without faces can be read; it has none.
    assert!(is_readable(&collection_of(0)));
    assert!(embed_truetype("x", &collection_of(0), 0).is_none());
    // A real collection and a plain file can be read.
    assert!(is_readable(&collection(&[PLAIN, PLAIN])));
    assert!(is_readable(&font(&PLAIN)));
    assert!(is_readable(&vec![]));
    assert!(is_readable(&b"ttcf".to_vec()));
}

/// The character map of the test font with its subtable made one of a
/// format with a 32-bit count.
fn counted_cmap(format: u16, place: usize, count: u32) -> Vec<u8> {
    let mut t = cmap();
    t[12..14].copy_from_slice(&be16(format));
    t[12 + place..12 + place + 4].copy_from_slice(&count.to_be_bytes());
    t
}

#[test]
fn counts_of_the_character_map_are_tested() {
    assert!(cmap_passes(&cmap()));
    assert!(cmap_passes(&vec![]));
    assert!(cmap_passes(&vec![0, 0, 0, 9]));
    for (format, place) in [(10u16, 16usize), (12, 12), (13, 12), (14, 6)] {
        assert!(cmap_passes(&counted_cmap(format, place, 3)), "format {format}");
        assert!(cmap_passes(&counted_cmap(format, place, 0x0fff_ffff)), "format {format}");
        assert!(!cmap_passes(&counted_cmap(format, place, 0x1000_0000)), "format {format}");
        assert!(!cmap_passes(&counted_cmap(format, place, u32::MAX)), "format {format}");
    }
    // Other formats have no such count.
    assert!(cmap_passes(&counted_cmap(4, 12, u32::MAX)));
    assert!(cmap_passes(&counted_cmap(0, 12, u32::MAX)));
}

#[test]
fn a_character_map_with_a_count_beyond_the_file_gives_no_glyph() {
    let good = font(&PLAIN);
    let map = cmap();
    let at = good.windows(map.len()).position(|w| w == &map[..]).unwrap();
    let mut bad = good.clone();
    bad[at..at + map.len()].copy_from_slice(&counted_cmap(12, 12, 0x4000_0000));
    let m = embed_truetype("Test Sans", &bad, 0).unwrap();
    assert!(m.widths_1000.iter().all(|w| *w == 0));
    assert_eq!(m.ascent, 800);
    // The same file with a count that can be read: the parser finds the
    // subtable too short and gives no glyph either, without complaint.
    let mut short = good.clone();
    short[at..at + map.len()].copy_from_slice(&counted_cmap(12, 12, 1_000));
    assert!(embed_truetype("Test Sans", &short, 0).is_some());
    assert_eq!(read_font_style(&bad, 0).unwrap().0, "Test Sans");
}

#[test]
fn generic_widths() {
    let w = helvetica_widths();
    assert_eq!(w.len(), 224);
    let at = |c: char| w[(c as usize) - 32];
    assert_eq!(at(' '), 278);
    assert_eq!(at('!'), 333);
    assert_eq!(at('/'), 333);
    assert_eq!(at('0'), 556);
    assert_eq!(at('9'), 556);
    assert_eq!(at(':'), 333);
    assert_eq!(at('@'), 333);
    assert_eq!(at('A'), 667);
    assert_eq!(at('I'), 278);
    assert_eq!(at('J'), 278);
    assert_eq!(at('M'), 833);
    assert_eq!(at('Z'), 667);
    assert_eq!(at('['), 333);
    assert_eq!(at('`'), 333);
    assert_eq!(at('a'), 556);
    assert_eq!(at('f'), 278);
    assert_eq!(at('i'), 278);
    assert_eq!(at('j'), 278);
    assert_eq!(at('l'), 278);
    assert_eq!(at('t'), 278);
    assert_eq!(at('m'), 833);
    assert_eq!(at('w'), 833);
    assert_eq!(at('z'), 556);
    assert_eq!(at('{'), 556);
    assert_eq!(w[223], 556);
}

fn carried(family: &str, bold: bool, data: Vec<u8>) -> EmbeddedFont {
    EmbeddedFont { family: family.to_string(), bold, italic: false, data }
}

#[test]
fn the_document_comes_before_the_host_and_the_host_before_the_generic_table() {
    let doc_face = Face { wide_advance: 1000, ..PLAIN };
    let embedded = vec![carried("other", false, font(&PLAIN)), carried("test sans", false, font(&doc_face)), carried("test sans", false, font(&PLAIN))];
    let host = || Some(HostFace { data: font(&PLAIN), face_index: 0 });

    let from_doc = register_font("Test Sans", false, false, "F1".to_string(), 3, &embedded, host());
    assert_eq!(from_doc.source, FontSource::Embedded { position: 1 });
    assert_eq!(from_doc.entry.widths_1000[(b'W' - 32) as usize], 500);
    assert_eq!(from_doc.entry.line_h_ratio, Some(1_090));
    assert_eq!(from_doc.entry.ascender_ratio, Some(800));
    assert_eq!(from_doc.entry.pdf_name, "F1");
    assert_eq!(from_doc.entry.font_ref, 3);
    assert_eq!(from_doc.face.unwrap().ps_name, "TestSans");
    assert!(from_doc.entry.check());

    // The document carries no bold face: the host's face is used.
    let from_host = register_font("Test Sans", true, false, "F2".to_string(), 6, &embedded, host());
    assert_eq!(from_host.source, FontSource::Host);
    assert_eq!(from_host.entry.widths_1000[(b'W' - 32) as usize], 600);

    // The face that the document carries is broken: the host's face is used.
    let broken = vec![carried("test sans", false, vec![0; 40])];
    let from_host = register_font("TEST SANS", false, false, "F3".to_string(), 9, &broken, host());
    assert_eq!(from_host.source, FontSource::Host);
    assert!(from_host.face.is_some());

    // Neither has a usable face.
    let generic = register_font("Test Sans", false, false, "F4".to_string(), 12, &broken, None);
    assert_eq!(generic.source, FontSource::Generic);
    assert!(generic.face.is_none());
    assert_eq!(generic.entry.widths_1000, helvetica_widths());
    assert_eq!(generic.entry.line_h_ratio, None);
    assert_eq!(generic.entry.ascender_ratio, None);
    let generic = register_font("Test Sans", false, false, "F5".to_string(), 15, &vec![], Some(HostFace { data: vec![], face_index: 0 }));
    assert_eq!(generic.source, FontSource::Generic);
}

#[test]
fn the_same_input_gives_the_same_entry() {
    let embedded = vec![carried("test sans", false, font(&PLAIN))];
    let a = register_font("Test Sans", false, false, "F1".to_string(), 3, &embedded, None);
    let b = register_font("Test Sans", false, false, "F1".to_string(), 3, &embedded, Some(HostFace { data: font(&Face { wide_advance: 7, ..PLAIN }), face_index: 0 }));
    assert_eq!(a.entry.widths_1000, b.entry.widths_1000);
    assert_eq!(a.entry.line_h_ratio, b.entry.line_h_ratio);
    assert_eq!(a.entry.ascender_ratio, b.entry.ascender_ratio);
    assert_eq!(a.source, b.source);
}

#[test]
fn a_file_that_cannot_be_read_adds_no_face_to_the_index() {
    let mut index = FontIndex::new();
    index.add_file("bad.ttc", &collection_of(0x4000_0000), true);
    index.add_file("worse.ttc", &collection_of(u32::MAX), true);
    assert!(index.files.is_empty());
    index.add_file("plain.ttf", &font(&PLAIN), false);
    assert_eq!(index.files.len(), 1);
}
