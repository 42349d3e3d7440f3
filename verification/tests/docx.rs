use docxside_pdf::docx::{
    deobfuscate_font, jpeg_dimensions, parse_alignment, parse_guid_to_bytes, parse_hex_color,
    resolve_font, ThemeFonts,
};
use docxside_pdf::model::Alignment;

#[test]
fn hex_colours() {
    assert_eq!(parse_hex_color("FF8000"), Some([255, 128, 0]));
    assert_eq!(parse_hex_color("00a0ff"), Some([0, 160, 255]));
    assert_eq!(parse_hex_color("auto"), None);
    assert_eq!(parse_hex_color("FF800"), None);
    assert_eq!(parse_hex_color("FF80000"), None);
    assert_eq!(parse_hex_color("GG0000"), None);
    // A pair may be a plus sign and one digit.
    assert_eq!(parse_hex_color("+F0000"), Some([15, 0, 0]));
    assert_eq!(parse_hex_color("+a+B+0"), Some([10, 11, 0]));
    assert_eq!(parse_hex_color("0+0000"), None);
    assert_eq!(parse_hex_color("++0000"), None);
    assert_eq!(parse_hex_color("-F0000"), None);
    assert_eq!(parse_hex_color("+G0000"), None);
    assert_eq!(parse_hex_color(""), None);
    assert_eq!(parse_hex_color("\u{e9}\u{e9}\u{e9}"), None);
}

#[test]
fn alignments() {
    assert_eq!(parse_alignment("center"), Alignment::Center);
    assert_eq!(parse_alignment("right"), Alignment::Right);
    assert_eq!(parse_alignment("end"), Alignment::Right);
    assert_eq!(parse_alignment("both"), Alignment::Justify);
    assert_eq!(parse_alignment("left"), Alignment::Left);
    assert_eq!(parse_alignment("start"), Alignment::Left);
    assert_eq!(parse_alignment("Center"), Alignment::Left);
    assert_eq!(parse_alignment(""), Alignment::Left);
}

#[test]
fn font_references() {
    let theme = ThemeFonts { major: "Aptos Display".to_string(), minor: "Aptos".to_string() };
    assert_eq!(resolve_font(Some("Arial"), Some("majorHAnsi"), &theme, "Times"), "Arial");
    assert_eq!(resolve_font(None, Some("majorHAnsi"), &theme, "Times"), "Aptos Display");
    assert_eq!(resolve_font(None, Some("minorHAnsi"), &theme, "Times"), "Aptos");
    assert_eq!(resolve_font(None, Some("majorBidi"), &theme, "Times"), "Times");
    assert_eq!(resolve_font(None, None, &theme, "Times"), "Times");
}

#[test]
fn guid_keys() {
    let key = parse_guid_to_bytes("{302EE813-EB4A-4642-A93A-89EF99B2457E}").unwrap();
    assert_eq!(
        key,
        [0x7e, 0x45, 0xb2, 0x99, 0xef, 0x89, 0x3a, 0xa9, 0x46, 0x42, 0xeb, 0x4a, 0x30, 0x2e, 0xe8, 0x13]
    );
    assert_eq!(
        parse_guid_to_bytes("00112233445566778899aabbccddeeff"),
        Some([0xff, 0xee, 0xdd, 0xcc, 0xbb, 0xaa, 0x99, 0x88, 0x66, 0x77, 0x44, 0x55, 0x00, 0x11, 0x22, 0x33])
    );
    assert_eq!(parse_guid_to_bytes("{302EE813-EB4A-4642-A93A-89EF99B2457}"), None);
    assert_eq!(parse_guid_to_bytes("{302EE813-EB4A-4642-A93A-89EF99B2457E0}"), None);
    assert_eq!(parse_guid_to_bytes(""), None);
}

#[test]
fn deobfuscation() {
    let key: [u8; 16] = [1, 2, 3, 4, 5, 6, 7, 8, 9, 10, 11, 12, 13, 14, 15, 16];
    let mut data: Vec<u8> = (0u8..40).collect();
    let plain = data.clone();
    deobfuscate_font(&mut data, &key);
    for i in 0..40 {
        if i < 32 {
            assert_eq!(data[i], plain[i] ^ key[i % 16]);
        } else {
            assert_eq!(data[i], plain[i]);
        }
    }
    assert_eq!(data[0], 1);
    assert_eq!(data[17], 17 ^ 2);
    deobfuscate_font(&mut data, &key);
    assert_eq!(data, plain);
    let mut short = vec![0xffu8; 3];
    deobfuscate_font(&mut short, &key);
    assert_eq!(short, vec![0xfe, 0xfd, 0xfc]);
    let mut none: Vec<u8> = vec![];
    deobfuscate_font(&mut none, &key);
    assert!(none.is_empty());
}

fn jpeg(segments: &[(u8, Vec<u8>)]) -> Vec<u8> {
    let mut data = vec![0xff, 0xd8];
    for (marker, body) in segments {
        data.push(0xff);
        data.push(*marker);
        let len = (body.len() + 2) as u16;
        data.extend_from_slice(&len.to_be_bytes());
        data.extend_from_slice(body);
    }
    data.extend_from_slice(&[0xff, 0xd9]);
    data
}

#[test]
fn jpeg_sizes() {
    let frame = vec![8, 0x01, 0x2c, 0x02, 0x58, 3, 1, 0x22, 0, 2, 0x11, 1, 3, 0x11, 1];
    let data = jpeg(&[(0xe0, vec![0; 14]), (0xc0, frame.clone())]);
    assert_eq!(jpeg_dimensions(&data), Some((600, 300)));
    let progressive = jpeg(&[(0xe1, vec![1; 40]), (0xdb, vec![2; 65]), (0xc2, frame.clone())]);
    assert_eq!(jpeg_dimensions(&progressive), Some((600, 300)));
    // No frame header before the end of the image.
    assert_eq!(jpeg_dimensions(&jpeg(&[(0xe0, vec![0; 14])])), None);
    // Not a JPEG file.
    assert_eq!(jpeg_dimensions(&vec![0x89, b'P', b'N', b'G', 0, 0, 0, 0, 0, 0, 0, 0]), None);
    assert_eq!(jpeg_dimensions(&vec![]), None);
    assert_eq!(jpeg_dimensions(&vec![0xff]), None);
    // A byte that is no marker.
    let mut broken = jpeg(&[(0xe0, vec![0; 14]), (0xc0, frame.clone())]);
    broken[2] = 0x00;
    assert_eq!(jpeg_dimensions(&broken), None);
    // A segment that says it is longer than the data.
    let mut long = jpeg(&[(0xe0, vec![0; 14]), (0xc0, frame)]);
    long[4] = 0xff;
    long[5] = 0xff;
    assert_eq!(jpeg_dimensions(&long), None);
}
