//! The font metrics registry: from a family and style to the metrics the
//! layout works with.
//!
//! A font is looked for in three places, in this order: among the fonts the
//! document carries; among the fonts of the host, first in the exact style
//! and then in the regular style; and last in a generic table of widths that
//! stands for any sans-serif face. The first place that has a usable face
//! wins. What comes out depends on nothing but what goes in.

use crate::face::{
    ascender, bounding_box, capital_height, descender, face_ascender, face_bounding_box,
    face_capital_height, face_descender, face_glyph_hor_advance, face_glyph_index,
    face_is_bold, face_is_italic, face_line_gap, face_names, face_units_per_em,
    glyph_hor_advance, glyph_index, is_bold, is_italic, is_readable, line_gap, lowercase_of,
    names, names_view, to_lowercase, units_per_em, FaceName,
};
use crate::fonts::{widths_wf, FontEntry, WIDTH_TABLE_LEN};
use crate::model::EmbeddedFont;
use crate::text::str_equal;
use crate::units::{mul_div, MAX_ADVANCE, MAX_RATIO};
use crate::winansi::{winansi_char, winansi_to_char};
use vstd::prelude::*;

verus! {

/// The `name_id` of the record that names a face's family.
pub const FAMILY_NAME_ID: u16 = 1;

/// The capital height, in thousandths of an em, of a face that states none.
pub const DEFAULT_CAP_HEIGHT: i64 = 700;

/// The generic advance, in thousandths of an em, of the character of a
/// WinAnsi byte: narrow for the space, punctuation and thin letters, wide for
/// `M`, `m` and `w`, and in between for digits and the other letters.
pub open spec fn generic_advance(byte: u8) -> int {
    if byte == 32 {
        278
    } else if 33 <= byte <= 47 {
        333
    } else if 48 <= byte <= 57 {
        556
    } else if 58 <= byte <= 64 {
        333
    } else if byte == 73 || byte == 74 {
        278
    } else if byte == 77 {
        833
    } else if 65 <= byte <= 90 {
        667
    } else if 91 <= byte <= 96 {
        333
    } else if byte == 102 || byte == 105 || byte == 106 || byte == 108 || byte == 116 {
        278
    } else if byte == 109 || byte == 119 {
        833
    } else {
        556
    }
}

/// The generic width table.
pub open spec fn generic_widths() -> Seq<i64> {
    Seq::new(WIDTH_TABLE_LEN as nat, |i: int| generic_advance((i + 32) as u8) as i64)
}

/// The width table that stands in for a face that cannot be found.
pub fn helvetica_widths() -> (widths: Vec<i64>)
    ensures
        widths@ == generic_widths(),
        widths_wf(widths@),
{
    let mut widths: Vec<i64> = Vec::new();
    let mut b: u8 = 32;
    loop
        invariant_except_break
            32 <= b <= 255,
            widths@.len() == b - 32,
            forall|i: int| 0 <= i < widths@.len() ==> #[trigger] widths@[i] == generic_advance(
                (i + 32) as u8,
            ),
        ensures
            widths@.len() == 224,
            forall|i: int| 0 <= i < widths@.len() ==> #[trigger] widths@[i] == generic_advance(
                (i + 32) as u8,
            ),
        decreases 255 - b,
    {
        let w: i64 = if b == 32 {
            278
        } else if b <= 47 {
            333
        } else if b <= 57 {
            556
        } else if b <= 64 {
            333
        } else if b == 73 || b == 74 {
            278
        } else if b == 77 {
            833
        } else if b <= 90 {
            667
        } else if b <= 96 {
            333
        } else if b == 102 || b == 105 || b == 106 || b == 108 || b == 116 {
            278
        } else if b == 109 || b == 119 {
            833
        } else {
            556
        };
        widths.push(w);
        if b == 255 {
            break ;
        }
        b = b + 1;
    }
    widths
}

/// The name of a face's family: the text of the first record that names the
/// family, is in a Unicode encoding and can be decoded.
pub open spec fn family_of(names: Seq<(u16, bool, Option<Seq<char>>)>, from: int) -> Option<
    Seq<char>,
>
    decreases names.len() - from,
{
    if 0 <= from < names.len() {
        let n = names[from];
        if n.0 == FAMILY_NAME_ID && n.1 && n.2 is Some {
            n.2
        } else {
            family_of(names, from + 1)
        }
    } else {
        None
    }
}

/// Finds the family name among the records of a face's name table.
pub fn font_family_name(names: &Vec<FaceName>) -> (family: Option<String>)
    ensures
        match family {
            Some(f) => family_of(names_view(names@), 0) == Some(f@),
            None => family_of(names_view(names@), 0) is None,
        },
{
    let mut i: usize = 0;
    while i < names.len()
        invariant
            i <= names@.len(),
            family_of(names_view(names@), 0) == family_of(names_view(names@), i as int),
        decreases names.len() - i,
    {
        let n = &names[i];
        if n.name_id == FAMILY_NAME_ID && n.unicode {
            match &n.text {
                Some(t) => {
                    return Some(t.clone());
                },
                None => {},
            }
        }
        i += 1;
    }
    None
}

/// The family and style that a face states of itself, if it parses and
/// names its family.
pub open spec fn style_of(data: Seq<u8>, index: u32) -> Option<(Seq<char>, bool, bool)> {
    match (
        family_of(face_names(data, index), 0),
        face_is_bold(data, index),
        face_is_italic(data, index),
    ) {
        (Some(f), Some(b), Some(i)) => Some((f, b, i)),
        _ => None,
    }
}

/// Reads the family and the style of a face.
pub fn read_font_style(data: &Vec<u8>, face_index: u32) -> (style: Option<(String, bool, bool)>)
    ensures
        match style {
            Some(s) => style_of(data@, face_index) == Some((s.0@, s.1, s.2)),
            None => style_of(data@, face_index) is None,
        },
{
    let all = names(data, face_index);
    match font_family_name(&all) {
        Some(family) => match (is_bold(data, face_index), is_italic(data, face_index)) {
            (Some(b), Some(i)) => Some((family, b, i)),
            _ => None,
        },
        None => None,
    }
}

/// A face among the fonts of the host.
#[derive(Debug)]
pub struct FontFile {
    /// The family name in lower case.
    pub family: String,
    pub bold: bool,
    pub italic: bool,
    /// Where the file is.
    pub path: String,
    /// Which face of the file it is.
    pub face_index: u32,
}

/// The fonts of the host. Where two faces share a family and style, the
/// first counts. Like the table of registered fonts this is a vector and no
/// hash map, so that the contracts can say which face a lookup finds.
#[derive(Debug)]
pub struct FontIndex {
    pub files: Vec<FontFile>,
}

/// The first face at or after `from` with a family and style.
pub open spec fn file_index(files: Seq<FontFile>, family: Seq<char>, bold: bool, italic: bool, from: int) -> Option<
    int,
>
    decreases files.len() - from,
{
    if 0 <= from < files.len() {
        if files[from].family@ == family && files[from].bold == bold && files[from].italic
            == italic {
            Some(from)
        } else {
            file_index(files, family, bold, italic, from + 1)
        }
    } else {
        None
    }
}

/// The face of the host for a family and style: the face of that family in
/// that style, or where there is none and the style is not the regular one,
/// the face of that family in the regular style. Families are compared in
/// lower case.
pub open spec fn host_face(files: Seq<FontFile>, name: Seq<char>, bold: bool, italic: bool) -> Option<
    int,
> {
    let family = lowercase_of(name);
    match file_index(files, family, bold, italic, 0) {
        Some(i) => Some(i),
        None => if bold || italic {
            file_index(files, family, false, false, 0)
        } else {
            None
        },
    }
}

fn find_file(files: &Vec<FontFile>, family: &String, bold: bool, italic: bool) -> (r: Option<usize>)
    ensures
        match r {
            Some(i) => file_index(files@, family@, bold, italic, 0) == Some(i as int) && i
                < files@.len(),
            None => file_index(files@, family@, bold, italic, 0) is None,
        },
{
    let mut i: usize = 0;
    while i < files.len()
        invariant
            i <= files@.len(),
            file_index(files@, family@, bold, italic, 0) == file_index(
                files@,
                family@,
                bold,
                italic,
                i as int,
            ),
        decreases files.len() - i,
    {
        if files[i].family == *family && files[i].bold == bold && files[i].italic == italic {
            return Some(i);
        }
        i += 1;
    }
    None
}

/// Looks a family and style up among the fonts of the host. A style that the
/// host lacks falls back to the regular face of the family.
pub fn find_font_file<'a>(index: &'a FontIndex, font_name: &str, bold: bool, italic: bool) -> (file:
    Option<&'a FontFile>)
    ensures
        match file {
            Some(f) => host_face(index.files@, font_name@, bold, italic) matches Some(i) && 0 <= i
                < index.files@.len() && index.files@[i] == *f,
            None => host_face(index.files@, font_name@, bold, italic) is None,
        },
{
    let family = to_lowercase(font_name);
    match find_file(&index.files, &family, bold, italic) {
        Some(i) => Some(&index.files[i]),
        None => {
            if bold || italic {
                match find_file(&index.files, &family, false, false) {
                    Some(i) => Some(&index.files[i]),
                    None => None,
                }
            } else {
                None
            }
        },
    }
}

pub struct FileView {
    pub family: Seq<char>,
    pub bold: bool,
    pub italic: bool,
    pub path: Seq<char>,
    pub face_index: u32,
}

impl View for FontFile {
    type V = FileView;

    open spec fn view(&self) -> FileView {
        FileView {
            family: self.family@,
            bold: self.bold,
            italic: self.italic,
            path: self.path@,
            face_index: self.face_index,
        }
    }
}

pub open spec fn files_view(files: Seq<FontFile>) -> Seq<FileView> {
    Seq::new(files.len(), |i: int| files[i]@)
}

/// The number of faces that are looked for in a file: as many as a
/// collection says, or one if it does not say; one in a plain font file.
pub open spec fn face_count(data: Seq<u8>, is_collection: bool) -> u32 {
    if is_collection {
        match crate::face::collection_faces(data) {
            Some(n) => n,
            None => 1,
        }
    } else {
        1
    }
}

/// The entries for the first `count` faces of a file: one for every face
/// that states its family and style, with the family in lower case.
pub open spec fn faces_of(data: Seq<u8>, path: Seq<char>, count: int) -> Seq<FileView>
    decreases count,
{
    if count <= 0 {
        Seq::empty()
    } else {
        let before = faces_of(data, path, count - 1);
        match style_of(data, (count - 1) as u32) {
            Some(s) => before.push(
                FileView {
                    family: lowercase_of(s.0),
                    bold: s.1,
                    italic: s.2,
                    path,
                    face_index: (count - 1) as u32,
                },
            ),
            None => before,
        }
    }
}

impl FontIndex {
    pub fn new() -> (index: FontIndex)
        ensures
            index.files@.len() == 0,
    {
        FontIndex { files: Vec::new() }
    }

    /// Enters the faces of one font file behind the faces that are there. A
    /// file that is not handed to the parser has no faces.
    pub fn add_file(&mut self, path: &str, data: &Vec<u8>, is_collection: bool)
        ensures
            files_view(final(self).files@) == files_view(old(self).files@) + faces_of(
                data@,
                path@,
                face_count(data@, is_collection) as int,
            ),
    {
        if !is_readable(data) {
            proof {
                lemma_unreadable_has_no_faces(
                    data@,
                    path@,
                    face_count(data@, is_collection) as int,
                );
                assert(files_view(self.files@) + Seq::<FileView>::empty() =~= files_view(
                    self.files@,
                ));
            }
            return ;
        }
        let count: u32 = if is_collection {
            match ttf_parser::fonts_in_collection(data.as_slice()) {
                Some(n) => n,
                None => 1,
            }
        } else {
            1
        };
        let ghost start = files_view(self.files@);
        let mut face: u32 = 0;
        while face < count
            invariant
                face <= count,
                files_view(self.files@) == start + faces_of(data@, path@, face as int),
            decreases count - face,
        {
            match read_font_style(data, face) {
                Some(style) => {
                    let file = FontFile {
                        family: to_lowercase(style.0.as_str()),
                        bold: style.1,
                        italic: style.2,
                        path: path.to_owned(),
                        face_index: face,
                    };
                    proof {
                        assert(start + faces_of(data@, path@, face as int).push(file@) =~= (start
                            + faces_of(data@, path@, face as int)).push(file@));
                    }
                    self.files.push(file);
                },
                None => {},
            }
            face += 1;
        }
    }
}

/// A file that is not handed to the parser has no faces.
pub proof fn lemma_unreadable_has_no_faces(data: Seq<u8>, path: Seq<char>, count: int)
    requires
        !crate::face::readable(data),
    ensures
        faces_of(data, path, count) == Seq::<FileView>::empty(),
    decreases count,
{
    if count > 0 {
        lemma_unreadable_has_no_faces(data, path, count - 1);
    }
}

/// A font file of the host, as it was read.
#[derive(Debug)]
pub struct HostFile {
    pub path: String,
    pub data: Vec<u8>,
    /// Whether the file may hold several faces.
    pub is_collection: bool,
}

/// Whether a file with an extension is a font file, and if so whether it
/// may hold several faces: `ttf` and `otf` hold one, `ttc` may hold several,
/// each in lower or in upper case.
pub open spec fn font_kind(extension: Seq<char>) -> Option<bool> {
    if extension == "ttf"@ || extension == "otf"@ || extension == "TTF"@ || extension == "OTF"@ {
        Some(false)
    } else if extension == "ttc"@ || extension == "TTC"@ {
        Some(true)
    } else {
        None
    }
}

pub fn font_file_kind(extension: &str) -> (kind: Option<bool>)
    ensures
        kind == font_kind(extension@),
{
    if str_equal(extension, "ttf") || str_equal(extension, "otf") || str_equal(extension, "TTF")
        || str_equal(extension, "OTF") {
        Some(false)
    } else if str_equal(extension, "ttc") || str_equal(extension, "TTC") {
        Some(true)
    } else {
        None
    }
}

/// The faces of the first `n` font files, in the order of the files.
pub open spec fn indexed(files: Seq<HostFile>, n: int) -> Seq<FileView>
    decreases n,
{
    if n <= 0 {
        Seq::empty()
    } else {
        let file = files[n - 1];
        indexed(files, n - 1) + faces_of(
            file.data@,
            file.path@,
            face_count(file.data@, file.is_collection) as int,
        )
    }
}

/// The index of the fonts of the host, from its font files.
pub fn get_font_index(files: &Vec<HostFile>) -> (index: FontIndex)
    ensures
        files_view(index.files@) == indexed(files@, files@.len() as int),
{
    let mut index = FontIndex::new();
    let mut i: usize = 0;
    while i < files.len()
        invariant
            i <= files@.len(),
            files_view(index.files@) == indexed(files@, i as int),
        decreases files.len() - i,
    {
        let file = &files[i];
        index.add_file(file.path.as_str(), &file.data, file.is_collection);
        i += 1;
    }
    index
}

/// The metrics of a usable face. Lengths are in thousandths of an em.
#[derive(Debug)]
pub struct FaceMetrics {
    /// Glyph advances for WinAnsi bytes 32 to 255.
    pub widths_1000: Vec<i64>,
    /// Ascent less descent plus line gap.
    pub line_h_ratio: i64,
    pub ascender_ratio: i64,
    pub ascent: i64,
    pub descent: i64,
    pub cap_height: i64,
    /// The left, lower, right and upper edge of the box around all glyphs.
    pub bbox: [i64; 4],
    /// The name of the font in the output: the family without spaces.
    pub ps_name: String,
}

pub struct FaceView {
    pub widths_1000: Seq<i64>,
    pub line_h_ratio: int,
    pub ascender_ratio: int,
    pub ascent: int,
    pub descent: int,
    pub cap_height: int,
    pub bbox: Seq<i64>,
    pub ps_name: Seq<char>,
}

impl View for FaceMetrics {
    type V = FaceView;

    open spec fn view(&self) -> FaceView {
        FaceView {
            widths_1000: self.widths_1000@,
            line_h_ratio: self.line_h_ratio as int,
            ascender_ratio: self.ascender_ratio as int,
            ascent: self.ascent as int,
            descent: self.descent as int,
            cap_height: self.cap_height as int,
            bbox: self.bbox@,
            ps_name: self.ps_name@,
        }
    }
}

/// A length of the face in thousandths of an em.
pub open spec fn per_mille(v: int, units: int) -> int {
    v * 1000 / units
}

/// The advance of the character of a WinAnsi byte in a face, and nothing
/// where the face has no glyph for it.
pub open spec fn face_advance(data: Seq<u8>, index: u32, units: int, byte: u8) -> int {
    match face_glyph_index(data, index, winansi_char(byte)) {
        Some(g) => match face_glyph_hor_advance(data, index, g) {
            Some(a) => per_mille(a as int, units),
            None => 0,
        },
        None => 0,
    }
}

pub open spec fn face_widths(data: Seq<u8>, index: u32, units: int) -> Seq<int> {
    Seq::new(WIDTH_TABLE_LEN as nat, |i: int| face_advance(data, index, units, (i + 32) as u8))
}

/// A text without its spaces.
pub open spec fn without_spaces(s: Seq<char>) -> Seq<char>
    decreases s.len(),
{
    if s.len() == 0 {
        Seq::empty()
    } else if s.last() == ' ' {
        without_spaces(s.drop_last())
    } else {
        without_spaces(s.drop_last()).push(s.last())
    }
}

/// The metrics of face `index` of `data`, if the face is usable: it parses,
/// its data is no longer than a 32-bit length can say, and its metrics lie
/// in the range the layout computes in.
pub open spec fn usable_face(name: Seq<char>, data: Seq<u8>, index: u32) -> Option<FaceView> {
    match (
        face_units_per_em(data, index),
        face_ascender(data, index),
        face_descender(data, index),
        face_line_gap(data, index),
        face_bounding_box(data, index),
    ) {
        (Some(u), Some(a), Some(d), Some(g), Some(b)) => {
            let units = u as int;
            let widths = face_widths(data, index, units);
            let line = per_mille(a - d + g, units);
            let asc = per_mille(a as int, units);
            if data.len() <= i32::MAX && 0 <= line <= MAX_RATIO && -MAX_RATIO <= asc <= MAX_RATIO
                && (forall|i: int| 0 <= i < widths.len() ==> #[trigger] widths[i] <= MAX_ADVANCE) {
                Some(
                    FaceView {
                        widths_1000: Seq::new(WIDTH_TABLE_LEN as nat, |i: int| widths[i] as i64),
                        line_h_ratio: line,
                        ascender_ratio: asc,
                        ascent: asc,
                        descent: per_mille(d as int, units),
                        cap_height: match face_capital_height(data, index) {
                            Some(h) => per_mille(h as int, units),
                            None => DEFAULT_CAP_HEIGHT as int,
                        },
                        bbox: seq![
                            per_mille(b.0 as int, units) as i64,
                            per_mille(b.1 as int, units) as i64,
                            per_mille(b.2 as int, units) as i64,
                            per_mille(b.3 as int, units) as i64,
                        ],
                        ps_name: without_spaces(name),
                    },
                )
            } else {
                None
            }
        },
        _ => None,
    }
}

fn remove_spaces(s: &str) -> (r: String)
    ensures
        r@ == without_spaces(s@),
{
    let mut r = String::new();
    for c in it: s.chars()
        invariant
            it.seq() == s@,
            r@ == without_spaces(it.seq().take(it.index())),
    {
        proof {
            assert(it.seq().take(it.index() + 1).drop_last() =~= it.seq().take(it.index()));
        }
        if c != ' ' {
            r.push(c);
        }
    }
    assert(s@.take(s@.len() as int) =~= s@);
    r
}

fn to_per_mille(v: i64, units: u16) -> (r: i64)
    requires
        16 <= units <= 16384,
        -200_000 <= v <= 200_000,
    ensures
        r == per_mille(v as int, units as int),
        -12_500_000 <= r <= 12_500_000,
        v >= 0 ==> r >= 0,
{
    proof {
        assert(-12_500_000 <= v as int * 1000 / (units as int) <= 12_500_000 && (v >= 0 ==> v as int
            * 1000 / (units as int) >= 0)) by (nonlinear_arith)
            requires
                16 <= units <= 16384,
                -200_000 <= v <= 200_000,
        ;
    }
    mul_div(v, 1000, units as i64)
}

/// Reads the metrics of a face, if the face is usable.
pub fn embed_truetype(font_name: &str, font_data: &Vec<u8>, face_index: u32) -> (face: Option<
    FaceMetrics,
>)
    ensures
        match face {
            Some(m) => usable_face(font_name@, font_data@, face_index) == Some(m@) && widths_wf(
                m.widths_1000@,
            ) && 0 <= m.line_h_ratio <= MAX_RATIO && -MAX_RATIO <= m.ascender_ratio <= MAX_RATIO,
            None => usable_face(font_name@, font_data@, face_index) is None,
        },
{
    let units = match units_per_em(font_data, face_index) {
        Some(u) => u,
        None => {
            return None;
        },
    };
    let asc = match ascender(font_data, face_index) {
        Some(a) => a,
        None => {
            return None;
        },
    };
    let desc = match descender(font_data, face_index) {
        Some(d) => d,
        None => {
            return None;
        },
    };
    let gap = match line_gap(font_data, face_index) {
        Some(g) => g,
        None => {
            return None;
        },
    };
    let bb = match bounding_box(font_data, face_index) {
        Some(b) => b,
        None => {
            return None;
        },
    };
    let ghost spec_widths = face_widths(font_data@, face_index, units as int);
    let line = to_per_mille(asc as i64 - desc as i64 + gap as i64, units);
    let ascent = to_per_mille(asc as i64, units);
    if font_data.len() > i32::MAX as usize || line < 0 || line > MAX_RATIO || ascent < -MAX_RATIO
        || ascent > MAX_RATIO {
        return None;
    }
    let mut widths: Vec<i64> = Vec::new();
    let mut b: u8 = 32;
    loop
        invariant_except_break
            32 <= b <= 255,
            widths@.len() == b - 32,
        invariant
            16 <= units <= 16384,
            face_units_per_em(font_data@, face_index) == Some(units),
            spec_widths == face_widths(font_data@, face_index, units as int),
            forall|i: int|
                0 <= i < widths@.len() ==> #[trigger] widths@[i] == spec_widths[i] && 0
                    <= widths@[i] <= MAX_ADVANCE,
        ensures
            widths@.len() == 224,
        decreases 255 - b,
    {
        let c = winansi_to_char(b);
        let w: i64 = match glyph_index(font_data, face_index, c) {
            Some(g) => match glyph_hor_advance(font_data, face_index, g) {
                Some(a) => to_per_mille(a as i64, units),
                None => 0,
            },
            None => 0,
        };
        if w > MAX_ADVANCE {
            proof {
                let ws = face_widths(font_data@, face_index, units as int);
                assert(ws[b - 32] > MAX_ADVANCE);
            }
            return None;
        }
        widths.push(w);
        if b == 255 {
            break ;
        }
        b = b + 1;
    }
    let cap = match capital_height(font_data, face_index) {
        Some(h) => to_per_mille(h as i64, units),
        None => DEFAULT_CAP_HEIGHT,
    };
    let bbox: [i64; 4] = [
        to_per_mille(bb.0 as i64, units),
        to_per_mille(bb.1 as i64, units),
        to_per_mille(bb.2 as i64, units),
        to_per_mille(bb.3 as i64, units),
    ];
    let m = FaceMetrics {
        widths_1000: widths,
        line_h_ratio: line,
        ascender_ratio: ascent,
        ascent,
        descent: to_per_mille(desc as i64, units),
        cap_height: cap,
        bbox,
        ps_name: remove_spaces(font_name),
    };
    proof {
        let ws = face_widths(font_data@, face_index, units as int);
        assert forall|i: int| 0 <= i < ws.len() implies #[trigger] ws[i] <= MAX_ADVANCE by {
            assert(m.widths_1000@[i] == ws[i]);
        }
        let v = usable_face(font_name@, font_data@, face_index).unwrap();
        assert(m@.widths_1000 =~= v.widths_1000);
    }
    Some(m)
}

/// Where the metrics of a registered font come from.
#[derive(Clone, Copy, Debug, PartialEq, Eq, Structural)]
pub enum FontSource {
    /// From the font at this position among the fonts the document carries.
    Embedded { position: usize },
    /// From the face of the host.
    Host,
    /// From the generic width table.
    Generic,
}

/// The bytes of a face of the host.
#[derive(Debug)]
pub struct HostFace {
    pub data: Vec<u8>,
    pub face_index: u32,
}

/// A font as it is registered: the entry for the layout, where its metrics
/// come from, and the metrics of its face where it has one.
#[derive(Debug)]
pub struct RegisteredFont {
    pub entry: FontEntry,
    pub source: FontSource,
    pub face: Option<FaceMetrics>,
}

/// The first font at or after `from` that the document carries for a family
/// and style.
pub open spec fn embedded_index(
    fonts: Seq<EmbeddedFont>,
    family: Seq<char>,
    bold: bool,
    italic: bool,
    from: int,
) -> Option<int>
    decreases fonts.len() - from,
{
    if 0 <= from < fonts.len() {
        if fonts[from].family@ == family && fonts[from].bold == bold && fonts[from].italic
            == italic {
            Some(from)
        } else {
            embedded_index(fonts, family, bold, italic, from + 1)
        }
    } else {
        None
    }
}

/// The usable face that the document carries for a family and style, and its
/// position.
pub open spec fn carried_face(
    name: Seq<char>,
    bold: bool,
    italic: bool,
    embedded: Seq<EmbeddedFont>,
) -> Option<(int, FaceView)> {
    match embedded_index(embedded, lowercase_of(name), bold, italic, 0) {
        Some(i) => match usable_face(name, embedded[i].data@, 0) {
            Some(v) => Some((i, v)),
            None => None,
        },
        None => None,
    }
}

pub open spec fn host_usable(name: Seq<char>, host: Option<HostFace>) -> Option<FaceView> {
    match host {
        Some(h) => usable_face(name, h.data@, h.face_index),
        None => None,
    }
}

/// Where the metrics of a font come from: the document if it carries a
/// usable face, else the host if its face is usable, else the generic table.
pub open spec fn resolved_source(
    name: Seq<char>,
    bold: bool,
    italic: bool,
    embedded: Seq<EmbeddedFont>,
    host: Option<HostFace>,
) -> FontSource {
    match carried_face(name, bold, italic, embedded) {
        Some(c) => FontSource::Embedded { position: c.0 as usize },
        None => match host_usable(name, host) {
            Some(_) => FontSource::Host,
            None => FontSource::Generic,
        },
    }
}

/// The metrics of the face that a font resolves to: none for the generic
/// table.
pub open spec fn resolved_face(
    name: Seq<char>,
    bold: bool,
    italic: bool,
    embedded: Seq<EmbeddedFont>,
    host: Option<HostFace>,
) -> Option<FaceView> {
    match carried_face(name, bold, italic, embedded) {
        Some(c) => Some(c.1),
        None => host_usable(name, host),
    }
}

/// Whether `entry` is the entry for the metrics `face`: the widths and the
/// ratios of the face, or the generic widths and no ratios.
pub open spec fn entry_for_face(entry: FontEntry, face: Option<FaceView>) -> bool {
    match face {
        Some(v) => entry.widths_1000@ == v.widths_1000 && entry.line_h_ratio == Some(
            v.line_h_ratio as i64,
        ) && entry.ascender_ratio == Some(v.ascender_ratio as i64),
        None => entry.widths_1000@ == generic_widths() && entry.line_h_ratio is None
            && entry.ascender_ratio is None,
    }
}

/// Where the document carries a usable face, the host's face plays no part.
pub proof fn lemma_embedded_first(
    name: Seq<char>,
    bold: bool,
    italic: bool,
    embedded: Seq<EmbeddedFont>,
    host_a: Option<HostFace>,
    host_b: Option<HostFace>,
)
    requires
        carried_face(name, bold, italic, embedded) is Some,
    ensures
        resolved_source(name, bold, italic, embedded, host_a) is Embedded,
        resolved_source(name, bold, italic, embedded, host_a) == resolved_source(
            name,
            bold,
            italic,
            embedded,
            host_b,
        ),
        resolved_face(name, bold, italic, embedded, host_a) == resolved_face(
            name,
            bold,
            italic,
            embedded,
            host_b,
        ),
{
}

/// The generic table is used only where neither the document nor the host
/// has a usable face, and the host only where the document has none.
pub proof fn lemma_resolution_order(
    name: Seq<char>,
    bold: bool,
    italic: bool,
    embedded: Seq<EmbeddedFont>,
    host: Option<HostFace>,
)
    ensures
        resolved_source(name, bold, italic, embedded, host) is Generic <==> carried_face(
            name,
            bold,
            italic,
            embedded,
        ) is None && host_usable(name, host) is None,
        resolved_source(name, bold, italic, embedded, host) is Host <==> carried_face(
            name,
            bold,
            italic,
            embedded,
        ) is None && host_usable(name, host) is Some,
        resolved_source(name, bold, italic, embedded, host) is Embedded <==> carried_face(
            name,
            bold,
            italic,
            embedded,
        ) is Some,
        resolved_face(name, bold, italic, embedded, host) is None <==> resolved_source(
            name,
            bold,
            italic,
            embedded,
            host,
        ) is Generic,
{
}

/// Among the host's faces the exact style comes before the regular one.
pub proof fn lemma_exact_style_first(
    files: Seq<FontFile>,
    name: Seq<char>,
    bold: bool,
    italic: bool,
)
    ensures
        file_index(files, lowercase_of(name), bold, italic, 0) is Some ==> host_face(
            files,
            name,
            bold,
            italic,
        ) == file_index(files, lowercase_of(name), bold, italic, 0),
        file_index(files, lowercase_of(name), bold, italic, 0) is None ==> host_face(
            files,
            name,
            bold,
            italic,
        ) == (if bold || italic {
            file_index(files, lowercase_of(name), false, false, 0)
        } else {
            None
        }),
{
}

fn find_embedded(fonts: &Vec<EmbeddedFont>, family: &String, bold: bool, italic: bool) -> (r: Option<
    usize,
>)
    ensures
        match r {
            Some(i) => embedded_index(fonts@, family@, bold, italic, 0) == Some(i as int) && i
                < fonts@.len(),
            None => embedded_index(fonts@, family@, bold, italic, 0) is None,
        },
{
    let mut i: usize = 0;
    while i < fonts.len()
        invariant
            i <= fonts@.len(),
            embedded_index(fonts@, family@, bold, italic, 0) == embedded_index(
                fonts@,
                family@,
                bold,
                italic,
                i as int,
            ),
        decreases fonts.len() - i,
    {
        if fonts[i].family == *family && fonts[i].bold == bold && fonts[i].italic == italic {
            return Some(i);
        }
        i += 1;
    }
    None
}

/// Resolves a family and style to a font entry.
///
/// The metrics come from the font that the document carries for the family
/// and style, if its face is usable; else from `host`, the face that the
/// host has for them, if it is usable; else from the generic width table, in
/// which case the entry has no line-height and ascender ratio.
pub fn register_font(
    font_name: &str,
    bold: bool,
    italic: bool,
    pdf_name: String,
    font_ref: i32,
    embedded_fonts: &Vec<EmbeddedFont>,
    host: Option<HostFace>,
) -> (font: RegisteredFont)
    ensures
        font.entry.wf(),
        font.entry.pdf_name == pdf_name,
        font.entry.font_ref == font_ref,
        font.source == resolved_source(font_name@, bold, italic, embedded_fonts@, host),
        match font.face {
            Some(m) => resolved_face(font_name@, bold, italic, embedded_fonts@, host) == Some(m@),
            None => resolved_face(font_name@, bold, italic, embedded_fonts@, host) is None,
        },
        entry_for_face(
            font.entry,
            resolved_face(font_name@, bold, italic, embedded_fonts@, host),
        ),
{
    let family = to_lowercase(font_name);
    let carried = match find_embedded(embedded_fonts, &family, bold, italic) {
        Some(i) => match embed_truetype(font_name, &embedded_fonts[i].data, 0) {
            Some(m) => Some((i, m)),
            None => None,
        },
        None => None,
    };
    let (source, face) = match carried {
        Some((i, m)) => (FontSource::Embedded { position: i }, Some(m)),
        None => match &host {
            Some(h) => match embed_truetype(font_name, &h.data, h.face_index) {
                Some(m) => (FontSource::Host, Some(m)),
                None => (FontSource::Generic, None),
            },
            None => (FontSource::Generic, None),
        },
    };
    let entry = match &face {
        Some(m) => FontEntry {
            pdf_name,
            font_ref,
            widths_1000: m.widths_1000.clone(),
            line_h_ratio: Some(m.line_h_ratio),
            ascender_ratio: Some(m.ascender_ratio),
        },
        None => FontEntry {
            pdf_name,
            font_ref,
            widths_1000: helvetica_widths(),
            line_h_ratio: None,
            ascender_ratio: None,
        },
    };
    RegisteredFont { entry, source, face }
}

} // verus!
