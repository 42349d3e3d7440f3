//! What a font file says of itself, as the font parser reads it.
//!
//! A face is read in two steps. First the parser finds the tables of the
//! face in the file: `head`, `hhea`, `maxp`, `hmtx`, `name`, `OS/2`, `post`
//! and `cmap`. Then it builds the face from these tables and answers one
//! question. What the parser answers is not modelled: each answer has a
//! name, and the function's contract says that it returns what the name
//! stands for.
//!
//! The parser checks, where it is built with debug assertions, that no
//! array it is asked to read ends beyond four gibibytes. Two places read an
//! array whose length is a 32-bit count taken from the file: the offsets of
//! a font collection, and four formats of subtables of the character map.
//! These counts are tested here before the parser is called, and a file
//! that fails the test is read as holding no face, or no glyph. The other
//! tables of a file, which hold more such counts, are never handed to the
//! parser.

use vstd::prelude::*;

verus! {

/// One record of a face's name table.
#[derive(Debug)]
pub struct FaceName {
    /// What the record names: 1 for the family.
    pub name_id: u16,
    /// Whether the record is in a Unicode encoding.
    pub unicode: bool,
    /// The name, where the parser can decode it.
    pub text: Option<String>,
}

/// The tables of a face that the engine reads.
#[derive(Debug)]
pub struct FaceTables {
    pub head: Vec<u8>,
    pub hhea: Vec<u8>,
    pub maxp: Vec<u8>,
    pub hmtx: Option<Vec<u8>>,
    pub name: Option<Vec<u8>>,
    pub os2: Option<Vec<u8>>,
    pub post: Option<Vec<u8>>,
    pub cmap: Option<Vec<u8>>,
}

pub struct TablesView {
    pub head: Seq<u8>,
    pub hhea: Seq<u8>,
    pub maxp: Seq<u8>,
    pub hmtx: Option<Seq<u8>>,
    pub name: Option<Seq<u8>>,
    pub os2: Option<Seq<u8>>,
    pub post: Option<Seq<u8>>,
    pub cmap: Option<Seq<u8>>,
}

pub open spec fn bytes_view(table: Option<Vec<u8>>) -> Option<Seq<u8>> {
    match table {
        Some(t) => Some(t@),
        None => None,
    }
}

impl View for FaceTables {
    type V = TablesView;

    open spec fn view(&self) -> TablesView {
        TablesView {
            head: self.head@,
            hhea: self.hhea@,
            maxp: self.maxp@,
            hmtx: bytes_view(self.hmtx),
            name: bytes_view(self.name),
            os2: bytes_view(self.os2),
            post: bytes_view(self.post),
            cmap: bytes_view(self.cmap),
        }
    }
}

/// Largest font file, and largest table, that is handed to the parser.
pub const MAX_FONT_BYTES: usize = 0x7fff_0000;

/// Largest 32-bit count of an array that the parser is asked to read.
pub const MAX_COUNT: u32 = 0x0fff_ffff;

/// The number that two bytes spell, the first byte counting most.
pub open spec fn be16(d: Seq<u8>, at: int) -> int {
    d[at] * 256 + d[at + 1]
}

/// The number that four bytes spell, the first byte counting most.
pub open spec fn be32(d: Seq<u8>, at: int) -> int {
    ((d[at] * 256 + d[at + 1]) * 256 + d[at + 2]) * 256 + d[at + 3]
}

/// Whether a file starts as a font collection does.
pub open spec fn is_collection(data: Seq<u8>) -> bool {
    data.len() >= 4 && data[0] == 0x74 && data[1] == 0x74 && data[2] == 0x63 && data[3] == 0x66
}

/// Whether a file is handed to the parser: it is not too large, and if it
/// is a font collection that states the number of its faces, the offsets
/// of that many faces lie within it.
pub open spec fn readable(data: Seq<u8>) -> bool {
    &&& data.len() <= MAX_FONT_BYTES
    &&& is_collection(data) && data.len() >= 12 ==> 12 + 4 * be32(data, 8) <= data.len()
}

/// Where the 32-bit count of a subtable of the character map stands, for
/// the formats that have one.
pub open spec fn count_place(format: int) -> Option<int> {
    if format == 10 {
        Some(16)
    } else if format == 12 || format == 13 {
        Some(12)
    } else if format == 14 {
        Some(6)
    } else {
        None
    }
}

/// Whether the subtable of record `k` of a character map can be handed to
/// the parser: if it has a 32-bit count, the count is not beyond the
/// largest.
pub open spec fn subtable_ok(cmap: Seq<u8>, k: int) -> bool {
    let at = be32(cmap, 8 + 8 * k);
    at + 2 <= cmap.len() ==> match count_place(be16(cmap, at)) {
        Some(c) => at + c + 4 <= cmap.len() ==> be32(cmap, at + c) <= MAX_COUNT,
        None => true,
    }
}

/// Whether a character map can be handed to the parser: every record that
/// lies within it has a subtable that can.
pub open spec fn cmap_ok(cmap: Seq<u8>) -> bool {
    cmap.len() >= 4 ==> forall|k: int|
        0 <= k < be16(cmap, 2) && 12 + 8 * k <= cmap.len() ==> subtable_ok(cmap, k)
}

/// What is asked of the tables of a face before they are handed to the
/// parser: none is too large.
pub open spec fn tables_ok(t: TablesView) -> bool {
    &&& t.head.len() <= MAX_FONT_BYTES
    &&& t.hhea.len() <= MAX_FONT_BYTES
    &&& t.maxp.len() <= MAX_FONT_BYTES
    &&& t.hmtx matches Some(x) ==> x.len() <= MAX_FONT_BYTES
    &&& t.name matches Some(x) ==> x.len() <= MAX_FONT_BYTES
    &&& t.os2 matches Some(x) ==> x.len() <= MAX_FONT_BYTES
    &&& t.post matches Some(x) ==> x.len() <= MAX_FONT_BYTES
    &&& t.cmap matches Some(x) ==> x.len() <= MAX_FONT_BYTES
}

/// What is asked of the tables of a face before its glyphs are looked up.
pub open spec fn glyphs_ok(t: TablesView) -> bool {
    tables_ok(t) && (t.cmap matches Some(c) ==> cmap_ok(c))
}

/// The bytes that `RawFace::table` returns for a tag, for the face that
/// `RawFace::parse` finds at `index` of `data`; none where either returns
/// none.
pub uninterp spec fn table_bytes(data: Seq<u8>, index: u32, tag: Seq<u8>) -> Option<Seq<u8>>;

/// What `Face::units_per_em` returns for the face that `Face::from_raw_tables`
/// builds from the tables, or `None` where it builds none.
pub uninterp spec fn tables_units_per_em(t: TablesView) -> Option<u16>;

/// What `Face::ascender` returns, or `None` where `Face::from_raw_tables` fails.
pub uninterp spec fn tables_ascender(t: TablesView) -> Option<i16>;

/// What `Face::descender` returns, or `None` where `Face::from_raw_tables` fails.
pub uninterp spec fn tables_descender(t: TablesView) -> Option<i16>;

/// What `Face::line_gap` returns, or `None` where `Face::from_raw_tables` fails.
pub uninterp spec fn tables_line_gap(t: TablesView) -> Option<i16>;

/// What `Face::capital_height` returns, or `None` where `Face::from_raw_tables`
/// fails.
pub uninterp spec fn tables_capital_height(t: TablesView) -> Option<i16>;

/// What `Face::is_bold` returns, or `None` where `Face::from_raw_tables` fails.
pub uninterp spec fn tables_is_bold(t: TablesView) -> Option<bool>;

/// What `Face::is_italic` returns, or `None` where `Face::from_raw_tables` fails.
pub uninterp spec fn tables_is_italic(t: TablesView) -> Option<bool>;

/// What `Face::global_bounding_box` returns, as the left, lower, right and
/// upper edge, or `None` where `Face::from_raw_tables` fails.
pub uninterp spec fn tables_bounding_box(t: TablesView) -> Option<(i16, i16, i16, i16)>;

/// The number of the glyph that `Face::glyph_index` returns for a character,
/// or `None` where it returns none or `Face::from_raw_tables` fails.
pub uninterp spec fn tables_glyph_index(t: TablesView, c: char) -> Option<u16>;

/// What `Face::glyph_hor_advance` returns for the glyph of a number, or
/// `None` where `Face::from_raw_tables` fails.
pub uninterp spec fn tables_glyph_hor_advance(t: TablesView, glyph: u16) -> Option<u16>;

/// The records that `Face::names` hands out, in order, each as its
/// `name_id`, what `Name::is_unicode` returns for it, and what
/// `Name::to_string` returns for it; no records where
/// `Face::from_raw_tables` fails.
pub uninterp spec fn tables_names(t: TablesView) -> Seq<(u16, bool, Option<Seq<char>>)>;

/// What `ttf_parser::fonts_in_collection` returns.
pub uninterp spec fn collection_faces(data: Seq<u8>) -> Option<u32>;

/// What `str::to_lowercase` returns.
pub uninterp spec fn lowercase_of(s: Seq<char>) -> Seq<char>;

pub open spec fn name_view(n: FaceName) -> (u16, bool, Option<Seq<char>>) {
    (
        n.name_id,
        n.unicode,
        match n.text {
            Some(t) => Some(t@),
            None => None,
        },
    )
}

pub open spec fn names_view(names: Seq<FaceName>) -> Seq<(u16, bool, Option<Seq<char>>)> {
    Seq::new(names.len(), |i: int| name_view(names[i]))
}

/// A table that a face cannot be without: empty where the file has none.
pub open spec fn needed_table(data: Seq<u8>, index: u32, tag: Seq<u8>) -> Seq<u8> {
    match table_bytes(data, index, tag) {
        Some(t) => t,
        None => Seq::empty(),
    }
}

/// The tables of face `index` of a file; none for a file that is not
/// handed to the parser.
pub open spec fn face_tables(data: Seq<u8>, index: u32) -> Option<TablesView> {
    if readable(data) {
        Some(
            TablesView {
                head: needed_table(data, index, seq![0x68u8, 0x65u8, 0x61u8, 0x64u8]),
                hhea: needed_table(data, index, seq![0x68u8, 0x68u8, 0x65u8, 0x61u8]),
                maxp: needed_table(data, index, seq![0x6du8, 0x61u8, 0x78u8, 0x70u8]),
                hmtx: table_bytes(data, index, seq![0x68u8, 0x6du8, 0x74u8, 0x78u8]),
                name: table_bytes(data, index, seq![0x6eu8, 0x61u8, 0x6du8, 0x65u8]),
                os2: table_bytes(data, index, seq![0x4fu8, 0x53u8, 0x2fu8, 0x32u8]),
                post: table_bytes(data, index, seq![0x70u8, 0x6fu8, 0x73u8, 0x74u8]),
                cmap: table_bytes(data, index, seq![0x63u8, 0x6du8, 0x61u8, 0x70u8]),
            },
        )
    } else {
        None
    }
}

pub open spec fn face_units_per_em(data: Seq<u8>, index: u32) -> Option<u16> {
    match face_tables(data, index) {
        Some(t) => tables_units_per_em(t),
        None => None,
    }
}

pub open spec fn face_ascender(data: Seq<u8>, index: u32) -> Option<i16> {
    match face_tables(data, index) {
        Some(t) => tables_ascender(t),
        None => None,
    }
}

pub open spec fn face_descender(data: Seq<u8>, index: u32) -> Option<i16> {
    match face_tables(data, index) {
        Some(t) => tables_descender(t),
        None => None,
    }
}

pub open spec fn face_line_gap(data: Seq<u8>, index: u32) -> Option<i16> {
    match face_tables(data, index) {
        Some(t) => tables_line_gap(t),
        None => None,
    }
}

pub open spec fn face_capital_height(data: Seq<u8>, index: u32) -> Option<i16> {
    match face_tables(data, index) {
        Some(t) => tables_capital_height(t),
        None => None,
    }
}

pub open spec fn face_is_bold(data: Seq<u8>, index: u32) -> Option<bool> {
    match face_tables(data, index) {
        Some(t) => tables_is_bold(t),
        None => None,
    }
}

pub open spec fn face_is_italic(data: Seq<u8>, index: u32) -> Option<bool> {
    match face_tables(data, index) {
        Some(t) => tables_is_italic(t),
        None => None,
    }
}

pub open spec fn face_bounding_box(data: Seq<u8>, index: u32) -> Option<(i16, i16, i16, i16)> {
    match face_tables(data, index) {
        Some(t) => tables_bounding_box(t),
        None => None,
    }
}

/// The glyph of a character in face `index` of a file; none where the
/// character map of the face cannot be handed to the parser.
pub open spec fn face_glyph_index(data: Seq<u8>, index: u32, c: char) -> Option<u16> {
    match face_tables(data, index) {
        Some(t) => if glyphs_ok(t) {
            tables_glyph_index(t, c)
        } else {
            None
        },
        None => None,
    }
}

pub open spec fn face_glyph_hor_advance(data: Seq<u8>, index: u32, glyph: u16) -> Option<u16> {
    match face_tables(data, index) {
        Some(t) => tables_glyph_hor_advance(t, glyph),
        None => None,
    }
}

pub open spec fn face_names(data: Seq<u8>, index: u32) -> Seq<(u16, bool, Option<Seq<char>>)> {
    match face_tables(data, index) {
        Some(t) => tables_names(t),
        None => Seq::empty(),
    }
}

/// Calls `ttf_parser::RawFace::parse` and `RawFace::table`, and copies the
/// bytes of the table. The table is a part of the file.
#[verifier::external_body]
fn table(data: &Vec<u8>, index: u32, tag: &[u8; 4]) -> (r: Option<Vec<u8>>)
    requires
        readable(data@),
    ensures
        bytes_view(r) == table_bytes(data@, index, tag@),
        r matches Some(t) ==> t@.len() <= data@.len(),
{
    match ttf_parser::RawFace::parse(data, index) {
        Ok(raw) => raw.table(ttf_parser::Tag::from_bytes(tag)).map(|t| t.to_vec()),
        Err(_) => None,
    }
}

/// Calls `ttf_parser::Face::from_raw_tables` and `Face::units_per_em`. The parser
/// accepts a face only if its units per em are between 16 and 16384.
#[verifier::external_body]
fn read_units_per_em(t: &FaceTables) -> (r: Option<u16>)
    requires
        tables_ok(t@),
    ensures
        r == tables_units_per_em(t@),
        r matches Some(u) ==> 16 <= u <= 16384,
{
    let raw = ttf_parser::RawFaceTables {
        head: &t.head,
        hhea: &t.hhea,
        maxp: &t.maxp,
        hmtx: t.hmtx.as_deref(),
        name: t.name.as_deref(),
        os2: t.os2.as_deref(),
        post: t.post.as_deref(),
        cmap: t.cmap.as_deref(),
        ..Default::default()
    };
    match ttf_parser::Face::from_raw_tables(raw) {
        Ok(face) => Some(face.units_per_em()),
        Err(_) => None,
    }
}

/// Calls `ttf_parser::Face::from_raw_tables` and `Face::ascender`.
#[verifier::external_body]
fn read_ascender(t: &FaceTables) -> (r: Option<i16>)
    requires
        tables_ok(t@),
    ensures
        r == tables_ascender(t@),
{
    let raw = ttf_parser::RawFaceTables {
        head: &t.head,
        hhea: &t.hhea,
        maxp: &t.maxp,
        hmtx: t.hmtx.as_deref(),
        name: t.name.as_deref(),
        os2: t.os2.as_deref(),
        post: t.post.as_deref(),
        cmap: t.cmap.as_deref(),
        ..Default::default()
    };
    match ttf_parser::Face::from_raw_tables(raw) {
        Ok(face) => Some(face.ascender()),
        Err(_) => None,
    }
}

/// Calls `ttf_parser::Face::from_raw_tables` and `Face::descender`.
#[verifier::external_body]
fn read_descender(t: &FaceTables) -> (r: Option<i16>)
    requires
        tables_ok(t@),
    ensures
        r == tables_descender(t@),
{
    let raw = ttf_parser::RawFaceTables {
        head: &t.head,
        hhea: &t.hhea,
        maxp: &t.maxp,
        hmtx: t.hmtx.as_deref(),
        name: t.name.as_deref(),
        os2: t.os2.as_deref(),
        post: t.post.as_deref(),
        cmap: t.cmap.as_deref(),
        ..Default::default()
    };
    match ttf_parser::Face::from_raw_tables(raw) {
        Ok(face) => Some(face.descender()),
        Err(_) => None,
    }
}

/// Calls `ttf_parser::Face::from_raw_tables` and `Face::line_gap`.
#[verifier::external_body]
fn read_line_gap(t: &FaceTables) -> (r: Option<i16>)
    requires
        tables_ok(t@),
    ensures
        r == tables_line_gap(t@),
{
    let raw = ttf_parser::RawFaceTables {
        head: &t.head,
        hhea: &t.hhea,
        maxp: &t.maxp,
        hmtx: t.hmtx.as_deref(),
        name: t.name.as_deref(),
        os2: t.os2.as_deref(),
        post: t.post.as_deref(),
        cmap: t.cmap.as_deref(),
        ..Default::default()
    };
    match ttf_parser::Face::from_raw_tables(raw) {
        Ok(face) => Some(face.line_gap()),
        Err(_) => None,
    }
}

/// Calls `ttf_parser::Face::from_raw_tables` and `Face::capital_height`.
#[verifier::external_body]
fn read_capital_height(t: &FaceTables) -> (r: Option<i16>)
    requires
        tables_ok(t@),
    ensures
        r == tables_capital_height(t@),
{
    let raw = ttf_parser::RawFaceTables {
        head: &t.head,
        hhea: &t.hhea,
        maxp: &t.maxp,
        hmtx: t.hmtx.as_deref(),
        name: t.name.as_deref(),
        os2: t.os2.as_deref(),
        post: t.post.as_deref(),
        cmap: t.cmap.as_deref(),
        ..Default::default()
    };
    match ttf_parser::Face::from_raw_tables(raw) {
        Ok(face) => face.capital_height(),
        Err(_) => None,
    }
}

/// Calls `ttf_parser::Face::from_raw_tables` and `Face::is_bold`.
#[verifier::external_body]
fn read_is_bold(t: &FaceTables) -> (r: Option<bool>)
    requires
        tables_ok(t@),
    ensures
        r == tables_is_bold(t@),
{
    let raw = ttf_parser::RawFaceTables {
        head: &t.head,
        hhea: &t.hhea,
        maxp: &t.maxp,
        hmtx: t.hmtx.as_deref(),
        name: t.name.as_deref(),
        os2: t.os2.as_deref(),
        post: t.post.as_deref(),
        cmap: t.cmap.as_deref(),
        ..Default::default()
    };
    match ttf_parser::Face::from_raw_tables(raw) {
        Ok(face) => Some(face.is_bold()),
        Err(_) => None,
    }
}

/// Calls `ttf_parser::Face::from_raw_tables` and `Face::is_italic`.
#[verifier::external_body]
fn read_is_italic(t: &FaceTables) -> (r: Option<bool>)
    requires
        tables_ok(t@),
    ensures
        r == tables_is_italic(t@),
{
    let raw = ttf_parser::RawFaceTables {
        head: &t.head,
        hhea: &t.hhea,
        maxp: &t.maxp,
        hmtx: t.hmtx.as_deref(),
        name: t.name.as_deref(),
        os2: t.os2.as_deref(),
        post: t.post.as_deref(),
        cmap: t.cmap.as_deref(),
        ..Default::default()
    };
    match ttf_parser::Face::from_raw_tables(raw) {
        Ok(face) => Some(face.is_italic()),
        Err(_) => None,
    }
}

/// Calls `ttf_parser::Face::from_raw_tables` and `Face::global_bounding_box`.
#[verifier::external_body]
fn read_bounding_box(t: &FaceTables) -> (r: Option<(i16, i16, i16, i16)>)
    requires
        tables_ok(t@),
    ensures
        r == tables_bounding_box(t@),
{
    let raw = ttf_parser::RawFaceTables {
        head: &t.head,
        hhea: &t.hhea,
        maxp: &t.maxp,
        hmtx: t.hmtx.as_deref(),
        name: t.name.as_deref(),
        os2: t.os2.as_deref(),
        post: t.post.as_deref(),
        cmap: t.cmap.as_deref(),
        ..Default::default()
    };
    match ttf_parser::Face::from_raw_tables(raw) {
        Ok(face) => Some(face.global_bounding_box()).map(|b| (b.x_min, b.y_min, b.x_max, b.y_max)),
        Err(_) => None,
    }
}

/// Calls `ttf_parser::Face::from_raw_tables` and `Face::glyph_index`, which
/// reads the subtables of the character map.
#[verifier::external_body]
fn read_glyph_index(t: &FaceTables, c: char) -> (r: Option<u16>)
    requires
        glyphs_ok(t@),
    ensures
        r == tables_glyph_index(t@, c),
{
    let raw = ttf_parser::RawFaceTables {
        head: &t.head,
        hhea: &t.hhea,
        maxp: &t.maxp,
        hmtx: t.hmtx.as_deref(),
        name: t.name.as_deref(),
        os2: t.os2.as_deref(),
        post: t.post.as_deref(),
        cmap: t.cmap.as_deref(),
        ..Default::default()
    };
    match ttf_parser::Face::from_raw_tables(raw) {
        Ok(face) => face.glyph_index(c).map(|g| g.0),
        Err(_) => None,
    }
}

/// Calls `ttf_parser::Face::from_raw_tables` and `Face::glyph_hor_advance`.
#[verifier::external_body]
fn read_glyph_hor_advance(t: &FaceTables, glyph: u16) -> (r: Option<u16>)
    requires
        tables_ok(t@),
    ensures
        r == tables_glyph_hor_advance(t@, glyph),
{
    let raw = ttf_parser::RawFaceTables {
        head: &t.head,
        hhea: &t.hhea,
        maxp: &t.maxp,
        hmtx: t.hmtx.as_deref(),
        name: t.name.as_deref(),
        os2: t.os2.as_deref(),
        post: t.post.as_deref(),
        cmap: t.cmap.as_deref(),
        ..Default::default()
    };
    match ttf_parser::Face::from_raw_tables(raw) {
        Ok(face) => face.glyph_hor_advance(ttf_parser::GlyphId(glyph)),
        Err(_) => None,
    }
}

/// Calls `ttf_parser::Face::from_raw_tables` on the tables `head`, `hhea`,
/// `maxp` and `name`, which are all that the names of a face depend on, then
/// `Face::names`, and for every record `Name::is_unicode` and
/// `Name::to_string`.
#[verifier::external_body]
fn read_names(t: &FaceTables) -> (r: Vec<FaceName>)
    requires
        tables_ok(t@),
    ensures
        names_view(r@) == tables_names(t@),
{
    let raw = ttf_parser::RawFaceTables {
        head: &t.head,
        hhea: &t.hhea,
        maxp: &t.maxp,
        name: t.name.as_deref(),
        ..Default::default()
    };
    let mut out = Vec::new();
    if let Ok(face) = ttf_parser::Face::from_raw_tables(raw) {
        for n in face.names() {
            out.push(FaceName { name_id: n.name_id, unicode: n.is_unicode(), text: n.to_string() });
        }
    }
    out
}

/// `ttf_parser::fonts_in_collection` reads the number of faces from the
/// header of a font collection.
pub assume_specification[ ttf_parser::fonts_in_collection ](data: &[u8]) -> (n: Option<u32>)
    ensures
        n == collection_faces(data@),
;

/// Calls `str::to_lowercase`.
#[verifier::external_body]
pub(crate) fn to_lowercase(s: &str) -> (r: String)
    ensures
        r@ == lowercase_of(s@),
{
    s.to_lowercase()
}

fn read_u16(d: &Vec<u8>, at: usize) -> (v: u32)
    requires
        at + 2 <= d@.len(),
    ensures
        v == be16(d@, at as int),
{
    let end = d.len();
    assert(at + 2 <= end);
    (d[at] as u32) * 256 + (d[at + 1] as u32)
}

fn read_u32(d: &Vec<u8>, at: usize) -> (v: u32)
    requires
        at + 4 <= d@.len(),
    ensures
        v == be32(d@, at as int),
{
    let end = d.len();
    assert(at + 4 <= end);
    (((d[at] as u32) * 256 + (d[at + 1] as u32)) * 256 + (d[at + 2] as u32)) * 256 + (d[at
        + 3] as u32)
}

/// Tests whether a file is handed to the parser.
pub fn is_readable(data: &Vec<u8>) -> (b: bool)
    ensures
        b == readable(data@),
{
    if data.len() > MAX_FONT_BYTES {
        return false;
    }
    if data.len() >= 12 && data[0] == 0x74 && data[1] == 0x74 && data[2] == 0x63 && data[3]
        == 0x66 {
        let faces: u64 = read_u32(data, 8) as u64;
        12 + 4 * faces <= data.len() as u64
    } else {
        true
    }
}

fn subtable_passes(cmap: &Vec<u8>, k: usize) -> (b: bool)
    requires
        12 + 8 * k <= cmap@.len(),
        cmap@.len() <= MAX_FONT_BYTES,
    ensures
        b == subtable_ok(cmap@, k as int),
{
    let at: usize = read_u32(cmap, 8 + 8 * k) as usize;
    if at > cmap.len() || cmap.len() - at < 2 {
        return true;
    }
    let format = read_u16(cmap, at);
    let place: usize = if format == 10 {
        16
    } else if format == 12 || format == 13 {
        12
    } else if format == 14 {
        6
    } else {
        return true;
    };
    if cmap.len() - at < place + 4 {
        return true;
    }
    read_u32(cmap, at + place) <= MAX_COUNT
}

/// Tests whether a character map can be handed to the parser.
pub fn cmap_passes(cmap: &Vec<u8>) -> (b: bool)
    requires
        cmap@.len() <= MAX_FONT_BYTES,
    ensures
        b == cmap_ok(cmap@),
{
    if cmap.len() < 4 {
        return true;
    }
    let count: usize = read_u16(cmap, 2) as usize;
    let mut k: usize = 0;
    while k < count && 12 + 8 * k <= cmap.len()
        invariant
            k <= count,
            count == be16(cmap@, 2),
            count <= 0xffff,
            4 <= cmap@.len() <= MAX_FONT_BYTES,
            forall|j: int| 0 <= j < k && 12 + 8 * j <= cmap@.len() ==> subtable_ok(cmap@, j),
        decreases count - k,
    {
        if !subtable_passes(cmap, k) {
            return false;
        }
        k += 1;
    }
    true
}

fn needed(data: &Vec<u8>, index: u32, tag: &[u8; 4]) -> (r: Vec<u8>)
    requires
        readable(data@),
    ensures
        r@ == needed_table(data@, index, tag@),
        r@.len() <= MAX_FONT_BYTES,
{
    match table(data, index, tag) {
        Some(t) => t,
        None => Vec::new(),
    }
}

/// Finds the tables of a face.
pub fn load(data: &Vec<u8>, index: u32) -> (tables: Option<FaceTables>)
    ensures
        match tables {
            Some(t) => face_tables(data@, index) == Some(t@) && tables_ok(t@),
            None => face_tables(data@, index) is None,
        },
{
    if !is_readable(data) {
        return None;
    }
    let head: [u8; 4] = [0x68, 0x65, 0x61, 0x64];
    let hhea: [u8; 4] = [0x68, 0x68, 0x65, 0x61];
    let maxp: [u8; 4] = [0x6d, 0x61, 0x78, 0x70];
    let hmtx: [u8; 4] = [0x68, 0x6d, 0x74, 0x78];
    let name: [u8; 4] = [0x6e, 0x61, 0x6d, 0x65];
    let os2: [u8; 4] = [0x4f, 0x53, 0x2f, 0x32];
    let post: [u8; 4] = [0x70, 0x6f, 0x73, 0x74];
    let cmap: [u8; 4] = [0x63, 0x6d, 0x61, 0x70];
    proof {
        assert(head@ =~= seq![0x68u8, 0x65u8, 0x61u8, 0x64u8]);
        assert(hhea@ =~= seq![0x68u8, 0x68u8, 0x65u8, 0x61u8]);
        assert(maxp@ =~= seq![0x6du8, 0x61u8, 0x78u8, 0x70u8]);
        assert(hmtx@ =~= seq![0x68u8, 0x6du8, 0x74u8, 0x78u8]);
        assert(name@ =~= seq![0x6eu8, 0x61u8, 0x6du8, 0x65u8]);
        assert(os2@ =~= seq![0x4fu8, 0x53u8, 0x2fu8, 0x32u8]);
        assert(post@ =~= seq![0x70u8, 0x6fu8, 0x73u8, 0x74u8]);
        assert(cmap@ =~= seq![0x63u8, 0x6du8, 0x61u8, 0x70u8]);
    }
    Some(
        FaceTables {
            head: needed(data, index, &head),
            hhea: needed(data, index, &hhea),
            maxp: needed(data, index, &maxp),
            hmtx: table(data, index, &hmtx),
            name: table(data, index, &name),
            os2: table(data, index, &os2),
            post: table(data, index, &post),
            cmap: table(data, index, &cmap),
        },
    )
}

pub(crate) fn units_per_em(data: &Vec<u8>, index: u32) -> (r: Option<u16>)
    ensures
        r == face_units_per_em(data@, index),
        r matches Some(u) ==> 16 <= u <= 16384,
{
    match load(data, index) {
        Some(t) => read_units_per_em(&t),
        None => None,
    }
}

pub(crate) fn ascender(data: &Vec<u8>, index: u32) -> (r: Option<i16>)
    ensures
        r == face_ascender(data@, index),
{
    match load(data, index) {
        Some(t) => read_ascender(&t),
        None => None,
    }
}

pub(crate) fn descender(data: &Vec<u8>, index: u32) -> (r: Option<i16>)
    ensures
        r == face_descender(data@, index),
{
    match load(data, index) {
        Some(t) => read_descender(&t),
        None => None,
    }
}

pub(crate) fn line_gap(data: &Vec<u8>, index: u32) -> (r: Option<i16>)
    ensures
        r == face_line_gap(data@, index),
{
    match load(data, index) {
        Some(t) => read_line_gap(&t),
        None => None,
    }
}

pub(crate) fn capital_height(data: &Vec<u8>, index: u32) -> (r: Option<i16>)
    ensures
        r == face_capital_height(data@, index),
{
    match load(data, index) {
        Some(t) => read_capital_height(&t),
        None => None,
    }
}

pub(crate) fn bounding_box(data: &Vec<u8>, index: u32) -> (r: Option<(i16, i16, i16, i16)>)
    ensures
        r == face_bounding_box(data@, index),
{
    match load(data, index) {
        Some(t) => read_bounding_box(&t),
        None => None,
    }
}

pub(crate) fn is_bold(data: &Vec<u8>, index: u32) -> (r: Option<bool>)
    ensures
        r == face_is_bold(data@, index),
{
    match load(data, index) {
        Some(t) => read_is_bold(&t),
        None => None,
    }
}

pub(crate) fn is_italic(data: &Vec<u8>, index: u32) -> (r: Option<bool>)
    ensures
        r == face_is_italic(data@, index),
{
    match load(data, index) {
        Some(t) => read_is_italic(&t),
        None => None,
    }
}

/// The glyph of a character; none where the character map of the face
/// cannot be handed to the parser.
pub(crate) fn glyph_index(data: &Vec<u8>, index: u32, c: char) -> (r: Option<u16>)
    ensures
        r == face_glyph_index(data@, index, c),
{
    match load(data, index) {
        Some(t) => {
            let passes = match &t.cmap {
                Some(cmap) => cmap_passes(cmap),
                None => true,
            };
            if passes {
                read_glyph_index(&t, c)
            } else {
                None
            }
        },
        None => None,
    }
}

pub(crate) fn glyph_hor_advance(data: &Vec<u8>, index: u32, glyph: u16) -> (r: Option<u16>)
    ensures
        r == face_glyph_hor_advance(data@, index, glyph),
{
    match load(data, index) {
        Some(t) => read_glyph_hor_advance(&t, glyph),
        None => None,
    }
}

pub(crate) fn names(data: &Vec<u8>, index: u32) -> (r: Vec<FaceName>)
    ensures
        names_view(r@) == face_names(data@, index),
{
    match load(data, index) {
        Some(t) => read_names(&t),
        None => {
            let none: Vec<FaceName> = Vec::new();
            assert(names_view(none@) =~= Seq::empty());
            none
        },
    }
}

} // verus!
