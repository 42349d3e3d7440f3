//! Themes and styles of a word-processing document.
//!
//! Lengths in the markup are in twentieths of a point, font sizes in half
//! points, rule widths in eighths of a point and line spacing in 240ths of a
//! line; they are read into thousandths of a point and thousandths.

use crate::docx::{parse_alignment, parse_hex_color, resolve_font, ThemeFonts};
use crate::model::{Alignment, BorderBottom};
use crate::number::{parse_number, thousandths, MAX_READ};
use crate::text::str_equal;
use crate::units::floor_div;
use crate::xml::XmlNode;
use vstd::prelude::*;
use vstd::string::StringExecFns;

verus! {

/// The namespace of the word-processing markup.
pub const WML_NS: &'static str = "http://schemas.openxmlformats.org/wordprocessingml/2006/main";

/// The namespace of the drawing markup.
pub const DML_NS: &'static str = "http://schemas.openxmlformats.org/drawingml/2006/main";

/// The namespace of drawings in word-processing documents.
pub const WPD_NS: &'static str =
    "http://schemas.openxmlformats.org/drawingml/2006/wordprocessingDrawing";

/// The namespace of relationships between the parts of a package.
pub const REL_NS: &'static str =
    "http://schemas.openxmlformats.org/officeDocument/2006/relationships";

/// The first child in the word-processing namespace with a name.
pub open spec fn wml_child(node: XmlNode, name: Seq<char>) -> Option<XmlNode> {
    node.child_named(WML_NS@, name)
}

/// The value of an attribute in the word-processing namespace.
pub open spec fn wml_value(node: XmlNode, name: Seq<char>) -> Option<Seq<char>> {
    node.attr_value_ns(WML_NS@, name)
}

/// The value of an attribute of an element that may be missing.
pub open spec fn value_of(node: Option<XmlNode>, name: Seq<char>) -> Option<Seq<char>> {
    match node {
        Some(n) => wml_value(n, name),
        None => None,
    }
}

/// The child of an element that may be missing.
pub open spec fn child_of(node: Option<XmlNode>, name: Seq<char>) -> Option<XmlNode> {
    match node {
        Some(n) => wml_child(n, name),
        None => None,
    }
}

/// Whether a text was found, and if so which.
pub open spec fn found_text(found: Option<&str>, text: Option<Seq<char>>) -> bool {
    match found {
        Some(s) => text == Some(s@),
        None => text is None,
    }
}

/// Whether an element was found, and if so which.
pub open spec fn found_node(found: Option<&XmlNode>, node: Option<XmlNode>) -> bool {
    match found {
        Some(n) => node == Some(*n),
        None => node is None,
    }
}

/// Finds the first child in the word-processing namespace with a name.
pub fn wml<'a>(node: &'a XmlNode, name: &str) -> (c: Option<&'a XmlNode>)
    ensures
        found_node(c, wml_child(*node, name@)),
{
    node.child(WML_NS, name)
}

/// The `val` attribute of the first child with a name.
pub fn wml_attr<'a>(node: &'a XmlNode, child: &str) -> (v: Option<&'a str>)
    ensures
        found_text(v, value_of(wml_child(*node, child@), "val"@)),
{
    match wml(node, child) {
        Some(n) => n.attribute_ns(WML_NS, "val"),
        None => None,
    }
}

/// A number of units of which `per_point` make a point, in thousandths of a
/// point.
pub open spec fn in_points(text: Seq<char>, per_point: int) -> Option<int> {
    match thousandths(text) {
        Some(v) => Some(v / per_point),
        None => None,
    }
}

/// Reads a number of units of which `per_point` make a point.
pub fn read_units(text: &str, per_point: i64) -> (v: Option<i64>)
    requires
        per_point > 0,
    ensures
        match v {
            Some(n) => in_points(text@, per_point as int) == Some(n as int) && -MAX_READ <= n
                <= MAX_READ,
            None => in_points(text@, per_point as int) is None,
        },
{
    match parse_number(text) {
        Some(n) => {
            assert(-MAX_READ <= n as int / (per_point as int) <= MAX_READ) by (nonlinear_arith)
                requires
                    -MAX_READ <= n <= MAX_READ,
                    per_point > 0,
            ;
            Some(floor_div(n, per_point))
        },
        None => None,
    }
}

/// Converts twentieths of a point, in thousandths, to thousandths of a point.
pub fn twips_to_pts(twips: i64) -> (pts: i64)
    ensures
        pts == twips as int / 20,
{
    floor_div(twips, 20)
}

/// A number of units of which `per_point` make a point, in a text that may
/// be missing.
pub open spec fn units_of(text: Option<Seq<char>>, per_point: int) -> Option<i64> {
    match text {
        Some(t) => match in_points(t, per_point) {
            Some(n) => Some(n as i64),
            None => None,
        },
        None => None,
    }
}

/// An attribute that states a length in twentieths of a point.
pub fn twips_attr(node: &XmlNode, attr: &str) -> (v: Option<i64>)
    ensures
        v matches Some(n) ==> -MAX_READ <= n <= MAX_READ,
        v == units_of(wml_value(*node, attr@), 20),
{
    match node.attribute_ns(WML_NS, attr) {
        Some(t) => read_units(t, 20),
        None => None,
    }
}

/// Whether an on/off element switches its property on: it does unless its
/// value is `0` or `false`.
pub open spec fn switched_on(node: XmlNode) -> bool {
    match wml_value(node, "val"@) {
        Some(v) => v != "0"@ && v != "false"@,
        None => true,
    }
}

pub fn is_on(node: &XmlNode) -> (on: bool)
    ensures
        on == switched_on(*node),
{
    match node.attribute_ns(WML_NS, "val") {
        Some(v) => !str_equal(v, "0") && !str_equal(v, "false"),
        None => true,
    }
}

/// A number in a text that may be missing, in thousandths, and `default`
/// where the text is missing or spells no number.
pub open spec fn number_or(text: Option<Seq<char>>, per_point: int, default: i64) -> i64 {
    match units_of(text, per_point) {
        Some(n) => n,
        None => default,
    }
}

/// The colour that a text spells, and black where it is missing or spells
/// none.
pub open spec fn color_or_black(text: Option<Seq<char>>) -> [u8; 3] {
    match text {
        Some(t) => match crate::docx::hex_color(t) {
            Some(c) => c,
            None => [0u8, 0u8, 0u8],
        },
        None => [0u8, 0u8, 0u8],
    }
}

/// The rule below a paragraph that its properties state: none without a
/// `pBdr` with a `bottom`, none where that has no value or the value `none`
/// or `nil`, and none where its width or gap is negative. The rule is as
/// wide as its `sz` says in eighths of a point, or half a point; as far from
/// the text as its `space` says in points, or not at all; and of the colour
/// that its `color` spells, or black.
pub open spec fn border_of(ppr: XmlNode) -> Option<BorderBottom> {
    match child_of(wml_child(ppr, "pBdr"@), "bottom"@) {
        Some(bottom) => match wml_value(bottom, "val"@) {
            Some(v) => {
                let width = number_or(wml_value(bottom, "sz"@), 8, 500);
                let space = number_or(wml_value(bottom, "space"@), 1, 0);
                if v == "none"@ || v == "nil"@ || width < 0 || space < 0 {
                    None
                } else {
                    Some(
                        BorderBottom {
                            width_pt: width,
                            space_pt: space,
                            color: color_or_black(wml_value(bottom, "color"@)),
                        },
                    )
                }
            },
            None => None,
        },
        None => None,
    }
}

/// Reads the rule below a paragraph from the paragraph's properties.
pub fn parse_border_bottom(ppr: &XmlNode) -> (border: Option<BorderBottom>)
    ensures
        border == border_of(*ppr),
        border matches Some(b) ==> 0 <= b.width_pt <= MAX_READ && 0 <= b.space_pt <= MAX_READ,
{
    let bottom = match wml(ppr, "pBdr") {
        Some(pbdr) => match wml(pbdr, "bottom") {
            Some(b) => b,
            None => {
                return None;
            },
        },
        None => {
            return None;
        },
    };
    match bottom.attribute_ns(WML_NS, "val") {
        Some(v) => {
            if str_equal(v, "none") || str_equal(v, "nil") {
                return None;
            }
        },
        None => {
            return None;
        },
    }
    let width_pt = match bottom.attribute_ns(WML_NS, "sz") {
        Some(t) => match read_units(t, 8) {
            Some(v) => v,
            None => 500,
        },
        None => 500,
    };
    let space_pt = match bottom.attribute_ns(WML_NS, "space") {
        Some(t) => match read_units(t, 1) {
            Some(v) => v,
            None => 0,
        },
        None => 0,
    };
    let color = match bottom.attribute_ns(WML_NS, "color") {
        Some(t) => match parse_hex_color(t) {
            Some(c) => c,
            None => [0, 0, 0],
        },
        None => [0, 0, 0],
    };
    if width_pt < 0 || space_pt < 0 {
        return None;
    }
    let border = BorderBottom { width_pt, space_pt, color };
    Some(border)
}

/// The room that the rule below a paragraph takes: its gap and its width.
pub fn border_bottom_extra(ppr: &XmlNode) -> (extra: i64)
    ensures
        extra == match border_of(*ppr) {
            Some(b) => b.space_pt + b.width_pt,
            None => 0,
        },
        0 <= extra <= 2 * MAX_READ,
{
    match parse_border_bottom(ppr) {
        Some(b) => b.space_pt + b.width_pt,
        None => 0,
    }
}

/// Finds the first child in the drawing namespace with a name.
pub fn dml<'a>(node: &'a XmlNode, name: &str) -> (c: Option<&'a XmlNode>)
    ensures
        found_node(c, node.child_named(DML_NS@, name@)),
{
    node.child(DML_NS, name)
}

/// The typeface of the `latin` child, unless it is empty.
pub open spec fn typeface_of(node: XmlNode) -> Option<Seq<char>> {
    match node.child_named(DML_NS@, "latin"@) {
        Some(n) => match n.attr_value("typeface"@) {
            Some(t) => if t.len() > 0 {
                Some(t)
            } else {
                None
            },
            None => None,
        },
        None => None,
    }
}

pub fn latin_typeface<'a>(node: &'a XmlNode) -> (face: Option<&'a str>)
    ensures
        found_text(face, typeface_of(*node)),
{
    match dml(node, "latin") {
        Some(n) => match n.attribute("typeface") {
            Some(tf) => {
                if tf.is_empty() {
                    None
                } else {
                    Some(tf)
                }
            },
            None => None,
        },
        None => None,
    }
}

/// The heading font and the body font after an element: where the element
/// is a `majorFont` or a `minorFont` with a typeface, that typeface takes
/// the place of the one before.
pub open spec fn theme_at(node: XmlNode, fonts: (Seq<char>, Seq<char>)) -> (Seq<char>, Seq<char>) {
    match typeface_of(node) {
        Some(tf) => if node.named(DML_NS@, "majorFont"@) {
            (tf, fonts.1)
        } else if node.named(DML_NS@, "minorFont"@) {
            (fonts.0, tf)
        } else {
            fonts
        },
        None => fonts,
    }
}

/// The heading font and the body font after an element and all elements
/// below it, in document order.
pub open spec fn theme_in(node: XmlNode, fonts: (Seq<char>, Seq<char>)) -> (Seq<char>, Seq<char>)
    decreases node, node.children@.len() + 1,
{
    theme_below(node, theme_at(node, fonts), node.children@.len() as int)
}

/// The heading font and the body font after the first `n` children of an
/// element and all elements below them.
pub open spec fn theme_below(node: XmlNode, fonts: (Seq<char>, Seq<char>), n: int) -> (
    Seq<char>,
    Seq<char>,
)
    decreases node, n,
{
    if 0 < n <= node.children@.len() {
        theme_in(node.children@[n - 1], theme_below(node, fonts, n - 1))
    } else {
        fonts
    }
}

/// Looks for the theme's fonts in an element and all elements below it, in
/// document order; the last `majorFont` and the last `minorFont` with a
/// typeface count.
pub fn find_theme_fonts(node: &XmlNode, fonts: &mut ThemeFonts)
    ensures
        (final(fonts).major@, final(fonts).minor@) == theme_in(
            *node,
            (old(fonts).major@, old(fonts).minor@),
        ),
    decreases node,
{
    if node.has_name(DML_NS, "majorFont") {
        match latin_typeface(node) {
            Some(tf) => {
                fonts.major = String::from_str(tf);
            },
            None => {},
        }
    } else if node.has_name(DML_NS, "minorFont") {
        match latin_typeface(node) {
            Some(tf) => {
                fonts.minor = String::from_str(tf);
            },
            None => {},
        }
    }
    let ghost start = (fonts.major@, fonts.minor@);
    let mut i: usize = 0;
    while i < node.children.len()
        invariant
            i <= node.children@.len(),
            (fonts.major@, fonts.minor@) == theme_below(*node, start, i as int),
        decreases node.children.len() - i,
    {
        find_theme_fonts(&node.children[i], fonts);
        i += 1;
    }
}

/// The fonts of a theme: the last heading font and the last body font that
/// it names. Without a theme, or where the theme names none, the heading
/// font is Aptos Display and the body font Aptos.
pub open spec fn theme_of(theme: Option<XmlNode>) -> (Seq<char>, Seq<char>) {
    match theme {
        Some(root) => theme_in(root, ("Aptos Display"@, "Aptos"@)),
        None => ("Aptos Display"@, "Aptos"@),
    }
}

/// Reads the fonts of a theme.
pub fn parse_theme(theme: Option<&XmlNode>) -> (fonts: ThemeFonts)
    ensures
        (fonts.major@, fonts.minor@) == theme_of(
            match theme {
                Some(t) => Some(*t),
                None => None,
            },
        ),
{
    let mut fonts = ThemeFonts {
        major: String::from_str("Aptos Display"),
        minor: String::from_str("Aptos"),
    };
    match theme {
        Some(root) => find_theme_fonts(root, &mut fonts),
        None => {},
    }
    fonts
}

/// The family that an `rFonts` element names.
pub fn resolve_font_from_node(rfonts: &XmlNode, theme: &ThemeFonts, default_font: &str) -> (family:
    String)
    ensures
        family@ == crate::docx::resolved_font(
            wml_value(*rfonts, "ascii"@),
            wml_value(*rfonts, "asciiTheme"@),
            theme.major@,
            theme.minor@,
            default_font@,
        ),
{
    resolve_font(
        rfonts.attribute_ns(WML_NS, "ascii"),
        rfonts.attribute_ns(WML_NS, "asciiTheme"),
        theme,
        default_font,
    )
}

/// What holds where a document says nothing else.
#[derive(Debug)]
pub struct StyleDefaults {
    pub font_size: i64,
    pub font_name: String,
    pub space_after: i64,
    /// Line spacing, in thousandths of a line.
    pub line_spacing: i64,
}

/// A paragraph style.
#[derive(Debug)]
pub struct ParagraphStyle {
    pub id: String,
    pub font_size: Option<i64>,
    pub font_name: Option<String>,
    pub bold: Option<bool>,
    pub italic: Option<bool>,
    pub color: Option<[u8; 3]>,
    pub space_before: i64,
    pub space_after: Option<i64>,
    pub alignment: Option<Alignment>,
    pub contextual_spacing: bool,
    pub keep_next: bool,
    pub line_spacing: Option<i64>,
    pub border_bottom_extra: i64,
    pub border_bottom: Option<BorderBottom>,
    /// The style that this one is based on.
    pub based_on: Option<String>,
}

/// The styles of a document. Where two styles share an id, the last counts.
#[derive(Debug)]
pub struct StylesInfo {
    pub defaults: StyleDefaults,
    pub paragraph_styles: Vec<ParagraphStyle>,
}

pub struct StyleView {
    pub id: Seq<char>,
    pub font_size: Option<i64>,
    pub font_name: Option<Seq<char>>,
    pub bold: Option<bool>,
    pub italic: Option<bool>,
    pub color: Option<[u8; 3]>,
    pub space_before: i64,
    pub space_after: Option<i64>,
    pub alignment: Option<Alignment>,
    pub contextual_spacing: bool,
    pub keep_next: bool,
    pub line_spacing: Option<i64>,
    pub border_bottom_extra: i64,
    pub border_bottom: Option<BorderBottom>,
    pub based_on: Option<Seq<char>>,
}

/// A text that may be missing, as its characters.
pub open spec fn text_view(text: Option<String>) -> Option<Seq<char>> {
    match text {
        Some(t) => Some(t@),
        None => None,
    }
}

impl View for ParagraphStyle {
    type V = StyleView;

    open spec fn view(&self) -> StyleView {
        StyleView {
            id: self.id@,
            font_size: self.font_size,
            font_name: text_view(self.font_name),
            bold: self.bold,
            italic: self.italic,
            color: self.color,
            space_before: self.space_before,
            space_after: self.space_after,
            alignment: self.alignment,
            contextual_spacing: self.contextual_spacing,
            keep_next: self.keep_next,
            line_spacing: self.line_spacing,
            border_bottom_extra: self.border_bottom_extra,
            border_bottom: self.border_bottom,
            based_on: text_view(self.based_on),
        }
    }
}

pub open spec fn styles_view(styles: Seq<ParagraphStyle>) -> Seq<StyleView> {
    Seq::new(styles.len(), |i: int| styles[i]@)
}

/// The index of the last of the first `n` styles with an id.
pub open spec fn style_index(styles: Seq<StyleView>, id: Seq<char>, n: int) -> Option<int>
    decreases n,
{
    if n <= 0 || n > styles.len() {
        None
    } else if styles[n - 1].id == id {
        Some(n - 1)
    } else {
        style_index(styles, id, n - 1)
    }
}

/// Finds the style with an id.
pub fn find_style(styles: &Vec<ParagraphStyle>, id: &str) -> (found: Option<usize>)
    ensures
        match found {
            Some(i) => style_index(styles_view(styles@), id@, styles@.len() as int) == Some(
                i as int,
            ) && i < styles@.len(),
            None => style_index(styles_view(styles@), id@, styles@.len() as int) is None,
        },
{
    let ghost all = styles_view(styles@);
    let mut n: usize = styles.len();
    while n > 0
        invariant
            n <= styles@.len(),
            all == styles_view(styles@),
            style_index(all, id@, styles@.len() as int) == style_index(all, id@, n as int),
        decreases n,
    {
        if str_equal(styles[n - 1].id.as_str(), id) {
            return Some(n - 1);
        }
        n -= 1;
    }
    None
}

/// The style that a style is based on.
pub open spec fn parent_of(styles: Seq<StyleView>, c: int) -> Option<int> {
    match styles[c].based_on {
        Some(p) => style_index(styles, p, styles.len() as int),
        None => None,
    }
}

/// The chain that goes on from `chain` with `current`, the style that
/// `current` is based on, and so on, for at most `room` styles more. It ends
/// before a style that it holds already.
pub open spec fn chain_from(
    styles: Seq<StyleView>,
    current: Option<int>,
    chain: Seq<int>,
    room: nat,
) -> Seq<int>
    decreases room,
{
    match current {
        Some(c) => if room == 0 || chain.contains(c) {
            chain
        } else {
            chain_from(styles, parent_of(styles, c), chain.push(c), (room - 1) as nat)
        },
        None => chain,
    }
}

/// A style, the style it is based on, the style that one is based on, and
/// so on, up to the first style that would come twice.
pub open spec fn chain_of(styles: Seq<StyleView>, s: int) -> Seq<int> {
    chain_from(styles, Some(s), Seq::empty(), styles.len())
}

/// What the nearest style of a chain that states a property says of it,
/// from the chain's place `from` on.
pub open spec fn nearest<T>(
    styles: Seq<StyleView>,
    chain: Seq<int>,
    get: spec_fn(StyleView) -> Option<T>,
    from: int,
) -> Option<T>
    decreases chain.len() - from,
{
    if from < 0 || from >= chain.len() {
        None
    } else {
        match get(styles[chain[from]]) {
            Some(v) => Some(v),
            None => nearest(styles, chain, get, from + 1),
        }
    }
}

/// A property of a style, or what the style's chain gives where the style
/// leaves it open.
pub open spec fn taken<T>(
    styles: Seq<StyleView>,
    s: int,
    get: spec_fn(StyleView) -> Option<T>,
) -> Option<T> {
    match get(styles[s]) {
        Some(v) => Some(v),
        None => nearest(styles, chain_of(styles, s), get, 0),
    }
}

/// A style with what it takes over from its chain: font, size, weight,
/// slant, colour, alignment, the space after it and its line spacing.
pub open spec fn filled(styles: Seq<StyleView>, s: int) -> StyleView {
    StyleView {
        font_size: taken(styles, s, |v: StyleView| v.font_size),
        font_name: taken(styles, s, |v: StyleView| v.font_name),
        bold: taken(styles, s, |v: StyleView| v.bold),
        italic: taken(styles, s, |v: StyleView| v.italic),
        color: taken(styles, s, |v: StyleView| v.color),
        space_after: taken(styles, s, |v: StyleView| v.space_after),
        alignment: taken(styles, s, |v: StyleView| v.alignment),
        line_spacing: taken(styles, s, |v: StyleView| v.line_spacing),
        ..styles[s]
    }
}

/// The styles after the first `n` of them were filled, one after the other,
/// each from the styles as they stood then.
pub open spec fn resolved(styles: Seq<StyleView>, n: int) -> Seq<StyleView>
    decreases n,
{
    if n <= 0 || n > styles.len() {
        styles
    } else {
        let before = resolved(styles, n - 1);
        before.update(n - 1, filled(before, n - 1))
    }
}

/// Filling leaves every style its id and whatever it stated itself.
pub proof fn lemma_resolved_keeps(styles: Seq<StyleView>, n: int, i: int)
    requires
        0 <= i < styles.len(),
    ensures
        resolved(styles, n).len() == styles.len(),
        ({
            let a = resolved(styles, n)[i];
            let b = styles[i];
            &&& a.id == b.id
            &&& a.based_on == b.based_on
            &&& a.space_before == b.space_before
            &&& a.contextual_spacing == b.contextual_spacing
            &&& a.keep_next == b.keep_next
            &&& a.border_bottom_extra == b.border_bottom_extra
            &&& a.border_bottom == b.border_bottom
            &&& (b.font_size is Some ==> a.font_size == b.font_size)
            &&& (b.font_name is Some ==> a.font_name == b.font_name)
            &&& (b.bold is Some ==> a.bold == b.bold)
            &&& (b.italic is Some ==> a.italic == b.italic)
            &&& (b.color is Some ==> a.color == b.color)
            &&& (b.alignment is Some ==> a.alignment == b.alignment)
            &&& (b.space_after is Some ==> a.space_after == b.space_after)
            &&& (b.line_spacing is Some ==> a.line_spacing == b.line_spacing)
        }),
    decreases n,
{
    if 0 < n <= styles.len() {
        lemma_resolved_keeps(styles, n - 1, i);
    }
}

/// What a style takes over from the styles it is based on.
pub struct Inherited {
    pub font_name: Option<String>,
    pub font_size: Option<i64>,
    pub bold: Option<bool>,
    pub italic: Option<bool>,
    pub color: Option<[u8; 3]>,
    pub alignment: Option<Alignment>,
    pub space_after: Option<i64>,
    pub line_spacing: Option<i64>,
}

fn clone_text(t: &Option<String>) -> (c: Option<String>)
    ensures
        text_view(c) == text_view(*t),
{
    match t {
        Some(s) => Some(s.clone()),
        None => None,
    }
}

pub open spec fn ints(v: Seq<usize>) -> Seq<int> {
    Seq::new(v.len(), |i: int| v[i] as int)
}

pub open spec fn index_view(i: Option<usize>) -> Option<int> {
    match i {
        Some(i) => Some(i as int),
        None => None,
    }
}

/// Finds the chain of a style.
fn style_chain(styles: &Vec<ParagraphStyle>, s: usize) -> (chain: Vec<usize>)
    requires
        s < styles@.len(),
    ensures
        ints(chain@) == chain_of(styles_view(styles@), s as int),
        forall|k: int| 0 <= k < chain@.len() ==> #[trigger] chain@[k] < styles@.len(),
{
    let count = styles.len();
    let ghost all = styles_view(styles@);
    let mut chain: Vec<usize> = Vec::new();
    let mut current: Option<usize> = Some(s);
    let mut steps: usize = 0;
    proof {
        assert(ints(chain@) =~= Seq::<int>::empty());
    }
    while steps < count
        invariant
            steps <= count,
            count == styles@.len(),
            all == styles_view(styles@),
            current matches Some(c) ==> c < count,
            forall|k: int| 0 <= k < chain@.len() ==> #[trigger] chain@[k] < count,
            chain_of(all, s as int) == chain_from(
                all,
                index_view(current),
                ints(chain@),
                (count - steps) as nat,
            ),
        ensures
            ints(chain@) == chain_of(all, s as int),
        decreases count - steps,
    {
        let c = match current {
            Some(c) => c,
            None => {
                break ;
            },
        };
        let mut seen = false;
        let mut k: usize = 0;
        while k < chain.len()
            invariant
                k <= chain@.len(),
                seen == exists|j: int| 0 <= j < k && chain@[j] == c,
            decreases chain.len() - k,
        {
            if chain[k] == c {
                seen = true;
            }
            k += 1;
        }
        proof {
            if seen {
                let j = choose|j: int| 0 <= j < chain@.len() && chain@[j] == c;
                assert(ints(chain@)[j] == c as int);
            }
        }
        if seen {
            break ;
        }
        proof {
            assert(ints(chain@.push(c)) =~= ints(chain@).push(c as int));
        }
        chain.push(c);
        current = match &styles[c].based_on {
            Some(parent) => find_style(styles, parent.as_str()),
            None => None,
        };
        steps += 1;
    }
    chain
}

/// Gathers from a chain what its nearest styles state.
fn inherit(styles: &Vec<ParagraphStyle>, chain: &Vec<usize>) -> (got: Inherited)
    requires
        forall|k: int| 0 <= k < chain@.len() ==> #[trigger] chain@[k] < styles@.len(),
    ensures
        ({
            let all = styles_view(styles@);
            let c = ints(chain@);
            &&& got.font_size == nearest(all, c, |v: StyleView| v.font_size, 0)
            &&& text_view(got.font_name) == nearest(all, c, |v: StyleView| v.font_name, 0)
            &&& got.bold == nearest(all, c, |v: StyleView| v.bold, 0)
            &&& got.italic == nearest(all, c, |v: StyleView| v.italic, 0)
            &&& got.color == nearest(all, c, |v: StyleView| v.color, 0)
            &&& got.alignment == nearest(all, c, |v: StyleView| v.alignment, 0)
            &&& got.space_after == nearest(all, c, |v: StyleView| v.space_after, 0)
            &&& got.line_spacing == nearest(all, c, |v: StyleView| v.line_spacing, 0)
        }),
{
    let ghost all = styles_view(styles@);
    let ghost c = ints(chain@);
    let mut got = Inherited {
        font_name: None,
        font_size: None,
        bold: None,
        italic: None,
        color: None,
        alignment: None,
        space_after: None,
        line_spacing: None,
    };
    let mut a: usize = chain.len();
    while a > 0
        invariant
            a <= chain@.len(),
            all == styles_view(styles@),
            c == ints(chain@),
            forall|k: int| 0 <= k < chain@.len() ==> #[trigger] chain@[k] < styles@.len(),
            got.font_size == nearest(all, c, |v: StyleView| v.font_size, a as int),
            text_view(got.font_name) == nearest(all, c, |v: StyleView| v.font_name, a as int),
            got.bold == nearest(all, c, |v: StyleView| v.bold, a as int),
            got.italic == nearest(all, c, |v: StyleView| v.italic, a as int),
            got.color == nearest(all, c, |v: StyleView| v.color, a as int),
            got.alignment == nearest(all, c, |v: StyleView| v.alignment, a as int),
            got.space_after == nearest(all, c, |v: StyleView| v.space_after, a as int),
            got.line_spacing == nearest(all, c, |v: StyleView| v.line_spacing, a as int),
        decreases a,
    {
        let st = &styles[chain[a - 1]];
        if st.font_name.is_some() {
            got.font_name = clone_text(&st.font_name);
        }
        if st.font_size.is_some() {
            got.font_size = st.font_size;
        }
        if st.bold.is_some() {
            got.bold = st.bold;
        }
        if st.italic.is_some() {
            got.italic = st.italic;
        }
        if st.color.is_some() {
            got.color = st.color;
        }
        if st.alignment.is_some() {
            got.alignment = st.alignment;
        }
        if st.space_after.is_some() {
            got.space_after = st.space_after;
        }
        if st.line_spacing.is_some() {
            got.line_spacing = st.line_spacing;
        }
        a -= 1;
    }
    got
}

/// Fills in what every style leaves open from the style it is based on, and
/// from the style that one is based on, and so on: the nearest style that
/// states a property gives it. The styles are filled one after the other. A
/// style that is based on itself, directly or by way of others, takes over
/// nothing from beyond the circle.
pub fn resolve_based_on(styles: &mut Vec<ParagraphStyle>)
    ensures
        styles_view(final(styles)@) == resolved(
            styles_view(old(styles)@),
            old(styles)@.len() as int,
        ),
        final(styles)@.len() == old(styles)@.len(),
{
    let count = styles.len();
    let ghost start = styles_view(styles@);
    let mut s: usize = 0;
    while s < count
        invariant
            s <= count,
            count == styles@.len(),
            count == start.len(),
            styles_view(styles@) == resolved(start, s as int),
        decreases count - s,
    {
        let chain = style_chain(styles, s);
        let got = inherit(styles, &chain);
        let st = &styles[s];
        let new_style = ParagraphStyle {
            id: st.id.clone(),
            font_size: if st.font_size.is_none() {
                got.font_size
            } else {
                st.font_size
            },
            font_name: if st.font_name.is_none() {
                got.font_name
            } else {
                clone_text(&st.font_name)
            },
            bold: if st.bold.is_none() {
                got.bold
            } else {
                st.bold
            },
            italic: if st.italic.is_none() {
                got.italic
            } else {
                st.italic
            },
            color: if st.color.is_none() {
                got.color
            } else {
                st.color
            },
            space_before: st.space_before,
            space_after: if st.space_after.is_none() {
                got.space_after
            } else {
                st.space_after
            },
            alignment: if st.alignment.is_none() {
                got.alignment
            } else {
                st.alignment
            },
            contextual_spacing: st.contextual_spacing,
            keep_next: st.keep_next,
            line_spacing: if st.line_spacing.is_none() {
                got.line_spacing
            } else {
                st.line_spacing
            },
            border_bottom_extra: st.border_bottom_extra,
            border_bottom: st.border_bottom,
            based_on: clone_text(&st.based_on),
        };
        styles.set(s, new_style);
        s += 1;
    }
}

/// The font size that a run's or a style's properties state, from half
/// points.
pub fn font_size_of(rpr: &XmlNode) -> (size: Option<i64>)
    ensures
        size == units_of(value_of(wml_child(*rpr, "sz"@), "val"@), 2),
        size matches Some(n) ==> -MAX_READ <= n <= MAX_READ,
{
    match wml_attr(rpr, "sz") {
        Some(t) => read_units(t, 2),
        None => None,
    }
}

/// The line spacing that a `spacing` element states, from 240ths of a line.
pub fn line_spacing_of(spacing: &XmlNode) -> (ratio: Option<i64>)
    ensures
        ratio == units_of(wml_value(*spacing, "line"@), 240),
        ratio matches Some(n) ==> -MAX_READ <= n <= MAX_READ,
{
    match spacing.attribute_ns(WML_NS, "line") {
        Some(t) => read_units(t, 240),
        None => None,
    }
}

/// Whether the properties hold an on/off element, and if so what it says.
pub fn switch_of(rpr: &XmlNode, name: &str) -> (on: Option<bool>)
    ensures
        on == match wml_child(*rpr, name@) {
            Some(n) => Some(switched_on(n)),
            None => None,
        },
{
    match wml(rpr, name) {
        Some(n) => Some(is_on(n)),
        None => None,
    }
}

/// The family that properties name, if they name one.
pub open spec fn family_in(rpr: Option<XmlNode>, theme: ThemeFonts, default_font: Seq<char>) -> Option<
    Seq<char>,
> {
    match child_of(rpr, "rFonts"@) {
        Some(rfonts) => Some(
            crate::docx::resolved_font(
                wml_value(rfonts, "ascii"@),
                wml_value(rfonts, "asciiTheme"@),
                theme.major@,
                theme.minor@,
                default_font,
            ),
        ),
        None => None,
    }
}

/// What an on/off element of properties says, if they hold it.
pub open spec fn switch_in(rpr: Option<XmlNode>, name: Seq<char>) -> Option<bool> {
    match child_of(rpr, name) {
        Some(n) => Some(switched_on(n)),
        None => None,
    }
}

/// The colour that properties spell, if they spell one.
pub open spec fn color_in(rpr: Option<XmlNode>) -> Option<[u8; 3]> {
    match value_of(child_of(rpr, "color"@), "val"@) {
        Some(t) => crate::docx::hex_color(t),
        None => None,
    }
}

/// The alignment that properties state, if they state one.
pub open spec fn alignment_in(ppr: Option<XmlNode>) -> Option<Alignment> {
    match value_of(child_of(ppr, "jc"@), "val"@) {
        Some(t) => Some(crate::docx::alignment_of(t)),
        None => None,
    }
}

/// The rule below a paragraph that properties state.
pub open spec fn rule_in(ppr: Option<XmlNode>) -> Option<BorderBottom> {
    match ppr {
        Some(n) => border_of(n),
        None => None,
    }
}

/// The room that the rule below a paragraph takes.
pub open spec fn rule_room(ppr: Option<XmlNode>) -> int {
    match rule_in(ppr) {
        Some(b) => b.space_pt + b.width_pt,
        None => 0,
    }
}

/// The paragraph style that an element states, under an id. Fonts that it
/// leaves to the theme come from `theme`, and `default_font` stands where
/// its font reference names nothing.
pub open spec fn style_of(
    node: XmlNode,
    id: Seq<char>,
    theme: ThemeFonts,
    default_font: Seq<char>,
) -> StyleView {
    let ppr = wml_child(node, "pPr"@);
    let rpr = wml_child(node, "rPr"@);
    let spacing = child_of(ppr, "spacing"@);
    StyleView {
        id,
        font_size: units_of(value_of(child_of(rpr, "sz"@), "val"@), 2),
        font_name: family_in(rpr, theme, default_font),
        bold: switch_in(rpr, "b"@),
        italic: switch_in(rpr, "i"@),
        color: color_in(rpr),
        space_before: number_or(value_of(spacing, "before"@), 20, 0),
        space_after: units_of(value_of(spacing, "after"@), 20),
        alignment: alignment_in(ppr),
        contextual_spacing: child_of(ppr, "contextualSpacing"@) is Some,
        keep_next: child_of(ppr, "keepNext"@) is Some,
        line_spacing: units_of(value_of(spacing, "line"@), 240),
        border_bottom_extra: rule_room(ppr) as i64,
        border_bottom: rule_in(ppr),
        based_on: value_of(wml_child(node, "basedOn"@), "val"@),
    }
}

/// Reads one paragraph style.
fn parse_style(style_node: &XmlNode, id: &str, theme: &ThemeFonts, default_font: &str) -> (style:
    ParagraphStyle)
    ensures
        style@ == style_of(*style_node, id@, *theme, default_font@),
{
    let ppr = wml(style_node, "pPr");
    let spacing = match ppr {
        Some(n) => wml(n, "spacing"),
        None => None,
    };
    let space_before = match spacing {
        Some(n) => match twips_attr(n, "before") {
            Some(v) => v,
            None => 0,
        },
        None => 0,
    };
    let space_after = match spacing {
        Some(n) => twips_attr(n, "after"),
        None => None,
    };
    let bdr_extra = match ppr {
        Some(n) => border_bottom_extra(n),
        None => 0,
    };
    let border_bottom = match ppr {
        Some(n) => parse_border_bottom(n),
        None => None,
    };
    let rpr = wml(style_node, "rPr");
    let font_size = match rpr {
        Some(n) => font_size_of(n),
        None => None,
    };
    let font_name = match rpr {
        Some(n) => match wml(n, "rFonts") {
            Some(rfonts) => Some(resolve_font_from_node(rfonts, theme, default_font)),
            None => None,
        },
        None => None,
    };
    let bold = match rpr {
        Some(n) => switch_of(n, "b"),
        None => None,
    };
    let italic = match rpr {
        Some(n) => switch_of(n, "i"),
        None => None,
    };
    let color = match rpr {
        Some(n) => match wml_attr(n, "color") {
            Some(t) => parse_hex_color(t),
            None => None,
        },
        None => None,
    };
    let alignment = match ppr {
        Some(n) => match wml_attr(n, "jc") {
            Some(t) => Some(parse_alignment(t)),
            None => None,
        },
        None => None,
    };
    let contextual_spacing = match ppr {
        Some(n) => wml(n, "contextualSpacing").is_some(),
        None => false,
    };
    let keep_next = match ppr {
        Some(n) => wml(n, "keepNext").is_some(),
        None => false,
    };
    let line_spacing = match spacing {
        Some(n) => line_spacing_of(n),
        None => None,
    };
    let based_on = match wml_attr(style_node, "basedOn") {
        Some(v) => Some(String::from_str(v)),
        None => None,
    };
    ParagraphStyle {
        id: String::from_str(id),
        font_size,
        font_name,
        bold,
        italic,
        color,
        space_before,
        space_after,
        alignment,
        contextual_spacing,
        keep_next,
        line_spacing,
        border_bottom_extra: bdr_extra,
        border_bottom,
        based_on,
    }
}

pub struct StyleDefaultsView {
    pub font_size: i64,
    pub font_name: Seq<char>,
    pub space_after: i64,
    pub line_spacing: i64,
}

impl View for StyleDefaults {
    type V = StyleDefaultsView;

    open spec fn view(&self) -> StyleDefaultsView {
        StyleDefaultsView {
            font_size: self.font_size,
            font_name: self.font_name@,
            space_after: self.space_after,
            line_spacing: self.line_spacing,
        }
    }
}

/// The defaults of a document that states none: twelve points in the
/// theme's body font, eight points after a paragraph, and lines of twelve
/// tenths.
pub open spec fn plain_defaults(theme: ThemeFonts) -> StyleDefaultsView {
    StyleDefaultsView {
        font_size: 12_000,
        font_name: theme.minor@,
        space_after: 8_000,
        line_spacing: 1_200,
    }
}

pub fn default_styles(theme: &ThemeFonts) -> (defaults: StyleDefaults)
    ensures
        defaults@ == plain_defaults(*theme),
{
    StyleDefaults {
        font_size: 12_000,
        font_name: theme.minor.clone(),
        space_after: 8_000,
        line_spacing: 1_200,
    }
}

/// The defaults that a styles part states under `docDefaults`: the size and
/// the font of its run properties and the space after a paragraph and the
/// line spacing of its paragraph properties, each where it is stated and
/// else as in a document that states none.
pub open spec fn defaults_in(root: XmlNode, theme: ThemeFonts) -> StyleDefaultsView {
    let stated = wml_child(root, "docDefaults"@);
    let rpr = child_of(child_of(stated, "rPrDefault"@), "rPr"@);
    let spacing = child_of(child_of(child_of(stated, "pPrDefault"@), "pPr"@), "spacing"@);
    StyleDefaultsView {
        font_size: number_or(value_of(child_of(rpr, "sz"@), "val"@), 2, 12_000),
        font_name: match family_in(rpr, theme, theme.minor@) {
            Some(f) => f,
            None => theme.minor@,
        },
        space_after: number_or(value_of(spacing, "after"@), 20, 8_000),
        line_spacing: number_or(value_of(spacing, "line"@), 240, 1_200),
    }
}

/// Reads the defaults of a styles part.
fn parse_defaults(root: &XmlNode, theme: &ThemeFonts) -> (defaults: StyleDefaults)
    ensures
        defaults@ == defaults_in(*root, *theme),
{
    let mut defaults = default_styles(theme);
    match wml(root, "docDefaults") {
        Some(doc_defaults) => {
            let rpr = match wml(doc_defaults, "rPrDefault") {
                Some(n) => wml(n, "rPr"),
                None => None,
            };
            match rpr {
                Some(rpr) => {
                    match font_size_of(rpr) {
                        Some(v) => {
                            defaults.font_size = v;
                        },
                        None => {},
                    }
                    match wml(rpr, "rFonts") {
                        Some(rfonts) => {
                            defaults.font_name = resolve_font_from_node(
                                rfonts,
                                theme,
                                theme.minor.as_str(),
                            );
                        },
                        None => {},
                    }
                },
                None => {},
            }
            let ppr = match wml(doc_defaults, "pPrDefault") {
                Some(n) => wml(n, "pPr"),
                None => None,
            };
            let spacing = match ppr {
                Some(n) => wml(n, "spacing"),
                None => None,
            };
            match spacing {
                Some(spacing) => {
                    match twips_attr(spacing, "after") {
                        Some(v) => {
                            defaults.space_after = v;
                        },
                        None => {},
                    }
                    match line_spacing_of(spacing) {
                        Some(v) => {
                            defaults.line_spacing = v;
                        },
                        None => {},
                    }
                },
                None => {},
            }
        },
        None => {},
    }
    defaults
}

/// Whether an element states a paragraph style: a `style` of the type
/// `paragraph` with an id.
pub open spec fn states_style(node: XmlNode) -> bool {
    &&& node.named(WML_NS@, "style"@)
    &&& wml_value(node, "type"@) == Some("paragraph"@)
    &&& wml_value(node, "styleId"@) is Some
}

/// The paragraph styles that the first `n` children of a styles part state,
/// in their order.
pub open spec fn stated_styles(
    root: XmlNode,
    theme: ThemeFonts,
    default_font: Seq<char>,
    n: int,
) -> Seq<StyleView>
    decreases n,
{
    if n <= 0 {
        Seq::empty()
    } else {
        let before = stated_styles(root, theme, default_font, n - 1);
        let node = root.children@[n - 1];
        match wml_value(node, "styleId"@) {
            Some(id) => if states_style(node) {
                before.push(style_of(node, id, theme, default_font))
            } else {
                before
            },
            None => before,
        }
    }
}

/// The styles of a document: its defaults, and its paragraph styles, each
/// with what it takes over from the styles it is based on. A font reference
/// of a style that names nothing stands for the default font. Without a
/// styles part there are the plain defaults and no style.
pub open spec fn styles_of(root: Option<XmlNode>, theme: ThemeFonts) -> (
    StyleDefaultsView,
    Seq<StyleView>,
) {
    match root {
        Some(r) => {
            let defaults = defaults_in(r, theme);
            let stated = stated_styles(r, theme, defaults.font_name, r.children@.len() as int);
            (defaults, resolved(stated, stated.len() as int))
        },
        None => (plain_defaults(theme), Seq::empty()),
    }
}

/// Reads the styles of a document.
pub fn parse_styles(styles_root: Option<&XmlNode>, theme: &ThemeFonts) -> (info: StylesInfo)
    ensures
        (info.defaults@, styles_view(info.paragraph_styles@)) == styles_of(
            match styles_root {
                Some(r) => Some(*r),
                None => None,
            },
            *theme,
        ),
{
    let mut paragraph_styles: Vec<ParagraphStyle> = Vec::new();
    let root = match styles_root {
        Some(r) => r,
        None => {
            return StylesInfo { defaults: default_styles(theme), paragraph_styles };
        },
    };
    let defaults = parse_defaults(root, theme);
    let mut i: usize = 0;
    while i < root.children.len()
        invariant
            i <= root.children@.len(),
            styles_view(paragraph_styles@) == stated_styles(
                *root,
                *theme,
                defaults.font_name@,
                i as int,
            ),
        decreases root.children.len() - i,
    {
        let style_node = &root.children[i];
        i += 1;
        if !style_node.has_name(WML_NS, "style") {
            continue ;
        }
        match style_node.attribute_ns(WML_NS, "type") {
            Some(t) => {
                if !str_equal(t, "paragraph") {
                    continue ;
                }
            },
            None => {
                continue ;
            },
        }
        let id = match style_node.attribute_ns(WML_NS, "styleId") {
            Some(id) => id,
            None => {
                continue ;
            },
        };
        let style = parse_style(style_node, id, theme, defaults.font_name.as_str());
        paragraph_styles.push(style);
    }
    resolve_based_on(&mut paragraph_styles);
    StylesInfo { defaults, paragraph_styles }
}

} // verus!
