//! From the parts of a word-processing package to the document model.
//!
//! The parts come as trees of elements. What the package holds in other
//! parts, the bytes of images and fonts, is asked for by the path of the
//! part and handed in once it is read.

use crate::docx::{deobfuscate_font, jpeg_dimensions, parse_alignment, parse_guid_to_bytes, parse_hex_color};
use crate::content::{
    carried_view, CarriedView, blocks_view, cells_view, paragraphs_view, rows_view, runs_view, BlockView, CellView,
    ParagraphView, RowView, RunView, TableView,
};
use crate::docx::ThemeFonts;
use crate::error::Error;
use crate::face::to_lowercase;
use crate::model::{
    Alignment, Block, BorderBottom, Document, EmbeddedFont, EmbeddedImage, Paragraph, Run, Table,
    TableCell, TableRow, VertAlign,
};
use crate::number::MAX_READ;
use crate::numbering::{
    counted, counters_view, item_level, item_number, label_text, parse_list_info, CounterView,
    LevelView, ListCounter, NumberingInfo, NumberingView,
};
use crate::styles::{
    alignment_in, child_of, find_style, font_size_of, is_on, line_spacing_of, number_or,
    parse_border_bottom, read_units, resolve_font_from_node, rule_in, styles_view, twips_attr,
    units_of, value_of, wml, wml_attr, wml_child, wml_value, DML_NS, ParagraphStyle, REL_NS,
    StyleDefaults, StylesInfo, StyleView, WML_NS, WPD_NS,
};
use crate::text::str_equal;
use crate::units::{max_i64, mul_div};
use crate::xml::XmlNode;
use vstd::prelude::*;
use vstd::string::StringExecFns;

verus! {

/// A relationship of a part: an id and the part it stands for.
#[derive(Debug)]
pub struct Relationship {
    pub id: String,
    pub target: String,
}

pub struct RelView {
    pub id: Seq<char>,
    pub target: Seq<char>,
}

impl View for Relationship {
    type V = RelView;

    open spec fn view(&self) -> RelView {
        RelView { id: self.id@, target: self.target@ }
    }
}

pub open spec fn rels_view(rels: Seq<Relationship>) -> Seq<RelView> {
    Seq::new(rels.len(), |i: int| rels[i]@)
}

/// The relationship that an element states: one for an element called
/// `Relationship` that has an `Id` and a `Target`.
pub open spec fn relationship_of(node: XmlNode) -> Option<RelView> {
    match (node.attr_value("Id"@), node.attr_value("Target"@)) {
        (Some(id), Some(target)) => if node.name@ == "Relationship"@ {
            Some(RelView { id, target })
        } else {
            None
        },
        _ => None,
    }
}

/// The relationships that the first `n` elements state, in order.
pub open spec fn relationships_of(children: Seq<XmlNode>, n: int) -> Seq<RelView>
    decreases n,
{
    if n <= 0 {
        Seq::empty()
    } else {
        match relationship_of(children[n - 1]) {
            Some(r) => relationships_of(children, n - 1).push(r),
            None => relationships_of(children, n - 1),
        }
    }
}

/// The relationships of a part, which are the children of its root. Without
/// the part there are none.
pub open spec fn part_relationships(root: Option<&XmlNode>) -> Seq<RelView> {
    match root {
        Some(r) => relationships_of(r.children@, r.children@.len() as int),
        None => Seq::empty(),
    }
}

/// Reads the relationships of a part.
pub fn parse_relationships(root: Option<&XmlNode>) -> (rels: Vec<Relationship>)
    ensures
        rels_view(rels@) == part_relationships(root),
{
    let mut rels: Vec<Relationship> = Vec::new();
    let root = match root {
        Some(r) => r,
        None => {
            return rels;
        },
    };
    let mut i: usize = 0;
    while i < root.children.len()
        invariant
            i <= root.children@.len(),
            rels_view(rels@) == relationships_of(root.children@, i as int),
        decreases root.children.len() - i,
    {
        let node = &root.children[i];
        i += 1;
        if !str_equal(node.name.as_str(), "Relationship") {
            continue ;
        }
        match (node.attribute("Id"), node.attribute("Target")) {
            (Some(id), Some(target)) => {
                let rel = Relationship { id: String::from_str(id), target: String::from_str(target) };
                rels.push(rel);
            },
            _ => {},
        }
    }
    rels
}

/// The index of the last of the first `n` relationships with an id.
pub open spec fn rel_index(rels: Seq<Relationship>, id: Seq<char>, n: int) -> Option<int>
    decreases n,
{
    if n <= 0 || n > rels.len() {
        None
    } else if rels[n - 1].id@ == id {
        Some(n - 1)
    } else {
        rel_index(rels, id, n - 1)
    }
}

fn find_target_index(rels: &Vec<Relationship>, id: &str) -> (found: Option<usize>)
    ensures
        match found {
            Some(i) => rel_index(rels@, id@, rels@.len() as int) == Some(i as int) && i
                < rels@.len(),
            None => rel_index(rels@, id@, rels@.len() as int) is None,
        },
{
    let mut n: usize = rels.len();
    while n > 0
        invariant
            n <= rels@.len(),
            rel_index(rels@, id@, rels@.len() as int) == rel_index(rels@, id@, n as int),
        decreases n,
    {
        if str_equal(rels[n - 1].id.as_str(), id) {
            return Some(n - 1);
        }
        n -= 1;
    }
    None
}

/// The part that a relationship stands for. Where two relationships share
/// an id, the last counts.
pub fn find_target<'a>(rels: &'a Vec<Relationship>, id: &str) -> (target: Option<&'a str>)
    ensures
        match target {
            Some(t) => rel_index(rels@, id@, rels@.len() as int) matches Some(i) && rels@[i].target@
                == t@,
            None => rel_index(rels@, id@, rels@.len() as int) is None,
        },
{
    match find_target_index(rels, id) {
        Some(i) => Some(rels[i].target.as_str()),
        None => None,
    }
}

/// The path of a part in the archive: a target that starts with `/` is a
/// path from the root, any other is a path from the `word` folder.
pub open spec fn part_path(target: Seq<char>) -> Seq<char> {
    if target.len() > 0 && target[0] == '/' {
        target.subrange(1, target.len() as int)
    } else {
        "word/"@ + target
    }
}

pub fn zip_path(target: &str) -> (path: String)
    ensures
        path@ == part_path(target@),
{
    let n = target.unicode_len();
    if n > 0 && target.get_char(0) == '/' {
        String::from_str(target.substring_char(1, n))
    } else {
        String::from_str("word/").concat(target)
    }
}

/// A font that the package carries: where its bytes are, and how to restore
/// them.
#[derive(Debug)]
pub struct EmbedPlan {
    pub font_name: String,
    pub bold: bool,
    pub italic: bool,
    /// The path of the part that holds the font.
    pub zip_path: String,
    /// The key to restore the font with, if it is obfuscated.
    pub key: Option<[u8; 16]>,
}

pub struct PlanView {
    pub font_name: Seq<char>,
    pub bold: bool,
    pub italic: bool,
    pub zip_path: Seq<char>,
    pub key: Option<Seq<u8>>,
}

impl View for EmbedPlan {
    type V = PlanView;

    open spec fn view(&self) -> PlanView {
        PlanView {
            font_name: self.font_name@,
            bold: self.bold,
            italic: self.italic,
            zip_path: self.zip_path@,
            key: match self.key {
                Some(k) => Some(k@),
                None => None,
            },
        }
    }
}

pub open spec fn plans_view(plans: Seq<EmbedPlan>) -> Seq<PlanView> {
    Seq::new(plans.len(), |i: int| plans[i]@)
}

/// The face of a font that a font table names under `tag`: there is one if
/// the element is there, refers to a relationship, and the relationship is
/// known. Its key is what the element's `fontKey` spells, if it spells one.
pub open spec fn embed_plan(
    font_node: XmlNode,
    font_name: Seq<char>,
    tag: Seq<char>,
    bold: bool,
    italic: bool,
    rels: Seq<Relationship>,
) -> Option<PlanView> {
    match wml_child(font_node, tag) {
        Some(node) => match node.attr_value_ns(REL_NS@, "id"@) {
            Some(id) => match rel_index(rels, id, rels.len() as int) {
                Some(i) => Some(
                    PlanView {
                        font_name,
                        bold,
                        italic,
                        zip_path: part_path(rels[i].target@),
                        key: match crate::styles::wml_value(node, "fontKey"@) {
                            Some(k) => crate::docx::guid_key(k),
                            None => None,
                        },
                    },
                ),
                None => None,
            },
            None => None,
        },
        None => None,
    }
}

pub open spec fn optional(plan: Option<PlanView>) -> Seq<PlanView> {
    match plan {
        Some(p) => seq![p],
        None => Seq::empty(),
    }
}

/// The faces of one font of a font table: regular, bold, italic and bold
/// italic, as far as the table names them. An element that is no `font` or
/// has no name has none.
pub open spec fn font_plans(font_node: XmlNode, rels: Seq<Relationship>) -> Seq<PlanView> {
    match crate::styles::wml_value(font_node, "name"@) {
        Some(name) => if font_node.named(WML_NS@, "font"@) {
            optional(embed_plan(font_node, name, "embedRegular"@, false, false, rels)) + optional(
                embed_plan(font_node, name, "embedBold"@, true, false, rels),
            ) + optional(embed_plan(font_node, name, "embedItalic"@, false, true, rels)) + optional(
                embed_plan(font_node, name, "embedBoldItalic"@, true, true, rels),
            )
        } else {
            Seq::empty()
        },
        None => Seq::empty(),
    }
}

/// The faces of the first `n` fonts of a font table.
pub open spec fn table_plans(children: Seq<XmlNode>, rels: Seq<Relationship>, n: int) -> Seq<
    PlanView,
>
    decreases n,
{
    if n <= 0 {
        Seq::empty()
    } else {
        table_plans(children, rels, n - 1) + font_plans(children[n - 1], rels)
    }
}

fn embed_of(font_node: &XmlNode, font_name: &str, tag: &str, bold: bool, italic: bool, rels: &Vec<
    Relationship,
>) -> (plan: Option<EmbedPlan>)
    ensures
        match plan {
            Some(p) => embed_plan(*font_node, font_name@, tag@, bold, italic, rels@) == Some(p@),
            None => embed_plan(*font_node, font_name@, tag@, bold, italic, rels@) is None,
        },
{
    let node = match wml(font_node, tag) {
        Some(n) => n,
        None => {
            return None;
        },
    };
    let id = match node.attribute_ns(REL_NS, "id") {
        Some(id) => id,
        None => {
            return None;
        },
    };
    let target = match find_target(rels, id) {
        Some(t) => t,
        None => {
            return None;
        },
    };
    let key = match node.attribute_ns(WML_NS, "fontKey") {
        Some(k) => parse_guid_to_bytes(k),
        None => None,
    };
    Some(
        EmbedPlan {
            font_name: String::from_str(font_name),
            bold,
            italic,
            zip_path: zip_path(target),
            key,
        },
    )
}

fn push_plan(plans: &mut Vec<EmbedPlan>, plan: Option<EmbedPlan>)
    ensures
        plans_view(final(plans)@) == plans_view(old(plans)@) + optional(
            match plan {
                Some(p) => Some(p@),
                None => None,
            },
        ),
{
    match plan {
        Some(p) => {
            plans.push(p);
        },
        None => {
        },
    }
}

/// Adds the faces of one font of a font table.
fn push_font_plans(plans: &mut Vec<EmbedPlan>, font_node: &XmlNode, rels: &Vec<Relationship>)
    ensures
        plans_view(final(plans)@) == plans_view(old(plans)@) + font_plans(*font_node, rels@),
{
    if !font_node.has_name(WML_NS, "font") {
        return ;
    }
    let font_name = match font_node.attribute_ns(WML_NS, "name") {
        Some(n) => n,
        None => {
            return ;
        },
    };
    let regular = embed_of(font_node, font_name, "embedRegular", false, false, rels);
    let bold = embed_of(font_node, font_name, "embedBold", true, false, rels);
    let italic = embed_of(font_node, font_name, "embedItalic", false, true, rels);
    let bold_italic = embed_of(font_node, font_name, "embedBoldItalic", true, true, rels);
    push_plan(plans, regular);
    push_plan(plans, bold);
    push_plan(plans, italic);
    push_plan(plans, bold_italic);
}

/// Reads which fonts a package carries, from its font table and the
/// relationships of the font table: for every font the regular, bold, italic
/// and bold italic face that the table names and the relationships resolve.
/// Without a font table there are none.
pub fn parse_font_table(root: Option<&XmlNode>, rels: &Vec<Relationship>) -> (plans: Vec<EmbedPlan>)
    ensures
        plans_view(plans@) == match root {
            Some(r) => table_plans(r.children@, rels@, r.children@.len() as int),
            None => Seq::empty(),
        },
{
    let mut plans: Vec<EmbedPlan> = Vec::new();
    let root = match root {
        Some(r) => r,
        None => {
            return plans;
        },
    };
    let mut i: usize = 0;
    while i < root.children.len()
        invariant
            i <= root.children@.len(),
            plans_view(plans@) == table_plans(root.children@, rels@, i as int),
        decreases root.children.len() - i,
    {
        push_font_plans(&mut plans, &root.children[i], rels);
        i += 1;
    }
    plans
}

/// A carried font as it is entered: under its family in lower case, with
/// its bytes restored if it is obfuscated.
pub open spec fn carried_font(plan: PlanView, data: Seq<u8>) -> CarriedView {
    CarriedView {
        family: crate::face::lowercase_of(plan.font_name),
        bold: plan.bold,
        italic: plan.italic,
        data: match plan.key {
            Some(k) => crate::docx::deobfuscated(data, k),
            None => data,
        },
    }
}

/// Enters a carried font among the fonts of a document, once its bytes are
/// read: the font takes the place of the first of the same family and
/// style, if there is one, and else comes after the others.
#[verifier::loop_isolation(false)]
pub fn store_embedded_font(fonts: &mut Vec<EmbeddedFont>, plan: &EmbedPlan, data: Vec<u8>)
    ensures
        carried_view(final(fonts)@) == (match crate::registry::embedded_index(
            old(fonts)@,
            crate::face::lowercase_of(plan.font_name@),
            plan.bold,
            plan.italic,
            0,
        ) {
            Some(i) => carried_view(old(fonts)@).update(i, carried_font(plan@, data@)),
            None => carried_view(old(fonts)@).push(carried_font(plan@, data@)),
        }),
{
    let mut data = data;
    match &plan.key {
        Some(k) => deobfuscate_font(&mut data, k),
        None => {},
    }
    let family = to_lowercase(plan.font_name.as_str());
    let ghost before = fonts@;
    let mut i: usize = 0;
    while i < fonts.len()
        invariant
            i <= fonts@.len(),
            fonts@ == before,
            crate::registry::embedded_index(before, family@, plan.bold, plan.italic, 0)
                == crate::registry::embedded_index(
                before,
                family@,
                plan.bold,
                plan.italic,
                i as int,
            ),
        decreases fonts.len() - i,
    {
        if fonts[i].family == family && fonts[i].bold == plan.bold && fonts[i].italic == plan.italic {
            let font = EmbeddedFont { family, bold: plan.bold, italic: plan.italic, data };
            fonts.set(i, font);
            return ;
        }
        i += 1;
    }
    let font = EmbeddedFont { family, bold: plan.bold, italic: plan.italic, data };
    fonts.push(font);
}

/// What a paragraph's style gives its runs.
pub struct RunDefaults {
    pub font_size: i64,
    pub font_name: String,
    pub bold: bool,
    pub italic: bool,
    pub color: Option<[u8; 3]>,
}

pub struct DefaultsView {
    pub font_size: i64,
    pub font_name: Seq<char>,
    pub bold: bool,
    pub italic: bool,
    pub color: Option<[u8; 3]>,
}

impl View for RunDefaults {
    type V = DefaultsView;

    open spec fn view(&self) -> DefaultsView {
        DefaultsView {
            font_size: self.font_size,
            font_name: self.font_name@,
            bold: self.bold,
            italic: self.italic,
            color: self.color,
        }
    }
}

/// The style of a paragraph: the one its properties name, or `Normal`; none
/// where the styles have no such style.
pub open spec fn style_for(ppr: Option<XmlNode>, styles: Seq<StyleView>) -> Option<StyleView> {
    let id = match crate::styles::value_of(crate::styles::child_of(ppr, "pStyle"@), "val"@) {
        Some(id) => id,
        None => "Normal"@,
    };
    match crate::styles::style_index(styles, id, styles.len() as int) {
        Some(i) => Some(styles[i]),
        None => None,
    }
}

fn paragraph_style<'a>(ppr: Option<&XmlNode>, styles: &'a StylesInfo) -> (style: Option<
    &'a ParagraphStyle,
>)
    ensures
        style_for(node_of(ppr), styles_view(styles.paragraph_styles@)) == match style {
            Some(s) => Some(s@),
            None => None,
        },
{
    let id = match ppr {
        Some(n) => match wml_attr(n, "pStyle") {
            Some(id) => id,
            None => "Normal",
        },
        None => "Normal",
    };
    match find_style(&styles.paragraph_styles, id) {
        Some(i) => Some(&styles.paragraph_styles[i]),
        None => None,
    }
}

/// An element that may be missing, as a value.
pub open spec fn node_of(node: Option<&XmlNode>) -> Option<XmlNode> {
    match node {
        Some(n) => Some(*n),
        None => None,
    }
}

/// What a style gives the runs of its paragraphs: what it states, and else
/// the document's font and size, and neither bold nor italic.
pub open spec fn defaults_of(style: Option<StyleView>, defaults: StyleDefaults) -> DefaultsView {
    match style {
        Some(s) => DefaultsView {
            font_size: match s.font_size {
                Some(v) => v,
                None => defaults.font_size,
            },
            font_name: match s.font_name {
                Some(n) => n,
                None => defaults.font_name@,
            },
            bold: s.bold == Some(true),
            italic: s.italic == Some(true),
            color: s.color,
        },
        None => DefaultsView {
            font_size: defaults.font_size,
            font_name: defaults.font_name@,
            bold: false,
            italic: false,
            color: None,
        },
    }
}

fn run_defaults(style: Option<&ParagraphStyle>, styles: &StylesInfo) -> (d: RunDefaults)
    ensures
        d@ == defaults_of(
            match style {
                Some(s) => Some(s@),
                None => None,
            },
            styles.defaults,
        ),
{
    match style {
        Some(s) => RunDefaults {
            font_size: match s.font_size {
                Some(v) => v,
                None => styles.defaults.font_size,
            },
            font_name: match &s.font_name {
                Some(n) => n.clone(),
                None => styles.defaults.font_name.clone(),
            },
            bold: match s.bold {
                Some(b) => b,
                None => false,
            },
            italic: match s.italic {
                Some(b) => b,
                None => false,
            },
            color: s.color,
        },
        None => RunDefaults {
            font_size: styles.defaults.font_size,
            font_name: styles.defaults.font_name.clone(),
            bold: false,
            italic: false,
            color: None,
        },
    }
}

/// The text of the first `n` children of a run: what its `t` elements start
/// with, one after the other.
pub open spec fn text_of(run_node: XmlNode, n: int) -> Seq<char>
    decreases n,
{
    if n <= 0 {
        Seq::empty()
    } else {
        let child = run_node.children@[n - 1];
        let before = text_of(run_node, n - 1);
        match child.text {
            Some(t) => if child.named(WML_NS@, "t"@) {
                before + t@
            } else {
                before
            },
            None => before,
        }
    }
}

fn run_text(run_node: &XmlNode) -> (text: String)
    ensures
        text@ == text_of(*run_node, run_node.children@.len() as int),
{
    let mut text = String::new();
    let mut i: usize = 0;
    while i < run_node.children.len()
        invariant
            i <= run_node.children@.len(),
            text@ == text_of(*run_node, i as int),
        decreases run_node.children.len() - i,
    {
        let n = &run_node.children[i];
        if n.has_name(WML_NS, "t") {
            match &n.text {
                Some(t) => text.append(t.as_str()),
                None => {},
            }
        }
        i += 1;
    }
    text
}

/// A run without decoration: not underlined, not struck through, no tab, on
/// the baseline, and no field.
pub open spec fn plain(
    text: Seq<char>,
    font_size: i64,
    font_name: Seq<char>,
    bold: bool,
    italic: bool,
    color: Option<[u8; 3]>,
) -> RunView {
    RunView {
        text,
        font_size,
        font_name,
        bold,
        italic,
        underline: false,
        strikethrough: false,
        color,
        is_tab: false,
        vertical_align: VertAlign::Baseline,
        field_code: None,
    }
}

fn plain_run(text: String, font_size: i64, font_name: String, bold: bool, italic: bool, color: Option<
    [u8; 3],
>) -> (run: Run)
    ensures
        run@ == plain(text@, font_size, font_name@, bold, italic, color),
{
    Run {
        text,
        font_size,
        font_name,
        bold,
        italic,
        underline: false,
        strikethrough: false,
        color,
        is_tab: false,
        vertical_align: VertAlign::Baseline,
        field_code: None,
    }
}

/// The font size that properties state, or `default`.
pub open spec fn size_or(rpr: Option<XmlNode>, default: i64) -> i64 {
    match crate::styles::units_of(
        crate::styles::value_of(crate::styles::child_of(rpr, "sz"@), "val"@),
        2,
    ) {
        Some(v) => v,
        None => default,
    }
}

/// The family that properties name, or `default`.
pub open spec fn family_or(rpr: Option<XmlNode>, theme: ThemeFonts, default: Seq<char>) -> Seq<
    char,
> {
    match crate::styles::child_of(rpr, "rFonts"@) {
        Some(rfonts) => crate::docx::resolved_font(
            crate::styles::wml_value(rfonts, "ascii"@),
            crate::styles::wml_value(rfonts, "asciiTheme"@),
            theme.major@,
            theme.minor@,
            default,
        ),
        None => default,
    }
}

/// What an on/off element of properties says, or `default` without it.
pub open spec fn switch_or(rpr: Option<XmlNode>, name: Seq<char>, default: bool) -> bool {
    match crate::styles::child_of(rpr, name) {
        Some(n) => crate::styles::switched_on(n),
        None => default,
    }
}

/// The colour that properties spell, or `default`.
pub open spec fn color_or(rpr: Option<XmlNode>, default: Option<[u8; 3]>) -> Option<[u8; 3]> {
    match crate::styles::value_of(crate::styles::child_of(rpr, "color"@), "val"@) {
        Some(t) => match crate::docx::hex_color(t) {
            Some(c) => Some(c),
            None => default,
        },
        None => default,
    }
}

/// The run that an element states, with what its properties say and else
/// what the paragraph's style gives; none for a run without text.
pub open spec fn run_of(run_node: XmlNode, d: DefaultsView, theme: ThemeFonts) -> Option<RunView> {
    let rpr = wml_child(run_node, "rPr"@);
    let text = text_of(run_node, run_node.children@.len() as int);
    if text.len() == 0 {
        None
    } else {
        Some(
            plain(
                text,
                size_or(rpr, d.font_size),
                family_or(rpr, theme, d.font_name),
                switch_or(rpr, "b"@, d.bold),
                switch_or(rpr, "i"@, d.italic),
                color_or(rpr, d.color),
            ),
        )
    }
}

pub open spec fn optional_run(run: Option<RunView>) -> Seq<RunView> {
    match run {
        Some(r) => seq![r],
        None => Seq::empty(),
    }
}

/// Reads one run.
fn parse_run(run_node: &XmlNode, d: &RunDefaults, theme: &ThemeFonts) -> (run: Option<Run>)
    ensures
        match run {
            Some(r) => run_of(*run_node, d@, *theme) == Some(r@),
            None => run_of(*run_node, d@, *theme) is None,
        },
{
    let rpr = wml(run_node, "rPr");
    let font_size = match rpr {
        Some(n) => match font_size_of(n) {
            Some(v) => v,
            None => d.font_size,
        },
        None => d.font_size,
    };
    let font_name = match rpr {
        Some(n) => match wml(n, "rFonts") {
            Some(rfonts) => resolve_font_from_node(rfonts, theme, d.font_name.as_str()),
            None => d.font_name.clone(),
        },
        None => d.font_name.clone(),
    };
    let bold = match rpr {
        Some(n) => match wml(n, "b") {
            Some(b) => is_on(b),
            None => d.bold,
        },
        None => d.bold,
    };
    let italic = match rpr {
        Some(n) => match wml(n, "i") {
            Some(b) => is_on(b),
            None => d.italic,
        },
        None => d.italic,
    };
    let own_color = match rpr {
        Some(n) => match wml_attr(n, "color") {
            Some(t) => parse_hex_color(t),
            None => None,
        },
        None => None,
    };
    let color = match own_color {
        Some(c) => Some(c),
        None => d.color,
    };
    let text = run_text(run_node);
    if text.as_str().is_empty() {
        None
    } else {
        Some(plain_run(text, font_size, font_name, bold, italic, color))
    }
}

/// The runs of the first `n` children of a hyperlink.
pub open spec fn link_runs(link: XmlNode, d: DefaultsView, theme: ThemeFonts, n: int) -> Seq<
    RunView,
>
    decreases n,
{
    if n <= 0 {
        Seq::empty()
    } else {
        let child = link.children@[n - 1];
        let before = link_runs(link, d, theme, n - 1);
        if child.named(WML_NS@, "r"@) {
            before + optional_run(run_of(child, d, theme))
        } else {
            before
        }
    }
}

/// The runs of the first `n` children of a paragraph: its own runs, and the
/// runs of its hyperlinks.
pub open spec fn child_runs(para: XmlNode, d: DefaultsView, theme: ThemeFonts, n: int) -> Seq<
    RunView,
>
    decreases n,
{
    if n <= 0 {
        Seq::empty()
    } else {
        let child = para.children@[n - 1];
        let before = child_runs(para, d, theme, n - 1);
        if child.named(WML_NS@, "r"@) {
            before + optional_run(run_of(child, d, theme))
        } else if child.named(WML_NS@, "hyperlink"@) {
            before + link_runs(child, d, theme, child.children@.len() as int)
        } else {
            before
        }
    }
}

/// The run that stands for the mark of a paragraph without runs: there is
/// one if the mark's properties state a font size. It has no text, the size
/// and family of the mark, and the weight and slant of the style.
pub open spec fn mark_run(
    ppr: Option<XmlNode>,
    d: DefaultsView,
    theme: ThemeFonts,
    color: Option<[u8; 3]>,
) -> Option<RunView> {
    let mark = crate::styles::child_of(ppr, "rPr"@);
    match crate::styles::value_of(crate::styles::child_of(mark, "sz"@), "val"@) {
        Some(_) => Some(
            plain(
                Seq::empty(),
                size_or(mark, d.font_size),
                family_or(mark, theme, d.font_name),
                d.bold,
                d.italic,
                color,
            ),
        ),
        None => None,
    }
}

/// The runs of a paragraph: its own and those of its hyperlinks, each with
/// what its properties say and else what the paragraph's style says, a run
/// without text left out; and for a paragraph without runs the run of its
/// mark, if it has one, in the colour `mark_color`.
pub open spec fn paragraph_runs(
    para: XmlNode,
    styles: StylesInfo,
    theme: ThemeFonts,
    mark_color: Option<[u8; 3]>,
) -> Seq<RunView> {
    let ppr = wml_child(para, "pPr"@);
    let d = defaults_of(style_for(ppr, styles_view(styles.paragraph_styles@)), styles.defaults);
    let runs = child_runs(para, d, theme, para.children@.len() as int);
    if runs.len() == 0 {
        optional_run(mark_run(ppr, d, theme, mark_color))
    } else {
        runs
    }
}

/// Reads the runs of a paragraph. The run that stands for the mark of a
/// paragraph without runs has no colour.
pub fn parse_runs(para_node: &XmlNode, styles: &StylesInfo, theme: &ThemeFonts) -> (runs: Vec<Run>)
    ensures
        runs_view(runs@) == paragraph_runs(*para_node, *styles, *theme, None),
{
    read_runs(para_node, styles, theme, None)
}

fn push_run(runs: &mut Vec<Run>, run: Option<Run>)
    ensures
        runs_view(final(runs)@) == runs_view(old(runs)@) + optional_run(
            match run {
                Some(r) => Some(r@),
                None => None,
            },
        ),
{
    match run {
        Some(r) => {
            runs.push(r);
        },
        None => {
        },
    }
}

/// Reads the runs of a paragraph; `mark_color` is the colour of the run that
/// stands for the mark of a paragraph without runs.
fn read_runs(
    para_node: &XmlNode,
    styles: &StylesInfo,
    theme: &ThemeFonts,
    mark_color: Option<[u8; 3]>,
) -> (runs: Vec<Run>)
    ensures
        runs_view(runs@) == paragraph_runs(*para_node, *styles, *theme, mark_color),
{
    let ppr = wml(para_node, "pPr");
    let style = paragraph_style(ppr, styles);
    let d = run_defaults(style, styles);
    let mut runs: Vec<Run> = Vec::new();
    let mut i: usize = 0;
    while i < para_node.children.len()
        invariant
            i <= para_node.children@.len(),
            runs_view(runs@) == child_runs(*para_node, d@, *theme, i as int),
        decreases para_node.children.len() - i,
    {
        let child = &para_node.children[i];
        let ghost before = runs_view(runs@);
        i += 1;
        if child.has_name(WML_NS, "r") {
            push_run(&mut runs, parse_run(child, &d, theme));
        } else if child.has_name(WML_NS, "hyperlink") {
            let mut k: usize = 0;
            while k < child.children.len()
                invariant
                    k <= child.children@.len(),
                    runs_view(runs@) == before + link_runs(*child, d@, *theme, k as int),
                decreases child.children.len() - k,
            {
                let inner = &child.children[k];
                k += 1;
                if inner.has_name(WML_NS, "r") {
                    push_run(&mut runs, parse_run(inner, &d, theme));
                }
            }
        }
    }
    if runs.len() == 0 {
        let mark = match ppr {
            Some(n) => wml(n, "rPr"),
            None => None,
        };
        match mark {
            Some(m) => {
                if wml_attr(m, "sz").is_some() {
                    let font_size = match font_size_of(m) {
                        Some(v) => v,
                        None => d.font_size,
                    };
                    let font_name = match wml(m, "rFonts") {
                        Some(rfonts) => resolve_font_from_node(rfonts, theme, d.font_name.as_str()),
                        None => d.font_name.clone(),
                    };
                    let run = plain_run(
                        String::new(),
                        font_size,
                        font_name,
                        d.bold,
                        d.italic,
                        mark_color,
                    );
                    runs.push(run);
                }
            },
            None => {},
        }
    }
    runs
}

/// An image that a paragraph may show: the part that holds it, and the size
/// it is shown at.
#[derive(Debug)]
pub struct ImageCandidate {
    pub zip_path: String,
    pub display_width: i64,
    pub display_height: i64,
}

/// The drawings of a paragraph: the height of the tallest, and the images
/// that they refer to, in order.
#[derive(Debug)]
pub struct DrawingInfo {
    pub height: i64,
    pub candidates: Vec<ImageCandidate>,
}

/// The first `blip` in an element and all elements below it, in document
/// order.
pub open spec fn first_blip(node: XmlNode) -> Option<XmlNode> {
    crate::xml::first_named(node, DML_NS@, "blip"@)
}

/// Finds the first `blip` in an element and all elements below it.
pub fn find_blip<'a>(node: &'a XmlNode) -> (blip: Option<&'a XmlNode>)
    ensures
        crate::styles::found_node(blip, first_blip(*node)),
{
    crate::xml::find_named(node, DML_NS, "blip")
}

/// The relationship that the first image of a drawing refers to.
pub open spec fn blip_embed(container: XmlNode) -> Option<Seq<char>> {
    match first_blip(container) {
        Some(b) => b.attr_value_ns(REL_NS@, "embed"@),
        None => None,
    }
}

pub fn find_blip_embed<'a>(container: &'a XmlNode) -> (id: Option<&'a str>)
    ensures
        crate::styles::found_text(id, blip_embed(*container)),
{
    match find_blip(container) {
        Some(b) => b.attribute_ns(REL_NS, "embed"),
        None => None,
    }
}

pub struct CandidateView {
    pub zip_path: Seq<char>,
    pub display_width: int,
    pub display_height: int,
}

impl View for ImageCandidate {
    type V = CandidateView;

    open spec fn view(&self) -> CandidateView {
        CandidateView {
            zip_path: self.zip_path@,
            display_width: self.display_width as int,
            display_height: self.display_height as int,
        }
    }
}

pub open spec fn candidates_view(candidates: Seq<ImageCandidate>) -> Seq<CandidateView> {
    Seq::new(candidates.len(), |i: int| candidates[i]@)
}

/// What is known of the drawings met so far: the height of the tallest, and
/// the images they refer to.
pub struct DrawingView {
    pub height: int,
    pub candidates: Seq<CandidateView>,
}

impl View for DrawingInfo {
    type V = DrawingView;

    open spec fn view(&self) -> DrawingView {
        DrawingView { height: self.height as int, candidates: candidates_view(self.candidates@) }
    }
}

/// An extent in English metric units, of which 12700 make a point, and
/// nothing where none is stated.
pub open spec fn extent_of(container: XmlNode, name: Seq<char>) -> int {
    match container.child_named(WPD_NS@, "extent"@) {
        Some(e) => crate::styles::number_or(e.attr_value(name), 12_700, 0) as int,
        None => 0,
    }
}

/// What is known after one more drawing container: an inline or anchored
/// drawing counts with its height, and with its image if it refers to one by
/// a relationship that is known.
pub open spec fn container_step(st: DrawingView, container: XmlNode, rels: Seq<Relationship>) -> DrawingView {
    if container.named(WPD_NS@, "inline"@) || container.named(WPD_NS@, "anchor"@) {
        let height = extent_of(container, "cy"@);
        DrawingView {
            height: if st.height >= height {
                st.height
            } else {
                height
            },
            candidates: match blip_embed(container) {
                Some(id) => match rel_index(rels, id, rels.len() as int) {
                    Some(i) => st.candidates.push(
                        CandidateView {
                            zip_path: part_path(rels[i].target@),
                            display_width: extent_of(container, "cx"@),
                            display_height: height,
                        },
                    ),
                    None => st.candidates,
                },
                None => st.candidates,
            },
        }
    } else {
        st
    }
}

/// What is known after the first `n` containers of a drawing.
pub open spec fn containers_seen(st: DrawingView, drawing: XmlNode, rels: Seq<Relationship>, n: int) -> DrawingView
    decreases n,
{
    if n <= 0 {
        st
    } else {
        container_step(
            containers_seen(st, drawing, rels, n - 1),
            drawing.children@[n - 1],
            rels,
        )
    }
}

/// The drawing that a child of a paragraph is or holds: the child itself if
/// it is a `drawing`, the first `drawing` in it if it is a run.
pub open spec fn drawing_in(child: XmlNode) -> Option<XmlNode> {
    if child.named(WML_NS@, "drawing"@) {
        Some(child)
    } else if child.named(WML_NS@, "r"@) {
        wml_child(child, "drawing"@)
    } else {
        None
    }
}

/// What is known of the drawings of the first `n` children of a paragraph.
pub open spec fn drawings_seen(para: XmlNode, rels: Seq<Relationship>, n: int) -> DrawingView
    decreases n,
{
    if n <= 0 {
        DrawingView { height: 0, candidates: Seq::empty() }
    } else {
        let before = drawings_seen(para, rels, n - 1);
        match drawing_in(para.children@[n - 1]) {
            Some(d) => containers_seen(before, d, rels, d.children@.len() as int),
            None => before,
        }
    }
}

fn emu_attr(extent: Option<&XmlNode>, name: &str) -> (v: i64)
    ensures
        -MAX_READ <= v <= MAX_READ,
        v == match extent {
            Some(e) => crate::styles::number_or(e.attr_value(name@), 12_700, 0),
            None => 0,
        },
{
    match extent {
        Some(n) => match n.attribute(name) {
            Some(t) => match read_units(t, 12_700) {
                Some(v) => v,
                None => 0,
            },
            None => 0,
        },
        None => 0,
    }
}

fn drawing_of<'a>(child: &'a XmlNode) -> (d: Option<&'a XmlNode>)
    ensures
        crate::styles::found_node(d, drawing_in(*child)),
{
    if child.has_name(WML_NS, "drawing") {
        Some(child)
    } else if child.has_name(WML_NS, "r") {
        wml(child, "drawing")
    } else {
        None
    }
}

/// Reads the drawings of a paragraph: inline and anchored ones, directly in
/// the paragraph or in its runs.
pub fn compute_drawing_info(para_node: &XmlNode, rels: &Vec<Relationship>) -> (info: DrawingInfo)
    ensures
        info@ == drawings_seen(*para_node, rels@, para_node.children@.len() as int),
        0 <= info.height <= MAX_READ,
{
    let mut info = DrawingInfo { height: 0, candidates: Vec::new() };
    proof {
        assert(info@.candidates =~= Seq::<CandidateView>::empty());
    }
    let mut i: usize = 0;
    while i < para_node.children.len()
        invariant
            i <= para_node.children@.len(),
            0 <= info.height <= MAX_READ,
            info@ == drawings_seen(*para_node, rels@, i as int),
        decreases para_node.children.len() - i,
    {
        let drawing = drawing_of(&para_node.children[i]);
        i += 1;
        let drawing = match drawing {
            Some(d) => d,
            None => {
                continue ;
            },
        };
        let ghost start = info@;
        let mut k: usize = 0;
        while k < drawing.children.len()
            invariant
                k <= drawing.children@.len(),
                0 <= info.height <= MAX_READ,
                info@ == containers_seen(start, *drawing, rels@, k as int),
            decreases drawing.children.len() - k,
        {
            let container = &drawing.children[k];
            k += 1;
            if !(container.has_name(WPD_NS, "inline") || container.has_name(WPD_NS, "anchor")) {
                continue ;
            }
            let extent = container.child(WPD_NS, "extent");
            let display_width = emu_attr(extent, "cx");
            let display_height = emu_attr(extent, "cy");
            info.height = max_i64(info.height, display_height);
            match find_blip_embed(container) {
                Some(id) => match find_target_index(rels, id) {
                    Some(t) => {
                        let candidate = ImageCandidate {
                            zip_path: zip_path(rels[t].target.as_str()),
                            display_width,
                            display_height,
                        };
                        proof {
                            assert(candidates_view(info.candidates@.push(candidate))
                                =~= candidates_view(info.candidates@).push(candidate@));
                        }
                        info.candidates.push(candidate);
                    },
                    None => {},
                },
                None => {},
            }
        }
    }
    info
}

/// Gives a paragraph its image, once the bytes of a candidate are read: the
/// paragraph takes the image if it has none yet and the bytes are a JPEG
/// file that states its size.
pub fn attach_image(paragraph: &mut Paragraph, candidate: &ImageCandidate, data: Vec<u8>) -> (taken:
    bool)
    ensures
        taken == (old(paragraph).image is None && crate::docx::jpeg_size(data@) is Some),
        !taken ==> *final(paragraph) == *old(paragraph),
        taken ==> (final(paragraph).image matches Some(img) && img.data@ == data@ && Some(
            (img.pixel_width, img.pixel_height),
        ) == crate::docx::jpeg_size(data@) && img.display_width == candidate.display_width
            && img.display_height == candidate.display_height),
        *final(paragraph) == (Paragraph { image: final(paragraph).image, ..*old(paragraph) }),
{
    if paragraph.image.is_some() {
        return false;
    }
    match jpeg_dimensions(&data) {
        Some(size) => {
            paragraph.image = Some(
                EmbeddedImage {
                    data,
                    pixel_width: size.0,
                    pixel_height: size.1,
                    display_width: candidate.display_width,
                    display_height: candidate.display_height,
                },
            );
            true
        },
        None => false,
    }
}

/// The images that the paragraph at a block may show.
#[derive(Debug)]
pub struct BlockDrawing {
    /// The index of the paragraph among the blocks.
    pub block: usize,
    pub candidates: Vec<ImageCandidate>,
}

pub struct BlockDrawingView {
    pub block: int,
    pub candidates: Seq<CandidateView>,
}

impl View for BlockDrawing {
    type V = BlockDrawingView;

    open spec fn view(&self) -> BlockDrawingView {
        BlockDrawingView { block: self.block as int, candidates: candidates_view(self.candidates@) }
    }
}

pub open spec fn drawings_view(drawings: Seq<BlockDrawing>) -> Seq<BlockDrawingView> {
    Seq::new(drawings.len(), |i: int| drawings[i]@)
}

/// A document as far as its main part says, and the images to read for it.
#[derive(Debug)]
pub struct ParsedDocument {
    pub document: Document,
    pub drawings: Vec<BlockDrawing>,
}

/// The length that an attribute of an element states in twentieths of a
/// point, and `default` where the element or the attribute is missing or
/// states no number.
fn twips_or(node: Option<&XmlNode>, attr: &str, default: i64) -> (v: i64)
    requires
        -MAX_READ <= default <= MAX_READ,
    ensures
        -MAX_READ <= v <= MAX_READ,
        v == number_or(value_of(node_of(node), attr@), 20, default),
{
    match node {
        Some(n) => match twips_attr(n, attr) {
            Some(v) => v,
            None => default,
        },
        None => default,
    }
}

/// The alignment of a paragraph: what its properties state, else what its
/// style states, else left.
pub open spec fn alignment_for(ppr: Option<XmlNode>, style: Option<StyleView>) -> Alignment {
    match alignment_in(ppr) {
        Some(a) => a,
        None => match style {
            Some(s) => match s.alignment {
                Some(a) => a,
                None => Alignment::Left,
            },
            None => Alignment::Left,
        },
    }
}

fn alignment_of_paragraph(ppr: Option<&XmlNode>, style: Option<&ParagraphStyle>) -> (a: Alignment)
    ensures
        a == alignment_for(
            node_of(ppr),
            match style {
                Some(s) => Some(s@),
                None => None,
            },
        ),
{
    let own = match ppr {
        Some(n) => match wml_attr(n, "jc") {
            Some(t) => Some(parse_alignment(t)),
            None => None,
        },
        None => None,
    };
    match own {
        Some(a) => a,
        None => match style {
            Some(s) => match s.alignment {
                Some(a) => a,
                None => Alignment::Left,
            },
            None => Alignment::Left,
        },
    }
}

/// A paragraph of a table cell: its runs and its alignment, single-spaced,
/// without space around it, and with nothing else.
pub open spec fn cell_paragraph(p: XmlNode, styles: StylesInfo, theme: ThemeFonts) -> ParagraphView {
    let ppr = wml_child(p, "pPr"@);
    ParagraphView {
        runs: paragraph_runs(p, styles, theme, None),
        space_before: 0,
        space_after: 0,
        content_height: 0,
        alignment: alignment_for(ppr, style_for(ppr, styles_view(styles.paragraph_styles@))),
        indent_left: 0,
        indent_hanging: 0,
        list_label: Seq::empty(),
        contextual_spacing: false,
        keep_next: false,
        line_spacing: Some(1000i64),
        image: None,
        border_bottom: None,
        page_break_before: false,
        tab_stops: Seq::empty(),
    }
}

fn parse_cell_paragraph(p: &XmlNode, styles: &StylesInfo, theme: &ThemeFonts) -> (para: Paragraph)
    ensures
        para@ == cell_paragraph(*p, *styles, *theme),
{
    let runs = parse_runs(p, styles, theme);
    let ppr = wml(p, "pPr");
    let style = paragraph_style(ppr, styles);
    Paragraph {
        runs,
        space_before: 0,
        space_after: 0,
        content_height: 0,
        alignment: alignment_of_paragraph(ppr, style),
        indent_left: 0,
        indent_hanging: 0,
        list_label: String::new(),
        contextual_spacing: false,
        keep_next: false,
        line_spacing: Some(1000),
        image: None,
        border_bottom: None,
        page_break_before: false,
        tab_stops: Vec::new(),
    }
}

/// The widths that the first `n` columns of a grid state.
pub open spec fn grid_widths(grid: XmlNode, n: int) -> Seq<i64>
    decreases n,
{
    if n <= 0 {
        Seq::empty()
    } else {
        let before = grid_widths(grid, n - 1);
        let col = grid.children@[n - 1];
        match units_of(wml_value(col, "w"@), 20) {
            Some(w) => if col.named(WML_NS@, "gridCol"@) {
                before.push(w)
            } else {
                before
            },
            None => before,
        }
    }
}

/// The widths of the columns of a table, as its grid states them.
pub open spec fn table_grid(node: XmlNode) -> Seq<i64> {
    match wml_child(node, "tblGrid"@) {
        Some(grid) => grid_widths(grid, grid.children@.len() as int),
        None => Seq::empty(),
    }
}

fn parse_grid(node: &XmlNode) -> (col_widths: Vec<i64>)
    ensures
        col_widths@ == table_grid(*node),
{
    let mut col_widths: Vec<i64> = Vec::new();
    match wml(node, "tblGrid") {
        Some(grid) => {
            let mut g: usize = 0;
            while g < grid.children.len()
                invariant
                    g <= grid.children@.len(),
                    col_widths@ == grid_widths(*grid, g as int),
                decreases grid.children.len() - g,
            {
                let col = &grid.children[g];
                g += 1;
                if col.has_name(WML_NS, "gridCol") {
                    match twips_attr(col, "w") {
                        Some(w) => col_widths.push(w),
                        None => {},
                    }
                }
            }
        },
        None => {},
    }
    col_widths
}

/// The paragraphs among the first `n` children of a cell.
pub open spec fn cell_paragraphs(tc: XmlNode, styles: StylesInfo, theme: ThemeFonts, n: int) -> Seq<
    ParagraphView,
>
    decreases n,
{
    if n <= 0 {
        Seq::empty()
    } else {
        let before = cell_paragraphs(tc, styles, theme, n - 1);
        let p = tc.children@[n - 1];
        if p.named(WML_NS@, "p"@) {
            before.push(cell_paragraph(p, styles, theme))
        } else {
            before
        }
    }
}

/// A cell: as wide as it says, else as its column, else an inch.
pub open spec fn cell_of(
    tc: XmlNode,
    column: int,
    grid: Seq<i64>,
    styles: StylesInfo,
    theme: ThemeFonts,
) -> CellView {
    CellView {
        width: match units_of(value_of(child_of(wml_child(tc, "tcPr"@), "tcW"@), "w"@), 20) {
            Some(w) => w,
            None => if 0 <= column < grid.len() {
                grid[column]
            } else {
                72_000
            },
        },
        paragraphs: cell_paragraphs(tc, styles, theme, tc.children@.len() as int),
    }
}

fn parse_cell(
    tc: &XmlNode,
    column: usize,
    col_widths: &Vec<i64>,
    styles: &StylesInfo,
    theme: &ThemeFonts,
) -> (cell: TableCell)
    ensures
        cell@ == cell_of(*tc, column as int, col_widths@, *styles, *theme),
{
    let stated = match wml(tc, "tcPr") {
        Some(pr) => match wml(pr, "tcW") {
            Some(w) => twips_attr(w, "w"),
            None => None,
        },
        None => None,
    };
    let width = match stated {
        Some(w) => w,
        None => {
            if column < col_widths.len() {
                col_widths[column]
            } else {
                72_000
            }
        },
    };
    let mut paragraphs: Vec<Paragraph> = Vec::new();
    let mut p: usize = 0;
    while p < tc.children.len()
        invariant
            p <= tc.children@.len(),
            paragraphs_view(paragraphs@) == cell_paragraphs(*tc, *styles, *theme, p as int),
        decreases tc.children.len() - p,
    {
        let para = &tc.children[p];
        p += 1;
        if para.has_name(WML_NS, "p") {
            let paragraph = parse_cell_paragraph(para, styles, theme);
            paragraphs.push(paragraph);
        }
    }
    TableCell { width, paragraphs }
}

/// The cells among the first `n` children of a row. The column of a cell is
/// the number of cells before it.
pub open spec fn row_cells(
    tr: XmlNode,
    grid: Seq<i64>,
    styles: StylesInfo,
    theme: ThemeFonts,
    n: int,
) -> Seq<CellView>
    decreases n,
{
    if n <= 0 {
        Seq::empty()
    } else {
        let before = row_cells(tr, grid, styles, theme, n - 1);
        let tc = tr.children@[n - 1];
        if tc.named(WML_NS@, "tc"@) {
            before.push(cell_of(tc, before.len() as int, grid, styles, theme))
        } else {
            before
        }
    }
}

fn parse_row(tr: &XmlNode, col_widths: &Vec<i64>, styles: &StylesInfo, theme: &ThemeFonts) -> (row:
    TableRow)
    ensures
        row@.cells == row_cells(*tr, col_widths@, *styles, *theme, tr.children@.len() as int),
{
    let mut cells: Vec<TableCell> = Vec::new();
    let mut c: usize = 0;
    while c < tr.children.len()
        invariant
            c <= tr.children@.len(),
            cells_view(cells@) == row_cells(*tr, col_widths@, *styles, *theme, c as int),
        decreases tr.children.len() - c,
    {
        let tc = &tr.children[c];
        c += 1;
        if tc.has_name(WML_NS, "tc") {
            let cell = parse_cell(tc, cells.len(), col_widths, styles, theme);
            cells.push(cell);
        }
    }
    TableRow { cells }
}

/// The rows among the first `n` children of a table.
pub open spec fn table_rows(
    node: XmlNode,
    grid: Seq<i64>,
    styles: StylesInfo,
    theme: ThemeFonts,
    n: int,
) -> Seq<RowView>
    decreases n,
{
    if n <= 0 {
        Seq::empty()
    } else {
        let before = table_rows(node, grid, styles, theme, n - 1);
        let tr = node.children@[n - 1];
        if tr.named(WML_NS@, "tr"@) {
            before.push(
                RowView { cells: row_cells(tr, grid, styles, theme, tr.children@.len() as int) },
            )
        } else {
            before
        }
    }
}

/// A table: the widths of its grid, and its rows of cells, each cell with
/// its paragraphs.
pub open spec fn table_of(node: XmlNode, styles: StylesInfo, theme: ThemeFonts) -> TableView {
    TableView {
        col_widths: table_grid(node),
        rows: table_rows(node, table_grid(node), styles, theme, node.children@.len() as int),
    }
}

/// Reads a table.
pub fn parse_table(node: &XmlNode, styles: &StylesInfo, theme: &ThemeFonts) -> (table: Table)
    ensures
        table@ == table_of(*node, *styles, *theme),
{
    let col_widths = parse_grid(node);
    let mut rows: Vec<TableRow> = Vec::new();
    let mut r: usize = 0;
    while r < node.children.len()
        invariant
            r <= node.children@.len(),
            rows_view(rows@) == table_rows(*node, col_widths@, *styles, *theme, r as int),
        decreases node.children.len() - r,
    {
        let tr = &node.children[r];
        r += 1;
        if tr.has_name(WML_NS, "tr") {
            let row = parse_row(tr, &col_widths, styles, theme);
            rows.push(row);
        }
    }
    Table { col_widths, rows }
}

/// A number that properties state, else what the style states, else a
/// default.
pub open spec fn stated_or(own: Option<i64>, style: Option<i64>, default: i64) -> i64 {
    match own {
        Some(v) => v,
        None => match style {
            Some(v) => v,
            None => default,
        },
    }
}

/// The list item that a paragraph is, if it is one.
pub open spec fn item_of_paragraph(node: XmlNode, numbering: NumberingView) -> Option<
    (Seq<char>, LevelView),
> {
    item_level(child_of(wml_child(node, "pPr"@), "numPr"@), numbering)
}

/// A paragraph of the body. Spacing, alignment, rule, line spacing and the
/// two switches are what its properties state, else what its style states,
/// else the defaults; the room of the rule is added to the space after the
/// paragraph unless the sum is too large to hold. Its indents are what it
/// states, else those of its list level, and its label is that of the next
/// item of its list level. Its content is as high as its tallest drawing.
/// It has no image yet, no tab stops, and does not break the page.
pub open spec fn paragraph_of(
    node: XmlNode,
    styles: StylesInfo,
    theme: ThemeFonts,
    numbering: NumberingView,
    counters: Seq<CounterView>,
    rels: Seq<Relationship>,
) -> ParagraphView {
    let ppr = wml_child(node, "pPr"@);
    let style = style_for(ppr, styles_view(styles.paragraph_styles@));
    let spacing = child_of(ppr, "spacing"@);
    let ind = child_of(ppr, "ind"@);
    let item = item_of_paragraph(node, numbering);
    let after = stated_or(
        units_of(value_of(spacing, "after"@), 20),
        match style {
            Some(s) => s.space_after,
            None => None,
        },
        styles.defaults.space_after,
    );
    let room: int = match rule_in(ppr) {
        Some(b) => b.space_pt + b.width_pt,
        None => match style {
            Some(s) => s.border_bottom_extra as int,
            None => 0,
        },
    };
    ParagraphView {
        runs: paragraph_runs(
            node,
            styles,
            theme,
            match style {
                Some(s) => s.color,
                None => None,
            },
        ),
        space_before: stated_or(
            units_of(value_of(spacing, "before"@), 20),
            match style {
                Some(s) => Some(s.space_before),
                None => None,
            },
            0,
        ),
        space_after: if i64::MIN <= after + room <= i64::MAX {
            (after + room) as i64
        } else {
            after
        },
        content_height: drawings_seen(node, rels, node.children@.len() as int).height as i64,
        alignment: alignment_for(ppr, style),
        indent_left: stated_or(
            units_of(value_of(ind, "left"@), 20),
            match item {
                Some(it) => Some(it.1.indent_left),
                None => None,
            },
            0,
        ),
        indent_hanging: stated_or(
            units_of(value_of(ind, "hanging"@), 20),
            match item {
                Some(it) => Some(it.1.indent_hanging),
                None => None,
            },
            0,
        ),
        list_label: match item {
            Some(it) => label_text(
                it.1.num_fmt,
                it.1.lvl_text,
                it.1.ilvl,
                item_number(counters, it.0, it.1.ilvl),
            ),
            None => Seq::empty(),
        },
        contextual_spacing: child_of(ppr, "contextualSpacing"@) is Some || (style matches Some(s)
            && s.contextual_spacing),
        keep_next: child_of(ppr, "keepNext"@) is Some || (style matches Some(s) && s.keep_next),
        line_spacing: match units_of(value_of(spacing, "line"@), 240) {
            Some(v) => Some(v),
            None => match style {
                Some(s) => s.line_spacing,
                None => None,
            },
        },
        image: None,
        border_bottom: match rule_in(ppr) {
            Some(b) => Some(b),
            None => match style {
                Some(s) => s.border_bottom,
                None => None,
            },
        },
        page_break_before: false,
        tab_stops: Seq::empty(),
    }
}

/// The counters of the lists after a paragraph: one more item is counted
/// for the list level of a list item.
pub open spec fn counters_after(
    node: XmlNode,
    numbering: NumberingView,
    counters: Seq<CounterView>,
) -> Seq<CounterView> {
    match item_of_paragraph(node, numbering) {
        Some(it) => counted(counters, it.0, it.1.ilvl),
        None => counters,
    }
}

/// Reads a paragraph of the body, and the images it may show.
pub fn parse_paragraph(
    node: &XmlNode,
    styles: &StylesInfo,
    theme: &ThemeFonts,
    numbering: &NumberingInfo,
    counters: &mut Vec<ListCounter>,
    rels: &Vec<Relationship>,
) -> (out: (Paragraph, Vec<ImageCandidate>))
    ensures
        out.0@ == paragraph_of(
            *node,
            *styles,
            *theme,
            numbering@,
            counters_view(old(counters)@),
            rels@,
        ),
        candidates_view(out.1@) == drawings_seen(
            *node,
            rels@,
            node.children@.len() as int,
        ).candidates,
        counters_view(final(counters)@) == counters_after(
            *node,
            numbering@,
            counters_view(old(counters)@),
        ),
{
    let ppr = wml(node, "pPr");
    let style = paragraph_style(ppr, styles);
    let spacing = match ppr {
        Some(n) => wml(n, "spacing"),
        None => None,
    };
    let own_before = match spacing {
        Some(n) => twips_attr(n, "before"),
        None => None,
    };
    let space_before = match own_before {
        Some(v) => v,
        None => match style {
            Some(s) => s.space_before,
            None => 0,
        },
    };
    let own_border = match ppr {
        Some(n) => parse_border_bottom(n),
        None => None,
    };
    let (extra, border_bottom): (i64, Option<BorderBottom>) = match own_border {
        Some(b) => (b.space_pt + b.width_pt, Some(b)),
        None => match style {
            Some(s) => (s.border_bottom_extra, s.border_bottom),
            None => (0, None),
        },
    };
    let own_after = match spacing {
        Some(n) => twips_attr(n, "after"),
        None => None,
    };
    let after = match own_after {
        Some(v) => v,
        None => match style {
            Some(s) => match s.space_after {
                Some(v) => v,
                None => styles.defaults.space_after,
            },
            None => styles.defaults.space_after,
        },
    };
    let space_after = match after.checked_add(extra) {
        Some(v) => v,
        None => after,
    };
    let style_color: Option<[u8; 3]> = match style {
        Some(s) => s.color,
        None => None,
    };
    let has_contextual = match ppr {
        Some(n) => wml(n, "contextualSpacing").is_some(),
        None => false,
    };
    let contextual_spacing = has_contextual || match style {
        Some(s) => s.contextual_spacing,
        None => false,
    };
    let has_keep = match ppr {
        Some(n) => wml(n, "keepNext").is_some(),
        None => false,
    };
    let keep_next = has_keep || match style {
        Some(s) => s.keep_next,
        None => false,
    };
    let own_line = match spacing {
        Some(n) => line_spacing_of(n),
        None => None,
    };
    let line_spacing = match own_line {
        Some(v) => Some(v),
        None => match style {
            Some(s) => s.line_spacing,
            None => None,
        },
    };
    let num_pr = match ppr {
        Some(n) => wml(n, "numPr"),
        None => None,
    };
    let list = parse_list_info(num_pr, numbering, counters);
    let mut indent_left = list.0;
    let mut indent_hanging = list.1;
    let ind = match ppr {
        Some(n) => wml(n, "ind"),
        None => None,
    };
    match ind {
        Some(n) => {
            match twips_attr(n, "left") {
                Some(v) => {
                    indent_left = v;
                },
                None => {},
            }
            match twips_attr(n, "hanging") {
                Some(v) => {
                    indent_hanging = v;
                },
                None => {},
            }
        },
        None => {},
    }
    let runs = read_runs(node, styles, theme, style_color);
    let drawing = compute_drawing_info(node, rels);
    let paragraph = Paragraph {
        runs,
        space_before,
        space_after,
        content_height: drawing.height,
        alignment: alignment_of_paragraph(ppr, style),
        indent_left,
        indent_hanging,
        list_label: list.2,
        contextual_spacing,
        keep_next,
        line_spacing,
        image: None,
        border_bottom,
        page_break_before: false,
        tab_stops: Vec::new(),
    };
    proof {
        let want = paragraph_of(
            *node,
            *styles,
            *theme,
            numbering@,
            counters_view(old(counters)@),
            rels@,
        );
        assert(paragraph@.list_label == want.list_label);
    }
    (paragraph, drawing.candidates)
}

/// The geometry of a page without section properties: letter paper with
/// margins of an inch.
pub const DEFAULT_PAGE_WIDTH: i64 = 612_000;

pub const DEFAULT_PAGE_HEIGHT: i64 = 792_000;

pub const DEFAULT_MARGIN: i64 = 72_000;

/// Where headers and footers stand without section properties: half an inch
/// from the edge.
pub const DEFAULT_HEADER_MARGIN: i64 = 36_000;

/// The geometry of the pages of a document.
pub struct PageView {
    pub page_width: i64,
    pub page_height: i64,
    pub margin_top: i64,
    pub margin_bottom: i64,
    pub margin_left: i64,
    pub margin_right: i64,
    pub header_margin: i64,
    pub footer_margin: i64,
    pub line_pitch: i64,
    pub line_spacing: i64,
}

pub open spec fn page_of(doc: Document) -> PageView {
    PageView {
        page_width: doc.page_width,
        page_height: doc.page_height,
        margin_top: doc.margin_top,
        margin_bottom: doc.margin_bottom,
        margin_left: doc.margin_left,
        margin_right: doc.margin_right,
        header_margin: doc.header_margin,
        footer_margin: doc.footer_margin,
        line_pitch: doc.line_pitch,
        line_spacing: doc.line_spacing,
    }
}

/// The distance between the lines of the grid where the section states
/// none: twelve tenths of the default font size, and nothing for a font
/// size beyond what a document can state.
pub open spec fn default_pitch(font_size: i64) -> i64 {
    if -MAX_READ <= font_size <= MAX_READ {
        (font_size * 12 / 10) as i64
    } else {
        0
    }
}

/// The geometry that the section properties of a body state: the size of
/// the page from `pgSz`, the margins from `pgMar`, and the distance between
/// the lines of the grid from `docGrid`. What they leave open is as on
/// letter paper with margins of an inch and headers half an inch from the
/// edge. The line spacing is the default of the styles.
pub open spec fn stated_page(body: XmlNode, defaults: StyleDefaults) -> PageView {
    let sect = wml_child(body, "sectPr"@);
    let size = child_of(sect, "pgSz"@);
    let margins = child_of(sect, "pgMar"@);
    let grid = child_of(sect, "docGrid"@);
    PageView {
        page_width: number_or(value_of(size, "w"@), 20, DEFAULT_PAGE_WIDTH),
        page_height: number_or(value_of(size, "h"@), 20, DEFAULT_PAGE_HEIGHT),
        margin_top: number_or(value_of(margins, "top"@), 20, DEFAULT_MARGIN),
        margin_bottom: number_or(value_of(margins, "bottom"@), 20, DEFAULT_MARGIN),
        margin_left: number_or(value_of(margins, "left"@), 20, DEFAULT_MARGIN),
        margin_right: number_or(value_of(margins, "right"@), 20, DEFAULT_MARGIN),
        header_margin: number_or(value_of(margins, "header"@), 20, DEFAULT_HEADER_MARGIN),
        footer_margin: number_or(value_of(margins, "footer"@), 20, DEFAULT_HEADER_MARGIN),
        line_pitch: number_or(value_of(grid, "linePitch"@), 20, default_pitch(defaults.font_size)),
        line_spacing: defaults.line_spacing,
    }
}

/// What has been read of a body: its blocks, the images to read for them,
/// and how far the lists have counted.
pub struct BodyView {
    pub blocks: Seq<BlockView>,
    pub drawings: Seq<BlockDrawingView>,
    pub counters: Seq<CounterView>,
}

/// What has been read after one more child of the body: a table or a
/// paragraph is one more block, a paragraph with drawings that refer to
/// images is noted with its place among the blocks, and any other child is
/// passed over.
pub open spec fn body_step(
    st: BodyView,
    node: XmlNode,
    styles: StylesInfo,
    theme: ThemeFonts,
    numbering: NumberingView,
    rels: Seq<Relationship>,
) -> BodyView {
    if node.named(WML_NS@, "tbl"@) {
        BodyView {
            blocks: st.blocks.push(BlockView::Table(table_of(node, styles, theme))),
            drawings: st.drawings,
            counters: st.counters,
        }
    } else if node.named(WML_NS@, "p"@) {
        let candidates = drawings_seen(node, rels, node.children@.len() as int).candidates;
        BodyView {
            blocks: st.blocks.push(
                BlockView::Paragraph(
                    paragraph_of(node, styles, theme, numbering, st.counters, rels),
                ),
            ),
            drawings: if candidates.len() > 0 {
                st.drawings.push(BlockDrawingView { block: st.blocks.len() as int, candidates })
            } else {
                st.drawings
            },
            counters: counters_after(node, numbering, st.counters),
        }
    } else {
        st
    }
}

/// What has been read after the first `n` children of the body.
pub open spec fn body_seen(
    body: XmlNode,
    styles: StylesInfo,
    theme: ThemeFonts,
    numbering: NumberingView,
    rels: Seq<Relationship>,
    n: int,
) -> BodyView
    decreases n,
{
    if n <= 0 {
        BodyView { blocks: Seq::empty(), drawings: Seq::empty(), counters: Seq::empty() }
    } else {
        body_step(
            body_seen(body, styles, theme, numbering, rels, n - 1),
            body.children@[n - 1],
            styles,
            theme,
            numbering,
            rels,
        )
    }
}

fn page_pitch(doc_grid: Option<&XmlNode>, font_size: i64) -> (pitch: i64)
    ensures
        pitch == number_or(value_of(node_of(doc_grid), "linePitch"@), 20, default_pitch(font_size)),
{
    let default = if -MAX_READ <= font_size && font_size <= MAX_READ {
        assert(-2 * MAX_READ <= font_size as int * 12 / 10 <= 2 * MAX_READ) by (nonlinear_arith)
            requires
                -MAX_READ <= font_size <= MAX_READ,
        ;
        mul_div(font_size, 12, 10)
    } else {
        0
    };
    match doc_grid {
        Some(n) => match twips_attr(n, "linePitch") {
            Some(v) => v,
            None => default,
        },
        None => default,
    }
}

/// Reads the main part of a package: the page geometry from the section
/// properties of the body, and the paragraphs and tables of the body in
/// order, with the images to read for them. The document has no headers,
/// footers or carried fonts yet. A document without body is refused.
pub fn parse(
    root: &XmlNode,
    styles: &StylesInfo,
    theme: &ThemeFonts,
    numbering: &NumberingInfo,
    rels: &Vec<Relationship>,
) -> (out: Result<ParsedDocument, Error>)
    ensures
        match out {
            Ok(parsed) => wml_child(*root, "body"@) matches Some(body) && ({
                let seen = body_seen(
                    body,
                    *styles,
                    *theme,
                    numbering@,
                    rels@,
                    body.children@.len() as int,
                );
                &&& blocks_view(parsed.document.blocks@) == seen.blocks
                &&& drawings_view(parsed.drawings@) == seen.drawings
                &&& page_of(parsed.document) == stated_page(body, styles.defaults)
                &&& parsed.document.header_default is None
                &&& parsed.document.header_first is None
                &&& parsed.document.footer_default is None
                &&& parsed.document.footer_first is None
                &&& !parsed.document.different_first_page
                &&& parsed.document.embedded_fonts@.len() == 0
                &&& forall|i: int|
                    0 <= i < parsed.drawings@.len() ==> (#[trigger] parsed.drawings@[i]).block
                        < parsed.document.blocks@.len()
            }),
            Err(e) => wml_child(*root, "body"@) is None && (e matches Error::Pdf(reason) && reason@
                == "Missing w:body"@),
        },
{
    let body = match wml(root, "body") {
        Some(b) => b,
        None => {
            return Err(Error::Pdf(String::from_str("Missing w:body")));
        },
    };
    let sect = wml(body, "sectPr");
    let pg_sz = match sect {
        Some(s) => wml(s, "pgSz"),
        None => None,
    };
    let pg_mar = match sect {
        Some(s) => wml(s, "pgMar"),
        None => None,
    };
    let doc_grid = match sect {
        Some(s) => wml(s, "docGrid"),
        None => None,
    };
    let line_pitch = page_pitch(doc_grid, styles.defaults.font_size);
    let mut blocks: Vec<Block> = Vec::new();
    let mut drawings: Vec<BlockDrawing> = Vec::new();
    let mut counters: Vec<ListCounter> = Vec::new();
    let mut i: usize = 0;
    while i < body.children.len()
        invariant
            i <= body.children@.len(),
            forall|k: int|
                0 <= k < drawings@.len() ==> (#[trigger] drawings@[k]).block < blocks@.len(),
            blocks_view(blocks@) == body_seen(*body, *styles, *theme, numbering@, rels@, i as int).blocks,
            drawings_view(drawings@) == body_seen(
                *body,
                *styles,
                *theme,
                numbering@,
                rels@,
                i as int,
            ).drawings,
            counters_view(counters@) == body_seen(
                *body,
                *styles,
                *theme,
                numbering@,
                rels@,
                i as int,
            ).counters,
        decreases body.children.len() - i,
    {
        let node = &body.children[i];
        i += 1;
        if node.has_name(WML_NS, "tbl") {
            let block = Block::Table(parse_table(node, styles, theme));
            blocks.push(block);
        } else if node.has_name(WML_NS, "p") {
            let (paragraph, candidates) = parse_paragraph(
                node,
                styles,
                theme,
                numbering,
                &mut counters,
                rels,
            );
            if candidates.len() > 0 {
                let drawing = BlockDrawing { block: blocks.len(), candidates };
                drawings.push(drawing);
            }
            let block = Block::Paragraph(paragraph);
            blocks.push(block);
        }
    }
    let document = Document {
        page_width: twips_or(pg_sz, "w", DEFAULT_PAGE_WIDTH),
        page_height: twips_or(pg_sz, "h", DEFAULT_PAGE_HEIGHT),
        margin_top: twips_or(pg_mar, "top", DEFAULT_MARGIN),
        margin_bottom: twips_or(pg_mar, "bottom", DEFAULT_MARGIN),
        margin_left: twips_or(pg_mar, "left", DEFAULT_MARGIN),
        margin_right: twips_or(pg_mar, "right", DEFAULT_MARGIN),
        header_margin: twips_or(pg_mar, "header", DEFAULT_HEADER_MARGIN),
        footer_margin: twips_or(pg_mar, "footer", DEFAULT_HEADER_MARGIN),
        line_pitch,
        line_spacing: styles.defaults.line_spacing,
        blocks,
        header_default: None,
        header_first: None,
        footer_default: None,
        footer_first: None,
        different_first_page: false,
        embedded_fonts: Vec::new(),
    };
    Ok(ParsedDocument { document, drawings })
}

} // verus!
