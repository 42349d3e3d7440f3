//! Numbered and bulleted lists.

use crate::number::{decimal_digits, natural, parse_natural, push_decimal};
use crate::styles::{child_of, number_or, twips_attr, value_of, wml, wml_attr, wml_value, WML_NS};
use crate::text::{chars_of, str_equal};
use crate::xml::XmlNode;
use vstd::prelude::*;
use vstd::string::StringExecFns;

verus! {

/// How the items of one level of a list look.
#[derive(Debug)]
pub struct LevelDef {
    /// The level, counted from zero.
    pub ilvl: u8,
    /// `bullet` for a bulleted list, else the kind of numbers.
    pub num_fmt: String,
    /// The label, in which `%1` stands for the number of the first level,
    /// `%2` for that of the second, and so on.
    pub lvl_text: String,
    pub indent_left: i64,
    pub indent_hanging: i64,
}

/// The levels of a list definition. Where two share a level, the last counts.
#[derive(Debug)]
pub struct AbstractNum {
    pub id: String,
    pub levels: Vec<LevelDef>,
}

/// Which list uses which definition.
#[derive(Debug)]
pub struct NumLink {
    pub num_id: String,
    pub abstract_id: String,
}

/// The lists of a document. Where two entries share an id, the last counts.
#[derive(Debug)]
pub struct NumberingInfo {
    pub abstract_nums: Vec<AbstractNum>,
    pub num_to_abstract: Vec<NumLink>,
}

/// How many items of a level of a list have been met.
#[derive(Debug)]
pub struct ListCounter {
    pub num_id: String,
    pub ilvl: u8,
    pub count: u32,
}

pub struct LevelView {
    pub ilvl: u8,
    pub num_fmt: Seq<char>,
    pub lvl_text: Seq<char>,
    pub indent_left: i64,
    pub indent_hanging: i64,
}

impl View for LevelDef {
    type V = LevelView;

    open spec fn view(&self) -> LevelView {
        LevelView {
            ilvl: self.ilvl,
            num_fmt: self.num_fmt@,
            lvl_text: self.lvl_text@,
            indent_left: self.indent_left,
            indent_hanging: self.indent_hanging,
        }
    }
}

pub open spec fn levels_view(levels: Seq<LevelDef>) -> Seq<LevelView> {
    Seq::new(levels.len(), |i: int| levels[i]@)
}

pub struct AbstractView {
    pub id: Seq<char>,
    pub levels: Seq<LevelView>,
}

impl View for AbstractNum {
    type V = AbstractView;

    open spec fn view(&self) -> AbstractView {
        AbstractView { id: self.id@, levels: levels_view(self.levels@) }
    }
}

pub open spec fn abstracts_view(nums: Seq<AbstractNum>) -> Seq<AbstractView> {
    Seq::new(nums.len(), |i: int| nums[i]@)
}

pub struct LinkView {
    pub num_id: Seq<char>,
    pub abstract_id: Seq<char>,
}

impl View for NumLink {
    type V = LinkView;

    open spec fn view(&self) -> LinkView {
        LinkView { num_id: self.num_id@, abstract_id: self.abstract_id@ }
    }
}

pub open spec fn links_view(links: Seq<NumLink>) -> Seq<LinkView> {
    Seq::new(links.len(), |i: int| links[i]@)
}

pub struct NumberingView {
    pub abstract_nums: Seq<AbstractView>,
    pub num_to_abstract: Seq<LinkView>,
}

impl View for NumberingInfo {
    type V = NumberingView;

    open spec fn view(&self) -> NumberingView {
        NumberingView {
            abstract_nums: abstracts_view(self.abstract_nums@),
            num_to_abstract: links_view(self.num_to_abstract@),
        }
    }
}

pub struct CounterView {
    pub num_id: Seq<char>,
    pub ilvl: u8,
    pub count: u32,
}

impl View for ListCounter {
    type V = CounterView;

    open spec fn view(&self) -> CounterView {
        CounterView { num_id: self.num_id@, ilvl: self.ilvl, count: self.count }
    }
}

pub open spec fn counters_view(counters: Seq<ListCounter>) -> Seq<CounterView> {
    Seq::new(counters.len(), |i: int| counters[i]@)
}

/// The number from 0 to 255 that a text spells with digits alone, after an
/// optional plus sign.
pub open spec fn small_number(s: Seq<char>) -> Option<u8> {
    match natural(s, 255) {
        Some(v) => Some(v as u8),
        None => None,
    }
}

/// Reads a number from 0 to 255.
pub fn parse_u8(text: &str) -> (v: Option<u8>)
    ensures
        v == small_number(text@),
{
    match parse_natural(text, 255) {
        Some(v) => Some(v as u8),
        None => None,
    }
}

/// Whether `pattern` stands in `s` at `i`.
pub open spec fn stands_at(s: Seq<char>, pattern: Seq<char>, i: int) -> bool {
    0 <= i && i + pattern.len() <= s.len() && s.subrange(i, i + pattern.len()) == pattern
}

/// The text from `i` on with every occurrence of `pattern` replaced, from
/// left to right. An empty pattern occurs nowhere.
pub open spec fn replaced(s: Seq<char>, pattern: Seq<char>, with: Seq<char>, i: int) -> Seq<char>
    decreases s.len() - i,
{
    if i < 0 || i >= s.len() {
        Seq::empty()
    } else if pattern.len() > 0 && stands_at(s, pattern, i) {
        with + replaced(s, pattern, with, i + pattern.len())
    } else {
        seq![s[i]] + replaced(s, pattern, with, i + 1)
    }
}

fn matches_at(s: &Vec<char>, pattern: &Vec<char>, i: usize) -> (b: bool)
    requires
        i <= s@.len(),
    ensures
        b == stands_at(s@, pattern@, i as int),
{
    let n = s.len();
    if pattern.len() > n - i {
        return false;
    }
    let mut k: usize = 0;
    while k < pattern.len()
        invariant
            k <= pattern@.len(),
            n == s@.len(),
            i + pattern@.len() <= s@.len(),
            forall|j: int| 0 <= j < k ==> s@[i + j] == pattern@[j],
        decreases pattern.len() - k,
    {
        if s[i + k] != pattern[k] {
            return false;
        }
        k += 1;
    }
    assert(s@.subrange(i as int, i + pattern@.len()) =~= pattern@);
    true
}

/// Replaces every occurrence of a pattern in a text.
pub fn replace_all(text: &str, pattern: &str, with: &str) -> (out: String)
    ensures
        out@ == replaced(text@, pattern@, with@, 0),
{
    let s = chars_of(text);
    let p = chars_of(pattern);
    let mut out = String::new();
    let mut i: usize = 0;
    while i < s.len()
        invariant
            i <= s@.len(),
            s@ == text@,
            p@ == pattern@,
            out@ + replaced(s@, p@, with@, i as int) == replaced(s@, p@, with@, 0),
        decreases s.len() - i,
    {
        if p.len() > 0 && matches_at(&s, &p, i) {
            out.append(with);
            i = i + p.len();
        } else {
            out.push(s[i]);
            i += 1;
        }
    }
    out
}

/// The label of an item: a bullet for a bulleted list, else the level's
/// text with the number of the item in place of `%` and the level's number.
pub open spec fn label_text(num_fmt: Seq<char>, lvl_text: Seq<char>, ilvl: u8, count: u32) -> Seq<
    char,
> {
    if num_fmt == "bullet"@ {
        seq!['\u{2022}']
    } else {
        replaced(lvl_text, seq!['%'] + decimal_digits((ilvl + 1) as nat), decimal_digits(count as nat), 0)
    }
}

pub fn list_label(def: &LevelDef, count: u32) -> (label: String)
    ensures
        label@ == label_text(def.num_fmt@, def.lvl_text@, def.ilvl, count),
{
    if str_equal(def.num_fmt.as_str(), "bullet") {
        proof {
            reveal_strlit("\u{2022}");
        }
        String::from_str("\u{2022}")
    } else {
        let mut pattern = String::new();
        pattern.push('%');
        push_decimal(&mut pattern, def.ilvl as u128 + 1);
        let number = crate::number::decimal_string(count as u64);
        replace_all(def.lvl_text.as_str(), pattern.as_str(), number.as_str())
    }
}

/// The last of the first `n` links of a list.
pub open spec fn link_index(links: Seq<LinkView>, num_id: Seq<char>, n: int) -> Option<int>
    decreases n,
{
    if n <= 0 || n > links.len() {
        None
    } else if links[n - 1].num_id == num_id {
        Some(n - 1)
    } else {
        link_index(links, num_id, n - 1)
    }
}

/// The last of the first `n` definitions with an id.
pub open spec fn abstract_index(nums: Seq<AbstractView>, id: Seq<char>, n: int) -> Option<int>
    decreases n,
{
    if n <= 0 || n > nums.len() {
        None
    } else if nums[n - 1].id == id {
        Some(n - 1)
    } else {
        abstract_index(nums, id, n - 1)
    }
}

/// The last of the first `n` levels with a number.
pub open spec fn level_index(levels: Seq<LevelView>, ilvl: u8, n: int) -> Option<int>
    decreases n,
{
    if n <= 0 || n > levels.len() {
        None
    } else if levels[n - 1].ilvl == ilvl {
        Some(n - 1)
    } else {
        level_index(levels, ilvl, n - 1)
    }
}

/// The definition that a list uses.
pub open spec fn abstract_for(numbering: NumberingView, num_id: Seq<char>) -> Option<AbstractView> {
    match link_index(numbering.num_to_abstract, num_id, numbering.num_to_abstract.len() as int) {
        Some(l) => match abstract_index(
            numbering.abstract_nums,
            numbering.num_to_abstract[l].abstract_id,
            numbering.abstract_nums.len() as int,
        ) {
            Some(a) => Some(numbering.abstract_nums[a]),
            None => None,
        },
        None => None,
    }
}

/// A level of a definition.
pub open spec fn level_for(def: AbstractView, ilvl: u8) -> Option<LevelView> {
    match level_index(def.levels, ilvl, def.levels.len() as int) {
        Some(i) => Some(def.levels[i]),
        None => None,
    }
}

fn find_abstract<'a>(numbering: &'a NumberingInfo, num_id: &str) -> (found: Option<&'a AbstractNum>)
    ensures
        abstract_for(numbering@, num_id@) == match found {
            Some(a) => Some(a@),
            None => None,
        },
{
    let ghost links = links_view(numbering.num_to_abstract@);
    let ghost nums = abstracts_view(numbering.abstract_nums@);
    let mut i: usize = numbering.num_to_abstract.len();
    let mut link: Option<&NumLink> = None;
    while i > 0
        invariant_except_break
            link is None,
            link_index(links, num_id@, links.len() as int) == link_index(links, num_id@, i as int),
        invariant
            i <= numbering.num_to_abstract@.len(),
            links == links_view(numbering.num_to_abstract@),
        ensures
            match link {
                Some(l) => link_index(links, num_id@, links.len() as int) matches Some(k)
                    && links[k] == l@,
                None => link_index(links, num_id@, links.len() as int) is None,
            },
        decreases i,
    {
        if str_equal(numbering.num_to_abstract[i - 1].num_id.as_str(), num_id) {
            link = Some(&numbering.num_to_abstract[i - 1]);
            break ;
        }
        i -= 1;
    }
    let link = match link {
        Some(l) => l,
        None => {
            return None;
        },
    };
    let mut j: usize = numbering.abstract_nums.len();
    while j > 0
        invariant
            j <= numbering.abstract_nums@.len(),
            nums == abstracts_view(numbering.abstract_nums@),
            links == links_view(numbering.num_to_abstract@),
            link_index(links, num_id@, links.len() as int) matches Some(k) && links[k] == link@,
            abstract_index(nums, link.abstract_id@, nums.len() as int) == abstract_index(
                nums,
                link.abstract_id@,
                j as int,
            ),
        decreases j,
    {
        if str_equal(
            numbering.abstract_nums[j - 1].id.as_str(),
            link.abstract_id.as_str(),
        ) {
            return Some(&numbering.abstract_nums[j - 1]);
        }
        j -= 1;
    }
    None
}

fn find_level(def: &AbstractNum, ilvl: u8) -> (found: Option<&LevelDef>)
    ensures
        level_for(def@, ilvl) == match found {
            Some(l) => Some(l@),
            None => None,
        },
        found matches Some(l) ==> l.ilvl == ilvl,
{
    let ghost levels = levels_view(def.levels@);
    let mut i: usize = def.levels.len();
    while i > 0
        invariant
            i <= def.levels@.len(),
            levels == levels_view(def.levels@),
            level_index(levels, ilvl, levels.len() as int) == level_index(levels, ilvl, i as int),
        decreases i,
    {
        if def.levels[i - 1].ilvl == ilvl {
            return Some(&def.levels[i - 1]);
        }
        i -= 1;
    }
    None
}

/// The first counter at or after `from` for a level of a list.
pub open spec fn counter_index(
    counters: Seq<CounterView>,
    num_id: Seq<char>,
    ilvl: u8,
    from: int,
) -> Option<int>
    decreases counters.len() - from,
{
    if from < 0 || from >= counters.len() {
        None
    } else if counters[from].ilvl == ilvl && counters[from].num_id == num_id {
        Some(from)
    } else {
        counter_index(counters, num_id, ilvl, from + 1)
    }
}

/// The number of the next item of a level of a list: one for the first
/// item, else one more than the number before, and no more than the largest
/// number.
pub open spec fn item_number(counters: Seq<CounterView>, num_id: Seq<char>, ilvl: u8) -> u32 {
    match counter_index(counters, num_id, ilvl, 0) {
        Some(i) => if counters[i].count < u32::MAX {
            (counters[i].count + 1) as u32
        } else {
            u32::MAX
        },
        None => 1,
    }
}

/// The counters after one more item of a level of a list: the level's
/// counter holds the item's number, and a level without a counter has got
/// one, after the others.
pub open spec fn counted(counters: Seq<CounterView>, num_id: Seq<char>, ilvl: u8) -> Seq<
    CounterView,
> {
    let counter = CounterView { num_id, ilvl, count: item_number(counters, num_id, ilvl) };
    match counter_index(counters, num_id, ilvl, 0) {
        Some(i) => counters.update(i, counter),
        None => counters.push(counter),
    }
}

/// Counts one more item of a level of a list and returns its number. The
/// count stops at the largest number it can hold.
pub fn count_item(counters: &mut Vec<ListCounter>, num_id: &str, ilvl: u8) -> (count: u32)
    ensures
        count == item_number(counters_view(old(counters)@), num_id@, ilvl),
        counters_view(final(counters)@) == counted(counters_view(old(counters)@), num_id@, ilvl),
        count >= 1,
{
    let ghost before = counters_view(counters@);
    let mut i: usize = 0;
    while i < counters.len()
        invariant
            i <= counters@.len(),
            counters@ == old(counters)@,
            before == counters_view(counters@),
            counter_index(before, num_id@, ilvl, 0) == counter_index(before, num_id@, ilvl, i as int),
        decreases counters.len() - i,
    {
        if counters[i].ilvl == ilvl && str_equal(counters[i].num_id.as_str(), num_id) {
            let next = if counters[i].count < u32::MAX {
                counters[i].count + 1
            } else {
                u32::MAX
            };
            let entry = ListCounter { num_id: String::from_str(num_id), ilvl, count: next };
            counters.set(i, entry);
            return next;
        }
        i += 1;
    }
    let entry = ListCounter { num_id: String::from_str(num_id), ilvl, count: 1 };
    counters.push(entry);
    1
}

/// The level that a list item names, or zero.
pub open spec fn item_ilvl(num_pr: XmlNode) -> u8 {
    match value_of(crate::styles::wml_child(num_pr, "ilvl"@), "val"@) {
        Some(t) => match small_number(t) {
            Some(v) => v,
            None => 0,
        },
        None => 0,
    }
}

/// The list of an item and the definition of its level: none for a
/// paragraph that is no list item, or whose list or level is not defined.
pub open spec fn item_level(num_pr: Option<XmlNode>, numbering: NumberingView) -> Option<
    (Seq<char>, LevelView),
> {
    match num_pr {
        Some(n) => match value_of(crate::styles::wml_child(n, "numId"@), "val"@) {
            Some(id) => match abstract_for(numbering, id) {
                Some(def) => match level_for(def, item_ilvl(n)) {
                    Some(level) => Some((id, level)),
                    None => None,
                },
                None => None,
            },
            None => None,
        },
        None => None,
    }
}

/// The indents and the label of a list item, and one more item counted for
/// its level; no indent, no label and nothing counted for a paragraph that
/// is no list item, or whose list or level is not defined.
pub fn parse_list_info(
    num_pr: Option<&XmlNode>,
    numbering: &NumberingInfo,
    counters: &mut Vec<ListCounter>,
) -> (info: (i64, i64, String))
    ensures
        match item_level(
            match num_pr {
                Some(n) => Some(*n),
                None => None,
            },
            numbering@,
        ) {
            Some((id, level)) => {
                &&& info.0 == level.indent_left
                &&& info.1 == level.indent_hanging
                &&& info.2@ == label_text(
                    level.num_fmt,
                    level.lvl_text,
                    level.ilvl,
                    item_number(counters_view(old(counters)@), id, level.ilvl),
                )
                &&& counters_view(final(counters)@) == counted(
                    counters_view(old(counters)@),
                    id,
                    level.ilvl,
                )
            },
            None => info.0 == 0 && info.1 == 0 && info.2@.len() == 0 && final(counters)@ == old(
                counters,
            )@,
        },
{
    let num_pr = match num_pr {
        Some(n) => n,
        None => {
            return (0, 0, String::new());
        },
    };
    let num_id = match wml_attr(num_pr, "numId") {
        Some(id) => id,
        None => {
            return (0, 0, String::new());
        },
    };
    let ilvl = match wml_attr(num_pr, "ilvl") {
        Some(t) => match parse_u8(t) {
            Some(v) => v,
            None => 0,
        },
        None => 0,
    };
    let def = match find_abstract(numbering, num_id) {
        Some(a) => match find_level(a, ilvl) {
            Some(l) => l,
            None => {
                return (0, 0, String::new());
            },
        },
        None => {
            return (0, 0, String::new());
        },
    };
    let count = count_item(counters, num_id, ilvl);
    (def.indent_left, def.indent_hanging, list_label(def, count))
}

/// The level that an element defines: a `lvl` with a number from 0 to 255.
/// Without a format it is bulleted, without a text its label is empty, and
/// without an indent it is not indented.
pub open spec fn level_of(lvl: XmlNode) -> Option<LevelView> {
    if lvl.named(WML_NS@, "lvl"@) {
        match wml_value(lvl, "ilvl"@) {
            Some(t) => match small_number(t) {
                Some(ilvl) => {
                    let ind = child_of(crate::styles::wml_child(lvl, "pPr"@), "ind"@);
                    Some(
                        LevelView {
                            ilvl,
                            num_fmt: match value_of(
                                crate::styles::wml_child(lvl, "numFmt"@),
                                "val"@,
                            ) {
                                Some(t) => t,
                                None => "bullet"@,
                            },
                            lvl_text: match value_of(
                                crate::styles::wml_child(lvl, "lvlText"@),
                                "val"@,
                            ) {
                                Some(t) => t,
                                None => Seq::empty(),
                            },
                            indent_left: number_or(value_of(ind, "left"@), 20, 0),
                            indent_hanging: number_or(value_of(ind, "hanging"@), 20, 0),
                        },
                    )
                },
                None => None,
            },
            None => None,
        }
    } else {
        None
    }
}

fn parse_level(lvl: &XmlNode) -> (level: Option<LevelDef>)
    ensures
        level_of(*lvl) == match level {
            Some(l) => Some(l@),
            None => None,
        },
{
    if !lvl.has_name(WML_NS, "lvl") {
        return None;
    }
    let ilvl = match lvl.attribute_ns(WML_NS, "ilvl") {
        Some(t) => match parse_u8(t) {
            Some(v) => v,
            None => {
                return None;
            },
        },
        None => {
            return None;
        },
    };
    let num_fmt = match wml_attr(lvl, "numFmt") {
        Some(t) => String::from_str(t),
        None => String::from_str("bullet"),
    };
    let lvl_text = match wml_attr(lvl, "lvlText") {
        Some(t) => String::from_str(t),
        None => String::new(),
    };
    let ind = match wml(lvl, "pPr") {
        Some(ppr) => wml(ppr, "ind"),
        None => None,
    };
    let indent_left = match ind {
        Some(n) => match twips_attr(n, "left") {
            Some(v) => v,
            None => 0,
        },
        None => 0,
    };
    let indent_hanging = match ind {
        Some(n) => match twips_attr(n, "hanging") {
            Some(v) => v,
            None => 0,
        },
        None => 0,
    };
    Some(LevelDef { ilvl, num_fmt, lvl_text, indent_left, indent_hanging })
}

/// The levels that the first `n` children of a definition define.
pub open spec fn levels_of(node: XmlNode, n: int) -> Seq<LevelView>
    decreases n,
{
    if n <= 0 {
        Seq::empty()
    } else {
        let before = levels_of(node, n - 1);
        match level_of(node.children@[n - 1]) {
            Some(l) => before.push(l),
            None => before,
        }
    }
}

/// The list definition that an element states: an `abstractNum` with an id.
pub open spec fn abstract_of(node: XmlNode) -> Option<AbstractView> {
    if node.named(WML_NS@, "abstractNum"@) {
        match wml_value(node, "abstractNumId"@) {
            Some(id) => Some(
                AbstractView { id, levels: levels_of(node, node.children@.len() as int) },
            ),
            None => None,
        }
    } else {
        None
    }
}

fn parse_abstract(node: &XmlNode) -> (def: Option<AbstractNum>)
    ensures
        abstract_of(*node) == match def {
            Some(a) => Some(a@),
            None => None,
        },
{
    if !node.has_name(WML_NS, "abstractNum") {
        return None;
    }
    let id = match node.attribute_ns(WML_NS, "abstractNumId") {
        Some(id) => id,
        None => {
            return None;
        },
    };
    let mut levels: Vec<LevelDef> = Vec::new();
    let mut k: usize = 0;
    while k < node.children.len()
        invariant
            k <= node.children@.len(),
            levels_view(levels@) == levels_of(*node, k as int),
        decreases node.children.len() - k,
    {
        match parse_level(&node.children[k]) {
            Some(l) => {
                levels.push(l);
            },
            None => {},
        }
        k += 1;
    }
    Some(AbstractNum { id: String::from_str(id), levels })
}

/// The link that an element states: a `num` with an id that names its
/// definition.
pub open spec fn link_of(node: XmlNode) -> Option<LinkView> {
    if node.named(WML_NS@, "num"@) {
        match (
            wml_value(node, "numId"@),
            value_of(crate::styles::wml_child(node, "abstractNumId"@), "val"@),
        ) {
            (Some(num_id), Some(abstract_id)) => Some(LinkView { num_id, abstract_id }),
            _ => None,
        }
    } else {
        None
    }
}

fn parse_link(node: &XmlNode) -> (link: Option<NumLink>)
    ensures
        link_of(*node) == match link {
            Some(l) => Some(l@),
            None => None,
        },
{
    if !node.has_name(WML_NS, "num") {
        return None;
    }
    let num_id = match node.attribute_ns(WML_NS, "numId") {
        Some(id) => id,
        None => {
            return None;
        },
    };
    let abstract_id = match wml_attr(node, "abstractNumId") {
        Some(id) => id,
        None => {
            return None;
        },
    };
    Some(NumLink { num_id: String::from_str(num_id), abstract_id: String::from_str(abstract_id) })
}

/// The list definitions that the first `n` children of a numbering part
/// state, in their order.
pub open spec fn abstracts_in(root: XmlNode, n: int) -> Seq<AbstractView>
    decreases n,
{
    if n <= 0 {
        Seq::empty()
    } else {
        let before = abstracts_in(root, n - 1);
        match abstract_of(root.children@[n - 1]) {
            Some(a) => before.push(a),
            None => before,
        }
    }
}

/// The links that the first `n` children of a numbering part state, in
/// their order.
pub open spec fn links_in(root: XmlNode, n: int) -> Seq<LinkView>
    decreases n,
{
    if n <= 0 {
        Seq::empty()
    } else {
        let before = links_in(root, n - 1);
        match link_of(root.children@[n - 1]) {
            Some(l) => before.push(l),
            None => before,
        }
    }
}

/// The lists of a document: the definitions and the links that its
/// numbering part states. Without a numbering part there are none.
pub open spec fn numbering_of(root: Option<XmlNode>) -> NumberingView {
    match root {
        Some(r) => NumberingView {
            abstract_nums: abstracts_in(r, r.children@.len() as int),
            num_to_abstract: links_in(r, r.children@.len() as int),
        },
        None => NumberingView { abstract_nums: Seq::empty(), num_to_abstract: Seq::empty() },
    }
}

/// Reads the list definitions of a document.
pub fn parse_numbering(root: Option<&XmlNode>) -> (info: NumberingInfo)
    ensures
        info@ == numbering_of(
            match root {
                Some(r) => Some(*r),
                None => None,
            },
        ),
{
    let mut abstract_nums: Vec<AbstractNum> = Vec::new();
    let mut num_to_abstract: Vec<NumLink> = Vec::new();
    proof {
        assert(abstracts_view(abstract_nums@) =~= Seq::<AbstractView>::empty());
        assert(links_view(num_to_abstract@) =~= Seq::<LinkView>::empty());
    }
    let root = match root {
        Some(r) => r,
        None => {
            return NumberingInfo { abstract_nums, num_to_abstract };
        },
    };
    let mut i: usize = 0;
    while i < root.children.len()
        invariant
            i <= root.children@.len(),
            abstracts_view(abstract_nums@) == abstracts_in(*root, i as int),
            links_view(num_to_abstract@) == links_in(*root, i as int),
        decreases root.children.len() - i,
    {
        let node = &root.children[i];
        match parse_abstract(node) {
            Some(a) => {
                abstract_nums.push(a);
            },
            None => {},
        }
        match parse_link(node) {
            Some(l) => {
                num_to_abstract.push(l);
            },
            None => {},
        }
        i += 1;
    }
    NumberingInfo { abstract_nums, num_to_abstract }
}

} // verus!
