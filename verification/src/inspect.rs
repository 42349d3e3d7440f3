//! Helpers of the tools around the converter: naming an output file that is
//! free, telling ink from paper when two renderings are compared, describing
//! the font of a style, and counting the fonts of runs.

use crate::number::{decimal_digits, lemma_digits_differ, natural, parse_natural, push_decimal};
use crate::styles::{is_on, switched_on, text_view, wml_value, WML_NS};
use crate::text::{chars_of, repeated, str_equal};
use crate::xml::XmlNode;
use vstd::prelude::*;
use vstd::set_lib::{lemma_int_range, lemma_len_subset, set_int_range};
use vstd::string::StringExecFns;

verus! {

/// The luminance below which a pixel counts as ink, in thousandths: 200 of
/// 255.
pub const INK_THRESHOLD: u32 = 200_000;

/// The luminance of a pixel in thousandths: the weighted sum of red, green
/// and blue.
pub open spec fn luminance(r: u8, g: u8, b: u8) -> int {
    299 * r + 587 * g + 114 * b
}

/// Whether a pixel counts as ink.
pub fn is_ink(r: u8, g: u8, b: u8) -> (ink: bool)
    ensures
        ink == (luminance(r, g, b) < INK_THRESHOLD),
{
    299 * (r as u32) + 587 * (g as u32) + 114 * (b as u32) < INK_THRESHOLD
}

/// The number of the first `n` pixels that are ink in both images, and the
/// number that are ink in at least one.
pub open spec fn ink_counts(a: Seq<[u8; 3]>, b: Seq<[u8; 3]>, n: int) -> (int, int)
    decreases n,
{
    if n <= 0 {
        (0, 0)
    } else {
        let before = ink_counts(a, b, n - 1);
        let x = luminance(a[n - 1][0], a[n - 1][1], a[n - 1][2]) < INK_THRESHOLD;
        let y = luminance(b[n - 1][0], b[n - 1][1], b[n - 1][2]) < INK_THRESHOLD;
        (
            before.0 + if x && y {
                1int
            } else {
                0int
            },
            before.1 + if x || y {
                1int
            } else {
                0int
            },
        )
    }
}

/// Counts the pixels that are ink in both of two images of the same size,
/// and those that are ink in at least one. Their quotient is the Jaccard
/// similarity of the two images' ink.
pub fn jaccard(a: &Vec<[u8; 3]>, b: &Vec<[u8; 3]>) -> (counts: (u64, u64))
    requires
        a@.len() == b@.len(),
        a@.len() <= u64::MAX,
    ensures
        (counts.0 as int, counts.1 as int) == ink_counts(a@, b@, a@.len() as int),
        counts.0 <= counts.1 <= a@.len(),
{
    let mut both: u64 = 0;
    let mut either: u64 = 0;
    let mut i: usize = 0;
    while i < a.len()
        invariant
            i <= a@.len(),
            a@.len() == b@.len(),
            a@.len() <= u64::MAX,
            (both as int, either as int) == ink_counts(a@, b@, i as int),
            both <= either <= i,
        decreases a.len() - i,
    {
        let x = is_ink(a[i][0], a[i][1], a[i][2]);
        let y = is_ink(b[i][0], b[i][1], b[i][2]);
        if x && y {
            both = both + 1;
        }
        if x || y {
            either = either + 1;
        }
        i += 1;
    }
    (both, either)
}

/// Whether two renderings of a page are alike enough: at least two fifths of
/// what is ink in one of them is ink in both, or there is no ink at all.
pub open spec fn alike(both: int, either: int) -> bool {
    either == 0 || 5 * both >= 2 * either
}

/// Whether two renderings of a page are alike enough, from the counts of
/// their ink.
pub fn ink_passes(both: u64, either: u64) -> (pass: bool)
    ensures
        pass == alike(both as int, either as int),
{
    either == 0 || 5 * (both as u128) >= 2 * (either as u128)
}

/// The `n`-th other name for a file: the stem, the number in parentheses,
/// and the extension.
pub open spec fn candidate_name(stem: Seq<char>, ext: Seq<char>, n: nat) -> Seq<char> {
    stem + seq!['('] + decimal_digits(n) + seq![')'] + ext
}

fn candidate(stem: &str, ext: &str, n: u128) -> (name: String)
    ensures
        name@ == candidate_name(stem@, ext@, n as nat),
{
    proof {
        reveal_strlit("(");
        reveal_strlit(")");
    }
    let mut name = String::from_str(stem);
    name.push('(');
    push_decimal(&mut name, n);
    name.push(')');
    let out = name.concat(ext);
    out
}

/// The name to try for an output file whose own name and whose first `n - 1`
/// other names are taken.
pub fn candidate_path(stem: &str, ext: &str, n: u64) -> (name: String)
    ensures
        name@ == candidate_name(stem@, ext@, n as nat),
{
    candidate(stem, ext, n as u128)
}

/// Different numbers give different names.
pub proof fn lemma_candidates_differ(stem: Seq<char>, ext: Seq<char>, n: nat, m: nat)
    requires
        candidate_name(stem, ext, n) == candidate_name(stem, ext, m),
    ensures
        n == m,
{
    let a = decimal_digits(n);
    let b = decimal_digits(m);
    let x = candidate_name(stem, ext, n);
    let y = candidate_name(stem, ext, m);
    assert(y.len() == stem.len() + 1 + b.len() + 1 + ext.len());
    let from: int = stem.len() as int + 1;
    assert(x.subrange(from, from + a.len()) =~= a);
    assert(y.subrange(from, from + b.len()) =~= b);
    lemma_digits_differ(n, m);
}

/// Whether a name is among the names that are taken.
pub open spec fn is_taken(taken: Seq<String>, name: Seq<char>) -> bool {
    exists|i: int| 0 <= i < taken.len() && (#[trigger] taken[i])@ == name
}

fn name_taken(taken: &Vec<String>, name: &str) -> (b: bool)
    ensures
        b == is_taken(taken@, name@),
{
    let mut i: usize = 0;
    while i < taken.len()
        invariant
            i <= taken@.len(),
            forall|k: int| 0 <= k < i ==> (#[trigger] taken@[k])@ != name@,
        decreases taken.len() - i,
    {
        if str_equal(taken[i].as_str(), name) {
            return true;
        }
        i += 1;
    }
    false
}

/// As many different places among `count` as there are, no more than
/// `count`.
proof fn lemma_places_bounded(places: Seq<int>, count: nat)
    requires
        places.no_duplicates(),
        forall|k: int| 0 <= k < places.len() ==> 0 <= #[trigger] places[k] < count,
    ensures
        places.len() <= count,
{
    places.unique_seq_to_set();
    lemma_int_range(0, count as int);
    lemma_len_subset(places.to_set(), set_int_range(0, count as int));
}

/// The name for an output file, given the names that are taken where it is
/// to stand: its own name if that is free, else the first of `stem(2)ext`,
/// `stem(3)ext`, and so on, that is free.
pub fn available_path(name: &str, stem: &str, ext: &str, taken: &Vec<String>) -> (path: String)
    ensures
        !is_taken(taken@, path@),
        !is_taken(taken@, name@) ==> path@ == name@,
        is_taken(taken@, name@) ==> exists|n: nat|
            n >= 2 && path@ == #[trigger] candidate_name(stem@, ext@, n) && forall|m: nat|
                2 <= m < n ==> is_taken(taken@, #[trigger] candidate_name(stem@, ext@, m)),
{
    if !name_taken(taken, name) {
        return name.to_owned();
    }
    let count = taken.len();
    let mut n: u128 = 2;
    let ghost mut places: Seq<int> = Seq::empty();
    loop
        invariant
            is_taken(taken@, name@),
            count == taken@.len(),
            2 <= n <= taken@.len() + 2,
            places.len() == n - 2,
            forall|k: int|
                0 <= k < places.len() ==> 0 <= #[trigger] places[k] < taken@.len() && taken@[places[k]]@
                    == candidate_name(stem@, ext@, (k + 2) as nat),
        decreases taken@.len() + 2 - n,
    {
        let path = candidate(stem, ext, n);
        if !name_taken(taken, path.as_str()) {
            proof {
                assert forall|m: nat| 2 <= m < n implies is_taken(
                    taken@,
                    #[trigger] candidate_name(stem@, ext@, m),
                ) by {
                    assert(taken@[places[m - 2]]@ == candidate_name(stem@, ext@, m));
                }
            }
            return path;
        }
        proof {
            let i = choose|i: int| 0 <= i < taken@.len() && (#[trigger] taken@[i])@ == path@;
            let more = places.push(i);
            assert forall|a: int, b: int| 0 <= a < more.len() && 0 <= b < more.len() && a != b implies more[a]
                != more[b] by {
                if more[a] == more[b] {
                    lemma_candidates_differ(stem@, ext@, (a + 2) as nat, (b + 2) as nat);
                }
            }
            lemma_places_bounded(more, taken@.len() as nat);
            places = more;
        }
        n += 1;
    }
}

/// What a style says of its font.
#[derive(Debug)]
pub struct StyleInfo {
    pub name: String,
    /// The family, where the style names one.
    pub font_ascii: Option<String>,
    /// The theme font, where the style refers to one.
    pub font_theme: Option<String>,
    /// The font size in half points.
    pub size_half_pt: Option<u32>,
    pub bold: bool,
    pub italic: bool,
}

pub struct StyleInfoView {
    pub name: Seq<char>,
    pub font_ascii: Option<Seq<char>>,
    pub font_theme: Option<Seq<char>>,
    pub size_half_pt: Option<u32>,
    pub bold: bool,
    pub italic: bool,
}

impl View for StyleInfo {
    type V = StyleInfoView;

    open spec fn view(&self) -> StyleInfoView {
        StyleInfoView {
            name: self.name@,
            font_ascii: text_view(self.font_ascii),
            font_theme: text_view(self.font_theme),
            size_half_pt: self.size_half_pt,
            bold: self.bold,
            italic: self.italic,
        }
    }
}

/// How a font is shown: the family; else the theme font between `<theme:`
/// and `>`; else `inherited`.
pub open spec fn font_shown(font_ascii: Option<Seq<char>>, font_theme: Option<Seq<char>>) -> Seq<
    char,
> {
    match (font_ascii, font_theme) {
        (Some(f), _) => f,
        (None, Some(t)) => "<theme:"@ + t + ">"@,
        (None, None) => "inherited"@,
    }
}

/// How a font size in half points is shown: in points, with `.5` for an odd
/// number of half points, and `pt` behind; `inherited` where there is none.
pub open spec fn size_shown(half: Option<u32>) -> Seq<char> {
    match half {
        Some(h) => decimal_digits((h / 2) as nat) + (if h % 2 == 1 {
            ".5"@
        } else {
            Seq::empty()
        }) + "pt"@,
        None => "inherited"@,
    }
}

/// How weight and slant are shown behind a size.
pub open spec fn modifiers_shown(bold: bool, italic: bool) -> Seq<char> {
    if bold && italic {
        " (bold, italic)"@
    } else if bold {
        " (bold)"@
    } else if italic {
        " (italic)"@
    } else {
        Seq::empty()
    }
}

/// A text with spaces behind it up to a width.
pub open spec fn padded(text: Seq<char>, width: nat) -> Seq<char> {
    if text.len() >= width {
        text
    } else {
        text + Seq::new((width - text.len()) as nat, |i: int| ' ')
    }
}

/// Fills a text up with spaces to a width.
pub fn pad(text: &str, width: usize) -> (out: String)
    ensures
        out@ == padded(text@, width as nat),
{
    let len = chars_of(text).len();
    if len >= width {
        text.to_owned()
    } else {
        let fill = repeated(' ', width - len);
        text.to_owned().concat(fill.as_str())
    }
}

/// The row of a style in the table of styles: the name in twenty columns,
/// the font in twenty-eight, then size, weight and slant.
pub open spec fn row_shown(info: StyleInfoView) -> Seq<char> {
    "  "@ + padded(info.name, 20) + "  "@ + padded(
        font_shown(info.font_ascii, info.font_theme),
        28,
    ) + "  "@ + size_shown(info.size_half_pt) + modifiers_shown(info.bold, info.italic)
}

/// Whether a style is one of those that the table of styles lists.
pub open spec fn listed(name: Seq<char>) -> bool {
    ||| name == "Normal"@
    ||| name == "Default Paragraph Font"@
    ||| name == "Heading 1"@
    ||| name == "Heading 2"@
    ||| name == "Heading 3"@
    ||| name == "Heading 4"@
    ||| name == "Title"@
    ||| name == "Subtitle"@
    ||| name == "Body Text"@
    ||| name == "Caption"@
}

pub fn is_listed(name: &str) -> (b: bool)
    ensures
        b == listed(name@),
{
    str_equal(name, "Normal") || str_equal(name, "Default Paragraph Font") || str_equal(
        name,
        "Heading 1",
    ) || str_equal(name, "Heading 2") || str_equal(name, "Heading 3") || str_equal(
        name,
        "Heading 4",
    ) || str_equal(name, "Title") || str_equal(name, "Subtitle") || str_equal(name, "Body Text")
        || str_equal(name, "Caption")
}

pub fn modifiers(bold: bool, italic: bool) -> (shown: String)
    ensures
        shown@ == modifiers_shown(bold, italic),
{
    if bold && italic {
        String::from_str(" (bold, italic)")
    } else if bold {
        String::from_str(" (bold)")
    } else if italic {
        String::from_str(" (italic)")
    } else {
        String::new()
    }
}

/// What the properties of a run say after one more of their children, by
/// the child's local name. An `rFonts` gives the family and the theme font
/// that it states for ASCII text, and where the style has neither after
/// that, those for high ANSI text. An `sz` gives the size if it spells a
/// number. A `b` and an `i` switch weight and slant.
pub open spec fn rpr_step(info: StyleInfoView, child: XmlNode) -> StyleInfoView {
    if child.name@ == "rFonts"@ {
        let ascii = match wml_value(child, "ascii"@) {
            Some(v) => Some(v),
            None => info.font_ascii,
        };
        let theme = match wml_value(child, "asciiTheme"@) {
            Some(v) => Some(v),
            None => info.font_theme,
        };
        if ascii is None && theme is None {
            StyleInfoView {
                font_ascii: wml_value(child, "hAnsi"@),
                font_theme: wml_value(child, "hAnsiTheme"@),
                ..info
            }
        } else {
            StyleInfoView { font_ascii: ascii, font_theme: theme, ..info }
        }
    } else if child.name@ == "sz"@ {
        match wml_value(child, "val"@) {
            Some(t) => match natural(t, u32::MAX as int) {
                Some(v) => StyleInfoView { size_half_pt: Some(v as u32), ..info },
                None => info,
            },
            None => info,
        }
    } else if child.name@ == "b"@ {
        StyleInfoView { bold: switched_on(child), ..info }
    } else if child.name@ == "i"@ {
        StyleInfoView { italic: switched_on(child), ..info }
    } else {
        info
    }
}

/// What the properties of a run say after the first `n` of their children.
pub open spec fn rpr_seen(rpr: XmlNode, info: StyleInfoView, n: int) -> StyleInfoView
    decreases n,
{
    if n <= 0 {
        info
    } else {
        rpr_step(rpr_seen(rpr, info, n - 1), rpr.children@[n - 1])
    }
}

fn owned(text: Option<&str>) -> (out: Option<String>)
    ensures
        text_view(out) == match text {
            Some(t) => Some(t@),
            None => None,
        },
{
    match text {
        Some(t) => Some(String::from_str(t)),
        None => None,
    }
}

fn rpr_child_into(child: &XmlNode, info: &mut StyleInfo)
    ensures
        final(info)@ == rpr_step(old(info)@, *child),
{
    if str_equal(child.name.as_str(), "rFonts") {
        match child.attribute_ns(WML_NS, "ascii") {
            Some(v) => {
                info.font_ascii = Some(String::from_str(v));
            },
            None => {},
        }
        match child.attribute_ns(WML_NS, "asciiTheme") {
            Some(v) => {
                info.font_theme = Some(String::from_str(v));
            },
            None => {},
        }
        if info.font_ascii.is_none() && info.font_theme.is_none() {
            info.font_ascii = owned(child.attribute_ns(WML_NS, "hAnsi"));
            info.font_theme = owned(child.attribute_ns(WML_NS, "hAnsiTheme"));
        }
    } else if str_equal(child.name.as_str(), "sz") {
        match child.attribute_ns(WML_NS, "val") {
            Some(t) => match parse_natural(t, u32::MAX) {
                Some(v) => {
                    info.size_half_pt = Some(v);
                },
                None => {},
            },
            None => {},
        }
    } else if str_equal(child.name.as_str(), "b") {
        info.bold = is_on(child);
    } else if str_equal(child.name.as_str(), "i") {
        info.italic = is_on(child);
    }
}

/// Reads the properties of a run into what a style says of its font.
pub fn parse_rpr_into(rpr: &XmlNode, info: &mut StyleInfo)
    ensures
        final(info)@ == rpr_seen(*rpr, old(info)@, rpr.children@.len() as int),
{
    let mut i: usize = 0;
    while i < rpr.children.len()
        invariant
            i <= rpr.children@.len(),
            info@ == rpr_seen(*rpr, old(info)@, i as int),
        decreases rpr.children.len() - i,
    {
        rpr_child_into(&rpr.children[i], info);
        i += 1;
    }
}

impl StyleInfo {
    /// A style of which nothing is known.
    pub fn new(name: &str) -> (info: StyleInfo)
        ensures
            info@ == (StyleInfoView {
                name: name@,
                font_ascii: None,
                font_theme: None,
                size_half_pt: None,
                bold: false,
                italic: false,
            }),
    {
        StyleInfo {
            name: String::from_str(name),
            font_ascii: None,
            font_theme: None,
            size_half_pt: None,
            bold: false,
            italic: false,
        }
    }

    pub open spec fn display(&self) -> Seq<char> {
        font_shown(self@.font_ascii, self@.font_theme)
    }

    /// How the font is shown.
    pub fn font_display(&self) -> (shown: String)
        ensures
            shown@ == self.display(),
    {
        match (&self.font_ascii, &self.font_theme) {
            (Some(f), _) => f.clone(),
            (None, Some(t)) => String::from_str("<theme:").concat(t.as_str()).concat(">"),
            (None, None) => String::from_str("inherited"),
        }
    }

    /// The font size in thousandths of a point.
    pub fn size_pt(&self) -> (size: Option<i64>)
        ensures
            match self.size_half_pt {
                Some(h) => size == Some((h * 500) as i64),
                None => size is None,
            },
    {
        match self.size_half_pt {
            Some(h) => Some((h as i64) * 500),
            None => None,
        }
    }

    /// How the font size is shown.
    pub fn size_display(&self) -> (shown: String)
        ensures
            shown@ == size_shown(self.size_half_pt),
    {
        match self.size_half_pt {
            Some(h) => {
                let mut out = String::new();
                push_decimal(&mut out, (h / 2) as u128);
                let out = if h % 2 == 1 {
                    out.concat(".5")
                } else {
                    out
                };
                let shown = out.concat("pt");
                proof {
                    let digits = decimal_digits((h / 2) as nat);
                    assert(Seq::<char>::empty() + digits =~= digits);
                    assert(digits + Seq::<char>::empty() =~= digits);
                }
                shown
            },
            None => String::from_str("inherited"),
        }
    }

    /// The row of the style in the table of styles.
    pub fn row(&self) -> (shown: String)
        ensures
            shown@ == row_shown(self@),
    {
        let name = pad(self.name.as_str(), 20);
        let font = pad(self.font_display().as_str(), 28);
        let size = self.size_display();
        let mods = modifiers(self.bold, self.italic);
        String::from_str("  ").concat(name.as_str()).concat("  ").concat(font.as_str()).concat(
            "  ",
        ).concat(size.as_str()).concat(mods.as_str())
    }

    /// What a run is counted under: its font and its size.
    pub fn run_key(&self) -> (key: String)
        ensures
            key@ == self.display() + " "@ + size_shown(self.size_half_pt),
    {
        self.font_display().concat(" ").concat(self.size_display().as_str())
    }
}

/// How often a key has been met.
#[derive(Debug)]
pub struct Tally {
    pub key: String,
    pub count: usize,
}

pub open spec fn tallies_view(tallies: Seq<Tally>) -> Seq<(Seq<char>, nat)> {
    Seq::new(tallies.len(), |i: int| (tallies[i].key@, tallies[i].count as nat))
}

/// The first place at or after `from` at which a key is counted.
pub open spec fn tally_index(tallies: Seq<(Seq<char>, nat)>, key: Seq<char>, from: int) -> Option<
    int,
>
    decreases tallies.len() - from,
{
    if 0 <= from < tallies.len() {
        if tallies[from].0 == key {
            Some(from)
        } else {
            tally_index(tallies, key, from + 1)
        }
    } else {
        None
    }
}

/// How often each of the first `n` keys occurs among them, in the order in
/// which the keys are first met.
pub open spec fn tallied(keys: Seq<String>, n: int) -> Seq<(Seq<char>, nat)>
    decreases n,
{
    if n <= 0 {
        Seq::empty()
    } else {
        let before = tallied(keys, n - 1);
        let key = keys[n - 1]@;
        match tally_index(before, key, 0) {
            Some(i) => before.update(i, (key, before[i].1 + 1)),
            None => before.push((key, 1)),
        }
    }
}

/// Counts how often every key occurs.
pub fn tally(keys: &Vec<String>) -> (tallies: Vec<Tally>)
    ensures
        tallies_view(tallies@) == tallied(keys@, keys@.len() as int),
{
    let mut tallies: Vec<Tally> = Vec::new();
    let mut n: usize = 0;
    proof {
        assert(tallies_view(tallies@) =~= Seq::<(Seq<char>, nat)>::empty());
    }
    while n < keys.len()
        invariant
            n <= keys@.len(),
            tallies_view(tallies@) == tallied(keys@, n as int),
            forall|k: int| 0 <= k < tallies@.len() ==> (#[trigger] tallies@[k]).count <= n,
        decreases keys.len() - n,
    {
        let key = &keys[n];
        let ghost before = tallies_view(tallies@);
        let mut found: Option<usize> = None;
        let mut i: usize = 0;
        while i < tallies.len()
            invariant_except_break
                found is None,
                tally_index(before, key@, 0) == tally_index(before, key@, i as int),
            invariant
                i <= tallies@.len(),
                before == tallies_view(tallies@),
            ensures
                match found {
                    Some(k) => tally_index(before, key@, 0) == Some(k as int) && k < tallies@.len(),
                    None => tally_index(before, key@, 0) is None,
                },
            decreases tallies.len() - i,
        {
            if str_equal(tallies[i].key.as_str(), key.as_str()) {
                found = Some(i);
                assert(before[i as int].0 == key@);
                break ;
            }
            i += 1;
        }
        match found {
            Some(k) => {
                let entry = Tally { key: key.clone(), count: tallies[k].count + 1 };
                tallies.set(k, entry);
                proof {
                    assert(tallies_view(tallies@) =~= before.update(
                        k as int,
                        (key@, before[k as int].1 + 1),
                    ));
                }
            },
            None => {
                let entry = Tally { key: key.clone(), count: 1 };
                tallies.push(entry);
                proof {
                    assert(tallies_view(tallies@) =~= before.push((key@, 1nat)));
                }
            },
        }
        n += 1;
    }
    tallies
}

} // verus!
