//! Font names, the table of registered fonts, and text measurement.

use crate::model::Run;
use crate::text::{chars_of, is_space, is_whitespace, skip_space};
use crate::units::{scale, scaled, MAX_ADVANCE, MAX_FONT_SIZE, MAX_RATIO};
use crate::winansi::{char_to_winansi, winansi_byte};
use vstd::prelude::*;
use vstd::string::StringExecFns;

verus! {

/// Number of entries in a width table: WinAnsi bytes 32 to 255.
pub const WIDTH_TABLE_LEN: usize = 224;

/// The index of the first `;` at or after `i`, or the length.
pub open spec fn find_semicolon(s: Seq<char>, i: int) -> int
    decreases s.len() - i,
{
    if 0 <= i < s.len() && s[i] != ';' {
        find_semicolon(s, i + 1)
    } else {
        i
    }
}

/// The index after the last character before `j` that is no whitespace, or 0.
pub open spec fn back_space(s: Seq<char>, j: int) -> int
    decreases j,
{
    if 0 < j <= s.len() && is_space(s[j - 1]) {
        back_space(s, j - 1)
    } else {
        j
    }
}

/// A text without the whitespace at its two ends.
pub open spec fn trimmed(s: Seq<char>) -> Seq<char> {
    let lo = skip_space(s, 0);
    let hi = back_space(s, s.len() as int);
    if lo < hi {
        s.subrange(lo, hi)
    } else {
        Seq::empty()
    }
}

/// The first name of a `;`-separated list of font names, trimmed.
pub open spec fn primary_name(name: Seq<char>) -> Seq<char> {
    trimmed(name.take(find_semicolon(name, 0)))
}

/// The first of the font names in `name`, without surrounding whitespace.
pub fn primary_font_name(name: &str) -> (r: &str)
    ensures
        r@ == primary_name(name@),
{
    let chars = chars_of(name);
    let n = chars.len();
    let mut e: usize = 0;
    while e < n && chars[e] != ';'
        invariant
            n == chars.len(),
            e <= n,
            find_semicolon(chars@, 0) == find_semicolon(chars@, e as int),
        decreases n - e,
    {
        e += 1;
    }
    let ghost head = chars@.take(e as int);
    let mut lo: usize = 0;
    while lo < e && is_whitespace(chars[lo])
        invariant
            n == chars.len(),
            lo <= e <= n,
            head == chars@.take(e as int),
            skip_space(head, 0) == skip_space(head, lo as int),
        decreases e - lo,
    {
        lo += 1;
    }
    let mut hi: usize = e;
    while hi > 0 && is_whitespace(chars[hi - 1])
        invariant
            n == chars.len(),
            hi <= e <= n,
            head == chars@.take(e as int),
            back_space(head, head.len() as int) == back_space(head, hi as int),
        decreases hi,
    {
        hi -= 1;
    }
    if lo < hi {
        name.substring_char(lo, hi)
    } else {
        let r = name.substring_char(0, 0);
        r
    }
}

/// The text that follows the family name in a font's key.
pub open spec fn style_suffix(bold: bool, italic: bool) -> Seq<char> {
    if bold && italic {
        seq!['/', 'B', 'I']
    } else if bold {
        seq!['/', 'B']
    } else if italic {
        seq!['/', 'I']
    } else {
        Seq::empty()
    }
}

/// The key under which a family and style are registered.
pub open spec fn font_key_of(name: Seq<char>, bold: bool, italic: bool) -> Seq<char> {
    primary_name(name) + style_suffix(bold, italic)
}

/// The key of the font that a run is set in.
pub fn font_key(run: &Run) -> (key: String)
    ensures
        key@ == font_key_of(run.font_name@, run.bold, run.italic),
{
    let base = primary_font_name(run.font_name.as_str());
    let suffix = if run.bold && run.italic {
        "/BI"
    } else if run.bold {
        "/B"
    } else if run.italic {
        "/I"
    } else {
        ""
    };
    proof {
        reveal_strlit("/BI");
        reveal_strlit("/B");
        reveal_strlit("/I");
        reveal_strlit("");
    }
    let key = String::from_str(base);
    key.concat(suffix)
}

/// What the engine knows of one registered font.
#[derive(Debug)]
pub struct FontEntry {
    /// The name of the font resource on a page.
    pub pdf_name: String,
    /// The number of the font's object.
    pub font_ref: i32,
    /// Glyph advances in thousandths of an em, for WinAnsi bytes 32 to 255.
    pub widths_1000: Vec<i64>,
    /// Line height over font size, in thousandths; `None` where the widths
    /// are the generic ones.
    pub line_h_ratio: Option<i64>,
    /// Ascent over font size, in thousandths; `None` where the widths are the
    /// generic ones.
    pub ascender_ratio: Option<i64>,
}

pub open spec fn widths_wf(widths: Seq<i64>) -> bool {
    &&& widths.len() == WIDTH_TABLE_LEN
    &&& forall|i: int| 0 <= i < widths.len() ==> 0 <= #[trigger] widths[i] <= MAX_ADVANCE
}

impl FontEntry {
    pub open spec fn wf(&self) -> bool {
        &&& widths_wf(self.widths_1000@)
        &&& (self.line_h_ratio matches Some(r) ==> 0 <= r <= MAX_RATIO)
        &&& (self.ascender_ratio matches Some(r) ==> -MAX_RATIO <= r <= MAX_RATIO)
    }

    /// Whether the entry is well formed.
    pub fn check(&self) -> (b: bool)
        ensures
            b == self.wf(),
    {
        if self.widths_1000.len() != WIDTH_TABLE_LEN {
            return false;
        }
        let mut i: usize = 0;
        while i < self.widths_1000.len()
            invariant
                i <= self.widths_1000@.len(),
                self.widths_1000@.len() == WIDTH_TABLE_LEN,
                forall|k: int| 0 <= k < i ==> 0 <= #[trigger] self.widths_1000@[k] <= MAX_ADVANCE,
            decreases self.widths_1000.len() - i,
        {
            let w = self.widths_1000[i];
            if w < 0 || w > MAX_ADVANCE {
                return false;
            }
            i += 1;
        }
        let line_ok = match self.line_h_ratio {
            Some(r) => 0 <= r && r <= MAX_RATIO,
            None => true,
        };
        let ascender_ok = match self.ascender_ratio {
            Some(r) => -MAX_RATIO <= r && r <= MAX_RATIO,
            None => true,
        };
        line_ok && ascender_ok
    }
}

/// The registered fonts: `entries[i]` is registered under `keys[i]`. Where a
/// key occurs twice, the first entry counts. The table is a pair of vectors
/// and no hash map: of a map with text for keys the verifier can prove
/// nothing, not even what is found after one insertion, and the contracts
/// below say which entry a key finds.
#[derive(Debug)]
pub struct FontTable {
    pub keys: Vec<String>,
    pub entries: Vec<FontEntry>,
}

/// The first index at or after `from` at which `keys` holds `key`.
pub open spec fn key_index(keys: Seq<String>, key: Seq<char>, from: int) -> Option<int>
    decreases keys.len() - from,
{
    if 0 <= from < keys.len() {
        if keys[from]@ == key {
            Some(from)
        } else {
            key_index(keys, key, from + 1)
        }
    } else {
        None
    }
}

impl FontTable {
    pub open spec fn wf(&self) -> bool {
        &&& self.keys@.len() == self.entries@.len()
        &&& forall|i: int| 0 <= i < self.entries@.len() ==> (#[trigger] self.entries@[i]).wf()
    }

    /// The index of the entry registered under `key`.
    pub open spec fn index_of(&self, key: Seq<char>) -> Option<int> {
        key_index(self.keys@, key, 0)
    }

    /// The index of the entry for a run's family and style.
    pub open spec fn entry_of(&self, run: Run) -> Option<int> {
        self.index_of(font_key_of(run.font_name@, run.bold, run.italic))
    }

    /// Every run that is no tab has its font registered.
    pub open spec fn covers(&self, runs: Seq<Run>) -> bool {
        forall|i: int|
            0 <= i < runs.len() && !(#[trigger] runs[i]).is_tab ==> self.entry_of(runs[i]) is Some
    }

    /// Every run, tabs included, has its font registered.
    pub open spec fn covers_all(&self, runs: Seq<Run>) -> bool {
        forall|i: int| 0 <= i < runs.len() ==> self.entry_of(#[trigger] runs[i]) is Some
    }

    /// Whether every run has its font registered.
    pub fn check_cover(&self, runs: &Vec<Run>) -> (b: bool)
        requires
            self.wf(),
        ensures
            b == self.covers_all(runs@),
    {
        let mut i: usize = 0;
        while i < runs.len()
            invariant
                i <= runs@.len(),
                self.wf(),
                forall|k: int| 0 <= k < i ==> self.entry_of(#[trigger] runs@[k]) is Some,
            decreases runs.len() - i,
        {
            if self.find(&runs[i]).is_none() {
                return false;
            }
            i += 1;
        }
        true
    }

    /// Whether the table is well formed.
    pub fn check(&self) -> (b: bool)
        ensures
            b == self.wf(),
    {
        if self.keys.len() != self.entries.len() {
            return false;
        }
        let mut i: usize = 0;
        while i < self.entries.len()
            invariant
                i <= self.entries@.len(),
                forall|k: int| 0 <= k < i ==> (#[trigger] self.entries@[k]).wf(),
            decreases self.entries.len() - i,
        {
            if !self.entries[i].check() {
                return false;
            }
            i += 1;
        }
        true
    }

    /// Registers an entry under a key, behind the entries that are there.
    pub fn insert(&mut self, key: String, entry: FontEntry)
        requires
            old(self).wf(),
            entry.wf(),
        ensures
            final(self).wf(),
            final(self).keys@ == old(self).keys@.push(key),
            final(self).entries@ == old(self).entries@.push(entry),
    {
        self.keys.push(key);
        self.entries.push(entry);
    }

    pub fn new() -> (t: FontTable)
        ensures
            t.wf(),
            t.keys@.len() == 0,
    {
        FontTable { keys: Vec::new(), entries: Vec::new() }
    }

    pub fn lookup(&self, key: &String) -> (r: Option<usize>)
        requires
            self.wf(),
        ensures
            match r {
                Some(i) => self.index_of(key@) == Some(i as int) && i < self.entries@.len(),
                None => self.index_of(key@) is None,
            },
    {
        let mut i: usize = 0;
        while i < self.keys.len()
            invariant
                i <= self.keys.len(),
                self.keys@.len() == self.entries@.len(),
                key_index(self.keys@, key@, 0) == key_index(self.keys@, key@, i as int),
            decreases self.keys.len() - i,
        {
            if self.keys[i] == *key {
                return Some(i);
            }
            i += 1;
        }
        None
    }

    /// The index of the entry that a run is set in.
    pub fn find(&self, run: &Run) -> (r: Option<usize>)
        requires
            self.wf(),
        ensures
            match r {
                Some(i) => self.entry_of(*run) == Some(i as int) && i < self.entries@.len(),
                None => self.entry_of(*run) is None,
            },
    {
        let key = font_key(run);
        self.lookup(&key)
    }
}

/// The advance of one character in thousandths of an em: that of its WinAnsi
/// byte, and nothing for a character without one or below 32.
pub open spec fn glyph_advance(widths: Seq<i64>, c: char) -> int {
    match winansi_byte(c) {
        Some(b) => if b >= 32 {
            widths[b - 32] as int
        } else {
            0
        },
        None => 0,
    }
}

/// The sum of the advances of a text's characters.
pub open spec fn text_advance(widths: Seq<i64>, s: Seq<char>) -> int
    decreases s.len(),
{
    if s.len() == 0 {
        0
    } else {
        text_advance(widths, s.drop_last()) + glyph_advance(widths, s.last())
    }
}

/// The width of a text set at `size`.
pub open spec fn text_width(widths: Seq<i64>, s: Seq<char>, size: int) -> int {
    scaled(text_advance(widths, s), size)
}

/// The width of a space set at `size`.
pub open spec fn space_width(widths: Seq<i64>, size: int) -> int {
    scaled(widths[0] as int, size)
}

pub proof fn lemma_text_advance_range(widths: Seq<i64>, s: Seq<char>)
    requires
        widths_wf(widths),
    ensures
        0 <= text_advance(widths, s) <= s.len() * MAX_ADVANCE,
    decreases s.len(),
{
    if s.len() > 0 {
        lemma_text_advance_range(widths, s.drop_last());
        assert(s.len() * MAX_ADVANCE == (s.len() - 1) * MAX_ADVANCE + MAX_ADVANCE)
            by (nonlinear_arith);
    }
}

/// A text of at most `n` characters at a size of at most `MAX_FONT_SIZE` is
/// at most `n * MAX_ADVANCE * MAX_FONT_SIZE / 1000` wide.
pub proof fn lemma_text_width_range(widths: Seq<i64>, s: Seq<char>, size: int, n: int)
    requires
        widths_wf(widths),
        s.len() <= n,
        0 <= size <= MAX_FONT_SIZE,
    ensures
        0 <= text_width(widths, s, size) <= n * 200_000_000,
{
    lemma_text_advance_range(widths, s);
    let a = text_advance(widths, s);
    assert(a <= n * MAX_ADVANCE) by (nonlinear_arith)
        requires
            a <= s.len() * MAX_ADVANCE,
            s.len() <= n,
    ;
    assert(0 <= a * size / 1000 <= n * 200_000_000) by (nonlinear_arith)
        requires
            0 <= a <= n * 100_000,
            0 <= size <= 2_000_000,
    ;
}

pub proof fn lemma_space_width_range(widths: Seq<i64>, size: int)
    requires
        widths_wf(widths),
        0 <= size <= MAX_FONT_SIZE,
    ensures
        0 <= space_width(widths, size) <= 200_000_000,
{
    let a = widths[0] as int;
    assert(0 <= a * size / 1000 <= 200_000_000) by (nonlinear_arith)
        requires
            0 <= a <= 100_000,
            0 <= size <= 2_000_000,
    ;
}

/// The advance of one character.
pub fn advance_of(widths: &Vec<i64>, c: char) -> (a: i64)
    requires
        widths_wf(widths@),
    ensures
        a == glyph_advance(widths@, c),
        0 <= a <= MAX_ADVANCE,
{
    match char_to_winansi(c) {
        Some(b) => {
            if b >= 32 {
                widths[(b - 32) as usize]
            } else {
                0
            }
        },
        None => 0,
    }
}

/// Measures the characters `from..to` of a text at `size`.
pub fn measure(widths: &Vec<i64>, chars: &Vec<char>, from: usize, to: usize, size: i64) -> (w: i64)
    requires
        widths_wf(widths@),
        from <= to <= chars@.len(),
        to - from <= 1_000_000,
        0 <= size <= MAX_FONT_SIZE,
    ensures
        w == text_width(widths@, chars@.subrange(from as int, to as int), size as int),
        0 <= w <= (to - from) * 200_000_000,
{
    let mut sum: i64 = 0;
    let mut i: usize = from;
    while i < to
        invariant
            widths_wf(widths@),
            from <= i <= to <= chars@.len(),
            to - from <= 1_000_000,
            sum == text_advance(widths@, chars@.subrange(from as int, i as int)),
            0 <= sum <= (i - from) * MAX_ADVANCE,
        decreases to - i,
    {
        let a = advance_of(widths, chars[i]);
        proof {
            let next = chars@.subrange(from as int, i as int + 1);
            assert(next.drop_last() =~= chars@.subrange(from as int, i as int));
        }
        sum = sum + a;
        i += 1;
    }
    proof {
        lemma_text_width_range(
            widths@,
            chars@.subrange(from as int, to as int),
            size as int,
            to - from,
        );
    }
    scale(sum, size)
}

/// Measures a space at `size`.
pub fn measure_space(widths: &Vec<i64>, size: i64) -> (w: i64)
    requires
        widths_wf(widths@),
        0 <= size <= MAX_FONT_SIZE,
    ensures
        w == space_width(widths@, size as int),
        0 <= w <= 200_000_000,
{
    proof {
        lemma_space_width_range(widths@, size as int);
    }
    scale(widths[0], size)
}

} // verus!
