//! Characters, whitespace and words.
//!
//! A word is a maximal stretch of characters that holds no whitespace. Words
//! are found as spans of character indices, so that a caller can both measure
//! a word and cut it out of the text it came from.

use vstd::prelude::*;

verus! {

/// Whitespace as Unicode's `White_Space` property has it.
pub open spec fn is_space(c: char) -> bool {
    let n = c as u32;
    ||| 0x09 <= n <= 0x0d
    ||| n == 0x20
    ||| n == 0x85
    ||| n == 0xa0
    ||| n == 0x1680
    ||| 0x2000 <= n <= 0x200a
    ||| n == 0x2028
    ||| n == 0x2029
    ||| n == 0x202f
    ||| n == 0x205f
    ||| n == 0x3000
}

pub fn is_whitespace(c: char) -> (r: bool)
    ensures
        r == is_space(c),
{
    let n: u32 = c as u32;
    (0x09 <= n && n <= 0x0d) || n == 0x20 || n == 0x85 || n == 0xa0 || n == 0x1680 || (0x2000 <= n
        && n <= 0x200a) || n == 0x2028 || n == 0x2029 || n == 0x202f || n == 0x205f || n
        == 0x3000
}

/// The characters of a string, in order.
pub fn chars_of(s: &str) -> (v: Vec<char>)
    ensures
        v@ == s@,
{
    let mut v: Vec<char> = Vec::new();
    for c in it: s.chars()
        invariant
            v@ == it.seq().take(it.index()),
            it.seq() == s@,
    {
        v.push(c);
    }
    v
}

/// Whether two texts hold the same characters.
pub fn str_equal(a: &str, b: &str) -> (r: bool)
    ensures
        r == (a@ == b@),
{
    let x = chars_of(a);
    let y = chars_of(b);
    if x.len() != y.len() {
        return false;
    }
    let mut i: usize = 0;
    while i < x.len()
        invariant
            i <= x.len(),
            x.len() == y.len(),
            x@ == a@,
            y@ == b@,
            forall|k: int| 0 <= k < i ==> x@[k] == y@[k],
        decreases x.len() - i,
    {
        if x[i] != y[i] {
            return false;
        }
        i += 1;
    }
    assert(x@ =~= y@);
    true
}

pub open spec fn starts_with_space(s: Seq<char>) -> bool {
    s.len() > 0 && is_space(s[0])
}

pub open spec fn ends_with_space(s: Seq<char>) -> bool {
    s.len() > 0 && is_space(s[s.len() - 1])
}

/// The first index at or after `i` that holds no whitespace, or the length.
pub open spec fn skip_space(s: Seq<char>, i: int) -> int
    decreases s.len() - i,
{
    if 0 <= i < s.len() && is_space(s[i]) {
        skip_space(s, i + 1)
    } else {
        i
    }
}

/// The first index at or after `i` that holds whitespace, or the length.
pub open spec fn skip_word(s: Seq<char>, i: int) -> int
    decreases s.len() - i,
{
    if 0 <= i < s.len() && !is_space(s[i]) {
        skip_word(s, i + 1)
    } else {
        i
    }
}

/// The words that begin at or after `i`, each as its first index and the
/// index after its last.
pub open spec fn word_spans(s: Seq<char>, i: int) -> Seq<(int, int)>
    decreases s.len() - i,
{
    let j = skip_space(s, i);
    let k = skip_word(s, j);
    if 0 <= i <= j < k <= s.len() {
        seq![(j, k)] + word_spans(s, k)
    } else {
        Seq::empty()
    }
}

/// The words of a text.
pub open spec fn words(s: Seq<char>) -> Seq<Seq<char>> {
    Seq::new(word_spans(s, 0).len(), |n: int| s.subrange(word_spans(s, 0)[n].0, word_spans(s, 0)[n].1))
}

pub proof fn lemma_skip_space(s: Seq<char>, i: int)
    requires
        0 <= i <= s.len(),
    ensures
        i <= skip_space(s, i) <= s.len(),
        skip_space(s, i) < s.len() ==> !is_space(s[skip_space(s, i)]),
        forall|k: int| i <= k < skip_space(s, i) ==> is_space(#[trigger] s[k]),
    decreases s.len() - i,
{
    if i < s.len() && is_space(s[i]) {
        lemma_skip_space(s, i + 1);
    }
}

pub proof fn lemma_skip_word(s: Seq<char>, i: int)
    requires
        0 <= i <= s.len(),
    ensures
        i <= skip_word(s, i) <= s.len(),
        skip_word(s, i) < s.len() ==> is_space(s[skip_word(s, i)]),
        forall|k: int| i <= k < skip_word(s, i) ==> !is_space(#[trigger] s[k]),
        i < s.len() && !is_space(s[i]) ==> i < skip_word(s, i),
    decreases s.len() - i,
{
    if i < s.len() && !is_space(s[i]) {
        lemma_skip_word(s, i + 1);
    }
}

/// Every span lies inside the text, holds at least one character and no
/// whitespace, and the spans follow one another from left to right.
pub proof fn lemma_word_spans(s: Seq<char>, i: int)
    requires
        0 <= i <= s.len(),
    ensures
        word_spans(s, i).len() <= s.len() - i,
        forall|n: int|
            0 <= n < word_spans(s, i).len() ==> {
                let p = #[trigger] word_spans(s, i)[n];
                &&& i <= p.0 < p.1 <= s.len()
                &&& forall|k: int| p.0 <= k < p.1 ==> !is_space(#[trigger] s[k])
            },
        forall|n: int, m: int|
            0 <= n < m < word_spans(s, i).len() ==> (#[trigger] word_spans(s, i)[n]).1 < (
            #[trigger] word_spans(s, i)[m]).0,
    decreases s.len() - i,
{
    lemma_skip_space(s, i);
    let j = skip_space(s, i);
    lemma_skip_word(s, j);
    let k = skip_word(s, j);
    if j < k {
        lemma_word_spans(s, k);
    }
}

/// The spans of a vector as pairs of mathematical integers.
pub open spec fn spans_view(v: Seq<(usize, usize)>) -> Seq<(int, int)> {
    Seq::new(v.len(), |n: int| (v[n].0 as int, v[n].1 as int))
}

/// Finds the words of a text.
pub fn split_words(s: &Vec<char>) -> (spans: Vec<(usize, usize)>)
    ensures
        spans_view(spans@) == word_spans(s@, 0),
{
    let n = s.len();
    let mut spans: Vec<(usize, usize)> = Vec::new();
    let mut i: usize = 0;
    loop
        invariant
            n == s.len(),
            i <= n,
            word_spans(s@, 0) == spans_view(spans@) + word_spans(s@, i as int),
        ensures
            spans_view(spans@) == word_spans(s@, 0),
        decreases n - i,
    {
        let mut j: usize = i;
        while j < n && is_whitespace(s[j])
            invariant
                n == s.len(),
                i <= j <= n,
                skip_space(s@, i as int) == skip_space(s@, j as int),
            decreases n - j,
        {
            j += 1;
        }
        let mut k: usize = j;
        while k < n && !is_whitespace(s[k])
            invariant
                n == s.len(),
                j <= k <= n,
                skip_word(s@, j as int) == skip_word(s@, k as int),
            decreases n - k,
        {
            k += 1;
        }
        if j == k {
            break ;
        }
        spans.push((j, k));
        i = k;
    }
    spans
}

pub fn starts_with_whitespace(s: &Vec<char>) -> (r: bool)
    ensures
        r == starts_with_space(s@),
{
    s.len() > 0 && is_whitespace(s[0])
}

pub fn ends_with_whitespace(s: &Vec<char>) -> (r: bool)
    ensures
        r == ends_with_space(s@),
{
    s.len() > 0 && is_whitespace(s[s.len() - 1])
}

} // verus!

verus! {

/// `String::push` appends one character to the end of a string.
pub assume_specification[ String::push ](s: &mut String, ch: char)
    ensures
        final(s)@ == old(s)@.push(ch),
;

/// A text of `count` copies of one character.
pub fn repeated(c: char, count: usize) -> (s: String)
    ensures
        s@ == Seq::new(count as nat, |i: int| c),
{
    let mut s = String::new();
    let mut i: usize = 0;
    while i < count
        invariant
            i <= count,
            s@ == Seq::new(i as nat, |k: int| c),
        decreases count - i,
    {
        s.push(c);
        i += 1;
    }
    s
}

} // verus!
