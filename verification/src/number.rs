//! Numbers as decimal text.

use vstd::prelude::*;

verus! {

/// The character of a decimal digit.
pub open spec fn digit_char(d: int) -> char {
    ((d + '0' as int) as u32) as char
}

/// The decimal digits of a number, most significant first; a single `0` for
/// zero.
pub open spec fn decimal_digits(n: nat) -> Seq<char>
    decreases n,
{
    if n < 10 {
        seq![digit_char(n as int)]
    } else {
        decimal_digits(n / 10).push(digit_char((n % 10) as int))
    }
}

/// The text of a number has as many characters as the number has digits, and
/// each is a digit.
pub proof fn lemma_decimal_digits(n: nat)
    ensures
        decimal_digits(n).len() >= 1,
        forall|i: int|
            0 <= i < decimal_digits(n).len() ==> '0' <= #[trigger] decimal_digits(n)[i] <= '9',
    decreases n,
{
    if n >= 10 {
        lemma_decimal_digits(n / 10);
    }
}

/// Different numbers have different texts.
pub proof fn lemma_digits_differ(a: nat, b: nat)
    requires
        decimal_digits(a) == decimal_digits(b),
    ensures
        a == b,
    decreases a,
{
    lemma_decimal_digits(a / 10);
    lemma_decimal_digits(b / 10);
    let x = decimal_digits(a);
    let y = decimal_digits(b);
    if a < 10 {
        assert(x[0] == y[0]);
    } else {
        assert(b >= 10) by {
            if b < 10 {
                assert(x.len() >= 2);
            }
        }
        assert(x.drop_last() =~= decimal_digits(a / 10));
        assert(y.drop_last() =~= decimal_digits(b / 10));
        assert(y.last() == digit_char((b % 10) as int));
        lemma_digits_differ(a / 10, b / 10);
    }
}

fn digit_of(d: u128) -> (c: char)
    requires
        d < 10,
    ensures
        c == digit_char(d as int),
{
    match d {
        0 => '0',
        1 => '1',
        2 => '2',
        3 => '3',
        4 => '4',
        5 => '5',
        6 => '6',
        7 => '7',
        8 => '8',
        _ => '9',
    }
}

/// Appends the decimal text of a number.
pub fn push_decimal(s: &mut String, n: u128)
    ensures
        final(s)@ == old(s)@ + decimal_digits(n as nat),
    decreases n,
{
    if n < 10 {
        s.push(digit_of(n));
    } else {
        push_decimal(s, n / 10);
        s.push(digit_of(n % 10));
    }
}

/// The decimal text of a number.
pub fn decimal_string(n: u64) -> (s: String)
    ensures
        s@ == decimal_digits(n as nat),
{
    let mut s = String::new();
    push_decimal(&mut s, n as u128);
    s
}

/// A name made of a prefix and a number, such as `F3`.
pub open spec fn numbered_name(prefix: Seq<char>, n: nat) -> Seq<char> {
    prefix + decimal_digits(n)
}

pub fn numbered(prefix: &str, n: u128) -> (s: String)
    ensures
        s@ == numbered_name(prefix@, n as nat),
{
    let mut s = prefix.to_owned();
    push_decimal(&mut s, n);
    s
}

} // verus!

verus! {

/// Ten to the power of `k`.
pub open spec fn pow10(k: nat) -> nat
    decreases k,
{
    if k == 0 {
        1
    } else {
        10 * pow10((k - 1) as nat)
    }
}

/// A number below ten to the `k` has at most `k` digits.
pub proof fn lemma_digits_len(n: nat, k: nat)
    requires
        k >= 1,
        n < pow10(k),
    ensures
        decimal_digits(n).len() <= k,
    decreases k,
{
    if n >= 10 {
        assert(k > 1) by {
            if k == 1 {
                assert(pow10(1) == 10 * pow10(0));
            }
        }
        lemma_digits_len(n / 10, (k - 1) as nat);
    }
}

/// The text of a 64-bit number has at most twenty characters.
pub proof fn lemma_digits_len_u64(n: u64)
    ensures
        1 <= decimal_digits(n as nat).len() <= 20,
{
    reveal_with_fuel(pow10, 21);
    lemma_digits_len(n as nat, 20);
    lemma_decimal_digits(n as nat);
}

} // verus!

verus! {

/// Largest magnitude of a number that is read from text, in thousandths.
pub const MAX_READ: i64 = 1_000_000_000_000_000;

/// The value of a decimal digit.
pub open spec fn digit_value(c: char) -> Option<int> {
    if '0' <= c <= '9' {
        Some(c as int - '0' as int)
    } else {
        None
    }
}

/// Whether the characters `from..to` are decimal digits.
pub open spec fn all_digits(s: Seq<char>, from: int, to: int) -> bool {
    forall|i: int| from <= i < to ==> digit_value(#[trigger] s[i]) is Some
}

/// The number that the digits `from..to` spell.
pub open spec fn digits_value(s: Seq<char>, from: int, to: int) -> int
    decreases to - from,
{
    if to <= from {
        0
    } else {
        digits_value(s, from, to - 1) * 10 + digit_value(s[to - 1]).unwrap()
    }
}

/// The index of the first `.` at or after `i`, or the length.
pub open spec fn find_point(s: Seq<char>, i: int) -> int
    decreases s.len() - i,
{
    if 0 <= i < s.len() && s[i] != '.' {
        find_point(s, i + 1)
    } else {
        i
    }
}

/// The digit at `i` if there is one there, and zero if the text ends before.
pub open spec fn digit_or_zero(s: Seq<char>, i: int) -> int {
    if 0 <= i < s.len() {
        digit_value(s[i]).unwrap()
    } else {
        0
    }
}

/// The number that a text spells, in thousandths: an optional sign, digits,
/// and optionally a point and more digits, of which the first three count.
/// There has to be a digit, and the magnitude must not exceed `MAX_READ`.
pub open spec fn thousandths(s: Seq<char>) -> Option<int> {
    let start: int = if s.len() > 0 && (s[0] == '-' || s[0] == '+') {
        1
    } else {
        0
    };
    let point = find_point(s, start);
    let whole = digits_value(s, start, point);
    let value = whole * 1000 + digit_or_zero(s, point + 1) * 100 + digit_or_zero(s, point + 2) * 10
        + digit_or_zero(s, point + 3);
    if all_digits(s, start, point) && all_digits(s, point + 1, s.len() as int) && (point > start
        || s.len() > point + 1) && value <= MAX_READ {
        Some(
            if s.len() > 0 && s[0] == '-' {
                -value
            } else {
                value
            },
        )
    } else {
        None
    }
}

pub proof fn lemma_digits_value_monotonic(s: Seq<char>, from: int, mid: int, to: int)
    requires
        0 <= from <= mid <= to <= s.len(),
        all_digits(s, from, to),
    ensures
        0 <= digits_value(s, from, mid) <= digits_value(s, from, to),
    decreases to - mid,
{
    if mid < to {
        lemma_digits_value_monotonic(s, from, mid, to - 1);
    } else {
        lemma_digits_value_nonneg(s, from, mid);
    }
}

proof fn lemma_digits_value_nonneg(s: Seq<char>, from: int, to: int)
    requires
        0 <= from <= to <= s.len(),
        all_digits(s, from, to),
    ensures
        0 <= digits_value(s, from, to),
    decreases to - from,
{
    if from < to {
        lemma_digits_value_nonneg(s, from, to - 1);
    }
}

pub(crate) fn digit_at(c: char) -> (d: Option<i64>)
    ensures
        match d {
            Some(v) => digit_value(c) == Some(v as int) && 0 <= v <= 9,
            None => digit_value(c) is None,
        },
{
    let n: u32 = c as u32;
    if 0x30 <= n && n <= 0x39 {
        Some((n - 0x30) as i64)
    } else {
        None
    }
}

/// Reads a number from text, in thousandths.
#[verifier::loop_isolation(false)]
pub fn parse_number(text: &str) -> (v: Option<i64>)
    ensures
        match v {
            Some(n) => thousandths(text@) == Some(n as int) && -MAX_READ <= n <= MAX_READ,
            None => thousandths(text@) is None,
        },
{
    let s = crate::text::chars_of(text);
    let n = s.len();
    let start: usize = if n > 0 && (s[0] == '-' || s[0] == '+') {
        1
    } else {
        0
    };
    let mut whole: i64 = 0;
    let mut i: usize = start;
    while i < n && s[i] != '.'
        invariant
            start <= i <= n,
            n == s@.len(),
            find_point(s@, start as int) == find_point(s@, i as int),
            all_digits(s@, start as int, i as int),
            whole == digits_value(s@, start as int, i as int),
            0 <= whole <= 1_000_000_000_009,
        decreases n - i,
    {
        match digit_at(s[i]) {
            Some(d) => {
                if whole > 100_000_000_000 {
                    proof {
                        lemma_too_large(s@, start as int, i as int + 1);
                    }
                    return None;
                }
                whole = whole * 10 + d;
            },
            None => {
                assert(!all_digits(s@, start as int, find_point(s@, start as int))) by {
                    lemma_find_point(s@, i as int);
                }
                return None;
            },
        }
        i += 1;
    }
    let point = i;
    let mut fraction: i64 = 0;
    let mut k: usize = 0;
    let mut j: usize = if point < n {
        point + 1
    } else {
        n
    };
    let first = j;
    while j < n
        invariant
            point <= n == s@.len(),
            first <= j <= n,
            first == (if point < n {
                point + 1
            } else {
                n as int
            }),
            all_digits(s@, first as int, j as int),
            0 <= fraction <= 999,
            fraction == (if j > first {
                digit_or_zero(s@, first as int) * 100
            } else {
                0
            }) + (if j > first + 1 {
                digit_or_zero(s@, first + 1) * 10
            } else {
                0
            }) + (if j > first + 2 {
                digit_or_zero(s@, first + 2)
            } else {
                0
            }),
        decreases n - j,
    {
        match digit_at(s[j]) {
            Some(d) => {
                if j == first {
                    fraction = d * 100;
                } else if j == first + 1 {
                    fraction = fraction + d * 10;
                } else if j == first + 2 {
                    fraction = fraction + d;
                }
            },
            None => {
                return None;
            },
        }
        j += 1;
    }
    if !(point > start || n > point + 1) {
        return None;
    }
    let value = whole * 1000 + fraction;
    if value > MAX_READ {
        return None;
    }
    if n > 0 && s[0] == '-' {
        Some(-value)
    } else {
        Some(value)
    }
}

proof fn lemma_find_point(s: Seq<char>, i: int)
    requires
        0 <= i <= s.len(),
    ensures
        i <= find_point(s, i) <= s.len(),
        find_point(s, i) < s.len() ==> s[find_point(s, i)] == '.',
        forall|k: int| i <= k < find_point(s, i) ==> #[trigger] s[k] != '.',
    decreases s.len() - i,
{
    if i < s.len() && s[i] != '.' {
        lemma_find_point(s, i + 1);
    }
}

/// A number whose first digits spell more than a million million is too
/// large, whatever follows.
proof fn lemma_too_large(s: Seq<char>, start: int, i: int)
    requires
        0 <= start < i <= s.len(),
        start == (if s.len() > 0 && (s[0] == '-' || s[0] == '+') {
            1int
        } else {
            0int
        }),
        all_digits(s, start, i),
        digits_value(s, start, i - 1) > 100_000_000_000,
        find_point(s, start) == find_point(s, i - 1),
        s[i - 1] != '.',
    ensures
        thousandths(s) is None,
{
    lemma_find_point(s, i);
    let point = find_point(s, start);
    if all_digits(s, start, point) {
        lemma_digits_value_monotonic(s, start, i, point);
    }
}

/// The number that a text spells with digits alone, after an optional plus
/// sign, if it is no larger than `max`.
pub open spec fn natural(s: Seq<char>, max: int) -> Option<int> {
    let start: int = if s.len() > 0 && s[0] == '+' {
        1
    } else {
        0
    };
    if s.len() > start && all_digits(s, start, s.len() as int) && digits_value(
        s,
        start,
        s.len() as int,
    ) <= max {
        Some(digits_value(s, start, s.len() as int))
    } else {
        None
    }
}

/// Reads a number that is no larger than `max`.
#[verifier::loop_isolation(false)]
pub fn parse_natural(text: &str, max: u32) -> (v: Option<u32>)
    ensures
        match v {
            Some(n) => natural(text@, max as int) == Some(n as int) && n <= max,
            None => natural(text@, max as int) is None,
        },
{
    let s = crate::text::chars_of(text);
    let n = s.len();
    let start: usize = if n > 0 && s[0] == '+' {
        1
    } else {
        0
    };
    if n <= start {
        return None;
    }
    let mut value: u64 = 0;
    let mut i: usize = start;
    while i < n
        invariant
            start <= i <= n,
            all_digits(s@, start as int, i as int),
            value == digits_value(s@, start as int, i as int),
            value <= max,
        decreases n - i,
    {
        let d = match digit_at(s[i]) {
            Some(d) => d,
            None => {
                return None;
            },
        };
        let next = value * 10 + (d as u64);
        if next > max as u64 {
            proof {
                if all_digits(s@, start as int, n as int) {
                    lemma_digits_value_monotonic(s@, start as int, i as int + 1, n as int);
                }
            }
            return None;
        }
        value = next;
        i += 1;
    }
    Some(value as u32)
}

} // verus!
