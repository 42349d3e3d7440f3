//! Fixed-point units and the arithmetic the layout engine is built on.
//!
//! Every length is an `i64` count of thousandths of a point, and every ratio
//! (line spacing, line-height ratio, ascender ratio, glyph advance per em) is
//! an `i64` count of thousandths. Quotients are rounded toward negative
//! infinity, which is what `/` means on `int` for a positive divisor.

use vstd::prelude::*;

verus! {

/// Largest magnitude of a length that a document may state (a million points).
pub const MAX_COORD: i64 = 1_000_000_000;

/// Largest font size (two thousand points).
pub const MAX_FONT_SIZE: i64 = 2_000_000;

/// Largest glyph advance in thousandths of an em.
pub const MAX_ADVANCE: i64 = 100_000;

/// Largest magnitude of a ratio (ten).
pub const MAX_RATIO: i64 = 10_000;

/// Largest number of characters in one run.
pub const MAX_RUN_CHARS: usize = 100_000;

/// Largest number of characters in one paragraph.
pub const MAX_PARA_CHARS: usize = 1_000_000;

/// Largest number of runs in one paragraph.
pub const MAX_RUNS: usize = 1_000_000_000;

/// Largest number of paragraphs in one table cell, header or footer.
pub const MAX_CELL_PARAGRAPHS: usize = 1_000_000_000;

/// Largest number of characters in one table cell, header or footer.
pub const MAX_CELL_CHARS: usize = 1_000_000_000;

/// Largest number of columns in a table.
pub const MAX_COLUMNS: usize = 10_000;

/// `x` multiplied by a ratio in thousandths.
pub open spec fn scaled(x: int, ratio: int) -> int {
    x * ratio / 1000
}

/// `x` multiplied by a ratio in hundredths.
pub open spec fn percent(x: int, hundredths: int) -> int {
    x * hundredths / 100
}

pub open spec fn within(x: int, bound: int) -> bool {
    -bound <= x <= bound
}

pub open spec fn max_int(a: int, b: int) -> int {
    if a >= b {
        a
    } else {
        b
    }
}

/// A product divided by a positive number stays within the product of the
/// factors' bounds, and keeps the sign of the product.
pub proof fn lemma_mul_div_range(a: int, b: int, d: int, am: int, bm: int)
    by (nonlinear_arith)
    requires
        d > 0,
        -am <= a <= am,
        -bm <= b <= bm,
    ensures
        -(am * bm) <= a * b / d <= am * bm,
        -(am * bm) <= a * b <= am * bm,
        a * b >= 0 ==> 0 <= a * b / d <= (am * bm) / d,
        (a >= 0 && b >= 0) ==> a * b >= 0,
{
}

/// Multiplying by a non-negative number is monotonic.
pub proof fn lemma_mul_monotonic(a: int, b: int, c: int)
    by (nonlinear_arith)
    requires
        a <= b,
        c >= 0,
    ensures
        a * c <= b * c,
        c * a <= c * b,
{
}

/// `a / d` rounded toward negative infinity, for a positive divisor.
pub fn floor_div(a: i64, d: i64) -> (q: i64)
    requires
        d > 0,
    ensures
        q == a as int / d as int,
{
    if a >= 0 {
        a / d
    } else {
        let m: i64 = -(a + 1);
        let q0: i64 = m / d;
        assert((a as int) / (d as int) == -((m as int) / (d as int)) - 1) by (nonlinear_arith)
            requires
                d > 0,
                m >= 0,
                a as int == -(m as int) - 1,
        ;
        -q0 - 1
    }
}

/// `a * b / d` without overflow in the product, rounded toward negative
/// infinity.
pub fn mul_div(a: i64, b: i64, d: i64) -> (q: i64)
    requires
        d > 0,
        i64::MIN <= (a as int * b as int) / (d as int) <= i64::MAX,
    ensures
        q == (a as int * b as int) / (d as int),
{
    assert(-0x4000_0000_0000_0000_0000_0000_0000_0000 <= a as int * b as int
        <= 0x4000_0000_0000_0000_0000_0000_0000_0000) by (nonlinear_arith)
        requires
            -0x8000_0000_0000_0000 <= a as int <= 0x8000_0000_0000_0000,
            -0x8000_0000_0000_0000 <= b as int <= 0x8000_0000_0000_0000,
    ;
    let p: i128 = (a as i128) * (b as i128);
    let dd: i128 = d as i128;
    if p >= 0 {
        (p / dd) as i64
    } else {
        let m: i128 = -(p + 1);
        let q0: i128 = m / dd;
        assert((p as int) / (dd as int) == -((m as int) / (dd as int)) - 1) by (nonlinear_arith)
            requires
                dd > 0,
                m >= 0,
                p as int == -(m as int) - 1,
        ;
        (-q0 - 1) as i64
    }
}

/// A length multiplied by a ratio in thousandths.
pub fn scale(x: i64, ratio: i64) -> (r: i64)
    requires
        i64::MIN <= scaled(x as int, ratio as int) <= i64::MAX,
    ensures
        r == scaled(x as int, ratio as int),
{
    mul_div(x, ratio, 1000)
}

/// A length multiplied by a ratio in hundredths.
pub fn scale_percent(x: i64, hundredths: i64) -> (r: i64)
    requires
        i64::MIN <= percent(x as int, hundredths as int) <= i64::MAX,
    ensures
        r == percent(x as int, hundredths as int),
{
    mul_div(x, hundredths, 100)
}

pub fn max_i64(a: i64, b: i64) -> (r: i64)
    ensures
        r == max_int(a as int, b as int),
{
    if a >= b {
        a
    } else {
        b
    }
}

} // verus!
