//! Fitting the columns of a table to their content.
//!
//! Every column has a width hint and a least width, that of the widest word
//! in it. A column that is narrower than its least width is grown to it.
//! What the grown columns gain, the columns with slack give up, each in
//! proportion to its slack: the width it has above its least width. Where
//! the slack cannot pay for the growth, every column is set to its least
//! width and the widths are scaled down. Either way the widths add up to
//! the sum of the hints.

use crate::units::{max_i64, max_int, mul_div, MAX_COLUMNS, MAX_COORD};
use vstd::prelude::*;

verus! {

/// Largest least width of a column.
pub const MAX_MIN_WIDTH: i64 = 20_000_000_000_000;

/// The sum of the first `n` numbers.
pub open spec fn sum_to(s: Seq<int>, n: int) -> int
    decreases n,
{
    if n <= 0 {
        0
    } else {
        sum_to(s, n - 1) + s[n - 1]
    }
}

pub open spec fn ints(s: Seq<i64>) -> Seq<int> {
    Seq::new(s.len(), |i: int| s[i] as int)
}

/// What the first `n` columns have to grow by.
pub open spec fn growth(hints: Seq<int>, mins: Seq<int>, n: int) -> int
    decreases n,
{
    if n <= 0 {
        0
    } else {
        growth(hints, mins, n - 1) + max_int(mins[n - 1] - hints[n - 1], 0)
    }
}

/// What the first `n` columns can give up.
pub open spec fn slack(hints: Seq<int>, mins: Seq<int>, n: int) -> int
    decreases n,
{
    if n <= 0 {
        0
    } else {
        slack(hints, mins, n - 1) + max_int(hints[n - 1] - mins[n - 1], 0)
    }
}

/// What the first `n` columns together give up of `take`, where all columns
/// have `available` to give: the share of their slack, rounded down.
pub open spec fn given(hints: Seq<int>, mins: Seq<int>, take: int, available: int, n: int) -> int {
    slack(hints, mins, n) * take / available
}

/// What column `i` gives up: what the columns up to and with it give up
/// beyond what the columns before it give up. This is the column's own
/// share, rounded down or up to a whole unit, and the shares of all columns
/// add up to `take`.
pub open spec fn share(hints: Seq<int>, mins: Seq<int>, take: int, available: int, i: int) -> int {
    given(hints, mins, take, available, i + 1) - given(hints, mins, take, available, i)
}

/// The columns where the slack pays for the growth: a column that has to
/// grow is as wide as its least width, and a column with slack is narrower
/// than its hint by its share of the growth.
pub open spec fn funded(hints: Seq<int>, mins: Seq<int>) -> Seq<int> {
    let n = hints.len() as int;
    let take = growth(hints, mins, n);
    let available = slack(hints, mins, n);
    Seq::new(
        hints.len(),
        |i: int| max_int(hints[i], mins[i]) - share(hints, mins, take, available, i),
    )
}

/// The sum of the first `n` widths, each scaled by `total / current` and
/// rounded down.
pub open spec fn scaled_sum(s: Seq<int>, current: int, total: int, n: int) -> int
    decreases n,
{
    if n <= 0 {
        0
    } else {
        scaled_sum(s, current, total, n - 1) + s[n - 1] * total / current
    }
}

/// The widths scaled so that they add up to `total`: each is scaled by
/// `total / current` and rounded down, and the last column takes what the
/// rounding left over.
pub open spec fn rescaled(s: Seq<int>, current: int, total: int) -> Seq<int> {
    Seq::new(
        s.len(),
        |i: int|
            if i == s.len() - 1 {
                total - scaled_sum(s, current, total, s.len() - 1)
            } else {
                s[i] * total / current
            },
    )
}

/// The fitted widths. Where no column has to grow, they are the hints.
/// Where the slack pays for the growth, the columns with slack give up
/// exactly what the others gain. Where it does not, the least widths are
/// scaled down to the sum of the hints.
pub open spec fn fitted(hints: Seq<int>, mins: Seq<int>) -> Seq<int> {
    let n = hints.len() as int;
    if growth(hints, mins, n) == 0 {
        hints
    } else if growth(hints, mins, n) <= slack(hints, mins, n) {
        funded(hints, mins)
    } else {
        rescaled(mins, sum_to(mins, n), sum_to(hints, n))
    }
}

pub open spec fn widths_ok(hints: Seq<int>, mins: Seq<int>) -> bool {
    &&& hints.len() == mins.len()
    &&& hints.len() <= MAX_COLUMNS
    &&& forall|i: int| 0 <= i < hints.len() ==> 0 <= #[trigger] hints[i] <= MAX_COORD
    &&& forall|i: int| 0 <= i < mins.len() ==> 0 <= #[trigger] mins[i] <= MAX_MIN_WIDTH
}

pub proof fn lemma_sum_range(s: Seq<int>, n: int, bound: int)
    requires
        0 <= n <= s.len(),
        0 <= bound,
        forall|i: int| 0 <= i < n ==> 0 <= #[trigger] s[i] <= bound,
    ensures
        0 <= sum_to(s, n) <= n * bound,
        forall|i: int| 0 <= i < n ==> #[trigger] s[i] <= sum_to(s, n),
    decreases n,
{
    if n > 0 {
        lemma_sum_range(s, n - 1, bound);
        assert(n * bound == (n - 1) * bound + bound) by (nonlinear_arith);
    }
}

pub proof fn lemma_growth_slack_range(hints: Seq<int>, mins: Seq<int>, n: int)
    requires
        widths_ok(hints, mins),
        0 <= n <= hints.len(),
    ensures
        0 <= growth(hints, mins, n) <= n * MAX_MIN_WIDTH,
        0 <= slack(hints, mins, n) <= n * MAX_COORD,
        growth(hints, mins, n) == 0 ==> forall|i: int|
            0 <= i < n ==> #[trigger] mins[i] <= hints[i],
        forall|i: int|
            0 <= i < n ==> max_int(#[trigger] hints[i] - mins[i], 0) <= slack(hints, mins, n),
    decreases n,
{
    if n > 0 {
        lemma_growth_slack_range(hints, mins, n - 1);
    }
}

/// Where the columns have to grow, some column is narrower than its least
/// width.
pub proof fn lemma_growth_positive(hints: Seq<int>, mins: Seq<int>, n: int)
    requires
        0 <= n <= hints.len(),
        growth(hints, mins, n) > 0,
    ensures
        exists|i: int| 0 <= i < n && #[trigger] mins[i] > hints[i],
    decreases n,
{
    if n > 0 {
        if !(mins[n - 1] > hints[n - 1]) {
            lemma_growth_positive(hints, mins, n - 1);
        }
    }
}

/// A sum of numbers that are not negative is no smaller than the sum of the
/// first of them.
pub proof fn lemma_sum_prefix(s: Seq<int>, k: int, n: int)
    requires
        0 <= k <= n <= s.len(),
        forall|i: int| 0 <= i < n ==> 0 <= #[trigger] s[i],
    ensures
        0 <= sum_to(s, k) <= sum_to(s, n),
    decreases n - k,
{
    if k < n {
        lemma_sum_prefix(s, k, n - 1);
    } else {
        lemma_sum_range_nonneg(s, k);
    }
}

proof fn lemma_sum_range_nonneg(s: Seq<int>, n: int)
    requires
        0 <= n <= s.len(),
        forall|i: int| 0 <= i < n ==> 0 <= #[trigger] s[i],
    ensures
        0 <= sum_to(s, n),
    decreases n,
{
    if n > 0 {
        lemma_sum_range_nonneg(s, n - 1);
    }
}

/// Rescaled widths add up to the total they were rescaled to.
pub proof fn lemma_rescaled_sum(s: Seq<int>, current: int, total: int)
    requires
        s.len() > 0,
    ensures
        sum_to(rescaled(s, current, total), s.len() as int) == total,
{
    let n = s.len() as int;
    lemma_rescaled_prefix(s, current, total, n - 1);
}

proof fn lemma_rescaled_prefix(s: Seq<int>, current: int, total: int, k: int)
    requires
        0 <= k < s.len(),
    ensures
        sum_to(rescaled(s, current, total), k) == scaled_sum(s, current, total, k),
    decreases k,
{
    if k > 0 {
        lemma_rescaled_prefix(s, current, total, k - 1);
    }
}

/// More slack gives up more, by no more than the slack that came with it;
/// and what it gives up more is its own share, rounded down or up.
pub proof fn lemma_share_step(before: int, own: int, take: int, available: int)
    requires
        0 <= before,
        0 <= own,
        0 <= take <= available,
        0 < available,
    ensures
        0 <= (before + own) * take / available - before * take / available <= own,
        own * take / available <= (before + own) * take / available - before * take
            / available <= own * take / available + 1,
{
    let x = before * take;
    let y = own * take;
    assert((before + own) * take == x + y) by (nonlinear_arith)
        requires
            x == before * take,
            y == own * take,
    ;
    assert(0 <= x && 0 <= y <= own * available) by (nonlinear_arith)
        requires
            0 <= before,
            0 <= own,
            0 <= take <= available,
            x == before * take,
            y == own * take,
    ;
    lemma_floor_sum(x, y, available);
    assert(y / available <= own) by (nonlinear_arith)
        requires
            0 <= y <= own * available,
            0 < available,
    ;
    assert((x + y) / available <= x / available + own) by (nonlinear_arith)
        requires
            0 <= x,
            0 <= y <= own * available,
            0 < available,
    ;
}

/// The quotient of a sum is the sum of the quotients, or one more.
proof fn lemma_floor_sum(x: int, y: int, d: int)
    by (nonlinear_arith)
    requires
        0 <= x,
        0 <= y,
        0 < d,
    ensures
        x / d + y / d <= (x + y) / d <= x / d + y / d + 1,
{
}

/// Where the slack pays for the growth, a column is no narrower than its
/// least width and no wider than the larger of its hint and its least
/// width; a column that has to grow is as wide as its least width; and a
/// column with slack gives up its own share of the growth, rounded down or
/// up to a whole unit.
pub proof fn lemma_fitted_covers_min(hints: Seq<int>, mins: Seq<int>, i: int)
    requires
        widths_ok(hints, mins),
        0 <= i < hints.len(),
        growth(hints, mins, hints.len() as int) <= slack(hints, mins, hints.len() as int),
    ensures
        mins[i] <= fitted(hints, mins)[i] <= max_int(hints[i], mins[i]),
        mins[i] >= hints[i] ==> fitted(hints, mins)[i] == mins[i],
        ({
            let take = growth(hints, mins, hints.len() as int);
            let available = slack(hints, mins, hints.len() as int);
            let own = (hints[i] - mins[i]) * take / available;
            mins[i] < hints[i] && take > 0 ==> hints[i] - own - 1 <= fitted(hints, mins)[i]
                <= hints[i] - own
        }),
{
    let n = hints.len() as int;
    let take = growth(hints, mins, n);
    let available = slack(hints, mins, n);
    lemma_growth_slack_range(hints, mins, n);
    lemma_growth_slack_range(hints, mins, i);
    if take > 0 {
        lemma_share_step(
            slack(hints, mins, i),
            max_int(hints[i] - mins[i], 0),
            take,
            available,
        );
        assert(slack(hints, mins, i + 1) == slack(hints, mins, i) + max_int(hints[i] - mins[i], 0));
    }
}

/// What the first `k` funded columns add up to: their hints and their
/// growth, less what they give up.
proof fn lemma_funded_prefix(hints: Seq<int>, mins: Seq<int>, k: int)
    requires
        hints.len() == mins.len(),
        0 <= k <= hints.len(),
        slack(hints, mins, hints.len() as int) > 0,
    ensures
        sum_to(funded(hints, mins), k) == sum_to(hints, k) + growth(hints, mins, k) - given(
            hints,
            mins,
            growth(hints, mins, hints.len() as int),
            slack(hints, mins, hints.len() as int),
            k,
        ),
    decreases k,
{
    if k > 0 {
        lemma_funded_prefix(hints, mins, k - 1);
    } else {
        let take = growth(hints, mins, hints.len() as int);
        let available = slack(hints, mins, hints.len() as int);
        assert(0 * take / available == 0) by (nonlinear_arith)
            requires
                available > 0,
        ;
    }
}

/// Fitting keeps the sum of the widths: the fitted widths add up to the sum
/// of the hints.
pub proof fn lemma_fitted_total(hints: Seq<int>, mins: Seq<int>)
    requires
        widths_ok(hints, mins),
    ensures
        sum_to(fitted(hints, mins), hints.len() as int) == sum_to(hints, hints.len() as int),
{
    let n = hints.len() as int;
    let take = growth(hints, mins, n);
    let available = slack(hints, mins, n);
    lemma_growth_slack_range(hints, mins, n);
    if take == 0 {
    } else if take <= available {
        lemma_funded_prefix(hints, mins, n);
        assert(available * take / available == take) by (nonlinear_arith)
            requires
                available > 0,
        ;
    } else {
        lemma_rescaled_sum(mins, sum_to(mins, n), sum_to(hints, n));
    }
}

/// Fits the columns: `hints[i]` is the width hint of column `i` and
/// `mins[i]` its least width.
pub fn fit_columns(hints: &Vec<i64>, mins: &Vec<i64>) -> (widths: Vec<i64>)
    requires
        widths_ok(ints(hints@), ints(mins@)),
    ensures
        ints(widths@) == fitted(ints(hints@), ints(mins@)),
        widths@.len() == hints@.len(),
        forall|i: int| 0 <= i < widths@.len() ==> 0 <= #[trigger] widths@[i] <= MAX_MIN_WIDTH,
        sum_to(ints(widths@), widths@.len() as int) == sum_to(ints(hints@), hints@.len() as int),
{
    proof {
        lemma_fitted_total(ints(hints@), ints(mins@));
    }
    let n = hints.len();
    let ghost h = ints(hints@);
    let ghost m = ints(mins@);
    let mut extra: i64 = 0;
    let mut available: i64 = 0;
    let mut total: i64 = 0;
    let mut least: i64 = 0;
    let mut i: usize = 0;
    while i < n
        invariant
            i <= n,
            n == hints@.len(),
            h == ints(hints@),
            m == ints(mins@),
            widths_ok(h, m),
            extra == growth(h, m, i as int),
            available == slack(h, m, i as int),
            total == sum_to(h, i as int),
            least == sum_to(m, i as int),
            0 <= extra <= i * MAX_MIN_WIDTH,
            0 <= available <= i * MAX_COORD,
            0 <= total <= i * MAX_COORD,
            0 <= least <= i * MAX_MIN_WIDTH,
        decreases n - i,
    {
        proof {
            lemma_growth_slack_range(h, m, i as int + 1);
            lemma_sum_range(h, i as int + 1, MAX_COORD as int);
            lemma_sum_range(m, i as int + 1, MAX_MIN_WIDTH as int);
        }
        if mins[i] > hints[i] {
            extra = extra + (mins[i] - hints[i]);
        } else {
            available = available + (hints[i] - mins[i]);
        }
        total = total + hints[i];
        least = least + mins[i];
        i += 1;
    }
    let mut widths: Vec<i64> = Vec::new();
    if extra == 0 {
        let mut k: usize = 0;
        while k < n
            invariant
                k <= n,
                n == hints@.len(),
                h == ints(hints@),
                widths_ok(h, m),
                widths@.len() == k,
                forall|j: int| 0 <= j < k ==> widths@[j] as int == h[j],
                forall|j: int| 0 <= j < k ==> 0 <= #[trigger] widths@[j] <= MAX_COORD,
            decreases n - k,
        {
            assert(0 <= h[k as int] <= MAX_COORD);
            widths.push(hints[k]);
            k += 1;
        }
        assert(ints(widths@) =~= h);
        return widths;
    }
    if extra <= available {
        let ghost f = funded(h, m);
        let mut before: i64 = 0;
        let mut gone: i64 = 0;
        let mut k: usize = 0;
        proof {
            assert(0 * (extra as int) / (available as int) == 0) by (nonlinear_arith)
                requires
                    available > 0,
            ;
        }
        while k < n
            invariant
                k <= n,
                n == hints@.len(),
                n == mins@.len(),
                h == ints(hints@),
                m == ints(mins@),
                widths_ok(h, m),
                available == slack(h, m, n as int),
                extra == growth(h, m, n as int),
                0 < extra <= available,
                f == funded(h, m),
                before == slack(h, m, k as int),
                0 <= before <= available,
                gone == given(h, m, extra as int, available as int, k as int),
                widths@.len() == k,
                forall|j: int| 0 <= j < k ==> #[trigger] widths@[j] as int == f[j],
                forall|j: int| 0 <= j < k ==> 0 <= #[trigger] widths@[j] <= MAX_MIN_WIDTH,
            decreases n - k,
        {
            assert(0 <= h[k as int] <= MAX_COORD && 0 <= m[k as int] <= MAX_MIN_WIDTH);
            let own = if hints[k] > mins[k] {
                hints[k] - mins[k]
            } else {
                0
            };
            proof {
                lemma_slack_prefix(h, m, k as int + 1, n as int);
                lemma_share_step(before as int, own as int, extra as int, available as int);
                assert(0 <= (before + own) * extra / (available as int) <= before + own)
                    by (nonlinear_arith)
                    requires
                        0 <= before + own,
                        0 < extra <= available,
                ;
            }
            let next = mul_div(before + own, extra, available);
            let w = max_i64(hints[k], mins[k]) - (next - gone);
            widths.push(w);
            before = before + own;
            gone = next;
            k += 1;
        }
        assert(ints(widths@) =~= f);
        return widths;
    }
    let ghost r = rescaled(m, least as int, total as int);
    let mut done: i64 = 0;
    let mut j: usize = 0;
    proof {
        lemma_growth_slack_range(h, m, n as int);
        lemma_growth_positive(h, m, n as int);
        let grown = choose|i: int| 0 <= i < n && #[trigger] m[i] > h[i];
        lemma_sum_range(m, n as int, MAX_MIN_WIDTH as int);
        assert(m[grown] <= sum_to(m, n as int));
        lemma_sum_range(h, n as int, MAX_COORD as int);
    }
    while j + 1 < n
        invariant
            j < n,
            j == widths@.len(),
            n == mins@.len(),
            n <= MAX_COLUMNS,
            m == ints(mins@),
            0 < least,
            least == sum_to(m, n as int),
            0 <= total <= n * MAX_COORD,
            r == rescaled(m, least as int, total as int),
            forall|q: int| 0 <= q < n ==> 0 <= #[trigger] m[q] <= least,
            forall|q: int| 0 <= q < j ==> #[trigger] widths@[q] as int == r[q],
            forall|q: int| 0 <= q < j ==> 0 <= #[trigger] widths@[q] <= total,
            done == scaled_sum(m, least as int, total as int, j as int),
            0 <= done <= total,
            done * least <= total * sum_to(m, j as int),
        decreases n - j,
    {
        let w = mins[j];
        proof {
            assert(m[j as int] == w);
            assert(0 <= w as int * total as int / (least as int) <= total) by (nonlinear_arith)
                requires
                    0 <= w <= least,
                    0 < least,
                    0 <= total,
            ;
            lemma_sum_prefix(m, j as int + 1, n as int);
            let q = w as int * total as int / (least as int);
            let before = sum_to(m, j as int);
            assert((done + q) * least <= total * (before + w) && done + q <= total)
                by (nonlinear_arith)
                requires
                    q == w as int * total as int / (least as int),
                    0 < least,
                    0 <= w,
                    0 <= total,
                    0 <= q,
                    0 <= done,
                    done * least <= total * before,
                    before + w <= least,
            {
            }
        }
        let scaled_w = mul_div(w, total, least);
        widths.push(scaled_w);
        done = done + scaled_w;
        j += 1;
    }
    widths.push(total - done);
    proof {
        assert(total <= MAX_MIN_WIDTH) by (nonlinear_arith)
            requires
                0 <= total <= n * MAX_COORD,
                n <= MAX_COLUMNS,
        ;
        assert(ints(widths@) =~= r);
    }
    widths
}

/// The slack of the first columns is no more than the slack of all.
proof fn lemma_slack_prefix(hints: Seq<int>, mins: Seq<int>, k: int, n: int)
    requires
        0 <= k <= n <= hints.len(),
        hints.len() == mins.len(),
    ensures
        0 <= slack(hints, mins, k) <= slack(hints, mins, n),
    decreases n - k,
{
    if k < n {
        lemma_slack_prefix(hints, mins, k, n - 1);
    } else {
        lemma_slack_nonneg(hints, mins, k);
    }
}

proof fn lemma_slack_nonneg(hints: Seq<int>, mins: Seq<int>, n: int)
    requires
        0 <= n <= hints.len(),
    ensures
        0 <= slack(hints, mins, n),
    decreases n,
{
    if n > 0 {
        lemma_slack_nonneg(hints, mins, n - 1);
    }
}

} // verus!
