use vstd::prelude::*;

verus! {

/// The smallest odd integer that is at least `v`.
pub open spec fn odd_from(v: int) -> int {
    if v % 2 == 0 {
        v + 1
    } else {
        v
    }
}

/// The trend window that goes with a period and a seasonal window: the smallest odd integer
/// that is at least `1.5 * period / (1 - 1.5 / s)` and at least 3, where `s` is the seasonal
/// window rounded up to odd. The quotient is `3 * period * s / (2 * s - 3)`; for `s == 1` it is
/// negative, and the floor of 3 decides.
pub open spec fn trend_length_for(period: int, seasonal: int) -> int {
    let s = odd_from(seasonal);
    let d = 2 * s - 3;
    if d <= 0 {
        3
    } else {
        let t = odd_from((3 * period * s + d - 1) / d);
        if t < 3 {
            3
        } else {
            t
        }
    }
}

/// The low-pass window that goes with a period: the smallest odd integer that is at least the
/// period.
pub open spec fn low_pass_length_for(period: int) -> int {
    odd_from(period)
}

/// The stride that goes with a window when none is chosen: a tenth of the window, rounded up.
pub open spec fn jump_for(length: int) -> int {
    (length + 9) / 10
}

/// Inner passes per round when none are chosen.
pub open spec fn inner_loops_for(robust: bool) -> int {
    if robust {
        2
    } else {
        5
    }
}

/// Robustness rounds when none are chosen.
pub open spec fn outer_loops_for(robust: bool) -> int {
    if robust {
        15
    } else {
        0
    }
}

/// Law: the default trend window is odd, at least 3, not below the quotient it is derived
/// from, and the next smaller odd number is either below 3 or below that quotient.
pub proof fn lemma_trend_length_is_least(period: int, seasonal: int)
    requires
        period >= 1,
        seasonal >= 1,
    ensures
        ({
            let s = odd_from(seasonal);
            let d = 2 * s - 3;
            let t = trend_length_for(period, seasonal);
            &&& t % 2 == 1
            &&& t >= 3
            &&& d > 0 ==> t * d >= 3 * period * s
            &&& t > 3 ==> d > 0 && (t - 2) * d < 3 * period * s
        }),
{
    let s = odd_from(seasonal);
    let d = 2 * s - 3;
    if d > 0 {
        let num = 3 * period * s;
        let c = (num + d - 1) / d;
        lemma_ceil_div(num, d);
        let t = odd_from(c);
        assert(t * d >= c * d) by (nonlinear_arith)
            requires
                t >= c,
                d > 0,
        ;
        if t >= 3 {
            if t > 3 {
                // t - 2 <= c - 1, and (c - 1) * d < num
                assert((t - 2) * d <= (c - 1) * d) by (nonlinear_arith)
                    requires
                        t - 2 <= c - 1,
                        d > 0,
                ;
            }
        } else {
            assert(3 * d >= t * d) by (nonlinear_arith)
                requires
                    t <= 3,
                    d > 0,
            ;
        }
    }
}

/// Law: the derived trend window is at least 3 and at most three times the period plus
/// one, whatever the seasonal window. So it is a number that fits wherever the length of a
/// series with two cycles of the period fits.
pub proof fn lemma_trend_length_bounds(period: int, seasonal: int)
    requires
        period >= 0,
    ensures
        3 <= trend_length_for(period, seasonal),
        trend_length_for(period, seasonal) == 3 || trend_length_for(period, seasonal) <= 3
            * period + 1,
{
    let s = odd_from(seasonal);
    let d = 2 * s - 3;
    if d > 0 {
        let num = 3 * period * s;
        // the quotient is at most 3 * period, because s <= 2 * s - 3
        assert(num <= 3 * period * d) by (nonlinear_arith)
            requires
                num == 3 * period * s,
                s <= d,
                period >= 0,
        ;
        assert(num + d - 1 < (3 * period + 1) * d) by (nonlinear_arith)
            requires
                num <= 3 * period * d,
                d > 0,
        ;
        vstd::arithmetic::div_mod::lemma_div_by_multiple_is_strongly_ordered(
            num + d - 1,
            (3 * period + 1) * d,
            3 * period + 1,
            d,
        );
        vstd::arithmetic::div_mod::lemma_div_by_multiple(3 * period + 1, d);
    }
}

/// Rounding a quotient up: `(num + d - 1) / d` is the least integer whose product with `d`
/// reaches `num`.
proof fn lemma_ceil_div(num: int, d: int)
    requires
        d > 0,
    ensures
        ((num + d - 1) / d) * d >= num,
        ((num + d - 1) / d - 1) * d < num,
{
    let c = (num + d - 1) / d;
    vstd::arithmetic::div_mod::lemma_fundamental_div_mod(num + d - 1, d);
    vstd::arithmetic::div_mod::lemma_mod_bound(num + d - 1, d);
    assert(d * c == c * d) by (nonlinear_arith);
    assert((c - 1) * d == c * d - d) by (nonlinear_arith);
}

/// Rounds up to odd.
pub fn odd_at_least(v: usize) -> (r: usize)
    requires
        v < usize::MAX,
    ensures
        r == odd_from(v as int),
{
    if v % 2 == 0 {
        v + 1
    } else {
        v
    }
}

/// Computes the default trend window for a period and a seasonal window.
pub fn default_trend_length(period: usize, seasonal: usize) -> (r: usize)
    requires
        period <= isize::MAX / 2,
    ensures
        r == trend_length_for(period as int, seasonal as int),
{
    let s: u128 = if seasonal % 2 == 0 {
        seasonal as u128 + 1
    } else {
        seasonal as u128
    };
    if s < 3 {
        return 3;
    }
    let d: u128 = 2 * s - 3;
    let p: u128 = period as u128;
    assert(3 * p * s <= 3 * 0x4000_0000_0000_0000 * 0x1_0000_0000_0000_0000) by (nonlinear_arith)
        requires
            0 <= p <= 0x4000_0000_0000_0000,
            0 <= s <= 0x1_0000_0000_0000_0000,
    ;
    let num: u128 = 3 * p * s;
    let c: u128 = (num + d - 1) / d;
    proof {
        lemma_trend_length_bounds(period as int, seasonal as int);
    }
    let t: u128 = if c % 2 == 0 {
        c + 1
    } else {
        c
    };
    if t < 3 {
        3
    } else {
        t as usize
    }
}

/// Computes the default low-pass window for a period.
pub fn default_low_pass_length(period: usize) -> (r: usize)
    requires
        period < usize::MAX,
    ensures
        r == low_pass_length_for(period as int),
{
    odd_at_least(period)
}

/// Computes the default stride for a window.
pub fn default_jump(length: usize) -> (r: usize)
    ensures
        r == jump_for(length as int),
        length >= 1 ==> r >= 1,
{
    if length % 10 == 0 {
        length / 10
    } else {
        length / 10 + 1
    }
}

} // verus!
