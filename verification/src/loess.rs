use vstd::prelude::*;

verus! {

/// The observations that one local fit looks at. Observations are numbered from 1 to `n`;
/// a fit may be asked for a position among them, for position 0 before the first one, or
/// for a position behind the last one.
#[derive(Clone, Copy, Debug, PartialEq, Eq, Structural)]
pub struct Neighbourhood {
    /// First observation of the window.
    pub left: usize,
    /// Last observation of the window.
    pub right: usize,
    /// Distance at which the distance weight reaches zero.
    pub reach: usize,
}

/// Number of observations in a window of the given length over `n` observations.
pub open spec fn window_size(n: int, length: int) -> int {
    if length < n {
        length
    } else {
        n
    }
}

/// First observation of the window for a fit at `pos`: the window is centred on `pos` as far
/// as the ends of the series allow. With an even length the extra observation lies to the
/// right.
pub open spec fn window_left(n: int, length: int, pos: int) -> int {
    let centred = pos - (length + 1) / 2 + 1;
    let last_start = n - window_size(n, length) + 1;
    if centred < 1 {
        1
    } else if centred > last_start {
        last_start
    } else {
        centred
    }
}

/// Last observation of the window for a fit at `pos`.
pub open spec fn window_right(n: int, length: int, pos: int) -> int {
    window_left(n, length, pos) + window_size(n, length) - 1
}

/// Distance from `pos` at which the distance weight reaches zero: the distance to the
/// farther end of the window, widened by half the excess of a window that is longer than the
/// series.
pub open spec fn window_reach(n: int, length: int, pos: int) -> int {
    let to_left = pos - window_left(n, length, pos);
    let to_right = window_right(n, length, pos) - pos;
    let span = if to_left > to_right {
        to_left
    } else {
        to_right
    };
    if length > n {
        span + (length - n) / 2
    } else {
        span
    }
}

/// Distance between two positions.
pub open spec fn distance(a: int, b: int) -> int {
    if a < b {
        b - a
    } else {
        a - b
    }
}

/// Law: the window lies inside the series and holds `length` observations, or all of them
/// when the series is shorter.
pub proof fn lemma_window_bounds(n: int, length: int, pos: int)
    requires
        n >= 1,
        length >= 1,
    ensures
        1 <= window_left(n, length, pos) <= window_right(n, length, pos) <= n,
        window_right(n, length, pos) - window_left(n, length, pos) + 1 == window_size(n, length),
{
}

/// Law: a fit at an observation looks at that observation.
pub proof fn lemma_window_holds_position(n: int, length: int, pos: int)
    requires
        n >= 1,
        length >= 1,
        1 <= pos <= n,
    ensures
        window_left(n, length, pos) <= pos <= window_right(n, length, pos),
{
}

/// Law: the window holds the nearest neighbours of the position. No observation outside
/// the window is closer to the position than one inside it.
pub proof fn lemma_window_is_nearest(n: int, length: int, pos: int, inside: int, outside: int)
    requires
        n >= 1,
        length >= 1,
        window_left(n, length, pos) <= inside <= window_right(n, length, pos),
        1 <= outside <= n,
        outside < window_left(n, length, pos) || window_right(n, length, pos) < outside,
    ensures
        distance(inside, pos) <= distance(outside, pos),
{
}

/// Law: every observation of the window is within reach of the position, and when the window
/// fits into the series the farther end of the window is exactly at reach.
pub proof fn lemma_reach_covers_window(n: int, length: int, pos: int, inside: int)
    requires
        n >= 1,
        length >= 1,
        window_left(n, length, pos) <= inside <= window_right(n, length, pos),
    ensures
        distance(inside, pos) <= window_reach(n, length, pos),
        length <= n ==> window_reach(n, length, pos) == distance(
            window_left(n, length, pos),
            pos,
        ) || window_reach(n, length, pos) == distance(window_right(n, length, pos), pos),
{
}

/// Chooses the observations for a fit at `pos` among `n`, with a window of `length`. The
/// position may lie at an observation, at 0 before the first one, or any distance behind
/// the last one; positions are counted from 1, so 0 is the only one before the series.
/// Beyond the ends the window is the one nearest to the position.
pub fn neighbourhood(n: usize, length: usize, pos: usize) -> (r: Neighbourhood)
    requires
        1 <= n <= isize::MAX,
        length >= 1,
        pos <= isize::MAX + 1,
    ensures
        r.left == window_left(n as int, length as int, pos as int),
        r.right == window_right(n as int, length as int, pos as int),
        r.reach == window_reach(n as int, length as int, pos as int),
{
    let size = if length < n {
        length
    } else {
        n
    };
    // (length + 1) / 2 without overflow
    let half = length / 2 + length % 2;
    let last_start = n - size + 1;
    let left = if pos < half {
        1
    } else if pos - half + 1 > last_start {
        last_start
    } else {
        pos - half + 1
    };
    let right = left + size - 1;
    let to_right = if right > pos {
        right - pos
    } else {
        0
    };
    let to_left = if pos > left {
        pos - left
    } else {
        0
    };
    let span = if to_left > to_right {
        to_left
    } else {
        to_right
    };
    let reach = if length > n {
        // the span is at most isize::MAX + 1 and the excess at most isize::MAX
        span + (length - n) / 2
    } else {
        span
    };
    Neighbourhood { left, right, reach }
}

/// Distance between positions that are fitted exactly: the stride asked for, but never more
/// than the length of the series allows.
pub open spec fn stride(n: int, jump: int) -> int {
    if n < 2 {
        1
    } else if jump < n - 1 {
        jump
    } else {
        n - 1
    }
}

/// Whether a position is fitted exactly: every `stride`-th position from the first, and the
/// last one.
pub open spec fn is_anchor(n: int, jump: int, pos: int) -> bool {
    1 <= pos <= n && ((pos - 1) % stride(n, jump) == 0 || pos == n)
}

/// Number of positions that are fitted exactly.
pub open spec fn anchor_count(n: int, jump: int) -> int {
    let s = stride(n, jump);
    if (n - 1) % s == 0 {
        (n - 1) / s + 1
    } else {
        (n - 1) / s + 2
    }
}

/// The positions that are fitted exactly, in ascending order.
pub open spec fn anchor_seq(n: int, jump: int) -> Seq<usize> {
    Seq::new(
        anchor_count(n, jump) as nat,
        |i: int|
            if 1 + i * stride(n, jump) <= n {
                (1 + i * stride(n, jump)) as usize
            } else {
                n as usize
            },
    )
}

/// A grid position `1 + i * s` lies in the series exactly when `i` is at most `(n - 1) / s`.
proof fn lemma_grid_bound(n: int, s: int, i: int)
    requires
        n >= 1,
        s >= 1,
        i >= 0,
    ensures
        (n - 1) / s >= 0,
        i <= (n - 1) / s <==> 1 + i * s <= n,
{
    let q = (n - 1) / s;
    vstd::arithmetic::div_mod::lemma_fundamental_div_mod(n - 1, s);
    vstd::arithmetic::div_mod::lemma_mod_bound(n - 1, s);
    assert(s * q == q * s) by (nonlinear_arith);
    assert(q >= 0) by (nonlinear_arith)
        requires
            q * s + (n - 1) % s == n - 1,
            0 <= (n - 1) % s < s,
            n - 1 >= 0,
            s > 0,
    ;
    if i <= q {
        assert(i * s <= q * s) by (nonlinear_arith)
            requires
                0 <= i <= q,
                s > 0,
        ;
    } else {
        assert(i * s >= (q + 1) * s) by (nonlinear_arith)
            requires
                i >= q + 1,
                s > 0,
        ;
        assert((q + 1) * s == q * s + s) by (nonlinear_arith);
    }
}

/// Law: the exactly fitted positions ascend strictly, start at the first observation, end
/// at the last, are never more than `jump` apart, and are the anchors and no others.
pub proof fn lemma_anchor_seq(n: int, jump: int)
    requires
        1 <= n <= usize::MAX,
        jump >= 1,
    ensures
        anchor_seq(n, jump).len() >= 1,
        anchor_seq(n, jump).first() == 1,
        anchor_seq(n, jump).last() == n,
        forall|i: int, j: int|
            0 <= i < j < anchor_seq(n, jump).len() ==> anchor_seq(n, jump)[i] < anchor_seq(
                n,
                jump,
            )[j],
        forall|i: int|
            0 <= i < anchor_seq(n, jump).len() - 1 ==> #[trigger] anchor_seq(n, jump)[i + 1]
                - anchor_seq(n, jump)[i] <= jump,
        forall|pos: int|
            1 <= pos <= n ==> (is_anchor(n, jump, pos) <==> exists|i: int|
                0 <= i < anchor_seq(n, jump).len() && #[trigger] anchor_seq(n, jump)[i] == pos),
{
    let s = stride(n, jump);
    let q = (n - 1) / s;
    let a = anchor_seq(n, jump);
    lemma_grid_bound(n, s, 0);
    vstd::arithmetic::div_mod::lemma_fundamental_div_mod(n - 1, s);
    vstd::arithmetic::div_mod::lemma_mod_bound(n - 1, s);
    assert(s * q == q * s) by (nonlinear_arith);
    assert(a.first() == 1) by {
        assert(0 * s == 0) by (nonlinear_arith);
    }
    assert(a.last() == n) by {
        lemma_grid_bound(n, s, q);
        lemma_grid_bound(n, s, q + 1);
    }
    assert forall|i: int, j: int| 0 <= i < j < a.len() implies a[i] < a[j] by {
        lemma_grid_bound(n, s, i);
        lemma_grid_bound(n, s, j);
        assert(i * s + s <= j * s) by (nonlinear_arith)
            requires
                i + 1 <= j,
                s > 0,
        ;
        assert((q + 1) * s == q * s + s) by (nonlinear_arith);
    }
    assert forall|i: int| 0 <= i < a.len() - 1 implies #[trigger] a[i + 1] - a[i] <= jump by {
        lemma_grid_bound(n, s, i);
        lemma_grid_bound(n, s, i + 1);
        assert((i + 1) * s == i * s + s) by (nonlinear_arith);
    }
    assert forall|pos: int| 1 <= pos <= n implies (is_anchor(n, jump, pos) <==> exists|i: int|
        0 <= i < a.len() && #[trigger] a[i] == pos) by {
        if is_anchor(n, jump, pos) {
            if (pos - 1) % s == 0 {
                let i = (pos - 1) / s;
                vstd::arithmetic::div_mod::lemma_fundamental_div_mod(pos - 1, s);
                assert(s * i == i * s) by (nonlinear_arith);
                lemma_grid_bound(pos, s, 0);
                lemma_grid_bound(n, s, i);
                assert(a[i] == pos);
            } else {
                assert(pos == n);
                assert(a[a.len() - 1] == n);
            }
        }
        if exists|i: int| 0 <= i < a.len() && #[trigger] a[i] == pos {
            let i = choose|i: int| 0 <= i < a.len() && #[trigger] a[i] == pos;
            if 1 + i * s <= n {
                assert(pos - 1 == i * s);
                vstd::arithmetic::div_mod::lemma_mod_multiples_basic(i, s);
            } else {
                assert(pos == n);
            }
        }
    }
}

/// Law: every position gets a value. It is an anchor, or it lies between two neighbouring
/// anchors, along whose line it is interpolated.
pub proof fn lemma_position_is_covered(n: int, jump: int, pos: int)
    requires
        1 <= n <= usize::MAX,
        jump >= 1,
        1 <= pos <= n,
    ensures
        is_anchor(n, jump, pos) || exists|i: int|
            0 <= i < anchor_seq(n, jump).len() - 1 && #[trigger] anchor_seq(n, jump)[i] < pos
                < anchor_seq(n, jump)[i + 1],
{
    if !is_anchor(n, jump, pos) {
        let s = stride(n, jump);
        let a = anchor_seq(n, jump);
        let i = (pos - 1) / s;
        vstd::arithmetic::div_mod::lemma_fundamental_div_mod(pos - 1, s);
        vstd::arithmetic::div_mod::lemma_mod_bound(pos - 1, s);
        assert(s * i == i * s) by (nonlinear_arith);
        assert((i + 1) * s == i * s + s) by (nonlinear_arith);
        lemma_grid_bound(pos, s, 0);
        lemma_grid_bound(n, s, i);
        lemma_grid_bound(n, s, i + 1);
        let q = (n - 1) / s;
        vstd::arithmetic::div_mod::lemma_fundamental_div_mod(n - 1, s);
        vstd::arithmetic::div_mod::lemma_mod_bound(n - 1, s);
        assert(s * q == q * s) by (nonlinear_arith);
        assert(i <= q);
        if i == q {
            assert((n - 1) % s != 0);
            assert(a[i + 1] == n);
        }
        assert(a[i] == 1 + i * s);
        assert(a[i] < pos < a[i + 1]);
    }
}

/// Lists the positions that a smoother over `n` observations fits exactly; the positions
/// between two of them are interpolated along the line through their fitted values.
pub fn anchors(n: usize, jump: usize) -> (r: Vec<usize>)
    requires
        1 <= n <= isize::MAX,
        jump >= 1,
    ensures
        r@ == anchor_seq(n as int, jump as int),
{
    let s: usize = if n < 2 {
        1
    } else if jump < n - 1 {
        jump
    } else {
        n - 1
    };
    let ghost q = (n as int - 1) / (s as int);
    proof {
        lemma_grid_bound(n as int, s as int, 0);
    }
    let mut out: Vec<usize> = Vec::new();
    let mut pos: usize = 1;
    while pos <= n
        invariant
            1 <= n <= isize::MAX,
            1 <= s <= isize::MAX,
            s == stride(n as int, jump as int),
            q == (n as int - 1) / (s as int),
            q >= 0,
            pos == 1 + out.len() * s,
            out.len() <= q + 1,
            pos <= n + s,
            forall|i: int| 0 <= i < out.len() ==> out[i] == 1 + i * s && 1 + i * s <= n,
        decreases n + s - pos,
    {
        proof {
            let k = out.len() as int;
            lemma_grid_bound(n as int, s as int, k);
            assert((k + 1) * s == k * s + s) by (nonlinear_arith);
        }
        out.push(pos);
        pos = pos + s;
    }
    proof {
        lemma_grid_bound(n as int, s as int, out.len() as int);
        vstd::arithmetic::div_mod::lemma_fundamental_div_mod(n as int - 1, s as int);
        assert(s * q == q * s) by (nonlinear_arith);
    }
    if (n - 1) % s != 0 {
        out.push(n);
    }
    proof {
        let a = anchor_seq(n as int, jump as int);
        assert(out@.len() == a.len());
        assert forall|i: int| 0 <= i < out@.len() implies out@[i] == a[i] by {
            lemma_grid_bound(n as int, s as int, i);
        }
        assert(out@ =~= a);
    }
    out
}

} // verus!
