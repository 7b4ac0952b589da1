use vstd::prelude::*;

verus! {

/// Number of observations whose index is `phase` modulo `period`, in a series of `n`.
pub open spec fn subseries_len(n: int, period: int, phase: int) -> int {
    if phase < n {
        (n - phase - 1) / period + 1
    } else {
        0
    }
}

/// Index in the series of member `i` of the cycle-subseries `phase`.
pub open spec fn source_index(period: int, phase: int, i: int) -> int {
    phase + i * period
}

/// Index in the extended buffer of entry `m` of the smoothed cycle-subseries `phase`. Entry 0
/// is the value extrapolated before the first member, entry `i + 1` belongs to member `i`, and
/// the entry after the last member is the value extrapolated behind it.
pub open spec fn slot_index(period: int, phase: int, m: int) -> int {
    phase + m * period
}

/// Length of the extended buffer: one cycle more than the series at each end.
pub open spec fn extended_len(n: int, period: int) -> int {
    n + 2 * period
}

/// Division facts that the laws below share.
proof fn lemma_quotient(a: int, d: int)
    requires
        a >= 0,
        d >= 1,
    ensures
        a / d >= 0,
        (a / d) * d <= a < (a / d) * d + d,
        a == (a / d) * d + a % d,
        0 <= a % d < d,
{
    vstd::arithmetic::div_mod::lemma_fundamental_div_mod(a, d);
    vstd::arithmetic::div_mod::lemma_mod_bound(a, d);
    assert(d * (a / d) == (a / d) * d) by (nonlinear_arith);
    assert(a / d >= 0) by (nonlinear_arith)
        requires
            (a / d) * d + a % d == a,
            0 <= a % d < d,
            a >= 0,
            d > 0,
    ;
}

/// `q * d + r` with `0 <= r < d` has quotient `q` and remainder `r`.
proof fn lemma_split(q: int, d: int, r: int)
    requires
        d >= 1,
        0 <= r < d,
    ensures
        (q * d + r) / d == q,
        (q * d + r) % d == r,
{
    vstd::arithmetic::div_mod::lemma_fundamental_div_mod_converse(q * d + r, d, q, r);
}

/// Law: member `i` of a cycle-subseries lies in the series exactly when `i` is below the
/// length of the subseries.
pub proof fn lemma_member_in_series(n: int, period: int, phase: int, i: int)
    requires
        period >= 1,
        0 <= phase < period,
        i >= 0,
        n >= 0,
    ensures
        subseries_len(n, period, phase) >= 0,
        i < subseries_len(n, period, phase) <==> source_index(period, phase, i) < n,
{
    if phase < n {
        let a = n - phase - 1;
        let q = a / period;
        lemma_quotient(a, period);
        if i <= q {
            assert(i * period <= q * period) by (nonlinear_arith)
                requires
                    0 <= i <= q,
                    period > 0,
            ;
        } else {
            assert(i * period >= (q + 1) * period) by (nonlinear_arith)
                requires
                    i >= q + 1,
                    period > 0,
            ;
            assert((q + 1) * period == q * period + period) by (nonlinear_arith);
        }
    } else {
        assert(i * period >= 0) by (nonlinear_arith)
            requires
                i >= 0,
                period > 0,
        ;
    }
}

/// Law: the cycle-subseries partition the series. Observation `t` is member `t / period` of
/// the subseries `t % period`, and of no other.
pub proof fn lemma_subseries_partition(n: int, period: int, t: int)
    requires
        period >= 1,
        0 <= t < n,
    ensures
        0 <= t % period < period,
        0 <= t / period < subseries_len(n, period, t % period),
        source_index(period, t % period, t / period) == t,
        forall|phase: int, i: int|
            0 <= phase < period && i >= 0 && #[trigger] source_index(period, phase, i) == t ==> phase
                == t % period && i == t / period,
{
    lemma_quotient(t, period);
    lemma_member_in_series(n, period, t % period, t / period);
    assert forall|phase: int, i: int|
        0 <= phase < period && i >= 0 && #[trigger] source_index(period, phase, i)
            == t implies phase == t % period && i == t / period by {
        lemma_split(i, period, phase);
    }
}

/// Law: when the series holds two full cycles, every cycle-subseries has two members or
/// more.
pub proof fn lemma_subseries_has_two(n: int, period: int, phase: int)
    requires
        period >= 1,
        0 <= phase < period,
        n >= 2 * period,
    ensures
        subseries_len(n, period, phase) >= 2,
{
    lemma_member_in_series(n, period, phase, 1);
    assert(1 * period == period) by (nonlinear_arith);
}

/// Law: the smoothed cycle-subseries, each with its two extrapolated ends, fill the extended
/// buffer exactly. Entry `m` of a subseries lies in the buffer when `m` is at most the length
/// of the subseries plus one; buffer index `s` holds entry `s / period` of the subseries
/// `s % period`, and no other entry.
pub proof fn lemma_slots_fill_buffer(n: int, period: int, s: int)
    requires
        period >= 1,
        n >= period,
        0 <= s < extended_len(n, period),
    ensures
        0 <= s % period < period,
        0 <= s / period <= subseries_len(n, period, s % period) + 1,
        slot_index(period, s % period, s / period) == s,
        forall|phase: int, m: int|
            0 <= phase < period && m >= 0 && #[trigger] slot_index(period, phase, m) == s ==> phase
                == s % period && m == s / period,
{
    lemma_quotient(s, period);
    let phase = s % period;
    let m = s / period;
    lemma_slot_in_buffer(n, period, phase, m);
    assert forall|ph: int, k: int|
        0 <= ph < period && k >= 0 && #[trigger] slot_index(period, ph, k) == s implies ph == s
            % period && k == s / period by {
        lemma_split(k, period, ph);
    }
}

/// Law: entry `m` of a smoothed cycle-subseries has a place in the extended buffer exactly
/// when `m` is at most the length of the subseries plus one.
pub proof fn lemma_slot_in_buffer(n: int, period: int, phase: int, m: int)
    requires
        period >= 1,
        n >= period,
        0 <= phase < period,
        m >= 0,
    ensures
        m <= subseries_len(n, period, phase) + 1 <==> slot_index(period, phase, m)
            < extended_len(n, period),
{
    if m >= 2 {
        lemma_member_in_series(n, period, phase, m - 2);
        assert(m * period == (m - 2) * period + 2 * period) by (nonlinear_arith);
    } else {
        lemma_member_in_series(n, period, phase, 0);
        assert(0 * period == 0) by (nonlinear_arith);
        assert(1 * period == period) by (nonlinear_arith);
    }
}

/// Law: the buffer is the series moved by one cycle. The smoothed value of member `i` of a
/// subseries sits one period behind the index of that member in the series, so the
/// entries `period .. period + n` of the buffer line up with the series.
pub proof fn lemma_fixed_offset(period: int, phase: int, i: int)
    ensures
        slot_index(period, phase, i + 1) == source_index(period, phase, i) + period,
{
    assert((i + 1) * period == i * period + period) by (nonlinear_arith);
}

/// Counts the members of a cycle-subseries.
pub fn cycle_len(n: usize, period: usize, phase: usize) -> (r: usize)
    requires
        period >= 1,
        phase < period,
    ensures
        r == subseries_len(n as int, period as int, phase as int),
{
    if phase < n {
        (n - phase - 1) / period + 1
    } else {
        0
    }
}

/// Finds member `i` of a cycle-subseries in the series.
pub fn source(n: usize, period: usize, phase: usize, i: usize) -> (r: usize)
    requires
        period >= 1,
        phase < period,
        i < subseries_len(n as int, period as int, phase as int),
    ensures
        r == source_index(period as int, phase as int, i as int),
        r < n,
{
    proof {
        lemma_member_in_series(n as int, period as int, phase as int, i as int);
        assert(i * period >= 0) by (nonlinear_arith)
            requires
                i >= 0,
                period > 0,
        ;
    }
    phase + i * period
}

/// Finds the place of entry `m` of a smoothed cycle-subseries in the extended buffer.
pub fn slot(n: usize, period: usize, phase: usize, m: usize) -> (r: usize)
    requires
        period >= 1,
        phase < period,
        period <= n,
        n + 2 * period <= usize::MAX,
        m <= subseries_len(n as int, period as int, phase as int) + 1,
    ensures
        r == slot_index(period as int, phase as int, m as int),
        r < extended_len(n as int, period as int),
{
    proof {
        lemma_slot_in_buffer(n as int, period as int, phase as int, m as int);
        assert(m * period >= 0) by (nonlinear_arith)
            requires
                m >= 0,
                period > 0,
        ;
    }
    phase + m * period
}

/// The cycle-subseries of a series, as sequences: entry `phase` holds the observations at the
/// indices `phase`, `phase + period`, `phase + 2 * period` and so on.
pub open spec fn split_seq<T>(series: Seq<T>, period: int) -> Seq<Seq<T>> {
    Seq::new(
        period as nat,
        |phase: int|
            Seq::new(
                subseries_len(series.len() as int, period, phase) as nat,
                |i: int| series[source_index(period, phase, i)],
            ),
    )
}

/// The extended buffer that smoothed cycle-subseries make up: index `s` holds entry
/// `s / period` of the subseries `s % period`.
pub open spec fn interleave_seq<T>(parts: Seq<Seq<T>>, n: int) -> Seq<T> {
    Seq::new(
        extended_len(n, parts.len() as int) as nat,
        |s: int| parts[s % (parts.len() as int)][s / (parts.len() as int)],
    )
}

/// Whether `parts` holds one smoothed subseries for each phase of a series of `n`
/// observations, each with one entry more at either end.
pub open spec fn extended_parts<T>(parts: Seq<Seq<T>>, n: int) -> bool {
    &&& parts.len() >= 1
    &&& n >= parts.len()
    &&& forall|phase: int|
        0 <= phase < parts.len() ==> (#[trigger] parts[phase]).len() == subseries_len(
            n,
            parts.len() as int,
            phase,
        ) + 2
}

/// The contents of a list of vectors, as sequences.
pub open spec fn rows<T>(parts: Seq<Vec<T>>) -> Seq<Seq<T>> {
    Seq::new(parts.len(), |j: int| parts[j]@)
}

/// Law: in the extended buffer, entry `m` of the subseries `phase` stands at its slot.
pub proof fn lemma_interleave_places<T>(parts: Seq<Seq<T>>, n: int, phase: int, m: int)
    requires
        extended_parts(parts, n),
        0 <= phase < parts.len(),
        0 <= m < parts[phase].len(),
    ensures
        0 <= slot_index(parts.len() as int, phase, m) < interleave_seq(parts, n).len(),
        interleave_seq(parts, n)[slot_index(parts.len() as int, phase, m)] == parts[phase][m],
{
    let period = parts.len() as int;
    lemma_slot_in_buffer(n, period, phase, m);
    lemma_split(m, period, phase);
    assert(m * period >= 0) by (nonlinear_arith)
        requires
            m >= 0,
            period > 0,
    ;
}

/// Law: the extended buffer lines up with the series, one cycle behind. The entry for
/// observation `t` stands at index `t + period`, so the stretch `period .. period + n` of the
/// buffer is the smoothed series without the extrapolated ends.
pub proof fn lemma_buffer_lines_up<T>(parts: Seq<Seq<T>>, n: int, t: int)
    requires
        extended_parts(parts, n),
        0 <= t < n,
    ensures
        0 <= t + parts.len() < interleave_seq(parts, n).len(),
        0 <= t % (parts.len() as int) < parts.len(),
        0 <= t / (parts.len() as int) + 1 < parts[t % (parts.len() as int)].len(),
        interleave_seq(parts, n)[t + parts.len()] == parts[t % (parts.len() as int)][t / (
        parts.len() as int) + 1],
{
    let period = parts.len() as int;
    lemma_subseries_partition(n, period, t);
    lemma_fixed_offset(period, t % period, t / period);
    lemma_interleave_places(parts, n, t % period, t / period + 1);
}

/// Splits a series into its cycle-subseries.
pub fn split<T: Copy>(series: &[T], period: usize) -> (r: Vec<Vec<T>>)
    requires
        period >= 1,
    ensures
        r@.len() == period,
        forall|phase: int|
            0 <= phase < period ==> (#[trigger] r@[phase])@ == split_seq(
                series@,
                period as int,
            )[phase],
        rows(r@) == split_seq(series@, period as int),
{
    let n = series.len();
    let mut out: Vec<Vec<T>> = Vec::new();
    let mut phase: usize = 0;
    while phase < period
        invariant
            period >= 1,
            n == series.len(),
            phase <= period,
            out.len() == phase,
            forall|j: int|
                0 <= j < phase ==> (#[trigger] out[j])@ == split_seq(series@, period as int)[j],
        decreases period - phase,
    {
        let k = cycle_len(n, period, phase);
        let mut part: Vec<T> = Vec::new();
        let mut i: usize = 0;
        while i < k
            invariant
                period >= 1,
                n == series.len(),
                phase < period,
                k == subseries_len(n as int, period as int, phase as int),
                i <= k,
                part.len() == i,
                forall|h: int|
                    0 <= h < i ==> part[h] == series[source_index(
                        period as int,
                        phase as int,
                        h,
                    )],
            decreases k - i,
        {
            let t = source(n, period, phase, i);
            part.push(series[t]);
            i = i + 1;
        }
        assert(part@ =~= split_seq(series@, period as int)[phase as int]);
        out.push(part);
        phase = phase + 1;
    }
    assert(rows(out@) =~= split_seq(series@, period as int));
    out
}

/// Tests whether `parts` can be put back into series order: one part for each phase of a
/// series of `n` observations, each with one entry more at either end, and a buffer that
/// can be indexed.
pub fn fits_buffer<T>(parts: &Vec<Vec<T>>, n: usize) -> (r: bool)
    ensures
        r == (extended_parts(rows(parts@), n as int) && n + 2 * parts.len() <= usize::MAX),
{
    let period = parts.len();
    if period == 0 || n < period || period > (usize::MAX - n) / 2 {
        return false;
    }
    let mut phase: usize = 0;
    while phase < period
        invariant
            period == parts.len(),
            1 <= period <= n,
            n + 2 * period <= usize::MAX,
            phase <= period,
            forall|h: int|
                0 <= h < phase ==> (#[trigger] rows(parts@)[h]).len() == subseries_len(
                    n as int,
                    period as int,
                    h,
                ) + 2,
        decreases period - phase,
    {
        proof {
            lemma_member_in_series(n as int, period as int, phase as int, n as int);
            assert(n * period >= n) by (nonlinear_arith)
                requires
                    n >= 0,
                    period >= 1,
            ;
        }
        let k = cycle_len(n, period, phase);
        if parts[phase].len() != k + 2 {
            assert(rows(parts@)[phase as int].len() != subseries_len(
                n as int,
                period as int,
                phase as int,
            ) + 2);
            return false;
        }
        assert(rows(parts@)[phase as int] == parts[phase as int]@);
        phase = phase + 1;
    }
    true
}

/// Puts smoothed cycle-subseries, each with its two extrapolated ends, back into series
/// order. The result is the extended buffer for a series of `n` observations.
pub fn interleave<T: Copy>(parts: &Vec<Vec<T>>, n: usize) -> (r: Vec<T>)
    requires
        extended_parts(rows(parts@), n as int),
        n + 2 * parts.len() <= usize::MAX,
    ensures
        r@ == interleave_seq(rows(parts@), n as int),
{
    let period = parts.len();
    let total = n + 2 * period;
    let mut out: Vec<T> = Vec::new();
    let mut s: usize = 0;
    while s < total
        invariant
            period == parts.len(),
            period >= 1,
            total == n + 2 * period,
            extended_parts(rows(parts@), n as int),
            s <= total,
            out.len() == s,
            forall|h: int|
                0 <= h < s ==> out[h] == rows(parts@)[h % (period as int)][h / (
                period as int)],
        decreases total - s,
    {
        proof {
            lemma_slots_fill_buffer(n as int, period as int, s as int);
            let phase = s as int % period as int;
            assert(rows(parts@)[phase].len() == parts[phase].len());
            assert(rows(parts@)[phase] == parts[phase]@);
        }
        let part = &parts[s % period];
        out.push(part[s / period]);
        s = s + 1;
    }
    assert(out@ =~= interleave_seq(rows(parts@), n as int));
    out
}

} // verus!
