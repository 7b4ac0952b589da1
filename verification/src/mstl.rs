use vstd::prelude::*;
use crate::error::{
    empty_periods_text, parameter_error, refused_with, series_error, series_text,
    short_period_text, Error, ErrorView,
};
use crate::order::{
    lemma_order_ignores_listing, lemma_stable_order, ordered_periods, sorted_order, stable_order,
};
use crate::params::{StlParams, StlPlan};

verus! {

/// Multiple seasonal-trend decomposition using Loess (MSTL).
pub struct Mstl;

/// Options of a decomposition with several seasonal components.
#[derive(Clone, Copy, Debug)]
pub struct MstlParams {
    /// Passes over the list of periods; a list of one period is passed over once.
    pub iterations: usize,
    /// Options of the single decompositions, one per period and pass.
    pub stl_params: StlParams,
}

/// One seasonal component of a plan: where it belongs and how it is fitted.
#[derive(Clone, Copy, Debug, PartialEq, Eq, Structural)]
pub struct SeasonalFit {
    /// Index of the component in the caller's list of periods, and in the result.
    pub slot: usize,
    /// The single decomposition that extracts the component.
    pub stl: StlPlan,
}

/// A decomposition with several seasonal components that is ready to run. In each pass the
/// fits run in the order listed, each on the series without the other components'
/// current estimates; the trend is that of the last fit that ran.
#[derive(Debug)]
pub struct MstlPlan {
    /// Number of observations in the series.
    pub nobs: usize,
    /// Passes over the fits.
    pub passes: usize,
    /// The fits of one pass, by ascending period.
    pub fits: Vec<SeasonalFit>,
}

impl MstlParams {
    /// Passes over a list of `count` periods.
    pub open spec fn passes(self, count: nat) -> nat {
        if count == 1 {
            1
        } else {
            self.iterations as nat
        }
    }

    /// The seasonal window of the fit at `rank` in the order of handling: the window of the
    /// embedded options, or else `7 + 4 * (rank + 1)`.
    pub open spec fn window_at(self, rank: int) -> int {
        match self.stl_params.seasonal_length {
            Some(v) => v as int,
            None => 7 + 4 * (rank + 1),
        }
    }

    /// The options of the fit at `rank`.
    pub open spec fn params_at(self, rank: int) -> StlParams {
        StlParams { seasonal_length: Some(self.window_at(rank) as usize), ..self.stl_params }
    }

    /// Why a series of `nobs` observations cannot be decomposed with these periods, if it
    /// cannot: an empty list, a period below 2, a period of which the series does not hold
    /// two cycles, or else what refuses the single decomposition with the shortest period.
    pub open spec fn rejection(self, nobs: usize, periods: Seq<usize>) -> Option<ErrorView> {
        if periods.len() == 0 {
            Some(parameter_error(empty_periods_text()))
        } else if exists|i: int| 0 <= i < periods.len() && periods[i] < 2 {
            Some(parameter_error(short_period_text()))
        } else if exists|i: int| 0 <= i < periods.len() && nobs < 2 * periods[i] {
            Some(series_error(series_text()))
        } else {
            self.params_at(0).rejection(nobs, ordered_periods(periods)[0])
        }
    }

    /// The fits of one pass: by ascending period, each with the slot of its period in the
    /// caller's list.
    pub open spec fn fits(self, nobs: usize, periods: Seq<usize>) -> Seq<SeasonalFit> {
        Seq::new(
            periods.len(),
            |rank: int|
                SeasonalFit {
                    slot: stable_order(periods)[rank],
                    stl: self.params_at(rank).resolved(nobs, ordered_periods(periods)[rank]),
                },
        )
    }

    /// Whether `r` is the outcome of planning a series of `nobs` observations with these
    /// periods: the refusal where there is one, otherwise the passes and the fits of each
    /// pass.
    pub open spec fn planned(
        self,
        nobs: usize,
        periods: Seq<usize>,
        r: Result<MstlPlan, Error>,
    ) -> bool {
        match r {
            Ok(plan) => {
                &&& self.rejection(nobs, periods) is None
                &&& plan.nobs == nobs
                &&& plan.passes == self.passes(periods.len())
                &&& plan.fits@ == self.fits(nobs, periods)
            },
            Err(e) => self.rejection(nobs, periods) == Some(e@),
        }
    }

    /// Options with nothing chosen: two passes, and single decompositions with nothing
    /// chosen.
    pub fn new() -> (r: Self)
        ensures
            r.iterations == 2,
            r.stl_params == StlParams::new_spec(),
    {
        MstlParams { iterations: 2, stl_params: StlParams::new() }
    }

    /// Sets the number of passes over the list of periods.
    pub fn iterations(&mut self, iterations: usize) -> (r: &mut Self)
        ensures
            *r == (MstlParams { iterations, ..*old(self) }),
            *final(self) == *final(r),
    {
        self.iterations = iterations;
        self
    }

    /// Sets the options of the single decompositions.
    pub fn stl_params(&mut self, stl_params: StlParams) -> (r: &mut Self)
        ensures
            *r == (MstlParams { stl_params, ..*old(self) }),
            *final(self) == *final(r),
    {
        self.stl_params = stl_params;
        self
    }

    /// Settles every single decomposition for a series of `nobs` observations and the given
    /// periods, or says why the series cannot be decomposed. Every period is checked before
    /// any fit is planned.
    pub fn plan(&self, nobs: usize, periods: &[usize]) -> (r: Result<MstlPlan, Error>)
        requires
            nobs <= isize::MAX,
            periods.len() <= usize::MAX / 8,
        ensures
            self.planned(nobs, periods@, r),
            r matches Ok(plan) ==> plan.wf(),
    {
        let count = periods.len();
        if count == 0 {
            return Err(Error::parameter("periods must not be empty"));
        }
        let mut i: usize = 0;
        while i < count
            invariant
                count == periods.len(),
                i <= count,
                forall|h: int| 0 <= h < i ==> periods[h] >= 2,
            decreases count - i,
        {
            if periods[i] < 2 {
                assert(0 <= i < periods@.len() && periods@[i as int] < 2);
                return Err(Error::parameter("periods must be at least 2"));
            }
            i = i + 1;
        }
        let mut i: usize = 0;
        while i < count
            invariant
                count == periods.len(),
                i <= count,
                forall|h: int| 0 <= h < count ==> periods[h] >= 2,
                forall|h: int| 0 <= h < i ==> nobs >= 2 * periods[h],
            decreases count - i,
        {
            if nobs / 2 < periods[i] {
                assert(0 <= i < periods@.len() && nobs < 2 * periods@[i as int]);
                return Err(Error::series("series has less than two periods"));
            }
            i = i + 1;
        }
        let order = sorted_order(periods);
        proof {
            lemma_stable_order(periods@);
        }
        let mut fits: Vec<SeasonalFit> = Vec::new();
        let mut rank: usize = 0;
        while rank < count
            invariant
                nobs <= isize::MAX,
                count == periods.len(),
                1 <= count <= usize::MAX / 8,
                order@ == stable_order(periods@),
                order.len() == count,
                forall|h: int| 0 <= h < count ==> 0 <= #[trigger] order[h] < count,
                forall|h: int| 0 <= h < count ==> periods[h] >= 2,
                forall|h: int| 0 <= h < count ==> nobs >= 2 * periods[h],
                rank <= count,
                fits.len() == rank,
                rank > 0 ==> self.params_at(0).rejection(nobs, ordered_periods(periods@)[0])
                    is None,
                forall|h: int| 0 <= h < rank ==> fits[h] == self.fits(nobs, periods@)[h],
                forall|h: int| 0 <= h < rank ==> (#[trigger] fits[h]).stl.wf(),
            decreases count - rank,
        {
            let slot = order[rank];
            let period = periods[slot];
            let window: usize = match self.stl_params.seasonal_length {
                Some(v) => v,
                None => 7 + 4 * (rank + 1),
            };
            let mut single = self.stl_params;
            single.seasonal_length = Some(window);
            assert(single == self.params_at(rank as int));
            assert(period == ordered_periods(periods@)[rank as int]);
            proof {
                if rank > 0 {
                    lemma_refusal_ignores_rank(
                        *self,
                        nobs,
                        ordered_periods(periods@)[0],
                        period,
                        rank as int,
                    );
                }
            }
            match single.plan(nobs, period) {
                Ok(stl) => {
                    fits.push(SeasonalFit { slot, stl });
                },
                Err(e) => {
                    return Err(e);
                },
            }
            rank = rank + 1;
        }
        let passes = if count == 1 {
            1
        } else {
            self.iterations
        };
        assert(fits@ =~= self.fits(nobs, periods@));
        Ok(MstlPlan { nobs, passes, fits })
    }
}

impl Clone for MstlPlan {
    fn clone(&self) -> (r: Self)
        ensures
            r.nobs == self.nobs,
            r.passes == self.passes,
            r.fits@ == self.fits@,
    {
        let mut fits: Vec<SeasonalFit> = Vec::new();
        let mut i: usize = 0;
        while i < self.fits.len()
            invariant
                i <= self.fits.len(),
                fits@ == self.fits@.take(i as int),
            decreases self.fits.len() - i,
        {
            fits.push(self.fits[i]);
            assert(self.fits@.take(i as int).push(self.fits@[i as int]) =~= self.fits@.take(
                i + 1,
            ));
            i = i + 1;
        }
        assert(self.fits@.take(self.fits.len() as int) =~= self.fits@);
        MstlPlan { nobs: self.nobs, passes: self.passes, fits }
    }
}

impl MstlPlan {
    /// A plan is well formed when it has a fit, every fit is well formed and is planned for
    /// the series, and every slot names a component.
    pub open spec fn wf(self) -> bool {
        &&& self.fits@.len() >= 1
        &&& forall|rank: int|
            0 <= rank < self.fits@.len() ==> {
                &&& (#[trigger] self.fits@[rank]).stl.wf()
                &&& self.fits@[rank].stl.nobs == self.nobs
                &&& self.fits@[rank].slot < self.fits@.len()
            }
    }

    /// Tests whether the plan is well formed. A plan that planning returned is; one put
    /// together by hand need not be.
    pub fn is_valid(&self) -> (r: bool)
        ensures
            r == self.wf(),
    {
        if self.fits.len() == 0 {
            return false;
        }
        let mut rank: usize = 0;
        while rank < self.fits.len()
            invariant
                rank <= self.fits.len(),
                forall|h: int|
                    0 <= h < rank ==> {
                        &&& (#[trigger] self.fits@[h]).stl.wf()
                        &&& self.fits@[h].stl.nobs == self.nobs
                        &&& self.fits@[h].slot < self.fits@.len()
                    },
            decreases self.fits.len() - rank,
        {
            let fit = &self.fits[rank];
            if !(fit.stl.is_valid() && fit.stl.nobs == self.nobs && fit.slot < self.fits.len()) {
                return false;
            }
            rank = rank + 1;
        }
        true
    }

    /// Number of seasonal components of the result.
    pub fn components(&self) -> (r: usize)
        ensures
            r == self.fits@.len(),
    {
        self.fits.len()
    }

    /// Whether, before a fit of the given pass runs, the previous estimate of its component
    /// has to be put back into the working series: in every pass but the first, in which
    /// no component has been taken out yet.
    pub fn restores(&self, pass: usize) -> (r: bool)
        ensures
            r == (pass > 0),
    {
        pass > 0
    }
}

/// Once the periods are in order, what refuses one single decomposition refuses them all:
/// degrees, windows and strides are checked alike at every rank.
proof fn lemma_refusal_ignores_rank(
    params: MstlParams,
    nobs: usize,
    first: usize,
    period: usize,
    rank: int,
)
    requires
        first >= 2,
        period >= 2,
        nobs >= 2 * first,
        nobs >= 2 * period,
        0 <= rank,
        7 + 4 * (rank + 1) <= usize::MAX,
    ensures
        params.params_at(rank).rejection(nobs, period) == params.params_at(0).rejection(
            nobs,
            first,
        ),
{
    let a = params.params_at(rank);
    let b = params.params_at(0);
    lemma_defaults_are_positive(a, period);
    lemma_defaults_are_positive(b, first);
}

/// Windows and strides that are derived rather than chosen are at least 1.
proof fn lemma_defaults_are_positive(p: StlParams, period: usize)
    requires
        period >= 2,
    ensures
        p.trend_length is None ==> p.trend_length_at(period) >= 1,
        p.low_pass_length is None ==> p.low_pass_length_at(period) >= 1,
        p.seasonal_jump is None && p.seasonal_length_at(period) >= 1 ==> p.seasonal_jump_at(period)
            >= 1,
        p.trend_jump is None && p.trend_length_at(period) >= 1 ==> p.trend_jump_at(period) >= 1,
        p.low_pass_jump is None && p.low_pass_length_at(period) >= 1 ==> p.low_pass_jump_at(period)
            >= 1,
{
}

/// Law: the decomposition does not depend on the order in which the caller lists the
/// periods. Two lists that hold the same periods are refused alike, or else planned with
/// the same passes and, rank by rank, the same single decomposition for the same period;
/// only the slots differ, each pointing at its period in its own list.
pub proof fn lemma_period_order_invariance(
    params: MstlParams,
    nobs: usize,
    a: Seq<usize>,
    b: Seq<usize>,
)
    requires
        a.len() <= usize::MAX,
        a.to_multiset() == b.to_multiset(),
    ensures
        a.len() == b.len(),
        params.rejection(nobs, a) == params.rejection(nobs, b),
        params.passes(a.len()) == params.passes(b.len()),
        forall|rank: int|
            0 <= rank < a.len() ==> {
                &&& (#[trigger] params.fits(nobs, a)[rank]).stl == params.fits(nobs, b)[rank].stl
                &&& 0 <= params.fits(nobs, a)[rank].slot < a.len()
                &&& 0 <= params.fits(nobs, b)[rank].slot < b.len()
                &&& a[params.fits(nobs, a)[rank].slot as int] == b[params.fits(
                    nobs,
                    b,
                )[rank].slot as int]
            },
{
    broadcast use vstd::seq_lib::group_to_multiset_ensures;

    a.to_multiset_ensures();
    b.to_multiset_ensures();
    lemma_order_ignores_listing(a, b);
    lemma_stable_order(a);
    lemma_stable_order(b);
    assert((exists|i: int| 0 <= i < a.len() && a[i] < 2) == (exists|i: int|
        0 <= i < b.len() && b[i] < 2)) by {
        lemma_same_members(a, b, |p: usize| p < 2);
    }
    assert((exists|i: int| 0 <= i < a.len() && nobs < 2 * a[i]) == (exists|i: int|
        0 <= i < b.len() && nobs < 2 * b[i])) by {
        lemma_same_members(a, b, |p: usize| nobs < 2 * p);
    }
    assert forall|rank: int| 0 <= rank < a.len() implies {
        &&& (#[trigger] params.fits(nobs, a)[rank]).stl == params.fits(nobs, b)[rank].stl
        &&& 0 <= params.fits(nobs, a)[rank].slot < a.len()
        &&& 0 <= params.fits(nobs, b)[rank].slot < b.len()
        &&& a[params.fits(nobs, a)[rank].slot as int] == b[params.fits(nobs, b)[rank].slot as int]
    } by {
        assert(ordered_periods(a)[rank] == ordered_periods(b)[rank]);
    }
}

/// Law: what is refused, and how. An empty list of periods is refused with a parameter
/// error, and so is a list with a period below 2. A list of periods of at least 2, of one
/// of which the series does not hold two cycles, is refused with a series error. Every
/// outcome of planning such a list is that refusal, whatever the options and the length of
/// the series.
pub proof fn lemma_refusal_kinds(
    params: MstlParams,
    nobs: usize,
    periods: Seq<usize>,
    r: Result<MstlPlan, Error>,
)
    requires
        params.planned(nobs, periods, r),
    ensures
        periods.len() == 0 ==> refused_with(r, parameter_error(empty_periods_text())),
        (exists|i: int| 0 <= i < periods.len() && periods[i] < 2) ==> refused_with(
            r,
            parameter_error(short_period_text()),
        ),
        (forall|i: int| 0 <= i < periods.len() ==> periods[i] >= 2) && (exists|i: int|
            0 <= i < periods.len() && nobs < 2 * periods[i]) ==> refused_with(
            r,
            series_error(series_text()),
        ),
{
}

/// Law: planning is determined by its inputs. Two outcomes for the same options, series
/// length and periods hold the same passes and fits, or are refusals of the same kind with
/// the same text.
pub proof fn lemma_plan_is_determined(
    params: MstlParams,
    nobs: usize,
    periods: Seq<usize>,
    a: Result<MstlPlan, Error>,
    b: Result<MstlPlan, Error>,
)
    requires
        params.planned(nobs, periods, a),
        params.planned(nobs, periods, b),
    ensures
        match (a, b) {
            (Ok(x), Ok(y)) => x.nobs == y.nobs && x.passes == y.passes && x.fits@ == y.fits@,
            (Err(x), Err(y)) => x@ == y@,
            _ => false,
        },
{
}

/// Law: every component is fitted once in each pass. Each slot of the result is the slot of
/// exactly one fit.
pub proof fn lemma_every_component_is_fitted(
    params: MstlParams,
    nobs: usize,
    periods: Seq<usize>,
    slot: usize,
)
    requires
        periods.len() <= usize::MAX,
        slot < periods.len(),
    ensures
        exists|rank: int|
            0 <= rank < periods.len() && (#[trigger] params.fits(nobs, periods)[rank]).slot
                == slot,
        forall|i: int, j: int|
            0 <= i < periods.len() && 0 <= j < periods.len() && (#[trigger] params.fits(
                nobs,
                periods,
            )[i]).slot == (#[trigger] params.fits(nobs, periods)[j]).slot ==> i == j,
{
    lemma_stable_order(periods);
    let o = stable_order(periods);
    assert(o.contains(slot));
    let rank = choose|rank: int| 0 <= rank < o.len() && o[rank] == slot;
    assert(params.fits(nobs, periods)[rank].slot == slot);
}

/// Two lists that hold the same entries agree on whether some entry has a property.
proof fn lemma_same_members(a: Seq<usize>, b: Seq<usize>, f: spec_fn(usize) -> bool)
    requires
        a.to_multiset() == b.to_multiset(),
    ensures
        (exists|i: int| 0 <= i < a.len() && f(a[i])) == (exists|i: int|
            0 <= i < b.len() && f(b[i])),
{
    broadcast use vstd::seq_lib::group_to_multiset_ensures;

    a.to_multiset_ensures();
    b.to_multiset_ensures();
    if exists|i: int| 0 <= i < a.len() && f(a[i]) {
        let i = choose|i: int| 0 <= i < a.len() && f(a[i]);
        assert(a.contains(a[i]));
        assert(b.to_multiset().count(a[i]) > 0);
        assert(b.contains(a[i]));
        let j = choose|j: int| 0 <= j < b.len() && b[j] == a[i];
        assert(f(b[j]));
    }
    if exists|i: int| 0 <= i < b.len() && f(b[i]) {
        let i = choose|i: int| 0 <= i < b.len() && f(b[i]);
        assert(b.contains(b[i]));
        assert(a.to_multiset().count(b[i]) > 0);
        assert(a.contains(b[i]));
        let j = choose|j: int| 0 <= j < a.len() && a[j] == b[i];
        assert(f(a[j]));
    }
}

/// Law: with one period and a chosen seasonal window, the decomposition is the single
/// decomposition with that period. It is planned alike, passed over once, and, for a period
/// of at least 2, refused alike.
pub proof fn lemma_single_period(params: MstlParams, nobs: usize, period: usize)
    requires
        params.stl_params.seasonal_length is Some,
    ensures
        params.passes(1) == 1,
        params.fits(nobs, seq![period]).len() == 1,
        params.fits(nobs, seq![period])[0] == (SeasonalFit {
            slot: 0,
            stl: params.stl_params.resolved(nobs, period),
        }),
        period >= 2 ==> params.rejection(nobs, seq![period]) == params.stl_params.rejection(
            nobs,
            period,
        ),
{
    let periods = seq![period];
    lemma_stable_order(periods);
    assert(stable_order(periods)[0] == 0);
    assert(ordered_periods(periods)[0] == period);
    assert(params.params_at(0) == params.stl_params);
    if period >= 2 {
        if nobs < 2 * period {
            assert(0 <= 0 < periods.len() && nobs < 2 * periods[0]);
        }
    }
}

/// The list of two periods.
pub open spec fn pair_of(x: usize, y: usize) -> Seq<usize> {
    seq![x, y]
}

/// Law: for two different periods, listing them the other way round exchanges the slots
/// and nothing else. The component that stands first in the result of one listing stands
/// second in the result of the other, fitted in the same way.
pub proof fn lemma_swapped_pair(params: MstlParams, nobs: usize, x: usize, y: usize)
    requires
        x != y,
    ensures
        params.rejection(nobs, pair_of(x, y)) == params.rejection(nobs, pair_of(y, x)),
        forall|rank: int|
            0 <= rank < 2 ==> {
                &&& (#[trigger] params.fits(nobs, pair_of(x, y))[rank]).stl == params.fits(
                    nobs,
                    pair_of(y, x),
                )[rank].stl
                &&& params.fits(nobs, pair_of(x, y))[rank].slot + params.fits(
                    nobs,
                    pair_of(y, x),
                )[rank].slot == 1
            },
{
    broadcast use vstd::seq_lib::group_to_multiset_ensures;
    broadcast use vstd::multiset::group_multiset_axioms;

    let a = pair_of(x, y);
    let b = pair_of(y, x);
    assert(a.to_multiset() =~= b.to_multiset()) by {
        assert(a =~= seq![x].push(y));
        assert(b =~= seq![y].push(x));
        assert(seq![x] =~= Seq::<usize>::empty().push(x));
        assert(seq![y] =~= Seq::<usize>::empty().push(y));
        vstd::seq_lib::to_multiset_build(Seq::<usize>::empty(), x);
        vstd::seq_lib::to_multiset_build(Seq::<usize>::empty(), y);
        vstd::seq_lib::to_multiset_build(seq![x], y);
        vstd::seq_lib::to_multiset_build(seq![y], x);
    }
    lemma_period_order_invariance(params, nobs, a, b);
    assert forall|rank: int| 0 <= rank < 2 implies {
        &&& (#[trigger] params.fits(nobs, a)[rank]).stl == params.fits(nobs, b)[rank].stl
        &&& params.fits(nobs, a)[rank].slot + params.fits(nobs, b)[rank].slot == 1
    } by {
        let sa = params.fits(nobs, a)[rank].slot as int;
        let sb = params.fits(nobs, b)[rank].slot as int;
        assert(a[sa] == b[sb]);
    }
}

impl Mstl {
    /// Creates a new set of parameters.
    pub fn params() -> (r: MstlParams)
        ensures
            r.iterations == 2,
            r.stl_params == StlParams::new_spec(),
    {
        MstlParams::new()
    }

    /// Plans a decomposition with the default options.
    pub fn plan(nobs: usize, periods: &[usize]) -> (r: Result<MstlPlan, Error>)
        requires
            nobs <= isize::MAX,
            periods.len() <= usize::MAX / 8,
        ensures
            Mstl::defaults().planned(nobs, periods@, r),
            r matches Ok(plan) ==> plan.wf(),
    {
        MstlParams::new().plan(nobs, periods)
    }

    /// The options that `params` returns.
    pub open spec fn defaults() -> MstlParams {
        MstlParams { iterations: 2, stl_params: StlParams::new_spec() }
    }
}

} // verus!
