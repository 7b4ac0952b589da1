use vstd::prelude::*;
use crate::defaults::{
    default_jump, default_low_pass_length, default_trend_length, inner_loops_for, jump_for,
    lemma_trend_length_bounds, low_pass_length_for, outer_loops_for, trend_length_for,
};
use crate::error::{
    low_pass_degree_text, low_pass_jump_text, low_pass_length_text, parameter_error, period_text,
    refused_with,
    seasonal_degree_text, seasonal_jump_text, seasonal_length_text, series_error, series_text,
    trend_degree_text, trend_jump_text, trend_length_text, Error, ErrorKind, ErrorView,
};
use crate::smoothing::{Degree, SmoothingSpec};

verus! {

/// Options of one decomposition. A field left unset is filled in from the period when a series
/// is planned; the options themselves are never changed by planning.
#[derive(Clone, Copy, Debug)]
pub struct StlParams {
    /// Window of the seasonal smoother.
    pub seasonal_length: Option<usize>,
    /// Window of the trend smoother.
    pub trend_length: Option<usize>,
    /// Window of the low-pass smoother.
    pub low_pass_length: Option<usize>,
    /// Degree of the seasonal smoother.
    pub seasonal_degree: i32,
    /// Degree of the trend smoother.
    pub trend_degree: i32,
    /// Degree of the low-pass smoother; unset, it follows the trend smoother.
    pub low_pass_degree: Option<i32>,
    /// Stride of the seasonal smoother.
    pub seasonal_jump: Option<usize>,
    /// Stride of the trend smoother.
    pub trend_jump: Option<usize>,
    /// Stride of the low-pass smoother.
    pub low_pass_jump: Option<usize>,
    /// Passes of the inner loop in each round.
    pub inner_loops: Option<usize>,
    /// Rounds of robustness re-weighting.
    pub outer_loops: Option<usize>,
    /// Whether outlying observations are weighted down.
    pub robust: bool,
}

/// A decomposition that is ready to run: every option settled and checked against the series.
#[derive(Clone, Copy, Debug, PartialEq, Eq, Structural)]
pub struct StlPlan {
    /// Number of observations in the series.
    pub nobs: usize,
    /// Length of the seasonal cycle.
    pub period: usize,
    /// The seasonal smoother, applied to each cycle-subseries.
    pub seasonal: SmoothingSpec,
    /// The trend smoother.
    pub trend: SmoothingSpec,
    /// The smoother that ends the low-pass filter.
    pub low_pass: SmoothingSpec,
    /// Passes of the inner loop in each round.
    pub inner_loops: usize,
    /// Rounds of robustness re-weighting that were asked for.
    pub outer_loops: usize,
    /// Whether robustness re-weighting is active.
    pub robust: bool,
}

impl StlPlan {
    /// A plan is well formed when the series holds two full cycles of a period of at least 2,
    /// the extended buffer of `nobs + 2 * period` entries can be indexed, and each smoother
    /// is usable.
    pub open spec fn wf(self) -> bool {
        &&& self.period >= 2
        &&& 2 * self.period <= self.nobs <= isize::MAX
        &&& self.seasonal.wf()
        &&& self.trend.wf()
        &&& self.low_pass.wf()
    }

    /// Tests whether the plan is well formed. A plan that planning returned is; one put
    /// together by hand need not be.
    pub fn is_valid(&self) -> (r: bool)
        ensures
            r == self.wf(),
    {
        self.period >= 2 && self.nobs / 2 >= self.period && self.nobs <= isize::MAX as usize
            && self.seasonal.is_valid() && self.trend.is_valid() && self.low_pass.is_valid()
    }

    /// Number of robustness updates that a run performs: those asked for when re-weighting is
    /// active, none otherwise.
    pub open spec fn updates(self) -> nat {
        if self.robust {
            self.outer_loops as nat
        } else {
            0
        }
    }
}

impl StlParams {
    /// The seasonal window that a fit with this period uses.
    pub open spec fn seasonal_length_at(self, period: usize) -> int {
        match self.seasonal_length {
            Some(v) => v as int,
            None => period as int,
        }
    }

    /// The trend window that a fit with this period uses.
    pub open spec fn trend_length_at(self, period: usize) -> int {
        match self.trend_length {
            Some(v) => v as int,
            None => trend_length_for(period as int, self.seasonal_length_at(period)),
        }
    }

    /// The low-pass window that a fit with this period uses.
    pub open spec fn low_pass_length_at(self, period: usize) -> int {
        match self.low_pass_length {
            Some(v) => v as int,
            None => low_pass_length_for(period as int),
        }
    }

    /// The number of the low-pass degree in use.
    pub open spec fn low_pass_order(self) -> int {
        match self.low_pass_degree {
            Some(v) => v as int,
            None => self.trend_degree as int,
        }
    }

    /// The seasonal stride that a fit with this period uses.
    pub open spec fn seasonal_jump_at(self, period: usize) -> int {
        match self.seasonal_jump {
            Some(v) => v as int,
            None => jump_for(self.seasonal_length_at(period)),
        }
    }

    /// The trend stride that a fit with this period uses.
    pub open spec fn trend_jump_at(self, period: usize) -> int {
        match self.trend_jump {
            Some(v) => v as int,
            None => jump_for(self.trend_length_at(period)),
        }
    }

    /// The low-pass stride that a fit with this period uses.
    pub open spec fn low_pass_jump_at(self, period: usize) -> int {
        match self.low_pass_jump {
            Some(v) => v as int,
            None => jump_for(self.low_pass_length_at(period)),
        }
    }

    /// Passes of the inner loop that a fit uses.
    pub open spec fn inner_loops_in_use(self) -> int {
        match self.inner_loops {
            Some(v) => v as int,
            None => inner_loops_for(self.robust),
        }
    }

    /// Robustness rounds that a fit uses.
    pub open spec fn outer_loops_in_use(self) -> int {
        match self.outer_loops {
            Some(v) => v as int,
            None => outer_loops_for(self.robust),
        }
    }

    /// Why a series of `nobs` observations cannot be decomposed with this period, if it
    /// cannot: the first rule that fails, in the order period, series length, degrees,
    /// windows, strides.
    pub open spec fn rejection(self, nobs: usize, period: usize) -> Option<ErrorView> {
        if period < 2 {
            Some(parameter_error(period_text()))
        } else if nobs < 2 * period {
            Some(series_error(series_text()))
        } else if Degree::of(self.seasonal_degree as int) is None {
            Some(parameter_error(seasonal_degree_text()))
        } else if Degree::of(self.trend_degree as int) is None {
            Some(parameter_error(trend_degree_text()))
        } else if Degree::of(self.low_pass_order()) is None {
            Some(parameter_error(low_pass_degree_text()))
        } else if self.seasonal_length_at(period) < 1 {
            Some(parameter_error(seasonal_length_text()))
        } else if self.trend_length_at(period) < 1 {
            Some(parameter_error(trend_length_text()))
        } else if self.low_pass_length_at(period) < 1 {
            Some(parameter_error(low_pass_length_text()))
        } else if self.seasonal_jump_at(period) < 1 {
            Some(parameter_error(seasonal_jump_text()))
        } else if self.trend_jump_at(period) < 1 {
            Some(parameter_error(trend_jump_text()))
        } else if self.low_pass_jump_at(period) < 1 {
            Some(parameter_error(low_pass_jump_text()))
        } else {
            None
        }
    }

    /// The plan of a series that is not refused: each option as given, or its default.
    pub open spec fn resolved(self, nobs: usize, period: usize) -> StlPlan {
        StlPlan {
            nobs,
            period,
            seasonal: SmoothingSpec {
                length: self.seasonal_length_at(period) as usize,
                degree: Degree::of(self.seasonal_degree as int).unwrap(),
                jump: self.seasonal_jump_at(period) as usize,
            },
            trend: SmoothingSpec {
                length: self.trend_length_at(period) as usize,
                degree: Degree::of(self.trend_degree as int).unwrap(),
                jump: self.trend_jump_at(period) as usize,
            },
            low_pass: SmoothingSpec {
                length: self.low_pass_length_at(period) as usize,
                degree: Degree::of(self.low_pass_order()).unwrap(),
                jump: self.low_pass_jump_at(period) as usize,
            },
            inner_loops: self.inner_loops_in_use() as usize,
            outer_loops: self.outer_loops_in_use() as usize,
            robust: self.robust,
        }
    }

    /// Whether `r` is the outcome of planning a series of `nobs` observations with this
    /// period: the refusal where there is one, the settled plan otherwise.
    pub open spec fn planned(self, nobs: usize, period: usize, r: Result<StlPlan, Error>) -> bool {
        match r {
            Ok(plan) => self.rejection(nobs, period) is None && plan == self.resolved(
                nobs,
                period,
            ),
            Err(e) => self.rejection(nobs, period) == Some(e@),
        }
    }

    /// Options with nothing chosen, as a mathematical value.
    pub open spec fn new_spec() -> StlParams {
        StlParams {
            seasonal_length: None,
            trend_length: None,
            low_pass_length: None,
            seasonal_degree: 0,
            trend_degree: 1,
            low_pass_degree: None,
            seasonal_jump: None,
            trend_jump: None,
            low_pass_jump: None,
            inner_loops: None,
            outer_loops: None,
            robust: false,
        }
    }

    /// Options with nothing chosen: every window, stride and loop count is derived at planning
    /// time, the seasonal smoother fits a mean and the trend smoother a line.
    pub fn new() -> (r: Self)
        ensures
            r == StlParams::new_spec(),
    {
        StlParams {
            seasonal_length: None,
            trend_length: None,
            low_pass_length: None,
            seasonal_degree: 0,
            trend_degree: 1,
            low_pass_degree: None,
            seasonal_jump: None,
            trend_jump: None,
            low_pass_jump: None,
            inner_loops: None,
            outer_loops: None,
            robust: false,
        }
    }

    /// Sets the window of the seasonal smoother.
    pub fn seasonal_length(&mut self, length: usize) -> (r: &mut Self)
        ensures
            *r == (StlParams { seasonal_length: Some(length), ..*old(self) }),
            *final(self) == *final(r),
    {
        self.seasonal_length = Some(length);
        self
    }

    /// Sets the window of the trend smoother.
    pub fn trend_length(&mut self, length: usize) -> (r: &mut Self)
        ensures
            *r == (StlParams { trend_length: Some(length), ..*old(self) }),
            *final(self) == *final(r),
    {
        self.trend_length = Some(length);
        self
    }

    /// Sets the window of the low-pass smoother.
    pub fn low_pass_length(&mut self, length: usize) -> (r: &mut Self)
        ensures
            *r == (StlParams { low_pass_length: Some(length), ..*old(self) }),
            *final(self) == *final(r),
    {
        self.low_pass_length = Some(length);
        self
    }

    /// Sets the degree of the seasonal smoother; only 0 and 1 pass planning.
    pub fn seasonal_degree(&mut self, degree: i32) -> (r: &mut Self)
        ensures
            *r == (StlParams { seasonal_degree: degree, ..*old(self) }),
            *final(self) == *final(r),
    {
        self.seasonal_degree = degree;
        self
    }

    /// Sets the degree of the trend smoother; only 0 and 1 pass planning.
    pub fn trend_degree(&mut self, degree: i32) -> (r: &mut Self)
        ensures
            *r == (StlParams { trend_degree: degree, ..*old(self) }),
            *final(self) == *final(r),
    {
        self.trend_degree = degree;
        self
    }

    /// Sets the degree of the low-pass smoother; only 0 and 1 pass planning.
    pub fn low_pass_degree(&mut self, degree: i32) -> (r: &mut Self)
        ensures
            *r == (StlParams { low_pass_degree: Some(degree), ..*old(self) }),
            *final(self) == *final(r),
    {
        self.low_pass_degree = Some(degree);
        self
    }

    /// Sets the stride of the seasonal smoother.
    pub fn seasonal_jump(&mut self, jump: usize) -> (r: &mut Self)
        ensures
            *r == (StlParams { seasonal_jump: Some(jump), ..*old(self) }),
            *final(self) == *final(r),
    {
        self.seasonal_jump = Some(jump);
        self
    }

    /// Sets the stride of the trend smoother.
    pub fn trend_jump(&mut self, jump: usize) -> (r: &mut Self)
        ensures
            *r == (StlParams { trend_jump: Some(jump), ..*old(self) }),
            *final(self) == *final(r),
    {
        self.trend_jump = Some(jump);
        self
    }

    /// Sets the stride of the low-pass smoother.
    pub fn low_pass_jump(&mut self, jump: usize) -> (r: &mut Self)
        ensures
            *r == (StlParams { low_pass_jump: Some(jump), ..*old(self) }),
            *final(self) == *final(r),
    {
        self.low_pass_jump = Some(jump);
        self
    }

    /// Sets the number of passes of the inner loop in each round.
    pub fn inner_loops(&mut self, loops: usize) -> (r: &mut Self)
        ensures
            *r == (StlParams { inner_loops: Some(loops), ..*old(self) }),
            *final(self) == *final(r),
    {
        self.inner_loops = Some(loops);
        self
    }

    /// Sets the number of rounds of robustness re-weighting.
    pub fn outer_loops(&mut self, loops: usize) -> (r: &mut Self)
        ensures
            *r == (StlParams { outer_loops: Some(loops), ..*old(self) }),
            *final(self) == *final(r),
    {
        self.outer_loops = Some(loops);
        self
    }

    /// Sets whether outlying observations are weighted down.
    pub fn robust(&mut self, robust: bool) -> (r: &mut Self)
        ensures
            *r == (StlParams { robust: robust, ..*old(self) }),
            *final(self) == *final(r),
    {
        self.robust = robust;
        self
    }

    /// Settles every option for a series of `nobs` observations with the given period, or
    /// says why the series cannot be decomposed. Nothing is computed on the series before
    /// this has succeeded.
    pub fn plan(&self, nobs: usize, period: usize) -> (r: Result<StlPlan, Error>)
        requires
            nobs <= isize::MAX,
        ensures
            self.planned(nobs, period, r),
            r matches Ok(plan) ==> plan.wf(),
    {
        if period < 2 {
            return Err(Error::parameter("period must be at least 2"));
        }
        if nobs / 2 < period {
            return Err(Error::series("series has less than two periods"));
        }
        let seasonal_degree = match Degree::from_order(self.seasonal_degree) {
            Some(d) => d,
            None => {
                return Err(Error::parameter("seasonal_degree must be 0 or 1"));
            },
        };
        let trend_degree = match Degree::from_order(self.trend_degree) {
            Some(d) => d,
            None => {
                return Err(Error::parameter("trend_degree must be 0 or 1"));
            },
        };
        let low_pass_order = match self.low_pass_degree {
            Some(v) => v,
            None => self.trend_degree,
        };
        let low_pass_degree = match Degree::from_order(low_pass_order) {
            Some(d) => d,
            None => {
                return Err(Error::parameter("low_pass_degree must be 0 or 1"));
            },
        };
        let seasonal_length = match self.seasonal_length {
            Some(v) => v,
            None => period,
        };
        if seasonal_length < 1 {
            return Err(Error::parameter("seasonal_length must be at least 1"));
        }
        let trend_length = match self.trend_length {
            Some(v) => v,
            None => default_trend_length(period, seasonal_length),
        };
        if trend_length < 1 {
            return Err(Error::parameter("trend_length must be at least 1"));
        }
        let low_pass_length = match self.low_pass_length {
            Some(v) => v,
            None => default_low_pass_length(period),
        };
        if low_pass_length < 1 {
            return Err(Error::parameter("low_pass_length must be at least 1"));
        }
        let seasonal_jump = match self.seasonal_jump {
            Some(v) => v,
            None => default_jump(seasonal_length),
        };
        if seasonal_jump < 1 {
            return Err(Error::parameter("seasonal_jump must be at least 1"));
        }
        let trend_jump = match self.trend_jump {
            Some(v) => v,
            None => default_jump(trend_length),
        };
        if trend_jump < 1 {
            return Err(Error::parameter("trend_jump must be at least 1"));
        }
        let low_pass_jump = match self.low_pass_jump {
            Some(v) => v,
            None => default_jump(low_pass_length),
        };
        if low_pass_jump < 1 {
            return Err(Error::parameter("low_pass_jump must be at least 1"));
        }
        let inner_loops: usize = match self.inner_loops {
            Some(v) => v,
            None => if self.robust {
                2
            } else {
                5
            },
        };
        let outer_loops: usize = match self.outer_loops {
            Some(v) => v,
            None => if self.robust {
                15
            } else {
                0
            },
        };
        Ok(
            StlPlan {
                nobs,
                period,
                seasonal: SmoothingSpec {
                    length: seasonal_length,
                    degree: seasonal_degree,
                    jump: seasonal_jump,
                },
                trend: SmoothingSpec { length: trend_length, degree: trend_degree, jump: trend_jump },
                low_pass: SmoothingSpec {
                    length: low_pass_length,
                    degree: low_pass_degree,
                    jump: low_pass_jump,
                },
                inner_loops,
                outer_loops,
                robust: self.robust,
            },
        )
    }
}

/// Law: planning is determined by its inputs. Two outcomes for the same options, series
/// length and period are the same plan, or refusals of the same kind with the same text.
pub proof fn lemma_plan_is_determined(
    params: StlParams,
    nobs: usize,
    period: usize,
    a: Result<StlPlan, Error>,
    b: Result<StlPlan, Error>,
)
    requires
        params.planned(nobs, period, a),
        params.planned(nobs, period, b),
    ensures
        match (a, b) {
            (Ok(x), Ok(y)) => x == y,
            (Err(x), Err(y)) => x@ == y@,
            _ => false,
        },
{
}

/// Law: what is refused, and how. A period below 2 is refused with a parameter error. A
/// series that does not hold two cycles of a period of at least 2 is refused with a series
/// error, whatever the options, and nothing else is: every other refusal is a parameter
/// error. No length of series and no period is left out.
pub proof fn lemma_refusal_kinds(params: StlParams, nobs: usize, period: usize)
    ensures
        period < 2 ==> params.rejection(nobs, period) == Some(parameter_error(period_text())),
        period >= 2 && nobs < 2 * period ==> params.rejection(nobs, period) == Some(
            series_error(series_text()),
        ),
        params.rejection(nobs, period) matches Some(e) ==> (e.kind == ErrorKind::Series <==> period
            >= 2 && nobs < 2 * period),
{
}

/// Law: a series that does not hold two cycles of a period of at least 2 is never planned
/// and never refused for its options. Every outcome of planning it is the series error.
pub proof fn lemma_too_few_cycles(
    params: StlParams,
    nobs: usize,
    period: usize,
    r: Result<StlPlan, Error>,
)
    requires
        period >= 2,
        nobs < 2 * period,
        params.planned(nobs, period, r),
    ensures
        refused_with(r, series_error(series_text())),
{
}

/// Law: with a period of at least 2 and a series of two cycles, a seasonal degree other
/// than 0 and 1 is refused with a parameter error. Every outcome of planning is that
/// error.
pub proof fn lemma_bad_seasonal_degree(
    params: StlParams,
    nobs: usize,
    period: usize,
    r: Result<StlPlan, Error>,
)
    requires
        period >= 2,
        nobs >= 2 * period,
        params.seasonal_degree != 0,
        params.seasonal_degree != 1,
        params.planned(nobs, period, r),
    ensures
        refused_with(r, parameter_error(seasonal_degree_text())),
{
}

/// Law: a plan that is not refused is well formed. The series holds two cycles of a period
/// of at least 2, and every smoother has a window and a stride of at least 1.
pub proof fn lemma_resolved_is_well_formed(params: StlParams, nobs: usize, period: usize)
    requires
        nobs <= isize::MAX,
        params.rejection(nobs, period) is None,
    ensures
        params.resolved(nobs, period).wf(),
        params.resolved(nobs, period).nobs == nobs,
        params.resolved(nobs, period).period == period,
{
    lemma_trend_length_bounds(period as int, params.seasonal_length_at(period));
}

} // verus!
