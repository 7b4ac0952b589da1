use vstd::prelude::*;
use crate::defaults::{
    default_low_pass_length, default_trend_length, inner_loops_for, low_pass_length_for,
    outer_loops_for, trend_length_for,
};
use crate::error::{
    cycles_text, missing_period_text, parameter_error, series_error, Error, ErrorView,
};
use crate::params::{StlParams, StlPlan};

verus! {

/// Seasonal-trend decomposition using Loess (STL).
pub struct Stl;

impl Stl {
    /// Creates a new set of parameters.
    pub fn params() -> (r: StlParams)
        ensures
            r == StlParams::new_spec(),
    {
        StlParams::new()
    }

    /// Plans a decomposition with the default options.
    pub fn plan(nobs: usize, period: usize) -> (r: Result<StlPlan, Error>)
        requires
            nobs <= isize::MAX,
        ensures
            StlParams::new_spec().planned(nobs, period, r),
            r matches Ok(plan) ==> plan.wf(),
    {
        StlParams::new().plan(nobs, period)
    }
}

/// What a model holds, as a mathematical value.
pub struct ModelView {
    /// Number of observations.
    pub nobs: usize,
    /// Length of the seasonal cycle.
    pub period: usize,
    /// Window of the seasonal smoother.
    pub seasonal: usize,
    /// Window of the trend smoother, if chosen.
    pub trend: Option<usize>,
    /// Window of the low-pass smoother, if chosen.
    pub low_pass: Option<usize>,
    /// Degree of the seasonal smoother.
    pub seasonal_deg: i32,
    /// Degree of the trend smoother.
    pub trend_deg: i32,
    /// Degree of the low-pass smoother.
    pub low_pass_deg: i32,
    /// Whether outlying observations are weighted down.
    pub robust: bool,
    /// Stride of the seasonal smoother, if chosen.
    pub seasonal_jump: Option<usize>,
    /// Stride of the trend smoother, if chosen.
    pub trend_jump: Option<usize>,
    /// Stride of the low-pass smoother, if chosen.
    pub low_pass_jump: Option<usize>,
}

/// The value of an option, or the given one where it is unset.
pub open spec fn or_else(option: Option<usize>, otherwise: int) -> int {
    match option {
        Some(v) => v as int,
        None => otherwise,
    }
}

impl ModelView {
    /// The options that a fit of the model runs with. Every option is explicit: the windows
    /// and strides as chosen, or else the trend window derived from the period and the
    /// seasonal window, the low-pass window derived from the period, and strides of 1; the
    /// loop counts as given for the fit, or else derived from `robust`.
    pub open spec fn params(self, inner_iter: Option<usize>, outer_iter: Option<usize>) -> StlParams {
        StlParams {
            seasonal_length: Some(self.seasonal),
            trend_length: Some(
                or_else(
                    self.trend,
                    trend_length_for(self.period as int, self.seasonal as int),
                ) as usize,
            ),
            low_pass_length: Some(
                or_else(self.low_pass, low_pass_length_for(self.period as int)) as usize,
            ),
            seasonal_degree: self.seasonal_deg,
            trend_degree: self.trend_deg,
            low_pass_degree: Some(self.low_pass_deg),
            seasonal_jump: Some(or_else(self.seasonal_jump, 1) as usize),
            trend_jump: Some(or_else(self.trend_jump, 1) as usize),
            low_pass_jump: Some(or_else(self.low_pass_jump, 1) as usize),
            inner_loops: Some(or_else(inner_iter, inner_loops_for(self.robust)) as usize),
            outer_loops: Some(or_else(outer_iter, outer_loops_for(self.robust)) as usize),
            robust: self.robust,
        }
    }
}

/// A series of known length together with the options of its decomposition, as an object
/// with keyword-style construction exposes them. The series itself stays with the caller.
#[derive(Clone, Copy, Debug)]
pub struct STL {
    nobs: usize,
    period: usize,
    seasonal: usize,
    trend: Option<usize>,
    low_pass: Option<usize>,
    seasonal_deg: i32,
    trend_deg: i32,
    low_pass_deg: i32,
    robust: bool,
    seasonal_jump: Option<usize>,
    trend_jump: Option<usize>,
    low_pass_jump: Option<usize>,
}

impl View for STL {
    type V = ModelView;

    closed spec fn view(&self) -> ModelView {
        ModelView {
            nobs: self.nobs,
            period: self.period,
            seasonal: self.seasonal,
            trend: self.trend,
            low_pass: self.low_pass,
            seasonal_deg: self.seasonal_deg,
            trend_deg: self.trend_deg,
            low_pass_deg: self.low_pass_deg,
            robust: self.robust,
            seasonal_jump: self.seasonal_jump,
            trend_jump: self.trend_jump,
            low_pass_jump: self.low_pass_jump,
        }
    }
}

impl STL {
    /// A model holds two full cycles of its period, and no more observations than can be
    /// stored.
    #[verifier::type_invariant]
    spec fn two_cycles(self) -> bool {
        2 * self.period <= self.nobs <= isize::MAX
    }

    /// Why a model cannot be built, if it cannot: no period, or fewer than two cycles, said
    /// with the number of observations that two cycles take and the number there are.
    pub open spec fn rejection(nobs: usize, period: Option<usize>) -> Option<ErrorView> {
        match period {
            None => Some(parameter_error(missing_period_text())),
            Some(p) => if nobs < 2 * p {
                Some(series_error(cycles_text(nobs as int, p as int)))
            } else {
                None
            },
        }
    }

    /// Builds a model for a series of `nobs` observations. The period has to be given, and
    /// the series has to hold two full cycles of it.
    pub fn new(
        nobs: usize,
        period: Option<usize>,
        seasonal: usize,
        trend: Option<usize>,
        low_pass: Option<usize>,
        seasonal_deg: i32,
        trend_deg: i32,
        low_pass_deg: i32,
        robust: bool,
        seasonal_jump: Option<usize>,
        trend_jump: Option<usize>,
        low_pass_jump: Option<usize>,
    ) -> (r: Result<STL, Error>)
        requires
            nobs <= isize::MAX,
        ensures
            match r {
                Ok(model) => STL::rejection(nobs, period) is None && model@ == (ModelView {
                    nobs,
                    period: period.unwrap(),
                    seasonal,
                    trend,
                    low_pass,
                    seasonal_deg,
                    trend_deg,
                    low_pass_deg,
                    robust,
                    seasonal_jump,
                    trend_jump,
                    low_pass_jump,
                }),
                Err(e) => STL::rejection(nobs, period) == Some(e@),
            },
    {
        let period = match period {
            Some(p) => p,
            None => {
                return Err(Error::parameter("Period must be specified for ndarray input"));
            },
        };
        if nobs / 2 < period {
            return Err(Error::too_few_cycles(nobs, period));
        }
        Ok(
            STL {
                nobs,
                period,
                seasonal,
                trend,
                low_pass,
                seasonal_deg,
                trend_deg,
                low_pass_deg,
                robust,
                seasonal_jump,
                trend_jump,
                low_pass_jump,
            },
        )
    }

    /// The options that a fit of the model runs with; `inner_iter` and `outer_iter` choose
    /// the loop counts of this fit.
    pub fn params(&self, inner_iter: Option<usize>, outer_iter: Option<usize>) -> (r: StlParams)
        ensures
            r == self@.params(inner_iter, outer_iter),
    {
        proof {
            use_type_invariant(self);
        }
        let trend_length = match self.trend {
            Some(v) => v,
            None => default_trend_length(self.period, self.seasonal),
        };
        let low_pass_length = match self.low_pass {
            Some(v) => v,
            None => default_low_pass_length(self.period),
        };
        let seasonal_jump: usize = match self.seasonal_jump {
            Some(v) => v,
            None => 1,
        };
        let trend_jump: usize = match self.trend_jump {
            Some(v) => v,
            None => 1,
        };
        let low_pass_jump: usize = match self.low_pass_jump {
            Some(v) => v,
            None => 1,
        };
        let inner_loops: usize = match inner_iter {
            Some(v) => v,
            None => if self.robust {
                2
            } else {
                5
            },
        };
        let outer_loops: usize = match outer_iter {
            Some(v) => v,
            None => if self.robust {
                15
            } else {
                0
            },
        };
        StlParams {
            seasonal_length: Some(self.seasonal),
            trend_length: Some(trend_length),
            low_pass_length: Some(low_pass_length),
            seasonal_degree: self.seasonal_deg,
            trend_degree: self.trend_deg,
            low_pass_degree: Some(self.low_pass_deg),
            seasonal_jump: Some(seasonal_jump),
            trend_jump: Some(trend_jump),
            low_pass_jump: Some(low_pass_jump),
            inner_loops: Some(inner_loops),
            outer_loops: Some(outer_loops),
            robust: self.robust,
        }
    }

    /// Plans a fit of the model.
    pub fn plan(&self, inner_iter: Option<usize>, outer_iter: Option<usize>) -> (r: Result<
        StlPlan,
        Error,
    >)
        ensures
            self@.params(inner_iter, outer_iter).planned(self@.nobs, self@.period, r),
            r matches Ok(plan) ==> plan.wf(),
    {
        proof {
            use_type_invariant(self);
        }
        self.params(inner_iter, outer_iter).plan(self.nobs, self.period)
    }

    /// Length of the seasonal cycle.
    pub fn period(&self) -> (r: usize)
        ensures
            r == self@.period,
    {
        self.period
    }

    /// Number of observations.
    pub fn nobs(&self) -> (r: usize)
        ensures
            r == self@.nobs,
    {
        self.nobs
    }

    /// Window of the seasonal smoother.
    pub fn seasonal(&self) -> (r: usize)
        ensures
            r == self@.seasonal,
    {
        self.seasonal
    }
}

} // verus!
