//! Planning core for seasonal-trend decomposition by Loess (STL) and its extension to
//! several seasonal periods (MSTL).
//!
//! A decomposition splits a regularly sampled series into a seasonal component, a trend and
//! a remainder. This crate settles everything about a decomposition that is decided on
//! integers, and proves what it settles:
//!
//! - [`params`] and [`defaults`]: which options a fit runs with, and whether a series can be
//!   decomposed at all;
//! - [`loess`]: which observations a local fit looks at, and which positions of a smoother
//!   are fitted exactly;
//! - [`subseries`]: where the cycle-subseries lie in the series, and where their smoothed
//!   values lie in the extended buffer;
//! - [`engine`]: in which order the phases of a run follow each other, and when the
//!   robustness weights count;
//! - [`order`] and [`mstl`]: in which order several periods are handled, and where each
//!   seasonal component belongs in the result;
//! - [`stl`]: the entry points, and a model with every option explicit.
//!
//! The arithmetic on the observations is left to the caller. A caller plans a fit, starts
//! an [`Engine`] on the plan, does the work that each phase names, and steps until the
//! engine is done.

pub mod defaults;
pub mod engine;
pub mod error;
pub mod loess;
pub mod mstl;
pub mod order;
pub mod params;
pub mod smoothing;
pub mod stl;
pub mod subseries;

pub use engine::Engine;
pub use engine::Phase;
pub use error::Error;
pub use error::ErrorKind;
pub use mstl::Mstl;
pub use mstl::MstlParams;
pub use mstl::MstlPlan;
pub use mstl::SeasonalFit;
pub use params::StlParams;
pub use params::StlPlan;
pub use smoothing::Degree;
pub use smoothing::SmoothingSpec;
pub use stl::Stl;
pub use stl::STL;
