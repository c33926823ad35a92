//! Cumulative-percentage histogram library.
//!
//! Values are classified into `nbins` contiguous bins spanning a range
//! `[min, max)`; out-of-range values are clamped into the outermost bins.
//! A histogram accumulates one count per recorded value, and a report
//! turns the counts into one record per bin, carrying the cumulative
//! counts and the displayed value-range bounds.

pub mod binning;
pub mod histogram;
pub mod parse;
pub mod report;
pub mod sums;
