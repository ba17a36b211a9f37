//! Profit and loss of a position in an underlying and options on it, as a
//! function of the price the underlying is assumed to reach at expiry, and
//! the points at which that function is worth charting.
//!
//! - [`models`] holds the position, its option legs and the chart's points,
//!   each with its mathematical model.
//! - [`calculate`] values a position at one price.
//! - [`chart`] picks the prices to plot and values the position at each.
//! - [`sorting`] puts prices in ascending order.
//! - [`laws`] proves what holds of the valuation and of the chart whatever
//!   the position and the price.
//!
//! Every quantity is an exact integer and nothing is rounded: prices count
//! ticks, amounts count lots, and money counts ticks times lots. A chart
//! counts its prices in steps, twenty to the tick, and its money in steps
//! times lots, so that its margin of a twentieth of the reference price is
//! exact too.
pub mod calculate;
pub mod chart;
pub mod laws;
pub mod models;
pub mod sorting;

pub use calculate::{calculate_chart_gain_loss, calculate_expected_gain_loss};
pub use chart::get_chart_points;
pub use models::{
    ChartPoint, ExerciseResult, OptionLeg, OptionLegView, OptionType, Position, PositionView,
    ReturnData, CHART_STEPS_PER_TICK, MAX_LEGS,
};
