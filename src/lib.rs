//! Lab-value tracking: clinical status classification, trend detection,
//! summary aggregation, time-range filtering and chart geometry.
//!
//! Measured values are fixed-point integers in millionths of their unit
//! (see [`types::SCALE`]); all arithmetic on them is exact.
pub mod types;
pub mod text;
pub mod status;
pub mod trend;
pub mod summary;
pub mod chart;
pub mod timefilter;
pub mod latest;
pub mod config;
pub mod markup;
pub mod api;
pub mod display;
pub mod history;
