//! An interactive candlestick chart engine: trade matching, viewport state,
//! and the geometry and transforms that render a fixed historical dataset.
//!
//! Prices are fixed-point integers (ticks), volumes are integers in the
//! smallest traded unit, datetimes are local wall-clock seconds, and screen
//! positions are whole pixels.
pub mod market;
pub mod matcher;
pub mod layout;
pub mod viewport;
pub mod geometry;
pub mod loader;
pub mod transform;
