//! Timeline and scene sequencing engine for an animated wallpaper.
//!
//! All quantities are integers. Times are ticks of a clock whose unit the
//! caller chooses, scalar properties are fixed-point numbers in a unit the
//! caller chooses, and the progress of a blend is an exact ratio of two tick
//! counts. The engine only compares, adds, scales and rounds these numbers, so
//! its results do not depend on the units.

pub mod animation;
pub mod interpolate;
