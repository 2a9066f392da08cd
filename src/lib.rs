//! Nutrient dosing for fertilizer solutions: a chemical-formula parser, the
//! element and fertilizer model with fixed-point composition math, tanks, and
//! the dosing engine.
//!
//! Units used throughout the library:
//! - molar masses in micrograms per mole;
//! - mass fractions in parts per billion (`1_000_000_000` is the whole);
//! - fertilizer amounts in micrograms;
//! - concentrations in nanograms per liter;
//! - tank volumes in milliliters as given, in whole liters as used; tank
//!   dimensions in millimeters.

pub mod elements;
pub mod formula;
pub mod compound;
pub mod order;
pub mod composition;
pub mod tank;
pub mod mix;
pub mod fertilizer;
pub mod dosing;
pub mod catalog;
pub mod laws;
