//! Integer conversions between the Fahrenheit and Celsius temperature scales.
pub mod temperature;

pub use temperature::{c2f, f2c};
