//! Brightness control for Linux devices: backlights, leds and display data
//! channel monitors. This crate holds the decisions; reading and writing the
//! device files is left to the caller.
pub mod text;
pub mod shared;
pub mod util;
pub mod backlight;
pub mod led;
pub mod cli;
pub mod control;
pub mod i2c;
pub mod edid;
pub mod ddc;
