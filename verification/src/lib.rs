//! Telemetry of an Apple Silicon GPU: power, temperature and fan speed.
//!
//! This library holds the rules by which the telemetry is acquired, free of
//! I/O so that each rule can be stated and proved. The program around it
//! talks to the operating system and hands the library plain values.
//!
//! - [`decode`]: from a type tag and raw bytes to a number.
//! - [`mean`]: what number a reading is, and the exact mean of readings.
//! - [`fourcc`]: the four-character codes of keys and type tags.
//! - [`smc`]: the sensor controller's key-value protocol, step by step.
//! - [`snapshot`]: the survey that gathers GPU temperatures and fans.
//! - [`service`]: what those operations amount to against a given service.
//! - [`energy`]: averaged power from cumulative energy counters.
//! - [`ioreg`], [`syspf`], [`ui`], [`utils`], [`text`]: the memory figures,
//!   the labels and the lines of the table, and the text helpers under them.

pub mod decode;
pub mod energy;
pub mod error;
pub mod fourcc;
pub mod ioreg;
pub mod mean;
pub mod service;
pub mod smc;
pub mod snapshot;
pub mod syspf;
pub mod text;
pub mod ui;
pub mod utils;
