//! Planning and decision logic of a runner that drives quadruped gaits on a
//! Unitree Go2.
//!
//! The library reads the command line, says what a run consists of tick by tick,
//! orders joint values by motor, paces the live stream, drives the LED indicator
//! and lays out the telemetry. It holds no floating-point number: numbers from
//! the command line are carried as texts, and measured values are carried through
//! as a type parameter together with the arithmetic to apply to them.

pub mod audit;
pub mod cli;
pub mod command;
pub mod gait;
pub mod help;
pub mod joints;
pub mod led;
pub mod legs;
pub mod numbers;
pub mod numeral;
pub mod quote;
pub mod record;
pub mod run;
pub mod schedule;
pub mod start;
pub mod support;
pub mod telemetry;
pub mod text;
pub mod util;
pub mod viz;
