//! A telemetry gateway: it polls devices over Modbus, turns raw samples into
//! metrics, and shows them over Redfish, Modbus and a dashboard. Beside it
//! stands a simulator of such a device.
//!
//! - [`config`], [`readability`], [`validation`], [`validity`], [`reach`],
//!   [`registration`], [`config_handle`]: the configuration, its rules, and
//!   changes to it
//! - [`acquisition`], [`simulation`]: where samples come from
//! - [`pipeline`], [`computed`], [`gateway`]: from samples to metrics
//! - [`store`]: the latest values
//! - [`protocol`], [`health`], [`dashboard`]: what is shown, and writes
//! - [`sim`]: the simulator; [`mock`]: a board in memory
//! - [`evaluation`], [`engine`]: formulas that refer to one another
//! - [`number`], [`text`], [`graph`], [`expression`]: what all of it rests on
//! - [`laws`]: what holds of all of these

pub mod text;
pub mod number;
pub mod graph;
pub mod expression;
pub mod config;
pub mod copying;
pub mod readability;
pub mod validation;
pub mod validity;
pub mod reach;
pub mod registration;
pub mod config_handle;
pub mod domain;
pub mod store;
pub mod evaluation;
pub mod engine;
pub mod acquisition;
pub mod simulation;
pub mod pipeline;
pub mod computed;
pub mod gateway;
pub mod logging;
pub mod protocol;
pub mod health;
pub mod dashboard;
pub mod mock;
pub mod sim;
#[allow(unused_imports)]
pub mod laws;
