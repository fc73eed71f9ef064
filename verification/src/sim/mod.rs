//! A stand-alone simulator: a plant whose controls and sensors are registers of
//! a Modbus device.

pub mod layout;
pub mod model;
pub mod registers;
pub mod rules;
pub mod server;
pub mod web;
pub mod web_assets;
