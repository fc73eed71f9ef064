//! What holds of the operations of the library, said of what goes into them and
//! what comes out.

pub mod acquisition;
pub mod computed;
pub mod formulas;
pub mod gateway;
pub mod layout;
pub mod modbus;
pub mod numbers;
pub mod pipelines;
pub mod plant;
pub mod redfish;
pub mod registration;
pub mod settings;
pub mod shown;
pub mod simulation;
pub mod texts;
pub mod validation;
pub mod web;
