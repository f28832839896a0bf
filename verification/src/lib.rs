//! Hysteresis control of an on/off fan from milli-degree temperature sensors.
//!
//! The crate performs no input or output of its own. A host reads every sensor
//! in full, hands the outcomes to the controller, and writes the command byte
//! that the controller answers with, if any, to the fan.

pub mod controller;
pub mod error;
pub mod mean;
pub mod reading;

pub use controller::{ActuatorState, FanController, FanControllerView, FAN_OFF, FAN_ON};
pub use error::FanError;
pub use mean::MeanTemperature;
pub use reading::{parse_millidegrees, read_temperature, SensorRead};
