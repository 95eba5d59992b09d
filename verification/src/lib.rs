//! State manager of a smart irrigation controller.
//!
//! The manager keeps the last reported soil moisture level, a history of
//! timestamped readings, an optional threshold and the pump's on/off flag.
//! Every operation is a method of [`Irrigation`]; what each one does is stated
//! over [`Model`], the mathematical value of the state.
//!
//! Moisture levels are IEEE 754 binary64 values. The manager never does
//! arithmetic on them: it stores them, hands them back and orders them, so a
//! level is held by its bit pattern ([`Level`]). The one place where
//! arithmetic is needed, the mean of a window of readings, takes it from the
//! caller.
pub mod history;
pub mod irrigation;
pub mod level;
pub mod model;
pub mod reading;

pub use irrigation::Irrigation;
pub use level::Level;
pub use model::Model;
pub use reading::MoistureData;
