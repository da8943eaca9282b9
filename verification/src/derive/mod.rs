//! What declarations of configurations, choices and tags expand to.
pub mod choices;
pub mod fields;
pub mod laws;
pub mod log_on;
pub mod names;
pub mod structs;
pub mod tags;
