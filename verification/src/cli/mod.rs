//! The command line.
pub mod laws;
pub mod parse;
pub mod shapes;
