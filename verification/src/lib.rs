//! Logic for Doover device applications and cloud processors: channel events,
//! tags, configuration schemas, RPC, and the rules of the clients around them.
pub mod api;
pub mod application;
pub mod channel_backend;
pub mod cli;
pub mod config;
pub mod derive;
pub mod diff;
pub mod diff_laws;
pub mod docker;
pub mod error;
pub mod events;
pub mod json;
pub mod json_text;
pub mod models;
pub mod processor;
pub mod rpc;
pub mod tags;
pub mod testing;
pub mod text;
pub mod utils;
