//! The client of the cloud data API: what it asks for, and what it makes of the
//! replies.
pub mod auth;
pub mod data;
pub mod laws;
pub mod reply;

pub use auth::BearerAuth;
pub use data::{Channel, DataClient, ListMessagesQuery, PingConnectionArgs};
