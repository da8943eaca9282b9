//! Applications that run beside a device agent.
pub mod agent_laws;
pub mod application;
pub mod device_agent;
pub mod grpc;
pub mod healthcheck;
pub mod laws;
pub mod modbus;
pub mod options;
pub mod payload;
pub mod platform;
pub mod platform_client;
pub mod subscriptions;
