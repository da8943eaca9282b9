//! Event-driven cloud processors: one invocation handles one event.
pub mod application;
pub mod config;
pub mod events;
pub mod handler;
pub mod laws;
pub mod runner;
pub mod tags;

pub use application::{Handled, PingOptions, SkipReason};
pub use config::{InvocationPublishTarget, ProcConfig};
pub use events::{
    AggregateUpdateEvent, ChannelId, DeploymentEvent, EventMessage, EventPayload,
    IngestionEndpointEvent, ManualInvokeEvent, MessageCreateEvent, ScheduleEvent,
};
pub use runner::{LambdaMeta, ProcessorContext};
pub use tags::{LogMode, ProcessorTags, SetProcessorTagOptions};
