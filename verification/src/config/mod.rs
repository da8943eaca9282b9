//! Application configuration: raw access, schemas, typed loading, and export.
pub mod dynamic;
pub mod elements;
pub mod export;
pub mod load;
pub mod schema;
pub mod schema_laws;

pub use dynamic::Config;
pub use elements::{
    sanitize_display_name, ApplicationDefaultOpen, ApplicationPosition, ApplicationRef, DeviceRef,
    GroupRef, TagRef,
};
pub use export::{write_config_schema, write_ui_schema};
pub use load::{
    field_optional, field_or, field_required, load_element, ConfigElementBuild, ConfigSchema,
    FromConfigValue, ToConfigValue,
};
pub use schema::{ElementKind, ElementSchema, NumericBounds, SchemaModel, StringBounds};
