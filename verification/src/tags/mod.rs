//! Tag values.
//!
//! Tags live in the `tag_values` channel aggregate, namespaced per app:
//! `{<app_key>: {<tag>: value}}`. Writes are buffered per loop iteration and
//! committed once, with a publish age that depends on whether anyone has the
//! app open. Live tags are streamed as one-shot messages while they are watched.
pub mod handle;
pub mod key_path;
pub mod runtime;
pub mod runtime_laws;
pub mod triggers;
pub mod value;

pub use handle::{tag_ref_lookup, ui_tag_type, Tag};
pub use key_path::{strip_paths, KeyPath};
pub use runtime::{SetTagOptions, TagsRuntime};
pub use triggers::{LogTrigger, TriggerSet, TriggerState};
pub use value::{TagType, TagValue};
