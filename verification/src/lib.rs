//! Configuration and per-event decisions of a `tracing` layer that forwards
//! spans and events to an ETW / user_events provider.

pub mod filter;
pub mod guid;
pub mod layer;
pub mod order;
pub mod provider;
pub mod span;
pub mod targets;

pub use filter::{CallsiteInterest, EventMetadata, EventRecordHeader};
pub use guid::GuidWrapper;
pub use layer::LayerBuilder;
pub use provider::{CommonSchemaProvider, Provider, ProviderTypes};
pub use span::{FieldValueIndex, SpanData};
pub use targets::TargetLevel;
