//! The HTTP collector audit sink `dev.mcpg.audit.http`: its configuration,
//! the record it ships for an event, the retry schedule of one batch, and the
//! writer that groups queued events into batches.

pub mod batch;
pub mod config;
pub mod history;
pub mod protocol;
pub mod record;
pub mod retry;
pub mod sink;
pub mod text;
pub mod writer;

pub use config::{ConfigError, ConfigFields, HttpSinkConfig};
pub use sink::HttpAuditSink;
