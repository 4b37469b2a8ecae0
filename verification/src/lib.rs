//! Watch-and-dispatch alerting pipeline.
//!
//! Rules are polled against a search backend on a fixed interval; documents
//! newer than a per-rule watermark are handed through a bounded queue to a
//! dispatcher, which renders a message per document and fans it out to every
//! delivery channel bound to the rule.

pub mod channels;
pub mod config;
pub mod notifier;
pub mod queue;
pub mod watcher;
