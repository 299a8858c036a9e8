//! Submission engine for harvested flags. Each cycle fetches the unsent flags
//! of a durable store, releases them in rate-limited windows for concurrent
//! submission, classifies each reply, and writes the confirmed and rejected
//! ids back to the store once every submission of the cycle has reported.
//!
//! Delivery is best effort, not exactly once: when the final write fails, the
//! endpoint has already recorded those flags while the store still shows them
//! unsent, so the next cycle submits them again.
pub mod batcher;
pub mod classify;
pub mod config;
pub mod cycle;
pub mod flag;
pub mod memory;
pub mod store;

pub use batcher::{Batcher, BatcherView};
pub use classify::{classify, contains_text, submission_form, Outcome, Reply, INVALID_MARKER};
pub use config::{Config, ConfigError, ConfigOverrides, StoreTarget};
pub use cycle::{has_distinct_ids, Cycle, Flush, FlushPlan, PersistReport};
pub use flag::{Flag, FlagStatus, FlagView};
pub use memory::{MemoryStore, StoreError};
pub use store::Database;
