//! A safe-deletion library: the decisions behind a freedesktop-style trash
//! store (naming, sidecar metadata, listing order, retention and restore).
mod text;
pub mod policy;
pub mod item;
pub mod retention;
pub mod sidecar;
pub mod naming;
pub mod store;
pub mod relocation;

pub use policy::{KeepPolicy, PolicyError};
pub use item::TrashItem;
pub use retention::CleanupPlan;
