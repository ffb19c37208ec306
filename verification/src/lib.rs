//! Verified core of a managed-runtime injection loader.
//!
//! The crate covers the four tightly coupled pieces of the loader:
//! the textual configuration protocol (`config`), the concurrent
//! dispatch-table registry used by the graphics-layer strategy
//! (`registry`), the one-time gates that guarantee exactly-once
//! bootstrap (`gate`), the graphics-layer negotiation and
//! create/destroy/resolve decisions (`vulkan`), and the runtime
//! bootstrap plan and its first-error state machine (`bootstrap`).
//!
//! Platform hook installation, file probing and the actual calls into
//! the hosting component are thin unverified shells around this crate;
//! every decision they take is computed here, on plain values.

pub mod bootstrap;
pub mod config;
pub mod gate;
pub mod paths;
pub mod registry;
pub mod text;
pub mod vulkan;
