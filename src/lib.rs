//! Bounds the CPU time that a unit of work may consume on its thread.
//!
//! The library holds the bookkeeping of a bounded run: the per-thread chain
//! of active contexts, the ledger of allocations made under each context,
//! the table that carries a firing context's identity to the landing site of
//! an abort, and the per-thread CPU-time watchdog timer.
pub mod context;
pub mod error;
pub mod handoff;
pub mod mem;
pub mod watchdog;

pub use context::{ContextChain, FireAction};
pub use error::Error;
pub use handoff::{Handle, HandoffTable};
pub use mem::MemTracker;
pub use watchdog::Watchdog;
