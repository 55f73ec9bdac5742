//! Call coalescing for keyed computations: for each key at most one
//! computation is in flight, and every caller that asks for the key while it
//! runs receives the one result.
//!
//! The crate holds the state and every decision of the cache and performs no
//! blocking itself. An embedding that shares a cache between threads takes a
//! [`Step`] from the cache, does what the step names (run the computation, or
//! block until notified or until the remaining time is over) and hands the
//! outcome back. A caller that has the cache to itself makes the whole call
//! at once, with [`PyCache::get_or_compute`] or, for a Python function, with
//! `PyCache::py_call`.
//!
//! [`laws`] states what holds of the cache whatever its callers do.
pub mod cache;
pub mod coalescer;
pub mod error;
pub mod handle;
pub mod laws;
pub mod model;
pub mod python;
pub mod store;
pub mod value;

pub use cache::PyCache;
pub use coalescer::{ComputeTicket, Step, WaitTicket};
pub use error::CacheError;
pub use handle::{EntryHandle, Resolution, WaitOutcome};
pub use model::{EntryState, HandleId, HandleState, StoreState};
pub use store::Store;
pub use value::Value;
