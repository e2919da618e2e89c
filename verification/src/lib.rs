//! A sharded concurrent counter primitive.
//!
//! A single shared accumulator becomes a bottleneck when many cores write to
//! it, because every writer contends for the same cache line. This library
//! spreads writes across several padded slots: each thread of execution is
//! handed a stable identity and adds into the slot that identity selects, so
//! writers mostly touch independent cache lines. Reading the total walks all
//! slots and sums them, so a read costs more as the shard count grows; the
//! trade-off is the design's central lever.
//!
//! The counter state is explicit: operations take the counter by mutable
//! reference, and thread identities come from an explicit
//! [`assigner::ThreadShardAssigner`] service object rather than ambient
//! global state, which keeps every component independently checkable.

pub mod assigner;
pub mod counter;
pub mod decimal;
pub mod default;
pub mod model;
pub mod safe_getters;
pub mod sizing;
pub mod utils;

pub use counter::ConcurrentCounter;
