//! A pass-through stand-in for a block-proposal consensus stage.
//!
//! On every timer tick the scheduler inspects the mempool fingerprint and the
//! shard chain's receipt-block state, and decides whether to emit a
//! single-author block proposal with the next beacon block index. The
//! decision logic lives here, fully verified; the surrounding timer loop,
//! chain reads and channel delivery are ordinary async plumbing kept outside
//! the library.

pub mod proposal;
pub mod scheduler;
