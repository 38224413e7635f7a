//! Drives a fixed set of independent digital output channels through
//! looping timing patterns, using a single periodic timer tick as the only
//! time source. Each channel replays an immutable schedule of sign-encoded
//! entries: the sign of an entry selects the output level (negative is low,
//! non-negative is high) and its magnitude is how many ticks that level is
//! held. A per-channel countdown register decouples the channels' update
//! rates from the shared tick.

pub mod channel;
pub mod dispatch;
pub mod schedule;
pub mod unit;
