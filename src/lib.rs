//! Market-data capture and replay: decoded exchange messages, the record
//! format of the binary log, the order book rebuilt from snapshots and depth
//! diffs, and the state machines that drive capture and replay.
pub mod book;
pub mod codec;
pub mod decimal;
pub mod depth;
pub mod event;
pub mod pacer;
pub mod player;
pub mod provider;
pub mod recorder;
pub mod snapshot;
pub mod stream;
pub mod trade;
