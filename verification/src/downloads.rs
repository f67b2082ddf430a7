//! The download engine: the partition table, segment cursors, the
//! coordinator that hands out and steals byte ranges, the journal, and the
//! decisions of workers and of the lifecycle manager.

pub mod client;
pub mod constants;
pub mod coordinator;
pub mod download;
pub mod events;
pub mod headers;
pub mod identity;
pub mod index;
pub mod journal;
pub mod manager;
pub mod workers;
