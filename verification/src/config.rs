//! Configuration of one download instance.

use vstd::prelude::*;

verus! {

/// Everything one download instance is configured with.
#[derive(Debug, Clone)]
pub struct InstanceConfig {
    pub download: DownloadConfig,
    pub thread: ThreadConfig,
    pub session: SessionConfig,
}

/// How an instance downloads.
#[derive(Debug, Clone)]
pub struct DownloadConfig {
    pub num_threads: u8,
    pub chunk_size: usize,
    pub socket_buffer_size: usize,
    pub speed_limit: usize,
}

/// How many connections an instance may open.
#[derive(Debug, Clone)]
pub struct ThreadConfig {
    pub total_connections: u8,
    pub per_task_connections: u8,
}

/// What an instance records.
#[derive(Debug, Clone)]
pub struct SessionConfig {
    pub history: bool,
    pub metadata: bool,
}

} // verus!
