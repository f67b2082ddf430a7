//! The catalog record of a download.
//!
//! The catalog keeps one record for every download it has seen. The store
//! itself belongs to the caller; this module holds the record and the rules
//! by which it changes.

use vstd::prelude::*;
use crate::text::str_is;

verus! {

/// One record of the catalog.
#[derive(Debug, Clone)]
pub struct Download {
    /// Identity of the download: 128 bits that begin with the time of
    /// creation in milliseconds.
    pub id: u128,
    pub filename: String,
    /// `None` while in progress, else `completed`, `paused` or `failed`.
    pub status: Option<String>,
    /// Size of the file, if the server has told it.
    pub size: Option<i64>,
    pub bytes_received: i64,
    pub url: String,
    pub etag: Option<String>,
    pub content_type: Option<String>,
    pub last_modified: Option<String>,
    /// Absolute path of the destination file.
    pub destination: String,
    /// Whether the server accepts range requests.
    pub accept_ranges: bool,
    /// Seconds since the epoch at the last change.
    pub updated_at: i64,
}

/// The seconds since the epoch at which an identity was created: its first
/// 48 bits are that time in milliseconds.
pub open spec fn created_seconds(id: u128) -> int {
    (id as int / 0x1_0000_0000_0000_0000_0000) / 1000
}

impl Download {
    /// The status is `completed`.
    pub open spec fn completed(&self) -> bool {
        self.status matches Some(s) && s@ == "completed"@
    }

    /// What the catalog holds of every record: no more bytes received than
    /// the file has, and all of them once the download is completed.
    pub open spec fn valid(&self) -> bool {
        self.size matches Some(size) ==> 0 <= self.bytes_received <= size && (self.completed()
            ==> self.bytes_received == size)
    }

    /// When the download was created, in seconds since the epoch.
    pub fn created_at(&self) -> (r: Option<i64>)
        ensures
            r == Some(created_seconds(self.id) as i64),
    {
        extract_timestamp_from_uuid_v7(self.id)
    }

    /// Whether the download is completed.
    pub fn is_completed(&self) -> (r: bool)
        ensures
            r == self.completed(),
    {
        match &self.status {
            Some(s) => str_is(s.as_str(), "completed"),
            None => false,
        }
    }

    /// Whether the download is in progress.
    pub fn is_in_progress(&self) -> (r: bool)
        ensures
            r == self.status is None,
    {
        self.status.is_none()
    }

    /// Marks the download as completed at the time `now`: every byte of
    /// the file counts as received.
    pub fn mark_completed(&mut self, now: i64)
        ensures
            final(self).completed(),
            (old(self).size matches Some(size) ==> size >= 0) ==> final(self).valid(),
            final(self).bytes_received == match old(self).size {
                Some(size) => size,
                None => old(self).bytes_received,
            },
            final(self).updated_at == now,
            final(self).id == old(self).id,
            final(self).filename == old(self).filename,
            final(self).size == old(self).size,
            final(self).url == old(self).url,
            final(self).etag == old(self).etag,
            final(self).content_type == old(self).content_type,
            final(self).last_modified == old(self).last_modified,
            final(self).destination == old(self).destination,
            final(self).accept_ranges == old(self).accept_ranges,
    {
        self.status = Some("completed".to_owned());
        match self.size {
            Some(size) => {
                self.bytes_received = size;
            },
            None => {},
        }
        self.updated_at = now;
    }

    /// Records at the time `now` that `bytes_received` bytes are on disk.
    pub fn update_progress(&mut self, bytes_received: i64, now: i64)
        ensures
            final(self).bytes_received == bytes_received,
            final(self).updated_at == now,
            final(self).id == old(self).id,
            final(self).filename == old(self).filename,
            final(self).status == old(self).status,
            final(self).size == old(self).size,
            final(self).url == old(self).url,
            final(self).etag == old(self).etag,
            final(self).content_type == old(self).content_type,
            final(self).last_modified == old(self).last_modified,
            final(self).destination == old(self).destination,
            final(self).accept_ranges == old(self).accept_ranges,
    {
        self.bytes_received = bytes_received;
        self.updated_at = now;
    }

    /// Replaces at the time `now` what the server has said about the file.
    pub fn update_headers(
        &mut self,
        size: Option<i64>,
        content_type: Option<String>,
        etag: Option<String>,
        last_modified: Option<String>,
        accept_ranges: bool,
        now: i64,
    )
        ensures
            final(self).size == size,
            final(self).content_type == content_type,
            final(self).etag == etag,
            final(self).last_modified == last_modified,
            final(self).accept_ranges == accept_ranges,
            final(self).updated_at == now,
            final(self).id == old(self).id,
            final(self).filename == old(self).filename,
            final(self).status == old(self).status,
            final(self).bytes_received == old(self).bytes_received,
            final(self).url == old(self).url,
            final(self).destination == old(self).destination,
    {
        self.size = size;
        self.content_type = content_type;
        self.etag = etag;
        self.last_modified = last_modified;
        self.accept_ranges = accept_ranges;
        self.updated_at = now;
    }
}

/// The time of creation in the first 48 bits of an identity, in seconds
/// since the epoch.
pub fn extract_timestamp_from_uuid_v7(id: u128) -> (r: Option<i64>)
    ensures
        r == Some(created_seconds(id) as i64),
{
    let timestamp_ms: u128 = id / 0x1_0000_0000_0000_0000_0000;
    Some((timestamp_ms / 1000) as i64)
}

} // verus!
