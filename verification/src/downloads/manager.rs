//! The lifecycle manager: which downloads are live, whether a new one may
//! start, and whether an interrupted one resumes or restarts from zero.
//!
//! The manager owns the map from the identity of a live download to the
//! handles of its tasks. What a handle is, is the caller's business: the
//! manager only keeps it and gives it back when the download stops.

use vstd::prelude::*;
use std::collections::HashMap;
use super::coordinator::Coordinator;
use super::download::Download;
use super::download::max_index_for;
use super::headers::extract_content_length;
use super::headers::extract_etag;
use super::headers::extract_filename;
use super::headers::extract_filename_from_url;
use super::headers::extract_last_modified;
use super::headers::filename_in_header;
use super::headers::filename_in_url;
use super::headers::supports_resume;
use super::headers::unquoted;
use super::index::Index;
use super::journal::parse_journal;
use super::workers::transfer_mode;
use super::workers::Mode;
use crate::text::append_decimal;
use crate::text::append_str;
use crate::text::decimal;
use crate::text::opt_text;
use crate::text::parse_u64_spec;
use crate::text::same_ignoring_ascii_case;
use crate::text::str_is;
use crate::text::string_of;

verus! {

broadcast use vstd::std_specs::hash::group_hash_axioms;

/// Control commands for active downloads.
#[derive(Debug, Clone)]
pub enum ControlCommand {
    Pause,
    Resume,
    Cancel,
    SpeedLimit { bytes_per_sec: u64 },
}

/// What the front end asks for.
#[derive(Debug, Clone)]
pub enum DownloadRequest {
    /// Download these URLs.
    New(Vec<String>),
    /// Resume the downloads with these identities.
    Resume(Vec<u128>),
}

/// Why a request was turned down.
#[derive(Clone, Copy, Debug, PartialEq, Eq, Structural)]
pub enum RequestError {
    /// As many downloads are live as the settings allow.
    MaxConcurrent(u8),
}

/// What a server has said about a file in answer to a HEAD request.
#[derive(Debug, Clone)]
pub struct ServerHeaders {
    /// The file name of `Content-Disposition`.
    pub filename: Option<String>,
    /// `Content-Length`.
    pub size: Option<i64>,
    /// `Content-Type`.
    pub content_type: Option<String>,
    /// `ETag`, without quotes.
    pub etag: Option<String>,
    /// `Last-Modified`.
    pub last_modified: Option<String>,
    /// Whether `Accept-Ranges` is `bytes`.
    pub accept_ranges: bool,
}

/// What stops with a download, and what is to be done about it.
#[derive(Debug)]
pub struct Stopped<H> {
    /// The handles of the download's tasks, to be aborted.
    pub handles: H,
    /// Whether the journal is to be deleted; it is kept for a pause, so
    /// that the download can resume.
    pub delete_journal: bool,
    /// Whether to announce a cancellation after the pause.
    pub cancelled: bool,
}

/// How a new download starts.
#[derive(Debug, Clone)]
pub struct NewPlan {
    /// The name of the file: the server's, else the end of the URL.
    pub filename: String,
    /// The directory from the settings; `None` for the platform's.
    pub directory: Option<String>,
    /// How the file is transferred.
    pub mode: Mode,
    /// The state to journal and to hand to the coordinator.
    pub download: Download,
}

/// How an interrupted download goes on.
#[derive(Debug, Clone)]
pub enum ResumePlan {
    /// The file on the server is no longer the one that was being
    /// downloaded, or the local file is gone: delete the journal and start
    /// from zero with this fresh state.
    Restart { download: Download },
    /// Go on from the journal with this state.
    Continue { download: Download },
    /// The journal is missing or cannot be read: leave the download alone.
    Unreadable,
}

/// The live downloads.
pub struct DownloadManager<H> {
    instances: HashMap<u128, H>,
}

/// The text of an error.
pub open spec fn request_error_text(e: RequestError) -> Seq<char> {
    match e {
        RequestError::MaxConcurrent(max) => "Max concurrent downloads ("@ + decimal(max as nat)
            + ") reached"@,
    }
}

/// A size in bytes as the catalog keeps it: unknown when it has no room in
/// 63 bits.
pub open spec fn catalog_size(length: Option<u64>) -> Option<i64> {
    match length {
        Some(n) => if n <= i64::MAX {
            Some(n as i64)
        } else {
            None
        },
        None => None,
    }
}

/// The size that a coordinator works with: 0 when the size is unknown.
pub open spec fn size_or_zero(size: Option<i64>) -> u64 {
    match size {
        Some(n) => if n >= 0 {
            n as u64
        } else {
            0
        },
        None => 0,
    }
}

/// The size for choosing how to transfer: unknown stays unknown.
pub open spec fn known_size(size: Option<i64>) -> Option<u64> {
    match size {
        Some(n) => if n >= 0 {
            Some(n as u64)
        } else {
            None
        },
        None => None,
    }
}

/// What was stored differs from what the server says now, where something
/// was stored.
pub open spec fn text_changed(stored: Option<String>, server: Option<String>) -> bool {
    stored is Some && opt_text(server) != opt_text(stored)
}

/// Whether a download must restart from zero instead of resuming: the
/// destination file is missing, or the stored entity tag, date of last
/// modification or size is known and differs from the server's.
pub open spec fn must_restart(
    file_exists: bool,
    stored: crate::database::Download,
    server: ServerHeaders,
) -> bool {
    ||| !file_exists
    ||| text_changed(stored.etag, server.etag)
    ||| text_changed(stored.last_modified, server.last_modified)
    ||| (stored.size is Some && server.size != stored.size)
}

/// Whether two optional texts are the same.
fn same_text(a: &Option<String>, b: &Option<String>) -> (r: bool)
    ensures
        r == (opt_text(*a) == opt_text(*b)),
{
    match (a, b) {
        (Some(x), Some(y)) => str_is(x.as_str(), y.as_str()),
        (None, None) => true,
        _ => false,
    }
}

impl RequestError {
    /// The text of this error.
    pub fn message(&self) -> (text: String)
        ensures
            text@ == request_error_text(*self),
    {
        match self {
            RequestError::MaxConcurrent(max) => {
                let mut out: Vec<char> = Vec::new();
                append_str(&mut out, "Max concurrent downloads (");
                append_decimal(&mut out, *max as u64);
                append_str(&mut out, ") reached");
                proof {
                    assert(out@.subrange(0, out@.len() as int) =~= out@);
                }
                string_of(&out, 0, out.len())
            },
        }
    }
}

/// What the headers of a response say about the file. Each argument is
/// the value of one header, `None` when the header is absent.
pub fn read_headers(
    content_disposition: Option<&str>,
    content_length: Option<&str>,
    content_type: Option<&str>,
    etag: Option<&str>,
    last_modified: Option<&str>,
    accept_ranges: Option<&str>,
) -> (h: ServerHeaders)
    ensures
        opt_text(h.filename) == match content_disposition {
            Some(v) => filename_in_header(v@),
            None => None,
        },
        h.size == catalog_size(
            match content_length {
                Some(v) => parse_u64_spec(v@),
                None => None,
            },
        ),
        opt_text(h.content_type) == match content_type {
            Some(v) => Some(v@),
            None => None,
        },
        opt_text(h.etag) == match etag {
            Some(v) => Some(unquoted(v@)),
            None => None,
        },
        opt_text(h.last_modified) == match last_modified {
            Some(v) => Some(v@),
            None => None,
        },
        h.accept_ranges == match accept_ranges {
            Some(v) => same_ignoring_ascii_case(v@, "bytes"@),
            None => false,
        },
{
    let size = match extract_content_length(content_length) {
        Some(n) => if n <= i64::MAX as u64 {
            Some(n as i64)
        } else {
            None
        },
        None => None,
    };
    ServerHeaders {
        filename: extract_filename(content_disposition),
        size,
        content_type: extract_last_modified(content_type),
        etag: extract_etag(etag),
        last_modified: extract_last_modified(last_modified),
        accept_ranges: supports_resume(accept_ranges),
    }
}

/// Whether a download must restart from zero instead of resuming.
pub fn needs_restart(
    file_exists: bool,
    stored: &crate::database::Download,
    server: &ServerHeaders,
) -> (r: bool)
    ensures
        r == must_restart(file_exists, *stored, *server),
{
    !file_exists || (stored.etag.is_some() && !same_text(&server.etag, &stored.etag)) || (
    stored.last_modified.is_some() && !same_text(&server.last_modified, &stored.last_modified))
        || (stored.size.is_some() && !same_size(server.size, stored.size))
}

/// Whether two optional sizes are the same.
fn same_size(a: Option<i64>, b: Option<i64>) -> (r: bool)
    ensures
        r == (a == b),
{
    match (a, b) {
        (Some(x), Some(y)) => x == y,
        (None, None) => true,
        _ => false,
    }
}

/// The size that a coordinator works with.
fn coordinator_size(size: Option<i64>) -> (r: u64)
    ensures
        r == size_or_zero(size),
{
    match size {
        Some(n) => if n >= 0 {
            n as u64
        } else {
            0
        },
        None => 0,
    }
}

/// Plans a new download of `url`, for which the server has sent `server`.
///
/// The file is named as the server says, else after the end of the URL. It
/// goes to `download_location`, or to the platform's download directory
/// when that is empty. Segments are planned for the size that the server
/// has told; without a size, without range requests, or for a file smaller
/// than one segment unit, one worker streams the file.
pub fn plan_new(url: &str, server: &ServerHeaders, download_location: &str, num_threads: u8) -> (plan:
    NewPlan)
    ensures
        plan.filename@ == match server.filename {
            Some(name) => name@,
            None => filename_in_url(url@),
        },
        opt_text(plan.directory) == if download_location@.len() == 0 {
            None
        } else {
            Some(download_location@)
        },
        plan.mode == match known_size(server.size) {
            Some(size) => if size == 0 {
                Mode::Empty
            } else if server.accept_ranges && max_index_for(size) > 0 {
                Mode::Multi
            } else {
                Mode::Single
            },
            None => Mode::Single,
        },
        plan.download.coordinator == (Coordinator {
            next_index: 0,
            max_index: max_index_for(size_or_zero(server.size)) as u8,
            steal_ptr: 2,
            steal_exhausted: false,
            total_size: size_or_zero(server.size),
        }),
        plan.download.range@ == Seq::<Index>::empty(),
        plan.download.coordinator.consistent(plan.download.range@),
{
    let filename = match &server.filename {
        Some(name) => name.clone(),
        None => extract_filename_from_url(url),
    };
    let directory = if download_location.is_empty() {
        None
    } else {
        Some(download_location.to_owned())
    };
    let size = match server.size {
        Some(n) => if n >= 0 {
            Some(n as u64)
        } else {
            None
        },
        None => None,
    };
    NewPlan {
        filename,
        directory,
        mode: transfer_mode(size, server.accept_ranges),
        download: Download::new(coordinator_size(server.size), num_threads),
    }
}

/// Plans how an interrupted download goes on, and brings its record up to
/// date.
///
/// `file_exists` and `current_file_size` describe the destination file,
/// `server` is the answer to a fresh HEAD request, `journal` holds the
/// bytes of the journal if there is one, and `now` is the time.
///
/// When the download must restart, the record takes the server's headers
/// and counts no byte as received, and the plan holds a fresh state as for
/// a new download. Otherwise the record counts the bytes of the file as
/// received, and the plan holds the state read from the journal.
pub fn plan_resume(
    record: &mut crate::database::Download,
    file_exists: bool,
    current_file_size: i64,
    server: ServerHeaders,
    journal: Option<&[u8]>,
    num_threads: u8,
    now: i64,
) -> (plan: ResumePlan)
    ensures
        final(record).id == old(record).id,
        final(record).url == old(record).url,
        final(record).filename == old(record).filename,
        final(record).destination == old(record).destination,
        final(record).status == old(record).status,
        final(record).updated_at == now,
        must_restart(file_exists, *old(record), server) ==> {
            &&& final(record).bytes_received == 0
            &&& final(record).size == server.size
            &&& final(record).etag == server.etag
            &&& final(record).last_modified == server.last_modified
            &&& final(record).content_type == server.content_type
            &&& final(record).accept_ranges == server.accept_ranges
            &&& plan matches ResumePlan::Restart { download }
            &&& download.range@ == Seq::<Index>::empty()
            &&& download.coordinator == (Coordinator {
                next_index: 0,
                max_index: max_index_for(size_or_zero(server.size)) as u8,
                steal_ptr: 2,
                steal_exhausted: false,
                total_size: size_or_zero(server.size),
            })
        },
        !must_restart(file_exists, *old(record), server) ==> {
            &&& final(record).bytes_received == current_file_size
            &&& final(record).size == old(record).size
            &&& final(record).etag == old(record).etag
            &&& final(record).last_modified == old(record).last_modified
            &&& final(record).content_type == old(record).content_type
            &&& final(record).accept_ranges == old(record).accept_ranges
            &&& match journal {
                None => plan is Unreadable,
                Some(bytes) => match parse_journal(bytes@, size_or_zero(server.size)) {
                    Ok((c, live)) => plan matches ResumePlan::Continue { download }
                        && download.coordinator == c && download.range@ == live,
                    Err(_) => plan is Unreadable,
                },
            }
        },
{
    if needs_restart(file_exists, record, &server) {
        let download = Download::new(coordinator_size(server.size), num_threads);
        record.update_headers(
            server.size,
            server.content_type,
            server.etag,
            server.last_modified,
            server.accept_ranges,
            now,
        );
        record.update_progress(0, now);
        ResumePlan::Restart { download }
    } else {
        record.update_progress(current_file_size, now);
        match journal {
            None => ResumePlan::Unreadable,
            Some(bytes) => match Download::decode(bytes, coordinator_size(server.size)) {
                Ok(download) => ResumePlan::Continue { download },
                Err(_) => ResumePlan::Unreadable,
            },
        }
    }
}

/// Closes the books on a download whose last byte has been written: the
/// record is marked completed with every byte received. The result says
/// that the journal is to be deleted.
pub fn complete(record: &mut crate::database::Download, now: i64) -> (delete_journal: bool)
    ensures
        delete_journal,
        final(record).completed(),
        (old(record).size matches Some(size) ==> size >= 0) ==> final(record).valid(),
        final(record).bytes_received == match old(record).size {
            Some(size) => size,
            None => old(record).bytes_received,
        },
        final(record).id == old(record).id,
        final(record).updated_at == now,
{
    record.mark_completed(now);
    true
}

impl<H> Default for DownloadManager<H> {
    fn default() -> (m: Self)
        ensures
            m@ == Map::<u128, H>::empty(),
    {
        DownloadManager::new()
    }
}

impl<H> DownloadManager<H> {
    /// The live downloads: the handles of each, by identity.
    pub closed spec fn view(&self) -> Map<u128, H> {
        self.instances@
    }

    /// A manager without live downloads.
    pub fn new() -> (m: Self)
        ensures
            m@ == Map::<u128, H>::empty(),
    {
        DownloadManager { instances: HashMap::new() }
    }

    /// Whether one more download may start when at most `max_concurrent`
    /// may be live at once; 0 stands for no limit.
    pub fn may_start(&self, max_concurrent: u8) -> (r: Result<(), RequestError>)
        ensures
            r == if max_concurrent > 0 && self@.len() >= max_concurrent {
                Err::<(), RequestError>(RequestError::MaxConcurrent(max_concurrent))
            } else {
                Ok::<(), RequestError>(())
            },
    {
        if max_concurrent > 0 && self.active_count() >= max_concurrent as usize {
            Err(RequestError::MaxConcurrent(max_concurrent))
        } else {
            Ok(())
        }
    }

    /// Registers a download as live.
    pub fn add_instance(&mut self, id: u128, handles: H)
        ensures
            final(self)@ == old(self)@.insert(id, handles),
    {
        self.instances.insert(id, handles);
    }

    /// Pauses a download: it is no longer live, its tasks are to be
    /// aborted, and its journal stays. `None` when it was not live.
    pub fn pause_instance(&mut self, id: u128) -> (r: Option<Stopped<H>>)
        ensures
            final(self)@ == old(self)@.remove(id),
            match r {
                Some(s) => old(self)@.contains_key(id) && s.handles == old(self)@[id]
                    && !s.delete_journal && !s.cancelled,
                None => !old(self)@.contains_key(id),
            },
    {
        match self.instances.remove(&id) {
            Some(handles) => Some(Stopped { handles, delete_journal: false, cancelled: false }),
            None => None,
        }
    }

    /// Cancels a download: as a pause, and its journal is to be deleted.
    /// `None` when it was not live.
    pub fn cancel_instance(&mut self, id: u128) -> (r: Option<Stopped<H>>)
        ensures
            final(self)@ == old(self)@.remove(id),
            match r {
                Some(s) => old(self)@.contains_key(id) && s.handles == old(self)@[id]
                    && s.delete_journal && s.cancelled,
                None => !old(self)@.contains_key(id),
            },
    {
        match self.pause_instance(id) {
            Some(s) => Some(Stopped { handles: s.handles, delete_journal: true, cancelled: true }),
            None => None,
        }
    }

    /// Stops every download: none is live afterwards, and the handles of
    /// all that were are given back to be aborted.
    pub fn shutdown_all(&mut self) -> (stopped: HashMap<u128, H>)
        ensures
            final(self)@ == Map::<u128, H>::empty(),
            stopped@ == old(self)@,
    {
        let mut stopped: HashMap<u128, H> = HashMap::new();
        std::mem::swap(&mut self.instances, &mut stopped);
        stopped
    }

    /// Whether a download is live.
    pub fn is_active(&self, id: u128) -> (r: bool)
        ensures
            r == self@.contains_key(id),
    {
        self.instances.contains_key(&id)
    }

    /// How many downloads are live.
    pub fn active_count(&self) -> (r: usize)
        ensures
            r == self@.len(),
    {
        self.instances.len()
    }
}

} // verus!
