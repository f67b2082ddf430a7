//! What a worker decides while it streams a segment, and what the progress
//! reporter computes.
//!
//! A worker asks the coordinator for a segment, requests its bytes, writes
//! each chunk at the cursor's `start`, and asks again when the segment is
//! done. The requests, the writes and the waiting are done by the caller;
//! this module holds the decisions between them: which range to request,
//! whether a response may be streamed, when to retry and after how long,
//! when to pause for the rate limit, and when a segment counts as done.

use vstd::prelude::*;
use super::constants::UNIT_BYTES;
use super::download::max_index_for;
use super::download::Download;
use super::index::Index;
use crate::text::append_decimal;
use crate::text::append_str;
use crate::text::decimal;
use crate::text::string_of;

verus! {

/// What to do after a failure.
#[derive(Clone, Copy, Debug, PartialEq, Eq, Structural)]
pub enum Step {
    /// Wait `delay_ms` milliseconds, then send the request again.
    Retry { delay_ms: u64 },
    /// The segment has failed; its cursor is left as it is.
    GiveUp,
}

/// What to do with a response, by its status.
#[derive(Clone, Copy, Debug, PartialEq, Eq, Structural)]
pub enum StatusStep {
    /// Stream the body.
    Proceed,
    /// Wait `delay_ms` milliseconds, then send the request again.
    Retry { delay_ms: u64 },
    /// The segment has failed.
    GiveUp,
}

/// What to do when the body has ended.
#[derive(Clone, Copy, Debug, PartialEq, Eq, Structural)]
pub enum EndStep {
    /// The segment is complete.
    Done,
    /// Bytes are missing: send the request again at once.
    Retry,
    /// Bytes are missing and no retry is left.
    GiveUp,
}

/// How a file is transferred.
#[derive(Clone, Copy, Debug, PartialEq, Eq, Structural)]
pub enum Mode {
    /// The file is empty: one empty write completes it.
    Empty,
    /// One worker streams the whole file; there is no coordinator and
    /// nothing is stolen.
    Single,
    /// Workers take segments from a coordinator.
    Multi,
}

/// One tick of the progress reporter.
#[derive(Clone, Copy, Debug, PartialEq, Eq, Structural)]
pub struct Progress {
    /// Bytes written so far.
    pub downloaded: u64,
    /// Bytes per second, from the bytes of the last tenth of a second.
    pub speed: u64,
    /// Seconds left at that speed; 0 when nothing moves.
    pub time_left: u64,
    /// Every byte of the file has been written.
    pub complete: bool,
}

/// The state of a worker on one segment.
#[derive(Clone, Copy, Debug, PartialEq, Eq, Structural)]
pub struct Stream {
    /// Retries used so far.
    pub retries: u8,
    /// Retries allowed.
    pub retry_count: u8,
    /// Delay before the first retry, in milliseconds; it doubles with each
    /// further retry.
    pub retry_delay_ms: u32,
    /// Bytes per second that this worker may receive; 0 for no limit.
    pub speed_limit: u64,
    /// Bytes received in the current one-second window.
    pub bytes_this_second: u64,
}

/// 2 to the power `n`.
pub open spec fn pow2(n: nat) -> nat
    decreases n,
{
    if n == 0 {
        1
    } else {
        2 * pow2((n - 1) as nat)
    }
}

/// The delay before retry number `retry` (counted from 1): the base delay
/// times 2^(retry - 1), and `u64::MAX` when that is beyond 64 bits. Retry 0
/// waits like retry 1.
pub open spec fn backoff(retry: u8, base_delay_ms: u32) -> int {
    let doublings = if retry == 0 {
        0nat
    } else {
        (retry - 1) as nat
    };
    if base_delay_ms * pow2(doublings) <= u64::MAX {
        base_delay_ms * pow2(doublings)
    } else {
        u64::MAX as int
    }
}

/// The value of the `Range` header for the bytes `[start, end)`:
/// `bytes=<start>-<end - 1>`.
pub open spec fn range_header_spec(start: u64, end: u64) -> Seq<char> {
    "bytes="@ + decimal(start as nat) + "-"@ + decimal(
        if end == 0 {
            0nat
        } else {
            (end - 1) as nat
        },
    )
}

/// A status that ends the segment at once: a client error other than 408
/// and 429, or a full response (200) where a range was asked for.
pub open spec fn is_fatal_status(status: u16, ranged: bool) -> bool {
    (400 <= status <= 499 && status != 408 && status != 429) || (status == 200 && ranged)
}

/// The delay before retry number `retry`, doubling from `base_delay_ms`.
pub fn exponential_backoff(retry: u8, base_delay_ms: u32) -> (delay: u64)
    ensures
        delay == backoff(retry, base_delay_ms),
{
    let doublings: u8 = if retry == 0 {
        0
    } else {
        retry - 1
    };
    let mut delay: u64 = base_delay_ms as u64;
    let mut i: u8 = 0;
    proof {
        assert(base_delay_ms * pow2(0) == base_delay_ms) by (nonlinear_arith)
            requires
                pow2(0) == 1,
        ;
    }
    while i < doublings
        invariant
            i <= doublings,
            delay == if base_delay_ms * pow2(i as nat) <= u64::MAX {
                base_delay_ms * pow2(i as nat)
            } else {
                u64::MAX as int
            },
        decreases doublings - i,
    {
        proof {
            assert(base_delay_ms * pow2((i + 1) as nat) == 2 * (base_delay_ms * pow2(i as nat)))
                by (nonlinear_arith)
                requires
                    pow2((i + 1) as nat) == 2 * pow2(i as nat),
            ;
        }
        delay = if delay > u64::MAX / 2 {
            u64::MAX
        } else {
            delay * 2
        };
        i = i + 1;
    }
    delay
}

/// The share of a download's rate limit that each of `num_threads` workers
/// gets; 0, no limit, when the download has none.
pub fn per_worker_limit(speed_limit: u64, num_threads: u8) -> (limit: u64)
    requires
        num_threads >= 1,
    ensures
        limit == speed_limit as int / num_threads as int,
{
    if speed_limit > 0 {
        speed_limit / (num_threads as u64)
    } else {
        0
    }
}

/// How many requests for work may wait for the coordinator: two for each
/// worker.
pub fn request_channel_capacity(num_threads: u8) -> (capacity: usize)
    ensures
        capacity == 2 * num_threads,
{
    2 * (num_threads as usize)
}

/// Whether the table has a segment for a file of `size` bytes.
pub fn has_segments(size: u64) -> (r: bool)
    ensures
        r == (max_index_for(size) > 0),
{
    match Download::get_index(size / UNIT_BYTES) {
        Some(i) => i > 0,
        None => false,
    }
}

/// How to transfer a file of `total_size` bytes from a server that does or
/// does not accept range requests.
///
/// An empty file needs no request. Without a known size, without range
/// requests, or with a file of less than one table unit (which has no
/// segment), one worker streams the whole file.
pub fn transfer_mode(total_size: Option<u64>, accept_ranges: bool) -> (mode: Mode)
    ensures
        mode == match total_size {
            Some(size) => if size == 0 {
                Mode::Empty
            } else if accept_ranges && max_index_for(size) > 0 {
                Mode::Multi
            } else {
                Mode::Single
            },
            None => Mode::Single,
        },
{
    match total_size {
        Some(size) => {
            if size == 0 {
                Mode::Empty
            } else if accept_ranges && has_segments(size) {
                Mode::Multi
            } else {
                Mode::Single
            }
        },
        None => Mode::Single,
    }
}

/// The value of the `Range` header that asks for the bytes `[start, end)`.
pub fn range_header(start: u64, end: u64) -> (header: String)
    ensures
        header@ == range_header_spec(start, end),
{
    let mut out: Vec<char> = Vec::new();
    append_str(&mut out, "bytes=");
    append_decimal(&mut out, start);
    append_str(&mut out, "-");
    append_decimal(
        &mut out,
        if end == 0 {
            0
        } else {
            end - 1
        },
    );
    proof {
        assert(out@.subrange(0, out@.len() as int) =~= out@);
    }
    string_of(&out, 0, out.len())
}

/// What the progress reporter says at a tick, a tenth of a second after the
/// tick at which `last_bytes` had been written.
pub fn progress_tick(downloaded: u64, last_bytes: u64, total_size: u64) -> (p: Progress)
    ensures
        p.downloaded == downloaded,
        p.speed == if downloaded <= last_bytes {
            0
        } else if (downloaded - last_bytes) * 10 <= u64::MAX {
            (downloaded - last_bytes) * 10
        } else {
            u64::MAX as int
        },
        p.time_left == if p.speed == 0 || total_size <= downloaded {
            0
        } else {
            (total_size - downloaded) / p.speed as int
        },
        p.complete == (downloaded >= total_size),
{
    let moved = if downloaded <= last_bytes {
        0
    } else {
        downloaded - last_bytes
    };
    let speed = if moved > u64::MAX / 10 {
        u64::MAX
    } else {
        moved * 10
    };
    let left = if total_size <= downloaded {
        0
    } else {
        total_size - downloaded
    };
    let time_left = if speed > 0 {
        left / speed
    } else {
        0
    };
    Progress { downloaded, speed, time_left, complete: downloaded >= total_size }
}

impl Stream {
    /// A worker that has not failed yet and has received nothing in the
    /// current second.
    pub fn new(speed_limit: u64, retry_count: u8, retry_delay_ms: u32) -> (s: Stream)
        ensures
            s == (Stream {
                retries: 0,
                retry_count,
                retry_delay_ms,
                speed_limit,
                bytes_this_second: 0,
            }),
    {
        Stream { retries: 0, retry_count, retry_delay_ms, speed_limit, bytes_this_second: 0 }
    }

    /// What to do after the request or the stream has failed: retry, with a
    /// delay that doubles each time, while retries are left.
    pub fn on_error(&mut self) -> (step: Step)
        ensures
            old(self).retries < old(self).retry_count ==> final(self).retries == old(self).retries
                + 1 && step == (Step::Retry {
                delay_ms: backoff(final(self).retries, old(self).retry_delay_ms) as u64,
            }),
            old(self).retries >= old(self).retry_count ==> final(self).retries == old(self).retries
                && step == Step::GiveUp,
            final(self).retry_count == old(self).retry_count,
            final(self).retry_delay_ms == old(self).retry_delay_ms,
            final(self).speed_limit == old(self).speed_limit,
            final(self).bytes_this_second == old(self).bytes_this_second,
    {
        if self.retries < self.retry_count {
            self.retries = self.retries + 1;
            Step::Retry { delay_ms: exponential_backoff(self.retries, self.retry_delay_ms) }
        } else {
            Step::GiveUp
        }
    }

    /// What to do with a response of the given status; `ranged` says
    /// whether a range was asked for.
    ///
    /// 206 is streamed, and so is 200 when the whole file was asked for. A
    /// 200 in answer to a range, and a client error other than 408 and 429,
    /// end the segment. Any other status counts as a failure that may be
    /// retried.
    pub fn on_status(&mut self, status: u16, ranged: bool) -> (step: StatusStep)
        ensures
            (status == 206 || (status == 200 && !ranged)) ==> step == StatusStep::Proceed
                && *final(self) == *old(self),
            is_fatal_status(status, ranged) ==> step == StatusStep::GiveUp && *final(self) == *old(
                self,
            ),
            !(status == 206 || (status == 200 && !ranged)) && !is_fatal_status(status, ranged) ==> {
                &&& final(self).retry_count == old(self).retry_count
                &&& final(self).retry_delay_ms == old(self).retry_delay_ms
                &&& final(self).speed_limit == old(self).speed_limit
                &&& final(self).bytes_this_second == old(self).bytes_this_second
                &&& if old(self).retries < old(self).retry_count {
                    final(self).retries == old(self).retries + 1 && step == (StatusStep::Retry {
                        delay_ms: backoff(final(self).retries, old(self).retry_delay_ms) as u64,
                    })
                } else {
                    final(self).retries == old(self).retries && step == StatusStep::GiveUp
                }
            },
    {
        if status == 206 || (status == 200 && !ranged) {
            StatusStep::Proceed
        } else if status == 200 || (400 <= status && status <= 499 && status != 408 && status
            != 429) {
            StatusStep::GiveUp
        } else {
            match self.on_error() {
                Step::Retry { delay_ms } => StatusStep::Retry { delay_ms },
                Step::GiveUp => StatusStep::GiveUp,
            }
        }
    }

    /// Counts a chunk of `len` bytes against the rate limit. `elapsed_ms`
    /// is the time since the current one-second window began.
    ///
    /// `None`: go on. `Some(ms)`: the window's budget is used up; sleep `ms`
    /// milliseconds, the rest of the second, and begin a new window.
    pub fn on_chunk(&mut self, len: u64, elapsed_ms: u64) -> (pause: Option<u64>)
        ensures
            final(self).retries == old(self).retries,
            final(self).retry_count == old(self).retry_count,
            final(self).retry_delay_ms == old(self).retry_delay_ms,
            final(self).speed_limit == old(self).speed_limit,
            old(self).speed_limit == 0 ==> pause is None && final(self).bytes_this_second == old(
                self,
            ).bytes_this_second,
            old(self).speed_limit > 0 && old(self).bytes_this_second + len < old(self).speed_limit
                ==> pause is None && final(self).bytes_this_second == old(self).bytes_this_second
                + len,
            old(self).speed_limit > 0 && old(self).bytes_this_second + len >= old(self).speed_limit
                ==> final(self).bytes_this_second == 0 && pause == Some(
                if elapsed_ms < 1000 {
                    (1000 - elapsed_ms) as u64
                } else {
                    0u64
                },
            ),
    {
        if self.speed_limit == 0 {
            return None;
        }
        if len >= self.speed_limit || self.bytes_this_second >= self.speed_limit - len {
            self.bytes_this_second = 0;
            if elapsed_ms < 1000 {
                Some(1000 - elapsed_ms)
            } else {
                Some(0)
            }
        } else {
            self.bytes_this_second = self.bytes_this_second + len;
            None
        }
    }

    /// What to do when the body has ended. `cursor` is the segment's cursor
    /// as it stands, or `None` when the whole file was streamed.
    ///
    /// A segment is done when its cursor owes nothing. A body that ended
    /// early is asked for again, at once, while retries are left.
    pub fn on_end(&mut self, cursor: Option<Index>) -> (step: EndStep)
        ensures
            final(self).retry_count == old(self).retry_count,
            final(self).retry_delay_ms == old(self).retry_delay_ms,
            final(self).speed_limit == old(self).speed_limit,
            final(self).bytes_this_second == old(self).bytes_this_second,
            match cursor {
                None => step == EndStep::Done && final(self).retries == old(self).retries,
                Some(c) => if !c.live() {
                    step == EndStep::Done && final(self).retries == old(self).retries
                } else if old(self).retries >= old(self).retry_count {
                    step == EndStep::GiveUp && final(self).retries == old(self).retries
                } else {
                    step == EndStep::Retry && final(self).retries == old(self).retries + 1
                },
            },
    {
        match cursor {
            None => EndStep::Done,
            Some(c) => {
                if c.is_done() {
                    EndStep::Done
                } else if self.retries >= self.retry_count {
                    EndStep::GiveUp
                } else {
                    self.retries = self.retries + 1;
                    EndStep::Retry
                }
            },
        }
    }
}

/// Retries wait `base`, `2 * base`, `4 * base`, ...: each delay is twice
/// the one before, as long as it fits 64 bits.
pub proof fn lemma_backoff_doubles(retry: u8, base_delay_ms: u32)
    requires
        1 <= retry < 255,
        backoff((retry + 1) as u8, base_delay_ms) < u64::MAX,
    ensures
        backoff(1, base_delay_ms) == base_delay_ms,
        backoff((retry + 1) as u8, base_delay_ms) == 2 * backoff(retry, base_delay_ms),
{
    reveal_with_fuel(pow2, 2);
    assert(base_delay_ms * pow2(retry as nat) == 2 * (base_delay_ms * pow2((retry - 1) as nat)))
        by (nonlinear_arith)
        requires
            pow2(retry as nat) == 2 * pow2((retry - 1) as nat),
    ;
    assert(base_delay_ms * pow2(0) == base_delay_ms) by (nonlinear_arith)
        requires
            pow2(0) == 1,
    ;
}

} // verus!
