use tur::downloads::index::Index;
use tur::downloads::workers::exponential_backoff;
use tur::downloads::workers::per_worker_limit;
use tur::downloads::workers::progress_tick;
use tur::downloads::workers::range_header;
use tur::downloads::workers::request_channel_capacity;
use tur::downloads::workers::transfer_mode;
use tur::downloads::workers::EndStep;
use tur::downloads::workers::Mode;
use tur::downloads::workers::Progress;
use tur::downloads::workers::StatusStep;
use tur::downloads::workers::Step;
use tur::downloads::workers::Stream;

const MIB: u64 = 1024 * 1024;

#[test]
fn backoff_doubles_from_the_base() {
    assert_eq!(exponential_backoff(0, 1000), 1000);
    assert_eq!(exponential_backoff(1, 1000), 1000);
    assert_eq!(exponential_backoff(2, 1000), 2000);
    assert_eq!(exponential_backoff(3, 1000), 4000);
    assert_eq!(exponential_backoff(10, 1000), 512000);
    assert_eq!(exponential_backoff(5, 0), 0);
    assert_eq!(exponential_backoff(33, u32::MAX), (u32::MAX as u64) << 32);
    assert_eq!(exponential_backoff(34, u32::MAX), u64::MAX);
    assert_eq!(exponential_backoff(64, 1), 1 << 63);
    assert_eq!(exponential_backoff(65, 1), u64::MAX);
    assert_eq!(exponential_backoff(255, 1), u64::MAX);
    assert_eq!(exponential_backoff(255, 0), 0);
}

#[test]
fn transient_failure_is_retried_three_times() {
    let mut s = Stream::new(0, 3, 250);
    assert_eq!(s.on_status(503, true), StatusStep::Retry { delay_ms: 250 });
    assert_eq!(s.on_status(503, true), StatusStep::Retry { delay_ms: 500 });
    assert_eq!(s.on_status(503, true), StatusStep::Retry { delay_ms: 1000 });
    assert_eq!(s.retries, 3);
    assert_eq!(s.on_status(503, true), StatusStep::GiveUp);
    assert_eq!(s.retries, 3);

    let mut s = Stream::new(0, 3, 250);
    assert_eq!(s.on_error(), Step::Retry { delay_ms: 250 });
    assert_eq!(s.on_status(500, true), StatusStep::Retry { delay_ms: 500 });
    assert_eq!(s.on_status(206, true), StatusStep::Proceed);
    assert_eq!(s.on_end(Some(Index::new(8, 8))), EndStep::Done);
    assert_eq!(s.retries, 2);
}

#[test]
fn no_retry_without_retries() {
    let mut s = Stream::new(0, 0, 250);
    assert_eq!(s.on_error(), Step::GiveUp);
    assert_eq!(s.on_status(503, false), StatusStep::GiveUp);
    assert_eq!(s.on_end(Some(Index::new(0, 8))), EndStep::GiveUp);
}

#[test]
fn statuses() {
    let fresh = Stream::new(0, 3, 100);
    let mut s = fresh;
    assert_eq!(s.on_status(206, true), StatusStep::Proceed);
    assert_eq!(s.on_status(206, false), StatusStep::Proceed);
    assert_eq!(s.on_status(200, false), StatusStep::Proceed);
    assert_eq!(s.on_status(200, true), StatusStep::GiveUp);
    assert_eq!(s.on_status(404, true), StatusStep::GiveUp);
    assert_eq!(s.on_status(403, false), StatusStep::GiveUp);
    assert_eq!(s.on_status(416, true), StatusStep::GiveUp);
    assert_eq!(s, fresh);
    assert_eq!(s.on_status(408, true), StatusStep::Retry { delay_ms: 100 });
    assert_eq!(s.on_status(429, true), StatusStep::Retry { delay_ms: 200 });
    assert_eq!(s.on_status(302, true), StatusStep::Retry { delay_ms: 400 });
    assert_eq!(s.on_status(599, true), StatusStep::GiveUp);
}

#[test]
fn short_body_is_asked_for_again() {
    let mut s = Stream::new(0, 2, 100);
    assert_eq!(s.on_end(None), EndStep::Done);
    assert_eq!(s.on_end(Some(Index { origin: 0, start: 8, end: 8 })), EndStep::Done);
    assert_eq!(s.retries, 0);
    let short = Index { origin: 0, start: 5, end: 8 };
    assert_eq!(s.on_end(Some(short)), EndStep::Retry);
    assert_eq!(s.on_end(Some(short)), EndStep::Retry);
    assert_eq!(s.on_end(Some(short)), EndStep::GiveUp);
    assert_eq!(s.retries, 2);
}

#[test]
fn range_header_names_the_last_byte() {
    assert_eq!(range_header(0, 8388608), "bytes=0-8388607");
    assert_eq!(range_header(8388608, 12582912), "bytes=8388608-12582911");
    assert_eq!(range_header(5, 6), "bytes=5-5");
    assert_eq!(range_header(0, 0), "bytes=0-0");
    assert_eq!(range_header(0, u64::MAX), "bytes=0-18446744073709551614");
}

#[test]
fn limit_is_shared_among_workers() {
    assert_eq!(per_worker_limit(MIB, 5), 209715);
    assert_eq!(per_worker_limit(0, 5), 0);
    assert_eq!(per_worker_limit(10, 1), 10);
    assert_eq!(per_worker_limit(3, 8), 0);
    assert_eq!(request_channel_capacity(4), 8);
    assert_eq!(request_channel_capacity(0), 0);
    assert_eq!(request_channel_capacity(255), 510);
}

#[test]
fn throttle_pauses_for_the_rest_of_the_second() {
    let mut s = Stream::new(1000, 0, 0);
    assert_eq!(s.on_chunk(400, 10), None);
    assert_eq!(s.on_chunk(400, 20), None);
    assert_eq!(s.bytes_this_second, 800);
    assert_eq!(s.on_chunk(200, 300), Some(700));
    assert_eq!(s.bytes_this_second, 0);
    assert_eq!(s.on_chunk(5000, 1500), Some(0));
    assert_eq!(s.on_chunk(999, 999), None);
    assert_eq!(s.on_chunk(u64::MAX, 0), Some(1000));

    let mut free = Stream::new(0, 0, 0);
    assert_eq!(free.on_chunk(u64::MAX, 0), None);
    assert_eq!(free.bytes_this_second, 0);
}

#[test]
fn one_mebibyte_per_second_for_five_workers() {
    let limit = per_worker_limit(MIB, 5);
    let chunk: u64 = 16 * 1024;
    let mut total_ms: u64 = 0;
    let mut total_bytes: u64 = 0;
    for _ in 0..5 {
        let mut s = Stream::new(limit, 3, 1000);
        let mut received: u64 = 0;
        let mut waited: u64 = 0;
        while received < 2 * MIB {
            received += chunk;
            if let Some(ms) = s.on_chunk(chunk, 0) {
                waited += ms;
            }
        }
        total_bytes += received;
        // The workers run side by side: each alone takes this long.
        total_ms = total_ms.max(waited);
    }
    assert_eq!(total_bytes, 10 * MIB);
    assert!(total_ms >= 9000, "{}", total_ms);
}

#[test]
fn progress_of_a_tick() {
    assert_eq!(
        progress_tick(3 * MIB, 2 * MIB, 12 * MIB),
        Progress { downloaded: 3 * MIB, speed: 10 * MIB, time_left: 0, complete: false }
    );
    assert_eq!(
        progress_tick(1000, 900, 101000),
        Progress { downloaded: 1000, speed: 1000, time_left: 100, complete: false }
    );
    assert_eq!(
        progress_tick(1000, 1000, 5000),
        Progress { downloaded: 1000, speed: 0, time_left: 0, complete: false }
    );
    assert_eq!(
        progress_tick(900, 1000, 5000),
        Progress { downloaded: 900, speed: 0, time_left: 0, complete: false }
    );
    assert_eq!(
        progress_tick(5000, 4000, 5000),
        Progress { downloaded: 5000, speed: 10000, time_left: 0, complete: true }
    );
    assert_eq!(progress_tick(u64::MAX, 0, u64::MAX).speed, u64::MAX);
}

#[test]
fn empty_file_is_complete_at_once() {
    assert_eq!(transfer_mode(Some(0), true), Mode::Empty);
    assert_eq!(transfer_mode(Some(0), false), Mode::Empty);
    assert!(progress_tick(0, 0, 0).complete);
}

#[test]
fn single_worker_without_ranges_or_size() {
    assert_eq!(transfer_mode(None, true), Mode::Single);
    assert_eq!(transfer_mode(None, false), Mode::Single);
    assert_eq!(transfer_mode(Some(100 * MIB), false), Mode::Single);
    assert_eq!(transfer_mode(Some(8 * MIB - 1), true), Mode::Single);
    assert_eq!(transfer_mode(Some(8 * MIB), true), Mode::Multi);
    assert_eq!(transfer_mode(Some(12 * MIB), true), Mode::Multi);
    assert_eq!(transfer_mode(Some(100 * MIB), true), Mode::Multi);
    assert_eq!(transfer_mode(Some(u64::MAX), true), Mode::Single);
}
