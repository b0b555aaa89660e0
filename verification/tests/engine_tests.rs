//! The scheduler's cancel/retry control flow and the progress throttle.

use oondl::engine::{IdGen, ProgressCounter, Scheduler};
use oondl::models::{DownloadRequest, OnErrorAction, OonUrl, Progress, Quality, State};
use oondl::text::{parse_u64, u64_to_string};

fn request(id: u32) -> DownloadRequest {
    let url = OonUrl::new("https://on.orf.at/video/14225330").unwrap();
    DownloadRequest::new(id, url, Quality::High, "/tmp".to_owned())
}

#[test]
fn test_cancel_leaves_next_in_order() {
    let mut s = Scheduler::new();
    let mut state = State::new();
    s.add_download(request(1), &mut state);
    s.add_download(request(2), &mut state);
    assert!(!state.queue_is_empty());

    let first = s.start_next().unwrap();
    assert_eq!(first.id(), 1);
    // the first job is cancelled mid-download: it is discarded, not retried
    s.cancel_current();
    let second = s.start_next().unwrap();
    assert_eq!(second.id(), 2);
    // nothing else remains
    assert!(s.start_next().is_none());
}

#[test]
fn test_delete_download_keeps_order() {
    let mut s = Scheduler::new();
    let mut state = State::new();
    s.add_download(request(1), &mut state);
    s.add_download(request(2), &mut state);
    s.add_download(request(3), &mut state);
    s.delete_download(2);
    assert_eq!(s.start_next().unwrap().id(), 1);
    s.finish_current();
    assert_eq!(s.start_next().unwrap().id(), 3);
    s.finish_current();
    assert!(s.start_next().is_none());
}

#[test]
fn test_start_next_only_when_idle() {
    let mut s = Scheduler::new();
    let mut state = State::new();
    s.add_download(request(1), &mut state);
    s.add_download(request(2), &mut state);
    assert_eq!(s.start_next().unwrap().id(), 1);
    // the worker is busy: nothing else starts
    assert!(s.start_next().is_none());
    s.finish_current();
    assert_eq!(s.start_next().unwrap().id(), 2);
}

#[test]
fn test_retry_reruns_same_request() {
    let mut s = Scheduler::new();
    let mut state = State::new();
    s.add_download(request(7), &mut state);
    assert_eq!(s.start_next().unwrap().id(), 7);
    s.fail_current();
    let again = s.resolve_error(OnErrorAction::Retry).unwrap();
    assert_eq!(again.id(), 7);
    s.fail_current();
    assert!(s.resolve_error(OnErrorAction::Cancel).is_none());
    assert!(s.start_next().is_none());
}

#[test]
fn test_progress_throttle_small_total() {
    // with two chunks every step crosses a full percentage point
    let mut c = ProgressCounter::new(2);
    assert_eq!(c.chunk_done(), Some(Progress { done: 1, total: 2 }));
    assert_eq!(c.chunk_done(), Some(Progress { done: 2, total: 2 }));
}

#[test]
fn test_progress_throttle_large_total() {
    // with 300 chunks a report comes only after a gain above one percent,
    // that is after four chunks
    let mut c = ProgressCounter::new(300);
    assert_eq!(c.chunk_done(), None);
    assert_eq!(c.chunk_done(), None);
    assert_eq!(c.chunk_done(), None);
    assert_eq!(c.chunk_done(), Some(Progress { done: 4, total: 300 }));
    assert_eq!(c.chunk_done(), None);
}

#[test]
fn test_progress_final_chunk_always_reported() {
    let mut c = ProgressCounter::new(200);
    let mut reports = 0;
    let mut last = None;
    for _ in 0..200 {
        if let Some(p) = c.chunk_done() {
            reports += 1;
            last = Some(p);
        }
    }
    assert_eq!(last, Some(Progress { done: 200, total: 200 }));
    assert!(reports < 200);
}

#[test]
fn test_id_gen() {
    let mut g = IdGen::new();
    assert_eq!(g.fresh(), 0);
    assert_eq!(g.fresh(), 1);
    assert_eq!(g.fresh(), 2);
}

#[test]
fn test_decimal_text() {
    assert_eq!(u64_to_string(0), "0");
    assert_eq!(u64_to_string(1234), "1234");
    assert_eq!(u64_to_string(u64::MAX), "18446744073709551615");
}

#[test]
fn test_parse_u64() {
    assert_eq!(parse_u64("42"), Some(42));
    assert_eq!(parse_u64("+42"), Some(42));
    assert_eq!(parse_u64("0007"), Some(7));
    assert_eq!(parse_u64("18446744073709551615"), Some(u64::MAX));
    assert_eq!(parse_u64("18446744073709551616"), None);
    assert_eq!(parse_u64(""), None);
    assert_eq!(parse_u64("+"), None);
    assert_eq!(parse_u64("1a"), None);
    assert_eq!(parse_u64("-1"), None);
}
