//! The validated watch-page URL and the observable state reduction.

use oondl::errors::Error;
use oondl::models::{OonUrl, Phase, Progress, State, StateUpdate, VideoNo};

#[test]
fn test_valid_oonurl() {
    let u1 = OonUrl::new("https://on.orf.at/video/14225330");
    assert!(u1.is_ok());
    let u2 = OonUrl::new(
        "https://on.orf.at/video/14224991/willkommen-darmstadt-mit-stermann-grissemann",
    );
    assert!(u2.is_ok());
}

#[test]
fn test_invalid_oonurl() {
    let u = OonUrl::new("https://example.com/foo/a");
    assert!(u.is_err());
}

#[test]
fn test_video_id() {
    let u1 = OonUrl::new("https://on.orf.at/video/14225330").unwrap();
    assert_eq!(u1.video_id(), "14225330");
    let u2 = OonUrl::new(
        "https://on.orf.at/video/14224991/willkommen-darmstadt-mit-stermann-grissemann",
    )
    .unwrap();
    assert_eq!(u2.video_id(), "14224991");
}

#[test]
fn test_segment_id() {
    let u1 = OonUrl::new(
        "https://on.orf.at/video/14224991/willkommen-darmstadt-mit-stermann-grissemann",
    )
    .unwrap();
    assert_eq!(u1.segment_id(), &None);

    let u2 = OonUrl::new(
        "https://on.orf.at/video/14225651/15636092/gauder-fest-im-tiroler-zillertal",
    )
    .unwrap();
    assert_eq!(u2.segment_id(), &Some("15636092".to_owned()));
}

#[test]
fn test_oonurl_http_scheme_and_full_text() {
    let u = OonUrl::new("http://on.orf.at/video/42/slug-here").unwrap();
    assert_eq!(u.as_str(), "http://on.orf.at/video/42/slug-here");
    assert_eq!(u.video_id(), "42");
    assert_eq!(u.segment_id(), &None);
}

#[test]
fn test_oonurl_rejections() {
    // no digits after the video path
    assert!(OonUrl::new("https://on.orf.at/video/").is_err());
    // the video id must end at a slash or at the end
    assert!(OonUrl::new("https://on.orf.at/video/123abc").is_err());
    // a trailing slash with nothing after it
    assert!(OonUrl::new("https://on.orf.at/video/123/").is_err());
    // a line break never appears in a valid URL
    assert!(OonUrl::new("https://on.orf.at/video/123/a\nb").is_err());
    // the host is fixed
    assert!(OonUrl::new("https://off.orf.at/video/123").is_err());
}

#[test]
fn test_oonurl_segment_digits_only_when_delimited() {
    // digits followed by letters are a slug, not a segment id
    let u = OonUrl::new("https://on.orf.at/video/123/456abc").unwrap();
    assert_eq!(u.segment_id(), &None);
    // digits closed by a slash and more text name a segment
    let v = OonUrl::new("https://on.orf.at/video/123/456/slug").unwrap();
    assert_eq!(v.segment_id(), &Some("456".to_owned()));
}

#[test]
fn test_state_update_sequence() {
    let mut state = State::new();
    state.update(StateUpdate::StartedRequest { request_id: 7 });
    assert_eq!(state.phase(), Phase::Analyzing);
    assert!(state.title().is_none());
    assert!(!state.has_error());

    state.update(StateUpdate::Title("A Show".to_owned()));
    assert_eq!(state.title(), Some("A Show"));

    state.update(StateUpdate::StartedVideo { video_no: 1, total_videos: 2 });
    assert_eq!(
        state.phase(),
        Phase::Downloading {
            video_no: VideoNo { current: 1, total: 2 },
            progress: Progress { done: 0, total: 1 },
        }
    );

    state.update(StateUpdate::Downloaded(Progress { done: 5, total: 10 }));
    assert_eq!(
        state.phase(),
        Phase::Downloading {
            video_no: VideoNo { current: 1, total: 2 },
            progress: Progress { done: 5, total: 10 },
        }
    );

    state.update(StateUpdate::Merging);
    assert_eq!(state.phase(), Phase::Merging);

    state.update(StateUpdate::Error(Error::NetworkError("timed out".to_owned())));
    assert!(state.has_error());
    assert_eq!(state.error().unwrap().message(), "network error: timed out");

    state.update(StateUpdate::Idle);
    assert_eq!(state.phase(), Phase::Idle);
    assert!(!state.has_error());
    assert!(state.title().is_none());
}

#[test]
fn test_state_progress_ignored_outside_download() {
    let mut state = State::new();
    state.update(StateUpdate::Downloaded(Progress { done: 1, total: 2 }));
    assert_eq!(state.phase(), Phase::Idle);
}

#[test]
fn test_state_started_request_removes_queue_item() {
    let mut state = State::new();
    state.enqueue(oondl::models::QueueItem { request_id: 1, title: "a".to_owned() });
    state.enqueue(oondl::models::QueueItem { request_id: 2, title: "b".to_owned() });
    assert!(!state.queue_is_empty());
    state.update(StateUpdate::StartedRequest { request_id: 1 });
    assert!(!state.queue_is_empty());
    state.update(StateUpdate::StartedRequest { request_id: 2 });
    assert!(state.queue_is_empty());
}

#[test]
fn test_retain_from_queue() {
    let mut state = State::new();
    state.enqueue(oondl::models::QueueItem { request_id: 1, title: "a".to_owned() });
    state.enqueue(oondl::models::QueueItem { request_id: 2, title: "b".to_owned() });
    state.retain_from_queue(|q| q.request_id != 1);
    assert!(!state.queue_is_empty());
    state.retain_from_queue(|q| q.request_id != 2);
    assert!(state.queue_is_empty());
}

#[test]
fn test_error_messages() {
    assert_eq!(Error::NetworkError("x".to_owned()).message(), "network error: x");
    assert_eq!(
        Error::FileError("denied".to_owned()).message(),
        "error writing to file: denied"
    );
    assert_eq!(Error::UnexpectedError("boom".to_owned()).message(), "boom");
    assert_eq!(oondl::models::ValidationError.message(), "validation error");
}

#[test]
fn test_download_form() {
    let mut form = oondl::models::DownloadForm::default();
    assert!(!form.is_valid());
    form.url = "https://on.orf.at/video/1".to_owned();
    assert!(!form.is_valid());
    form.dest_dir = Some("/tmp".to_owned());
    assert!(form.is_valid());
    form.reset();
    assert!(!form.is_valid());
    assert_eq!(form.dest_dir, Some("/tmp".to_owned()));
}
