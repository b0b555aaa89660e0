//! Verified core of an on-demand video fetcher: URL validation, watch-page
//! extraction, manifest resolution with a URL templating mini-language,
//! bandwidth-based rendition selection, segment-timeline expansion, progress
//! accounting, and the single-worker job queue with cancel/retry semantics.

pub mod engine;
pub mod errors;
pub mod extract;
pub mod models;
pub mod mpd;
pub mod paths;
pub mod template;
pub mod text;
