//! The data model: the validated watch-page URL, the download request, the
//! quality policy, and the observable state an observer reduces update
//! events into.

use vstd::prelude::*;

use crate::errors::Error;
use crate::text::{run_end, scan_run, starts_with_at, starts_lit, CharClass};

verus! {

/// The input URL does not match the platform's known URL shape.
#[derive(Debug)]
pub struct ValidationError;

impl ValidationError {
    /// Renders the error for display.
    pub fn message(&self) -> (r: String)
        ensures
            r@ == "validation error"@,
    {
        String::from_str("validation error")
    }
}

/// The length of the accepted scheme-and-host prefix of a watch-page URL,
/// if the text starts with one.
pub open spec fn oon_prefix_len(s: Seq<char>) -> Option<int> {
    if starts_with_at(s, "https://on.orf.at/video/"@, 0) {
        Some(24int)
    } else if starts_with_at(s, "http://on.orf.at/video/"@, 0) {
        Some(23int)
    } else {
        None
    }
}

/// What a watch-page URL parses to: the video id digits and, where one is
/// given, the segment id digits. The accepted shape is the prefix above,
/// one or more digits, then nothing, or `/` followed by a non-empty
/// remainder free of line breaks; a remainder `<digits>` or
/// `<digits>/<more>` names a segment.
pub open spec fn spec_oon_parse(s: Seq<char>) -> Option<(Seq<char>, Option<Seq<char>>)> {
    match oon_prefix_len(s) {
        None => None,
        Some(p) => {
            let ve = run_end(s, p, CharClass::Digit);
            if ve == p {
                None
            } else if ve == s.len() {
                Some((s.subrange(p, ve), None))
            } else if s[ve] != '/' {
                None
            } else if ve + 2 > s.len() {
                None
            } else if run_end(s, ve + 1, CharClass::NotNl) != s.len() {
                None
            } else {
                let de = run_end(s, ve + 1, CharClass::Digit);
                if de > ve + 1 && (de == s.len() || (s[de] == '/' && de + 1 < s.len())) {
                    Some((s.subrange(p, ve), Some(s.subrange(ve + 1, de))))
                } else {
                    Some((s.subrange(p, ve), None))
                }
            }
        },
    }
}

/// A validated watch-page URL, with the video id and the optional segment
/// id its path carries.
pub struct OonUrl {
    pub url: String,
    pub video_id: String,
    pub segment_id: Option<String>,
}

impl Clone for OonUrl {
    fn clone(&self) -> (r: Self)
        ensures
            r == self,
    {
        OonUrl {
            url: self.url.clone(),
            video_id: self.video_id.clone(),
            segment_id: match &self.segment_id {
                Some(s) => Some(s.clone()),
                None => None,
            },
        }
    }
}

impl OonUrl {
    /// Validates an input URL. Construction succeeds exactly on texts of
    /// the accepted shape, and then carries the digit groups out.
    pub fn new(url_str: &str) -> (r: Result<OonUrl, ValidationError>)
        ensures
            match r {
                Ok(u) => {
                    &&& spec_oon_parse(url_str@) matches Some(pr)
                    &&& u.url@ == url_str@
                    &&& u.video_id@ == pr.0
                    &&& match (&u.segment_id, pr.1) {
                        (Some(a), Some(b)) => a@ == b,
                        (None, None) => true,
                        _ => false,
                    }
                },
                Err(_) => spec_oon_parse(url_str@) is None,
            },
    {
        let n = url_str.unicode_len();
        let p: usize;
        if starts_lit(url_str, "https://on.orf.at/video/", 0) {
            proof {
                reveal_strlit("https://on.orf.at/video/");
            }
            p = 24;
        } else if starts_lit(url_str, "http://on.orf.at/video/", 0) {
            proof {
                reveal_strlit("http://on.orf.at/video/");
            }
            p = 23;
        } else {
            return Err(ValidationError);
        }
        let ve = scan_run(url_str, p, CharClass::Digit);
        if ve == p {
            return Err(ValidationError);
        }
        let video_id = url_str.substring_char(p, ve).to_owned();
        if ve == n {
            return Ok(OonUrl { url: url_str.to_owned(), video_id, segment_id: None });
        }
        if url_str.get_char(ve) != '/' {
            return Err(ValidationError);
        }
        if n - ve < 2 {
            return Err(ValidationError);
        }
        if scan_run(url_str, ve + 1, CharClass::NotNl) != n {
            return Err(ValidationError);
        }
        let de = scan_run(url_str, ve + 1, CharClass::Digit);
        let segment_id = if de > ve + 1 && (de == n || (url_str.get_char(de) == '/' && de + 1 < n)) {
            Some(url_str.substring_char(ve + 1, de).to_owned())
        } else {
            None
        };
        Ok(OonUrl { url: url_str.to_owned(), video_id, segment_id })
    }

    /// The full validated URL text.
    pub fn as_str(&self) -> (r: &str)
        ensures
            r@ == self.url@,
    {
        self.url.as_str()
    }

    /// The digits naming the video.
    pub fn video_id(&self) -> (r: &str)
        ensures
            r@ == self.video_id@,
    {
        self.video_id.as_str()
    }

    /// The digits naming the sub-segment, where the URL carries them.
    pub fn segment_id(&self) -> (r: &Option<String>)
        ensures
            r == &self.segment_id,
    {
        &self.segment_id
    }
}

/// The rendition selection policy for the video track.
#[derive(Clone, Copy, Debug, PartialEq, Eq, Structural)]
pub enum Quality {
    Low,
    Medium,
    High,
}

/// One download job: an id unique per engine, the validated source URL, the
/// quality policy, and the directory the result lands in.
pub struct DownloadRequest {
    pub id: u32,
    pub url: OonUrl,
    pub quality: Quality,
    pub dest_dir: String,
}

impl Clone for DownloadRequest {
    fn clone(&self) -> (r: Self)
        ensures
            r == self,
    {
        DownloadRequest {
            id: self.id,
            url: self.url.clone(),
            quality: self.quality,
            dest_dir: self.dest_dir.clone(),
        }
    }
}

impl DownloadRequest {
    /// Builds a request under the id its owner hands out.
    pub fn new(id: u32, url: OonUrl, quality: Quality, dest_dir: String) -> (r: DownloadRequest)
        ensures
            r == (DownloadRequest { id, url, quality, dest_dir }),
    {
        DownloadRequest { id, url, quality, dest_dir }
    }

    /// The id the queue and the state correlate this request under.
    pub fn id(&self) -> (r: u32)
        ensures
            r == self.id,
    {
        self.id
    }
}

/// The decision an observer supplies after a job failed.
#[derive(Clone, Copy, PartialEq, Eq, Structural)]
pub enum OnErrorAction {
    Retry,
    Cancel,
}

/// A fraction of work done, held exactly: `done` of `total` chunks.
#[derive(Clone, Copy, Debug, PartialEq, Eq, Structural)]
pub struct Progress {
    pub done: u32,
    pub total: u32,
}

impl Progress {
    /// No progress yet.
    pub fn zero() -> (r: Progress)
        ensures
            r == (Progress { done: 0u32, total: 1u32 }),
    {
        Progress { done: 0, total: 1 }
    }
}

/// Which video of how many a job is on.
#[derive(Clone, Copy, Debug, PartialEq, Eq, Structural)]
pub struct VideoNo {
    pub current: u16,
    pub total: u16,
}

/// Where the worker stands: idle, reading the watch page, downloading video
/// `video_no.current` of `video_no.total`, or running the mux stage.
#[derive(Clone, Copy, Debug, PartialEq, Eq, Structural)]
pub enum Phase {
    Idle,
    Analyzing,
    Downloading { video_no: VideoNo, progress: Progress },
    Merging,
}

/// One event of the state-update protocol, strictly ordered per job.
pub enum StateUpdate {
    StartedRequest { request_id: u32 },
    Title(String),
    StartedVideo { video_no: u16, total_videos: u16 },
    Downloaded(Progress),
    Merging,
    Idle,
    Error(Error),
}

/// A display-only projection of a queued request.
pub struct QueueItem {
    pub request_id: u32,
    pub title: String,
}

impl Clone for QueueItem {
    fn clone(&self) -> (r: Self)
        ensures
            r == self,
    {
        QueueItem { request_id: self.request_id, title: self.title.clone() }
    }
}

/// The queue after the items carrying `id` left, keeping the first `k` of
/// the original in order.
pub open spec fn without_id_prefix(q: Seq<QueueItem>, id: u32, k: int) -> Seq<QueueItem>
    decreases k,
{
    if k <= 0 {
        seq![]
    } else {
        without_id_prefix(q, id, k - 1) + if q[k - 1].request_id != id {
            seq![q[k - 1]]
        } else {
            seq![]
        }
    }
}

/// The queue after the items carrying `id` left, in order.
pub open spec fn without_id(q: Seq<QueueItem>, id: u32) -> Seq<QueueItem> {
    without_id_prefix(q, id, q.len() as int)
}

/// The subsequence of `q` kept by the mask `ks`, in order.
pub open spec fn masked_prefix(q: Seq<QueueItem>, ks: Seq<bool>, k: int) -> Seq<QueueItem>
    decreases k,
{
    if k <= 0 {
        seq![]
    } else {
        masked_prefix(q, ks, k - 1) + if ks[k - 1] {
            seq![q[k - 1]]
        } else {
            seq![]
        }
    }
}

proof fn lemma_masked_prefix_agree(q: Seq<QueueItem>, ks1: Seq<bool>, ks2: Seq<bool>, k: int)
    requires
        forall|i: int| 0 <= i < k ==> ks1[i] == ks2[i],
    ensures
        masked_prefix(q, ks1, k) == masked_prefix(q, ks2, k),
    decreases k,
{
    if k > 0 {
        lemma_masked_prefix_agree(q, ks1, ks2, k - 1);
    }
}

/// The observable aggregate an observer owns, mutated only by applying
/// update events in arrival order.
pub struct State {
    pub title: Option<String>,
    pub phase: Phase,
    pub queue: Vec<QueueItem>,
    pub error: Option<Error>,
}

/// What applying one event does to the state.
pub open spec fn spec_update(pre: State, u: StateUpdate, post: State) -> bool {
    match u {
        StateUpdate::StartedRequest { request_id } => {
            &&& post.title is None
            &&& post.error is None
            &&& post.phase == Phase::Analyzing
            &&& post.queue@ == without_id(pre.queue@, request_id)
        },
        StateUpdate::Title(t) => {
            &&& post.title matches Some(pt) && pt@ == t@
            &&& post.phase == pre.phase
            &&& post.queue@ == pre.queue@
            &&& post.error == pre.error
        },
        StateUpdate::StartedVideo { video_no, total_videos } => {
            &&& post.title == pre.title
            &&& post.phase == (Phase::Downloading {
                video_no: VideoNo { current: video_no, total: total_videos },
                progress: Progress { done: 0u32, total: 1u32 },
            })
            &&& post.queue@ == pre.queue@
            &&& post.error == pre.error
        },
        StateUpdate::Downloaded(p) => {
            &&& post.title == pre.title
            &&& (match pre.phase {
                Phase::Downloading { video_no, progress } => post.phase == (Phase::Downloading {
                    video_no,
                    progress: p,
                }),
                _ => post.phase == pre.phase,
            })
            &&& post.queue@ == pre.queue@
            &&& post.error == pre.error
        },
        StateUpdate::Merging => {
            &&& post.title == pre.title
            &&& post.phase == Phase::Merging
            &&& post.queue@ == pre.queue@
            &&& post.error == pre.error
        },
        StateUpdate::Idle => {
            &&& post.title is None
            &&& post.error is None
            &&& post.phase == Phase::Idle
            &&& post.queue@ == pre.queue@
        },
        StateUpdate::Error(e) => {
            &&& post.title == pre.title
            &&& post.phase == pre.phase
            &&& post.queue@ == pre.queue@
            &&& post.error == Some(e)
        },
    }
}

/// A phase counts consistently: while downloading, the current video
/// number never exceeds the total, and the progress fraction never exceeds
/// one.
pub open spec fn phase_wf(p: Phase) -> bool {
    match p {
        Phase::Downloading { video_no, progress } => video_no.current <= video_no.total
            && progress.done <= progress.total && progress.total > 0,
        _ => true,
    }
}

/// An update event that itself counts consistently.
pub open spec fn update_wf(u: StateUpdate) -> bool {
    match u {
        StateUpdate::StartedVideo { video_no, total_videos } => video_no <= total_videos,
        StateUpdate::Downloaded(p) => p.done <= p.total && p.total > 0,
        _ => true,
    }
}

/// Law: applying a consistent update event to a state whose phase counts
/// consistently leaves the phase counting consistently.
pub proof fn lemma_update_preserves_phase_wf(pre: State, u: StateUpdate, post: State)
    requires
        phase_wf(pre.phase),
        update_wf(u),
        spec_update(pre, u, post),
    ensures
        phase_wf(post.phase),
{
}

impl State {
    /// An empty, idle state.
    pub fn new() -> (r: State)
        ensures
            r.title is None,
            r.phase == Phase::Idle,
            r.queue@ == Seq::<QueueItem>::empty(),
            r.error is None,
    {
        State { title: None, phase: Phase::Idle, queue: Vec::new(), error: None }
    }

    /// Applies one update event: a started request clears title and error,
    /// turns the phase to analyzing and drops the request's queue item;
    /// progress only lands while downloading; idle clears title and error.
    pub fn update(&mut self, u: StateUpdate)
        ensures
            spec_update(*old(self), u, *final(self)),
    {
        match u {
            StateUpdate::StartedRequest { request_id } => {
                self.title = None;
                self.error = None;
                self.phase = Phase::Analyzing;
                let ghost q0 = self.queue@;
                let mut kept: Vec<QueueItem> = Vec::new();
                let mut j: usize = 0;
                let len = self.queue.len();
                while j < len
                    invariant
                        j <= len == self.queue@.len(),
                        q0 == self.queue@,
                        kept@ == without_id_prefix(q0, request_id, j as int),
                    decreases len - j,
                {
                    if self.queue[j].request_id != request_id {
                        kept.push(self.queue[j].clone());
                        assert(kept@ =~= without_id_prefix(q0, request_id, j as int) + seq![
                            q0[j as int],
                        ]);
                    } else {
                        assert(kept@ =~= without_id_prefix(q0, request_id, j as int)
                            + Seq::<QueueItem>::empty());
                    }
                    j = j + 1;
                }
                self.queue = kept;
            },
            StateUpdate::Title(t) => {
                self.title = Some(t);
            },
            StateUpdate::StartedVideo { video_no, total_videos } => {
                self.phase = Phase::Downloading {
                    video_no: VideoNo { current: video_no, total: total_videos },
                    progress: Progress::zero(),
                };
            },
            StateUpdate::Downloaded(p) => {
                match self.phase {
                    Phase::Downloading { video_no, progress: _ } => {
                        self.phase = Phase::Downloading { video_no, progress: p };
                    },
                    _ => {},
                }
            },
            StateUpdate::Merging => {
                self.phase = Phase::Merging;
            },
            StateUpdate::Idle => {
                self.title = None;
                self.error = None;
                self.phase = Phase::Idle;
            },
            StateUpdate::Error(e) => {
                self.error = Some(e);
            },
        }
    }

    /// Appends a queue item; the engine calls this when a request is
    /// enqueued.
    pub fn enqueue(&mut self, q: QueueItem)
        ensures
            final(self).queue@ == old(self).queue@.push(q),
            final(self).title == old(self).title,
            final(self).phase == old(self).phase,
            final(self).error == old(self).error,
    {
        self.queue.push(q);
    }

    /// Keeps only the queue items the given predicate accepts, in order.
    pub fn retain_from_queue<F: Fn(&QueueItem) -> bool>(&mut self, f: F)
        requires
            forall|q: &QueueItem| #[trigger] f.requires((q,)),
        ensures
            exists|ks: Seq<bool>|
                {
                    &&& ks.len() == old(self).queue@.len()
                    &&& (forall|i: int|
                        0 <= i < ks.len() ==> f.ensures((&old(self).queue@[i],), ks[i]))
                    &&& final(self).queue@ == masked_prefix(old(self).queue@, ks, ks.len() as int)
                },
            final(self).title == old(self).title,
            final(self).phase == old(self).phase,
            final(self).error == old(self).error,
    {
        let ghost q0 = self.queue@;
        let mut kept: Vec<QueueItem> = Vec::new();
        let ghost mut ks: Seq<bool> = seq![];
        let mut j: usize = 0;
        let len = self.queue.len();
        while j < len
            invariant
                j <= len == self.queue@.len(),
                q0 == self.queue@,
                ks.len() == j,
                forall|q: &QueueItem| #[trigger] f.requires((q,)),
                forall|i: int| 0 <= i < j ==> f.ensures((&q0[i],), ks[i]),
                kept@ == masked_prefix(q0, ks, j as int),
            decreases len - j,
        {
            let keep = f(&self.queue[j]);
            let ghost ks0 = ks;
            proof {
                ks = ks.push(keep);
                lemma_masked_prefix_agree(q0, ks0, ks, j as int);
            }
            if keep {
                kept.push(self.queue[j].clone());
                assert(kept@ =~= masked_prefix(q0, ks, j as int) + seq![q0[j as int]]);
            } else {
                assert(kept@ =~= masked_prefix(q0, ks, j as int) + Seq::<QueueItem>::empty());
            }
            assert(forall|i: int| 0 <= i < j ==> f.ensures((&q0[i],), ks[i]));
            j = j + 1;
        }
        self.queue = kept;
    }

    /// Whether nothing waits in the queue.
    pub fn queue_is_empty(&self) -> (r: bool)
        ensures
            r == (self.queue@.len() == 0),
    {
        self.queue.len() == 0
    }

    /// The current job's title, once one is known.
    pub fn title(&self) -> (r: Option<&str>)
        ensures
            match r {
                Some(t) => self.title matches Some(st) && t@ == st@,
                None => self.title is None,
            },
    {
        match &self.title {
            Some(t) => Some(t.as_str()),
            None => None,
        }
    }

    /// The phase the worker is in.
    pub fn phase(&self) -> (r: Phase)
        ensures
            r == self.phase,
    {
        self.phase
    }

    /// The pending error, while a retry/cancel decision is awaited.
    pub fn error(&self) -> (r: Option<&Error>)
        ensures
            match r {
                Some(e) => self.error matches Some(se) && e == &se,
                None => self.error is None,
            },
    {
        match &self.error {
            Some(e) => Some(e),
            None => None,
        }
    }

    /// Whether an error awaits a retry/cancel decision.
    pub fn has_error(&self) -> (r: bool)
        ensures
            r == (self.error is Some),
    {
        match &self.error {
            Some(_) => true,
            None => false,
        }
    }
}

/// What the input form holds before a request is built from it.
pub struct DownloadForm {
    pub url: String,
    pub quality: Quality,
    pub dest_dir: Option<String>,
}

impl Default for DownloadForm {
    /// An empty form defaulting to the highest quality; the surrounding
    /// application supplies a default destination directory where it knows
    /// one.
    fn default() -> (r: DownloadForm)
        ensures
            r.url@ == Seq::<char>::empty(),
            r.quality == Quality::High,
            r.dest_dir is None,
    {
        DownloadForm { url: String::new(), quality: Quality::High, dest_dir: None }
    }
}

impl DownloadForm {
    /// Clears the URL field after a request was accepted.
    pub fn reset(&mut self)
        ensures
            final(self).url@ == Seq::<char>::empty(),
            final(self).quality == old(self).quality,
            final(self).dest_dir == old(self).dest_dir,
    {
        self.url = String::new();
    }

    /// Whether a request can be built: a URL was typed and a destination
    /// directory is set.
    pub fn is_valid(&self) -> (r: bool)
        ensures
            r == (self.url@.len() > 0 && self.dest_dir is Some),
    {
        !self.url.as_str().is_empty() && match &self.dest_dir {
            Some(_) => true,
            None => false,
        }
    }
}

} // verus!
