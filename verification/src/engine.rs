//! The job execution engine's decision core: the pending queue with its
//! single-job-in-flight status, the request-id counter, and the progress
//! accounting with its event throttle. The surrounding application runs the
//! worker loop and performs the waiting; every transition it takes goes
//! through these functions.

use vstd::prelude::*;

use crate::models::{DownloadRequest, OnErrorAction, Progress, QueueItem, State};

verus! {

/// What the single worker is doing: nothing, running one job, or holding a
/// failed job while a retry/cancel decision is awaited. At most one request
/// is ever in flight.
pub enum JobStatus {
    Idle,
    Running(DownloadRequest),
    AwaitingDecision(DownloadRequest),
}

/// The scheduler: the pending requests in arrival order, and the status of
/// the one worker.
pub struct Scheduler {
    pub queue: Vec<DownloadRequest>,
    pub status: JobStatus,
}

/// The mathematical shape of the scheduler.
pub struct SchedulerModel {
    pub queue: Seq<DownloadRequest>,
    pub status: JobStatus,
}

impl View for Scheduler {
    type V = SchedulerModel;

    open spec fn view(&self) -> SchedulerModel {
        SchedulerModel { queue: self.queue@, status: self.status }
    }
}

/// Enqueueing appends to the pending queue and changes nothing else.
pub open spec fn m_add(m: SchedulerModel, r: DownloadRequest) -> SchedulerModel {
    SchedulerModel { queue: m.queue.push(r), status: m.status }
}

/// The queue after the requests carrying `id` left, keeping the first `k`
/// of the original in order.
pub open spec fn m_without_prefix(q: Seq<DownloadRequest>, id: u32, k: int) -> Seq<DownloadRequest>
    decreases k,
{
    if k <= 0 {
        seq![]
    } else {
        m_without_prefix(q, id, k - 1) + if q[k - 1].id != id {
            seq![q[k - 1]]
        } else {
            seq![]
        }
    }
}

/// The queue after the requests carrying `id` left, in order.
pub open spec fn m_without(q: Seq<DownloadRequest>, id: u32) -> Seq<DownloadRequest> {
    m_without_prefix(q, id, q.len() as int)
}

/// An idle worker pops the front request and runs it; otherwise nothing
/// changes.
pub open spec fn m_start(m: SchedulerModel) -> (SchedulerModel, Option<DownloadRequest>) {
    match m.status {
        JobStatus::Idle => if m.queue.len() > 0 {
            (
                SchedulerModel {
                    queue: m.queue.drop_first(),
                    status: JobStatus::Running(m.queue[0]),
                },
                Some(m.queue[0]),
            )
        } else {
            (m, None)
        },
        _ => (m, None),
    }
}

/// Cancelling the job in flight turns the worker idle; the pending queue
/// is untouched.
pub open spec fn m_cancel(m: SchedulerModel) -> SchedulerModel {
    SchedulerModel { queue: m.queue, status: JobStatus::Idle }
}

impl Scheduler {
    /// An idle scheduler with an empty queue.
    pub fn new() -> (r: Scheduler)
        ensures
            r@.queue == Seq::<DownloadRequest>::empty(),
            r@.status matches JobStatus::Idle,
    {
        Scheduler { queue: Vec::new(), status: JobStatus::Idle }
    }

    /// Appends a request to the pending queue and mirrors it as a queue
    /// item, titled with its URL, in the observable state.
    pub fn add_download(&mut self, request: DownloadRequest, state: &mut State)
        ensures
            final(self)@ == m_add(old(self)@, request),
            final(state).queue@ == old(state).queue@.push(
                QueueItem { request_id: request.id, title: request.url.url },
            ),
            final(state).title == old(state).title,
            final(state).phase == old(state).phase,
            final(state).error == old(state).error,
    {
        let qi = QueueItem { request_id: request.id(), title: request.url.url.clone() };
        state.enqueue(qi);
        self.queue.push(request);
    }

    /// Removes a request by id from the pending queue if still present; a
    /// request already running is not affected.
    pub fn delete_download(&mut self, id: u32)
        ensures
            final(self).queue@ == m_without(old(self).queue@, id),
            final(self).status == old(self).status,
    {
        let ghost q0 = self.queue@;
        let mut kept: Vec<DownloadRequest> = Vec::new();
        let mut j: usize = 0;
        let len = self.queue.len();
        while j < len
            invariant
                j <= len == self.queue@.len(),
                q0 == self.queue@,
                kept@ == m_without_prefix(q0, id, j as int),
            decreases len - j,
        {
            if self.queue[j].id != id {
                kept.push(self.queue[j].clone());
                assert(kept@ =~= m_without_prefix(q0, id, j as int) + seq![q0[j as int]]);
            } else {
                assert(kept@ =~= m_without_prefix(q0, id, j as int)
                    + Seq::<DownloadRequest>::empty());
            }
            j = j + 1;
        }
        self.queue = kept;
    }

    /// An idle worker takes the front request, if one waits, and starts
    /// running it.
    pub fn start_next(&mut self) -> (r: Option<DownloadRequest>)
        ensures
            final(self)@ == m_start(old(self)@).0,
            r == m_start(old(self)@).1,
    {
        match &self.status {
            JobStatus::Idle => {
                if self.queue.len() > 0 {
                    let req = self.queue.remove(0);
                    self.status = JobStatus::Running(req.clone());
                    assert(self.queue@ =~= old(self).queue@.drop_first());
                    Some(req)
                } else {
                    assert(self@ =~= m_start(old(self)@).0);
                    None
                }
            },
            _ => {
                assert(self@ =~= m_start(old(self)@).0);
                None
            },
        }
    }

    /// The running job completed; the worker turns idle.
    pub fn finish_current(&mut self)
        requires
            old(self).status matches JobStatus::Running(_),
        ensures
            final(self).status matches JobStatus::Idle,
            final(self).queue@ == old(self).queue@,
    {
        self.status = JobStatus::Idle;
    }

    /// The running job failed; the worker holds it until a retry/cancel
    /// decision arrives.
    pub fn fail_current(&mut self)
        requires
            old(self).status matches JobStatus::Running(_),
        ensures
            old(self).status matches JobStatus::Running(r) ==> final(self).status
                == JobStatus::AwaitingDecision(r),
            final(self).queue@ == old(self).queue@,
    {
        let held = match &self.status {
            JobStatus::Running(r) => r.clone(),
            JobStatus::AwaitingDecision(r) => r.clone(),
            JobStatus::Idle => {
                return;
            },
        };
        self.status = JobStatus::AwaitingDecision(held);
    }

    /// Resolves an error wait: `Retry` re-runs the same request from the
    /// beginning and hands it back; `Cancel` discards it and turns the
    /// worker idle. The pending queue is untouched.
    pub fn resolve_error(&mut self, action: OnErrorAction) -> (r: Option<DownloadRequest>)
        requires
            old(self).status matches JobStatus::AwaitingDecision(_),
        ensures
            final(self).queue@ == old(self).queue@,
            old(self).status matches JobStatus::AwaitingDecision(req) ==> match action {
                OnErrorAction::Retry => final(self).status == JobStatus::Running(req) && r == Some(
                    req,
                ),
                OnErrorAction::Cancel => final(self).status matches JobStatus::Idle && r is None,
            },
    {
        let held = match &self.status {
            JobStatus::AwaitingDecision(r) => r.clone(),
            JobStatus::Running(r) => r.clone(),
            JobStatus::Idle => {
                return None;
            },
        };
        match action {
            OnErrorAction::Retry => {
                self.status = JobStatus::Running(held.clone());
                Some(held)
            },
            OnErrorAction::Cancel => {
                self.status = JobStatus::Idle;
                None
            },
        }
    }

    /// Aborts whichever job is in flight: the job is discarded, not
    /// retried, and the worker is free for the next queued request.
    pub fn cancel_current(&mut self)
        ensures
            final(self)@ == m_cancel(old(self)@),
    {
        self.status = JobStatus::Idle;
    }
}

/// Law: enqueueing two requests on an idle, empty scheduler, starting the
/// first and cancelling it mid-run leaves exactly the second to be
/// processed next, and the queue empty after it starts; any requests
/// queued behind keep their order.
pub proof fn lemma_cancel_keeps_order(
    r1: DownloadRequest,
    r2: DownloadRequest,
    rest: Seq<DownloadRequest>,
)
    ensures
        ({
            let m0 = SchedulerModel { queue: rest, status: JobStatus::Idle };
            let m1 = m_add(m_add(SchedulerModel { queue: seq![], status: JobStatus::Idle }, r1), r2);
            let m2 = SchedulerModel { queue: m1.queue + rest, status: m1.status };
            let s1 = m_start(m2);
            let m3 = m_cancel(s1.0);
            let s2 = m_start(m3);
            &&& s1.1 == Some(r1)
            &&& s1.0.status == JobStatus::Running(r1)
            &&& s2.1 == Some(r2)
            &&& s2.0.status == JobStatus::Running(r2)
            &&& s2.0.queue =~= rest
        }),
{
    let m1 = m_add(m_add(SchedulerModel { queue: seq![], status: JobStatus::Idle }, r1), r2);
    assert(m1.queue =~= seq![r1, r2]);
    let m2 = SchedulerModel { queue: m1.queue + rest, status: m1.status };
    assert(m2.queue[0] == r1);
    let s1 = m_start(m2);
    assert(s1.0.queue =~= seq![r2] + rest);
    let m3 = m_cancel(s1.0);
    let s2 = m_start(m3);
    assert(s2.0.queue =~= rest);
}

/// The progress accumulator one job's concurrent chunk downloads share:
/// how many chunks of how many are done, and what was last reported.
pub struct ProgressCounter {
    pub total: u32,
    pub done: u32,
    pub last_reported: u32,
}

/// The counter counts within its total and never reports ahead of itself.
pub open spec fn pc_wf(c: ProgressCounter) -> bool {
    c.done <= c.total && c.last_reported <= c.done && c.total > 0
}

/// Whether a newly finished chunk is surfaced to the observer: only when
/// progress grew by more than one percentage point since the last report,
/// or reached the end.
pub open spec fn should_emit(done: u32, last: u32, total: u32) -> bool {
    100 * (done - last) > total || done == total
}

impl ProgressCounter {
    /// A fresh counter for a job of `total` chunks.
    pub fn new(total: u32) -> (r: ProgressCounter)
        requires
            total > 0,
        ensures
            r == (ProgressCounter { total, done: 0u32, last_reported: 0u32 }),
            pc_wf(r),
    {
        ProgressCounter { total, done: 0, last_reported: 0 }
    }

    /// Accounts one finished chunk and decides whether to surface the new
    /// progress: only on a gain of more than one percentage point, or on
    /// completion.
    pub fn chunk_done(&mut self) -> (r: Option<Progress>)
        requires
            pc_wf(*old(self)),
            old(self).done < old(self).total,
        ensures
            final(self).total == old(self).total,
            final(self).done == old(self).done + 1,
            pc_wf(*final(self)),
            if should_emit((old(self).done + 1) as u32, old(self).last_reported, old(self).total) {
                r == Some(
                    Progress { done: (old(self).done + 1) as u32, total: old(self).total },
                ) && final(self).last_reported == old(self).done + 1
            } else {
                r is None && final(self).last_reported == old(self).last_reported
            },
    {
        self.done = self.done + 1;
        let gain = (self.done - self.last_reported) as u64 * 100;
        if gain > self.total as u64 || self.done == self.total {
            self.last_reported = self.done;
            Some(Progress { done: self.done, total: self.total })
        } else {
            None
        }
    }
}

/// The monotonically rising request-id counter the engine owns; ids wrap
/// only after the whole 32-bit range was handed out.
pub struct IdGen {
    pub next: u32,
}

impl IdGen {
    /// A counter starting at zero.
    pub fn new() -> (r: IdGen)
        ensures
            r.next == 0u32,
    {
        IdGen { next: 0 }
    }

    /// Hands the next id out.
    pub fn fresh(&mut self) -> (r: u32)
        ensures
            r == old(self).next,
            final(self).next == (if old(self).next == u32::MAX {
                0u32
            } else {
                (old(self).next + 1) as u32
            }),
    {
        let id = self.next;
        self.next = if self.next == u32::MAX {
            0
        } else {
            self.next + 1
        };
        id
    }
}

} // verus!
