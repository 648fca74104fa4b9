//! Quality-Scoring Scheduler: a first-in-first-out queue of post-hoc
//! scoring jobs with an at-most-one-running invariant, and the bounded
//! history of recent search samples.
//!
//! The application wraps one `SchedulerState` in a lock; dispatching and
//! completion are short reads and writes here, and the scoring work runs
//! outside the lock.

use vstd::prelude::*;
use crate::media::{CompressionConfig, VideoInfo};
use crate::search::Sample;

verus! {

/// A queued post-hoc scoring task.
pub struct QualityJob {
    /// Job key: the input path.
    pub key: String,
    /// Pristine reference the score compares against.
    pub reference_path: String,
    /// The compressed output to score.
    pub distorted_path: String,
    /// Duration of the reference, in milliseconds.
    pub duration_ms: u64,
    /// Configuration snapshot taken when the job was queued.
    pub config: CompressionConfig,
    /// Metadata snapshot to annotate with the score.
    pub output_info: Option<VideoInfo>,
}

/// Most search samples the history keeps; the oldest leave first.
pub const HISTORY_CAP: usize = 50;

/// The scheduler's shared state: the FIFO queue, the key of the one job
/// allowed to run at a time, and the bounded sample history.
pub struct SchedulerState {
    /// Queued jobs, oldest first.
    pub queue: Vec<QualityJob>,
    /// Key of the job running now, if any: the single running marker.
    pub running: Option<String>,
    /// Recent search samples, oldest first, at most `HISTORY_CAP`.
    pub crf_history: Vec<Sample>,
}

impl SchedulerState {
    /// The state invariant: the history stays within its cap.
    pub open spec fn wf(self) -> bool {
        self.crf_history@.len() <= HISTORY_CAP
    }

    /// How many jobs run at this instant: one when the marker is set,
    /// none otherwise — never more.
    pub open spec fn running_count(self) -> int {
        if self.running is Some {
            1
        } else {
            0
        }
    }

    /// An empty scheduler: nothing queued, nothing running.
    pub fn new() -> (r: SchedulerState)
        ensures
            r.wf(),
            r.queue@.len() == 0,
            r.running is None,
            r.crf_history@.len() == 0,
    {
        SchedulerState { queue: Vec::new(), running: None, crf_history: Vec::new() }
    }

    /// Append a job to the tail of the queue. Nothing starts here; the
    /// caller follows with a dispatch check.
    pub fn enqueue(&mut self, job: QualityJob)
        requires
            old(self).wf(),
        ensures
            final(self).wf(),
            final(self).queue@ =~= old(self).queue@.push(job),
            final(self).running == old(self).running,
            final(self).crf_history == old(self).crf_history,
    {
        self.queue.push(job);
    }

    /// Pop the head of the queue and mark it running — but only when no
    /// job is running; otherwise, or with an empty queue, nothing
    /// changes. Jobs therefore start in submission order, one at a
    /// time.
    pub fn try_dispatch(&mut self) -> (r: Option<QualityJob>)
        requires
            old(self).wf(),
        ensures
            final(self).wf(),
            final(self).crf_history == old(self).crf_history,
            old(self).running is Some ==> r is None && final(self).queue == old(self).queue
                && final(self).running == old(self).running,
            old(self).running is None && old(self).queue@.len() == 0 ==> r is None && final(self).queue == old(self).queue && final(self).running is None,
            old(self).running is None && old(self).queue@.len() > 0 ==> {
                &&& r is Some
                &&& r->0 == old(self).queue@[0]
                &&& final(self).queue@ =~= old(self).queue@.drop_first()
                &&& final(self).running == Some(old(self).queue@[0].key)
                &&& final(self).running_count() == 1
            },
    {
        if self.running.is_some() {
            return None;
        }
        if self.queue.len() == 0 {
            return None;
        }
        let job = self.queue.remove(0);
        self.running = Some(job.key.clone());
        proof {
            assert(final(self).queue@ =~= old(self).queue@.drop_first());
        }
        Some(job)
    }

    /// Clear the running marker once a job's scoring is over, whether it
    /// succeeded or not. The caller follows with a dispatch check for
    /// the next queued job.
    pub fn complete(&mut self)
        requires
            old(self).wf(),
        ensures
            final(self).wf(),
            final(self).running is None,
            final(self).queue == old(self).queue,
            final(self).crf_history == old(self).crf_history,
    {
        self.running = None;
    }

    /// Remove the first queued job under `key`, if one is queued:
    /// cancelling a job that never started keeps any subprocess from
    /// ever being spawned for it. Returns whether one was removed.
    pub fn cancel_queued(&mut self, key: &String) -> (r: bool)
        requires
            old(self).wf(),
        ensures
            final(self).wf(),
            final(self).running == old(self).running,
            final(self).crf_history == old(self).crf_history,
            r == exists|i: int|
                0 <= i < old(self).queue@.len() && (#[trigger] old(self).queue@[i]).key@ == key@,
            !r ==> final(self).queue == old(self).queue,
            r ==> exists|i: int|
                {
                    &&& 0 <= i < old(self).queue@.len()
                    &&& (#[trigger] old(self).queue@[i]).key@ == key@
                    &&& forall|j: int| 0 <= j < i ==> (#[trigger] old(self).queue@[j]).key@ != key@
                    &&& final(self).queue@ =~= old(self).queue@.remove(i)
                },
    {
        let mut i: usize = 0;
        while i < self.queue.len()
            invariant
                i <= self.queue@.len(),
                *self == *old(self),
                self.crf_history@.len() <= HISTORY_CAP,
                forall|j: int| 0 <= j < i ==> (#[trigger] self.queue@[j]).key@ != key@,
            decreases self.queue@.len() - i,
        {
            if self.queue[i].key == *key {
                self.queue.remove(i);
                proof {
                    assert((old(self).queue@[i as int]).key@ == key@);
                }
                return true;
            }
            i += 1;
        }
        false
    }

    /// Keep a search sample for later diagnosis, evicting the oldest
    /// when the cap is reached; the eviction happens with the insert.
    pub fn record_sample(&mut self, s: Sample)
        requires
            old(self).wf(),
        ensures
            final(self).wf(),
            final(self).queue == old(self).queue,
            final(self).running == old(self).running,
            old(self).crf_history@.len() < HISTORY_CAP ==> final(self).crf_history@ =~= old(self).crf_history@.push(s),
            old(self).crf_history@.len() == HISTORY_CAP ==> final(self).crf_history@ =~= old(self).crf_history@.push(s).drop_first(),
    {
        self.crf_history.push(s);
        if self.crf_history.len() > HISTORY_CAP {
            self.crf_history.remove(0);
            proof {
                assert(final(self).crf_history@ =~= old(self).crf_history@.push(s).drop_first());
            }
        }
    }

    /// Forget the sample history.
    pub fn clear_history(&mut self)
        requires
            old(self).wf(),
        ensures
            final(self).wf(),
            final(self).queue == old(self).queue,
            final(self).running == old(self).running,
            final(self).crf_history@.len() == 0,
    {
        self.crf_history.clear();
    }
}

/// Jobs start in submission order: with nothing running, a dispatch
/// starts the earliest queued job, and after it completes the next
/// dispatch starts the one queued right after it. This follows from
/// `try_dispatch` always taking the head of the queue and `enqueue`
/// always appending at the tail.
pub proof fn lemma_fifo_order(q: Seq<QualityJob>)
    requires
        q.len() >= 2,
    ensures
        q.drop_first()[0] == q[1],
        forall|i: int| 0 <= i < q.len() - 1 ==> q.drop_first()[i] == q[i + 1],
{
}

} // verus!
