//! The queue of pending syntax-highlighting jobs: at most one job per line
//! (a newer job for a line replaces the older one, and goes to the back),
//! first in, first out, and never more than a fixed number of jobs (the
//! oldest are dropped).

use vstd::prelude::*;
use std::collections::VecDeque;

verus! {

broadcast use vstd::std_specs::vecdeque::group_vec_dequeue_axioms;

/// The most jobs a queue holds.
pub const MAX_QUEUE_SIZE: usize = 100;

/// A request to highlight one line, made at some buffer version.
#[derive(Clone, Debug)]
pub struct HighlightJob {
    pub line_idx: usize,
    pub text: String,
    pub version: u64,
}

/// A job as a value.
pub struct JobSpec {
    pub line_idx: usize,
    pub text: Seq<char>,
    pub version: u64,
}

impl View for HighlightJob {
    type V = JobSpec;

    open spec fn view(&self) -> JobSpec {
        JobSpec { line_idx: self.line_idx, text: self.text@, version: self.version }
    }
}

/// The values of a sequence of jobs.
pub open spec fn job_views(s: Seq<HighlightJob>) -> Seq<JobSpec> {
    s.map_values(|j: HighlightJob| j@)
}

/// The jobs of `s` that are not for line `idx`, in order.
pub open spec fn without_line(s: Seq<JobSpec>, idx: usize) -> Seq<JobSpec>
    decreases s.len(),
{
    if s.len() == 0 {
        Seq::empty()
    } else {
        let rest = without_line(s.drop_first(), idx);
        if s[0].line_idx == idx {
            rest
        } else {
            seq![s[0]] + rest
        }
    }
}

/// The queue after enqueuing `job`: older jobs for its line are dropped,
/// the job goes to the back, and the oldest jobs are dropped beyond `max`.
pub open spec fn enqueued(s: Seq<JobSpec>, job: JobSpec, max: nat) -> Seq<JobSpec> {
    let t = without_line(s, job.line_idx).push(job);
    if t.len() > max {
        t.skip(t.len() - max)
    } else {
        t
    }
}

/// The queue after enqueuing each of `jobs`, in order.
pub open spec fn enqueued_all(s: Seq<JobSpec>, jobs: Seq<JobSpec>, max: nat) -> Seq<JobSpec>
    decreases jobs.len(),
{
    if jobs.len() == 0 {
        s
    } else {
        enqueued(enqueued_all(s, jobs.drop_last(), max), jobs.last(), max)
    }
}

/// No two jobs are for the same line.
pub open spec fn lines_distinct(s: Seq<JobSpec>) -> bool {
    forall|i: int, j: int| 0 <= i < j < s.len() ==> s[i].line_idx != s[j].line_idx
}

proof fn lemma_views_push(s: Seq<HighlightJob>, x: HighlightJob)
    ensures
        job_views(s.push(x)) == job_views(s).push(x@),
{
    assert(job_views(s.push(x)) =~= job_views(s).push(x@));
}

proof fn lemma_views_drop_first(s: Seq<HighlightJob>)
    requires
        s.len() > 0,
    ensures
        job_views(s.subrange(1, s.len() as int)) == job_views(s).drop_first(),
{
    assert(job_views(s.subrange(1, s.len() as int)) =~= job_views(s).drop_first());
}

/// What `without_line` keeps: jobs of `s`, none for line `idx`, no more
/// than `s` had, and no two for one line when `s` had none.
proof fn lemma_without_line(s: Seq<JobSpec>, idx: usize)
    ensures
        without_line(s, idx).len() <= s.len(),
        forall|k: int| 0 <= k < without_line(s, idx).len() ==> #[trigger] without_line(s, idx)[k].line_idx != idx,
        forall|k: int| 0 <= k < without_line(s, idx).len() ==> s.contains(#[trigger] without_line(s, idx)[k]),
        lines_distinct(s) ==> lines_distinct(without_line(s, idx)),
    decreases s.len(),
{
    if s.len() > 0 {
        let d = s.drop_first();
        lemma_without_line(d, idx);
        let rest = without_line(d, idx);
        assert forall|k: int| 0 <= k < rest.len() implies s.contains(#[trigger] rest[k]) by {
            let m = choose|m: int| 0 <= m < d.len() && d[m] == rest[k];
            assert(s[m + 1] == rest[k]);
        }
        if s[0].line_idx != idx {
            let r = seq![s[0]] + rest;
            assert forall|k: int| 0 <= k < r.len() implies s.contains(#[trigger] r[k]) by {
                if k == 0 {
                    assert(s[0] == r[0]);
                } else {
                    assert(r[k] == rest[k - 1]);
                }
            }
            if lines_distinct(s) {
                assert(lines_distinct(d)) by {
                    assert forall|i: int, j: int| 0 <= i < j < d.len() implies d[i].line_idx != d[j].line_idx by {
                        assert(d[i] == s[i + 1] && d[j] == s[j + 1]);
                    }
                }
                assert forall|i: int, j: int| 0 <= i < j < r.len() implies r[i].line_idx != r[j].line_idx by {
                    if i == 0 {
                        assert(r[j] == rest[j - 1]);
                        assert(d.contains(rest[j - 1]));
                        let m = choose|m: int| 0 <= m < d.len() && d[m] == rest[j - 1];
                        assert(d[m] == s[m + 1]);
                    } else {
                        assert(r[i] == rest[i - 1] && r[j] == rest[j - 1]);
                    }
                }
            }
        } else {
            if lines_distinct(s) {
                assert forall|i: int, j: int| 0 <= i < j < d.len() implies d[i].line_idx != d[j].line_idx by {
                    assert(d[i] == s[i + 1] && d[j] == s[j + 1]);
                }
            }
        }
    }
}

/// Enqueuing keeps the queue within `max` jobs and one job per line, and
/// puts the new job last.
pub proof fn lemma_enqueued(s: Seq<JobSpec>, job: JobSpec, max: nat)
    requires
        lines_distinct(s),
        s.len() <= max,
        max > 0,
    ensures
        lines_distinct(enqueued(s, job, max)),
        enqueued(s, job, max).len() <= max,
        enqueued(s, job, max).len() > 0,
        enqueued(s, job, max).last() == job,
{
    lemma_without_line(s, job.line_idx);
    let w = without_line(s, job.line_idx);
    let t = w.push(job);
    assert(lines_distinct(t)) by {
        assert forall|i: int, j: int| 0 <= i < j < t.len() implies t[i].line_idx != t[j].line_idx by {
            if j == t.len() - 1 {
                assert(t[i] == w[i]);
            } else {
                assert(t[i] == w[i] && t[j] == w[j]);
            }
        }
    }
    if t.len() > max {
        let u = t.skip(t.len() - max);
        assert forall|i: int, j: int| 0 <= i < j < u.len() implies u[i].line_idx != u[j].line_idx by {
            assert(u[i] == t[i + t.len() - max] && u[j] == t[j + t.len() - max]);
        }
        assert(u.last() == t.last());
    }
}

/// The pending highlighting jobs, oldest first.
pub struct HighlightJobQueue {
    jobs: VecDeque<HighlightJob>,
    max_queue_size: usize,
}

impl View for HighlightJobQueue {
    type V = Seq<JobSpec>;

    closed spec fn view(&self) -> Seq<JobSpec> {
        job_views(self.jobs@)
    }
}

impl HighlightJobQueue {
    /// The most jobs the queue holds.
    pub closed spec fn spec_max(&self) -> nat {
        self.max_queue_size as nat
    }

    /// The queue's invariant: its limit, at most that many jobs, and at most
    /// one job per line.
    pub open spec fn wf(&self) -> bool {
        &&& self.spec_max() == MAX_QUEUE_SIZE
        &&& self@.len() <= self.spec_max()
        &&& lines_distinct(self@)
    }

    /// An empty queue.
    pub fn new() -> (r: Self)
        ensures
            r.wf(),
            r@ == Seq::<JobSpec>::empty(),
    {
        let r = Self { jobs: VecDeque::new(), max_queue_size: MAX_QUEUE_SIZE };
        assert(r@ =~= Seq::<JobSpec>::empty());
        r
    }

    /// Adds a job: an older job for the same line is dropped, the job goes
    /// to the back, and the oldest jobs are dropped beyond the limit.
    pub fn enqueue(&mut self, job: HighlightJob)
        requires
            old(self).wf(),
        ensures
            final(self).wf(),
            final(self)@ == enqueued(old(self)@, job@, MAX_QUEUE_SIZE as nat),
            final(self)@.last() == job@,
    {
        let ghost s0 = self@;
        let idx = job.line_idx;
        let mut kept: VecDeque<HighlightJob> = VecDeque::new();
        assert(job_views(kept@) =~= Seq::<JobSpec>::empty());
        while self.jobs.len() > 0
            invariant
                self.max_queue_size == MAX_QUEUE_SIZE,
                without_line(s0, idx) == job_views(kept@) + without_line(job_views(self.jobs@), idx),
            decreases self.jobs@.len(),
        {
            let ghost raw = self.jobs@;
            let ghost before = job_views(raw);
            let ghost kv = job_views(kept@);
            match self.jobs.pop_front() {
                Some(j) => {
                    proof {
                        lemma_views_drop_first(raw);
                    }
                    assert(before[0] == j@);
                    if j.line_idx != idx {
                        kept.push_back(j);
                        assert(job_views(kept@) =~= kv.push(j@));
                        assert(kv.push(j@) + without_line(before.drop_first(), idx)
                            =~= kv + (seq![j@] + without_line(before.drop_first(), idx)));
                    }
                },
                None => {},
            }
        }
        assert(without_line(job_views(self.jobs@), idx) =~= Seq::<JobSpec>::empty());
        assert(job_views(kept@) + Seq::<JobSpec>::empty() =~= job_views(kept@));
        proof {
            lemma_without_line(s0, idx);
        }
        let ghost t = without_line(s0, idx).push(job@);
        kept.push_back(job);
        assert(job_views(kept@) =~= t);
        while kept.len() > self.max_queue_size
            invariant
                self.max_queue_size == MAX_QUEUE_SIZE,
                kept@.len() <= t.len(),
                t.len() <= MAX_QUEUE_SIZE + 1,
                t.len() > MAX_QUEUE_SIZE ==> kept@.len() >= MAX_QUEUE_SIZE,
                t.len() <= MAX_QUEUE_SIZE ==> kept@.len() == t.len(),
                job_views(kept@) == t.skip(t.len() - kept@.len()),
            decreases kept@.len(),
        {
            let ghost kv = job_views(kept@);
            kept.pop_front();
            assert(job_views(kept@) =~= kv.drop_first());
            assert(kv.drop_first() =~= t.skip(t.len() - kept@.len()));
        }
        self.jobs = kept;
        proof {
            if t.len() <= MAX_QUEUE_SIZE {
                assert(t.skip(0) =~= t);
            }
            assert(self@ == enqueued(s0, job@, MAX_QUEUE_SIZE as nat));
            lemma_enqueued(s0, job@, MAX_QUEUE_SIZE as nat);
        }
    }

    /// Takes the oldest job, if any.
    pub fn dequeue(&mut self) -> (r: Option<HighlightJob>)
        requires
            old(self).wf(),
        ensures
            final(self).wf(),
            old(self)@.len() == 0 ==> r is None && final(self)@ == old(self)@,
            old(self)@.len() > 0 ==> (r matches Some(j) && j@ == old(self)@[0]
                && final(self)@ == old(self)@.drop_first()),
    {
        let ghost before = self@;
        let r = self.jobs.pop_front();
        proof {
            if before.len() > 0 {
                assert(self@ =~= before.drop_first());
                assert forall|i: int, j: int| 0 <= i < j < self@.len() implies self@[i].line_idx != self@[j].line_idx by {
                    assert(self@[i] == before[i + 1] && self@[j] == before[j + 1]);
                }
            }
        }
        r
    }

    /// Whether no job is pending.
    pub fn is_empty(&self) -> (r: bool)
        ensures
            r == (self@.len() == 0),
    {
        self.jobs.len() == 0
    }

    /// The number of pending jobs.
    pub fn len(&self) -> (r: usize)
        ensures
            r == self@.len(),
    {
        self.jobs.len()
    }

    /// Drops every pending job.
    pub fn clear(&mut self)
        requires
            old(self).wf(),
        ensures
            final(self).wf(),
            final(self)@ == Seq::<JobSpec>::empty(),
    {
        self.jobs.clear();
        assert(self@ =~= Seq::<JobSpec>::empty());
    }

    /// Enqueues each job in turn.
    pub fn enqueue_batch(&mut self, jobs: Vec<HighlightJob>)
        requires
            old(self).wf(),
        ensures
            final(self).wf(),
            final(self)@ == enqueued_all(old(self)@, job_views(jobs@), MAX_QUEUE_SIZE as nat),
    {
        let ghost s0 = self@;
        let ghost all = job_views(jobs@);
        let mut rest = jobs;
        let mut taken: Vec<HighlightJob> = Vec::new();
        // Take the jobs from the back, so that they can be enqueued front first.
        let n = rest.len();
        let mut i: usize = 0;
        while i < n
            invariant
                i <= n,
                n == jobs@.len(),
                rest@ == jobs@.take(n - i),
                taken@.len() == i,
                forall|k: int| 0 <= k < i ==> #[trigger] taken@[k] == jobs@[n - 1 - k],
            decreases n - i,
        {
            let j = rest.pop().unwrap();
            assert(jobs@.take(n - i).last() == jobs@[n - 1 - i]);
            taken.push(j);
            assert(jobs@.take(n - i).drop_last() =~= jobs@.take(n - i - 1));
            i += 1;
        }
        let mut k: usize = 0;
        assert(all.take(0) =~= Seq::<JobSpec>::empty());
        while taken.len() > 0
            invariant
                k + taken@.len() == n,
                n == jobs@.len(),
                all == job_views(jobs@),
                forall|m: int| 0 <= m < taken@.len() ==> #[trigger] taken@[m] == jobs@[n - 1 - m],
                self.wf(),
                self@ == enqueued_all(s0, all.take(k as int), MAX_QUEUE_SIZE as nat),
            decreases taken@.len(),
        {
            let last = taken.len() - 1;
            let j = taken.pop().unwrap();
            assert(j == jobs@[k as int]);
            self.enqueue(j);
            assert(all.take(k + 1).drop_last() =~= all.take(k as int));
            assert(all.take(k + 1).last() == j@);
            k += 1;
        }
        assert(all.take(n as int) =~= all);
    }
}

impl Default for HighlightJobQueue {
    fn default() -> (r: Self)
        ensures
            r.wf(),
            r@ == Seq::<JobSpec>::empty(),
    {
        Self::new()
    }
}

} // verus!
