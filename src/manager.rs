//! The download manager: jobs wait in submission order, start only while a
//! permit of the pool is free, and leave one outcome each, keyed by job id.
use vstd::prelude::*;
use crate::errors::DownloadError;

verus! {

/// One requested file transfer.
#[derive(Debug, PartialEq, Eq)]
pub struct DownloadJob {
    /// The key of the job's outcome.
    pub id: String,
    /// Where the file goes.
    pub target_path: String,
    /// The item whose links are resolved into byte sources.
    pub item_url: String,
    /// The quality label to match among the resolved links, if any.
    pub preferred_quality: Option<String>,
    /// The number of retries after a failed attempt.
    pub retries: usize,
}

/// The outcome of a job.
pub type JobOutcome = Result<(), DownloadError>;

/// Runs jobs with at most `concurrent_downloads` of them under way at once.
pub struct ConcurrentDownloadManager {
    concurrent_downloads: usize,
    retries: usize,
    pending: Vec<DownloadJob>,
    running: Vec<String>,
    tasks_results: Vec<(String, JobOutcome)>,
}

/// The ids of a list of jobs.
pub open spec fn job_ids(s: Seq<DownloadJob>) -> Seq<Seq<char>> {
    Seq::new(s.len(), |i: int| s[i].id@)
}

/// The ids of a list of outcomes.
pub open spec fn outcome_ids(s: Seq<(String, JobOutcome)>) -> Seq<Seq<char>> {
    Seq::new(s.len(), |i: int| s[i].0@)
}

/// No string occurs twice.
pub open spec fn distinct(s: Seq<Seq<char>>) -> bool {
    forall|i: int, j: int| 0 <= i < j < s.len() ==> s[i] != s[j]
}

/// The first index of `s` that holds `x`, or `s.len()`.
pub open spec fn index_of(s: Seq<Seq<char>>, x: Seq<char>) -> int
    decreases s.len(),
{
    if s.len() == 0 {
        0
    } else if s[0] == x {
        0
    } else {
        1 + index_of(s.skip(1), x)
    }
}

/// `s` with the entry keyed `key` set to `value`: replaced where the key is
/// present, appended where it is not.
pub open spec fn upsert(
    s: Seq<(String, JobOutcome)>,
    key: String,
    value: JobOutcome,
) -> Seq<(String, JobOutcome)> {
    let k = index_of(outcome_ids(s), key@);
    if k < s.len() {
        s.update(k, (key, value))
    } else {
        s.push((key, value))
    }
}

/// `s` with `job` put in the place of the job of the same id, or appended.
pub open spec fn submit_to(s: Seq<DownloadJob>, job: DownloadJob) -> Seq<DownloadJob> {
    let k = index_of(job_ids(s), job.id@);
    if k < s.len() {
        s.update(k, job)
    } else {
        s.push(job)
    }
}

/// What `index_of` finds.
proof fn lemma_index_of(s: Seq<Seq<char>>, x: Seq<char>)
    ensures
        0 <= index_of(s, x) <= s.len(),
        index_of(s, x) < s.len() ==> s[index_of(s, x)] == x,
        forall|j: int| 0 <= j < index_of(s, x) ==> s[j] != x,
    decreases s.len(),
{
    if s.len() > 0 && s[0] != x {
        lemma_index_of(s.skip(1), x);
        assert forall|j: int| 0 <= j < index_of(s, x) implies s[j] != x by {
            if j > 0 {
                assert(s[j] == s.skip(1)[j - 1]);
            }
        }
    }
}

/// Finds `x` among the strings of `v`, returning its first index.
fn find_id(v: &Vec<String>, x: &String) -> (r: usize)
    ensures
        r as int == index_of(Seq::new(v@.len(), |i: int| v@[i]@), x@),
{
    let ghost s = Seq::new(v@.len(), |i: int| v@[i]@);
    proof {
        lemma_index_of(s, x@);
    }
    let mut i: usize = 0;
    while i < v.len()
        invariant
            i <= v@.len(),
            s == Seq::new(v@.len(), |i: int| v@[i]@),
            forall|j: int| 0 <= j < i ==> s[j] != x@,
            0 <= index_of(s, x@) <= s.len(),
            index_of(s, x@) < s.len() ==> s[index_of(s, x@)] == x@,
            forall|j: int| 0 <= j < index_of(s, x@) ==> s[j] != x@,
        decreases v@.len() - i,
    {
        if v[i] == *x {
            assert(s[i as int] == x@);
            return i;
        }
        i = i + 1;
    }
    i
}

impl ConcurrentDownloadManager {
    /// The number of permits.
    pub closed spec fn capacity(&self) -> nat {
        self.concurrent_downloads as nat
    }

    /// The retries that a submitted episode is given.
    pub closed spec fn retry_budget(&self) -> nat {
        self.retries as nat
    }

    /// Jobs submitted and not started, in submission order.
    pub closed spec fn pending(&self) -> Seq<DownloadJob> {
        self.pending@
    }

    /// Ids of the jobs under way, each holding a permit.
    pub closed spec fn running(&self) -> Seq<Seq<char>> {
        Seq::new(self.running@.len(), |i: int| self.running@[i]@)
    }

    /// Outcomes gathered so far, one per id.
    pub closed spec fn outcomes(&self) -> Seq<(String, JobOutcome)> {
        self.tasks_results@
    }

    /// No more jobs run than there are permits; pending jobs and outcomes
    /// have distinct ids.
    pub open spec fn wf(&self) -> bool {
        &&& self.running().len() <= self.capacity()
        &&& distinct(job_ids(self.pending()))
        &&& distinct(outcome_ids(self.outcomes()))
    }

    /// A manager with `concurrent_downloads` permits whose jobs retry up to
    /// `retries` times.
    pub fn new(concurrent_downloads: usize, retries: usize) -> (r: Self)
        ensures
            r.wf(),
            r.capacity() == concurrent_downloads,
            r.retry_budget() == retries,
            r.pending().len() == 0,
            r.running().len() == 0,
            r.outcomes().len() == 0,
    {
        ConcurrentDownloadManager {
            concurrent_downloads,
            retries,
            pending: Vec::new(),
            running: Vec::new(),
            tasks_results: Vec::new(),
        }
    }

    /// Number of jobs under way.
    pub fn active(&self) -> (r: usize)
        ensures
            r == self.running().len(),
    {
        self.running.len()
    }

    /// Submits a job; a pending job of the same id is replaced by it.
    pub fn submit(&mut self, job: DownloadJob)
        requires
            old(self).wf(),
        ensures
            final(self).wf(),
            final(self).pending() == submit_to(old(self).pending(), job),
            final(self).running() == old(self).running(),
            final(self).outcomes() == old(self).outcomes(),
            final(self).capacity() == old(self).capacity(),
            final(self).retry_budget() == old(self).retry_budget(),
    {
        let ghost ids = job_ids(self.pending@);
        proof {
            lemma_index_of(ids, job.id@);
        }
        let mut i: usize = 0;
        while i < self.pending.len()
            invariant
                self.pending@ == old(self).pending@,
                self.running == old(self).running,
                self.tasks_results == old(self).tasks_results,
                self.concurrent_downloads == old(self).concurrent_downloads,
                self.retries == old(self).retries,
                ids == job_ids(self.pending@),
                old(self).wf(),
                i <= self.pending@.len(),
                forall|j: int| 0 <= j < i ==> ids[j] != job.id@,
                0 <= index_of(ids, job.id@) <= ids.len(),
                index_of(ids, job.id@) < ids.len() ==> ids[index_of(ids, job.id@)] == job.id@,
                forall|j: int| 0 <= j < index_of(ids, job.id@) ==> ids[j] != job.id@,
            decreases self.pending@.len() - i,
        {
            if self.pending[i].id == job.id {
                assert(ids[i as int] == job.id@);
                assert(index_of(ids, job.id@) == i);
                self.pending.set(i, job);
                assert(job_ids(self.pending@) =~= ids);
                assert(self.running() == old(self).running());
                assert(self.outcomes() == old(self).outcomes());
                assert(distinct(job_ids(self.pending())));
                return;
            }
            i = i + 1;
        }
        assert(index_of(ids, job.id@) == ids.len());
        self.pending.push(job);
        assert(job_ids(self.pending@) =~= ids.push(job.id@));
    }

    /// Submits an episode: its id and target are `ep_path`, its links come
    /// from `ep_url`, and the link closest to `pref_res` is fetched.
    pub fn add_gogo_download(&mut self, pref_res: &str, ep_path: &str, ep_url: &str)
        requires
            old(self).wf(),
        ensures
            final(self).wf(),
            exists|job: DownloadJob|
                {
                    &&& job.id@ == ep_path@
                    &&& job.target_path@ == ep_path@
                    &&& job.item_url@ == ep_url@
                    &&& job.preferred_quality is Some
                    &&& job.preferred_quality->Some_0@ == pref_res@
                    &&& job.retries == old(self).retry_budget()
                    &&& final(self).pending() == #[trigger] submit_to(old(self).pending(), job)
                },
            final(self).running() == old(self).running(),
            final(self).outcomes() == old(self).outcomes(),
            final(self).capacity() == old(self).capacity(),
            final(self).retry_budget() == old(self).retry_budget(),
    {
        let job = DownloadJob {
            id: String::from_str(ep_path),
            target_path: String::from_str(ep_path),
            item_url: String::from_str(ep_url),
            preferred_quality: Some(String::from_str(pref_res)),
            retries: self.retries,
        };
        self.submit(job);
    }

    /// Starts the first pending job if a permit is free: it leaves the
    /// queue and holds a permit until `finish_job`. The number of jobs under
    /// way never passes the number of permits.
    pub fn next_job(&mut self) -> (r: Option<DownloadJob>)
        requires
            old(self).wf(),
        ensures
            final(self).wf(),
            final(self).running().len() <= final(self).capacity(),
            final(self).outcomes() == old(self).outcomes(),
            final(self).capacity() == old(self).capacity(),
            final(self).retry_budget() == old(self).retry_budget(),
            old(self).running().len() < old(self).capacity() && old(self).pending().len() > 0 ==> {
                &&& r == Some(old(self).pending()[0])
                &&& final(self).pending() == old(self).pending().skip(1)
                &&& final(self).running() == old(self).running().push(old(self).pending()[0].id@)
            },
            !(old(self).running().len() < old(self).capacity() && old(self).pending().len() > 0)
                ==> {
                &&& r is None
                &&& final(self).pending() == old(self).pending()
                &&& final(self).running() == old(self).running()
            },
    {
        if self.running.len() >= self.concurrent_downloads || self.pending.len() == 0 {
            return None;
        }
        let job = self.pending.remove(0);
        let id = job.id.clone();
        self.running.push(id);
        proof {
            let ids = job_ids(old(self).pending@);
            assert(job_ids(self.pending@) =~= ids.skip(1));
            assert(self.pending@ =~= old(self).pending@.skip(1));
            assert(self.running() =~= old(self).running().push(job.id@));
        }
        Some(job)
    }

    /// Records the outcome of a job under way and frees its permit. An id
    /// that is not under way changes nothing and returns `false`.
    pub fn finish_job(&mut self, id: String, outcome: JobOutcome) -> (r: bool)
        requires
            old(self).wf(),
        ensures
            final(self).wf(),
            final(self).pending() == old(self).pending(),
            final(self).capacity() == old(self).capacity(),
            final(self).retry_budget() == old(self).retry_budget(),
            r == (index_of(old(self).running(), id@) < old(self).running().len()),
            r ==> final(self).running() == old(self).running().remove(
                index_of(old(self).running(), id@),
            ),
            r ==> final(self).outcomes() == upsert(old(self).outcomes(), id, outcome),
            !r ==> final(self).running() == old(self).running() && final(self).outcomes()
                == old(self).outcomes(),
    {
        proof {
            lemma_index_of(self.running(), id@);
        }
        let k = find_id(&self.running, &id);
        if k == self.running.len() {
            return false;
        }
        let _ = self.running.remove(k);
        assert(self.running() =~= old(self).running().remove(k as int));
        let keys: Vec<String> = self.outcome_keys();
        let j = find_id(&keys, &id);
        proof {
            assert(Seq::new(keys@.len(), |i: int| keys@[i]@) =~= outcome_ids(self.outcomes()));
            lemma_index_of(outcome_ids(self.outcomes()), id@);
        }
        if j < self.tasks_results.len() {
            self.tasks_results.set(j, (id, outcome));
            assert(outcome_ids(self.outcomes()) =~= outcome_ids(old(self).outcomes()));
        } else {
            self.tasks_results.push((id, outcome));
            assert(outcome_ids(self.outcomes()) =~= outcome_ids(old(self).outcomes()).push(id@));
        }
        true
    }

    /// The ids of the outcomes, in order.
    fn outcome_keys(&self) -> (r: Vec<String>)
        ensures
            r@.len() == self.outcomes().len(),
            forall|i: int| 0 <= i < r@.len() ==> #[trigger] r@[i]@ == self.outcomes()[i].0@,
    {
        let mut r: Vec<String> = Vec::new();
        let mut i: usize = 0;
        while i < self.tasks_results.len()
            invariant
                i <= self.tasks_results@.len(),
                r@.len() == i,
                forall|j: int| 0 <= j < i ==> #[trigger] r@[j]@ == self.tasks_results@[j].0@,
            decreases self.tasks_results@.len() - i,
        {
            let key = self.tasks_results[i].0.clone();
            r.push(key);
            i = i + 1;
        }
        r
    }

    /// Once no job is pending or under way, hands out every outcome and
    /// forgets them, so that the manager can take another batch; before
    /// that, returns `None` and changes nothing.
    pub fn await_results(&mut self) -> (r: Option<Vec<(String, JobOutcome)>>)
        requires
            old(self).wf(),
        ensures
            final(self).wf(),
            final(self).pending() == old(self).pending(),
            final(self).running() == old(self).running(),
            final(self).capacity() == old(self).capacity(),
            final(self).retry_budget() == old(self).retry_budget(),
            old(self).pending().len() == 0 && old(self).running().len() == 0 ==> {
                &&& r is Some
                &&& r->Some_0@ == old(self).outcomes()
                &&& final(self).outcomes().len() == 0
            },
            !(old(self).pending().len() == 0 && old(self).running().len() == 0) ==> {
                &&& r is None
                &&& final(self).outcomes() == old(self).outcomes()
            },
    {
        if self.pending.len() > 0 || self.running.len() > 0 {
            return None;
        }
        let mut results: Vec<(String, JobOutcome)> = Vec::new();
        std::mem::swap(&mut results, &mut self.tasks_results);
        assert(outcome_ids(self.outcomes()) =~= Seq::<Seq<char>>::empty());
        Some(results)
    }
}

} // verus!
