//! The table of long-running jobs (photo processing): status, progress, result, and the
//! requests to stop them.
use vstd::prelude::*;

verus! {

/// The state of a job.
#[derive(PartialEq, Eq, Structural, Clone, Copy, Debug)]
pub enum JobStatus {
    Queued,
    Running,
    Succeeded,
    Failed,
}

/// A job as the API reports it. `result` holds the job's result as JSON text.
pub struct JobInfo {
    pub job_id: String,
    pub status: JobStatus,
    pub progress: u8,
    pub message: Option<String>,
    pub result: Option<String>,
    pub error: Option<String>,
}

pub open spec fn opt_text(o: Option<String>) -> Option<Seq<char>> {
    match o {
        Some(s) => Some(s@),
        None => None,
    }
}

/// A job as plain values.
pub struct JobModel {
    pub job_id: Seq<char>,
    pub status: JobStatus,
    pub progress: u8,
    pub message: Option<Seq<char>>,
    pub result: Option<Seq<char>>,
    pub error: Option<Seq<char>>,
}

impl View for JobInfo {
    type V = JobModel;

    open spec fn view(&self) -> JobModel {
        JobModel {
            job_id: self.job_id@,
            status: self.status,
            progress: self.progress,
            message: opt_text(self.message),
            result: opt_text(self.result),
            error: opt_text(self.error),
        }
    }
}

fn copy_text(o: &Option<String>) -> (r: Option<String>)
    ensures
        opt_text(r) == opt_text(*o),
{
    match o {
        Some(s) => Some(s.clone()),
        None => None,
    }
}

impl JobInfo {
    /// A copy of this job.
    pub fn duplicate(&self) -> (r: JobInfo)
        ensures
            r@ == self@,
    {
        JobInfo {
            job_id: self.job_id.clone(),
            status: self.status,
            progress: self.progress,
            message: copy_text(&self.message),
            result: copy_text(&self.result),
            error: copy_text(&self.error),
        }
    }
}

/// The position of the first job of `v` with id `id`, or `v.len()`.
pub open spec fn first_index(v: Seq<JobInfo>, id: Seq<char>) -> int
    decreases v.len(),
{
    if v.len() == 0 {
        0
    } else if v[0].job_id@ == id {
        0
    } else {
        1 + first_index(v.skip(1), id)
    }
}

pub proof fn lemma_first_index(v: Seq<JobInfo>, id: Seq<char>)
    ensures
        0 <= first_index(v, id) <= v.len(),
        first_index(v, id) < v.len() ==> v[first_index(v, id)].job_id@ == id,
        forall|k: int| 0 <= k < first_index(v, id) ==> (#[trigger] v[k]).job_id@ != id,
    decreases v.len(),
{
    if v.len() > 0 && v[0].job_id@ != id {
        lemma_first_index(v.skip(1), id);
        assert forall|k: int| 0 <= k < first_index(v, id) implies (#[trigger] v[k]).job_id@ != id by {
            if k > 0 {
                assert(v[k] == v.skip(1)[k - 1]);
            }
        }
    }
}

/// The first index characterizes `first_index`.
pub proof fn lemma_first_index_from(v: Seq<JobInfo>, id: Seq<char>, i: int)
    requires
        0 <= i <= v.len(),
        i < v.len() ==> v[i].job_id@ == id,
        forall|k: int| 0 <= k < i ==> (#[trigger] v[k]).job_id@ != id,
    ensures
        first_index(v, id) == i,
    decreases v.len(),
{
    if v.len() > 0 && i > 0 {
        assert forall|k: int| 0 <= k < i - 1 implies (#[trigger] v.skip(1)[k]).job_id@ != id by {
            assert(v.skip(1)[k] == v[k + 1]);
        }
        lemma_first_index_from(v.skip(1), id, i - 1);
    }
}

/// The job with id `id` in the list `v`.
pub open spec fn job_of(v: Seq<JobInfo>, id: Seq<char>) -> Option<JobModel> {
    if first_index(v, id) < v.len() {
        Some(v[first_index(v, id)]@)
    } else {
        None
    }
}

/// Some text of `v` is `x`.
pub open spec fn texts_contain(v: Seq<String>, x: Seq<char>) -> bool {
    exists|k: int| 0 <= k < v.len() && (#[trigger] v[k])@ == x
}

/// The table of jobs and the set of ids whose stop has been requested. Both are vectors
/// looked up by id: vstd gives `HashMap` and `HashSet` their meaning only for key types it
/// models, and `String` is not among them, so a map keyed by the job's id would leave every
/// lookup unproved. A lookup finds the first job with the id; `job` is the map they make.
pub struct Jobs {
    jobs: Vec<JobInfo>,
    cancel: Vec<String>,
}

impl Jobs {
    /// The job with id `id`.
    pub closed spec fn job(&self, id: Seq<char>) -> Option<JobModel> {
        job_of(self.jobs@, id)
    }

    /// A stop of job `id` has been requested and the job has not ended since.
    pub closed spec fn cancelled(&self, id: Seq<char>) -> bool {
        texts_contain(self.cancel@, id)
    }

    /// Every job's progress is a percentage: the invariant of the table.
    #[verifier::type_invariant]
    pub closed spec fn wf(&self) -> bool {
        forall|k: int| 0 <= k < self.jobs@.len() ==> (#[trigger] self.jobs@[k]).progress <= 100
    }

    /// An empty table (`Jobs::default`).
    pub fn new() -> (r: Jobs)
        ensures
            r.wf(),
            forall|id: Seq<char>| r.job(id) is None && !r.cancelled(id),
    {
        Jobs { jobs: Vec::new(), cancel: Vec::new() }
    }

    fn find(&self, id: &str) -> (r: usize)
        ensures
            r == first_index(self.jobs@, id@),
            r <= self.jobs@.len(),
    {
        proof {
            use_type_invariant(&*self);
        }
        let key = String::from_str(id);
        let mut i: usize = 0;
        while i < self.jobs.len()
            invariant
                i <= self.jobs@.len(),
                key@ == id@,
                forall|k: int| 0 <= k < i ==> (#[trigger] self.jobs@[k]).job_id@ != id@,
            decreases self.jobs.len() - i,
        {
            if self.jobs[i].job_id == key {
                proof {
                    lemma_first_index_from(self.jobs@, id@, i as int);
                }
                return i;
            }
            i = i + 1;
        }
        proof {
            lemma_first_index_from(self.jobs@, id@, i as int);
        }
        i
    }

    /// Replaces the job at position `i`, the first with its id, by `job` with the same id.
    fn replace_at(&mut self, i: usize, job: JobInfo)
        requires
            job.progress <= 100,
            i < old(self).jobs@.len(),
            i == first_index(old(self).jobs@, job.job_id@),
        ensures
            final(self).jobs@ == old(self).jobs@.update(i as int, job),
            final(self).cancel@ == old(self).cancel@,
            final(self).job(job.job_id@) == Some(job@),
            forall|x: Seq<char>| x != job.job_id@ ==> final(self).job(x) == old(self).job(x),
            forall|x: Seq<char>| final(self).cancelled(x) == old(self).cancelled(x),
    {
        proof {
            use_type_invariant(&*self);
        }
        let ghost v = self.jobs@;
        let ghost id = job.job_id@;
        let mut table: Vec<JobInfo> = Vec::new();
        std::mem::swap(&mut table, &mut self.jobs);
        table.set(i, job);
        self.jobs = table;
        proof {
            let w = self.jobs@;
            lemma_first_index(v, id);
            lemma_first_index_from(w, id, i as int);
            assert forall|x: Seq<char>| x != id implies #[trigger] job_of(w, x) == job_of(v, x) by {
                lemma_first_index(v, x);
                let f = first_index(v, x);
                assert(f != i);
                assert forall|k: int| 0 <= k < f implies (#[trigger] w[k]).job_id@ != x by {
                    if k != i {
                        assert(w[k] == v[k]);
                    }
                }
                if f < v.len() {
                    assert(w[f] == v[f]);
                }
                lemma_first_index_from(w, x, f);
            }
        }
    }

    /// Records a new queued job under `id`, replacing any job with that id
    /// (`HashMap::insert`).
    pub fn insert_queued(&mut self, id: String)
        ensures
            final(self).job(id@) == Some(
                JobModel {
                    job_id: id@,
                    status: JobStatus::Queued,
                    progress: 0,
                    message: None,
                    result: None,
                    error: None,
                },
            ),
            forall|x: Seq<char>| x != id@ ==> final(self).job(x) == old(self).job(x),
            forall|x: Seq<char>| final(self).cancelled(x) == old(self).cancelled(x),
    {
        proof {
            use_type_invariant(&*self);
        }
        let i = self.find(id.as_str());
        let job = JobInfo {
            job_id: id,
            status: JobStatus::Queued,
            progress: 0,
            message: None,
            result: None,
            error: None,
        };
        if i < self.jobs.len() {
            self.replace_at(i, job);
        } else {
            let ghost v = self.jobs@;
            let ghost jid = job.job_id@;
            let mut table: Vec<JobInfo> = Vec::new();
            std::mem::swap(&mut table, &mut self.jobs);
            table.push(job);
            self.jobs = table;
            proof {
                let w = self.jobs@;
                lemma_first_index(v, jid);
                assert forall|k: int| 0 <= k < v.len() implies (#[trigger] w[k]).job_id@ != jid by {
                    assert(w[k] == v[k]);
                }
                lemma_first_index_from(w, jid, v.len() as int);
                assert forall|x: Seq<char>| x != jid implies #[trigger] job_of(w, x) == job_of(v, x) by {
                    lemma_first_index(v, x);
                    let f = first_index(v, x);
                    if f < v.len() {
                        assert forall|k: int| 0 <= k < f implies (#[trigger] w[k]).job_id@ != x by {
                            assert(w[k] == v[k]);
                        }
                        assert(w[f] == v[f]);
                        lemma_first_index_from(w, x, f);
                    } else {
                        assert forall|k: int| 0 <= k < w.len() implies (#[trigger] w[k]).job_id@ != x by {
                            if k < v.len() {
                                assert(w[k] == v[k]);
                            }
                        }
                        lemma_first_index_from(w, x, w.len() as int);
                    }
                }
            }
        }
    }

    /// `set_running`: marks job `id` as running; nothing happens to an unknown id.
    pub fn set_running(&mut self, id: &str)
        ensures
            match old(self).job(id@) {
                Some(j) => final(self).job(id@) == Some(JobModel { status: JobStatus::Running, ..j }),
                None => final(self).job(id@) is None,
            },
            forall|x: Seq<char>| x != id@ ==> final(self).job(x) == old(self).job(x),
            forall|x: Seq<char>| final(self).cancelled(x) == old(self).cancelled(x),
    {
        proof {
            use_type_invariant(&*self);
        }
        let i = self.find(id);
        if i < self.jobs.len() {
            proof {
                lemma_first_index(self.jobs@, id@);
            }
            let mut job = self.jobs[i].duplicate();
            job.status = JobStatus::Running;
            self.replace_at(i, job);
        }
    }

    /// `set_progress`: records progress (at most 100) and the message of job `id`.
    pub fn set_progress(&mut self, id: &str, progress: u8, message: Option<String>)
        ensures
            match old(self).job(id@) {
                Some(j) => final(self).job(id@) == Some(
                    JobModel {
                        progress: if progress < 100 {
                            progress
                        } else {
                            100
                        },
                        message: opt_text(message),
                        ..j
                    },
                ),
                None => final(self).job(id@) is None,
            },
            forall|x: Seq<char>| x != id@ ==> final(self).job(x) == old(self).job(x),
            forall|x: Seq<char>| final(self).cancelled(x) == old(self).cancelled(x),
    {
        proof {
            use_type_invariant(&*self);
        }
        let i = self.find(id);
        if i < self.jobs.len() {
            proof {
                lemma_first_index(self.jobs@, id@);
            }
            let mut job = self.jobs[i].duplicate();
            job.progress = if progress < 100 {
                progress
            } else {
                100
            };
            job.message = message;
            self.replace_at(i, job);
        }
    }

    fn uncancel(&mut self, id: &str)
        ensures
            final(self).jobs@ == old(self).jobs@,
            !final(self).cancelled(id@),
            forall|x: Seq<char>| x != id@ ==> final(self).cancelled(x) == old(self).cancelled(x),
            forall|x: Seq<char>| final(self).job(x) == old(self).job(x),
    {
        proof {
            use_type_invariant(&*self);
        }
        let key = String::from_str(id);
        let ghost c0 = self.cancel@;
        let mut kept: Vec<String> = Vec::new();
        let mut i: usize = 0;
        while i < self.cancel.len()
            invariant
                i <= self.cancel@.len(),
                self.cancel@ == c0,
                key@ == id@,
                forall|k: int| 0 <= k < kept@.len() ==> (#[trigger] kept@[k])@ != id@,
                forall|k: int|
                    0 <= k < kept@.len() ==> exists|j: int|
                        0 <= j < i && (#[trigger] c0[j])@ == (#[trigger] kept@[k])@,
                forall|j: int|
                    0 <= j < i && (#[trigger] c0[j])@ != id@ ==> exists|k: int|
                        0 <= k < kept@.len() && (#[trigger] kept@[k])@ == c0[j]@,
            decreases self.cancel.len() - i,
        {
            let ghost before = kept@;
            if self.cancel[i] != key {
                kept.push(self.cancel[i].clone());
                assert(kept@[before.len() as int]@ == c0[i as int]@);
                assert forall|k: int| 0 <= k < kept@.len() implies exists|j: int|
                    0 <= j < i + 1 && (#[trigger] c0[j])@ == (#[trigger] kept@[k])@ by {
                    if k < before.len() {
                        assert(kept@[k] == before[k]);
                    } else {
                        assert(c0[i as int]@ == kept@[k]@);
                    }
                }
                assert forall|j: int| 0 <= j < i + 1 && (#[trigger] c0[j])@ != id@ implies exists|k: int|
                    0 <= k < kept@.len() && (#[trigger] kept@[k])@ == c0[j]@ by {
                    if j < i {
                        let k = choose|k: int| 0 <= k < before.len() && (#[trigger] before[k])@ == c0[j]@;
                        assert(kept@[k] == before[k]);
                    } else {
                        assert(kept@[before.len() as int]@ == c0[j]@);
                    }
                }
            }
            i = i + 1;
        }
        proof {
            assert forall|x: Seq<char>| x != id@ implies #[trigger] texts_contain(kept@, x)
                == texts_contain(c0, x) by {
                if exists|k: int| 0 <= k < kept@.len() && (#[trigger] kept@[k])@ == x {
                    let k = choose|k: int| 0 <= k < kept@.len() && (#[trigger] kept@[k])@ == x;
                    let j = choose|j: int| 0 <= j < c0.len() && (#[trigger] c0[j])@ == (#[trigger] kept@[k])@;
                    assert(c0[j]@ == x);
                }
                if exists|k: int| 0 <= k < c0.len() && (#[trigger] c0[k])@ == x {
                    let j = choose|j: int| 0 <= j < c0.len() && (#[trigger] c0[j])@ == x;
                    let k = choose|k: int| 0 <= k < kept@.len() && (#[trigger] kept@[k])@ == c0[j]@;
                }
            }
        }
        self.cancel = kept;
    }

    /// `complete`: job `id` succeeded with `result` (JSON text); its stop request is dropped.
    pub fn complete(&mut self, id: &str, result: String)
        ensures
            match old(self).job(id@) {
                Some(j) => final(self).job(id@) == Some(
                    JobModel {
                        status: JobStatus::Succeeded,
                        progress: 100,
                        result: Some(result@),
                        ..j
                    },
                ),
                None => final(self).job(id@) is None,
            },
            forall|x: Seq<char>| x != id@ ==> final(self).job(x) == old(self).job(x),
            !final(self).cancelled(id@),
            forall|x: Seq<char>| x != id@ ==> final(self).cancelled(x) == old(self).cancelled(x),
    {
        proof {
            use_type_invariant(&*self);
        }
        let i = self.find(id);
        if i < self.jobs.len() {
            proof {
                lemma_first_index(self.jobs@, id@);
            }
            let mut job = self.jobs[i].duplicate();
            job.status = JobStatus::Succeeded;
            job.progress = 100;
            job.result = Some(result);
            self.replace_at(i, job);
        }
        self.uncancel(id);
    }

    /// `fail`: job `id` failed with `error`; its stop request is dropped.
    pub fn fail(&mut self, id: &str, error: String)
        ensures
            match old(self).job(id@) {
                Some(j) => final(self).job(id@) == Some(
                    JobModel { status: JobStatus::Failed, error: Some(error@), ..j },
                ),
                None => final(self).job(id@) is None,
            },
            forall|x: Seq<char>| x != id@ ==> final(self).job(x) == old(self).job(x),
            !final(self).cancelled(id@),
            forall|x: Seq<char>| x != id@ ==> final(self).cancelled(x) == old(self).cancelled(x),
    {
        proof {
            use_type_invariant(&*self);
        }
        let i = self.find(id);
        if i < self.jobs.len() {
            proof {
                lemma_first_index(self.jobs@, id@);
            }
            let mut job = self.jobs[i].duplicate();
            job.status = JobStatus::Failed;
            job.error = Some(error);
            self.replace_at(i, job);
        }
        self.uncancel(id);
    }

    /// `mark_cancelled`: records a request to stop job `id`.
    pub fn mark_cancelled(&mut self, id: &str)
        ensures
            final(self).cancelled(id@),
            forall|x: Seq<char>| x != id@ ==> final(self).cancelled(x) == old(self).cancelled(x),
            forall|x: Seq<char>| final(self).job(x) == old(self).job(x),
    {
        proof {
            use_type_invariant(&*self);
        }
        let ghost c0 = self.cancel@;
        let mut stops: Vec<String> = Vec::new();
        std::mem::swap(&mut stops, &mut self.cancel);
        stops.push(String::from_str(id));
        self.cancel = stops;
        proof {
            let c1 = self.cancel@;
            assert(c1[c0.len() as int]@ == id@);
            assert forall|x: Seq<char>| x != id@ implies #[trigger] texts_contain(c1, x)
                == texts_contain(c0, x) by {
                if exists|k: int| 0 <= k < c1.len() && (#[trigger] c1[k])@ == x {
                    let k = choose|k: int| 0 <= k < c1.len() && (#[trigger] c1[k])@ == x;
                    assert(k < c0.len());
                    assert(c0[k] == c1[k]);
                }
                if exists|k: int| 0 <= k < c0.len() && (#[trigger] c0[k])@ == x {
                    let k = choose|k: int| 0 <= k < c0.len() && (#[trigger] c0[k])@ == x;
                    assert(c1[k] == c0[k]);
                }
            }
        }
    }

    /// `is_cancelled`: whether a stop of job `id` has been requested.
    pub fn is_cancelled(&self, id: &str) -> (r: bool)
        ensures
            r == self.cancelled(id@),
    {
        proof {
            use_type_invariant(&*self);
        }
        let key = String::from_str(id);
        let mut i: usize = 0;
        while i < self.cancel.len()
            invariant
                i <= self.cancel@.len(),
                key@ == id@,
                forall|k: int| 0 <= k < i ==> (#[trigger] self.cancel@[k])@ != id@,
            decreases self.cancel.len() - i,
        {
            if self.cancel[i] == key {
                return true;
            }
            i = i + 1;
        }
        false
    }

    /// `get`: a copy of job `id`.
    pub fn get(&self, id: &str) -> (r: Option<JobInfo>)
        ensures
            r matches Some(j) ==> j.progress <= 100,
            match r {
                Some(j) => self.job(id@) == Some(j@),
                None => self.job(id@) is None,
            },
    {
        proof {
            use_type_invariant(&*self);
        }
        let i = self.find(id);
        if i < self.jobs.len() {
            Some(self.jobs[i].duplicate())
        } else {
            None
        }
    }

    /// `create`: records a new queued job under a fresh random id, and gives the id.
    pub fn create(&mut self) -> (r: String)
        ensures
            is_uuid_text(r@),
            final(self).job(r@) == Some(
                JobModel {
                    job_id: r@,
                    status: JobStatus::Queued,
                    progress: 0,
                    message: None,
                    result: None,
                    error: None,
                },
            ),
            forall|x: Seq<char>| x != r@ ==> final(self).job(x) == old(self).job(x),
            forall|x: Seq<char>| final(self).cancelled(x) == old(self).cancelled(x),
    {
        proof {
            use_type_invariant(&*self);
        }
        let id = new_job_id();
        self.insert_queued(id.clone());
        id
    }
}

/// The text of a UUID as `Uuid::to_string` writes it: 36 characters, lowercase hexadecimal
/// digits in groups of 8, 4, 4, 4 and 12, joined with `-`.
pub open spec fn is_uuid_text(s: Seq<char>) -> bool {
    &&& s.len() == 36
    &&& forall|i: int|
        0 <= i < 36 ==> if i == 8 || i == 13 || i == 18 || i == 23 {
            #[trigger] s[i] == '-'
        } else {
            ('0' <= s[i] && s[i] <= '9') || ('a' <= s[i] && s[i] <= 'f')
        }
}

/// `uuid::Uuid::new_v4().to_string()`: a random version-4 UUID in its hyphenated lowercase
/// form. The contract states that form; which UUID comes out is left open.
#[verifier::external_body]
fn new_job_id() -> (r: String)
    ensures
        is_uuid_text(r@),
{
    uuid::Uuid::new_v4().to_string()
}

/// Every job's progress is a percentage, in every state that the table's operations reach.
pub proof fn law_progress_is_percentage(jobs: Jobs, id: Seq<char>)
    requires
        jobs.wf(),
    ensures
        jobs.job(id) matches Some(j) ==> j.progress <= 100,
{
    lemma_first_index(jobs.jobs@, id);
}

} // verus!
