//! The import-job queue: at most one tracked import per image id.
//!
//! A job is `Importing` from the moment its import is accepted until the
//! worker reports back. A successful import removes the job; a failed one
//! stays as `Failed(message)` so that listings show it and a new request may
//! retry it. A request for an id whose job is still `Importing` is refused.
use vstd::prelude::*;

verus! {

/// Where an import stands.
#[derive(Debug)]
pub enum ImportStatus {
    Importing,
    Failed(String),
}

impl ImportStatus {
    pub fn clone_status(&self) -> (r: ImportStatus)
        ensures
            r == *self,
    {
        match self {
            ImportStatus::Importing => ImportStatus::Importing,
            ImportStatus::Failed(m) => ImportStatus::Failed(m.clone()),
        }
    }
}

/// What an import request names: where the image comes from and enough of
/// its manifest to list it while it is imported.
#[derive(Debug)]
pub struct ImageImportParams {
    pub url: String,
    pub name: String,
    pub version: String,
    pub image_type: String,
    pub os: String,
}

impl ImageImportParams {
    pub fn clone_params(&self) -> (r: ImageImportParams)
        ensures
            r == *self,
    {
        ImageImportParams {
            url: self.url.clone(),
            name: self.name.clone(),
            version: self.version.clone(),
            image_type: self.image_type.clone(),
            os: self.os.clone(),
        }
    }
}

/// One tracked import.
#[derive(Debug)]
pub struct ImportJob {
    pub id: u128,
    pub params: ImageImportParams,
    pub status: ImportStatus,
}

impl ImportJob {
    pub fn clone_job(&self) -> (r: ImportJob)
        ensures
            r == *self,
    {
        ImportJob {
            id: self.id,
            params: self.params.clone_params(),
            status: self.status.clone_status(),
        }
    }
}

/// Jobs by image id.
pub type JobMap = Map<u128, ImportJob>;

/// A new import of `id` is accepted unless one is still running.
pub open spec fn begin_ok(m: JobMap, id: u128) -> bool {
    !(m.contains_key(id) && m[id].status is Importing)
}

/// The job that an accepted import request starts.
pub open spec fn started_job(id: u128, params: ImageImportParams) -> ImportJob {
    ImportJob { id, params, status: ImportStatus::Importing }
}

/// The queue after an import request for `id`.
pub open spec fn after_begin(m: JobMap, id: u128, params: ImageImportParams) -> JobMap {
    if begin_ok(m, id) {
        m.insert(id, started_job(id, params))
    } else {
        m
    }
}

/// The queue after the worker of `id` reports a failure.
pub open spec fn after_failure(m: JobMap, id: u128, message: String) -> JobMap {
    if m.contains_key(id) {
        m.insert(
            id,
            ImportJob { id: m[id].id, params: m[id].params, status: ImportStatus::Failed(message) },
        )
    } else {
        m
    }
}

/// The queue after a listing that shows the images `listed`: their jobs are
/// done.
pub open spec fn reconciled(m: JobMap, listed: Seq<u128>) -> JobMap {
    m.restrict(m.dom().filter(|id: u128| !listed.contains(id)))
}

/// `rows` holds each job of `m` exactly once.
pub open spec fn rows_of(rows: Seq<ImportJob>, m: JobMap) -> bool {
    &&& rows.len() == m.dom().len()
    &&& forall|i: int| 0 <= i < rows.len() ==> #[trigger] m.contains_key(rows[i].id) && m[rows[i].id] == rows[i]
    &&& forall|i: int, j: int| 0 <= i < j < rows.len() ==> rows[i].id != rows[j].id
    &&& forall|id: u128| #[trigger] m.contains_key(id) ==> exists|i: int| 0 <= i < rows.len() && rows[i].id == id
}

/// The outcome of each of a run of import requests for one id, with nothing
/// else done to the queue in between.
pub open spec fn begin_results(m: JobMap, id: u128, requests: Seq<ImageImportParams>) -> Seq<bool>
    decreases requests.len(),
{
    if requests.len() == 0 {
        Seq::empty()
    } else {
        seq![begin_ok(m, id)] + begin_results(
            after_begin(m, id, requests[0]),
            id,
            requests.drop_first(),
        )
    }
}

/// How many of `results` are successes.
pub open spec fn count_ok(results: Seq<bool>) -> nat
    decreases results.len(),
{
    if results.len() == 0 {
        0
    } else {
        (if results[0] {
            1nat
        } else {
            0nat
        }) + count_ok(results.drop_first())
    }
}

/// Import requests, in the order in which the queue's lock admits them.
pub struct ImportQueue {
    jobs: Vec<ImportJob>,
    contents: Ghost<JobMap>,
}

impl ImportQueue {
    pub closed spec fn view(&self) -> JobMap {
        self.contents@
    }

    /// Ids are unique and the vector holds exactly the jobs of the view.
    pub closed spec fn well_formed(&self) -> bool {
        &&& forall|i: int, j: int|
            0 <= i < j < self.jobs@.len() ==> self.jobs@[i].id != self.jobs@[j].id
        &&& forall|i: int|
            0 <= i < self.jobs@.len() ==> #[trigger] self.contents@.contains_key(self.jobs@[i].id)
                && self.contents@[self.jobs@[i].id] == self.jobs@[i]
        &&& forall|id: u128|
            #[trigger] self.contents@.contains_key(id) ==> exists|i: int|
                0 <= i < self.jobs@.len() && self.jobs@[i].id == id
    }

    pub fn new() -> (r: ImportQueue)
        ensures
            r.well_formed(),
            r@ == JobMap::empty(),
    {
        ImportQueue { jobs: Vec::new(), contents: Ghost(Map::empty()) }
    }

    pub fn is_empty(&self) -> (r: bool)
        requires
            self.well_formed(),
        ensures
            r == (self@.dom() == Set::<u128>::empty()),
    {
        if self.jobs.len() == 0 {
            assert(self@.dom() =~= Set::<u128>::empty());
            true
        } else {
            assert(self@.dom().contains(self.jobs@[0].id));
            false
        }
    }

    fn find(&self, id: u128) -> (r: Option<usize>)
        requires
            self.well_formed(),
        ensures
            match r {
                Some(i) => i < self.jobs@.len() && self.jobs@[i as int].id == id,
                None => !self@.contains_key(id),
            },
    {
        let mut i: usize = 0;
        while i < self.jobs.len()
            invariant
                self.well_formed(),
                i <= self.jobs@.len(),
                forall|j: int| 0 <= j < i ==> self.jobs@[j].id != id,
            decreases self.jobs@.len() - i,
        {
            if self.jobs[i].id == id {
                return Some(i);
            }
            i = i + 1;
        }
        None
    }

    /// The status of the job for `id`, if there is one.
    pub fn status(&self, id: u128) -> (r: Option<ImportStatus>)
        requires
            self.well_formed(),
        ensures
            r == (if self@.contains_key(id) {
                Some(self@[id].status)
            } else {
                None
            }),
    {
        match self.find(id) {
            Some(i) => Some(self.jobs[i].status.clone_status()),
            None => None,
        }
    }

    /// Puts `job` in place of the job at index `i`, which has the same id.
    fn replace_at(&mut self, i: usize, job: ImportJob) -> (prev: ImportJob)
        requires
            old(self).well_formed(),
            i < old(self).jobs@.len(),
            old(self).jobs@[i as int].id == job.id,
        ensures
            final(self).well_formed(),
            final(self)@ == old(self)@.insert(job.id, job),
            prev == old(self)@[job.id],
    {
        let ghost old_jobs = self.jobs@;
        let ghost jv = job;
        proof {
            assert(self.contents@.contains_key(old_jobs[i as int].id));
        }
        let prev = self.jobs.remove(i);
        self.jobs.insert(i, job);
        proof {
            assert(self.jobs@ =~= old_jobs.update(i as int, jv));
            self.contents@ = self.contents@.insert(jv.id, jv);
            assert forall|id: u128| #[trigger]
                self.contents@.contains_key(id) implies exists|j: int|
                0 <= j < self.jobs@.len() && self.jobs@[j].id == id by {
                if id != jv.id {
                    let j = choose|j: int| 0 <= j < old_jobs.len() && old_jobs[j].id == id;
                    assert(self.jobs@[j].id == id);
                } else {
                    assert(self.jobs@[i as int].id == id);
                }
            }
        }
        prev
    }

    /// Accepts an import of `id` unless one is still running, checking and
    /// inserting in one step. `Ok` carries the failure message of the job
    /// that this request retries, if any.
    pub fn try_begin(&mut self, id: u128, params: ImageImportParams) -> (r: Result<
        Option<String>,
        crate::runner::GatewayError,
    >)
        requires
            old(self).well_formed(),
        ensures
            final(self).well_formed(),
            final(self)@ == after_begin(old(self)@, id, params),
            r is Ok == begin_ok(old(self)@, id),
            r is Err ==> r == Err::<Option<String>, _>(crate::runner::GatewayError::Conflict(id)),
            r matches Ok(Some(m)) ==> old(self)@.contains_key(id) && old(self)@[id].status
                == ImportStatus::Failed(m),
            r matches Ok(None) ==> !old(self)@.contains_key(id),
    {
        let job = ImportJob { id, params, status: ImportStatus::Importing };
        match self.find(id) {
            Some(i) => {
                match &self.jobs[i].status {
                    ImportStatus::Importing => Err(crate::runner::GatewayError::Conflict(id)),
                    ImportStatus::Failed(_) => {
                        let prev = self.replace_at(i, job);
                        match prev.status {
                            ImportStatus::Failed(m) => Ok(Some(m)),
                            ImportStatus::Importing => Ok(None),
                        }
                    },
                }
            },
            None => {
                let ghost old_jobs = self.jobs@;
                let ghost jv = job;
                self.jobs.push(job);
                proof {
                    self.contents@ = self.contents@.insert(id, jv);
                    assert forall|k: u128| #[trigger]
                        self.contents@.contains_key(k) implies exists|j: int|
                        0 <= j < self.jobs@.len() && self.jobs@[j].id == k by {
                        if k != id {
                            let j = choose|j: int| 0 <= j < old_jobs.len() && old_jobs[j].id == k;
                            assert(self.jobs@[j].id == k);
                        } else {
                            assert(self.jobs@[old_jobs.len() as int].id == k);
                        }
                    }
                }
                Ok(None)
            },
        }
    }

    /// Records that the import of `id` failed with `message`; returns
    /// whether there was a job to record it on.
    pub fn mark_failed(&mut self, id: u128, message: String) -> (r: bool)
        requires
            old(self).well_formed(),
        ensures
            final(self).well_formed(),
            final(self)@ == after_failure(old(self)@, id, message),
            r == old(self)@.contains_key(id),
    {
        match self.find(id) {
            Some(i) => {
                let params = self.jobs[i].params.clone_params();
                let job = ImportJob { id, params, status: ImportStatus::Failed(message) };
                self.replace_at(i, job);
                true
            },
            None => false,
        }
    }

    /// Drops the job of `id` once its import has succeeded.
    pub fn complete(&mut self, id: u128) -> (r: Option<ImportJob>)
        requires
            old(self).well_formed(),
        ensures
            final(self).well_formed(),
            final(self)@ == old(self)@.remove(id),
            r == (if old(self)@.contains_key(id) {
                Some(old(self)@[id])
            } else {
                None
            }),
    {
        match self.find(id) {
            Some(i) => {
                let ghost old_jobs = self.jobs@;
                let ghost old_map = self.contents@;
                let job = self.jobs.remove(i);
                proof {
                    self.contents@ = self.contents@.remove(id);
                    assert forall|j: int| 0 <= j < self.jobs@.len() implies
                        #[trigger] self.contents@.contains_key(self.jobs@[j].id)
                        && self.contents@[self.jobs@[j].id] == self.jobs@[j] by {
                        if j < i {
                            assert(self.jobs@[j] == old_jobs[j]);
                            assert(old_map.contains_key(old_jobs[j].id));
                            assert(old_jobs[j].id != old_jobs[i as int].id);
                        } else {
                            assert(self.jobs@[j] == old_jobs[j + 1]);
                            assert(old_map.contains_key(old_jobs[j + 1].id));
                            assert(old_jobs[j + 1].id != old_jobs[i as int].id);
                        }
                    }
                    assert forall|k: u128| #[trigger]
                        self.contents@.contains_key(k) implies exists|j: int|
                        0 <= j < self.jobs@.len() && self.jobs@[j].id == k by {
                        let j = choose|j: int| 0 <= j < old_jobs.len() && old_jobs[j].id == k;
                        if j < i {
                            assert(self.jobs@[j].id == k);
                        } else {
                            assert(j != i);
                            assert(self.jobs@[j - 1].id == k);
                        }
                    }
                }
                Some(job)
            },
            None => {
                assert(self.contents@.remove(id) =~= self.contents@);
                None
            },
        }
    }

    /// Folds a listing that shows the images `listed` into the queue: jobs
    /// whose image is listed are done and dropped, and the others are
    /// returned, in the order in which they were accepted, so that the
    /// listing can show them.
    pub fn reconcile(&mut self, listed: &Vec<u128>) -> (rows: Vec<ImportJob>)
        requires
            old(self).well_formed(),
        ensures
            final(self).well_formed(),
            final(self)@ == reconciled(old(self)@, listed@),
            rows_of(rows@, final(self)@),
    {
        let ghost old_jobs = self.jobs@;
        let ghost old_map = self.contents@;
        let mut kept: Vec<ImportJob> = Vec::new();
        let mut rows: Vec<ImportJob> = Vec::new();
        let mut idx: Ghost<Seq<int>> = Ghost(Seq::empty());
        let mut i: usize = 0;
        let n = self.jobs.len();
        while i < n
            invariant
                self.well_formed(),
                self.jobs@ == old_jobs,
                self.contents@ == old_map,
                n == old_jobs.len(),
                i <= n,
                kept@.len() == idx@.len(),
                rows@ == kept@,
                forall|a: int| 0 <= a < idx@.len() ==> 0 <= #[trigger] idx@[a] < i,
                forall|a: int, b: int| 0 <= a < b < idx@.len() ==> idx@[a] < idx@[b],
                forall|a: int|
                    0 <= a < kept@.len() ==> kept@[a] == old_jobs[#[trigger] idx@[a]]
                        && !listed@.contains(kept@[a].id),
                forall|j: int|
                    0 <= j < i && !listed@.contains(#[trigger] old_jobs[j].id) ==> exists|a: int|
                        0 <= a < idx@.len() && idx@[a] == j,
            decreases n - i,
        {
            let id = self.jobs[i].id;
            let mut listed_here = false;
            let mut k: usize = 0;
            while k < listed.len()
                invariant
                    k <= listed@.len(),
                    listed_here == (exists|l: int| 0 <= l < k && listed@[l] == id),
                decreases listed@.len() - k,
            {
                if listed[k] == id {
                    listed_here = true;
                }
                k = k + 1;
            }
            proof {
                if listed@.contains(id) {
                    let l = choose|l: int| 0 <= l < listed@.len() && listed@[l] == id;
                    assert(listed_here);
                }
            }
            let ghost idx_before = idx@;
            if !listed_here {
                let job = self.jobs[i].clone_job();
                let row = self.jobs[i].clone_job();
                kept.push(job);
                rows.push(row);
                proof {
                    idx@ = idx@.push(i as int);
                }
            }
            proof {
                assert forall|j: int|
                    0 <= j < i + 1 && !listed@.contains(#[trigger] old_jobs[j].id) implies exists|a: int|
                        0 <= a < idx@.len() && idx@[a] == j by {
                    if j == i {
                        assert(idx@[idx@.len() - 1] == j);
                    } else {
                        let a = choose|a: int| 0 <= a < idx_before.len() && idx_before[a] == j;
                        assert(idx@[a] == j);
                    }
                }
            }
            i = i + 1;
        }
        let ghost new_map = reconciled(old_map, listed@);
        self.jobs = kept;
        proof {
            self.contents@ = new_map;
            assert forall|a: int, b: int|
                0 <= a < b < self.jobs@.len() implies self.jobs@[a].id != self.jobs@[b].id by {
                assert(idx@[a] < idx@[b]);
            }
            assert forall|a: int| 0 <= a < self.jobs@.len() implies
                #[trigger] self.contents@.contains_key(self.jobs@[a].id)
                && self.contents@[self.jobs@[a].id] == self.jobs@[a] by {
                let j = idx@[a];
                assert(old_map.contains_key(old_jobs[j].id));
            }
            assert forall|id: u128| #[trigger]
                self.contents@.contains_key(id) implies exists|a: int|
                0 <= a < self.jobs@.len() && self.jobs@[a].id == id by {
                let j = choose|j: int| 0 <= j < old_jobs.len() && old_jobs[j].id == id;
                assert(!listed@.contains(old_jobs[j].id));
                let a = choose|a: int| 0 <= a < idx@.len() && idx@[a] == j;
                assert(self.jobs@[a].id == id);
            }
            let ids = rows@.map_values(|j: ImportJob| j.id);
            assert(ids.no_duplicates()) by {
                assert forall|a: int, b: int| 0 <= a < ids.len() && 0 <= b < ids.len() && a != b implies ids[a] != ids[b] by {
                    if a < b {
                        assert(idx@[a] < idx@[b]);
                    } else {
                        assert(idx@[b] < idx@[a]);
                    }
                }
            }
            assert(ids.to_set() =~= self.contents@.dom()) by {
                assert forall|id: u128| ids.to_set().contains(id) implies self.contents@.dom().contains(id) by {
                    let a = choose|a: int| 0 <= a < ids.len() && ids[a] == id;
                    assert(self.contents@.contains_key(self.jobs@[a].id));
                }
                assert forall|id: u128| self.contents@.dom().contains(id) implies ids.to_set().contains(id) by {
                    let a = choose|a: int| 0 <= a < self.jobs@.len() && self.jobs@[a].id == id;
                    assert(ids[a] == id);
                }
            }
            ids.unique_seq_to_set();
        }
        rows
    }
}

/// Of a run of import requests for one id, with no completion or failure
/// reported in between, the first succeeds exactly when no import of that id
/// is running, and every later one is refused: at most one import per id
/// runs at a time.
pub proof fn lemma_at_most_one_import(m: JobMap, id: u128, requests: Seq<ImageImportParams>)
    requires
        requests.len() > 0,
    ensures
        begin_results(m, id, requests).len() == requests.len(),
        begin_results(m, id, requests)[0] == begin_ok(m, id),
        forall|i: int| 1 <= i < requests.len() ==> !#[trigger] begin_results(m, id, requests)[i],
        count_ok(begin_results(m, id, requests)) == (if begin_ok(m, id) {
            1nat
        } else {
            0nat
        }),
    decreases requests.len(),
{
    let next = after_begin(m, id, requests[0]);
    assert(!begin_ok(next, id));
    lemma_all_refused(next, id, requests.drop_first());
    let rest = begin_results(next, id, requests.drop_first());
    let all = begin_results(m, id, requests);
    assert(all =~= seq![begin_ok(m, id)] + rest);
    assert(all.drop_first() =~= rest);
    assert forall|i: int| 1 <= i < requests.len() implies !#[trigger] all[i] by {
        assert(all[i] == rest[i - 1]);
    }
}

proof fn lemma_all_refused(m: JobMap, id: u128, requests: Seq<ImageImportParams>)
    requires
        !begin_ok(m, id),
    ensures
        begin_results(m, id, requests).len() == requests.len(),
        forall|i: int| 0 <= i < requests.len() ==> !#[trigger] begin_results(m, id, requests)[i],
        count_ok(begin_results(m, id, requests)) == 0,
    decreases requests.len(),
{
    if requests.len() > 0 {
        let next = after_begin(m, id, requests[0]);
        assert(next == m);
        lemma_all_refused(next, id, requests.drop_first());
        let rest = begin_results(next, id, requests.drop_first());
        let all = begin_results(m, id, requests);
        assert(all =~= seq![false] + rest);
        assert(all.drop_first() =~= rest);
        assert forall|i: int| 0 <= i < requests.len() implies !#[trigger] all[i] by {
            if i > 0 {
                assert(all[i] == rest[i - 1]);
            }
        }
    }
}

/// After an import of `id` has failed, a new request for `id` is accepted
/// and the job is importing again.
pub proof fn lemma_retry_after_failure(
    m: JobMap,
    id: u128,
    message: String,
    params: ImageImportParams,
)
    requires
        m.contains_key(id),
    ensures
        begin_ok(after_failure(m, id, message), id),
        after_begin(after_failure(m, id, message), id, params)[id].status is Importing,
{
}

/// A job whose image already shows in the listing is dropped by the read,
/// and the rows the read adds for pending jobs do not show it a second time.
pub proof fn lemma_reconciliation(m: JobMap, listed: Seq<u128>, rows: Seq<ImportJob>, id: u128)
    requires
        listed.contains(id),
        rows_of(rows, reconciled(m, listed)),
    ensures
        !reconciled(m, listed).contains_key(id),
        forall|i: int| 0 <= i < rows.len() ==> rows[i].id != id,
{
    assert forall|i: int| 0 <= i < rows.len() implies rows[i].id != id by {
        assert(reconciled(m, listed).contains_key(rows[i].id));
    }
}

} // verus!
