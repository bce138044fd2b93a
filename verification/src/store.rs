//! What the job queries send to the database and how their answers are
//! read back.

use vstd::prelude::*;
use vstd::string::*;

use crate::job::{
    ProjectView, git, job_result_view, row_readable, row_to_job, spec_row_to_job, state_name, Error, Job,
    JobRowView, JobRow, JobState, JobView,
};

verus! {

/// The arguments of `insert_job_v1`, which stores a new job.
#[derive(Clone, Debug)]
pub struct NewJob {
    pub owner_id: i64,
    pub project_id: i64,
    pub project_name: String,
    pub project_owner_id: i64,
    pub project_plan_path: String,
    pub vcs: String,
    pub vcs_arguments: Vec<String>,
}

pub struct NewJobView {
    pub owner_id: i64,
    pub project_id: i64,
    pub project_name: Seq<char>,
    pub project_owner_id: i64,
    pub project_plan_path: Seq<char>,
    pub vcs: Seq<char>,
    pub vcs_arguments: Seq<Seq<char>>,
}

impl View for NewJob {
    type V = NewJobView;

    open spec fn view(&self) -> NewJobView {
        NewJobView {
            owner_id: self.owner_id,
            project_id: self.project_id,
            project_name: self.project_name@,
            project_owner_id: self.project_owner_id,
            project_plan_path: self.project_plan_path@,
            vcs: self.vcs@,
            vcs_arguments: self.vcs_arguments@.map_values(|a: String| a@),
        }
    }
}

/// The insert arguments for a job: its owner and its project, whose
/// version control data is the single version control argument.
pub open spec fn spec_new_job(job: JobView) -> NewJobView {
    NewJobView {
        owner_id: job.owner_id as i64,
        project_id: job.project.id as i64,
        project_name: job.project.name,
        project_owner_id: job.project.owner_id as i64,
        project_plan_path: job.project.plan_path,
        vcs: job.project.vcs_type,
        vcs_arguments: seq![job.project.vcs_data],
    }
}

/// The row `insert_job_v1` stores and returns for the given arguments,
/// under the id the database draws: the job starts out pending and
/// without a log URL.
pub open spec fn inserted_row(new_job: NewJobView, id: i64) -> JobRowView {
    JobRowView {
        id,
        owner_id: new_job.owner_id,
        job_state: state_name(JobState::Pending),
        project_id: new_job.project_id,
        project_name: new_job.project_name,
        project_owner_id: new_job.project_owner_id,
        project_plan_path: new_job.project_plan_path,
        vcs: new_job.vcs,
        vcs_arguments: new_job.vcs_arguments,
        log_url: None,
    }
}

/// The arguments with which a job is created; only git projects can be.
pub fn create_job_params(job: &Job) -> (res: Result<NewJob, Error>)
    ensures
        job.project.vcs_type@ == git() ==> (res matches Ok(p) && p@ == spec_new_job(job@)),
        job.project.vcs_type@ != git() ==> res == Err::<NewJob, Error>(Error::UnknownVCS),
{
    if job.project.vcs_type == String::from_str("git") {
        let mut vcs_arguments: Vec<String> = Vec::new();
        vcs_arguments.push(job.project.vcs_data.clone());
        let p = NewJob {
            owner_id: job.owner_id as i64,
            project_id: job.project.id as i64,
            project_name: job.project.name.clone(),
            project_owner_id: job.project.owner_id as i64,
            project_plan_path: job.project.plan_path.clone(),
            vcs: job.project.vcs_type.clone(),
            vcs_arguments,
        };
        assert(p@.vcs_arguments =~= seq![job.project.vcs_data@]);
        Ok(p)
    } else {
        Err(Error::UnknownVCS)
    }
}

/// The database's signed form of a job id.
pub fn job_id_param(id: u64) -> (r: i64)
    ensures
        r == id as i64,
        r as u64 == id,
{
    assert((id as i64) as u64 == id) by (bit_vector);
    id as i64
}

/// The arguments of `set_job_state_v1`: the job's id and its state's name.
pub fn set_job_state_params(job: &Job) -> (r: (i64, &'static str))
    ensures
        r.0 == job.id as i64,
        r.1@ == state_name(job.state),
{
    (job_id_param(job.id), job.state.name())
}

/// The answer to a lookup by id: the job of the first row, or `None`
/// where no row came back.
pub fn job_from_rows(rows: &Vec<JobRow>) -> (res: Result<Option<Job>, Error>)
    requires
        rows.len() > 0 ==> row_readable(rows[0]@),
    ensures
        rows.len() == 0 ==> (res matches Ok(None)),
        rows.len() > 0 ==> match spec_row_to_job(rows[0]@) {
            Ok(j) => (res matches Ok(Some(job)) && job@ == j),
            Err(e) => res == Err::<Option<Job>, Error>(e),
        },
{
    if rows.len() == 0 {
        return Ok(None);
    }
    match row_to_job(&rows[0]) {
        Ok(job) => Ok(Some(job)),
        Err(e) => Err(e),
    }
}

/// The jobs of the rows in order, or the error of the first row that
/// cannot be read.
pub open spec fn spec_rows_to_jobs(rows: Seq<JobRowView>) -> Result<Seq<JobView>, Error>
    decreases rows.len(),
{
    if rows.len() == 0 {
        Ok(Seq::empty())
    } else {
        match spec_rows_to_jobs(rows.drop_last()) {
            Err(e) => Err(e),
            Ok(jobs) => match spec_row_to_job(rows.last()) {
                Err(e) => Err(e),
                Ok(j) => Ok(jobs.push(j)),
            },
        }
    }
}

/// Where every row reads as a job, the rows read as exactly one job per
/// row, in row order; where one does not, the result is the error of the
/// first row that does not, every row before it reading as a job.
pub proof fn lemma_rows_to_jobs(rows: Seq<JobRowView>)
    ensures
        (forall|i: int| 0 <= i < rows.len() ==> spec_row_to_job(#[trigger] rows[i]) is Ok) ==> {
            &&& spec_rows_to_jobs(rows) is Ok
            &&& spec_rows_to_jobs(rows)->Ok_0.len() == rows.len()
            &&& forall|i: int|
                0 <= i < rows.len() ==> #[trigger] spec_rows_to_jobs(rows)->Ok_0[i]
                    == spec_row_to_job(rows[i])->Ok_0
        },
        spec_rows_to_jobs(rows) is Ok ==> forall|i: int|
            0 <= i < rows.len() ==> spec_row_to_job(#[trigger] rows[i]) is Ok,
        spec_rows_to_jobs(rows) is Err ==> exists|k: int|
            0 <= k < rows.len() && (forall|j: int| 0 <= j < k ==> spec_row_to_job(#[trigger] rows[j]) is Ok)
                && spec_row_to_job(#[trigger] rows[k]) == Err::<JobView, Error>(
                spec_rows_to_jobs(rows)->Err_0,
            ),
    decreases rows.len(),
{
    if rows.len() > 0 {
        let init = rows.drop_last();
        lemma_rows_to_jobs(init);
        let n = rows.len() - 1;
        assert forall|i: int| 0 <= i < init.len() implies init[i] == rows[i] by {}
        if forall|i: int| 0 <= i < rows.len() ==> spec_row_to_job(#[trigger] rows[i]) is Ok {
            assert(forall|i: int| 0 <= i < init.len() ==> spec_row_to_job(#[trigger] init[i]) is Ok) by {
                assert forall|i: int| 0 <= i < init.len() implies spec_row_to_job(#[trigger] init[i]) is Ok by {
                    assert(init[i] == rows[i]);
                }
            }
            assert(spec_row_to_job(rows[n]) is Ok);
            assert(rows.last() == rows[n]);
            let js = spec_rows_to_jobs(init)->Ok_0;
            assert(spec_rows_to_jobs(rows)->Ok_0 == js.push(spec_row_to_job(rows[n])->Ok_0));
            assert forall|i: int| 0 <= i < rows.len() implies #[trigger] spec_rows_to_jobs(rows)->Ok_0[i]
                == spec_row_to_job(rows[i])->Ok_0 by {
                if i < n {
                    assert(init[i] == rows[i]);
                }
            }
        }
        if spec_rows_to_jobs(rows) is Ok {
            assert forall|i: int| 0 <= i < rows.len() implies spec_row_to_job(#[trigger] rows[i]) is Ok by {
                if i < n {
                    assert(init[i] == rows[i]);
                } else {
                    assert(rows.last() == rows[i]);
                }
            }
        }
        if spec_rows_to_jobs(rows) is Err {
            let e = spec_rows_to_jobs(rows)->Err_0;
            if spec_rows_to_jobs(init) is Err {
                let k = choose|k: int|
                    0 <= k < init.len() && (forall|j: int| 0 <= j < k ==> spec_row_to_job(#[trigger] init[j]) is Ok)
                        && spec_row_to_job(#[trigger] init[k]) == Err::<JobView, Error>(
                        spec_rows_to_jobs(init)->Err_0,
                    );
                assert(init[k] == rows[k]);
                assert forall|j: int| 0 <= j < k implies spec_row_to_job(#[trigger] rows[j]) is Ok by {
                    assert(init[j] == rows[j]);
                }
            } else {
                assert(rows.last() == rows[n]);
                assert forall|j: int| 0 <= j < n implies spec_row_to_job(#[trigger] rows[j]) is Ok by {
                    assert(init[j] == rows[j]);
                }
                assert(spec_row_to_job(rows[n]) == Err::<JobView, Error>(e));
            }
        }
    }
}

/// Every row that is reached, because all rows before it were read, can
/// be read without failing.
pub open spec fn rows_readable(rows: Seq<JobRowView>) -> bool {
    forall|i: int|
        0 <= i < rows.len() && (forall|k: int| 0 <= k < i ==> spec_row_to_job(#[trigger] rows[k]) is Ok)
            ==> row_readable(#[trigger] rows[i])
}

pub open spec fn rows_view(rows: Seq<JobRow>) -> Seq<JobRowView> {
    rows.map_values(|r: JobRow| r@)
}

pub open spec fn jobs_view(jobs: Seq<Job>) -> Seq<JobView> {
    jobs.map_values(|j: Job| j@)
}

proof fn lemma_rows_ok_prefix(rows: Seq<JobRowView>, i: int)
    requires
        0 <= i <= rows.len(),
        spec_rows_to_jobs(rows.take(i)) is Ok,
    ensures
        forall|k: int| 0 <= k < i ==> spec_row_to_job(#[trigger] rows[k]) is Ok,
    decreases i,
{
    if i > 0 {
        assert(rows.take(i).drop_last() =~= rows.take(i - 1));
        lemma_rows_ok_prefix(rows, i - 1);
        assert(rows.take(i).last() == rows[i - 1]);
    }
}

/// Whether the rows can be read in order without failing: whether
/// `jobs_from_rows` can be called on them.
pub fn rows_ready(rows: &Vec<JobRow>) -> (r: bool)
    ensures
        r == rows_readable(rows_view(rows@)),
{
    let ghost rv = rows_view(rows@);
    let mut i: usize = 0;
    while i < rows.len()
        invariant
            rv == rows_view(rows@),
            i <= rows.len(),
            forall|k: int| 0 <= k < i ==> spec_row_to_job(#[trigger] rv[k]) is Ok,
            forall|k: int| 0 <= k < i ==> row_readable(#[trigger] rv[k]),
        decreases rows.len() - i,
    {
        assert(rv[i as int] == rows@[i as int]@);
        if !rows[i].readable() {
            assert(!row_readable(rv[i as int]));
            return false;
        }
        if row_to_job(&rows[i]).is_err() {
            assert forall|j: int|
                0 <= j < rv.len() && (forall|k: int| 0 <= k < j ==> spec_row_to_job(#[trigger] rv[k]) is Ok)
                implies row_readable(#[trigger] rv[j]) by {
                if j > i {
                    assert(spec_row_to_job(rv[i as int]) is Ok);
                }
            }
            return true;
        }
        i = i + 1;
    }
    true
}

/// The pending jobs that came back, in the order the rows came in.
pub fn jobs_from_rows(rows: &Vec<JobRow>) -> (res: Result<Vec<Job>, Error>)
    requires
        rows_readable(rows_view(rows@)),
    ensures
        match spec_rows_to_jobs(rows_view(rows@)) {
            Ok(js) => (res matches Ok(jobs) && jobs_view(jobs@) == js),
            Err(e) => res == Err::<Vec<Job>, Error>(e),
        },
        (forall|i: int| 0 <= i < rows.len() ==> spec_row_to_job(#[trigger] rows@[i]@) is Ok) ==> {
            &&& res is Ok
            &&& res->Ok_0.len() == rows.len()
            &&& forall|i: int|
                0 <= i < rows.len() ==> #[trigger] res->Ok_0@[i]@ == spec_row_to_job(rows@[i]@)->Ok_0
        },
        res is Ok ==> forall|i: int| 0 <= i < rows.len() ==> spec_row_to_job(#[trigger] rows@[i]@) is Ok,
        res is Err ==> exists|k: int|
            0 <= k < rows.len() && (forall|j: int| 0 <= j < k ==> spec_row_to_job(#[trigger] rows@[j]@) is Ok)
                && spec_row_to_job(#[trigger] rows@[k]@) == Err::<JobView, Error>(res->Err_0),
{
    let res = read_rows_in_order(rows);
    proof { lemma_read_rows_result(rows@, res); }
    res
}

proof fn lemma_read_rows_result(rows: Seq<JobRow>, res: Result<Vec<Job>, Error>)
    requires
        match spec_rows_to_jobs(rows_view(rows)) {
            Ok(js) => (res matches Ok(jobs) && jobs_view(jobs@) == js),
            Err(e) => res == Err::<Vec<Job>, Error>(e),
        },
    ensures
        (forall|i: int| 0 <= i < rows.len() ==> spec_row_to_job(#[trigger] rows[i]@) is Ok) ==> {
            &&& res is Ok
            &&& res->Ok_0.len() == rows.len()
            &&& forall|i: int|
                0 <= i < rows.len() ==> #[trigger] res->Ok_0@[i]@ == spec_row_to_job(rows[i]@)->Ok_0
        },
        res is Ok ==> forall|i: int| 0 <= i < rows.len() ==> spec_row_to_job(#[trigger] rows[i]@) is Ok,
        res is Err ==> exists|k: int|
            0 <= k < rows.len() && (forall|j: int| 0 <= j < k ==> spec_row_to_job(#[trigger] rows[j]@) is Ok)
                && spec_row_to_job(#[trigger] rows[k]@) == Err::<JobView, Error>(res->Err_0),
{
    let rv = rows_view(rows);
    lemma_rows_to_jobs(rv);
    assert(rv.len() == rows.len());
    assert forall|i: int| 0 <= i < rows.len() implies #[trigger] rv[i] == rows[i]@ by {}
    if forall|i: int| 0 <= i < rows.len() ==> spec_row_to_job(#[trigger] rows[i]@) is Ok {
        assert forall|i: int| 0 <= i < rv.len() implies spec_row_to_job(#[trigger] rv[i]) is Ok by {
            assert(rv[i] == rows[i]@);
        }
        let jobs = res->Ok_0;
        let js = spec_rows_to_jobs(rv)->Ok_0;
        assert(jobs_view(jobs@) == js);
        assert forall|i: int| 0 <= i < rows.len() implies #[trigger] jobs@[i]@ == spec_row_to_job(rows[i]@)->Ok_0 by {
            assert(jobs_view(jobs@)[i] == jobs@[i]@);
            assert(js[i] == spec_row_to_job(rv[i])->Ok_0);
            assert(rv[i] == rows[i]@);
        }
    }
    if res is Ok {
        assert(spec_rows_to_jobs(rv) is Ok);
        assert forall|i: int| 0 <= i < rows.len() implies spec_row_to_job(#[trigger] rows[i]@) is Ok by {
            assert(rv[i] == rows[i]@);
        }
    }
    if res is Err {
        assert(spec_rows_to_jobs(rv) is Err);
        let k = choose|k: int|
            0 <= k < rv.len() && (forall|j: int| 0 <= j < k ==> spec_row_to_job(#[trigger] rv[j]) is Ok)
                && spec_row_to_job(#[trigger] rv[k]) == Err::<JobView, Error>(spec_rows_to_jobs(rv)->Err_0);
        assert(rv[k] == rows[k]@);
        assert forall|j: int| 0 <= j < k implies spec_row_to_job(#[trigger] rows[j]@) is Ok by {
            assert(rv[j] == rows[j]@);
        }
    }
}

fn read_rows_in_order(rows: &Vec<JobRow>) -> (res: Result<Vec<Job>, Error>)
    requires
        rows_readable(rows_view(rows@)),
    ensures
        match spec_rows_to_jobs(rows_view(rows@)) {
            Ok(js) => (res matches Ok(jobs) && jobs_view(jobs@) == js),
            Err(e) => res == Err::<Vec<Job>, Error>(e),
        },
{
    let ghost rv = rows_view(rows@);
    let mut jobs: Vec<Job> = Vec::new();
    let mut i: usize = 0;
    assert(rv.take(0) =~= Seq::<JobRowView>::empty());
    assert(jobs_view(jobs@) =~= Seq::<JobView>::empty());
    while i < rows.len()
        invariant
            rv == rows_view(rows@),
            rows_readable(rv),
            i <= rows.len(),
            spec_rows_to_jobs(rv.take(i as int)) == Ok::<Seq<JobView>, Error>(jobs_view(jobs@)),
        decreases rows.len() - i,
    {
        proof {
            lemma_rows_ok_prefix(rv, i as int);
            assert(rv[i as int] == rows@[i as int]@);
            assert(row_readable(rv[i as int]));
        }
        let r = row_to_job(&rows[i]);
        let ghost before = jobs_view(jobs@);
        proof {
            assert(rv.take(i + 1).drop_last() =~= rv.take(i as int));
            assert(rv.take(i + 1).last() == rv[i as int]);
        }
        match r {
            Ok(job) => {
                jobs.push(job);
                proof {
                    assert(jobs_view(jobs@) =~= before.push(job@));
                    assert(spec_rows_to_jobs(rv.take(i + 1)) == Ok::<Seq<JobView>, Error>(before.push(job@)));
                }
            },
            Err(e) => {
                proof { lemma_rows_err_extends(rv, (i + 1) as int, e); }
                return Err(e);
            },
        }
        i = i + 1;
    }
    assert(rv.take(i as int) =~= rv);
    Ok(jobs)
}

proof fn lemma_rows_err_extends(rows: Seq<JobRowView>, i: int, e: Error)
    requires
        0 <= i <= rows.len(),
        spec_rows_to_jobs(rows.take(i)) == Err::<Seq<JobView>, Error>(e),
    ensures
        spec_rows_to_jobs(rows) == Err::<Seq<JobView>, Error>(e),
    decreases rows.len() - i,
{
    if i < rows.len() {
        assert(rows.take(i + 1).drop_last() =~= rows.take(i));
        lemma_rows_err_extends(rows, i + 1, e);
    } else {
        assert(rows.take(i) =~= rows);
    }
}

/// A job created from a git project reads back, under the id the
/// database gives it, as a pending job of the same owner and project
/// without a log URL.
pub proof fn lemma_created_job_reads_back(job: JobView, id: i64)
    requires
        job.project.vcs_type == git(),
    ensures
        row_readable(inserted_row(spec_new_job(job), id)),
        spec_row_to_job(inserted_row(spec_new_job(job), id)) == Ok::<JobView, Error>(
            JobView {
                id: id as u64,
                owner_id: job.owner_id,
                state: JobState::Pending,
                project: job.project,
                log_url: None,
            },
        ),
{
    let a = job.owner_id;
    let b = job.project.id;
    let c = job.project.owner_id;
    assert((a as i64) as u64 == a) by (bit_vector);
    assert((b as i64) as u64 == b) by (bit_vector);
    assert((c as i64) as u64 == c) by (bit_vector);
    crate::job::lemma_state_name_round_trip(JobState::Pending, state_name(JobState::Pending));
}

/// A job as the database keeps it: its row, and whether the scheduler has
/// been told of its current state.
pub struct StoredJob {
    pub row: JobRowView,
    pub synced: bool,
}

/// The effect of `set_job_state_v1(jid, jstate)` on a stored job: the job
/// with that id takes the new state and awaits synchronisation again; any
/// other job is left alone.
pub open spec fn after_set_job_state(stored: StoredJob, jid: i64, jstate: Seq<char>) -> StoredJob {
    if stored.row.id == jid {
        StoredJob {
            row: JobRowView {
                id: stored.row.id,
                owner_id: stored.row.owner_id,
                job_state: jstate,
                project_id: stored.row.project_id,
                project_name: stored.row.project_name,
                project_owner_id: stored.row.project_owner_id,
                project_plan_path: stored.row.project_plan_path,
                vcs: stored.row.vcs,
                vcs_arguments: stored.row.vcs_arguments,
                log_url: stored.row.log_url,
            },
            synced: false,
        }
    } else {
        stored
    }
}

/// The effect of `set_log_url_v1(p_job_id, p_url)` on a stored job: the
/// job with that id records the URL; any other job is left alone.
pub open spec fn after_set_log_url(stored: StoredJob, p_job_id: i64, p_url: Seq<char>) -> StoredJob {
    if stored.row.id == p_job_id {
        StoredJob {
            row: JobRowView {
                id: stored.row.id,
                owner_id: stored.row.owner_id,
                job_state: stored.row.job_state,
                project_id: stored.row.project_id,
                project_name: stored.row.project_name,
                project_owner_id: stored.row.project_owner_id,
                project_plan_path: stored.row.project_plan_path,
                vcs: stored.row.vcs,
                vcs_arguments: stored.row.vcs_arguments,
                log_url: Some(p_url),
            },
            synced: stored.synced,
        }
    } else {
        stored
    }
}

/// Whether `sync_jobs_v1` returns the stored job: it has not been synced.
pub open spec fn awaits_sync(stored: StoredJob) -> bool {
    !stored.synced
}

/// The effect of `set_jobs_sync_v1(in_job_id)` on a stored job.
pub open spec fn after_mark_synced(stored: StoredJob, in_job_id: i64) -> StoredJob {
    if stored.row.id == in_job_id {
        StoredJob { row: stored.row, synced: true }
    } else {
        stored
    }
}

/// The job a readable row reads as, with another state.
pub open spec fn with_state(j: JobView, state: JobState) -> JobView {
    JobView { id: j.id, owner_id: j.owner_id, state, project: j.project, log_url: j.log_url }
}

/// The job a readable row reads as, with a log URL.
pub open spec fn with_log_url(j: JobView, url: Seq<char>) -> JobView {
    JobView { id: j.id, owner_id: j.owner_id, state: j.state, project: j.project, log_url: Some(url) }
}

/// The job a git row with at least one version control argument describes
/// once its state is `state`, whatever state it was stored with.
pub open spec fn git_row_job(row: JobRowView, state: JobState) -> JobView {
    JobView {
        id: row.id as u64,
        owner_id: row.owner_id as u64,
        state,
        project: ProjectView {
            id: row.project_id as u64,
            name: row.project_name,
            owner_id: row.project_owner_id as u64,
            plan_path: row.project_plan_path,
            vcs_type: git(),
            vcs_data: row.vcs_arguments[0],
        },
        log_url: row.log_url,
    }
}

/// After a git job's state is set with the arguments `set_job_state_params`
/// gives, its row reads back with that state and everything else as
/// before, whatever state it was stored with; where it read as a job
/// before, that job is only given the new state.
pub proof fn lemma_state_update_reads_back(stored: StoredJob, job: JobView)
    requires
        stored.row.vcs == git(),
        stored.row.vcs_arguments.len() > 0,
        job.id as i64 == stored.row.id,
    ensures
        ({
            let after = after_set_job_state(stored, job.id as i64, state_name(job.state));
            &&& row_readable(after.row)
            &&& spec_row_to_job(after.row) == Ok::<JobView, Error>(
                git_row_job(stored.row, job.state),
            )
            &&& spec_row_to_job(stored.row) is Ok ==> spec_row_to_job(after.row)
                == Ok::<JobView, Error>(with_state(spec_row_to_job(stored.row)->Ok_0, job.state))
        }),
{
    crate::job::lemma_state_name_round_trip(job.state, state_name(job.state));
}

/// After a job's log URL is set under its signed id (`job_id_param`), its
/// row reads back with that URL and everything else as before.
pub proof fn lemma_log_url_update_reads_back(stored: StoredJob, job_id: u64, url: Seq<char>)
    requires
        row_readable(stored.row),
        spec_row_to_job(stored.row) is Ok,
        job_id as i64 == stored.row.id,
    ensures
        ({
            let after = after_set_log_url(stored, job_id as i64, url);
            &&& row_readable(after.row)
            &&& spec_row_to_job(after.row) == Ok::<JobView, Error>(
                with_log_url(spec_row_to_job(stored.row)->Ok_0, url),
            )
        }),
{
}

/// After a git job's state is set, whatever state it was stored with, the
/// next synchronisation finds its row, reads it as the job with the new
/// state and under the job's id, and the
/// mark for its delivery (`JobSync::on_routed`, the id cast to signed)
/// marks that row as synced.
pub proof fn lemma_state_update_is_synced(stored: StoredJob, job: JobView)
    requires
        stored.row.vcs == git(),
        stored.row.vcs_arguments.len() > 0,
        job.id as i64 == stored.row.id,
    ensures
        ({
            let after = after_set_job_state(stored, job.id as i64, state_name(job.state));
            let routed = spec_row_to_job(after.row)->Ok_0;
            &&& awaits_sync(after)
            &&& spec_row_to_job(after.row) is Ok
            &&& routed.id == job.id
            &&& routed.state == job.state
            &&& routed == git_row_job(stored.row, job.state)
            &&& routed.id as i64 == after.row.id
            &&& !awaits_sync(after_mark_synced(after, routed.id as i64))
        }),
{
    let id = job.id;
    assert((id as i64) as u64 == id) by (bit_vector);
    crate::job::lemma_state_name_round_trip(job.state, state_name(job.state));
}

} // verus!
