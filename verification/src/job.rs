//! Jobs, their states and the database rows they are read from.

use vstd::prelude::*;
use vstd::string::*;

verus! {

/// The life-cycle state of a build job.
#[derive(Clone, Copy, Debug, PartialEq, Eq, Structural)]
pub enum JobState {
    Pending,
    Processing,
    Complete,
    Rejected,
    Failed,
    Dispatched,
}

/// Reasons a job can be refused or fail to be read back.
#[derive(Clone, Copy, Debug, PartialEq, Eq, Structural)]
pub enum Error {
    /// The project names a version control system other than git.
    UnknownVCS,
    /// The stored state of a job is not one of the known states.
    UnknownJobState,
}

/// The name under which a state is stored in the `job_state` column.
pub open spec fn state_name(s: JobState) -> Seq<char> {
    match s {
        JobState::Dispatched => "Dispatched"@,
        JobState::Pending => "Pending"@,
        JobState::Processing => "Processing"@,
        JobState::Complete => "Complete"@,
        JobState::Rejected => "Rejected"@,
        JobState::Failed => "Failed"@,
    }
}

/// The state stored under a name, if the name is one of the known ones.
pub open spec fn state_of_name(name: Seq<char>) -> Option<JobState> {
    if name == "Dispatched"@ {
        Some(JobState::Dispatched)
    } else if name == "Pending"@ {
        Some(JobState::Pending)
    } else if name == "Processing"@ {
        Some(JobState::Processing)
    } else if name == "Complete"@ {
        Some(JobState::Complete)
    } else if name == "Rejected"@ {
        Some(JobState::Rejected)
    } else if name == "Failed"@ {
        Some(JobState::Failed)
    } else {
        None
    }
}

impl JobState {
    /// The text stored for this state in the database.
    pub fn name(&self) -> (r: &'static str)
        ensures
            r@ == state_name(*self),
    {
        match self {
            JobState::Dispatched => "Dispatched",
            JobState::Pending => "Pending",
            JobState::Processing => "Processing",
            JobState::Complete => "Complete",
            JobState::Rejected => "Rejected",
            JobState::Failed => "Failed",
        }
    }

    /// Reads a stored state back; `UnknownJobState` for any other text.
    pub fn from_name(name: &String) -> (r: Result<JobState, Error>)
        ensures
            match state_of_name(name@) {
                Some(s) => r == Ok::<JobState, Error>(s),
                None => r == Err::<JobState, Error>(Error::UnknownJobState),
            },
    {
        if *name == String::from_str("Dispatched") {
            Ok(JobState::Dispatched)
        } else if *name == String::from_str("Pending") {
            Ok(JobState::Pending)
        } else if *name == String::from_str("Processing") {
            Ok(JobState::Processing)
        } else if *name == String::from_str("Complete") {
            Ok(JobState::Complete)
        } else if *name == String::from_str("Rejected") {
            Ok(JobState::Rejected)
        } else if *name == String::from_str("Failed") {
            Ok(JobState::Failed)
        } else {
            Err(Error::UnknownJobState)
        }
    }
}

/// Every state is read back from the name it is stored under, and a name
/// that reads back as a state is that state's name.
pub proof fn lemma_state_name_round_trip(s: JobState, name: Seq<char>)
    ensures
        state_of_name(state_name(s)) == Some(s),
        state_of_name(name) == Some(s) ==> name == state_name(s),
{
    reveal_strlit("Dispatched");
    reveal_strlit("Pending");
    reveal_strlit("Processing");
    reveal_strlit("Complete");
    reveal_strlit("Rejected");
    reveal_strlit("Failed");
    assert("Dispatched"@.len() == 10 && "Processing"@.len() == 10 && "Pending"@.len() == 7);
    assert("Complete"@.len() == 8 && "Rejected"@.len() == 8 && "Failed"@.len() == 6);
    assert("Dispatched"@[0] != "Processing"@[0]);
    assert("Complete"@[0] != "Rejected"@[0]);
}

/// The project a job builds.
#[derive(Clone, Debug)]
pub struct OriginProject {
    pub id: u64,
    pub name: String,
    pub owner_id: u64,
    pub plan_path: String,
    pub vcs_type: String,
    pub vcs_data: String,
}

/// A build job.
#[derive(Clone, Debug)]
pub struct Job {
    pub id: u64,
    pub owner_id: u64,
    pub state: JobState,
    pub project: OriginProject,
    /// Where the job's log was archived, once it has been.
    pub log_url: Option<String>,
}

/// One row of the `jobs` table, column by column.
#[derive(Clone, Debug)]
pub struct JobRow {
    pub id: i64,
    pub owner_id: i64,
    pub job_state: String,
    pub project_id: i64,
    pub project_name: String,
    pub project_owner_id: i64,
    pub project_plan_path: String,
    pub vcs: String,
    pub vcs_arguments: Vec<String>,
    /// `None` where the column is NULL.
    pub log_url: Option<String>,
}

pub struct ProjectView {
    pub id: u64,
    pub name: Seq<char>,
    pub owner_id: u64,
    pub plan_path: Seq<char>,
    pub vcs_type: Seq<char>,
    pub vcs_data: Seq<char>,
}

pub struct JobView {
    pub id: u64,
    pub owner_id: u64,
    pub state: JobState,
    pub project: ProjectView,
    pub log_url: Option<Seq<char>>,
}

pub struct JobRowView {
    pub id: i64,
    pub owner_id: i64,
    pub job_state: Seq<char>,
    pub project_id: i64,
    pub project_name: Seq<char>,
    pub project_owner_id: i64,
    pub project_plan_path: Seq<char>,
    pub vcs: Seq<char>,
    pub vcs_arguments: Seq<Seq<char>>,
    pub log_url: Option<Seq<char>>,
}

pub open spec fn opt_string_view(o: Option<String>) -> Option<Seq<char>> {
    match o {
        Some(s) => Some(s@),
        None => None,
    }
}

impl View for OriginProject {
    type V = ProjectView;

    open spec fn view(&self) -> ProjectView {
        ProjectView {
            id: self.id,
            name: self.name@,
            owner_id: self.owner_id,
            plan_path: self.plan_path@,
            vcs_type: self.vcs_type@,
            vcs_data: self.vcs_data@,
        }
    }
}

impl View for Job {
    type V = JobView;

    open spec fn view(&self) -> JobView {
        JobView {
            id: self.id,
            owner_id: self.owner_id,
            state: self.state,
            project: self.project@,
            log_url: opt_string_view(self.log_url),
        }
    }
}

impl View for JobRow {
    type V = JobRowView;

    open spec fn view(&self) -> JobRowView {
        JobRowView {
            id: self.id,
            owner_id: self.owner_id,
            job_state: self.job_state@,
            project_id: self.project_id,
            project_name: self.project_name@,
            project_owner_id: self.project_owner_id,
            project_plan_path: self.project_plan_path@,
            vcs: self.vcs@,
            vcs_arguments: self.vcs_arguments@.map_values(|a: String| a@),
            log_url: opt_string_view(self.log_url),
        }
    }
}

/// The only version control system jobs can name.
pub open spec fn git() -> Seq<char> {
    "git"@
}

/// The job a row describes: its state must be a known one and its
/// version control system git, whose first argument is the repository.
pub open spec fn spec_row_to_job(row: JobRowView) -> Result<JobView, Error> {
    match state_of_name(row.job_state) {
        None => Err(Error::UnknownJobState),
        Some(state) => if row.vcs == git() {
            Ok(
                JobView {
                    id: row.id as u64,
                    owner_id: row.owner_id as u64,
                    state,
                    project: ProjectView {
                        id: row.project_id as u64,
                        name: row.project_name,
                        owner_id: row.project_owner_id as u64,
                        plan_path: row.project_plan_path,
                        vcs_type: git(),
                        vcs_data: row.vcs_arguments[0],
                    },
                    log_url: row.log_url,
                },
            )
        } else {
            Err(Error::UnknownVCS)
        },
    }
}

/// A row can be read without failing: a git row whose state is known
/// carries at least one version control argument.
pub open spec fn row_readable(row: JobRowView) -> bool {
    state_of_name(row.job_state) is Some && row.vcs == git() ==> row.vcs_arguments.len() > 0
}

impl JobRow {
    /// Whether the row can be read without failing (see `row_to_job`).
    pub fn readable(&self) -> (r: bool)
        ensures
            r == row_readable(self@),
    {
        let known = JobState::from_name(&self.job_state).is_ok();
        !(known && self.vcs == String::from_str("git")) || self.vcs_arguments.len() > 0
    }
}

pub open spec fn job_result_view(r: Result<Job, Error>) -> Result<JobView, Error> {
    match r {
        Ok(j) => Ok(j@),
        Err(e) => Err(e),
    }
}

/// Translates a `jobs` row into a job.
///
/// Fails with `UnknownJobState` where the state is not a known one, and
/// otherwise with `UnknownVCS` where the version control system is not git.
pub fn row_to_job(row: &JobRow) -> (res: Result<Job, Error>)
    requires
        row_readable(row@),
    ensures
        job_result_view(res) == spec_row_to_job(row@),
{
    let state = match JobState::from_name(&row.job_state) {
        Ok(s) => s,
        Err(e) => return Err(e),
    };
    let git_name = String::from_str("git");
    if row.vcs == git_name {
        let vcs_data = row.vcs_arguments[0].clone();
        let log_url = match &row.log_url {
            Some(u) => Some(u.clone()),
            None => None,
        };
        let project = OriginProject {
            id: row.project_id as u64,
            name: row.project_name.clone(),
            owner_id: row.project_owner_id as u64,
            plan_path: row.project_plan_path.clone(),
            vcs_type: git_name,
            vcs_data,
        };
        Ok(Job { id: row.id as u64, owner_id: row.owner_id as u64, state, project, log_url })
    } else {
        Err(Error::UnknownVCS)
    }
}

} // verus!
