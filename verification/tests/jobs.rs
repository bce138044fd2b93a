use builder_jobs::job::{row_to_job, Error, Job, JobRow, JobState, OriginProject};
use builder_jobs::store::{
    create_job_params, job_from_rows, job_id_param, jobs_from_rows, rows_ready,
    set_job_state_params,
};

fn git_row(id: i64, state: &str) -> JobRow {
    JobRow {
        id,
        owner_id: 12,
        job_state: state.to_string(),
        project_id: 34,
        project_name: "core/nginx".to_string(),
        project_owner_id: 56,
        project_plan_path: "nginx/plan.sh".to_string(),
        vcs: "git".to_string(),
        vcs_arguments: vec!["https://github.com/habitat-sh/core-plans.git".to_string()],
        log_url: None,
    }
}

fn git_job() -> Job {
    Job {
        id: 0,
        owner_id: 12,
        state: JobState::Pending,
        project: OriginProject {
            id: 34,
            name: "core/nginx".to_string(),
            owner_id: 56,
            plan_path: "nginx/plan.sh".to_string(),
            vcs_type: "git".to_string(),
            vcs_data: "https://github.com/habitat-sh/core-plans.git".to_string(),
        },
        log_url: None,
    }
}

const ALL_STATES: [JobState; 6] = [
    JobState::Pending,
    JobState::Processing,
    JobState::Complete,
    JobState::Rejected,
    JobState::Failed,
    JobState::Dispatched,
];

#[test]
fn state_names_are_the_stored_texts() {
    assert_eq!(JobState::Dispatched.name(), "Dispatched");
    assert_eq!(JobState::Pending.name(), "Pending");
    assert_eq!(JobState::Processing.name(), "Processing");
    assert_eq!(JobState::Complete.name(), "Complete");
    assert_eq!(JobState::Rejected.name(), "Rejected");
    assert_eq!(JobState::Failed.name(), "Failed");
}

#[test]
fn state_names_read_back() {
    for s in ALL_STATES.iter() {
        assert_eq!(JobState::from_name(&s.name().to_string()), Ok(*s));
    }
}

#[test]
fn unknown_state_name_is_refused() {
    assert_eq!(JobState::from_name(&"pending".to_string()), Err(Error::UnknownJobState));
    assert_eq!(JobState::from_name(&"".to_string()), Err(Error::UnknownJobState));
    assert_eq!(JobState::from_name(&"Running".to_string()), Err(Error::UnknownJobState));
}

#[test]
fn row_reads_as_job() {
    let mut row = git_row(7, "Processing");
    row.log_url = Some("https://logs.example/7".to_string());
    let job = row_to_job(&row).unwrap();
    assert_eq!(job.id, 7);
    assert_eq!(job.owner_id, 12);
    assert_eq!(job.state, JobState::Processing);
    assert_eq!(job.project.id, 34);
    assert_eq!(job.project.name, "core/nginx");
    assert_eq!(job.project.owner_id, 56);
    assert_eq!(job.project.plan_path, "nginx/plan.sh");
    assert_eq!(job.project.vcs_type, "git");
    assert_eq!(job.project.vcs_data, "https://github.com/habitat-sh/core-plans.git");
    assert_eq!(job.log_url, Some("https://logs.example/7".to_string()));
}

#[test]
fn row_takes_first_vcs_argument() {
    let mut row = git_row(1, "Pending");
    row.vcs_arguments.push("second".to_string());
    let job = row_to_job(&row).unwrap();
    assert_eq!(job.project.vcs_data, "https://github.com/habitat-sh/core-plans.git");
    assert_eq!(job.log_url, None);
}

#[test]
fn negative_ids_wrap_to_unsigned() {
    let row = git_row(-1, "Complete");
    let job = row_to_job(&row).unwrap();
    assert_eq!(job.id, u64::MAX);
}

#[test]
fn row_with_unknown_state_is_refused() {
    let row = git_row(1, "Exploded");
    assert_eq!(row_to_job(&row).unwrap_err(), Error::UnknownJobState);
}

#[test]
fn row_with_unknown_vcs_is_refused() {
    let mut row = git_row(1, "Pending");
    row.vcs = "svn".to_string();
    assert_eq!(row_to_job(&row).unwrap_err(), Error::UnknownVCS);
}

#[test]
fn unknown_state_is_reported_before_unknown_vcs() {
    let mut row = git_row(1, "Lost");
    row.vcs = "hg".to_string();
    row.vcs_arguments.clear();
    assert_eq!(row_to_job(&row).unwrap_err(), Error::UnknownJobState);
}

#[test]
fn git_job_gives_insert_arguments() {
    let mut job = git_job();
    job.owner_id = u64::MAX;
    let p = create_job_params(&job).unwrap();
    assert_eq!(p.owner_id, -1);
    assert_eq!(p.project_id, 34);
    assert_eq!(p.project_name, "core/nginx");
    assert_eq!(p.project_owner_id, 56);
    assert_eq!(p.project_plan_path, "nginx/plan.sh");
    assert_eq!(p.vcs, "git");
    assert_eq!(p.vcs_arguments, vec!["https://github.com/habitat-sh/core-plans.git".to_string()]);
}

#[test]
fn non_git_job_is_refused() {
    let mut job = git_job();
    job.project.vcs_type = "svn".to_string();
    assert_eq!(create_job_params(&job).unwrap_err(), Error::UnknownVCS);
}

#[test]
fn created_job_reads_back_pending() {
    let mut job = git_job();
    job.state = JobState::Failed;
    job.owner_id = 1 << 63;
    let p = create_job_params(&job).unwrap();
    let row = JobRow {
        id: 99,
        owner_id: p.owner_id,
        job_state: "Pending".to_string(),
        project_id: p.project_id,
        project_name: p.project_name.clone(),
        project_owner_id: p.project_owner_id,
        project_plan_path: p.project_plan_path.clone(),
        vcs: p.vcs.clone(),
        vcs_arguments: p.vcs_arguments.clone(),
        log_url: None,
    };
    let back = row_to_job(&row).unwrap();
    assert_eq!(back.id, 99);
    assert_eq!(back.owner_id, 1 << 63);
    assert_eq!(back.state, JobState::Pending);
    assert_eq!(back.project.name, job.project.name);
    assert_eq!(back.project.vcs_data, job.project.vcs_data);
    assert_eq!(back.log_url, None);
}

#[test]
fn job_state_update_arguments() {
    let mut job = git_job();
    job.id = 42;
    job.state = JobState::Rejected;
    assert_eq!(set_job_state_params(&job), (42, "Rejected"));
}

#[test]
fn job_ids_cast_to_signed() {
    assert_eq!(job_id_param(5), 5);
    assert_eq!(job_id_param(u64::MAX), -1);
    assert_eq!(job_id_param(1 << 63), i64::MIN);
}

#[test]
fn lookup_without_rows_is_none() {
    assert!(job_from_rows(&vec![]).unwrap().is_none());
}

#[test]
fn lookup_reads_first_row() {
    let rows = vec![git_row(3, "Dispatched"), git_row(4, "Bogus")];
    let job = job_from_rows(&rows).unwrap().unwrap();
    assert_eq!(job.id, 3);
    assert_eq!(job.state, JobState::Dispatched);
}

#[test]
fn lookup_reports_unreadable_row() {
    let rows = vec![git_row(3, "Bogus")];
    assert_eq!(job_from_rows(&rows).unwrap_err(), Error::UnknownJobState);
}

#[test]
fn pending_jobs_keep_row_order() {
    let rows = vec![git_row(5, "Dispatched"), git_row(2, "Dispatched"), git_row(9, "Dispatched")];
    let jobs = jobs_from_rows(&rows).unwrap();
    let ids: Vec<u64> = jobs.iter().map(|j| j.id).collect();
    assert_eq!(ids, vec![5, 2, 9]);
}

#[test]
fn pending_jobs_without_rows_are_empty() {
    assert!(jobs_from_rows(&vec![]).unwrap().is_empty());
}

#[test]
fn pending_jobs_stop_at_first_unreadable_row() {
    let mut bad_vcs = git_row(2, "Pending");
    bad_vcs.vcs = "bzr".to_string();
    let mut bad_state = git_row(3, "Nope");
    bad_state.vcs_arguments.clear();
    let rows = vec![git_row(1, "Pending"), bad_vcs, bad_state];
    assert_eq!(jobs_from_rows(&rows).unwrap_err(), Error::UnknownVCS);
}

#[test]
fn git_row_without_arguments_is_not_readable() {
    let mut row = git_row(1, "Pending");
    assert!(row.readable());
    row.vcs_arguments.clear();
    assert!(!row.readable());
    row.job_state = "Unheard".to_string();
    assert!(row.readable());
    row.job_state = "Pending".to_string();
    row.vcs = "svn".to_string();
    assert!(row.readable());
}

#[test]
fn rows_ready_looks_only_at_reached_rows() {
    let mut empty_args = git_row(2, "Pending");
    empty_args.vcs_arguments.clear();
    assert!(!rows_ready(&vec![git_row(1, "Pending"), empty_args.clone()]));
    assert!(rows_ready(&vec![git_row(1, "Gone"), empty_args.clone()]));
    assert!(rows_ready(&vec![]));
    assert!(rows_ready(&vec![git_row(1, "Pending"), git_row(2, "Failed")]));
}

#[test]
fn state_update_reads_back() {
    let row = git_row(17, "Pending");
    let mut job = row_to_job(&row).unwrap();
    job.state = JobState::Complete;
    let (id, state) = set_job_state_params(&job);
    assert_eq!(id, row.id);
    let mut updated = row.clone();
    updated.job_state = state.to_string();
    let back = row_to_job(&updated).unwrap();
    assert_eq!(back.state, JobState::Complete);
    assert_eq!(back.id, 17);
    assert_eq!(back.owner_id, job.owner_id);
    assert_eq!(back.project.name, job.project.name);
    assert_eq!(back.project.vcs_data, job.project.vcs_data);
    assert_eq!(back.log_url, None);
}

#[test]
fn log_url_update_reads_back() {
    let row = git_row(21, "Complete");
    assert_eq!(job_id_param(21), row.id);
    let mut updated = row.clone();
    updated.log_url = Some("s3://logs/21".to_string());
    let back = row_to_job(&updated).unwrap();
    assert_eq!(back.log_url, Some("s3://logs/21".to_string()));
    assert_eq!(back.state, JobState::Complete);
    assert_eq!(back.id, 21);
}

#[test]
fn state_update_repairs_unknown_state() {
    let row = git_row(23, "Lost");
    assert_eq!(row_to_job(&row).unwrap_err(), Error::UnknownJobState);
    let mut job = git_job();
    job.id = 23;
    job.state = JobState::Processing;
    let (id, state) = set_job_state_params(&job);
    assert_eq!(id, row.id);
    let mut updated = row.clone();
    updated.job_state = state.to_string();
    let back = row_to_job(&updated).unwrap();
    assert_eq!(back.state, JobState::Processing);
    assert_eq!(back.id, 23);
    assert_eq!(back.project.plan_path, row.project_plan_path);
}
