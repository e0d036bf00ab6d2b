//! Turning the downloaded logs of a pull request's workflow runs into the
//! sections of the build-log panel: which runs are read, the name, status and
//! error count of each job, and the order of the jobs (failures first).
use crate::log_panel::{JobMetadata, JobStatus};
use crate::log_types::{lines_view, JobLog, LogLineView};
use crate::sort::{key_order, sorted_by, stable_sort, SortKey};
use crate::state::Repo;
use crate::text::{contains_seq, decimal, spec_to_lowercase, sub_pos_from, trim};
use vstd::prelude::*;

verus! {

// ---------------------------------------------------------------------------
// Runs

pub open spec fn spec_failed_conclusion(c: Seq<char>) -> bool {
    c == "failure"@ || c == "timed_out"@ || c == "action_required"@ || c == "cancelled"@
}

fn eq_str(a: &str, b: &str) -> (r: bool)
    ensures
        r == (a@ == b@),
{
    let x = crate::text::to_chars(a);
    let y = crate::text::to_chars(b);
    crate::text::eq_chars(x.as_slice(), y.as_slice())
}

/// Whether a run's conclusion counts as a failure.
pub fn is_failed_conclusion(c: &str) -> (r: bool)
    ensures
        r == spec_failed_conclusion(c@),
{
    eq_str(c, "failure") || eq_str(c, "timed_out") || eq_str(c, "action_required") || eq_str(c, "cancelled")
}

/// A run's conclusion, `in_progress` while it has none.
pub open spec fn spec_run_conclusion(c: Option<Seq<char>>) -> Seq<char> {
    match c {
        Some(s) => s,
        None => "in_progress"@,
    }
}

pub fn run_conclusion(c: &Option<String>) -> (r: String)
    ensures
        r@ == spec_run_conclusion(crate::log_types::opt_string_view(*c)),
{
    match c {
        Some(s) => s.clone(),
        None => String::from_str("in_progress"),
    }
}

/// The logs of a run are read where it failed, or while nothing was read yet.
pub fn should_read_run(conclusion: &str, have_sections: bool) -> (r: bool)
    ensures
        r == (spec_failed_conclusion(conclusion@) || !have_sections),
{
    is_failed_conclusion(conclusion) || !have_sections
}

/// The jobs of a workflow run.
pub fn jobs_path(repo: &Repo, run_id: u64) -> (r: String)
    ensures
        r@ == crate::tasks::repo_path(*repo) + "/actions/runs/"@ + decimal(run_id as nat) + "/jobs"@,
{
    let mut acc: Vec<char> = Vec::new();
    crate::text::push_str(&mut acc, "/repos/");
    crate::text::push_str(&mut acc, repo.org.as_str());
    crate::text::push_str(&mut acc, "/");
    crate::text::push_str(&mut acc, repo.repo.as_str());
    crate::text::push_str(&mut acc, "/actions/runs/");
    crate::text::push_str(&mut acc, crate::view_models::u64_to_string(run_id).as_str());
    crate::text::push_str(&mut acc, "/jobs");
    crate::text::from_chars(acc.as_slice())
}

// ---------------------------------------------------------------------------
// Jobs

/// A job as the GitHub API reports it. The duration is the time from its
/// start to its completion, where both are known.
#[derive(Debug)]
pub struct ApiJob {
    pub name: String,
    pub html_url: String,
    pub conclusion: Option<String>,
    pub duration_secs: Option<u64>,
}

/// Index of the first API job whose name occurs in the log's job name.
pub open spec fn matching_job_from(jobs: Seq<ApiJob>, log_name: Seq<char>, i: int) -> Option<int>
    decreases jobs.len() - i,
{
    if i < 0 || i >= jobs.len() {
        None
    } else if contains_seq(log_name, jobs[i].name@) {
        Some(i)
    } else {
        matching_job_from(jobs, log_name, i + 1)
    }
}

pub fn find_api_job(jobs: &Vec<ApiJob>, log_name: &str) -> (r: Option<usize>)
    ensures
        match r {
            Some(i) => i < jobs@.len() && matching_job_from(jobs@, log_name@, 0) == Some(i as int),
            None => matching_job_from(jobs@, log_name@, 0) is None,
        },
{
    let name = crate::text::to_chars(log_name);
    let mut i: usize = 0;
    while i < jobs.len()
        invariant
            i <= jobs@.len(),
            name@ == log_name@,
            matching_job_from(jobs@, log_name@, 0) == matching_job_from(jobs@, log_name@, i as int),
        decreases jobs@.len() - i,
    {
        let pattern = crate::text::to_chars(jobs[i].name.as_str());
        if crate::text::contains(name.as_slice(), pattern.as_slice()) {
            return Some(i);
        }
        i = i + 1;
    }
    None
}

pub open spec fn job_name_marker() -> Seq<char> {
    "Complete job name:"@
}

/// The text after the first job-name marker of a line, up to the next
/// marker, where the line has one.
pub open spec fn job_name_part(content: Seq<char>) -> Option<Seq<char>> {
    match sub_pos_from(content, job_name_marker(), 0) {
        Some(i) => {
            let rest = content.skip(i + job_name_marker().len());
            match sub_pos_from(rest, job_name_marker(), 0) {
                Some(j) => Some(rest.take(j)),
                None => Some(rest),
            }
        },
        None => None,
    }
}

/// The job's full name from the first line that names it, else the name
/// taken from the log file.
pub open spec fn display_name_from(lines: Seq<LogLineView>, fallback: Seq<char>, i: int) -> Seq<char>
    decreases lines.len() - i,
{
    if i < 0 || i >= lines.len() {
        fallback
    } else {
        match job_name_part(lines[i].content) {
            Some(part) => trim(part),
            None => display_name_from(lines, fallback, i + 1),
        }
    }
}

fn name_part(content: &str) -> (r: Option<Vec<char>>)
    ensures
        match r {
            Some(v) => job_name_part(content@) == Some(v@),
            None => job_name_part(content@) is None,
        },
{
    let c = crate::text::to_chars(content);
    let marker = crate::text::to_chars("Complete job name:");
    match crate::text::find_sub_from(c.as_slice(), marker.as_slice(), 0) {
        Some(i) => {
            let clen = c.len();
            let mlen = marker.len();
            assert(i + mlen <= clen);
            let rest = crate::text::slice_range(c.as_slice(), i + mlen, clen);
            assert(rest@ =~= content@.skip(i + job_name_marker().len()));
            match crate::text::find_sub_from(rest.as_slice(), marker.as_slice(), 0) {
                Some(j) => {
                    let part = crate::text::slice_range(rest.as_slice(), 0, j);
                    assert(part@ =~= rest@.take(j as int));
                    Some(part)
                },
                None => Some(rest),
            }
        },
        None => None,
    }
}

/// The job's full name as shown.
pub fn display_job_name(job: &JobLog) -> (r: String)
    ensures
        r@ == display_name_from(job@.lines, job.name@, 0),
{
    let mut i: usize = 0;
    while i < job.lines.len()
        invariant
            i <= job.lines@.len(),
            job@.lines == lines_view(job.lines@),
            display_name_from(job@.lines, job.name@, 0) == display_name_from(job@.lines, job.name@, i as int),
        decreases job.lines@.len() - i,
    {
        assert(job@.lines[i as int] == job.lines@[i as int]@);
        if let Some(part) = name_part(job.lines[i].content.as_str()) {
            let t = crate::text::trim_chars(part.as_slice());
            return crate::text::from_chars(t.as_slice());
        }
        i = i + 1;
    }
    job.name.clone()
}

/// An error line of a job: an error command, or a line without a command
/// whose lower-cased text contains `error:`.
pub open spec fn is_job_error_line(l: LogLineView) -> bool {
    match l.command {
        Some(c) => c is Error,
        None => contains_seq(spec_to_lowercase(l.content), crate::parser::error_colon()),
    }
}

pub open spec fn count_job_errors_in(s: Seq<LogLineView>) -> nat
    decreases s.len(),
{
    if s.len() == 0 {
        0
    } else {
        count_job_errors_in(s.drop_last()) + if is_job_error_line(s.last()) { 1nat } else { 0nat }
    }
}

/// Number of error lines of a job.
pub fn count_job_errors(job: &JobLog) -> (r: usize)
    ensures
        r == count_job_errors_in(job@.lines),
{
    let ghost lv = job@.lines;
    let mut n: usize = 0;
    let mut i: usize = 0;
    while i < job.lines.len()
        invariant
            i <= job.lines@.len(),
            lv == lines_view(job.lines@),
            n == count_job_errors_in(lv.take(i as int)),
            n <= i,
        decreases job.lines@.len() - i,
    {
        proof {
            assert(lv.take(i + 1).drop_last() =~= lv.take(i as int));
            assert(lv[i as int] == job.lines@[i as int]@);
        }
        let line = &job.lines[i];
        let is_error = match &line.command {
            Some(c) => match c {
                crate::log_types::WorkflowCommand::Error { .. } => true,
                _ => false,
            },
            None => {
                let low = crate::text::lowercase_chars(crate::text::to_chars(line.content.as_str()).as_slice());
                crate::text::contains(low.as_slice(), &['e', 'r', 'r', 'o', 'r', ':'])
            },
        };
        if is_error {
            n = n + 1;
        }
        i = i + 1;
    }
    proof {
        assert(lv.take(i as int) =~= lv);
    }
    n
}

/// A job's status: the API's conclusion where the job was found there, else
/// failed where the log shows errors.
pub open spec fn spec_job_status(api_conclusion: Option<Option<Seq<char>>>, errors: nat) -> JobStatus {
    match api_conclusion {
        Some(c) => match c {
            Some(s) => if s == "success"@ {
                JobStatus::Success
            } else if s == "failure"@ {
                JobStatus::Failure
            } else if s == "cancelled"@ {
                JobStatus::Cancelled
            } else if s == "skipped"@ {
                JobStatus::Skipped
            } else {
                JobStatus::Unknown
            },
            None => JobStatus::InProgress,
        },
        None => if errors > 0 { JobStatus::Failure } else { JobStatus::Success },
    }
}

pub fn job_status(api: Option<&ApiJob>, errors: usize) -> (r: JobStatus)
    ensures
        r == spec_job_status(
            match api {
                Some(j) => Some(crate::log_types::opt_string_view(j.conclusion)),
                None => None,
            },
            errors as nat,
        ),
{
    match api {
        Some(j) => match &j.conclusion {
            Some(s) => if eq_str(s.as_str(), "success") {
                JobStatus::Success
            } else if eq_str(s.as_str(), "failure") {
                JobStatus::Failure
            } else if eq_str(s.as_str(), "cancelled") {
                JobStatus::Cancelled
            } else if eq_str(s.as_str(), "skipped") {
                JobStatus::Skipped
            } else {
                JobStatus::Unknown
            },
            None => JobStatus::InProgress,
        },
        None => if errors > 0 { JobStatus::Failure } else { JobStatus::Success },
    }
}

/// The metadata of a job of a run, matched with the API's jobs of the run.
pub open spec fn spec_job_metadata(job: crate::log_types::JobLogView, workflow_name: Seq<char>, jobs: Seq<ApiJob>) -> (
    Seq<char>,
    Seq<char>,
    JobStatus,
    nat,
    Option<u64>,
    Seq<char>,
) {
    let found = matching_job_from(jobs, job.name, 0);
    let errors = count_job_errors_in(job.lines);
    (
        display_name_from(job.lines, job.name, 0),
        workflow_name,
        spec_job_status(
            match found {
                Some(i) => Some(crate::log_types::opt_string_view(jobs[i].conclusion)),
                None => None,
            },
            errors,
        ),
        errors,
        match found {
            Some(i) => match jobs[i].duration_secs {
                Some(d) => Some((d * 1000) as u64),
                None => None,
            },
            None => None,
        },
        match found {
            Some(i) => jobs[i].html_url@,
            None => Seq::empty(),
        },
    )
}

pub open spec fn metadata_view(m: JobMetadata) -> (Seq<char>, Seq<char>, JobStatus, nat, Option<u64>, Seq<char>) {
    (m.name@, m.workflow_name@, m.status, m.error_count as nat, m.duration_millis, m.html_url@)
}

/// The durations the API reports fit in milliseconds.
pub open spec fn durations_fit(jobs: Seq<ApiJob>) -> bool {
    forall|i: int| 0 <= i < jobs.len() ==> match #[trigger] jobs[i].duration_secs {
        Some(d) => d * 1000 <= u64::MAX,
        None => true,
    }
}

/// The metadata shown for a job.
pub fn job_metadata(job: &JobLog, workflow_name: &str, jobs: &Vec<ApiJob>) -> (r: JobMetadata)
    requires
        durations_fit(jobs@),
    ensures
        metadata_view(r) == spec_job_metadata(job@, workflow_name@, jobs@),
{
    let found = find_api_job(jobs, job.name.as_str());
    let errors = count_job_errors(job);
    let name = display_job_name(job);
    match found {
        Some(i) => {
            let api = &jobs[i];
            assert(*api == jobs@[i as int]);
            assert(matching_job_from(jobs@, job@.name, 0) == Some(i as int));
            assert(match jobs@[i as int].duration_secs {
                Some(d) => d * 1000 <= u64::MAX,
                None => true,
            });
            let status = job_status(Some(api), errors);
            let duration = match api.duration_secs {
                Some(d) => Some(d * 1000),
                None => None,
            };
            JobMetadata {
                name,
                workflow_name: String::from_str(workflow_name),
                status,
                error_count: errors,
                duration_millis: duration,
                html_url: api.html_url.clone(),
            }
        },
        None => JobMetadata {
            name,
            workflow_name: String::from_str(workflow_name),
            status: job_status(None, errors),
            error_count: errors,
            duration_millis: None,
            html_url: String::new(),
        },
    }
}

// ---------------------------------------------------------------------------
// Order of the jobs

/// Failed jobs come first, then cancelled, running, unknown, skipped and
/// successful ones.
pub open spec fn status_rank(s: JobStatus) -> int {
    match s {
        JobStatus::Failure => 0,
        JobStatus::Cancelled => 1,
        JobStatus::InProgress => 2,
        JobStatus::Unknown => 3,
        JobStatus::Skipped => 4,
        JobStatus::Success => 5,
    }
}

fn rank(s: JobStatus) -> (r: u8)
    ensures
        r == status_rank(s),
{
    match s {
        JobStatus::Failure => 0,
        JobStatus::Cancelled => 1,
        JobStatus::InProgress => 2,
        JobStatus::Unknown => 3,
        JobStatus::Skipped => 4,
        JobStatus::Success => 5,
    }
}

/// A job's metadata with its log, as the panel receives them.
#[derive(Debug)]
pub struct JobSection {
    pub metadata: JobMetadata,
    pub log: JobLog,
}

impl SortKey for JobSection {
    open spec fn key_le(&self, other: &Self) -> bool {
        status_rank(self.metadata.status) <= status_rank(other.metadata.status)
    }

    fn le(&self, other: &Self) -> (r: bool) {
        rank(self.metadata.status) <= rank(other.metadata.status)
    }
}

/// The jobs ordered by status, failures first, keeping the order of jobs of
/// the same status.
pub fn sort_sections(sections: Vec<JobSection>) -> (r: Vec<JobSection>)
    ensures
        r@ == sorted_by(sections@, key_order::<JobSection>()),
{
    stable_sort(sections)
}

/// After sorting, the jobs come by status, failures first, and the same
/// jobs are there as before.
pub proof fn law_sections_by_status(sections: Seq<JobSection>)
    ensures
        forall|i: int, j: int|
            0 <= i < j < sorted_by(sections, key_order::<JobSection>()).len() ==> status_rank(
                #[trigger] sorted_by(sections, key_order::<JobSection>())[i].metadata.status,
            ) <= status_rank(#[trigger] sorted_by(sections, key_order::<JobSection>())[j].metadata.status),
        sorted_by(sections, key_order::<JobSection>()).to_multiset() == sections.to_multiset(),
{
    let le = key_order::<JobSection>();
    assert forall|a: JobSection, b: JobSection| #[trigger] le(a, b) || le(b, a) by {}
    assert forall|a: JobSection, b: JobSection, c: JobSection| #[trigger] le(a, b) && #[trigger] le(b, c) implies le(a, c) by {}
    crate::sort::lemma_sorted_by_is_sorted(sections, le);
    crate::sort::lemma_sorted_multiset(sections, le);
    let s = sorted_by(sections, le);
    assert forall|i: int, j: int| 0 <= i < j < s.len() implies status_rank(#[trigger] s[i].metadata.status) <= status_rank(
        #[trigger] s[j].metadata.status,
    ) by {
        assert(le(s[i], s[j]));
    }
}

} // verus!
