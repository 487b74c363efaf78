//! GitHub Actions.
//!
//! A project id has the shape "owner/repo". GitHub has no stage concept: a
//! workflow run's jobs are shown under a single "workflow" stage. Status is
//! split over two fields (status and conclusion); `normalize` folds them into
//! the canonical vocabulary.

use vstd::prelude::*;

use crate::encoding::{message_detail, message_detail_of, url_encode, url_encoded};
use crate::model::{
    aggregate_spec, jobs_view, lemma_jobs_view, lemma_stages_view, opt_view, stages_view,
    JobInfo, JobInfoView, MergeRequestInfo, MergeRequestInfoView, PipelineInfo,
    PipelineInfoView, StageInfo, StageInfoView,
};
use crate::providers::{row_items, rows_status};
use crate::text::{
    chars_of, decimal, decimal_string, drop_back, find_char, index_of_from, str_eq,
    trim_end_char, CharClass,
};
use crate::timing::{secs_between, span_spec, str_opt};

verus! {

broadcast use vstd::string::group_string_axioms;

/// Number of open pull requests fetched at once.
pub const PR_PER_PAGE: u64 = 20;
/// Number of lines shown from the tail of a job log.
pub const TRACE_TAIL_LINES: usize = 200;

// ------------------------------------------------------------ status --

pub open spec fn or_empty(o: Option<Seq<char>>) -> Seq<char> {
    match o {
        Some(s) => s,
        None => Seq::empty(),
    }
}

/// The canonical status of a completed run or job with the given conclusion.
pub open spec fn concluded_status(c: Seq<char>) -> Seq<char> {
    if c == "success"@ || c == "neutral"@ {
        "success"@
    } else if c == "failure"@ || c == "timed_out"@ || c == "startup_failure"@ {
        "failed"@
    } else if c == "cancelled"@ {
        "canceled"@
    } else if c == "skipped"@ || c == "stale"@ {
        "skipped"@
    } else if c == "action_required"@ {
        "manual"@
    } else {
        "unknown"@
    }
}

/// GitHub's (status, conclusion) pair in the canonical status vocabulary;
/// a missing field reads as empty.
pub open spec fn github_status(status: Option<Seq<char>>, conclusion: Option<Seq<char>>) -> Seq<char> {
    let s = or_empty(status);
    if s == "queued"@ || s == "waiting"@ || s == "requested"@ || s == "pending"@ {
        "pending"@
    } else if s == "in_progress"@ {
        "running"@
    } else if s == "completed"@ {
        concluded_status(or_empty(conclusion))
    } else {
        "unknown"@
    }
}

fn concluded_status_of(c: &str) -> (res: String)
    ensures
        res@ == concluded_status(c@),
{
    if str_eq(c, "success") || str_eq(c, "neutral") {
        String::from_str("success")
    } else if str_eq(c, "failure") || str_eq(c, "timed_out") || str_eq(c, "startup_failure") {
        String::from_str("failed")
    } else if str_eq(c, "cancelled") {
        String::from_str("canceled")
    } else if str_eq(c, "skipped") || str_eq(c, "stale") {
        String::from_str("skipped")
    } else if str_eq(c, "action_required") {
        String::from_str("manual")
    } else {
        String::from_str("unknown")
    }
}

/// Converts GitHub's (status, conclusion) pair into the canonical status.
pub fn normalize(status: Option<&str>, conclusion: Option<&str>) -> (res: String)
    ensures
        res@ == github_status(str_opt(status), str_opt(conclusion)),
{
    let s: &str = match status {
        Some(s) => s,
        None => "",
    };
    proof {
        reveal_strlit("");
    }
    assert(s@ == or_empty(str_opt(status)));
    if str_eq(s, "queued") || str_eq(s, "waiting") || str_eq(s, "requested") || str_eq(
        s,
        "pending",
    ) {
        String::from_str("pending")
    } else if str_eq(s, "in_progress") {
        String::from_str("running")
    } else if str_eq(s, "completed") {
        let c: &str = match conclusion {
            Some(c) => c,
            None => "",
        };
        assert(c@ == or_empty(str_opt(conclusion)));
        concluded_status_of(c)
    } else {
        String::from_str("unknown")
    }
}

fn as_str_opt(o: &Option<String>) -> (res: Option<&str>)
    ensures
        str_opt(res) == opt_view(*o),
{
    match o {
        Some(s) => Some(s.as_str()),
        None => None,
    }
}

// ------------------------------------------------------------ repo ids --

/// "owner/repo": exactly one '/', with something on both sides of it.
pub open spec fn valid_repo(r: Seq<char>) -> bool {
    let k = find_char(r, '/');
    &&& 0 < k < r.len() - 1
    &&& find_char(r.skip(k + 1), '/') == r.len() - k - 1
}

pub open spec fn bad_repo_message(r: Seq<char>) -> Seq<char> {
    "GitHub project id must have the form \"owner/repo\", got: "@ + r
}

/// Checks that a project id has the form "owner/repo" and gives it back.
pub fn validate_repo(repo: &str) -> (res: Result<String, String>)
    ensures
        valid_repo(repo@) ==> (res matches Ok(p) && p@ == repo@),
        !valid_repo(repo@) ==> (res matches Err(m) && m@ == bad_repo_message(repo@)),
{
    let v = chars_of(repo);
    let k = index_of_from(&v, 0, '/');
    proof {
        assert(v@.skip(0) =~= v@);
    }
    let mut ok = false;
    if 0 < k && k < v.len() && k + 1 < v.len() {
        let e = index_of_from(&v, k + 1, '/');
        ok = e == v.len();
    }
    if ok {
        Ok(String::from_str(repo))
    } else {
        let mut m = String::from_str("GitHub project id must have the form \"owner/repo\", got: ");
        m.append(repo);
        Err(m)
    }
}

// ------------------------------------------------------------ client --

/// The API endpoint (https://api.github.com, or https://host/api/v3 for
/// GitHub Enterprise Server) and the token used with it.
pub struct Github {
    base: String,
    token: String,
}

impl Github {
    pub closed spec fn spec_base(&self) -> Seq<char> {
        self.base@
    }

    pub closed spec fn spec_token(&self) -> Seq<char> {
        self.token@
    }

    pub fn new(base: String, token: String) -> (res: Self)
        ensures
            res.spec_base() == drop_back(base@, CharClass::Only('/')),
            res.spec_token() == token@,
    {
        Github { base: trim_end_char(base.as_str(), '/'), token }
    }

    pub fn base(&self) -> (res: &str)
        ensures
            res@ == self.spec_base(),
    {
        self.base.as_str()
    }

    /// The full URL of an API path.
    pub fn url(&self, path: &str) -> (res: String)
        ensures
            res@ == self.spec_base() + path@,
    {
        let mut out = self.base.clone();
        out.append(path);
        out
    }

    /// The `Authorization` header.
    pub fn auth(&self) -> (res: String)
        ensures
            res@ == "Bearer "@ + self.spec_token(),
    {
        let mut out = String::from_str("Bearer ");
        out.append(self.token.as_str());
        out
    }
}

fn repo_prefix(repo: &str) -> (res: String)
    ensures
        res@ == "/repos/"@ + repo@,
{
    let mut out = String::from_str("/repos/");
    out.append(repo);
    out
}

pub fn repo_path(repo: &str) -> (res: String)
    ensures
        res@ == "/repos/"@ + repo@,
{
    repo_prefix(repo)
}

/// The latest workflow run, on the given branch where one is given.
pub fn runs_path(repo: &str, git_ref: Option<&str>) -> (res: String)
    ensures
        res@ == "/repos/"@ + repo@ + "/actions/runs?per_page=1"@ + match git_ref {
            Some(r) => "&branch="@ + url_encoded(r@),
            None => Seq::empty(),
        },
{
    let mut out = repo_prefix(repo);
    out.append("/actions/runs?per_page=1");
    let ghost mid = out@;
    match git_ref {
        Some(r) => {
            out.append("&branch=");
            let e = url_encode(r);
            out.append(e.as_str());
        },
        None => {},
    }
    proof {
        let g: Seq<char> = match git_ref {
            Some(r) => "&branch="@ + url_encoded(r@),
            None => Seq::empty(),
        };
        assert(out@ =~= mid + g);
    }
    out
}

pub fn jobs_path(repo: &str, run_id: u64) -> (res: String)
    ensures
        res@ == "/repos/"@ + repo@ + "/actions/runs/"@ + decimal(run_id as nat)
            + "/jobs?per_page=100"@,
{
    let mut out = repo_prefix(repo);
    out.append("/actions/runs/");
    let n = decimal_string(run_id);
    out.append(n.as_str());
    out.append("/jobs?per_page=100");
    out
}

pub fn pulls_path(repo: &str) -> (res: String)
    ensures
        res@ == "/repos/"@ + repo@ + "/pulls?state=open&per_page=20"@,
{
    let mut out = repo_prefix(repo);
    out.append("/pulls?state=open&per_page=");
    let n = decimal_string(PR_PER_PAGE);
    out.append(n.as_str());
    proof {
        reveal_strlit("/pulls?state=open&per_page=");
        reveal_strlit("/pulls?state=open&per_page=20");
        assert(decimal(20) =~= seq!['2', '0']) by {
            reveal_with_fuel(decimal, 2);
        }
        assert(out@ =~= "/repos/"@ + repo@ + "/pulls?state=open&per_page=20"@);
    }
    out
}

/// What is done to a whole run or to one job.
#[derive(Debug, Clone, Copy, PartialEq, Eq, Structural)]
pub enum RunAction {
    Rerun,
    Cancel,
    RerunJob,
    JobLogs,
}

pub open spec fn action_path_spec(repo: Seq<char>, id: u64, action: RunAction) -> Seq<char> {
    "/repos/"@ + repo + match action {
        RunAction::Rerun => "/actions/runs/"@ + decimal(id as nat) + "/rerun"@,
        RunAction::Cancel => "/actions/runs/"@ + decimal(id as nat) + "/cancel"@,
        RunAction::RerunJob => "/actions/jobs/"@ + decimal(id as nat) + "/rerun"@,
        RunAction::JobLogs => "/actions/jobs/"@ + decimal(id as nat) + "/logs"@,
    }
}

/// The path of an action on a run or a job of the repository `repo`, once
/// its id has been checked.
pub fn action_path(repo: &str, id: u64, action: RunAction) -> (res: Result<String, String>)
    ensures
        valid_repo(repo@) ==> (res matches Ok(p) && p@ == action_path_spec(repo@, id, action)),
        !valid_repo(repo@) ==> (res matches Err(m) && m@ == bad_repo_message(repo@)),
{
    let checked = validate_repo(repo)?;
    let mut out = repo_prefix(checked.as_str());
    let ghost head = out@;
    let n = decimal_string(id);
    match action {
        RunAction::Rerun | RunAction::Cancel => out.append("/actions/runs/"),
        RunAction::RerunJob | RunAction::JobLogs => out.append("/actions/jobs/"),
    }
    out.append(n.as_str());
    match action {
        RunAction::Rerun | RunAction::RerunJob => out.append("/rerun"),
        RunAction::Cancel => out.append("/cancel"),
        RunAction::JobLogs => out.append("/logs"),
    }
    proof {
        let tail: Seq<char> = match action {
            RunAction::Rerun => "/actions/runs/"@ + decimal(id as nat) + "/rerun"@,
            RunAction::Cancel => "/actions/runs/"@ + decimal(id as nat) + "/cancel"@,
            RunAction::RerunJob => "/actions/jobs/"@ + decimal(id as nat) + "/rerun"@,
            RunAction::JobLogs => "/actions/jobs/"@ + decimal(id as nat) + "/logs"@,
        };
        assert(out@ =~= head + tail);
    }
    Ok(out)
}

// ------------------------------------------------------------ records --

pub struct ApiRepo {
    pub full_name: String,
    pub html_url: String,
}

pub struct ApiActor {
    pub login: Option<String>,
}

pub struct ApiRun {
    pub id: u64,
    pub display_title: Option<String>,
    pub head_branch: Option<String>,
    pub head_sha: Option<String>,
    pub status: Option<String>,
    pub conclusion: Option<String>,
    pub html_url: String,
    pub created_at: Option<String>,
    pub run_started_at: Option<String>,
    pub updated_at: Option<String>,
    pub event: Option<String>,
    pub actor: Option<ApiActor>,
}

pub struct ApiJob {
    pub id: u64,
    pub name: String,
    pub status: Option<String>,
    pub conclusion: Option<String>,
    pub started_at: Option<String>,
    pub completed_at: Option<String>,
    pub html_url: Option<String>,
}

pub struct PrUser {
    pub login: Option<String>,
}

pub struct PrRef {
    pub git_ref: String,
}

pub struct ApiPr {
    pub number: u64,
    pub title: String,
    pub user: Option<PrUser>,
    pub head: PrRef,
    pub base: PrRef,
    pub html_url: String,
    pub created_at: Option<String>,
    pub draft: bool,
}

/// The row shown for a job: all of them sit in the "workflow" stage.
pub open spec fn job_entry(j: ApiJob) -> JobInfoView {
    JobInfoView {
        id: j.id,
        name: j.name@,
        stage: "workflow"@,
        status: github_status(opt_view(j.status), opt_view(j.conclusion)),
        allow_failure: false,
        duration: span_spec(opt_view(j.started_at), opt_view(j.completed_at)),
        web_url: or_empty(opt_view(j.html_url)),
        finished_at: opt_view(j.completed_at),
        downstream: None,
    }
}

fn job_entry_of(j: &ApiJob) -> (res: JobInfo)
    ensures
        res@ == job_entry(*j),
{
    JobInfo {
        id: j.id,
        name: j.name.clone(),
        stage: String::from_str("workflow"),
        status: normalize(as_str_opt(&j.status), as_str_opt(&j.conclusion)),
        allow_failure: false,
        duration: secs_between(as_str_opt(&j.started_at), as_str_opt(&j.completed_at)),
        web_url: match &j.html_url {
            Some(u) => u.clone(),
            None => String::new(),
        },
        finished_at: match &j.completed_at {
            Some(c) => Some(c.clone()),
            None => None,
        },
        downstream: None,
    }
}

/// A run's jobs as stages: none when there are no jobs, else the single
/// "workflow" stage holding them all in the order given, with their
/// summary status.
pub open spec fn workflow_stages_spec(jobs: Seq<ApiJob>) -> Seq<StageInfoView> {
    if jobs.len() == 0 {
        Seq::empty()
    } else {
        let rows = jobs.map_values(|j: ApiJob| job_entry(j));
        seq![StageInfoView { name: "workflow"@, status: aggregate_spec(row_items(rows)), jobs: rows }]
    }
}

pub fn workflow_stages(jobs: &[ApiJob]) -> (res: Vec<StageInfo>)
    ensures
        stages_view(res@) == workflow_stages_spec(jobs@),
{
    let mut rows: Vec<JobInfo> = Vec::new();
    for i in 0..jobs.len()
        invariant
            rows@.len() == i,
            forall|k: int| 0 <= k < i ==> (#[trigger] rows@[k])@ == job_entry(jobs@[k]),
    {
        rows.push(job_entry_of(&jobs[i]));
    }
    proof {
        lemma_jobs_view(rows@);
        assert(jobs_view(rows@) =~= jobs@.map_values(|j: ApiJob| job_entry(j)));
    }
    let mut out: Vec<StageInfo> = Vec::new();
    if rows.len() > 0 {
        let status = rows_status(&rows);
        out.push(StageInfo { name: String::from_str("workflow"), status, jobs: rows });
    }
    proof {
        lemma_stages_view(out@);
        assert(stages_view(out@) =~= workflow_stages_spec(jobs@));
    }
    out
}

/// A finished run's duration: from its start to its last update (the run
/// record has no duration field of its own). None while it is running or
/// pending.
pub open spec fn run_duration(status: Seq<char>, r: ApiRun) -> Option<crate::model::Duration> {
    if status != "running"@ && status != "pending"@ {
        span_spec(opt_view(r.run_started_at), opt_view(r.updated_at))
    } else {
        None
    }
}

/// The latest run as the app shows it.
pub fn pipeline_of(repo: &str, meta: ApiRepo, run: ApiRun, stages: Vec<StageInfo>) -> (res: PipelineInfo)
    ensures
        res@ == (PipelineInfoView {
            project_id: repo@,
            project_name: meta.full_name@,
            project_url: meta.html_url@,
            id: run.id,
            git_ref: match run.head_branch {
                Some(b) => b@,
                None => "-"@,
            },
            sha: or_empty(opt_view(run.head_sha)),
            status: github_status(opt_view(run.status), opt_view(run.conclusion)),
            source: opt_view(run.event),
            web_url: run.html_url@,
            created_at: opt_view(run.created_at),
            duration: run_duration(github_status(opt_view(run.status), opt_view(run.conclusion)), run),
            triggered_by: match run.actor {
                Some(a) => opt_view(a.login),
                None => None,
            },
            commit_title: opt_view(run.display_title),
            stages: stages_view(stages@),
        }),
{
    let status = normalize(as_str_opt(&run.status), as_str_opt(&run.conclusion));
    let duration = if !str_eq(status.as_str(), "running") && !str_eq(status.as_str(), "pending") {
        secs_between(as_str_opt(&run.run_started_at), as_str_opt(&run.updated_at))
    } else {
        None
    };
    let git_ref = match run.head_branch {
        Some(b) => b,
        None => String::from_str("-"),
    };
    let sha = match run.head_sha {
        Some(s) => s,
        None => String::new(),
    };
    let triggered_by = match run.actor {
        Some(a) => a.login,
        None => None,
    };
    PipelineInfo {
        project_id: String::from_str(repo),
        project_name: meta.full_name,
        project_url: meta.html_url,
        id: run.id,
        git_ref,
        sha,
        status,
        source: run.event,
        web_url: run.html_url,
        created_at: run.created_at,
        duration,
        triggered_by,
        commit_title: run.display_title,
        stages,
    }
}

pub fn pull_request_of(pr: ApiPr) -> (res: MergeRequestInfo)
    ensures
        res@ == (MergeRequestInfoView {
            iid: pr.number,
            title: pr.title@,
            author: match pr.user {
                Some(u) => opt_view(u.login),
                None => None,
            },
            source_branch: pr.head.git_ref@,
            target_branch: pr.base.git_ref@,
            web_url: pr.html_url@,
            created_at: opt_view(pr.created_at),
            draft: pr.draft,
        }),
{
    MergeRequestInfo {
        iid: pr.number,
        title: pr.title,
        author: match pr.user {
            Some(u) => u.login,
            None => None,
        },
        source_branch: pr.head.git_ref,
        target_branch: pr.base.git_ref,
        web_url: pr.html_url,
        created_at: pr.created_at,
        draft: pr.draft,
    }
}

// ------------------------------------------------------------ errors --

/// The hint appended to a refused request's status code.
pub open spec fn error_hint(status: u16) -> Seq<char> {
    if status == 401 {
        " - token is invalid or expired"@
    } else if status == 403 {
        " - token lacks permission (needs repo/actions scope) or rate limited"@
    } else if status == 404 {
        " - repo doesn't exist or the token can't see it"@
    } else {
        Seq::empty()
    }
}

fn error_hint_str(status: u16) -> (s: &'static str)
    ensures
        s@ == error_hint(status),
{
    if status == 401 {
        " - token is invalid or expired"
    } else if status == 403 {
        " - token lacks permission (needs repo/actions scope) or rate limited"
    } else if status == 404 {
        " - repo doesn't exist or the token can't see it"
    } else {
        proof {
            reveal_strlit("");
        }
        ""
    }
}

/// The message for a refused request with the given status and error body.
pub fn api_error(status: u16, body: &str) -> (res: String)
    ensures
        res@ == "GitHub "@ + decimal(status as nat) + error_hint(status) + ": "@ + message_detail(
            body@,
        ),
{
    let mut message = String::from_str("GitHub ");
    let code = decimal_string(status as u64);
    message.append(code.as_str());
    message.append(error_hint_str(status));
    message.append(": ");
    let detail = message_detail_of(body);
    message.append(detail.as_str());
    message
}

} // verus!
