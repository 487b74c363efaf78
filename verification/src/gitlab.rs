//! GitLab REST API v4: the records it returns, the requests the app makes,
//! and how its answers and errors are read.
//!
//! The HTTP exchange itself happens outside the library; everything it
//! needs to send, and everything that is decided from what comes back, is
//! here.

use vstd::prelude::*;

use crate::encoding::{first_chars, first_chars_of, json_member_text, json_member_text_of, url_encode, url_encoded};
use crate::text::{
    decimal, decimal_string, drop_back, join_line_range, join_lines, line_bounds, chars_of,
    cut_lines, text_lines, trim_end_char, CharClass,
};

verus! {

broadcast use vstd::string::group_string_axioms;

/// Number of jobs fetched per page.
pub const JOBS_PER_PAGE: u64 = 100;
/// Number of lines shown from the tail of a job log.
pub const TRACE_TAIL_LINES: usize = 200;
/// Number of open merge requests fetched at once.
pub const MR_PER_PAGE: u64 = 20;

pub struct ApiProject {
    pub name_with_namespace: String,
    pub web_url: String,
}

pub struct ApiUser {
    pub name: Option<String>,
    pub username: Option<String>,
}

pub struct ApiPipeline {
    pub id: u64,
    pub git_ref: Option<String>,
    pub sha: Option<String>,
    pub status: String,
    pub source: Option<String>,
    pub web_url: String,
    pub created_at: Option<String>,
    /// The duration GitLab reported, as the bit pattern of its 64-bit float.
    pub duration_bits: Option<u64>,
    pub user: Option<ApiUser>,
}

pub struct ApiMergeRequest {
    pub iid: u64,
    pub title: String,
    pub author: Option<ApiUser>,
    pub source_branch: String,
    pub target_branch: String,
    pub web_url: String,
    pub created_at: Option<String>,
    pub draft: bool,
}

pub struct ApiCommit {
    pub title: Option<String>,
}

pub struct ApiJob {
    pub id: u64,
    pub name: String,
    pub stage: String,
    pub status: String,
    pub allow_failure: bool,
    /// The duration GitLab reported, as the bit pattern of its 64-bit float.
    pub duration_bits: Option<u64>,
    pub web_url: Option<String>,
    pub finished_at: Option<String>,
    pub commit: Option<ApiCommit>,
    /// Only populated for records coming from the `/bridges` endpoint.
    pub downstream_pipeline: Option<ApiDownstream>,
}

/// The downstream (child/multi-project) pipeline triggered by a bridge job.
pub struct ApiDownstream {
    pub id: u64,
    pub status: String,
    pub web_url: Option<String>,
    pub git_ref: Option<String>,
    /// The project the downstream pipeline lives in.
    pub project_id: Option<u64>,
}

/// An HTTP error returned by GitLab. The status code is kept so that "no
/// pipeline on this branch" (404/403) can be told apart from real errors.
#[derive(Debug)]
pub struct ApiError {
    pub status: u16,
    pub message: String,
}

/// Whether the error means "nothing there" rather than a failure.
pub fn is_missing(err: &ApiError) -> (res: bool)
    ensures
        res == (err.status == 403 || err.status == 404),
{
    err.status == 403 || err.status == 404
}

/// The hint appended to an error's status code.
pub open spec fn error_hint(status: u16) -> Seq<char> {
    if status == 401 {
        " - token is invalid or expired"@
    } else if status == 403 {
        " - token lacks permission (needs read_api/api scope)"@
    } else if status == 404 {
        " - project/pipeline doesn't exist or the token can't see it"@
    } else if status == 429 {
        " - GitLab rate limit; increase the refresh interval"@
    } else {
        Seq::empty()
    }
}

fn error_hint_str(status: u16) -> (s: &'static str)
    ensures
        s@ == error_hint(status),
{
    if status == 401 {
        " - token is invalid or expired"
    } else if status == 403 {
        " - token lacks permission (needs read_api/api scope)"
    } else if status == 404 {
        " - project/pipeline doesn't exist or the token can't see it"
    } else if status == 429 {
        " - GitLab rate limit; increase the refresh interval"
    } else {
        proof {
            reveal_strlit("");
        }
        ""
    }
}

/// The error for an unsuccessful response with the given status and detail.
pub fn api_error(status: u16, detail: &str) -> (res: ApiError)
    ensures
        res.status == status,
        res.message@ == "GitLab "@ + decimal(status as nat) + error_hint(status) + ": "@
            + detail@,
{
    let mut message = String::from_str("GitLab ");
    let code = decimal_string(status as u64);
    message.append(code.as_str());
    message.append(error_hint_str(status));
    message.append(": ");
    message.append(detail);
    ApiError { status, message }
}

/// The detail of a refused request: the error body's `message`, `error` or
/// `error_description` member (the first there is), else the body's first
/// 160 characters.
pub open spec fn error_detail_spec(body: Seq<char>) -> Seq<char> {
    match json_member_text(body, "message"@) {
        Some(m) => m,
        None => match json_member_text(body, "error"@) {
            Some(m) => m,
            None => match json_member_text(body, "error_description"@) {
                Some(m) => m,
                None => first_chars(body, 160),
            },
        },
    }
}

pub fn error_detail(body: &str) -> (res: String)
    ensures
        res@ == error_detail_spec(body@),
{
    match json_member_text_of(body, "message") {
        Some(m) => m,
        None => match json_member_text_of(body, "error") {
            Some(m) => m,
            None => match json_member_text_of(body, "error_description") {
                Some(m) => m,
                None => first_chars_of(body, 160),
            },
        },
    }
}

/// Why a request never got an answer.
#[derive(Debug, Clone, Copy, PartialEq, Eq, Structural)]
pub enum TransportFailure {
    Timeout,
    Connect,
    /// Anything else, described by the HTTP client's own text.
    Other,
}

pub open spec fn transport_reason(kind: TransportFailure, text: Seq<char>) -> Seq<char> {
    match kind {
        TransportFailure::Timeout => "timed out"@,
        TransportFailure::Connect => "could not connect (check the address or VPN?)"@,
        TransportFailure::Other => text,
    }
}

/// The message for a request that got no answer from `base`.
pub fn unreachable_message(base: &str, kind: TransportFailure, text: &str) -> (res: String)
    ensures
        res@ == "Could not reach "@ + base@ + ": "@ + transport_reason(kind, text@),
{
    let mut m = String::from_str("Could not reach ");
    m.append(base);
    m.append(": ");
    match kind {
        TransportFailure::Timeout => m.append("timed out"),
        TransportFailure::Connect => m.append("could not connect (check the address or VPN?)"),
        TransportFailure::Other => m.append(text),
    }
    m
}

/// The name shown for a user: the username, else the display name.
pub open spec fn user_name(u: ApiUser) -> Seq<char> {
    match u.username {
        Some(n) => n@,
        None => match u.name {
            Some(n) => n@,
            None => "(unnamed)"@,
        },
    }
}

/// Verified token's owner, as `current_user` reports it.
pub fn current_user_name(u: &ApiUser) -> (res: String)
    ensures
        res@ == user_name(*u),
{
    match &u.username {
        Some(n) => n.clone(),
        None => match &u.name {
            Some(n) => n.clone(),
            None => String::from_str("(unnamed)"),
        },
    }
}

/// Which step of a pipeline the app asks GitLab to take.
#[derive(Debug, Clone, Copy, PartialEq, Eq, Structural)]
pub enum PipelineAction {
    Retry,
    Cancel,
}

/// Which step of a single job the app asks GitLab to take.
#[derive(Debug, Clone, Copy, PartialEq, Eq, Structural)]
pub enum JobAction {
    Retry,
    Cancel,
    Play,
}

pub open spec fn pipeline_action_word(a: PipelineAction) -> Seq<char> {
    match a {
        PipelineAction::Retry => "retry"@,
        PipelineAction::Cancel => "cancel"@,
    }
}

pub open spec fn job_action_word(a: JobAction) -> Seq<char> {
    match a {
        JobAction::Retry => "retry"@,
        JobAction::Cancel => "cancel"@,
        JobAction::Play => "play"@,
    }
}

/// `/projects/<encoded id>`.
pub open spec fn project_path(id: Seq<char>) -> Seq<char> {
    "/projects/"@ + url_encoded(id)
}

/// A GitLab client's address and token.
pub struct Gitlab {
    base: String,
    token: String,
}

impl Gitlab {
    pub closed spec fn spec_base(&self) -> Seq<char> {
        self.base@
    }

    pub closed spec fn spec_token(&self) -> Seq<char> {
        self.token@
    }

    pub fn new(base: String, token: String) -> (res: Self)
        ensures
            res.spec_base() == drop_back(base@, CharClass::Only('/')),
            res.spec_token() == token@,
    {
        Gitlab { base: trim_end_char(base.as_str(), '/'), token }
    }

    pub fn base(&self) -> (res: &str)
        ensures
            res@ == self.spec_base(),
    {
        self.base.as_str()
    }

    /// Sent as the `PRIVATE-TOKEN` header.
    pub fn token(&self) -> (res: &str)
        ensures
            res@ == self.spec_token(),
    {
        self.token.as_str()
    }

    /// The full URL of an API path.
    pub fn url(&self, path: &str) -> (res: String)
        ensures
            res@ == self.spec_base() + "/api/v4"@ + path@,
    {
        let mut out = self.base.clone();
        out.append("/api/v4");
        out.append(path);
        out
    }

    /// The project id as a path segment: URL-encoded in full, `/` -> `%2F`.
    pub fn pid(id: &str) -> (res: String)
        ensures
            res@ == url_encoded(id@),
    {
        url_encode(id)
    }
}

fn project_prefix(id: &str) -> (res: String)
    ensures
        res@ == project_path(id@),
{
    let mut out = String::from_str("/projects/");
    let pid = Gitlab::pid(id);
    out.append(pid.as_str());
    out
}

pub fn user_path() -> (res: String)
    ensures
        res@ == "/user"@,
{
    String::from_str("/user")
}

pub fn project_request_path(id: &str) -> (res: String)
    ensures
        res@ == project_path(id@),
{
    project_prefix(id)
}

/// The given branch's latest pipeline, in full detail.
pub fn latest_pipeline_path(id: &str, git_ref: &str) -> (res: String)
    ensures
        res@ == project_path(id@) + "/pipelines/latest?ref="@ + url_encoded(git_ref@),
{
    let mut out = project_prefix(id);
    out.append("/pipelines/latest?ref=");
    let r = url_encode(git_ref);
    out.append(r.as_str());
    out
}

/// The project's most recent pipeline, as a one-element list.
pub fn recent_pipelines_path(id: &str) -> (res: String)
    ensures
        res@ == project_path(id@) + "/pipelines?per_page=1&order_by=id&sort=desc"@,
{
    let mut out = project_prefix(id);
    out.append("/pipelines?per_page=1&order_by=id&sort=desc");
    out
}

pub fn pipeline_path(id: &str, pipeline_id: u64) -> (res: String)
    ensures
        res@ == project_path(id@) + "/pipelines/"@ + decimal(pipeline_id as nat),
{
    let mut out = project_prefix(id);
    out.append("/pipelines/");
    let n = decimal_string(pipeline_id);
    out.append(n.as_str());
    out
}

/// The pipeline's jobs, older retries included: the first attempt's id is
/// what stage order is derived from.
pub fn jobs_path(id: &str, pipeline_id: u64) -> (res: String)
    ensures
        res@ == project_path(id@) + "/pipelines/"@ + decimal(pipeline_id as nat)
            + "/jobs?per_page=100&include_retried=true"@,
{
    let mut out = pipeline_path(id, pipeline_id);
    out.append("/jobs?per_page=100&include_retried=true");
    out
}

/// The pipeline's bridge (trigger) jobs; `/jobs` never returns them.
pub fn bridges_path(id: &str, pipeline_id: u64) -> (res: String)
    ensures
        res@ == project_path(id@) + "/pipelines/"@ + decimal(pipeline_id as nat)
            + "/bridges?per_page=100"@,
{
    let mut out = pipeline_path(id, pipeline_id);
    out.append("/bridges?per_page=100");
    out
}

/// The project's open merge requests, newest first.
pub fn merge_requests_path(id: &str) -> (res: String)
    ensures
        res@ == project_path(id@)
            + "/merge_requests?state=opened&order_by=created_at&sort=desc&per_page=20"@,
{
    let mut out = project_prefix(id);
    out.append("/merge_requests?state=opened&order_by=created_at&sort=desc&per_page=20");
    out
}

pub fn job_path(id: &str, job_id: u64) -> (res: String)
    ensures
        res@ == project_path(id@) + "/jobs/"@ + decimal(job_id as nat),
{
    let mut out = project_prefix(id);
    out.append("/jobs/");
    let n = decimal_string(job_id);
    out.append(n.as_str());
    out
}

pub fn trace_path(id: &str, job_id: u64) -> (res: String)
    ensures
        res@ == project_path(id@) + "/jobs/"@ + decimal(job_id as nat) + "/trace"@,
{
    let mut out = job_path(id, job_id);
    out.append("/trace");
    out
}

pub fn pipeline_action_path(id: &str, pipeline_id: u64, action: PipelineAction) -> (res: String)
    ensures
        res@ == project_path(id@) + "/pipelines/"@ + decimal(pipeline_id as nat) + "/"@
            + pipeline_action_word(action),
{
    let mut out = pipeline_path(id, pipeline_id);
    out.append("/");
    out.append(
        match action {
            PipelineAction::Retry => "retry",
            PipelineAction::Cancel => "cancel",
        },
    );
    out
}

pub fn job_action_path(id: &str, job_id: u64, action: JobAction) -> (res: String)
    ensures
        res@ == project_path(id@) + "/jobs/"@ + decimal(job_id as nat) + "/"@ + job_action_word(
            action,
        ),
{
    let mut out = job_path(id, job_id);
    out.append("/");
    out.append(
        match action {
            JobAction::Retry => "retry",
            JobAction::Cancel => "cancel",
            JobAction::Play => "play",
        },
    );
    out
}

/// What `latest_pipeline` answers for a branch: GitLab returns 403/404 when
/// the branch has no pipeline at all, which is "none", not an error.
pub fn branch_pipeline(fetched: Result<ApiPipeline, ApiError>) -> (res: Result<
    Option<ApiPipeline>,
    ApiError,
>)
    ensures
        match fetched {
            Ok(p) => res == Ok::<Option<ApiPipeline>, ApiError>(Some(p)),
            Err(e) => if e.status == 403 || e.status == 404 {
                res == Ok::<Option<ApiPipeline>, ApiError>(None)
            } else {
                res == Err::<Option<ApiPipeline>, ApiError>(e)
            },
        },
{
    match fetched {
        Ok(p) => Ok(Some(p)),
        Err(e) => if is_missing(&e) {
            Ok(None)
        } else {
            Err(e)
        },
    }
}

/// What `latest_pipeline` answers without a branch: the detail of the most
/// recent pipeline, or the summary from the list if the detail fails.
pub fn detail_or_summary(summary: ApiPipeline, detail: Result<ApiPipeline, ApiError>) -> (res:
    ApiPipeline)
    ensures
        res == (match detail {
            Ok(p) => p,
            Err(_) => summary,
        }),
{
    match detail {
        Ok(p) => p,
        Err(_) => summary,
    }
}

/// The last `n` lines of `text`, or `text` itself if it has no more than
/// `n` lines.
pub open spec fn tail_spec(text: Seq<char>, n: nat) -> Seq<char> {
    let ls = text_lines(text);
    if ls.len() <= n {
        text
    } else {
        "\u{2026} first "@ + decimal((ls.len() - n) as nat) + " lines skipped \u{2026}\n"@
            + join_lines(ls.skip(ls.len() - n))
    }
}

/// Returns the last `n` lines of the text.
pub fn tail(text: &str, n: usize) -> (res: String)
    ensures
        res@ == tail_spec(text@, n as nat),
{
    let v = chars_of(text);
    let bounds = line_bounds(&v);
    let ghost ls = text_lines(text@);
    if bounds.len() <= n {
        return String::from_str(text);
    }
    let skipped = bounds.len() - n;
    let mut out = String::from_str("\u{2026} first ");
    let count = decimal_string(skipped as u64);
    out.append(count.as_str());
    out.append(" lines skipped \u{2026}\n");
    if n > 0 {
        let rest = join_line_range(text, &bounds, skipped, bounds.len());
        out.append(rest.as_str());
        assert(cut_lines(text@, bounds@).subrange(skipped as int, bounds@.len() as int)
            =~= ls.skip(ls.len() - n));
    } else {
        assert(ls.skip(ls.len() - n) =~= Seq::<Seq<char>>::empty());
    }
    out
}

} // verus!
