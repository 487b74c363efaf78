//! Azure DevOps Pipelines.
//!
//! A project id has the shape "Project" (the project's most recent build)
//! or "Project/DefinitionId" (a given pipeline definition). The
//! organization URL comes from the settings: https://dev.azure.com/organization
//!
//! The stage/job tree is read from the Timeline API: records form a
//! Stage -> Phase -> Job -> Task hierarchy, and each Job record goes to its
//! Stage by walking the parentId chain. A job's log id is used as its
//! numeric id (record ids are GUIDs; the log id is what fetching the log
//! needs anyway).

use vstd::prelude::*;

use crate::timing::{secs_between, span_spec, str_opt};
use crate::model::{
    aggregate_spec, clone_opt_string, jobs_view, lemma_jobs_view, lemma_stages_view, opt_view,
    stage_view, stages_view, JobInfo, JobInfoView, StageInfo, StageInfoView,
};
use crate::encoding::{
    base64_encode, base64_size_fits, base64_standard, message_detail, message_detail_of, url_encode, url_encoded,
};
use crate::model::{MergeRequestInfo, MergeRequestInfoView, PipelineInfo, PipelineInfoView};
use crate::text::{decimal, decimal_string, drop_back, trim_end_char, CharClass};
use crate::order::{insert_sorted, rank_less, rank_lt, rank_of, sorted_by};
use crate::providers::{row_items, rows_status};
use vstd::utf8::encode_utf8;
use crate::text::{
    chars_of, find_char, index_of_from, parse_u64, parse_u64_spec, slice_string, str_eq,
    strip_prefixes, strip_prefixes_of, trim, trimmed,
};

verus! {

broadcast use vstd::string::group_string_axioms;

/// Number of open pull requests fetched at once.
pub const PR_TOP: u64 = 20;
/// Number of lines shown from the tail of a job log.
pub const TRACE_TAIL_LINES: usize = 200;

// ------------------------------------------------------------ status --

pub open spec fn or_empty(o: Option<Seq<char>>) -> Seq<char> {
    match o {
        Some(s) => s,
        None => Seq::empty(),
    }
}

/// The canonical status of a completed record with the given result.
pub open spec fn completed_status(result: Seq<char>) -> Seq<char> {
    if result == "succeeded"@ || result == "succeededWithIssues"@ || result
        == "partiallySucceeded"@ {
        "success"@
    } else if result == "failed"@ {
        "failed"@
    } else if result == "canceled"@ || result == "abandoned"@ {
        "canceled"@
    } else if result == "skipped"@ {
        "skipped"@
    } else {
        "unknown"@
    }
}

/// Azure's (state, result) pair in the canonical status vocabulary; a
/// missing field reads as empty.
pub open spec fn azure_status(state: Option<Seq<char>>, result: Option<Seq<char>>) -> Seq<char> {
    let s = or_empty(state);
    if s == "inProgress"@ {
        "running"@
    } else if s == "cancelling"@ {
        "canceling"@
    } else if s == "pending"@ || s == "notStarted"@ || s == "postponed"@ || s == "none"@ {
        "pending"@
    } else if s == "completed"@ {
        completed_status(or_empty(result))
    } else {
        "unknown"@
    }
}

/// A completed Azure record is reported by its result: every kind of success
/// (including succeeded with warnings and partly succeeded) is "success", a
/// failure "failed", a cancellation or abandonment "canceled", a skip
/// "skipped"; a record still in progress is "running" whatever its result.
pub proof fn law_completed_results(r: Seq<char>)
    ensures
        r == "succeeded"@ || r == "succeededWithIssues"@ || r == "partiallySucceeded"@
            ==> azure_status(Some("completed"@), Some(r)) == "success"@,
        r == "failed"@ ==> azure_status(Some("completed"@), Some(r)) == "failed"@,
        r == "canceled"@ || r == "abandoned"@ ==> azure_status(Some("completed"@), Some(r)) == "canceled"@,
        r == "skipped"@ ==> azure_status(Some("completed"@), Some(r)) == "skipped"@,
        azure_status(Some("inProgress"@), Some(r)) == "running"@,
{
    reveal_strlit("completed");
    reveal_strlit("inProgress");
    reveal_strlit("cancelling");
    reveal_strlit("pending");
    reveal_strlit("notStarted");
    reveal_strlit("postponed");
    reveal_strlit("none");
    reveal_strlit("succeeded");
    reveal_strlit("succeededWithIssues");
    reveal_strlit("partiallySucceeded");
    reveal_strlit("failed");
    reveal_strlit("canceled");
    reveal_strlit("abandoned");
    reveal_strlit("skipped");
    reveal_strlit("success");
    reveal_strlit("running");
    reveal_strlit("unknown");
    assert("completed"@.len() == 9 && "completed"@[0] == 'c' && "completed"@[1] == 'o');
    assert("inProgress"@.len() == 10);
    assert("cancelling"@.len() == 10);
    assert("pending"@.len() == 7);
    assert("notStarted"@.len() == 10);
    assert("postponed"@.len() == 9 && "postponed"@[0] == 'p');
    assert("none"@.len() == 4);
    assert("succeeded"@.len() == 9);
    assert("succeededWithIssues"@.len() == 19);
    assert("partiallySucceeded"@.len() == 18);
    assert("failed"@.len() == 6);
    assert("canceled"@.len() == 8);
    assert("abandoned"@.len() == 9 && "abandoned"@[0] == 'a');
    assert("skipped"@.len() == 7 && "skipped"@[0] == 's');
}

fn completed_status_of(result: &str) -> (res: String)
    ensures
        res@ == completed_status(result@),
{
    if str_eq(result, "succeeded") || str_eq(result, "succeededWithIssues") || str_eq(
        result,
        "partiallySucceeded",
    ) {
        String::from_str("success")
    } else if str_eq(result, "failed") {
        String::from_str("failed")
    } else if str_eq(result, "canceled") || str_eq(result, "abandoned") {
        String::from_str("canceled")
    } else if str_eq(result, "skipped") {
        String::from_str("skipped")
    } else {
        String::from_str("unknown")
    }
}

/// Converts Azure's (state, result) pair into the canonical status.
/// Succeeded-with-warnings counts as success.
pub fn normalize(state: Option<&str>, result: Option<&str>) -> (res: String)
    ensures
        res@ == azure_status(str_opt(state), str_opt(result)),
{
    let s: &str = match state {
        Some(s) => s,
        None => "",
    };
    proof {
        reveal_strlit("");
    }
    assert(s@ == or_empty(str_opt(state)));
    if str_eq(s, "inProgress") {
        String::from_str("running")
    } else if str_eq(s, "cancelling") {
        String::from_str("canceling")
    } else if str_eq(s, "pending") || str_eq(s, "notStarted") || str_eq(s, "postponed") || str_eq(
        s,
        "none",
    ) {
        String::from_str("pending")
    } else if str_eq(s, "completed") {
        let r: &str = match result {
            Some(r) => r,
            None => "",
        };
        assert(r@ == or_empty(str_opt(result)));
        completed_status_of(r)
    } else {
        String::from_str("unknown")
    }
}

pub(crate) fn as_str_opt(o: &Option<String>) -> (res: Option<&str>)
    ensures
        str_opt(res) == opt_view(*o),
{
    match o {
        Some(s) => Some(s.as_str()),
        None => None,
    }
}

// ------------------------------------------------------------ ids --

/// "refs/heads/main" -> "main"
pub fn short_ref(full: &str) -> (res: String)
    ensures
        res@ == strip_prefixes(full@, "refs/heads/"@),
{
    strip_prefixes_of(full, "refs/heads/")
}

/// The part of an id before its first '/'.
pub open spec fn id_head(id: Seq<char>) -> Seq<char> {
    id.take(find_char(id, '/'))
}

/// The part of an id after its first '/', if it has one.
pub open spec fn id_tail(id: Seq<char>) -> Option<Seq<char>> {
    if find_char(id, '/') < id.len() {
        Some(id.skip(find_char(id, '/') + 1))
    } else {
        None
    }
}

pub open spec fn bad_id_message(id: Seq<char>) -> Seq<char> {
    "Azure id must be \"Project\" or \"Project/DefinitionId\", got: "@ + id
}

/// Reading a "Project" or "Project/DefinitionId" id.
pub open spec fn parse_id_spec(id: Seq<char>) -> Result<(Seq<char>, Option<u64>), Seq<char>> {
    let project = trimmed(id_head(id));
    if project.len() == 0 {
        Err("Azure project id cannot be empty"@)
    } else {
        match id_tail(id) {
            None => Ok((project, None)),
            Some(raw) => match parse_u64_spec(trimmed(raw)) {
                Some(d) => Ok((project, Some(d))),
                None => Err(bad_id_message(id)),
            },
        }
    }
}

/// Parses a "Project" or "Project/DefinitionId" id.
pub fn parse_id(id: &str) -> (res: Result<(String, Option<u64>), String>)
    ensures
        match (res, parse_id_spec(id@)) {
            (Ok((p, d)), Ok((q, e))) => p@ == q && d == e,
            (Err(m), Err(n)) => m@ == n,
            _ => false,
        },
{
    let v = chars_of(id);
    let k = index_of_from(&v, 0, '/');
    proof {
        assert(v@.skip(0) =~= v@);
    }
    let head = slice_string(id, 0, k);
    let project = trim(head.as_str());
    if project.as_str().is_empty() {
        return Err(String::from_str("Azure project id cannot be empty"));
    }
    if k == v.len() {
        return Ok((project, None));
    }
    let raw = slice_string(id, k + 1, v.len());
    proof {
        assert(id@.subrange(k + 1, id@.len() as int) =~= id@.skip(k + 1));
    }
    let cleaned = trim(raw.as_str());
    match parse_u64(cleaned.as_str()) {
        Some(d) => Ok((project, Some(d))),
        None => {
            let mut m = String::from_str(
                "Azure id must be \"Project\" or \"Project/DefinitionId\", got: ",
            );
            m.append(id);
            Err(m)
        },
    }
}

// ------------------------------------------------------------ timeline --

pub struct LogRef {
    pub id: u64,
}

/// One record of a build's timeline.
pub struct Record {
    pub id: String,
    pub parent_id: Option<String>,
    /// "Stage", "Phase", "Job", "Task", ...
    pub kind: String,
    pub name: String,
    pub state: Option<String>,
    pub result: Option<String>,
    pub order: Option<u64>,
    pub log: Option<LogRef>,
    pub start_time: Option<String>,
    pub finish_time: Option<String>,
}

pub open spec fn is_stage(r: Record) -> bool {
    r.kind@ == "Stage"@
}

pub open spec fn is_job(r: Record) -> bool {
    r.kind@ == "Job"@
}

/// Records are ordered by their `order` field; those without one go last.
pub open spec fn order_key(r: Record) -> u64 {
    match r.order {
        Some(o) => o,
        None => u64::MAX,
    }
}

/// Each record's rank: its order key, then its position (the sort is stable).
pub open spec fn record_ranks(rs: Seq<Record>) -> Seq<(u64, usize)> {
    Seq::new(rs.len(), |i: int| (order_key(rs[i]), i as usize))
}

pub open spec fn rank_at(rs: Seq<Record>, i: int) -> (u64, int) {
    (order_key(rs[i]), i)
}

/// The last record with the given id: the one a lookup by id finds.
pub open spec fn last_with_id(rs: Seq<Record>, id: Seq<char>) -> Option<int>
    decreases rs.len(),
{
    if rs.len() == 0 {
        None
    } else if rs.last().id@ == id {
        Some(rs.len() - 1)
    } else {
        last_with_id(rs.drop_last(), id)
    }
}

/// The nearest Stage ancestor of record `i`, following at most `fuel`
/// parent links.
pub open spec fn climb(rs: Seq<Record>, i: int, fuel: nat) -> Option<int>
    decreases fuel,
{
    if fuel == 0 || !(0 <= i < rs.len()) {
        None
    } else {
        match rs[i].parent_id {
            None => None,
            Some(p) => match last_with_id(rs, p@) {
                None => None,
                Some(k) => if is_stage(rs[k]) {
                    Some(k)
                } else {
                    climb(rs, k, (fuel - 1) as nat)
                },
            },
        }
    }
}

/// The Stage a record belongs to: its nearest Stage ancestor within eight
/// parent links.
pub open spec fn stage_of(rs: Seq<Record>, i: int) -> Option<int> {
    climb(rs, i, 8)
}

/// Whether no Stage record with the same id ranks before Stage `s`: jobs
/// filed under an id go to the first such stage shown.
pub open spec fn first_holder(rs: Seq<Record>, s: int) -> bool {
    forall|i: int|
        0 <= i < rs.len() && is_stage(#[trigger] rs[i]) && rs[i].id@ == rs[s].id@ ==> !rank_lt(
            rank_at(rs, i),
            rank_at(rs, s),
        )
}

/// Whether Job record `j` is shown under Stage record `s`.
pub open spec fn job_of_stage(rs: Seq<Record>, s: int, j: int) -> bool {
    &&& is_job(rs[j])
    &&& first_holder(rs, s)
    &&& stage_of(rs, j) matches Some(k) && rs[k].id@ == rs[s].id@
}

/// A Job record with no Stage ancestor.
pub open spec fn is_orphan(rs: Seq<Record>, j: int) -> bool {
    is_job(rs[j]) && stage_of(rs, j) is None
}

pub open spec fn has_orphans(rs: Seq<Record>) -> bool {
    exists|j: int| 0 <= j < rs.len() && #[trigger] is_orphan(rs, j)
}

/// `idx` lists, in rank order, exactly the Stage records.
pub open spec fn stage_order(rs: Seq<Record>, idx: Seq<usize>) -> bool {
    &&& sorted_by(idx, record_ranks(rs))
    &&& forall|x: usize| #[trigger] idx.contains(x) <==> ((x as int) < rs.len() && is_stage(rs[x as int]))
}

/// `idx` lists, in rank order, exactly the Job records shown under Stage `s`.
pub open spec fn stage_jobs_order(rs: Seq<Record>, s: int, idx: Seq<usize>) -> bool {
    &&& sorted_by(idx, record_ranks(rs))
    &&& forall|x: usize| #[trigger] idx.contains(x) <==> ((x as int) < rs.len() && job_of_stage(rs, s, x as int))
}

/// `idx` lists, in rank order, exactly the Job records without a Stage.
pub open spec fn orphan_order(rs: Seq<Record>, idx: Seq<usize>) -> bool {
    &&& sorted_by(idx, record_ranks(rs))
    &&& forall|x: usize| #[trigger] idx.contains(x) <==> ((x as int) < rs.len() && is_orphan(rs, x as int))
}

/// The row shown for a Job record under the stage named `stage`.
pub open spec fn job_entry(r: Record, stage: Seq<char>) -> JobInfoView {
    JobInfoView {
        id: match r.log {
            Some(l) => l.id,
            None => 0,
        },
        name: r.name@,
        stage: stage,
        status: azure_status(opt_view(r.state), opt_view(r.result)),
        allow_failure: false,
        duration: span_spec(opt_view(r.start_time), opt_view(r.finish_time)),
        web_url: Seq::empty(),
        finished_at: opt_view(r.finish_time),
        downstream: None,
    }
}

pub open spec fn entries(rs: Seq<Record>, idx: Seq<usize>, stage: Seq<char>) -> Seq<JobInfoView> {
    idx.map_values(|i: usize| job_entry(rs[i as int], stage))
}

/// The stage shown for Stage record `s`: its own name and status, and its
/// jobs in rank order.
pub open spec fn stage_entry_ok(rs: Seq<Record>, s: int, st: StageInfoView) -> bool {
    &&& st.name == rs[s].name@
    &&& st.status == azure_status(opt_view(rs[s].state), opt_view(rs[s].result))
    &&& exists|idx: Seq<usize>|
        #[trigger] stage_jobs_order(rs, s, idx) && st.jobs == entries(rs, idx, rs[s].name@)
}

/// The "(pipeline)" group: the jobs without a Stage, in rank order, with
/// their summary status.
pub open spec fn orphan_entry_ok(rs: Seq<Record>, st: StageInfoView) -> bool {
    &&& st.name == "(pipeline)"@
    &&& exists|idx: Seq<usize>| #[trigger] orphan_order(rs, idx) && st.jobs == entries(rs, idx, "(pipeline)"@)
    &&& st.status == aggregate_spec(row_items(st.jobs))
}

/// The stage list built from a timeline: one stage per Stage record in
/// rank order, then, if some jobs have no Stage, the "(pipeline)" group.
pub open spec fn timeline_ok(rs: Seq<Record>, out: Seq<StageInfoView>) -> bool {
    exists|sidx: Seq<usize>|
        {
            &&& #[trigger] stage_order(rs, sidx)
            &&& out.len() == sidx.len() + if has_orphans(rs) {
                1int
            } else {
                0int
            }
            &&& forall|t: int|
                0 <= t < sidx.len() ==> stage_entry_ok(rs, sidx[t] as int, #[trigger] out[t])
            &&& has_orphans(rs) ==> orphan_entry_ok(rs, out[sidx.len() as int])
        }
}

fn is_stage_rec(r: &Record) -> (res: bool)
    ensures
        res == is_stage(*r),
{
    str_eq(r.kind.as_str(), "Stage")
}

fn is_job_rec(r: &Record) -> (res: bool)
    ensures
        res == is_job(*r),
{
    str_eq(r.kind.as_str(), "Job")
}

fn order_key_of(r: &Record) -> (res: u64)
    ensures
        res == order_key(*r),
{
    match r.order {
        Some(o) => o,
        None => u64::MAX,
    }
}

proof fn lemma_take_step(rs: Seq<Record>, i: int)
    requires
        0 < i <= rs.len(),
    ensures
        rs.take(i).drop_last() == rs.take(i - 1),
        rs.take(i).last() == rs[i - 1],
{
    assert(rs.take(i).drop_last() =~= rs.take(i - 1));
}

proof fn lemma_last_with_id_bound(rs: Seq<Record>, id: Seq<char>)
    ensures
        last_with_id(rs, id) matches Some(k) ==> 0 <= k < rs.len() && rs[k].id@ == id,
    decreases rs.len(),
{
    if rs.len() > 0 && rs.last().id@ != id {
        lemma_last_with_id_bound(rs.drop_last(), id);
    }
}

/// The last record with id `id`.
fn find_last_id(rs: &[Record], id: &str) -> (res: Option<usize>)
    ensures
        match res {
            Some(k) => last_with_id(rs@, id@) == Some(k as int),
            None => last_with_id(rs@, id@) is None,
        },
{
    let mut i: usize = rs.len();
    proof {
        assert(rs@.take(rs@.len() as int) =~= rs@);
    }
    while i > 0
        invariant
            i <= rs@.len(),
            last_with_id(rs@, id@) == last_with_id(rs@.take(i as int), id@),
        decreases i,
    {
        proof {
            lemma_take_step(rs@, i as int);
        }
        if str_eq(rs[i - 1].id.as_str(), id) {
            return Some(i - 1);
        }
        i -= 1;
    }
    None
}

/// The nearest Stage ancestor of record `i`.
fn stage_of_exec(rs: &[Record], i: usize) -> (res: Option<usize>)
    requires
        i < rs@.len(),
    ensures
        match res {
            Some(k) => stage_of(rs@, i as int) == Some(k as int),
            None => stage_of(rs@, i as int) is None,
        },
{
    let mut cur: usize = i;
    let mut n: usize = 0;
    while n < 8
        invariant
            n <= 8,
            cur < rs@.len(),
            stage_of(rs@, i as int) == climb(rs@, cur as int, (8 - n) as nat),
        decreases 8 - n,
    {
        match &rs[cur].parent_id {
            None => {
                return None;
            },
            Some(p) => {
                proof {
                    lemma_last_with_id_bound(rs@, p@);
                }
                match find_last_id(rs, p.as_str()) {
                    None => {
                        return None;
                    },
                    Some(k) => {
                        if is_stage_rec(&rs[k]) {
                            return Some(k);
                        }
                        cur = k;
                    },
                }
            },
        }
        n += 1;
    }
    None
}

fn record_ranks_of(rs: &[Record]) -> (res: Vec<(u64, usize)>)
    ensures
        res@ == record_ranks(rs@),
{
    let mut v: Vec<(u64, usize)> = Vec::new();
    for i in 0..rs.len()
        invariant
            v@.len() == i,
            forall|k: int| 0 <= k < i ==> #[trigger] v@[k] == (order_key(rs@[k]), k as usize),
    {
        v.push((order_key_of(&rs[i]), i));
    }
    assert(v@ =~= record_ranks(rs@));
    v
}

/// The marked positions, in rank order.
fn sort_members(ranks: &Vec<(u64, usize)>, mask: &Vec<bool>) -> (res: Vec<usize>)
    requires
        ranks@.len() == mask@.len(),
        forall|i: int| 0 <= i < ranks@.len() ==> (#[trigger] ranks@[i]).1 == i,
    ensures
        sorted_by(res@, ranks@),
        forall|x: usize| #[trigger] res@.contains(x) <==> ((x as int) < mask@.len() && mask@[x as int]),
{
    let mut out: Vec<usize> = Vec::new();
    for k in 0..mask.len()
        invariant
            ranks@.len() == mask@.len(),
            forall|i: int| 0 <= i < ranks@.len() ==> (#[trigger] ranks@[i]).1 == i,
            sorted_by(out@, ranks@),
            forall|x: usize| #[trigger] out@.contains(x) <==> ((x as int) < k && mask@[x as int]),
    {
        if mask[k] {
            proof {
                assert forall|i: int| 0 <= i < out@.len() implies rank_of(ranks@[#[trigger] out@[i] as int]) != rank_of(ranks@[k as int]) by {
                    let x = out@[i];
                    assert(out@.contains(x));
                    assert(ranks@[x as int].1 == x);
                    assert(ranks@[k as int].1 == k);
                }
            }
            insert_sorted(&mut out, k, ranks);
        }
    }
    out
}

/// Whether no Stage record with the same id ranks before Stage `s`.
fn first_holder_exec(rs: &[Record], s: usize) -> (res: bool)
    requires
        s < rs@.len(),
    ensures
        res == first_holder(rs@, s as int),
{
    let ks = order_key_of(&rs[s]);
    for i in 0..rs.len()
        invariant
            s < rs@.len(),
            ks == order_key(rs@[s as int]),
            forall|k: int|
                0 <= k < i && is_stage(#[trigger] rs@[k]) && rs@[k].id@ == rs@[s as int].id@ ==> !rank_lt(
                    rank_at(rs@, k),
                    rank_at(rs@, s as int),
                ),
    {
        if is_stage_rec(&rs[i]) && str_eq(rs[i].id.as_str(), rs[s].id.as_str()) && rank_less(
            (order_key_of(&rs[i]), i),
            (ks, s),
        ) {
            return false;
        }
    }
    true
}

fn log_id(r: &Record) -> (res: u64)
    ensures
        res == (match r.log {
            Some(l) => l.id,
            None => 0,
        }),
{
    match &r.log {
        Some(l) => l.id,
        None => 0,
    }
}

/// The row shown for Job record `r` under the stage named `stage`.
fn job_entry_of(r: &Record, stage: &str) -> (res: JobInfo)
    ensures
        res@ == job_entry(*r, stage@),
{
    JobInfo {
        id: log_id(r),
        name: r.name.clone(),
        stage: String::from_str(stage),
        status: normalize(as_str_opt(&r.state), as_str_opt(&r.result)),
        allow_failure: false,
        duration: secs_between(as_str_opt(&r.start_time), as_str_opt(&r.finish_time)),
        web_url: String::new(),
        finished_at: clone_opt_string(&r.finish_time),
        downstream: None,
    }
}

fn entries_of(rs: &[Record], idx: &Vec<usize>, stage: &str) -> (res: Vec<JobInfo>)
    requires
        forall|i: int| 0 <= i < idx@.len() ==> (#[trigger] idx@[i] as int) < rs@.len(),
    ensures
        jobs_view(res@) == entries(rs@, idx@, stage@),
{
    let mut out: Vec<JobInfo> = Vec::new();
    for t in 0..idx.len()
        invariant
            forall|i: int| 0 <= i < idx@.len() ==> (#[trigger] idx@[i] as int) < rs@.len(),
            out@.len() == t,
            forall|k: int| 0 <= k < t ==> (#[trigger] out@[k])@ == job_entry(rs@[idx@[k] as int], stage@),
    {
        out.push(job_entry_of(&rs[idx[t]], stage));
    }
    proof {
        lemma_jobs_view(out@);
        assert(jobs_view(out@) =~= entries(rs@, idx@, stage@));
    }
    out
}

/// Builds the stage list from timeline records. Job records go to their
/// nearest Stage ancestor (Job -> Phase -> Stage); stages and the jobs in
/// each come in the order of their `order` field. On older single-stage
/// pipelines with no Stage record, the jobs fall under "(pipeline)".
pub fn stages_from_timeline(records: &[Record]) -> (res: Vec<StageInfo>)
    ensures
        timeline_ok(records@, stages_view(res@)),
{
    let rs = records;
    let ranks = record_ranks_of(rs);
    let mut anc: Vec<Option<usize>> = Vec::new();
    let mut stage_mask: Vec<bool> = Vec::new();
    for j in 0..rs.len()
        invariant
            anc@.len() == j,
            stage_mask@.len() == j,
            forall|k: int| 0 <= k < j ==> match #[trigger] anc@[k] {
                Some(a) => stage_of(rs@, k) == Some(a as int),
                None => stage_of(rs@, k) is None,
            },
            forall|k: int| 0 <= k < j ==> #[trigger] stage_mask@[k] == is_stage(rs@[k]),
    {
        anc.push(stage_of_exec(rs, j));
        stage_mask.push(is_stage_rec(&rs[j]));
    }
    let sidx = sort_members(&ranks, &stage_mask);
    proof {
        assert(stage_order(rs@, sidx@));
    }
    let mut out: Vec<StageInfo> = Vec::new();
    for t in 0..sidx.len()
        invariant
            ranks@ == record_ranks(rs@),
            anc@.len() == rs@.len(),
            forall|k: int| 0 <= k < rs@.len() ==> match #[trigger] anc@[k] {
                Some(a) => stage_of(rs@, k) == Some(a as int),
                None => stage_of(rs@, k) is None,
            },
            stage_order(rs@, sidx@),
            out@.len() == t,
            forall|u: int| 0 <= u < t ==> stage_entry_ok(rs@, sidx@[u] as int, stage_view(#[trigger] out@[u])),
    {
        let s = sidx[t];
        proof {
            assert(sidx@.contains(s));
        }
        let holder = first_holder_exec(rs, s);
        let mut mask: Vec<bool> = Vec::new();
        for j in 0..rs.len()
            invariant
                s < rs@.len(),
                holder == first_holder(rs@, s as int),
                anc@.len() == rs@.len(),
                forall|k: int| 0 <= k < rs@.len() ==> match #[trigger] anc@[k] {
                    Some(a) => stage_of(rs@, k) == Some(a as int),
                    None => stage_of(rs@, k) is None,
                },
                mask@.len() == j,
                forall|k: int| 0 <= k < j ==> #[trigger] mask@[k] == job_of_stage(rs@, s as int, k),
        {
            let member = match anc[j] {
                Some(a) => {
                    proof {
                        lemma_climb_bound(rs@, j as int, 8);
                    }
                    holder && is_job_rec(&rs[j]) && str_eq(rs[a].id.as_str(), rs[s].id.as_str())
                },
                None => false,
            };
            mask.push(member);
        }
        let idx = sort_members(&ranks, &mask);
        proof {
            assert(stage_jobs_order(rs@, s as int, idx@));
            assert forall|i: int| 0 <= i < idx@.len() implies (#[trigger] idx@[i] as int) < rs@.len() by {
                assert(idx@.contains(idx@[i]));
            }
        }
        let rec = &rs[s];
        let jobs = entries_of(rs, &idx, rec.name.as_str());
        let status = normalize(as_str_opt(&rec.state), as_str_opt(&rec.result));
        let st = StageInfo { name: rec.name.clone(), status, jobs };
        proof {
            assert(stage_view(st).jobs == jobs_view(st.jobs@));
            assert(stage_entry_ok(rs@, s as int, stage_view(st)));
        }
        out.push(st);
    }
    let mut omask: Vec<bool> = Vec::new();
    for j in 0..rs.len()
        invariant
            anc@.len() == rs@.len(),
            forall|k: int| 0 <= k < rs@.len() ==> match #[trigger] anc@[k] {
                Some(a) => stage_of(rs@, k) == Some(a as int),
                None => stage_of(rs@, k) is None,
            },
            omask@.len() == j,
            forall|k: int| 0 <= k < j ==> #[trigger] omask@[k] == is_orphan(rs@, k),
    {
        let member = anc[j].is_none() && is_job_rec(&rs[j]);
        omask.push(member);
    }
    let oidx = sort_members(&ranks, &omask);
    let ghost before = out@;
    if oidx.len() > 0 {
        proof {
            assert(oidx@.contains(oidx@[0]));
            assert(is_orphan(rs@, oidx@[0] as int));
            assert forall|i: int| 0 <= i < oidx@.len() implies (#[trigger] oidx@[i] as int) < rs@.len() by {
                assert(oidx@.contains(oidx@[i]));
            }
        }
        let jobs = entries_of(rs, &oidx, "(pipeline)");
        let status = rows_status(&jobs);
        let st = StageInfo { name: String::from_str("(pipeline)"), status, jobs };
        proof {
            assert(orphan_order(rs@, oidx@));
            assert(orphan_entry_ok(rs@, stage_view(st)));
        }
        out.push(st);
    } else {
        proof {
            assert forall|j: int| 0 <= j < rs@.len() implies !is_orphan(rs@, j) by {
                if is_orphan(rs@, j) {
                    assert(oidx@.contains(j as usize));
                }
            }
        }
    }
    proof {
        lemma_stages_view(out@);
        let v = stages_view(out@);
        assert forall|t: int| 0 <= t < sidx@.len() implies stage_entry_ok(rs@, sidx@[t] as int, #[trigger] v[t]) by {
            assert(out@[t] == before[t]);
        }
        assert(timeline_ok(rs@, v));
    }
    out
}

proof fn lemma_climb_bound(rs: Seq<Record>, i: int, fuel: nat)
    ensures
        climb(rs, i, fuel) matches Some(k) ==> 0 <= k < rs.len() && is_stage(rs[k]),
    decreases fuel,
{
    if fuel > 0 && 0 <= i < rs.len() {
        if let Some(p) = rs[i].parent_id {
            lemma_last_with_id_bound(rs, p@);
            if let Some(k) = last_with_id(rs, p@) {
                if !is_stage(rs[k]) {
                    lemma_climb_bound(rs, k, (fuel - 1) as nat);
                }
            }
        }
    }
}

// ------------------------------------------------------------ client --

/// An organization's endpoint and the personal access token used with it.
pub struct Azure {
    org: String,
    token: String,
}

pub struct AuthUser {
    pub provider_display_name: Option<String>,
    pub custom_display_name: Option<String>,
}

pub struct IdentityRef {
    pub display_name: Option<String>,
}

pub struct DefinitionRef {
    pub name: Option<String>,
}

pub struct Href {
    pub href: Option<String>,
}

pub struct Links {
    pub web: Option<Href>,
}

pub struct ApiBuild {
    pub id: u64,
    pub status: Option<String>,
    pub result: Option<String>,
    pub source_branch: Option<String>,
    pub source_version: Option<String>,
    pub queue_time: Option<String>,
    pub start_time: Option<String>,
    pub finish_time: Option<String>,
    pub requested_for: Option<IdentityRef>,
    pub definition: Option<DefinitionRef>,
    pub reason: Option<String>,
    pub links: Option<Links>,
}

pub struct PrRepo {
    pub name: Option<String>,
}

pub struct ApiPr {
    pub pull_request_id: u64,
    pub title: String,
    pub created_by: Option<IdentityRef>,
    pub source_ref_name: Option<String>,
    pub target_ref_name: Option<String>,
    pub creation_date: Option<String>,
    pub is_draft: bool,
    pub repository: Option<PrRepo>,
}

/// The name shown for the signed-in user: the custom display name, else
/// the provider's display name, else "(unnamed)".
pub open spec fn auth_user_name(u: Option<AuthUser>) -> Seq<char> {
    match u {
        Some(a) => match a.custom_display_name {
            Some(n) => n@,
            None => match a.provider_display_name {
                Some(n) => n@,
                None => "(unnamed)"@,
            },
        },
        None => "(unnamed)"@,
    }
}

pub fn current_user_name(u: Option<AuthUser>) -> (res: String)
    ensures
        res@ == auth_user_name(u),
{
    match u {
        Some(a) => match a.custom_display_name {
            Some(n) => n,
            None => match a.provider_display_name {
                Some(n) => n,
                None => String::from_str("(unnamed)"),
            },
        },
        None => String::from_str("(unnamed)"),
    }
}

pub open spec fn short_ref_or(o: Option<Seq<char>>, fallback: Seq<char>) -> Seq<char> {
    match o {
        Some(r) => strip_prefixes(r, "refs/heads/"@),
        None => fallback,
    }
}

fn short_ref_or_exec(o: &Option<String>, fallback: &str) -> (res: String)
    ensures
        res@ == short_ref_or(opt_view(*o), fallback@),
{
    match o {
        Some(r) => short_ref(r.as_str()),
        None => String::from_str(fallback),
    }
}

/// A project name as a path segment: percent-encoded in full.
pub fn encode_project(project: &str) -> (res: String)
    ensures
        res@ == url_encoded(project@),
{
    url_encode(project)
}

impl Azure {
    pub closed spec fn spec_org(&self) -> Seq<char> {
        self.org@
    }

    pub closed spec fn spec_token(&self) -> Seq<char> {
        self.token@
    }

    pub fn new(org: String, token: String) -> (res: Self)
        ensures
            res.spec_org() == drop_back(org@, CharClass::Only('/')),
            res.spec_token() == token@,
    {
        Azure { org: trim_end_char(org.as_str(), '/'), token }
    }

    pub fn org(&self) -> (res: &str)
        ensures
            res@ == self.spec_org(),
    {
        self.org.as_str()
    }

    /// The token, as sent (encoded) in the `Authorization` header.
    pub fn token(&self) -> (res: &str)
        ensures
            res@ == self.spec_token(),
    {
        self.token.as_str()
    }

    /// The `Authorization` header: a PAT goes over Basic auth with an empty
    /// user name.
    pub fn auth(&self) -> (res: String)
        requires
            base64_size_fits(encode_utf8(":"@ + self.spec_token()).len() as int),
        ensures
            res@ == "Basic "@ + base64_standard(encode_utf8(":"@ + self.spec_token())),
    {
        let mut plain = String::from_str(":");
        plain.append(self.token.as_str());
        proof {
            reveal_strlit(":");
        }
        let encoded = base64_encode(plain.as_str());
        let mut out = String::from_str("Basic ");
        out.append(encoded.as_str());
        out
    }

    /// `{org}/{project}` with the project already encoded.
    pub open spec fn project_root(&self, project_enc: Seq<char>) -> Seq<char> {
        self.spec_org() + "/"@ + project_enc
    }

    fn root(&self, project_enc: &str) -> (res: String)
        ensures
            res@ == self.project_root(project_enc@),
    {
        let mut out = self.org.clone();
        out.append("/");
        out.append(project_enc);
        out
    }

    pub fn connection_data_url(&self) -> (res: String)
        ensures
            res@ == self.spec_org() + "/_apis/connectionData?api-version=7.1-preview.1"@,
    {
        let mut out = self.org.clone();
        out.append("/_apis/connectionData?");
        // `_apis/connectionData` is still in preview at 7.1 and refuses the
        // plain version string.
        out.append("api-version=7.1-preview.1");
        proof {
            reveal_strlit("/_apis/connectionData?");
            reveal_strlit("api-version=7.1-preview.1");
            reveal_strlit("/_apis/connectionData?api-version=7.1-preview.1");
            assert(out@ =~= self.spec_org() + "/_apis/connectionData?api-version=7.1-preview.1"@);
        }
        out
    }

    /// The most recent build, of the given definition and branch where they
    /// are given.
    pub fn builds_url(&self, project_enc: &str, definition: Option<u64>, git_ref: Option<&str>) -> (res: String)
        ensures
            res@ == self.project_root(project_enc@)
                + "/_apis/build/builds?$top=1&queryOrder=queueTimeDescending&api-version=7.1"@
                + match definition {
                Some(d) => "&definitions="@ + decimal(d as nat),
                None => Seq::empty(),
            } + match git_ref {
                Some(r) => "&branchName=refs/heads/"@ + url_encoded(r@),
                None => Seq::empty(),
            },
    {
        let mut out = self.root(project_enc);
        out.append("/_apis/build/builds?$top=1&queryOrder=queueTimeDescending&");
        out.append("api-version=7.1");
        proof {
            reveal_strlit("/_apis/build/builds?$top=1&queryOrder=queueTimeDescending&");
            reveal_strlit("api-version=7.1");
            reveal_strlit("/_apis/build/builds?$top=1&queryOrder=queueTimeDescending&api-version=7.1");
            assert(out@ =~= self.project_root(project_enc@)
                + "/_apis/build/builds?$top=1&queryOrder=queueTimeDescending&api-version=7.1"@);
        }
        let ghost base = out@;
        match definition {
            Some(d) => {
                out.append("&definitions=");
                let n = decimal_string(d);
                out.append(n.as_str());
            },
            None => {},
        }
        let ghost mid = out@;
        match git_ref {
            Some(r) => {
                out.append("&branchName=refs/heads/");
                let e = url_encode(r);
                out.append(e.as_str());
            },
            None => {},
        }
        proof {
            let d: Seq<char> = match definition {
                Some(d) => "&definitions="@ + decimal(d as nat),
                None => Seq::empty(),
            };
            let g: Seq<char> = match git_ref {
                Some(r) => "&branchName=refs/heads/"@ + url_encoded(r@),
                None => Seq::empty(),
            };
            assert(mid =~= base + d);
            assert(out@ =~= mid + g);
        }
        out
    }

    pub fn timeline_url(&self, project_enc: &str, build_id: u64) -> (res: String)
        ensures
            res@ == self.project_root(project_enc@) + "/_apis/build/builds/"@ + decimal(
                build_id as nat,
            ) + "/timeline?api-version=7.1"@,
    {
        let mut out = self.root(project_enc);
        out.append("/_apis/build/builds/");
        let n = decimal_string(build_id);
        out.append(n.as_str());
        out.append("/timeline?");
        out.append("api-version=7.1");
        proof {
            reveal_strlit("api-version=7.1");
            reveal_strlit("/timeline?");
            reveal_strlit("/timeline?api-version=7.1");
        }
        out
    }

    pub fn pull_requests_url(&self, project_enc: &str) -> (res: String)
        ensures
            res@ == self.project_root(project_enc@)
                + "/_apis/git/pullrequests?searchCriteria.status=active&$top=20&api-version=7.1"@,
    {
        let mut out = self.root(project_enc);
        out.append("/_apis/git/pullrequests?searchCriteria.status=active&$top=");
        let n = decimal_string(PR_TOP);
        out.append(n.as_str());
        out.append("&");
        out.append("api-version=7.1");
        proof {
            reveal_strlit("api-version=7.1");
            reveal_strlit("&");
            reveal_strlit("/_apis/git/pullrequests?searchCriteria.status=active&$top=");
            reveal_strlit("/_apis/git/pullrequests?searchCriteria.status=active&$top=20&api-version=7.1");
            assert(decimal(20) =~= seq!['2', '0']) by {
                reveal_with_fuel(decimal, 2);
            }
        }
        out
    }

    /// The stages of a build as the app shows it.
    pub fn pipeline_of(
        &self,
        id: &str,
        project: &str,
        project_enc: &str,
        build: ApiBuild,
        stages: Vec<StageInfo>,
    ) -> (res: PipelineInfo)
        ensures
            res@ == (PipelineInfoView {
                project_id: id@,
                project_name: project@ + " / "@ + match build.definition {
                    Some(d) => match d.name {
                        Some(n) => n@,
                        None => project@,
                    },
                    None => project@,
                },
                project_url: self.project_root(project_enc@),
                id: build.id,
                git_ref: short_ref_or(opt_view(build.source_branch), "-"@),
                sha: or_empty(opt_view(build.source_version)),
                status: azure_status(opt_view(build.status), opt_view(build.result)),
                source: opt_view(build.reason),
                web_url: match build.links {
                    Some(l) => match l.web {
                        Some(w) => match w.href {
                            Some(h) => h@,
                            None => self.project_root(project_enc@),
                        },
                        None => self.project_root(project_enc@),
                    },
                    None => self.project_root(project_enc@),
                },
                created_at: opt_view(build.queue_time),
                duration: span_spec(opt_view(build.start_time), opt_view(build.finish_time)),
                triggered_by: match build.requested_for {
                    Some(u) => opt_view(u.display_name),
                    None => None,
                },
                commit_title: None,
                stages: stages_view(stages@),
            }),
    {
        let definition_name = match &build.definition {
            Some(d) => match &d.name {
                Some(n) => n.clone(),
                None => String::from_str(project),
            },
            None => String::from_str(project),
        };
        let mut project_name = String::from_str(project);
        project_name.append(" / ");
        project_name.append(definition_name.as_str());
        let root = self.root(project_enc);
        let web_url = match &build.links {
            Some(l) => match &l.web {
                Some(w) => match &w.href {
                    Some(h) => h.clone(),
                    None => root.clone(),
                },
                None => root.clone(),
            },
            None => root.clone(),
        };
        let status = normalize(as_str_opt(&build.status), as_str_opt(&build.result));
        let duration = secs_between(as_str_opt(&build.start_time), as_str_opt(&build.finish_time));
        let git_ref = short_ref_or_exec(&build.source_branch, "-");
        let sha = match build.source_version {
            Some(v) => v,
            None => String::new(),
        };
        let triggered_by = match build.requested_for {
            Some(u) => u.display_name,
            None => None,
        };
        PipelineInfo {
            project_id: String::from_str(id),
            project_name,
            project_url: root,
            id: build.id,
            git_ref,
            sha,
            status,
            source: build.reason,
            web_url,
            created_at: build.queue_time,
            duration,
            triggered_by,
            commit_title: None,
            stages,
        }
    }

    /// An open pull request as the app shows it; its page lives under the
    /// repository it belongs to (the project's own where none is given).
    pub fn pull_request_of(&self, project_enc: &str, project: &str, pr: ApiPr) -> (res: MergeRequestInfo)
        ensures
            res@ == (MergeRequestInfoView {
                iid: pr.pull_request_id,
                title: pr.title@,
                author: match pr.created_by {
                    Some(u) => opt_view(u.display_name),
                    None => None,
                },
                source_branch: short_ref_or(opt_view(pr.source_ref_name), Seq::empty()),
                target_branch: short_ref_or(opt_view(pr.target_ref_name), Seq::empty()),
                web_url: self.project_root(project_enc@) + "/_git/"@ + url_encoded(
                    match pr.repository {
                        Some(r) => match r.name {
                            Some(n) => n@,
                            None => project@,
                        },
                        None => project@,
                    },
                ) + "/pullrequest/"@ + decimal(pr.pull_request_id as nat),
                created_at: opt_view(pr.creation_date),
                draft: pr.is_draft,
            }),
    {
        let repo = match &pr.repository {
            Some(r) => match &r.name {
                Some(n) => n.clone(),
                None => String::from_str(project),
            },
            None => String::from_str(project),
        };
        let mut web_url = self.root(project_enc);
        web_url.append("/_git/");
        let enc = url_encode(repo.as_str());
        web_url.append(enc.as_str());
        web_url.append("/pullrequest/");
        let n = decimal_string(pr.pull_request_id);
        web_url.append(n.as_str());
        proof {
            reveal_strlit("");
            assert(""@ =~= Seq::<char>::empty());
        }
        let source_branch = short_ref_or_exec(&pr.source_ref_name, "");
        let target_branch = short_ref_or_exec(&pr.target_ref_name, "");
        let author = match pr.created_by {
            Some(u) => u.display_name,
            None => None,
        };
        MergeRequestInfo {
            iid: pr.pull_request_id,
            title: pr.title,
            author,
            source_branch,
            target_branch,
            web_url,
            created_at: pr.creation_date,
            draft: pr.is_draft,
        }
    }

    /// The build's URL for a retry (`retry=true`) or a cancel request.
    pub fn build_url(&self, id: &str, build_id: u64, retry: bool) -> (res: Result<String, String>)
        ensures
            match (res, parse_id_spec(id@)) {
                (Ok(u), Ok((p, _))) => u@ == self.project_root(url_encoded(p)) + "/_apis/build/builds/"@
                    + decimal(build_id as nat) + if retry {
                    "?retry=true&api-version=7.1"@
                } else {
                    "?api-version=7.1"@
                },
                (Err(m), Err(n)) => m@ == n,
                _ => false,
            },
    {
        let (project, _) = parse_id(id)?;
        let enc = url_encode(project.as_str());
        let mut out = self.root(enc.as_str());
        out.append("/_apis/build/builds/");
        let n = decimal_string(build_id);
        out.append(n.as_str());
        if retry {
            out.append("?retry=true&");
        } else {
            out.append("?");
        }
        out.append("api-version=7.1");
        proof {
            reveal_strlit("api-version=7.1");
            reveal_strlit("?retry=true&");
            reveal_strlit("?");
            reveal_strlit("?retry=true&api-version=7.1");
            reveal_strlit("?api-version=7.1");
        }
        Ok(out)
    }

    /// The URL of a job's log. A job without a log (id 0) has not started.
    pub fn log_url(&self, id: &str, build_id: u64, log_id: u64) -> (res: Result<String, String>)
        ensures
            log_id == 0 ==> (res matches Err(m) && m@ == "No log yet for this job (it may not have started)."@),
            log_id != 0 ==> match (res, parse_id_spec(id@)) {
                (Ok(u), Ok((p, _))) => u@ == self.project_root(url_encoded(p)) + "/_apis/build/builds/"@
                    + decimal(build_id as nat) + "/logs/"@ + decimal(log_id as nat)
                    + "?api-version=7.1"@,
                (Err(m), Err(n)) => m@ == n,
                _ => false,
            },
    {
        if log_id == 0 {
            return Err(String::from_str("No log yet for this job (it may not have started)."));
        }
        let (project, _) = parse_id(id)?;
        let enc = url_encode(project.as_str());
        let mut out = self.root(enc.as_str());
        out.append("/_apis/build/builds/");
        let n = decimal_string(build_id);
        out.append(n.as_str());
        out.append("/logs/");
        let m = decimal_string(log_id);
        out.append(m.as_str());
        out.append("?");
        out.append("api-version=7.1");
        proof {
            reveal_strlit("api-version=7.1");
            reveal_strlit("?");
            reveal_strlit("?api-version=7.1");
        }
        Ok(out)
    }
}

// ------------------------------------------------------------ errors --

/// The hint appended to a refused request's status code.
pub open spec fn error_hint(status: u16) -> Seq<char> {
    if status == 401 {
        " - PAT is invalid or expired"@
    } else if status == 403 {
        " - PAT lacks permission (needs Build read & execute, Code read)"@
    } else if status == 404 {
        " - project/organization doesn't exist or the PAT can't see it"@
    } else {
        Seq::empty()
    }
}

fn error_hint_str(status: u16) -> (s: &'static str)
    ensures
        s@ == error_hint(status),
{
    if status == 401 {
        " - PAT is invalid or expired"
    } else if status == 403 {
        " - PAT lacks permission (needs Build read & execute, Code read)"
    } else if status == 404 {
        " - project/organization doesn't exist or the PAT can't see it"
    } else {
        proof {
            reveal_strlit("");
        }
        ""
    }
}

/// The message for a refused request with the given status and error body.
pub fn api_error(status: u16, body: &str) -> (res: String)
    ensures
        res@ == "Azure DevOps "@ + decimal(status as nat) + error_hint(status) + ": "@
            + message_detail(body@),
{
    let mut message = String::from_str("Azure DevOps ");
    let code = decimal_string(status as u64);
    message.append(code.as_str());
    message.append(error_hint_str(status));
    message.append(": ");
    let detail = message_detail_of(body);
    message.append(detail.as_str());
    message
}

} // verus!
