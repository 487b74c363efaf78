//! Provider dispatch, and GitLab's stage breakdown.
//!
//! `group_stages` splits a pipeline's jobs into stages. The job list also
//! holds older retries: for the same (stage, name) the display uses the most
//! recent attempt, but ORDER follows the first attempt's id, so retrying a
//! job moves neither its stage nor its place inside the stage.

use vstd::prelude::*;

use crate::azure::Azure;
use crate::github::Github;
use crate::gitlab::{ApiDownstream, ApiJob, ApiMergeRequest, ApiPipeline, ApiProject, ApiUser, Gitlab};
use crate::state::ProviderMap;
use crate::text::{drop_back, trim, trimmed, CharClass};
use crate::model::{
    aggregate, aggregate_spec, clone_downstream, clone_job, clone_opt_string, clone_stages,
    job_view, jobs_view, stage_view, lemma_jobs_view, lemma_stages_view, opt_view, stages_view,
    status_items, DownstreamInfo, DownstreamInfoView, Duration, JobInfo, JobInfoView,
    MergeRequestInfo, MergeRequestInfoView, PipelineInfo, PipelineInfoView, StageInfo,
    StageInfoView, StatusItem, AppConfig, ProviderKind, provider_label,
};
use crate::order::{insert_sorted, rank_lt, rank_of, sorted_by};
use crate::text::str_eq;

verus! {

broadcast use vstd::string::group_string_axioms;

// ------------------------------------------------------------ slots --

/// The stage a job is shown under; jobs without one go to "(no stage)".
pub open spec fn stage_key(j: ApiJob) -> Seq<char> {
    if j.stage@.len() == 0 {
        "(no stage)"@
    } else {
        j.stage@
    }
}

/// Whether `j` is an attempt of the job `name` in stage `key`.
pub open spec fn in_slot(j: ApiJob, key: Seq<char>, name: Seq<char>) -> bool {
    stage_key(j) == key && j.name@ == name
}

/// The smallest id of the jobs in stage `key`.
pub open spec fn stage_min_id(jobs: Seq<ApiJob>, key: Seq<char>) -> Option<u64>
    decreases jobs.len(),
{
    if jobs.len() == 0 {
        None
    } else {
        let rest = stage_min_id(jobs.drop_last(), key);
        if stage_key(jobs.last()) == key {
            match rest {
                Some(m) => Some(if jobs.last().id < m { jobs.last().id } else { m }),
                None => Some(jobs.last().id),
            }
        } else {
            rest
        }
    }
}

/// The position of the first job in stage `key`.
pub open spec fn stage_first_index(jobs: Seq<ApiJob>, key: Seq<char>) -> Option<int>
    decreases jobs.len(),
{
    if jobs.len() == 0 {
        None
    } else {
        let rest = stage_first_index(jobs.drop_last(), key);
        if rest is Some {
            rest
        } else if stage_key(jobs.last()) == key {
            Some(jobs.len() - 1)
        } else {
            None
        }
    }
}

/// The first-attempt id of the job `name` in stage `key`.
pub open spec fn slot_min_id(jobs: Seq<ApiJob>, key: Seq<char>, name: Seq<char>) -> Option<u64>
    decreases jobs.len(),
{
    if jobs.len() == 0 {
        None
    } else {
        let rest = slot_min_id(jobs.drop_last(), key, name);
        if in_slot(jobs.last(), key, name) {
            match rest {
                Some(m) => Some(if jobs.last().id < m { jobs.last().id } else { m }),
                None => Some(jobs.last().id),
            }
        } else {
            rest
        }
    }
}

/// The position of the first attempt of the job `name` in stage `key`.
pub open spec fn slot_first_index(jobs: Seq<ApiJob>, key: Seq<char>, name: Seq<char>) -> Option<int>
    decreases jobs.len(),
{
    if jobs.len() == 0 {
        None
    } else {
        let rest = slot_first_index(jobs.drop_last(), key, name);
        if rest is Some {
            rest
        } else if in_slot(jobs.last(), key, name) {
            Some(jobs.len() - 1)
        } else {
            None
        }
    }
}

/// The position of the most recent attempt (highest id; the first of
/// equals) of the job `name` in stage `key`.
pub open spec fn slot_latest_index(jobs: Seq<ApiJob>, key: Seq<char>, name: Seq<char>) -> Option<int>
    decreases jobs.len(),
{
    if jobs.len() == 0 {
        None
    } else {
        let rest = slot_latest_index(jobs.drop_last(), key, name);
        if in_slot(jobs.last(), key, name) {
            match rest {
                Some(l) => if jobs.last().id > jobs[l].id {
                    Some(jobs.len() - 1)
                } else {
                    Some(l)
                },
                None => Some(jobs.len() - 1),
            }
        } else {
            rest
        }
    }
}

/// Where a stage goes: by the smallest id in it, then by where it first
/// appears.
pub open spec fn stage_rank(jobs: Seq<ApiJob>, key: Seq<char>) -> (u64, int) {
    (stage_min_id(jobs, key)->0, stage_first_index(jobs, key)->0)
}

/// Where a job goes inside its stage: by its first attempt's id, then by
/// where it first appears.
pub open spec fn slot_rank(jobs: Seq<ApiJob>, key: Seq<char>, name: Seq<char>) -> (u64, int) {
    (slot_min_id(jobs, key, name)->0, slot_first_index(jobs, key, name)->0)
}

pub open spec fn downstream_row(d: ApiDownstream) -> DownstreamInfoView {
    DownstreamInfoView {
        id: d.id,
        status: d.status@,
        web_url: match d.web_url {
            Some(u) => u@,
            None => Seq::empty(),
        },
        git_ref: opt_view(d.git_ref),
        stages: Seq::empty(),
    }
}

/// The row shown for a job attempt. Its downstream pipeline's own stages
/// are filled in later, by `attach_downstream_stages`.
pub open spec fn job_row(j: ApiJob) -> JobInfoView {
    JobInfoView {
        id: j.id,
        name: j.name@,
        stage: j.stage@,
        status: j.status@,
        allow_failure: j.allow_failure,
        duration: match j.duration_bits {
            Some(b) => Some(Duration::Reported(b)),
            None => None,
        },
        web_url: match j.web_url {
            Some(u) => u@,
            None => Seq::empty(),
        },
        finished_at: opt_view(j.finished_at),
        downstream: match j.downstream_pipeline {
            Some(d) => Some(downstream_row(d)),
            None => None,
        },
    }
}

pub open spec fn row_items(rows: Seq<JobInfoView>) -> Seq<StatusItem> {
    rows.map_values(|r: JobInfoView| (r.status, r.allow_failure))
}

/// A stage of the breakdown is right for `jobs`.
pub open spec fn stage_ok(jobs: Seq<ApiJob>, st: StageInfoView) -> bool {
    &&& stage_first_index(jobs, st.name) is Some
    &&& forall|r: int|
        0 <= r < st.jobs.len() ==> (#[trigger] slot_latest_index(jobs, st.name, st.jobs[r].name)
            is Some && st.jobs[r] == job_row(
            jobs[slot_latest_index(jobs, st.name, st.jobs[r].name)->0],
        ))
    &&& forall|i: int|
        0 <= i < jobs.len() && #[trigger] stage_key(jobs[i]) == st.name ==> exists|r: int|
            0 <= r < st.jobs.len() && #[trigger] st.jobs[r].name == jobs[i].name@
    &&& forall|a: int, b: int|
        0 <= a < b < st.jobs.len() ==> rank_lt(
            slot_rank(jobs, st.name, #[trigger] st.jobs[a].name),
            slot_rank(jobs, st.name, #[trigger] st.jobs[b].name),
        )
    &&& st.status == aggregate_spec(row_items(st.jobs))
}

/// The whole breakdown is right for `jobs`: one stage per stage name, in
/// rank order, each holding the latest attempt of each of its jobs.
pub open spec fn stages_ok(jobs: Seq<ApiJob>, ss: Seq<StageInfoView>) -> bool {
    &&& forall|t: int| 0 <= t < ss.len() ==> stage_ok(jobs, #[trigger] ss[t])
    &&& forall|i: int|
        0 <= i < jobs.len() ==> exists|t: int| 0 <= t < ss.len() && #[trigger] ss[t].name == stage_key(#[trigger] jobs[i])
    &&& forall|a: int, b: int|
        0 <= a < b < ss.len() ==> rank_lt(
            stage_rank(jobs, #[trigger] ss[a].name),
            stage_rank(jobs, #[trigger] ss[b].name),
        )
}

fn stage_key_of(j: &ApiJob) -> (res: String)
    ensures
        res@ == stage_key(*j),
{
    if j.stage.as_str().is_empty() {
        String::from_str("(no stage)")
    } else {
        j.stage.clone()
    }
}

/// What is known so far about one (stage, name) slot.
struct SlotRec {
    key: String,
    name: String,
    earliest: u64,
    latest: usize,
    start: usize,
}

spec fn slots_ok(jobs: Seq<ApiJob>, slots: Seq<SlotRec>) -> bool {
    &&& forall|s: int|
        0 <= s < slots.len() ==> {
            let r = #[trigger] slots[s];
            &&& slot_first_index(jobs, r.key@, r.name@) == Some(r.start as int)
            &&& slot_min_id(jobs, r.key@, r.name@) == Some(r.earliest)
            &&& slot_latest_index(jobs, r.key@, r.name@) == Some(r.latest as int)
        }
    &&& forall|q: int|
        0 <= q < jobs.len() ==> exists|s: int|
            0 <= s < slots.len() && in_slot(#[trigger] jobs[q], (#[trigger] slots[s]).key@, slots[s].name@)
    &&& forall|a: int, b: int|
        0 <= a < slots.len() && 0 <= b < slots.len() && a != b ==> !((#[trigger] slots[a]).key@
            == (#[trigger] slots[b]).key@ && slots[a].name@ == slots[b].name@)
}

pub proof fn lemma_slot_index_bounds(jobs: Seq<ApiJob>, key: Seq<char>, name: Seq<char>)
    ensures
        slot_first_index(jobs, key, name) matches Some(f) ==> 0 <= f < jobs.len() && in_slot(
            jobs[f],
            key,
            name,
        ),
        slot_latest_index(jobs, key, name) matches Some(l) ==> 0 <= l < jobs.len() && in_slot(
            jobs[l],
            key,
            name,
        ),
        (slot_first_index(jobs, key, name) is Some) == (slot_latest_index(jobs, key, name) is Some),
        (slot_first_index(jobs, key, name) is Some) == (slot_min_id(jobs, key, name) is Some),
        (exists|q: int| 0 <= q < jobs.len() && in_slot(#[trigger] jobs[q], key, name)) ==> slot_first_index(jobs, key, name) is Some,
    decreases jobs.len(),
{
    if jobs.len() > 0 {
        let d = jobs.drop_last();
        lemma_slot_index_bounds(d, key, name);
        if exists|q: int| 0 <= q < jobs.len() && in_slot(#[trigger] jobs[q], key, name) {
            let q = choose|q: int| 0 <= q < jobs.len() && in_slot(#[trigger] jobs[q], key, name);
            if q < jobs.len() - 1 {
                assert(in_slot(d[q], key, name));
            }
        }
    }
}

proof fn lemma_step(jobs: Seq<ApiJob>, i: int)
    requires
        0 <= i < jobs.len(),
    ensures
        jobs.take(i + 1).drop_last() == jobs.take(i),
        jobs.take(i + 1).last() == jobs[i],
{
    assert(jobs.take(i + 1).drop_last() =~= jobs.take(i));
}

/// One record per (stage, name) slot, in order of first appearance.
fn collect_slots(jobs: &[ApiJob]) -> (res: Vec<SlotRec>)
    ensures
        slots_ok(jobs@, res@),
        forall|s: int| 0 <= s < res@.len() ==> (#[trigger] res@[s]).latest < jobs@.len() && res@[s].start < jobs@.len(),
{
    let mut slots: Vec<SlotRec> = Vec::new();
    let mut i: usize = 0;
    while i < jobs.len()
        invariant
            i <= jobs@.len(),
            slots_ok(jobs@.take(i as int), slots@),
            forall|s: int| 0 <= s < slots@.len() ==> (#[trigger] slots@[s]).latest < i && slots@[s].start < i,
        decreases jobs@.len() - i,
    {
        let job = &jobs[i];
        let key = stage_key_of(job);
        let ghost before = jobs@.take(i as int);
        let ghost after = jobs@.take(i + 1);
        proof {
            lemma_step(jobs@, i as int);
        }
        let mut found: Option<usize> = None;
        let mut s: usize = 0;
        while s < slots.len()
            invariant
                s <= slots@.len(),
                found matches Some(f) ==> f < slots@.len() && slots@[f as int].key@ == key@
                    && slots@[f as int].name@ == job.name@,
                found is None ==> forall|u: int| 0 <= u < s ==> !((#[trigger] slots@[u]).key@
                    == key@ && slots@[u].name@ == job.name@),
            decreases slots@.len() - s,
        {
            if found.is_none() && str_eq(slots[s].key.as_str(), key.as_str()) && str_eq(
                slots[s].name.as_str(),
                job.name.as_str(),
            ) {
                found = Some(s);
            }
            s += 1;
        }
        let ghost old_slots = slots@;
        match found {
            Some(f) => {
                let latest_id = jobs[slots[f].latest].id;
                let earliest = if job.id < slots[f].earliest {
                    job.id
                } else {
                    slots[f].earliest
                };
                let latest = if job.id > latest_id {
                    i
                } else {
                    slots[f].latest
                };
                let rec = SlotRec {
                    key: slots[f].key.clone(),
                    name: slots[f].name.clone(),
                    earliest,
                    latest,
                    start: slots[f].start,
                };
                slots.set(f, rec);
                proof {
                    assert forall|u: int| 0 <= u < slots@.len() implies {
                        let r = #[trigger] slots@[u];
                        &&& slot_first_index(after, r.key@, r.name@) == Some(r.start as int)
                        &&& slot_min_id(after, r.key@, r.name@) == Some(r.earliest)
                        &&& slot_latest_index(after, r.key@, r.name@) == Some(r.latest as int)
                    } by {
                        let r = slots@[u];
                        if u != f {
                            assert(old_slots[u] == r);
                            assert(!in_slot(jobs@[i as int], r.key@, r.name@));
                        } else {
                            assert(before[old_slots[u].latest as int] == jobs@[old_slots[u].latest as int]);
                        }
                    }
                    assert forall|q: int| 0 <= q < after.len() implies exists|u: int|
                        0 <= u < slots@.len() && in_slot(#[trigger] after[q], (#[trigger] slots@[u]).key@, slots@[u].name@) by {
                        if q < i {
                            assert(after[q] == before[q]);
                            let u = choose|u: int| 0 <= u < old_slots.len() && in_slot(#[trigger] before[q], (#[trigger] old_slots[u]).key@, old_slots[u].name@);
                            assert(slots@[u].key@ == old_slots[u].key@);
                            assert(in_slot(after[q], slots@[u].key@, slots@[u].name@));
                        } else {
                            assert(in_slot(after[q], slots@[f as int].key@, slots@[f as int].name@));
                        }
                    }
                    assert forall|a: int, b: int|
                        0 <= a < slots@.len() && 0 <= b < slots@.len() && a != b implies !((#[trigger] slots@[a]).key@
                            == (#[trigger] slots@[b]).key@ && slots@[a].name@ == slots@[b].name@) by {
                        assert(slots@[a].key@ == old_slots[a].key@ && slots@[a].name@ == old_slots[a].name@);
                        assert(slots@[b].key@ == old_slots[b].key@ && slots@[b].name@ == old_slots[b].name@);
                    }
                }
            },
            None => {
                proof {
                    assert forall|q: int| 0 <= q < before.len() implies !in_slot(#[trigger] before[q], key@, job.name@) by {
                        let u = choose|u: int| 0 <= u < old_slots.len() && in_slot(#[trigger] before[q], (#[trigger] old_slots[u]).key@, old_slots[u].name@);
                    }
                    lemma_slot_index_bounds(before, key@, job.name@);
                }
                let rec = SlotRec {
                    key,
                    name: job.name.clone(),
                    earliest: job.id,
                    latest: i,
                    start: i,
                };
                slots.push(rec);
                proof {
                    assert forall|u: int| 0 <= u < slots@.len() implies {
                        let r = #[trigger] slots@[u];
                        &&& slot_first_index(after, r.key@, r.name@) == Some(r.start as int)
                        &&& slot_min_id(after, r.key@, r.name@) == Some(r.earliest)
                        &&& slot_latest_index(after, r.key@, r.name@) == Some(r.latest as int)
                    } by {
                        let r = slots@[u];
                        if u < old_slots.len() {
                            assert(old_slots[u] == r);
                            assert(!in_slot(jobs@[i as int], r.key@, r.name@));
                        }
                    }
                    assert forall|q: int| 0 <= q < after.len() implies exists|u: int|
                        0 <= u < slots@.len() && in_slot(#[trigger] after[q], (#[trigger] slots@[u]).key@, slots@[u].name@) by {
                        if q < i {
                            assert(after[q] == before[q]);
                            let u = choose|u: int| 0 <= u < old_slots.len() && in_slot(#[trigger] before[q], (#[trigger] old_slots[u]).key@, old_slots[u].name@);
                            assert(slots@[u] == old_slots[u]);
                        } else {
                            let last = slots@.len() - 1;
                            assert(in_slot(after[q], slots@[last].key@, slots@[last].name@));
                        }
                    }
                }
            },
        }
        i += 1;
    }
    assert(jobs@.take(jobs@.len() as int) =~= jobs@);
    slots
}

/// What is known so far about one stage.
struct StageRec {
    key: String,
    first: u64,
    start: usize,
}

spec fn stage_recs_ok(jobs: Seq<ApiJob>, recs: Seq<StageRec>) -> bool {
    &&& forall|s: int|
        0 <= s < recs.len() ==> {
            let r = #[trigger] recs[s];
            &&& stage_first_index(jobs, r.key@) == Some(r.start as int)
            &&& stage_min_id(jobs, r.key@) == Some(r.first)
        }
    &&& forall|q: int|
        0 <= q < jobs.len() ==> exists|s: int|
            0 <= s < recs.len() && stage_key(#[trigger] jobs[q]) == (#[trigger] recs[s]).key@
    &&& forall|a: int, b: int|
        0 <= a < recs.len() && 0 <= b < recs.len() && a != b ==> (#[trigger] recs[a]).key@
            != (#[trigger] recs[b]).key@
}

pub proof fn lemma_stage_index_bounds(jobs: Seq<ApiJob>, key: Seq<char>)
    ensures
        stage_first_index(jobs, key) matches Some(f) ==> 0 <= f < jobs.len() && stage_key(jobs[f])
            == key,
        (stage_first_index(jobs, key) is Some) == (stage_min_id(jobs, key) is Some),
        (exists|q: int| 0 <= q < jobs.len() && #[trigger] stage_key(jobs[q]) == key) ==> stage_first_index(jobs, key) is Some,
    decreases jobs.len(),
{
    if jobs.len() > 0 {
        let d = jobs.drop_last();
        lemma_stage_index_bounds(d, key);
        if exists|q: int| 0 <= q < jobs.len() && #[trigger] stage_key(jobs[q]) == key {
            let q = choose|q: int| 0 <= q < jobs.len() && #[trigger] stage_key(jobs[q]) == key;
            if q < jobs.len() - 1 {
                assert(stage_key(d[q]) == key);
            }
        }
    }
}

/// One record per stage, in order of first appearance.
fn collect_stages(jobs: &[ApiJob]) -> (res: Vec<StageRec>)
    ensures
        stage_recs_ok(jobs@, res@),
        forall|s: int| 0 <= s < res@.len() ==> (#[trigger] res@[s]).start < jobs@.len(),
{
    let mut recs: Vec<StageRec> = Vec::new();
    let mut i: usize = 0;
    while i < jobs.len()
        invariant
            i <= jobs@.len(),
            stage_recs_ok(jobs@.take(i as int), recs@),
            forall|s: int| 0 <= s < recs@.len() ==> (#[trigger] recs@[s]).start < i,
        decreases jobs@.len() - i,
    {
        let job = &jobs[i];
        let key = stage_key_of(job);
        let ghost before = jobs@.take(i as int);
        let ghost after = jobs@.take(i + 1);
        proof {
            lemma_step(jobs@, i as int);
        }
        let mut found: Option<usize> = None;
        let mut s: usize = 0;
        while s < recs.len()
            invariant
                s <= recs@.len(),
                found matches Some(f) ==> f < recs@.len() && recs@[f as int].key@ == key@,
                found is None ==> forall|u: int| 0 <= u < s ==> (#[trigger] recs@[u]).key@ != key@,
            decreases recs@.len() - s,
        {
            if found.is_none() && str_eq(recs[s].key.as_str(), key.as_str()) {
                found = Some(s);
            }
            s += 1;
        }
        let ghost old_recs = recs@;
        match found {
            Some(f) => {
                let first = if job.id < recs[f].first {
                    job.id
                } else {
                    recs[f].first
                };
                let rec = StageRec { key: recs[f].key.clone(), first, start: recs[f].start };
                recs.set(f, rec);
                proof {
                    assert forall|u: int| 0 <= u < recs@.len() implies {
                        let r = #[trigger] recs@[u];
                        &&& stage_first_index(after, r.key@) == Some(r.start as int)
                        &&& stage_min_id(after, r.key@) == Some(r.first)
                    } by {
                        let r = recs@[u];
                        if u != f {
                            assert(old_recs[u] == r);
                        }
                    }
                    assert forall|q: int| 0 <= q < after.len() implies exists|u: int|
                        0 <= u < recs@.len() && stage_key(#[trigger] after[q]) == (#[trigger] recs@[u]).key@ by {
                        if q < i {
                            assert(after[q] == before[q]);
                            let u = choose|u: int| 0 <= u < old_recs.len() && stage_key(#[trigger] before[q]) == (#[trigger] old_recs[u]).key@;
                            assert(recs@[u].key@ == old_recs[u].key@);
                        } else {
                            assert(stage_key(after[q]) == recs@[f as int].key@);
                        }
                    }
                    assert forall|a: int, b: int|
                        0 <= a < recs@.len() && 0 <= b < recs@.len() && a != b implies (#[trigger] recs@[a]).key@
                            != (#[trigger] recs@[b]).key@ by {
                        assert(recs@[a].key@ == old_recs[a].key@);
                        assert(recs@[b].key@ == old_recs[b].key@);
                    }
                }
            },
            None => {
                proof {
                    assert forall|q: int| 0 <= q < before.len() implies #[trigger] stage_key(before[q]) != key@ by {
                        let u = choose|u: int| 0 <= u < old_recs.len() && stage_key(#[trigger] before[q]) == (#[trigger] old_recs[u]).key@;
                    }
                    lemma_stage_index_bounds(before, key@);
                }
                let rec = StageRec { key, first: job.id, start: i };
                recs.push(rec);
                proof {
                    assert forall|u: int| 0 <= u < recs@.len() implies {
                        let r = #[trigger] recs@[u];
                        &&& stage_first_index(after, r.key@) == Some(r.start as int)
                        &&& stage_min_id(after, r.key@) == Some(r.first)
                    } by {
                        let r = recs@[u];
                        if u < old_recs.len() {
                            assert(old_recs[u] == r);
                        }
                    }
                    assert forall|q: int| 0 <= q < after.len() implies exists|u: int|
                        0 <= u < recs@.len() && stage_key(#[trigger] after[q]) == (#[trigger] recs@[u]).key@ by {
                        if q < i {
                            assert(after[q] == before[q]);
                            let u = choose|u: int| 0 <= u < old_recs.len() && stage_key(#[trigger] before[q]) == (#[trigger] old_recs[u]).key@;
                            assert(recs@[u] == old_recs[u]);
                        } else {
                            let last = recs@.len() - 1;
                            assert(stage_key(after[q]) == recs@[last].key@);
                        }
                    }
                }
            },
        }
        i += 1;
    }
    assert(jobs@.take(jobs@.len() as int) =~= jobs@);
    recs
}

fn opt_or_empty(o: &Option<String>) -> (res: String)
    ensures
        res@ == (match *o {
            Some(u) => u@,
            None => Seq::empty(),
        }),
{
    match o {
        Some(u) => u.clone(),
        None => String::new(),
    }
}

/// The row shown for one job attempt.
pub fn make_row(j: &ApiJob) -> (res: JobInfo)
    ensures
        res@ == job_row(*j),
{
    let downstream = match &j.downstream_pipeline {
        Some(d) => {
            let v: Vec<StageInfo> = Vec::new();
            let info = DownstreamInfo {
                id: d.id,
                status: d.status.clone(),
                web_url: opt_or_empty(&d.web_url),
                git_ref: clone_opt_string(&d.git_ref),
                stages: v,
            };
            assert(stages_view(info.stages@) =~= Seq::<StageInfoView>::empty());
            Some(info)
        },
        None => None,
    };
    JobInfo {
        id: j.id,
        name: j.name.clone(),
        stage: j.stage.clone(),
        status: j.status.clone(),
        allow_failure: j.allow_failure,
        duration: match j.duration_bits {
            Some(b) => Some(Duration::Reported(b)),
            None => None,
        },
        web_url: opt_or_empty(&j.web_url),
        finished_at: clone_opt_string(&j.finished_at),
        downstream,
    }
}

/// The summary status of a list of rows.
pub fn rows_status(rows: &Vec<JobInfo>) -> (res: String)
    ensures
        res@ == aggregate_spec(row_items(jobs_view(rows@))),
{
    let mut items: Vec<(&str, bool)> = Vec::new();
    for r in 0..rows.len()
        invariant
            items@.len() == r,
            forall|k: int| 0 <= k < r ==> (#[trigger] items@[k]).0@ == rows@[k].status@ && items@[k].1 == rows@[k].allow_failure,
    {
        items.push((rows[r].status.as_str(), rows[r].allow_failure));
    }
    proof {
        lemma_jobs_view(rows@);
        assert(status_items(items@) =~= row_items(jobs_view(rows@)));
    }
    aggregate(items.as_slice())
}

proof fn lemma_slot_ranks_distinct(jobs: Seq<ApiJob>, slots: Seq<SlotRec>, a: int, b: int)
    requires
        slots_ok(jobs, slots),
        0 <= a < slots.len(),
        0 <= b < slots.len(),
        a != b,
    ensures
        slots[a].start != slots[b].start,
{
    let ra = slots[a];
    let rb = slots[b];
    lemma_slot_index_bounds(jobs, ra.key@, ra.name@);
    lemma_slot_index_bounds(jobs, rb.key@, rb.name@);
}

proof fn lemma_stage_ranks_distinct(jobs: Seq<ApiJob>, recs: Seq<StageRec>, a: int, b: int)
    requires
        stage_recs_ok(jobs, recs),
        0 <= a < recs.len(),
        0 <= b < recs.len(),
        a != b,
    ensures
        recs[a].start != recs[b].start,
{
    lemma_stage_index_bounds(jobs, recs[a].key@);
    lemma_stage_index_bounds(jobs, recs[b].key@);
}

/// The stage `key`: the latest attempt of each of its jobs, ordered by
/// first attempt.
fn build_stage(jobs: &[ApiJob], slots: &Vec<SlotRec>, slot_ranks: &Vec<(u64, usize)>, key: &String) -> (res: StageInfo)
    requires
        slots_ok(jobs@, slots@),
        forall|s: int| 0 <= s < slots@.len() ==> (#[trigger] slots@[s]).latest < jobs@.len(),
        slot_ranks@.len() == slots@.len(),
        forall|s: int| 0 <= s < slots@.len() ==> #[trigger] slot_ranks@[s] == (slots@[s].earliest, slots@[s].start),
        exists|i: int| 0 <= i < jobs@.len() && #[trigger] stage_key(jobs@[i]) == key@,
    ensures
        stage_ok(jobs@, res@),
        res@.name == key@,
{
    proof {
        lemma_stage_index_bounds(jobs@, key@);
    }
    let mut picked: Vec<usize> = Vec::new();
    for s in 0..slots.len()
        invariant
            slots_ok(jobs@, slots@),
            slot_ranks@.len() == slots@.len(),
            forall|u: int| 0 <= u < slots@.len() ==> #[trigger] slot_ranks@[u] == (slots@[u].earliest, slots@[u].start),
            sorted_by(picked@, slot_ranks@),
            forall|x: usize| #[trigger] picked@.contains(x) <==> (x < s && slots@[x as int].key@ == key@),
    {
        if str_eq(slots[s].key.as_str(), key.as_str()) {
            proof {
                assert forall|i: int| 0 <= i < picked@.len() implies rank_of(slot_ranks@[#[trigger] picked@[i] as int]) != rank_of(slot_ranks@[s as int]) by {
                    let x = picked@[i];
                    assert(picked@.contains(x));
                    lemma_slot_ranks_distinct(jobs@, slots@, x as int, s as int);
                }
            }
            insert_sorted(&mut picked, s, slot_ranks);
        }
    }
    let mut rows: Vec<JobInfo> = Vec::new();
    for r in 0..picked.len()
        invariant
            rows@.len() == r,
            forall|k: int| 0 <= k < picked@.len() ==> #[trigger] picked@[k] < slots@.len(),
            forall|s: int| 0 <= s < slots@.len() ==> (#[trigger] slots@[s]).latest < jobs@.len(),
            forall|k: int| 0 <= k < r ==> job_view(#[trigger] rows@[k]) == job_row(jobs@[slots@[picked@[k] as int].latest as int]),
    {
        let row = make_row(&jobs[slots[picked[r]].latest]);
        rows.push(row);
    }
    let status = rows_status(&rows);
    let res = StageInfo { name: key.clone(), status, jobs: rows };
    proof {
        lemma_jobs_view(rows@);
        let st = res@;
        assert(st.jobs == jobs_view(rows@));
        assert forall|r: int| 0 <= r < st.jobs.len() implies (#[trigger] slot_latest_index(jobs@, st.name, st.jobs[r].name)
            is Some && st.jobs[r] == job_row(jobs@[slot_latest_index(jobs@, st.name, st.jobs[r].name)->0])) by {
            let u = picked@[r] as int;
            assert(picked@.contains(picked@[r]));
            let sl = slots@[u];
            lemma_slot_index_bounds(jobs@, sl.key@, sl.name@);
            assert(st.jobs[r] == job_row(jobs@[sl.latest as int]));
            assert(st.jobs[r].name == sl.name@);
        }
        assert forall|i: int| 0 <= i < jobs@.len() && #[trigger] stage_key(jobs@[i]) == st.name implies exists|r: int|
            0 <= r < st.jobs.len() && #[trigger] st.jobs[r].name == jobs@[i].name@ by {
            let u = choose|u: int| 0 <= u < slots@.len() && in_slot(#[trigger] jobs@[i], (#[trigger] slots@[u]).key@, slots@[u].name@);
            assert(picked@.contains(u as usize));
            let r = choose|r: int| 0 <= r < picked@.len() && picked@[r] == u as usize;
            let sl = slots@[u];
            lemma_slot_index_bounds(jobs@, sl.key@, sl.name@);
            assert(st.jobs[r] == job_row(jobs@[sl.latest as int]));
            assert(st.jobs[r].name == jobs@[i].name@);
        }
        assert forall|a: int, b: int| 0 <= a < b < st.jobs.len() implies rank_lt(
            slot_rank(jobs@, st.name, #[trigger] st.jobs[a].name),
            slot_rank(jobs@, st.name, #[trigger] st.jobs[b].name),
        ) by {
            let ua = picked@[a] as int;
            let ub = picked@[b] as int;
            assert(picked@.contains(picked@[a]));
            assert(picked@.contains(picked@[b]));
            let sa = slots@[ua];
            let sb = slots@[ub];
            lemma_slot_index_bounds(jobs@, sa.key@, sa.name@);
            lemma_slot_index_bounds(jobs@, sb.key@, sb.name@);
            assert(st.jobs[a].name == sa.name@);
            assert(st.jobs[b].name == sb.name@);
            assert(rank_lt(rank_of(slot_ranks@[picked@[a] as int]), rank_of(slot_ranks@[picked@[b] as int])));
        }
    }
    res
}

/// Splits GitLab jobs into stages.
///
/// The list also includes older retries. For the same (stage, name), the
/// display uses the most recent retry, but ordering is based on the first
/// attempt's id; so retrying a job changes neither the stage order nor the
/// job's position within its stage. Equal first ids fall back to the order
/// in which the jobs first appear.
#[verifier::spinoff_prover]
#[verifier::rlimit(40)]
pub fn group_stages(jobs: &[ApiJob]) -> (res: Vec<StageInfo>)
    ensures
        stages_ok(jobs@, stages_view(res@)),
{
    let slots = collect_slots(jobs);
    let recs = collect_stages(jobs);
    let mut slot_ranks: Vec<(u64, usize)> = Vec::new();
    for k in 0..slots.len()
        invariant
            slot_ranks@.len() == k,
            forall|u: int| 0 <= u < k ==> #[trigger] slot_ranks@[u] == (slots@[u].earliest, slots@[u].start),
    {
        slot_ranks.push((slots[k].earliest, slots[k].start));
    }
    let mut stage_ranks: Vec<(u64, usize)> = Vec::new();
    for k in 0..recs.len()
        invariant
            stage_ranks@.len() == k,
            forall|u: int| 0 <= u < k ==> #[trigger] stage_ranks@[u] == (recs@[u].first, recs@[u].start),
    {
        stage_ranks.push((recs[k].first, recs[k].start));
    }
    let mut order: Vec<usize> = Vec::new();
    for k in 0..recs.len()
        invariant
            stage_recs_ok(jobs@, recs@),
            stage_ranks@.len() == recs@.len(),
            forall|u: int| 0 <= u < recs@.len() ==> #[trigger] stage_ranks@[u] == (recs@[u].first, recs@[u].start),
            sorted_by(order@, stage_ranks@),
            forall|x: usize| #[trigger] order@.contains(x) <==> x < k,
    {
        proof {
            assert forall|i: int| 0 <= i < order@.len() implies rank_of(stage_ranks@[#[trigger] order@[i] as int]) != rank_of(stage_ranks@[k as int]) by {
                let x = order@[i];
                assert(order@.contains(x));
                lemma_stage_ranks_distinct(jobs@, recs@, x as int, k as int);
            }
        }
        insert_sorted(&mut order, k, &stage_ranks);
    }
    let mut out: Vec<StageInfo> = Vec::new();
    for t in 0..order.len()
        invariant
            out@.len() == t,
            slots_ok(jobs@, slots@),
            stage_recs_ok(jobs@, recs@),
            forall|s: int| 0 <= s < slots@.len() ==> (#[trigger] slots@[s]).latest < jobs@.len(),
            forall|s: int| 0 <= s < recs@.len() ==> (#[trigger] recs@[s]).start < jobs@.len(),
            slot_ranks@.len() == slots@.len(),
            forall|u: int| 0 <= u < slots@.len() ==> #[trigger] slot_ranks@[u] == (slots@[u].earliest, slots@[u].start),
            sorted_by(order@, stage_ranks@),
            stage_ranks@.len() == recs@.len(),
            forall|k: int| 0 <= k < t ==> stage_ok(jobs@, stage_view(#[trigger] out@[k])) && stage_view(out@[k]).name == recs@[order@[k] as int].key@,
    {
        let rec = &recs[order[t]];
        proof {
            lemma_stage_index_bounds(jobs@, rec.key@);
            let f = rec.start as int;
            assert(stage_key(jobs@[f]) == rec.key@);
        }
        let st = build_stage(jobs, &slots, &slot_ranks, &rec.key);
        out.push(st);
    }
    proof {
        lemma_stages_view(out@);
        let ss = stages_view(out@);
        assert forall|i: int| 0 <= i < jobs@.len() implies exists|t: int| 0 <= t < ss.len() && #[trigger] ss[t].name == stage_key(#[trigger] jobs@[i]) by {
            let u = choose|u: int| 0 <= u < recs@.len() && stage_key(#[trigger] jobs@[i]) == (#[trigger] recs@[u]).key@;
            assert(order@.contains(u as usize));
            let t = choose|t: int| 0 <= t < order@.len() && order@[t] == u as usize;
            assert(ss[t] == stage_view(out@[t]));
        }
        assert forall|a: int, b: int| 0 <= a < b < ss.len() implies rank_lt(
            stage_rank(jobs@, #[trigger] ss[a].name),
            stage_rank(jobs@, #[trigger] ss[b].name),
        ) by {
            assert(ss[a] == stage_view(out@[a]));
            assert(ss[b] == stage_view(out@[b]));
            assert(rank_lt(rank_of(stage_ranks@[order@[a] as int]), rank_of(stage_ranks@[order@[b] as int])));
        }
    }
    out
}

// ------------------------------------------------------------ gitlab --

/// The name shown for a person: the display name, else the username.
pub open spec fn person_name(u: Option<ApiUser>) -> Option<Seq<char>> {
    match u {
        Some(a) => match a.name {
            Some(n) => Some(n@),
            None => opt_view(a.username),
        },
        None => None,
    }
}

fn person_name_of(u: Option<ApiUser>) -> (res: Option<String>)
    ensures
        opt_view(res) == person_name(u),
{
    match u {
        Some(a) => match a.name {
            Some(n) => Some(n),
            None => a.username,
        },
        None => None,
    }
}

/// An open merge request as the app shows it.
pub fn merge_request_of(mr: ApiMergeRequest) -> (res: MergeRequestInfo)
    ensures
        res@ == (MergeRequestInfoView {
            iid: mr.iid,
            title: mr.title@,
            author: person_name(mr.author),
            source_branch: mr.source_branch@,
            target_branch: mr.target_branch@,
            web_url: mr.web_url@,
            created_at: opt_view(mr.created_at),
            draft: mr.draft,
        }),
{
    MergeRequestInfo {
        iid: mr.iid,
        title: mr.title,
        author: person_name_of(mr.author),
        source_branch: mr.source_branch,
        target_branch: mr.target_branch,
        web_url: mr.web_url,
        created_at: mr.created_at,
        draft: mr.draft,
    }
}

/// The downstream pipelines whose own jobs are fetched, as (project id,
/// pipeline id): one per bridge that names both, in order.
pub open spec fn downstream_targets_spec(bridges: Seq<ApiJob>) -> Seq<(u64, u64)>
    decreases bridges.len(),
{
    if bridges.len() == 0 {
        Seq::empty()
    } else {
        let rest = downstream_targets_spec(bridges.drop_last());
        match bridges.last().downstream_pipeline {
            Some(d) => match d.project_id {
                Some(p) => rest.push((p, d.id)),
                None => rest,
            },
            None => rest,
        }
    }
}

pub fn downstream_targets(bridges: &[ApiJob]) -> (res: Vec<(u64, u64)>)
    ensures
        res@ == downstream_targets_spec(bridges@),
{
    let mut out: Vec<(u64, u64)> = Vec::new();
    for i in 0..bridges.len()
        invariant
            out@ == downstream_targets_spec(bridges@.take(i as int)),
    {
        proof {
            assert(bridges@.take(i + 1).drop_last() =~= bridges@.take(i as int));
        }
        match &bridges[i].downstream_pipeline {
            Some(d) => match d.project_id {
                Some(p) => out.push((p, d.id)),
                None => {},
            },
            None => {},
        }
    }
    proof {
        assert(bridges@.take(bridges@.len() as int) =~= bridges@);
    }
    out
}

/// The downstream pipelines' own stages, by pipeline id; a later entry for
/// the same id overrides an earlier one.
pub open spec fn children_view(c: Seq<(u64, Vec<StageInfo>)>) -> Seq<(u64, Seq<StageInfoView>)> {
    c.map_values(|p: (u64, Vec<StageInfo>)| (p.0, stages_view(p.1@)))
}

/// Records a downstream pipeline's jobs, split into stages; a pipeline whose
/// jobs could not be read (an empty list) is left out, so its badge shows
/// without a breakdown.
pub fn record_child(children: &mut Vec<(u64, Vec<StageInfo>)>, pipeline_id: u64, jobs: &[ApiJob])
    ensures
        jobs@.len() == 0 ==> final(children)@ == old(children)@,
        jobs@.len() > 0 ==> final(children)@.len() == old(children)@.len() + 1 && final(children)@.take(
            old(children)@.len() as int,
        ) == old(children)@ && final(children)@.last().0 == pipeline_id && stages_ok(
            jobs@,
            stages_view(final(children)@.last().1@),
        ),
{
    if jobs.len() > 0 {
        let stages = group_stages(jobs);
        let ghost before = children@;
        children.push((pipeline_id, stages));
        assert(children@.take(before.len() as int) =~= before);
    }
}

pub open spec fn child_lookup(c: Seq<(u64, Seq<StageInfoView>)>, id: u64) -> Option<Seq<StageInfoView>>
    decreases c.len(),
{
    if c.len() == 0 {
        None
    } else if c.last().0 == id {
        Some(c.last().1)
    } else {
        child_lookup(c.drop_last(), id)
    }
}

/// A job row with its downstream pipeline's stages filled in, where they
/// were fetched.
pub open spec fn attach_job(j: JobInfoView, c: Seq<(u64, Seq<StageInfoView>)>) -> JobInfoView {
    match j.downstream {
        Some(d) => match child_lookup(c, d.id) {
            Some(st) => JobInfoView {
                downstream: Some(DownstreamInfoView { stages: st, ..d }),
                ..j
            },
            None => j,
        },
        None => j,
    }
}

pub open spec fn attach_stage(s: StageInfoView, c: Seq<(u64, Seq<StageInfoView>)>) -> StageInfoView {
    StageInfoView { jobs: s.jobs.map_values(|j: JobInfoView| attach_job(j, c)), ..s }
}

pub open spec fn attached(ss: Seq<StageInfoView>, c: Seq<(u64, Seq<StageInfoView>)>) -> Seq<StageInfoView> {
    ss.map_values(|s: StageInfoView| attach_stage(s, c))
}

/// The last entry for pipeline `id`.
fn find_child(children: &Vec<(u64, Vec<StageInfo>)>, id: u64) -> (res: Option<usize>)
    ensures
        match res {
            Some(k) => k < children@.len() && child_lookup(children_view(children@), id) == Some(
                stages_view(children@[k as int].1@),
            ),
            None => child_lookup(children_view(children@), id) is None,
        },
{
    let mut i: usize = children.len();
    proof {
        assert(children@.take(children@.len() as int) =~= children@);
    }
    while i > 0
        invariant
            i <= children@.len(),
            child_lookup(children_view(children@), id) == child_lookup(
                children_view(children@.take(i as int)),
                id,
            ),
        decreases i,
    {
        proof {
            assert(children_view(children@.take(i as int)).drop_last() =~= children_view(
                children@.take(i - 1),
            ));
        }
        if children[i - 1].0 == id {
            return Some(i - 1);
        }
        i -= 1;
    }
    None
}

fn attach_job_exec(j: &JobInfo, children: &Vec<(u64, Vec<StageInfo>)>) -> (res: JobInfo)
    ensures
        res@ == attach_job(j@, children_view(children@)),
{
    match &j.downstream {
        Some(d) => match find_child(children, d.id) {
            Some(k) => {
                let stages = clone_stages(&children[k].1);
                let down = DownstreamInfo {
                    id: d.id,
                    status: d.status.clone(),
                    web_url: d.web_url.clone(),
                    git_ref: clone_opt_string(&d.git_ref),
                    stages,
                };
                JobInfo {
                    id: j.id,
                    name: j.name.clone(),
                    stage: j.stage.clone(),
                    status: j.status.clone(),
                    allow_failure: j.allow_failure,
                    duration: j.duration,
                    web_url: j.web_url.clone(),
                    finished_at: clone_opt_string(&j.finished_at),
                    downstream: Some(down),
                }
            },
            None => clone_job(j),
        },
        None => clone_job(j),
    }
}

/// Fills in bridge jobs' downstream stages from the separately fetched
/// downstream pipelines.
pub fn attach_downstream_stages(stages: &Vec<StageInfo>, children: &Vec<(u64, Vec<StageInfo>)>) -> (res: Vec<StageInfo>)
    ensures
        stages_view(res@) == attached(stages_view(stages@), children_view(children@)),
{
    let mut out: Vec<StageInfo> = Vec::new();
    for t in 0..stages.len()
        invariant
            out@.len() == t,
            forall|k: int| 0 <= k < t ==> stage_view(#[trigger] out@[k]) == attach_stage(stage_view(stages@[k]), children_view(children@)),
    {
        let st = &stages[t];
        let mut jobs: Vec<JobInfo> = Vec::new();
        for i in 0..st.jobs.len()
            invariant
                jobs@.len() == i,
                forall|k: int| 0 <= k < i ==> job_view(#[trigger] jobs@[k]) == attach_job(job_view(st.jobs@[k]), children_view(children@)),
        {
            jobs.push(attach_job_exec(&st.jobs[i], children));
        }
        let ns = StageInfo { name: st.name.clone(), status: st.status.clone(), jobs };
        proof {
            lemma_jobs_view(ns.jobs@);
            lemma_jobs_view(st.jobs@);
            assert(jobs_view(ns.jobs@) =~= jobs_view(st.jobs@).map_values(|j: JobInfoView| attach_job(j, children_view(children@))));
        }
        out.push(ns);
    }
    proof {
        lemma_stages_view(out@);
        lemma_stages_view(stages@);
        assert(stages_view(out@) =~= attached(stages_view(stages@), children_view(children@)));
    }
    out
}

/// The commit title of the first job that carries one.
pub open spec fn first_commit_title(js: Seq<ApiJob>) -> Option<Seq<char>>
    decreases js.len(),
{
    if js.len() == 0 {
        None
    } else {
        match js[0].commit {
            Some(c) => match c.title {
                Some(t) => Some(t@),
                None => first_commit_title(js.drop_first()),
            },
            None => first_commit_title(js.drop_first()),
        }
    }
}

fn first_commit_title_of(js: &Vec<ApiJob>) -> (res: Option<String>)
    ensures
        opt_view(res) == first_commit_title(js@),
{
    let mut i: usize = 0;
    proof {
        assert(js@.skip(0) =~= js@);
    }
    while i < js.len()
        invariant
            i <= js@.len(),
            first_commit_title(js@) == first_commit_title(js@.skip(i as int)),
        decreases js@.len() - i,
    {
        proof {
            assert(js@.skip(i as int).drop_first() =~= js@.skip(i + 1));
        }
        match &js[i].commit {
            Some(c) => match &c.title {
                Some(t) => {
                    return Some(t.clone());
                },
                None => {},
            },
            None => {},
        }
        i += 1;
    }
    None
}

/// The whole breakdown of a GitLab pipeline: its jobs and bridge jobs split
/// into stages, with each bridge's downstream stages filled in.
pub open spec fn gitlab_stages_ok(all: Seq<ApiJob>, c: Seq<(u64, Seq<StageInfoView>)>, ss: Seq<StageInfoView>) -> bool {
    exists|grouped: Seq<StageInfoView>| #[trigger] stages_ok(all, grouped) && ss == attached(grouped, c)
}

/// A GitLab pipeline as the app shows it. Bridge jobs come from their own
/// endpoint with the same shape, so they are appended to the job list and
/// show up in their own stage, carrying the downstream pipeline's status.
pub fn gitlab_pipeline(
    id: &str,
    meta: ApiProject,
    pipeline: ApiPipeline,
    jobs: Vec<ApiJob>,
    bridges: Vec<ApiJob>,
    children: &Vec<(u64, Vec<StageInfo>)>,
) -> (res: PipelineInfo)
    ensures
        res@.project_id == id@,
        res@.project_name == meta.name_with_namespace@,
        res@.project_url == meta.web_url@,
        res@.id == pipeline.id,
        res@.git_ref == (match pipeline.git_ref {
            Some(r) => r@,
            None => "-"@,
        }),
        res@.sha == (match pipeline.sha {
            Some(s) => s@,
            None => Seq::empty(),
        }),
        res@.status == pipeline.status@,
        res@.source == opt_view(pipeline.source),
        res@.web_url == pipeline.web_url@,
        res@.created_at == opt_view(pipeline.created_at),
        res@.duration == (match pipeline.duration_bits {
            Some(b) => Some(Duration::Reported(b)),
            None => None,
        }),
        res@.triggered_by == person_name(pipeline.user),
        res@.commit_title == first_commit_title(jobs@ + bridges@),
        gitlab_stages_ok(jobs@ + bridges@, children_view(children@), res@.stages),
{
    let ghost all = jobs@ + bridges@;
    let mut jobs = jobs;
    let mut bridges = bridges;
    jobs.append(&mut bridges);
    assert(jobs@ == all);
    let commit_title = first_commit_title_of(&jobs);
    let grouped = group_stages(jobs.as_slice());
    let stages = attach_downstream_stages(&grouped, children);
    let git_ref = match pipeline.git_ref {
        Some(r) => r,
        None => String::from_str("-"),
    };
    let sha = match pipeline.sha {
        Some(s) => s,
        None => String::new(),
    };
    let duration = match pipeline.duration_bits {
        Some(b) => Some(Duration::Reported(b)),
        None => None,
    };
    let res = PipelineInfo {
        project_id: String::from_str(id),
        project_name: meta.name_with_namespace,
        project_url: meta.web_url,
        id: pipeline.id,
        git_ref,
        sha,
        status: pipeline.status,
        source: pipeline.source,
        web_url: pipeline.web_url,
        created_at: pipeline.created_at,
        duration,
        triggered_by: person_name_of(pipeline.user),
        commit_title,
        stages,
    };
    proof {
        assert(stages_ok(all, stages_view(grouped@)));
    }
    res
}

// ------------------------------------------------------------ clients --

/// A client ready for one provider.
pub enum Client {
    Gitlab(Gitlab),
    Github(Github),
    Azure(Azure),
}

pub open spec fn missing_token_message(kind: ProviderKind) -> Seq<char> {
    "Enter a token for "@ + provider_label(kind) + " in Settings first."@
}

pub open spec fn missing_org_message() -> Seq<char> {
    "Enter the organization URL for Azure in Settings first (https://dev.azure.com/organization)."@
}

/// The client for a provider, built from its token and the configured
/// address; a missing token, or for Azure a blank organization URL, is a
/// message for the user instead.
pub fn client_for(tokens: &ProviderMap, config: &AppConfig, kind: ProviderKind) -> (res: Result<Client, String>)
    ensures
        !tokens.to_map().contains_key(kind) ==> (res matches Err(m) && m@ == missing_token_message(kind)),
        tokens.to_map().contains_key(kind) && kind == ProviderKind::Azure && trimmed(config.azure_org_url@).len() == 0
            ==> (res matches Err(m) && m@ == missing_org_message()),
        tokens.to_map().contains_key(kind) && kind == ProviderKind::Gitlab ==> (res matches Ok(Client::Gitlab(g))
            && g.spec_base() == drop_back(config.gitlab_url@, CharClass::Only('/'))
            && g.spec_token() == tokens.to_map()[kind]),
        tokens.to_map().contains_key(kind) && kind == ProviderKind::Github ==> (res matches Ok(Client::Github(g))
            && g.spec_base() == drop_back(config.github_url@, CharClass::Only('/'))
            && g.spec_token() == tokens.to_map()[kind]),
        tokens.to_map().contains_key(kind) && kind == ProviderKind::Azure && trimmed(config.azure_org_url@).len() > 0
            ==> (res matches Ok(Client::Azure(a))
            && a.spec_org() == drop_back(config.azure_org_url@, CharClass::Only('/'))
            && a.spec_token() == tokens.to_map()[kind]),
{
    let token = match tokens.get(kind) {
        Some(t) => t.clone(),
        None => {
            let mut m = String::from_str("Enter a token for ");
            m.append(kind.label());
            m.append(" in Settings first.");
            return Err(m);
        },
    };
    match kind {
        ProviderKind::Gitlab => Ok(Client::Gitlab(Gitlab::new(config.gitlab_url.clone(), token))),
        ProviderKind::Github => Ok(Client::Github(Github::new(config.github_url.clone(), token))),
        ProviderKind::Azure => {
            let org = trim(config.azure_org_url.as_str());
            if org.as_str().is_empty() {
                return Err(
                    String::from_str(
                        "Enter the organization URL for Azure in Settings first (https://dev.azure.com/organization).",
                    ),
                );
            }
            Ok(Client::Azure(Azure::new(config.azure_org_url.clone(), token)))
        },
    }
}

pub open spec fn unsupported_message(provider: Seq<char>, what: Seq<char>) -> Seq<char> {
    "The "@ + provider + " API doesn't support "@ + what + "."@
}

/// The message for an operation a provider's API does not offer.
pub fn unsupported(provider: &str, what: &str) -> (res: String)
    ensures
        res@ == unsupported_message(provider@, what@),
{
    let mut m = String::from_str("The ");
    m.append(provider);
    m.append(" API doesn't support ");
    m.append(what);
    m.append(".");
    m
}

/// An operation on a single job.
#[derive(Debug, Clone, Copy, PartialEq, Eq, Structural)]
pub enum JobOp {
    Retry,
    Cancel,
    Play,
}

/// Whether a client's provider offers a single-job operation: GitLab offers
/// all three, GitHub only retrying, Azure DevOps none.
pub open spec fn job_op_supported(c: Client, op: JobOp) -> bool {
    match c {
        Client::Gitlab(_) => true,
        Client::Github(_) => op == JobOp::Retry,
        Client::Azure(_) => false,
    }
}

pub open spec fn job_op_words(op: JobOp) -> Seq<char> {
    match op {
        JobOp::Retry => "retrying a single job"@,
        JobOp::Cancel => "canceling a single job"@,
        JobOp::Play => "manually starting a job"@,
    }
}

pub open spec fn client_provider_name(c: Client) -> Seq<char> {
    match c {
        Client::Gitlab(_) => "GitLab"@,
        Client::Github(_) => "GitHub"@,
        Client::Azure(_) => "Azure DevOps"@,
    }
}

impl Client {
    /// Refuses a single-job operation the provider's API does not offer,
    /// with the message the user sees.
    pub fn check_job_op(&self, op: JobOp) -> (res: Result<(), String>)
        ensures
            job_op_supported(*self, op) ==> res is Ok,
            !job_op_supported(*self, op) ==> (res matches Err(m) && m@ == unsupported_message(
                client_provider_name(*self),
                job_op_words(op),
            )),
    {
        let words: &str = match op {
            JobOp::Retry => "retrying a single job",
            JobOp::Cancel => "canceling a single job",
            JobOp::Play => "manually starting a job",
        };
        match self {
            Client::Gitlab(_) => Ok(()),
            Client::Github(_) => if op == JobOp::Retry {
                Ok(())
            } else {
                Err(unsupported("GitHub", words))
            },
            Client::Azure(_) => Err(unsupported("Azure DevOps", words)),
        }
    }
}

} // verus!
