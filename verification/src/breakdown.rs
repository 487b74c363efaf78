//! The order of a pipeline's jobs does not matter to its stage breakdown:
//! with each id given once, any arrangement of the same jobs is split into
//! the same stages, in the same order, showing the same attempts.

use vstd::prelude::*;

use crate::gitlab::ApiJob;
use crate::model::{aggregate_spec, JobInfoView, StageInfoView};
use crate::order::rank_lt;
use crate::providers::{
    in_slot, job_row, lemma_slot_index_bounds, row_items, slot_latest_index, slot_min_id, slot_rank,
    stage_key, stage_min_id, stage_ok, stage_rank, stages_ok, stage_first_index,
    lemma_stage_index_bounds,
};

verus! {

/// No two jobs share an id.
pub open spec fn ids_distinct(js: Seq<ApiJob>) -> bool {
    forall|a: int, b: int|
        0 <= a < js.len() && 0 <= b < js.len() && a != b ==> (#[trigger] js[a]).id != (#[trigger] js[b]).id
}

/// The two lists hold the same jobs, in whatever order.
pub open spec fn same_jobs(a: Seq<ApiJob>, b: Seq<ApiJob>) -> bool {
    forall|x: ApiJob| a.contains(x) <==> b.contains(x)
}

proof fn lemma_slot_min(js: Seq<ApiJob>, k: Seq<char>, n: Seq<char>)
    ensures
        (slot_min_id(js, k, n) is None) == !(exists|i: int| 0 <= i < js.len() && in_slot(#[trigger] js[i], k, n)),
        slot_min_id(js, k, n) matches Some(m) ==> (exists|i: int|
            0 <= i < js.len() && in_slot(#[trigger] js[i], k, n) && js[i].id == m) && (forall|i: int|
            0 <= i < js.len() && in_slot(#[trigger] js[i], k, n) ==> m <= js[i].id),
    decreases js.len(),
{
    if js.len() > 0 {
        let d = js.drop_last();
        lemma_slot_min(d, k, n);
        let last = js.len() - 1;
        assert(js[last] == js.last());
        assert forall|i: int| 0 <= i < d.len() implies #[trigger] d[i] == js[i] by {}
        if exists|i: int| 0 <= i < d.len() && in_slot(#[trigger] d[i], k, n) {
            let i = choose|i: int| 0 <= i < d.len() && in_slot(#[trigger] d[i], k, n);
            assert(in_slot(js[i], k, n));
        }
        if exists|i: int| 0 <= i < js.len() && in_slot(#[trigger] js[i], k, n) {
            let i = choose|i: int| 0 <= i < js.len() && in_slot(#[trigger] js[i], k, n);
            if i < last {
                assert(in_slot(d[i], k, n));
            }
        }
        if let Some(m) = slot_min_id(js, k, n) {
            assert forall|i: int| 0 <= i < js.len() && in_slot(#[trigger] js[i], k, n) implies m <= js[i].id by {
                if i < last {
                    assert(in_slot(d[i], k, n));
                }
            }
            if let Some(m0) = slot_min_id(d, k, n) {
                let j = choose|i: int| 0 <= i < d.len() && in_slot(#[trigger] d[i], k, n) && d[i].id == m0;
                if m == m0 {
                    assert(in_slot(js[j], k, n) && js[j].id == m);
                } else {
                    assert(in_slot(js[last], k, n) && js[last].id == m);
                }
            } else {
                assert(in_slot(js[last], k, n) && js[last].id == m);
            }
        }
    }
}

proof fn lemma_stage_min(js: Seq<ApiJob>, k: Seq<char>)
    ensures
        (stage_min_id(js, k) is None) == !(exists|i: int| 0 <= i < js.len() && stage_key(#[trigger] js[i]) == k),
        stage_min_id(js, k) matches Some(m) ==> (exists|i: int|
            0 <= i < js.len() && stage_key(#[trigger] js[i]) == k && js[i].id == m) && (forall|i: int|
            0 <= i < js.len() && stage_key(#[trigger] js[i]) == k ==> m <= js[i].id),
    decreases js.len(),
{
    if js.len() > 0 {
        let d = js.drop_last();
        lemma_stage_min(d, k);
        let last = js.len() - 1;
        assert(js[last] == js.last());
        assert forall|i: int| 0 <= i < d.len() implies #[trigger] d[i] == js[i] by {}
        if exists|i: int| 0 <= i < d.len() && stage_key(#[trigger] d[i]) == k {
            let i = choose|i: int| 0 <= i < d.len() && stage_key(#[trigger] d[i]) == k;
            assert(stage_key(js[i]) == k);
        }
        if exists|i: int| 0 <= i < js.len() && stage_key(#[trigger] js[i]) == k {
            let i = choose|i: int| 0 <= i < js.len() && stage_key(#[trigger] js[i]) == k;
            if i < last {
                assert(stage_key(d[i]) == k);
            }
        }
        if let Some(m) = stage_min_id(js, k) {
            assert forall|i: int| 0 <= i < js.len() && stage_key(#[trigger] js[i]) == k implies m <= js[i].id by {
                if i < last {
                    assert(stage_key(d[i]) == k);
                }
            }
            if let Some(m0) = stage_min_id(d, k) {
                let j = choose|i: int| 0 <= i < d.len() && stage_key(#[trigger] d[i]) == k && d[i].id == m0;
                if m == m0 {
                    assert(stage_key(js[j]) == k && js[j].id == m);
                } else {
                    assert(stage_key(js[last]) == k && js[last].id == m);
                }
            } else {
                assert(stage_key(js[last]) == k && js[last].id == m);
            }
        }
    }
}

proof fn lemma_slot_latest_max(js: Seq<ApiJob>, k: Seq<char>, n: Seq<char>)
    ensures
        slot_latest_index(js, k, n) matches Some(l) ==> forall|i: int|
            0 <= i < js.len() && in_slot(#[trigger] js[i], k, n) ==> js[i].id <= js[l].id,
    decreases js.len(),
{
    if js.len() > 0 {
        let d = js.drop_last();
        lemma_slot_latest_max(d, k, n);
        lemma_slot_index_bounds(d, k, n);
        let last = js.len() - 1;
        assert(js[last] == js.last());
        if let Some(l) = slot_latest_index(js, k, n) {
            assert forall|i: int| 0 <= i < js.len() && in_slot(#[trigger] js[i], k, n) implies js[i].id
                <= js[l].id by {
                if i < last {
                    assert(d[i] == js[i]);
                    assert(in_slot(d[i], k, n));
                    if let Some(l0) = slot_latest_index(d, k, n) {
                        assert(d[l0] == js[l0]);
                    }
                }
            }
        }
    }
}

proof fn lemma_same_slot_min(jobs: Seq<ApiJob>, p: Seq<ApiJob>, k: Seq<char>, n: Seq<char>)
    requires
        same_jobs(jobs, p),
    ensures
        slot_min_id(jobs, k, n) == slot_min_id(p, k, n),
{
    lemma_slot_min(jobs, k, n);
    lemma_slot_min(p, k, n);
    if exists|i: int| 0 <= i < jobs.len() && in_slot(#[trigger] jobs[i], k, n) {
        let i = choose|i: int| 0 <= i < jobs.len() && in_slot(#[trigger] jobs[i], k, n);
        assert(jobs.contains(jobs[i]));
        assert(p.contains(jobs[i]));
        let j = choose|j: int| 0 <= j < p.len() && p[j] == jobs[i];
        assert(in_slot(p[j], k, n));
    }
    if exists|j: int| 0 <= j < p.len() && in_slot(#[trigger] p[j], k, n) {
        let j = choose|j: int| 0 <= j < p.len() && in_slot(#[trigger] p[j], k, n);
        assert(p.contains(p[j]));
        assert(jobs.contains(p[j]));
        let i = choose|i: int| 0 <= i < jobs.len() && jobs[i] == p[j];
        assert(in_slot(jobs[i], k, n));
    }
    if let (Some(m), Some(q)) = (slot_min_id(jobs, k, n), slot_min_id(p, k, n)) {
        let i = choose|i: int| 0 <= i < jobs.len() && in_slot(#[trigger] jobs[i], k, n) && jobs[i].id == m;
        assert(jobs.contains(jobs[i]));
        assert(p.contains(jobs[i]));
        let j = choose|j: int| 0 <= j < p.len() && p[j] == jobs[i];
        assert(in_slot(p[j], k, n));
        let j2 = choose|j: int| 0 <= j < p.len() && in_slot(#[trigger] p[j], k, n) && p[j].id == q;
        assert(p.contains(p[j2]));
        assert(jobs.contains(p[j2]));
        let i2 = choose|i: int| 0 <= i < jobs.len() && jobs[i] == p[j2];
        assert(in_slot(jobs[i2], k, n));
    }
}

proof fn lemma_same_stage_min(jobs: Seq<ApiJob>, p: Seq<ApiJob>, k: Seq<char>)
    requires
        same_jobs(jobs, p),
    ensures
        stage_min_id(jobs, k) == stage_min_id(p, k),
{
    lemma_stage_min(jobs, k);
    lemma_stage_min(p, k);
    if exists|i: int| 0 <= i < jobs.len() && stage_key(#[trigger] jobs[i]) == k {
        let i = choose|i: int| 0 <= i < jobs.len() && stage_key(#[trigger] jobs[i]) == k;
        assert(jobs.contains(jobs[i]));
        assert(p.contains(jobs[i]));
        let j = choose|j: int| 0 <= j < p.len() && p[j] == jobs[i];
        assert(stage_key(p[j]) == k);
    }
    if exists|j: int| 0 <= j < p.len() && stage_key(#[trigger] p[j]) == k {
        let j = choose|j: int| 0 <= j < p.len() && stage_key(#[trigger] p[j]) == k;
        assert(p.contains(p[j]));
        assert(jobs.contains(p[j]));
        let i = choose|i: int| 0 <= i < jobs.len() && jobs[i] == p[j];
        assert(stage_key(jobs[i]) == k);
    }
    if let (Some(m), Some(q)) = (stage_min_id(jobs, k), stage_min_id(p, k)) {
        let i = choose|i: int| 0 <= i < jobs.len() && stage_key(#[trigger] jobs[i]) == k && jobs[i].id == m;
        assert(jobs.contains(jobs[i]));
        assert(p.contains(jobs[i]));
        let j = choose|j: int| 0 <= j < p.len() && p[j] == jobs[i];
        assert(stage_key(p[j]) == k);
        let j2 = choose|j: int| 0 <= j < p.len() && stage_key(#[trigger] p[j]) == k && p[j].id == q;
        assert(p.contains(p[j2]));
        assert(jobs.contains(p[j2]));
        let i2 = choose|i: int| 0 <= i < jobs.len() && jobs[i] == p[j2];
        assert(stage_key(jobs[i2]) == k);
    }
}

proof fn lemma_same_latest(jobs: Seq<ApiJob>, p: Seq<ApiJob>, k: Seq<char>, n: Seq<char>)
    requires
        same_jobs(jobs, p),
        ids_distinct(jobs),
        slot_latest_index(jobs, k, n) is Some,
    ensures
        slot_latest_index(p, k, n) is Some,
        p[slot_latest_index(p, k, n)->0] == jobs[slot_latest_index(jobs, k, n)->0],
{
    lemma_slot_index_bounds(jobs, k, n);
    lemma_slot_index_bounds(p, k, n);
    lemma_slot_latest_max(jobs, k, n);
    lemma_slot_latest_max(p, k, n);
    let l = slot_latest_index(jobs, k, n)->0;
    let x = jobs[l];
    assert(jobs.contains(x));
    assert(p.contains(x));
    let i = choose|i: int| 0 <= i < p.len() && p[i] == x;
    assert(in_slot(p[i], k, n));
    let lp = slot_latest_index(p, k, n)->0;
    let y = p[lp];
    assert(p.contains(y));
    assert(jobs.contains(y));
    let j = choose|j: int| 0 <= j < jobs.len() && jobs[j] == y;
    assert(in_slot(jobs[j], k, n));
    assert(x.id <= y.id);
    assert(y.id <= x.id);
    if j != l {
        assert(jobs[j].id != jobs[l].id);
    }
}

proof fn lemma_stage_ok_transfer(jobs: Seq<ApiJob>, p: Seq<ApiJob>, st: StageInfoView)
    requires
        same_jobs(jobs, p),
        ids_distinct(jobs),
        stage_ok(jobs, st),
    ensures
        stage_ok(p, st),
{
    let name = st.name;
    lemma_stage_index_bounds(jobs, name);
    lemma_stage_index_bounds(p, name);
    let i0 = stage_first_index(jobs, name)->0;
    assert(jobs.contains(jobs[i0]));
    assert(p.contains(jobs[i0]));
    let j0 = choose|j: int| 0 <= j < p.len() && p[j] == jobs[i0];
    assert(stage_key(p[j0]) == name);
    assert forall|r: int| 0 <= r < st.jobs.len() implies (#[trigger] slot_latest_index(p, name, st.jobs[r].name)
        is Some && st.jobs[r] == job_row(p[slot_latest_index(p, name, st.jobs[r].name)->0])) by {
        assert(slot_latest_index(jobs, name, st.jobs[r].name) is Some);
        lemma_same_latest(jobs, p, name, st.jobs[r].name);
    }
    assert forall|i: int| 0 <= i < p.len() && #[trigger] stage_key(p[i]) == name implies exists|r: int|
        0 <= r < st.jobs.len() && #[trigger] st.jobs[r].name == p[i].name@ by {
        assert(p.contains(p[i]));
        assert(jobs.contains(p[i]));
        let j = choose|j: int| 0 <= j < jobs.len() && jobs[j] == p[i];
        assert(stage_key(jobs[j]) == name);
    }
    assert forall|a: int, b: int| 0 <= a < b < st.jobs.len() implies rank_lt(
        slot_rank(p, name, #[trigger] st.jobs[a].name),
        slot_rank(p, name, #[trigger] st.jobs[b].name),
    ) by {
        let na = st.jobs[a].name;
        let nb = st.jobs[b].name;
        assert(rank_lt(slot_rank(jobs, name, na), slot_rank(jobs, name, nb)));
        assert(slot_latest_index(jobs, name, na) is Some);
        assert(slot_latest_index(jobs, name, nb) is Some);
        lemma_slot_index_bounds(jobs, name, na);
        lemma_slot_index_bounds(jobs, name, nb);
        lemma_slot_min(jobs, name, na);
        lemma_slot_min(jobs, name, nb);
        lemma_same_slot_min(jobs, p, name, na);
        lemma_same_slot_min(jobs, p, name, nb);
        let ma = slot_min_id(jobs, name, na)->0;
        let mb = slot_min_id(jobs, name, nb)->0;
        if ma == mb {
            let ia = choose|i: int| 0 <= i < jobs.len() && in_slot(#[trigger] jobs[i], name, na) && jobs[i].id == ma;
            let ib = choose|i: int| 0 <= i < jobs.len() && in_slot(#[trigger] jobs[i], name, nb) && jobs[i].id == mb;
            if ia != ib {
                assert(jobs[ia].id != jobs[ib].id);
            }
            assert(na == nb);
        }
    }
}

proof fn lemma_stage_rank_transfer(jobs: Seq<ApiJob>, p: Seq<ApiJob>, na: Seq<char>, nb: Seq<char>)
    requires
        same_jobs(jobs, p),
        ids_distinct(jobs),
        rank_lt(stage_rank(jobs, na), stage_rank(jobs, nb)),
        has_stage(jobs, na),
        has_stage(jobs, nb),
    ensures
        rank_lt(stage_rank(p, na), stage_rank(p, nb)),
{
    lemma_stage_min(jobs, na);
    lemma_stage_min(jobs, nb);
    lemma_same_stage_min(jobs, p, na);
    lemma_same_stage_min(jobs, p, nb);
    let ma = stage_min_id(jobs, na)->0;
    let mb = stage_min_id(jobs, nb)->0;
    if ma == mb {
        let ia = choose|i: int| 0 <= i < jobs.len() && stage_key(#[trigger] jobs[i]) == na && jobs[i].id == ma;
        let ib = choose|i: int| 0 <= i < jobs.len() && stage_key(#[trigger] jobs[i]) == nb && jobs[i].id == mb;
        if ia != ib {
            assert(jobs[ia].id != jobs[ib].id);
        }
        assert(na == nb);
    }
}

/// Some job of `js` is in the stage named `name`.
spec fn has_stage(js: Seq<ApiJob>, name: Seq<char>) -> bool {
    exists|i: int| 0 <= i < js.len() && #[trigger] stage_key(js[i]) == name
}

/// Each stage of `ss` is right for `js`.
#[verifier::opaque]
spec fn each_stage_ok(js: Seq<ApiJob>, ss: Seq<StageInfoView>) -> bool {
    forall|t: int| 0 <= t < ss.len() ==> stage_ok(js, #[trigger] ss[t])
}

/// The stages of `ss` come in rank order.
#[verifier::opaque]
spec fn in_rank_order(js: Seq<ApiJob>, ss: Seq<StageInfoView>) -> bool {
    forall|a: int, b: int|
        0 <= a < b < ss.len() ==> rank_lt(stage_rank(js, #[trigger] ss[a].name), stage_rank(js, #[trigger] ss[b].name))
}

proof fn lemma_split_parts(js: Seq<ApiJob>, ss: Seq<StageInfoView>)
    requires
        stages_ok(js, ss),
    ensures
        each_stage_ok(js, ss),
        in_rank_order(js, ss),
{
    assert(each_stage_ok(js, ss)) by {
        reveal(each_stage_ok);
        assert forall|t: int| 0 <= t < ss.len() implies stage_ok(js, #[trigger] ss[t]) by {}
    }
    assert(in_rank_order(js, ss)) by {
        reveal(in_rank_order);
    }
}


proof fn lemma_each_transfer(jobs: Seq<ApiJob>, p: Seq<ApiJob>, ss: Seq<StageInfoView>)
    requires
        same_jobs(jobs, p),
        ids_distinct(jobs),
        each_stage_ok(jobs, ss),
    ensures
        each_stage_ok(p, ss),
        forall|t: int| 0 <= t < ss.len() ==> has_stage(jobs, #[trigger] ss[t].name),
{
    reveal(each_stage_ok);
    assert forall|t: int| 0 <= t < ss.len() implies stage_ok(p, #[trigger] ss[t]) by {
        lemma_stage_ok_transfer(jobs, p, ss[t]);
    }
    assert forall|t: int| 0 <= t < ss.len() implies has_stage(jobs, #[trigger] ss[t].name) by {
        assert(stage_ok(jobs, ss[t]));
        lemma_stage_index_bounds(jobs, ss[t].name);
        let f = stage_first_index(jobs, ss[t].name)->0;
        assert(stage_key(jobs[f]) == ss[t].name);
    }
}


proof fn lemma_order_transfer(jobs: Seq<ApiJob>, p: Seq<ApiJob>, ss: Seq<StageInfoView>)
    requires
        same_jobs(jobs, p),
        ids_distinct(jobs),
        in_rank_order(jobs, ss),
        forall|t: int| 0 <= t < ss.len() ==> has_stage(jobs, #[trigger] ss[t].name),
    ensures
        in_rank_order(p, ss),
{
    reveal(in_rank_order);
    assert forall|a: int, b: int| 0 <= a < b < ss.len() implies rank_lt(
        stage_rank(p, #[trigger] ss[a].name),
        stage_rank(p, #[trigger] ss[b].name),
    ) by {
        assert(has_stage(jobs, ss[a].name));
        assert(has_stage(jobs, ss[b].name));
        lemma_stage_rank_transfer(jobs, p, ss[a].name, ss[b].name);
    }
}

/// Some stage of `ss` is named `k`.
spec fn has_listed(ss: Seq<StageInfoView>, k: Seq<char>) -> bool {
    exists|t: int| 0 <= t < ss.len() && #[trigger] ss[t].name == k
}

/// Every job's stage is in `ss`.
#[verifier::opaque]
spec fn covers(js: Seq<ApiJob>, ss: Seq<StageInfoView>) -> bool {
    forall|i: int| 0 <= i < js.len() ==> #[trigger] has_listed(ss, stage_key(js[i]))
}

proof fn lemma_split_covers(js: Seq<ApiJob>, ss: Seq<StageInfoView>)
    requires
        stages_ok(js, ss),
    ensures
        covers(js, ss),
{
    reveal(covers);
    assert forall|i: int| 0 <= i < js.len() implies #[trigger] has_listed(ss, stage_key(js[i])) by {
        let x = js[i];
    }
}

proof fn lemma_covers_transfer(jobs: Seq<ApiJob>, p: Seq<ApiJob>, ss: Seq<StageInfoView>)
    requires
        same_jobs(jobs, p),
        covers(jobs, ss),
    ensures
        covers(p, ss),
{
    reveal(covers);
    assert forall|i: int| 0 <= i < p.len() implies #[trigger] has_listed(ss, stage_key(p[i])) by {
        assert(p.contains(p[i]));
        assert(jobs.contains(p[i]));
        let j = choose|j: int| 0 <= j < jobs.len() && jobs[j] == p[i];
        assert(has_listed(ss, stage_key(jobs[j])));
    }
}

proof fn lemma_join(js: Seq<ApiJob>, ss: Seq<StageInfoView>)
    requires
        each_stage_ok(js, ss),
        covers(js, ss),
        in_rank_order(js, ss),
    ensures
        stages_ok(js, ss),
{
    reveal(each_stage_ok);
    reveal(covers);
    reveal(in_rank_order);
    assert forall|t: int| 0 <= t < ss.len() implies stage_ok(js, #[trigger] ss[t]) by {}
    assert forall|i: int| 0 <= i < js.len() implies exists|t: int|
        0 <= t < ss.len() && #[trigger] ss[t].name == stage_key(#[trigger] js[i]) by {
        assert(has_listed(ss, stage_key(js[i])));
    }
    // A stage in hand lets the clause above be matched against the goal;
    // with no stage at all there is no job either.
    if ss.len() > 0 {
        let z = ss[0];
    } else if js.len() > 0 {
        assert(has_listed(ss, stage_key(js[0])));
    }
}

/// A breakdown that is right for a list of jobs (each id once) is right for
/// the same jobs in any other order: stage order, job order within a stage
/// and the attempt shown all follow the jobs' ids, never their positions.
pub proof fn law_stage_breakdown_ignores_job_order(jobs: Seq<ApiJob>, p: Seq<ApiJob>, ss: Seq<StageInfoView>)
    requires
        ids_distinct(jobs),
        same_jobs(jobs, p),
        stages_ok(jobs, ss),
    ensures
        stages_ok(p, ss),
{
    lemma_split_parts(jobs, ss);
    lemma_split_covers(jobs, ss);
    lemma_each_transfer(jobs, p, ss);
    lemma_order_transfer(jobs, p, ss);
    lemma_covers_transfer(jobs, p, ss);
    lemma_join(p, ss);
}

// ------------------------------------------------------------ one breakdown --

/// Two lists of names, each strictly increasing by the same rank and
/// holding the same names, are the same list.
proof fn lemma_sorted_equal(a: Seq<Seq<char>>, b: Seq<Seq<char>>, r: spec_fn(Seq<char>) -> (u64, int))
    requires
        forall|i: int, j: int| 0 <= i < j < a.len() ==> rank_lt(r(#[trigger] a[i]), r(#[trigger] a[j])),
        forall|i: int, j: int| 0 <= i < j < b.len() ==> rank_lt(r(#[trigger] b[i]), r(#[trigger] b[j])),
        forall|x: Seq<char>| a.contains(x) <==> b.contains(x),
    ensures
        a == b,
    decreases a.len(),
{
    if a.len() == 0 {
        if b.len() > 0 {
            assert(b.contains(b[0]));
        }
        assert(a =~= b);
    } else {
        assert(a.contains(a[0]));
        assert(b.len() > 0);
        assert(b.contains(b[0]));
        let u = choose|u: int| 0 <= u < b.len() && b[u] == a[0];
        let v = choose|v: int| 0 <= v < a.len() && a[v] == b[0];
        if u > 0 && v > 0 {
            assert(rank_lt(r(b[0]), r(b[u])));
            assert(rank_lt(r(a[0]), r(a[v])));
        }
        assert(a[0] == b[0]);
        let at = a.drop_first();
        let bt = b.drop_first();
        assert forall|i: int, j: int| 0 <= i < j < at.len() implies rank_lt(r(#[trigger] at[i]), r(#[trigger] at[j])) by {
            assert(at[i] == a[i + 1] && at[j] == a[j + 1]);
        }
        assert forall|i: int, j: int| 0 <= i < j < bt.len() implies rank_lt(r(#[trigger] bt[i]), r(#[trigger] bt[j])) by {
            assert(bt[i] == b[i + 1] && bt[j] == b[j + 1]);
        }
        assert forall|x: Seq<char>| at.contains(x) <==> bt.contains(x) by {
            if at.contains(x) {
                let k = choose|k: int| 0 <= k < at.len() && at[k] == x;
                assert(a[k + 1] == x);
                assert(a.contains(x));
                let m = choose|m: int| 0 <= m < b.len() && b[m] == x;
                if m == 0 {
                    assert(rank_lt(r(a[0]), r(a[k + 1])));
                }
                assert(bt[m - 1] == x);
            }
            if bt.contains(x) {
                let k = choose|k: int| 0 <= k < bt.len() && bt[k] == x;
                assert(b[k + 1] == x);
                assert(b.contains(x));
                let m = choose|m: int| 0 <= m < a.len() && a[m] == x;
                if m == 0 {
                    assert(rank_lt(r(b[0]), r(b[k + 1])));
                }
                assert(at[m - 1] == x);
            }
        }
        lemma_sorted_equal(at, bt, r);
        assert(a =~= b) by {
            assert forall|i: int| 0 <= i < a.len() implies a[i] == b[i] by {
                if i > 0 {
                    assert(a[i] == at[i - 1] && b[i] == bt[i - 1]);
                }
            }
        }
    }
}

pub open spec fn row_names(rows: Seq<JobInfoView>) -> Seq<Seq<char>> {
    rows.map_values(|j: JobInfoView| j.name)
}

pub open spec fn stage_names(ss: Seq<StageInfoView>) -> Seq<Seq<char>> {
    ss.map_values(|st: StageInfoView| st.name)
}

proof fn lemma_rows_named(js: Seq<ApiJob>, x: StageInfoView, y: StageInfoView, n: Seq<char>)
    requires
        stage_ok(js, x),
        stage_ok(js, y),
        x.name == y.name,
        row_names(x.jobs).contains(n),
    ensures
        row_names(y.jobs).contains(n),
{
    let k = choose|k: int| 0 <= k < row_names(x.jobs).len() && row_names(x.jobs)[k] == n;
    assert(x.jobs[k].name == n);
    assert(slot_latest_index(js, x.name, x.jobs[k].name) is Some);
    lemma_slot_index_bounds(js, x.name, n);
    let l = slot_latest_index(js, x.name, n)->0;
    assert(stage_key(js[l]) == y.name);
    let r = choose|r: int| 0 <= r < y.jobs.len() && #[trigger] y.jobs[r].name == js[l].name@;
    assert(row_names(y.jobs)[r] == n);
}

#[verifier::spinoff_prover]
proof fn lemma_stage_unique(js: Seq<ApiJob>, x: StageInfoView, y: StageInfoView)
    requires
        stage_ok(js, x),
        stage_ok(js, y),
        x.name == y.name,
    ensures
        x == y,
{
    let rk = |n: Seq<char>| slot_rank(js, x.name, n);
    let xa = row_names(x.jobs);
    let ya = row_names(y.jobs);
    assert forall|i: int, j: int| 0 <= i < j < xa.len() implies rank_lt(rk(#[trigger] xa[i]), rk(#[trigger] xa[j])) by {
        assert(xa[i] == x.jobs[i].name && xa[j] == x.jobs[j].name);
    }
    assert forall|i: int, j: int| 0 <= i < j < ya.len() implies rank_lt(rk(#[trigger] ya[i]), rk(#[trigger] ya[j])) by {
        assert(ya[i] == y.jobs[i].name && ya[j] == y.jobs[j].name);
    }
    assert forall|n: Seq<char>| xa.contains(n) <==> ya.contains(n) by {
        if xa.contains(n) {
            lemma_rows_named(js, x, y, n);
        }
        if ya.contains(n) {
            lemma_rows_named(js, y, x, n);
        }
    }
    lemma_sorted_equal(xa, ya, rk);
    assert(x.jobs =~= y.jobs) by {
        assert forall|k: int| 0 <= k < x.jobs.len() implies x.jobs[k] == y.jobs[k] by {
            assert(xa[k] == ya[k]);
            assert(slot_latest_index(js, x.name, x.jobs[k].name) is Some);
            assert(slot_latest_index(js, y.name, y.jobs[k].name) is Some);
        }
    }
}

proof fn lemma_stage_named(js: Seq<ApiJob>, a: Seq<StageInfoView>, b: Seq<StageInfoView>, n: Seq<char>)
    requires
        stages_ok(js, a),
        stages_ok(js, b),
        stage_names(a).contains(n),
    ensures
        stage_names(b).contains(n),
{
    let t = choose|t: int| 0 <= t < stage_names(a).len() && stage_names(a)[t] == n;
    assert(stage_ok(js, a[t]));
    lemma_stage_index_bounds(js, n);
    let f = stage_first_index(js, n)->0;
    assert(stage_key(js[f]) == n);
    let u = choose|u: int| 0 <= u < b.len() && #[trigger] b[u].name == stage_key(js[f]);
    assert(stage_names(b)[u] == n);
}

/// There is one breakdown that is right for a list of jobs.
#[verifier::spinoff_prover]
#[verifier::rlimit(30)]
proof fn lemma_stages_unique(js: Seq<ApiJob>, a: Seq<StageInfoView>, b: Seq<StageInfoView>)
    requires
        stages_ok(js, a),
        stages_ok(js, b),
    ensures
        a == b,
{
    let rk = |n: Seq<char>| stage_rank(js, n);
    let na = stage_names(a);
    let nb = stage_names(b);
    assert forall|i: int, j: int| 0 <= i < j < na.len() implies rank_lt(rk(#[trigger] na[i]), rk(#[trigger] na[j])) by {
        assert(na[i] == a[i].name && na[j] == a[j].name);
    }
    assert forall|i: int, j: int| 0 <= i < j < nb.len() implies rank_lt(rk(#[trigger] nb[i]), rk(#[trigger] nb[j])) by {
        assert(nb[i] == b[i].name && nb[j] == b[j].name);
    }
    assert forall|n: Seq<char>| na.contains(n) <==> nb.contains(n) by {
        if na.contains(n) {
            lemma_stage_named(js, a, b, n);
        }
        if nb.contains(n) {
            lemma_stage_named(js, b, a, n);
        }
    }
    lemma_sorted_equal(na, nb, rk);
    assert(na.len() == a.len() && nb.len() == b.len());
    assert(a.len() == b.len());
    assert(a =~= b) by {
        assert forall|t: int| 0 <= t < a.len() implies a[t] == b[t] by {
            assert(na[t] == nb[t]);
            assert(stage_ok(js, a[t]));
            assert(stage_ok(js, b[t]));
            lemma_stage_unique(js, a[t], b[t]);
        }
    }
}

/// Splitting the same jobs (each id once) in any order gives the same
/// breakdown: what `group_stages` returns for one order it returns for every
/// other.
pub proof fn law_same_jobs_same_breakdown(
    jobs: Seq<ApiJob>,
    p: Seq<ApiJob>,
    a: Seq<StageInfoView>,
    b: Seq<StageInfoView>,
)
    requires
        ids_distinct(jobs),
        same_jobs(jobs, p),
        stages_ok(jobs, a),
        stages_ok(p, b),
    ensures
        a == b,
{
    law_stage_breakdown_ignores_job_order(jobs, p, a);
    lemma_stages_unique(p, a, b);
}

} // verus!
