//! Producing a snapshot, and deciding what to announce about it.
//!
//! Fetching happens outside the library, one watched project after the
//! other; what each fetch gave is turned into the snapshot here. Between
//! refreshes `Memory` keeps each project's last pipeline status and the merge
//! requests already seen, and `Memory::observe` decides which desktop
//! notifications (and ticker lines) a new snapshot calls for. Nothing is
//! announced on first sight: the app shouldn't re-announce old failures, or
//! merge requests that have been open for months, the moment it starts.

use vstd::prelude::*;

use crate::keyed::KeyedList;
use crate::model::{
    aggregate, aggregate_spec, merge_requests_view, opt_view, projects_view, status_items,
    AppConfig, AppConfigView, MergeRequestInfo, MergeRequestInfoView, PipelineInfo,
    PipelineInfoView, ProjectSnapshot, ProjectSnapshotView, Snapshot, StatusItem, WatchedProject,
};
use crate::text::{decimal, decimal_string, str_eq};

verus! {

broadcast use vstd::string::group_string_axioms;

/// A short announcement for the notch's scrolling ticker.
pub struct TickerItem {
    pub text: String,
    pub url: Option<String>,
}

/// A desktop notification, and the ticker line that goes with it.
pub struct Alert {
    pub title: String,
    pub body: String,
    pub ticker: TickerItem,
}

pub struct AlertView {
    pub title: Seq<char>,
    pub body: Seq<char>,
    pub text: Seq<char>,
    pub url: Option<Seq<char>>,
}

impl View for Alert {
    type V = AlertView;

    open spec fn view(&self) -> AlertView {
        AlertView {
            title: self.title@,
            body: self.body@,
            text: self.ticker.text@,
            url: opt_view(self.ticker.url),
        }
    }
}

pub open spec fn alerts_view(v: Seq<Alert>) -> Seq<AlertView> {
    v.map_values(|a: Alert| a@)
}

// ------------------------------------------------------------ snapshot --

/// A project's status for the summary: "failed" when it could not be
/// fetched, "none" when it has no pipeline.
pub open spec fn project_status(p: ProjectSnapshotView) -> Seq<char> {
    if p.error is Some {
        "failed"@
    } else {
        match p.pipeline {
            Some(pl) => pl.status,
            None => "none"@,
        }
    }
}

pub open spec fn overall_spec(ps: Seq<ProjectSnapshotView>) -> Seq<char> {
    aggregate_spec(ps.map_values(|p: ProjectSnapshotView| (project_status(p), false)))
}

pub fn project_status_of(p: &ProjectSnapshot) -> (res: &str)
    ensures
        res@ == project_status(p@),
{
    if p.error.is_some() {
        "failed"
    } else {
        match &p.pipeline {
            Some(pl) => pl.status.as_str(),
            None => "none",
        }
    }
}

/// The summary status of all watched projects.
pub fn overall_status(projects: &Vec<ProjectSnapshot>) -> (res: String)
    ensures
        res@ == overall_spec(projects_view(projects@)),
{
    let mut items: Vec<(&str, bool)> = Vec::new();
    for i in 0..projects.len()
        invariant
            items@.len() == i,
            forall|k: int| 0 <= k < i ==> (#[trigger] items@[k]).0@ == project_status(projects@[k]@) && !items@[k].1,
    {
        items.push((project_status_of(&projects[i]), false));
    }
    proof {
        assert(status_items(items@) =~= projects_view(projects@).map_values(
            |p: ProjectSnapshotView| (project_status(p), false),
        ));
    }
    aggregate(items.as_slice())
}

/// One project's card: what its fetch gave, or the error that stopped it.
/// One project's error doesn't affect the others.
pub fn project_entry(
    project: WatchedProject,
    outcome: Result<(Option<PipelineInfo>, Vec<MergeRequestInfo>), String>,
) -> (res: ProjectSnapshot)
    ensures
        res@.project == project@,
        match outcome {
            Ok((pl, mrs)) => res@.pipeline == (match pl {
                Some(p) => Some(p@),
                None => None::<PipelineInfoView>,
            }) && res@.merge_requests == merge_requests_view(mrs@) && res@.error is None,
            Err(m) => res@.pipeline is None && res@.merge_requests.len() == 0 && res@.error == Some(m@),
        },
{
    match outcome {
        Ok((pipeline, merge_requests)) => ProjectSnapshot { project, pipeline, merge_requests, error: None },
        Err(message) => {
            let mrs: Vec<MergeRequestInfo> = Vec::new();
            let res = ProjectSnapshot { project, pipeline: None, merge_requests: mrs, error: Some(message) };
            assert(merge_requests_view(res.merge_requests@) =~= Seq::<MergeRequestInfoView>::empty());
            res
        },
    }
}

/// The snapshot of all projects: their summary status, when it was taken,
/// and whether there is anything to show at all (a token and a watched
/// project).
pub fn snapshot_of(projects: Vec<ProjectSnapshot>, fetched_at: String, any_token: bool, watched_count: usize) -> (res: Snapshot)
    ensures
        projects_view(res.projects@) == projects_view(projects@),
        res.overall@ == overall_spec(projects_view(projects@)),
        res.fetched_at@ == fetched_at@,
        res.configured == (any_token && watched_count > 0),
{
    let overall = overall_status(&projects);
    Snapshot { projects, overall, fetched_at, configured: any_token && watched_count > 0 }
}

// ------------------------------------------------------------ status changes --

/// The title of a project's notifications: its label, else the pipeline's
/// project name.
pub open spec fn status_title(e: ProjectSnapshotView, p: PipelineInfoView) -> Seq<char> {
    match e.project.label {
        Some(l) => l,
        None => p.project_name,
    }
}

pub open spec fn status_body(p: PipelineInfoView) -> Seq<char> {
    p.git_ref + " \u{b7} "@ + match p.commit_title {
        Some(t) => t,
        None => "-"@,
    }
}

/// What a pipeline status change calls for. Nothing on first sight, nothing
/// while the status stays the same; a failure is announced if failures are
/// to be, a success right after a failure if recoveries are to be.
pub open spec fn status_alert(
    prev: Option<Seq<char>>,
    e: ProjectSnapshotView,
    p: PipelineInfoView,
    cfg: AppConfigView,
) -> Seq<AlertView> {
    match prev {
        None => Seq::empty(),
        Some(q) => if q == p.status {
            Seq::empty()
        } else if p.status == "failed"@ && cfg.notify_on_failure {
            seq![
                AlertView {
                    title: status_title(e, p) + " \u{2014} pipeline failed"@,
                    body: status_body(p),
                    text: "\u{2717} "@ + status_title(e, p) + ": pipeline failed ("@ + p.git_ref + ")"@,
                    url: Some(p.web_url),
                },
            ]
        } else if p.status == "success"@ && q == "failed"@ && cfg.notify_on_recovery {
            seq![
                AlertView {
                    title: status_title(e, p) + " \u{2014} pipeline recovered"@,
                    body: status_body(p),
                    text: "\u{2713} "@ + status_title(e, p) + ": pipeline recovered ("@ + p.git_ref
                        + ")"@,
                    url: Some(p.web_url),
                },
            ]
        } else {
            Seq::empty()
        },
    }
}

/// One project's turn: its pipeline status is remembered, and compared with
/// the one remembered before. A project without a pipeline is skipped.
pub open spec fn status_step(
    last: Map<Seq<char>, Seq<char>>,
    e: ProjectSnapshotView,
    cfg: AppConfigView,
) -> (Map<Seq<char>, Seq<char>>, Seq<AlertView>) {
    match e.pipeline {
        None => (last, Seq::empty()),
        Some(p) => {
            let prev = if last.contains_key(e.project.id) {
                Some(last[e.project.id])
            } else {
                None
            };
            (last.insert(e.project.id, p.status), status_alert(prev, e, p, cfg))
        },
    }
}

pub open spec fn status_fold(
    last: Map<Seq<char>, Seq<char>>,
    es: Seq<ProjectSnapshotView>,
    cfg: AppConfigView,
) -> (Map<Seq<char>, Seq<char>>, Seq<AlertView>)
    decreases es.len(),
{
    if es.len() == 0 {
        (last, Seq::empty())
    } else {
        let (m, a) = status_fold(last, es.drop_last(), cfg);
        let (m2, b) = status_step(m, es.last(), cfg);
        (m2, a + b)
    }
}

// ------------------------------------------------------------ new merge requests --

/// The name in a project's merge request notifications: its label, else the
/// pipeline's project name, else its id.
pub open spec fn mr_project_name(e: ProjectSnapshotView) -> Seq<char> {
    match e.project.label {
        Some(l) => l,
        None => match e.pipeline {
            Some(p) => p.project_name,
            None => e.project.id,
        },
    }
}

pub open spec fn draft_prefix(d: bool) -> Seq<char> {
    if d {
        "[Draft] "@
    } else {
        Seq::empty()
    }
}

pub open spec fn mr_alert(name: Seq<char>, mr: MergeRequestInfoView) -> AlertView {
    AlertView {
        title: name + " \u{2014} new MR !"@ + decimal(mr.iid as nat),
        body: draft_prefix(mr.draft) + mr.title + "\n"@ + mr.source_branch + " \u{2192} "@
            + mr.target_branch,
        text: "\u{21c4} "@ + name + " !"@ + decimal(mr.iid as nat) + ": "@ + draft_prefix(mr.draft)
            + mr.title + " ("@ + mr.source_branch + " \u{2192} "@ + mr.target_branch + ")"@,
        url: Some(mr.web_url),
    }
}

/// The branch merge requests must target to be announced, when only the
/// watched branch's are wanted and the project watches one.
pub open spec fn notify_branch(e: ProjectSnapshotView, cfg: AppConfigView) -> Option<Seq<char>> {
    if cfg.notify_only_watched_branch_mr {
        e.project.git_ref
    } else {
        None
    }
}

/// A merge request not seen before, against the wanted branch if there is one.
pub open spec fn mr_wanted(known: Seq<u64>, branch: Option<Seq<char>>, mr: MergeRequestInfoView) -> bool {
    &&& !known.contains(mr.iid)
    &&& match branch {
        Some(b) => mr.target_branch == b,
        None => true,
    }
}

pub open spec fn new_mr_alerts(
    known: Seq<u64>,
    branch: Option<Seq<char>>,
    name: Seq<char>,
    mrs: Seq<MergeRequestInfoView>,
) -> Seq<AlertView>
    decreases mrs.len(),
{
    if mrs.len() == 0 {
        Seq::empty()
    } else {
        let rest = new_mr_alerts(known, branch, name, mrs.drop_last());
        if mr_wanted(known, branch, mrs.last()) {
            rest.push(mr_alert(name, mrs.last()))
        } else {
            rest
        }
    }
}

pub open spec fn mr_iids(mrs: Seq<MergeRequestInfoView>) -> Seq<u64> {
    mrs.map_values(|m: MergeRequestInfoView| m.iid)
}

/// One project's turn for merge requests. A project that errored keeps what
/// was remembered (its empty list doesn't mean "all closed"); otherwise its
/// open merge requests are remembered, and those not seen before are
/// announced, unless this is the first pass over the project.
pub open spec fn mr_step(
    seen: Map<Seq<char>, Seq<u64>>,
    e: ProjectSnapshotView,
    cfg: AppConfigView,
) -> (Map<Seq<char>, Seq<u64>>, Seq<AlertView>) {
    if e.error is Some {
        (seen, Seq::empty())
    } else {
        let after = seen.insert(e.project.id, mr_iids(e.merge_requests));
        if !seen.contains_key(e.project.id) || !cfg.notify_on_new_merge_request {
            (after, Seq::empty())
        } else {
            (
                after,
                new_mr_alerts(
                    seen[e.project.id],
                    notify_branch(e, cfg),
                    mr_project_name(e),
                    e.merge_requests,
                ),
            )
        }
    }
}

pub open spec fn mr_fold(
    seen: Map<Seq<char>, Seq<u64>>,
    es: Seq<ProjectSnapshotView>,
    cfg: AppConfigView,
) -> (Map<Seq<char>, Seq<u64>>, Seq<AlertView>)
    decreases es.len(),
{
    if es.len() == 0 {
        (seen, Seq::empty())
    } else {
        let (m, a) = mr_fold(seen, es.drop_last(), cfg);
        let (m2, b) = mr_step(m, es.last(), cfg);
        (m2, a + b)
    }
}

/// What the merge request side remembers and announces for a snapshot:
/// nothing at all unless merge requests are watched.
pub open spec fn mr_outcome(
    seen: Map<Seq<char>, Seq<u64>>,
    es: Seq<ProjectSnapshotView>,
    cfg: AppConfigView,
) -> (Map<Seq<char>, Seq<u64>>, Seq<AlertView>) {
    if cfg.watch_merge_requests {
        mr_fold(seen, es, cfg)
    } else {
        (seen, Seq::empty())
    }
}

// ------------------------------------------------------------ texts --

fn status_title_of(e: &ProjectSnapshot, p: &PipelineInfo) -> (res: String)
    requires
        e@.pipeline == Some(p@),
    ensures
        res@ == status_title(e@, p@),
{
    match &e.project.label {
        Some(l) => l.clone(),
        None => p.project_name.clone(),
    }
}

fn status_body_of(p: &PipelineInfo) -> (res: String)
    ensures
        res@ == status_body(p@),
{
    let mut body = p.git_ref.clone();
    body.append(" \u{b7} ");
    match &p.commit_title {
        Some(t) => body.append(t.as_str()),
        None => body.append("-"),
    }
    body
}

fn status_alert_of(failed: bool, title: &String, p: &PipelineInfo) -> (res: Alert)
    ensures
        failed ==> res@ == (AlertView {
            title: title@ + " \u{2014} pipeline failed"@,
            body: status_body(p@),
            text: "\u{2717} "@ + title@ + ": pipeline failed ("@ + p@.git_ref + ")"@,
            url: Some(p@.web_url),
        }),
        !failed ==> res@ == (AlertView {
            title: title@ + " \u{2014} pipeline recovered"@,
            body: status_body(p@),
            text: "\u{2713} "@ + title@ + ": pipeline recovered ("@ + p@.git_ref + ")"@,
            url: Some(p@.web_url),
        }),
{
    let mut head = title.clone();
    let mut text: String;
    if failed {
        head.append(" \u{2014} pipeline failed");
        text = String::from_str("\u{2717} ");
        text.append(title.as_str());
        text.append(": pipeline failed (");
    } else {
        head.append(" \u{2014} pipeline recovered");
        text = String::from_str("\u{2713} ");
        text.append(title.as_str());
        text.append(": pipeline recovered (");
    }
    text.append(p.git_ref.as_str());
    text.append(")");
    Alert {
        title: head,
        body: status_body_of(p),
        ticker: TickerItem { text, url: Some(p.web_url.clone()) },
    }
}

fn mr_project_name_of(e: &ProjectSnapshot) -> (res: String)
    ensures
        res@ == mr_project_name(e@),
{
    match &e.project.label {
        Some(l) => l.clone(),
        None => match &e.pipeline {
            Some(p) => p.project_name.clone(),
            None => e.project.id.clone(),
        },
    }
}

fn mr_alert_of(name: &String, mr: &MergeRequestInfo) -> (res: Alert)
    ensures
        res@ == mr_alert(name@, mr@),
{
    proof {
        reveal_strlit("");
    }
    let draft: &str = if mr.draft {
        "[Draft] "
    } else {
        ""
    };
    assert(draft@ == draft_prefix(mr.draft));
    let number = decimal_string(mr.iid);
    let mut title = name.clone();
    title.append(" \u{2014} new MR !");
    title.append(number.as_str());
    let mut body = String::from_str(draft);
    body.append(mr.title.as_str());
    body.append("\n");
    body.append(mr.source_branch.as_str());
    body.append(" \u{2192} ");
    body.append(mr.target_branch.as_str());
    let mut text = String::from_str("\u{21c4} ");
    text.append(name.as_str());
    text.append(" !");
    text.append(number.as_str());
    text.append(": ");
    text.append(draft);
    text.append(mr.title.as_str());
    text.append(" (");
    text.append(mr.source_branch.as_str());
    text.append(" \u{2192} ");
    text.append(mr.target_branch.as_str());
    text.append(")");
    Alert { title, body, ticker: TickerItem { text, url: Some(mr.web_url.clone()) } }
}

fn iids_of(mrs: &Vec<MergeRequestInfo>) -> (res: Vec<u64>)
    ensures
        res@ == mr_iids(merge_requests_view(mrs@)),
{
    let mut out: Vec<u64> = Vec::new();
    for i in 0..mrs.len()
        invariant
            out@.len() == i,
            forall|k: int| 0 <= k < i ==> #[trigger] out@[k] == mrs@[k].iid,
    {
        out.push(mrs[i].iid);
    }
    assert(out@ =~= mr_iids(merge_requests_view(mrs@)));
    out
}

fn contains_u64(v: &Vec<u64>, x: u64) -> (res: bool)
    ensures
        res == v@.contains(x),
{
    for i in 0..v.len()
        invariant
            forall|k: int| 0 <= k < i ==> v@[k] != x,
    {
        if v[i] == x {
            return true;
        }
    }
    false
}

fn push_all(out: &mut Vec<Alert>, more: Vec<Alert>)
    ensures
        alerts_view(final(out)@) == alerts_view(old(out)@) + alerts_view(more@),
{
    let ghost m0 = more@;
    let mut more = more;
    out.append(&mut more);
    assert(out@ == old(out)@ + m0);
    assert(alerts_view(out@) =~= alerts_view(old(out)@) + alerts_view(m0));
}

// ------------------------------------------------------------ memory --

/// What is remembered between refreshes: each project's last pipeline
/// status, and the merge requests seen on it.
pub struct Memory {
    last_status: KeyedList<String>,
    seen: KeyedList<Vec<u64>>,
}

impl Memory {
    pub closed spec fn last(&self) -> Map<Seq<char>, Seq<char>> {
        self.last_status.to_map()
    }

    pub closed spec fn seen(&self) -> Map<Seq<char>, Seq<u64>> {
        self.seen.to_map()
    }

    pub fn new() -> (res: Self)
        ensures
            res.last() == Map::<Seq<char>, Seq<char>>::empty(),
            res.seen() == Map::<Seq<char>, Seq<u64>>::empty(),
    {
        Memory { last_status: KeyedList::new(), seen: KeyedList::new() }
    }

    fn new_merge_requests(
        &mut self,
        projects: &Vec<ProjectSnapshot>,
        config: &AppConfig,
    ) -> (res: Vec<Alert>)
        ensures
            (final(self).seen(), alerts_view(res@)) == mr_fold(
                old(self).seen(),
                projects_view(projects@),
                config@,
            ),
            final(self).last() == old(self).last(),
    {
        let ghost es = projects_view(projects@);
        let mut out: Vec<Alert> = Vec::new();
        for i in 0..projects.len()
            invariant
                es == projects_view(projects@),
                (self.seen(), alerts_view(out@)) == mr_fold(old(self).seen(), es.take(i as int), config@),
                self.last() == old(self).last(),
        {
            proof {
                assert(es.take(i + 1).drop_last() =~= es.take(i as int));
            }
            let e = &projects[i];
            let ghost ev = e@;
            assert(es.take(i + 1).last() == ev);
            if e.error.is_none() {
                let current = iids_of(&e.merge_requests);
                let known = self.seen.insert(e.project.id.clone(), current);
                match known {
                    None => {},
                    Some(known) => {
                        if config.notify_on_new_merge_request {
                            let name = mr_project_name_of(e);
                            let branch: Option<&String> = if config.notify_only_watched_branch_mr {
                                e.project.git_ref.as_ref()
                            } else {
                                None
                            };
                            let mrs = &e.merge_requests;
                            let mut fresh: Vec<Alert> = Vec::new();
                            for k in 0..mrs.len()
                                invariant
                                    alerts_view(fresh@) == new_mr_alerts(
                                        known@,
                                        notify_branch(ev, config@),
                                        name@,
                                        merge_requests_view(mrs@).take(k as int),
                                    ),
                                    match branch {
                                        Some(b) => notify_branch(ev, config@) == Some(b@),
                                        None => notify_branch(ev, config@) is None,
                                    },
                                    ev.merge_requests == merge_requests_view(mrs@),
                            {
                                proof {
                                    assert(merge_requests_view(mrs@).take(k + 1).drop_last() =~= merge_requests_view(mrs@).take(k as int));
                                }
                                let mr = &mrs[k];
                                let wanted = !contains_u64(&known, mr.iid) && match branch {
                                    Some(b) => str_eq(mr.target_branch.as_str(), b.as_str()),
                                    None => true,
                                };
                                if wanted {
                                    let a = mr_alert_of(&name, mr);
                                    let ghost before = fresh@;
                                    fresh.push(a);
                                    proof {
                                        assert(alerts_view(fresh@) =~= alerts_view(before).push(a@));
                                    }
                                }
                            }
                            proof {
                                assert(merge_requests_view(mrs@).take(mrs@.len() as int) =~= merge_requests_view(mrs@));
                            }
                            push_all(&mut out, fresh);
                        }
                    },
                }
            }
        }
        proof {
            assert(es.take(projects@.len() as int) =~= es);
        }
        out
    }

    fn status_changes(&mut self, projects: &Vec<ProjectSnapshot>, config: &AppConfig) -> (res: Vec<Alert>)
        ensures
            (final(self).last(), alerts_view(res@)) == status_fold(
                old(self).last(),
                projects_view(projects@),
                config@,
            ),
            final(self).seen() == old(self).seen(),
    {
        let ghost es = projects_view(projects@);
        let mut out: Vec<Alert> = Vec::new();
        for i in 0..projects.len()
            invariant
                es == projects_view(projects@),
                (self.last(), alerts_view(out@)) == status_fold(old(self).last(), es.take(i as int), config@),
                self.seen() == old(self).seen(),
        {
            proof {
                assert(es.take(i + 1).drop_last() =~= es.take(i as int));
            }
            let e = &projects[i];
            let ghost ev = e@;
            assert(es.take(i + 1).last() == ev);
            match &e.pipeline {
                None => {},
                Some(p) => {
                    let prev = self.last_status.insert(e.project.id.clone(), p.status.clone());
                    match prev {
                        None => {},
                        Some(q) => {
                            if !str_eq(q.as_str(), p.status.as_str()) {
                                let is_failed = str_eq(p.status.as_str(), "failed");
                                let is_recovery = str_eq(p.status.as_str(), "success") && str_eq(
                                    q.as_str(),
                                    "failed",
                                );
                                if is_failed && config.notify_on_failure {
                                    let title = status_title_of(e, p);
                                    let a = status_alert_of(true, &title, p);
                                    let ghost before = out@;
                                    out.push(a);
                                    proof {
                                        assert(alerts_view(out@) =~= alerts_view(before) + seq![a@]);
                                    }
                                } else if is_recovery && config.notify_on_recovery {
                                    let title = status_title_of(e, p);
                                    let a = status_alert_of(false, &title, p);
                                    let ghost before = out@;
                                    out.push(a);
                                    proof {
                                        assert(alerts_view(out@) =~= alerts_view(before) + seq![a@]);
                                    }
                                } else {
                                    assert(alerts_view(out@) =~= alerts_view(out@) + Seq::<AlertView>::empty());
                                }
                            } else {
                                assert(alerts_view(out@) =~= alerts_view(out@) + Seq::<AlertView>::empty());
                            }
                        },
                    }
                    proof {
                        if prev is None {
                            assert(alerts_view(out@) =~= alerts_view(out@) + Seq::<AlertView>::empty());
                        }
                    }
                },
            }
            proof {
                if e.pipeline is None {
                    assert(alerts_view(out@) =~= alerts_view(out@) + Seq::<AlertView>::empty());
                }
            }
        }
        proof {
            assert(es.take(projects@.len() as int) =~= es);
        }
        out
    }

    /// Takes in a new snapshot's projects and gives the announcements it
    /// calls for: new merge requests first, then pipeline status changes.
    pub fn observe(&mut self, projects: &Vec<ProjectSnapshot>, config: &AppConfig) -> (res: Vec<Alert>)
        ensures
            final(self).seen() == mr_outcome(old(self).seen(), projects_view(projects@), config@).0,
            final(self).last() == status_fold(old(self).last(), projects_view(projects@), config@).0,
            alerts_view(res@) == mr_outcome(old(self).seen(), projects_view(projects@), config@).1
                + status_fold(old(self).last(), projects_view(projects@), config@).1,
    {
        let mut out: Vec<Alert> = if config.watch_merge_requests {
            self.new_merge_requests(projects, config)
        } else {
            Vec::new()
        };
        let changes = self.status_changes(projects, config);
        push_all(&mut out, changes);
        out
    }
}

// ------------------------------------------------------------ laws --

/// A project seen for the first time is never announced, whatever its
/// status or merge requests.
pub proof fn law_first_sight_is_silent(
    last: Map<Seq<char>, Seq<char>>,
    seen: Map<Seq<char>, Seq<u64>>,
    e: ProjectSnapshotView,
    cfg: AppConfigView,
)
    requires
        !last.contains_key(e.project.id),
        !seen.contains_key(e.project.id),
    ensures
        status_step(last, e, cfg).1.len() == 0,
        mr_step(seen, e, cfg).1.len() == 0,
{
}

/// A pipeline whose status has not changed since the last refresh is not
/// announced again.
pub proof fn law_unchanged_status_is_silent(
    last: Map<Seq<char>, Seq<char>>,
    e: ProjectSnapshotView,
    cfg: AppConfigView,
)
    requires
        e.pipeline is Some,
        last.contains_key(e.project.id),
        last[e.project.id] == e.pipeline->0.status,
    ensures
        status_step(last, e, cfg).1.len() == 0,
{
}

/// A status announcement is either a failure, when failures are to be
/// announced, or a success right after a failure, when recoveries are.
pub proof fn law_status_alert_reasons(
    prev: Option<Seq<char>>,
    e: ProjectSnapshotView,
    p: PipelineInfoView,
    cfg: AppConfigView,
)
    ensures
        status_alert(prev, e, p, cfg).len() <= 1,
        status_alert(prev, e, p, cfg).len() == 1 ==> prev is Some && prev->0 != p.status && (
        (p.status == "failed"@ && cfg.notify_on_failure) || (p.status == "success"@ && prev->0
            == "failed"@ && cfg.notify_on_recovery)),
{
}

/// Each refresh remembers the status it saw for a project with a pipeline.
pub proof fn law_status_is_remembered(
    last: Map<Seq<char>, Seq<char>>,
    e: ProjectSnapshotView,
    cfg: AppConfigView,
)
    requires
        e.pipeline is Some,
    ensures
        status_step(last, e, cfg).0 == last.insert(e.project.id, e.pipeline->0.status),
{
}

/// A project that could not be fetched keeps the merge requests remembered
/// for it: its empty list is not taken for "all closed".
pub proof fn law_errored_project_keeps_memory(
    seen: Map<Seq<char>, Seq<u64>>,
    e: ProjectSnapshotView,
    cfg: AppConfigView,
)
    requires
        e.error is Some,
    ensures
        mr_step(seen, e, cfg) == (seen, Seq::<AlertView>::empty()),
{
}

/// Every merge request announcement is for a merge request not seen before,
/// against the wanted branch when there is one.
pub proof fn law_only_new_merge_requests_are_announced(
    known: Seq<u64>,
    branch: Option<Seq<char>>,
    name: Seq<char>,
    mrs: Seq<MergeRequestInfoView>,
)
    ensures
        forall|i: int|
            0 <= i < new_mr_alerts(known, branch, name, mrs).len() ==> exists|j: int|
                0 <= j < mrs.len() && mr_wanted(known, branch, #[trigger] mrs[j])
                    && #[trigger] new_mr_alerts(known, branch, name, mrs)[i] == mr_alert(name, mrs[j]),
    decreases mrs.len(),
{
    if mrs.len() > 0 {
        let d = mrs.drop_last();
        law_only_new_merge_requests_are_announced(known, branch, name, d);
        let out = new_mr_alerts(known, branch, name, mrs);
        let rest = new_mr_alerts(known, branch, name, d);
        assert forall|i: int| 0 <= i < out.len() implies exists|j: int|
            0 <= j < mrs.len() && mr_wanted(known, branch, #[trigger] mrs[j]) && #[trigger] out[i]
                == mr_alert(name, mrs[j]) by {
            if i < rest.len() {
                let j = choose|j: int|
                    0 <= j < d.len() && mr_wanted(known, branch, #[trigger] d[j]) && rest[i]
                        == mr_alert(name, d[j]);
                assert(mrs[j] == d[j]);
            } else {
                assert(mrs[mrs.len() - 1] == mrs.last());
            }
        }
    }
}

/// Merge requests are not watched: nothing is remembered or announced for them.
pub proof fn law_unwatched_merge_requests_are_ignored(
    seen: Map<Seq<char>, Seq<u64>>,
    es: Seq<ProjectSnapshotView>,
    cfg: AppConfigView,
)
    requires
        !cfg.watch_merge_requests,
    ensures
        mr_outcome(seen, es, cfg) == (seen, Seq::<AlertView>::empty()),
{
}

/// With new merge request notifications switched off, the merge request
/// side announces nothing, whatever was remembered and whatever the snapshot
/// holds (it still remembers what it saw).
pub proof fn law_merge_request_notifications_off_are_silent(
    seen: Map<Seq<char>, Seq<u64>>,
    es: Seq<ProjectSnapshotView>,
    cfg: AppConfigView,
)
    requires
        !cfg.notify_on_new_merge_request,
    ensures
        mr_outcome(seen, es, cfg).1.len() == 0,
    decreases es.len(),
{
    if cfg.watch_merge_requests && es.len() > 0 {
        law_merge_request_notifications_off_are_silent(seen, es.drop_last(), cfg);
        let (m, a) = mr_fold(seen, es.drop_last(), cfg);
        assert(mr_step(m, es.last(), cfg).1.len() == 0);
    }
}

/// No two entries are for the same project.
pub open spec fn distinct_projects(es: Seq<ProjectSnapshotView>) -> bool {
    forall|a: int, b: int|
        0 <= a < es.len() && 0 <= b < es.len() && a != b ==> (#[trigger] es[a]).project.id
            != (#[trigger] es[b]).project.id
}

/// Every project with a pipeline is remembered with its status.
pub open spec fn remembers_statuses(m: Map<Seq<char>, Seq<char>>, es: Seq<ProjectSnapshotView>) -> bool {
    forall|j: int|
        0 <= j < es.len() && (#[trigger] es[j]).pipeline is Some ==> m.contains_key(es[j].project.id)
            && m[es[j].project.id] == es[j].pipeline->0.status
}

proof fn lemma_fold_remembers(last: Map<Seq<char>, Seq<char>>, es: Seq<ProjectSnapshotView>, cfg: AppConfigView)
    requires
        distinct_projects(es),
    ensures
        remembers_statuses(status_fold(last, es, cfg).0, es),
    decreases es.len(),
{
    if es.len() > 0 {
        let d = es.drop_last();
        assert(distinct_projects(d)) by {
            assert forall|a: int, b: int|
                0 <= a < d.len() && 0 <= b < d.len() && a != b implies (#[trigger] d[a]).project.id
                != (#[trigger] d[b]).project.id by {
                assert(d[a] == es[a] && d[b] == es[b]);
            }
        }
        lemma_fold_remembers(last, d, cfg);
        let m = status_fold(last, d, cfg).0;
        let n = es.len() - 1;
        assert forall|j: int|
            0 <= j < es.len() && (#[trigger] es[j]).pipeline is Some implies status_fold(
            last,
            es,
            cfg,
        ).0.contains_key(es[j].project.id) && status_fold(last, es, cfg).0[es[j].project.id]
            == es[j].pipeline->0.status by {
            if j < n {
                assert(d[j] == es[j]);
                assert(es[j].project.id != es[n].project.id);
            }
        }
    }
}

proof fn lemma_fold_settled(m: Map<Seq<char>, Seq<char>>, es: Seq<ProjectSnapshotView>, cfg: AppConfigView)
    requires
        remembers_statuses(m, es),
    ensures
        status_fold(m, es, cfg) == (m, Seq::<AlertView>::empty()),
    decreases es.len(),
{
    if es.len() > 0 {
        let d = es.drop_last();
        assert(remembers_statuses(m, d)) by {
            assert forall|j: int| 0 <= j < d.len() && (#[trigger] d[j]).pipeline is Some implies m.contains_key(
                d[j].project.id,
            ) && m[d[j].project.id] == d[j].pipeline->0.status by {
                assert(d[j] == es[j]);
            }
        }
        lemma_fold_settled(m, d, cfg);
        let e = es.last();
        assert(e == es[es.len() - 1]);
        if let Some(p) = e.pipeline {
            assert(m.insert(e.project.id, p.status) =~= m);
        }
        assert(Seq::<AlertView>::empty() + Seq::<AlertView>::empty() =~= Seq::<AlertView>::empty());
    }
}

/// Refreshing twice with nothing changed announces no pipeline status on the
/// second pass (each project watched once).
pub proof fn law_repeated_snapshot_is_silent(
    last: Map<Seq<char>, Seq<char>>,
    es: Seq<ProjectSnapshotView>,
    cfg: AppConfigView,
)
    requires
        distinct_projects(es),
    ensures
        status_fold(status_fold(last, es, cfg).0, es, cfg).1.len() == 0,
{
    lemma_fold_remembers(last, es, cfg);
    lemma_fold_settled(status_fold(last, es, cfg).0, es, cfg);
}

/// Every project that was fetched is remembered with its merge requests.
pub open spec fn remembers_merge_requests(m: Map<Seq<char>, Seq<u64>>, es: Seq<ProjectSnapshotView>) -> bool {
    forall|j: int|
        0 <= j < es.len() && (#[trigger] es[j]).error is None ==> m.contains_key(es[j].project.id)
            && m[es[j].project.id] == mr_iids(es[j].merge_requests)
}

proof fn lemma_mr_fold_remembers(seen: Map<Seq<char>, Seq<u64>>, es: Seq<ProjectSnapshotView>, cfg: AppConfigView)
    requires
        distinct_projects(es),
    ensures
        remembers_merge_requests(mr_fold(seen, es, cfg).0, es),
    decreases es.len(),
{
    if es.len() > 0 {
        let d = es.drop_last();
        assert(distinct_projects(d)) by {
            assert forall|a: int, b: int|
                0 <= a < d.len() && 0 <= b < d.len() && a != b implies (#[trigger] d[a]).project.id
                != (#[trigger] d[b]).project.id by {
                assert(d[a] == es[a] && d[b] == es[b]);
            }
        }
        lemma_mr_fold_remembers(seen, d, cfg);
        let n = es.len() - 1;
        assert forall|j: int|
            0 <= j < es.len() && (#[trigger] es[j]).error is None implies mr_fold(seen, es, cfg).0.contains_key(
            es[j].project.id,
        ) && mr_fold(seen, es, cfg).0[es[j].project.id] == mr_iids(es[j].merge_requests) by {
            if j < n {
                assert(d[j] == es[j]);
                assert(es[j].project.id != es[n].project.id);
            }
        }
    }
}

proof fn lemma_no_new_merge_requests(
    known: Seq<u64>,
    branch: Option<Seq<char>>,
    name: Seq<char>,
    mrs: Seq<MergeRequestInfoView>,
)
    requires
        forall|i: int| 0 <= i < mrs.len() ==> known.contains(#[trigger] mrs[i].iid),
    ensures
        new_mr_alerts(known, branch, name, mrs).len() == 0,
    decreases mrs.len(),
{
    if mrs.len() > 0 {
        let d = mrs.drop_last();
        assert forall|i: int| 0 <= i < d.len() implies known.contains(#[trigger] d[i].iid) by {
            assert(d[i] == mrs[i]);
        }
        lemma_no_new_merge_requests(known, branch, name, d);
        assert(known.contains(mrs[mrs.len() - 1].iid));
    }
}

proof fn lemma_mr_fold_settled(m: Map<Seq<char>, Seq<u64>>, es: Seq<ProjectSnapshotView>, cfg: AppConfigView)
    requires
        remembers_merge_requests(m, es),
    ensures
        mr_fold(m, es, cfg) == (m, Seq::<AlertView>::empty()),
    decreases es.len(),
{
    if es.len() > 0 {
        let d = es.drop_last();
        assert(remembers_merge_requests(m, d)) by {
            assert forall|j: int| 0 <= j < d.len() && (#[trigger] d[j]).error is None implies m.contains_key(
                d[j].project.id,
            ) && m[d[j].project.id] == mr_iids(d[j].merge_requests) by {
                assert(d[j] == es[j]);
            }
        }
        lemma_mr_fold_settled(m, d, cfg);
        let e = es.last();
        assert(e == es[es.len() - 1]);
        if e.error is None {
            assert(m.insert(e.project.id, mr_iids(e.merge_requests)) =~= m);
            let known = m[e.project.id];
            assert forall|i: int| 0 <= i < e.merge_requests.len() implies known.contains(
                #[trigger] e.merge_requests[i].iid,
            ) by {
                assert(known[i] == e.merge_requests[i].iid);
            }
            lemma_no_new_merge_requests(known, notify_branch(e, cfg), mr_project_name(e), e.merge_requests);
        }
        assert(Seq::<AlertView>::empty() + Seq::<AlertView>::empty() =~= Seq::<AlertView>::empty());
    }
}

/// Refreshing twice with nothing changed announces no merge request on the
/// second pass (each project watched once): a merge request is announced
/// once.
pub proof fn law_merge_requests_are_announced_once(
    seen: Map<Seq<char>, Seq<u64>>,
    es: Seq<ProjectSnapshotView>,
    cfg: AppConfigView,
)
    requires
        distinct_projects(es),
    ensures
        mr_outcome(mr_outcome(seen, es, cfg).0, es, cfg).1.len() == 0,
{
    if cfg.watch_merge_requests {
        lemma_mr_fold_remembers(seen, es, cfg);
        lemma_mr_fold_settled(mr_fold(seen, es, cfg).0, es, cfg);
    }
}

} // verus!
