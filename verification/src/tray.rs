//! What the menu bar / system tray icon shows: its color, its tooltip, and
//! the short count written next to it on macOS.

use vstd::prelude::*;

use crate::model::{projects_view, tone_spec, tone_of, ProjectSnapshot, ProjectSnapshotView, Snapshot, Tone};
use crate::refresh::{mr_project_name, project_status, project_status_of};
use crate::text::{decimal, decimal_string, join_lines};

verus! {

broadcast use vstd::string::group_string_axioms;

/// Number of projects listed in the tooltip.
pub const TOOLTIP_PROJECTS: usize = 8;

/// The icon's color for a tone.
pub open spec fn rgb_spec(t: Tone) -> (u8, u8, u8) {
    match t {
        Tone::Good => (63, 185, 80),
        Tone::Bad => (248, 81, 73),
        Tone::Busy => (88, 166, 255),
        Tone::Warn => (210, 153, 34),
        Tone::Idle => (125, 133, 144),
    }
}

pub fn rgb(tone: Tone) -> (res: [u8; 3])
    ensures
        (res@[0], res@[1], res@[2]) == rgb_spec(tone),
        res@.len() == 3,
{
    match tone {
        Tone::Good => [63, 185, 80],
        Tone::Bad => [248, 81, 73],
        Tone::Busy => [88, 166, 255],
        Tone::Warn => [210, 153, 34],
        Tone::Idle => [125, 133, 144],
    }
}

/// How many of the projects have the given tone.
pub open spec fn count_spec(ps: Seq<ProjectSnapshotView>, want: Tone) -> nat
    decreases ps.len(),
{
    if ps.len() == 0 {
        0
    } else {
        count_spec(ps.drop_last(), want) + if tone_spec(project_status(ps.last())) == want {
            1nat
        } else {
            0nat
        }
    }
}

proof fn lemma_count_bound(ps: Seq<ProjectSnapshotView>, want: Tone)
    ensures
        count_spec(ps, want) <= ps.len(),
    decreases ps.len(),
{
    if ps.len() > 0 {
        lemma_count_bound(ps.drop_last(), want);
    }
}

pub fn count(snapshot: &Snapshot, want: Tone) -> (res: usize)
    ensures
        res == count_spec(projects_view(snapshot.projects@), want),
{
    let ps = &snapshot.projects;
    let ghost es = projects_view(ps@);
    let mut n: usize = 0;
    for i in 0..ps.len()
        invariant
            es == projects_view(ps@),
            n == count_spec(es.take(i as int), want),
    {
        proof {
            assert(es.take(i + 1).drop_last() =~= es.take(i as int));
            lemma_count_bound(es.take(i as int), want);
        }
        if tone_of(project_status_of(&ps[i])) == want {
            n += 1;
        }
    }
    proof {
        assert(es.take(ps@.len() as int) =~= es);
    }
    n
}

/// The count written next to the icon: failures first, else running
/// pipelines, else nothing.
pub open spec fn title_spec(ps: Seq<ProjectSnapshotView>) -> Seq<char> {
    let failed = count_spec(ps, Tone::Bad);
    let running = count_spec(ps, Tone::Busy);
    if failed > 0 {
        decimal(failed) + " \u{2717}"@
    } else if running > 0 {
        decimal(running) + " \u{25cf}"@
    } else {
        Seq::empty()
    }
}

pub fn title(snapshot: &Snapshot) -> (res: String)
    ensures
        res@ == title_spec(projects_view(snapshot.projects@)),
{
    let failed = count(snapshot, Tone::Bad);
    let running = count(snapshot, Tone::Busy);
    if failed > 0 {
        let mut out = decimal_string(failed as u64);
        out.append(" \u{2717}");
        out
    } else if running > 0 {
        let mut out = decimal_string(running as u64);
        out.append(" \u{25cf}");
        out
    } else {
        String::new()
    }
}

/// A project's line in the tooltip.
pub open spec fn tooltip_line(e: ProjectSnapshotView) -> Seq<char> {
    mr_project_name(e) + ": "@ + if e.error is Some {
        "error"@
    } else {
        match e.pipeline {
            Some(p) => p.status,
            None => "no pipeline"@,
        }
    }
}

/// The tooltip: the summary status, then one line for each of the first
/// eight projects.
pub open spec fn tooltip_spec(overall: Seq<char>, ps: Seq<ProjectSnapshotView>) -> Seq<char> {
    if ps.len() == 0 {
        "Vitaline \u{2014} no watched projects"@
    } else {
        let shown = if ps.len() <= 8 {
            ps
        } else {
            ps.take(8)
        };
        join_lines(
            seq!["Vitaline \u{2014} "@ + overall] + shown.map_values(
                |e: ProjectSnapshotView| tooltip_line(e),
            ),
        )
    }
}

fn tooltip_line_of(e: &ProjectSnapshot) -> (res: String)
    ensures
        res@ == tooltip_line(e@),
{
    let mut line = match &e.project.label {
        Some(l) => l.clone(),
        None => match &e.pipeline {
            Some(p) => p.project_name.clone(),
            None => e.project.id.clone(),
        },
    };
    line.append(": ");
    if e.error.is_some() {
        line.append("error");
    } else {
        match &e.pipeline {
            Some(p) => line.append(p.status.as_str()),
            None => line.append("no pipeline"),
        }
    }
    line
}

pub fn tooltip(snapshot: &Snapshot) -> (res: String)
    ensures
        res@ == tooltip_spec(snapshot.overall@, projects_view(snapshot.projects@)),
{
    let ps = &snapshot.projects;
    let ghost es = projects_view(ps@);
    if ps.len() == 0 {
        return String::from_str("Vitaline \u{2014} no watched projects");
    }
    let mut out = String::from_str("Vitaline \u{2014} ");
    out.append(snapshot.overall.as_str());
    let shown: usize = if ps.len() <= TOOLTIP_PROJECTS {
        ps.len()
    } else {
        TOOLTIP_PROJECTS
    };
    let ghost head = "Vitaline \u{2014} "@ + snapshot.overall@;
    let ghost lines = es.map_values(|e: ProjectSnapshotView| tooltip_line(e));
    for i in 0..shown
        invariant
            shown <= ps@.len(),
            es == projects_view(ps@),
            lines == es.map_values(|e: ProjectSnapshotView| tooltip_line(e)),
            out@ == join_lines(seq![head] + lines.take(i as int)),
    {
        proof {
            let a = seq![head] + lines.take(i as int);
            let b = seq![head] + lines.take(i + 1);
            assert(b.drop_last() =~= a);
            assert(b.last() == tooltip_line(es[i as int]));
        }
        out.append("\n");
        let line = tooltip_line_of(&ps[i]);
        out.append(line.as_str());
    }
    proof {
        let sh = if es.len() <= 8 {
            es
        } else {
            es.take(8)
        };
        assert(lines.take(shown as int) =~= sh.map_values(|e: ProjectSnapshotView| tooltip_line(e)));
    }
    out
}

/// Whether a project shows the given tone.
pub open spec fn has_tone(want: Tone) -> spec_fn(ProjectSnapshotView) -> bool {
    |e: ProjectSnapshotView| tone_spec(project_status(e)) == want
}

/// `count_spec` is the number of projects with the tone.
proof fn lemma_count_is_filter_len(ps: Seq<ProjectSnapshotView>, want: Tone)
    ensures
        count_spec(ps, want) == ps.filter(has_tone(want)).len(),
        count_spec(ps, want) == 0 <==> forall|i: int| 0 <= i < ps.len() ==> tone_spec(project_status(#[trigger] ps[i])) != want,
    decreases ps.len(),
{
    reveal_with_fuel(Seq::filter, 1);
    if ps.len() > 0 {
        let d = ps.drop_last();
        lemma_count_is_filter_len(d, want);
        assert forall|i: int| 0 <= i < d.len() implies #[trigger] d[i] == ps[i] by {}
        if count_spec(ps, want) == 0 {
            assert forall|i: int| 0 <= i < ps.len() implies tone_spec(project_status(#[trigger] ps[i])) != want by {
                if i < d.len() {
                    assert(d[i] == ps[i]);
                }
            }
        } else if count_spec(d, want) > 0 {
            let i = choose|i: int| 0 <= i < d.len() && tone_spec(project_status(#[trigger] d[i])) == want;
            assert(ps[i] == d[i]);
        } else {
            assert(ps[ps.len() - 1] == ps.last());
        }
    }
}

/// The count next to the icon: with a failed project it is the number of
/// failed projects and a cross; with none failed and some running, the
/// number of running projects and a dot; it is empty exactly when no project
/// has failed or is running.
pub proof fn law_title_counts_failed_else_running(ps: Seq<ProjectSnapshotView>)
    ensures
        (exists|i: int| 0 <= i < ps.len() && tone_spec(project_status(#[trigger] ps[i])) == Tone::Bad)
            ==> title_spec(ps) == decimal(ps.filter(has_tone(Tone::Bad)).len()) + " \u{2717}"@,
        (forall|i: int| 0 <= i < ps.len() ==> tone_spec(project_status(#[trigger] ps[i])) != Tone::Bad)
            && (exists|i: int| 0 <= i < ps.len() && tone_spec(project_status(#[trigger] ps[i])) == Tone::Busy)
            ==> title_spec(ps) == decimal(ps.filter(has_tone(Tone::Busy)).len()) + " \u{25cf}"@,
        title_spec(ps).len() == 0 <==> forall|i: int| 0 <= i < ps.len() ==> tone_spec(project_status(#[trigger] ps[i])) != Tone::Bad
            && tone_spec(project_status(ps[i])) != Tone::Busy,
{
    lemma_count_is_filter_len(ps, Tone::Bad);
    lemma_count_is_filter_len(ps, Tone::Busy);
    reveal_strlit(" \u{2717}");
    reveal_strlit(" \u{25cf}");
    assert(" \u{2717}"@.len() == 2);
    assert(" \u{25cf}"@.len() == 2);
    let bad = count_spec(ps, Tone::Bad);
    let busy = count_spec(ps, Tone::Busy);
    assert((decimal(bad) + " \u{2717}"@).len() == decimal(bad).len() + 2);
    assert((decimal(busy) + " \u{25cf}"@).len() == decimal(busy).len() + 2);
    if title_spec(ps).len() == 0 {
        assert(bad == 0 && busy == 0);
    }
}

} // verus!
