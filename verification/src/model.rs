//! The data model shared by every provider, and the rules that summarize it:
//! status tones, status aggregation, and the clamping of user settings.

use vstd::prelude::*;

use crate::text::{
    drop_back, in_class, lemma_drop_back_shape, lemma_drop_nothing, lemma_trim_class_idempotent,
    str_eq, trim, trim_by, trim_class, trim_end_char, trimmed, CharClass,
};

verus! {

broadcast use vstd::string::group_string_axioms;

/// A provider's status word (`success`, `failed`, `running`, ...), carried
/// through as the provider spelled it.
pub type Status = String;

// ------------------------------------------------------------ providers --

/// Supported CI providers.
#[derive(Debug, Clone, Copy, PartialEq, Eq, Hash, Structural)]
pub enum ProviderKind {
    Gitlab,
    Github,
    Azure,
}

impl Default for ProviderKind {
    /// Older configs without a provider field watch GitLab.
    fn default() -> (res: Self)
        ensures
            res == ProviderKind::Gitlab,
    {
        ProviderKind::Gitlab
    }
}

/// The name shown to users for each provider.
pub open spec fn provider_label(k: ProviderKind) -> Seq<char> {
    match k {
        ProviderKind::Gitlab => "GitLab"@,
        ProviderKind::Github => "GitHub"@,
        ProviderKind::Azure => "Azure DevOps"@,
    }
}

/// The config spelling of each provider.
pub open spec fn provider_word(k: ProviderKind) -> Seq<char> {
    match k {
        ProviderKind::Gitlab => "gitlab"@,
        ProviderKind::Github => "github"@,
        ProviderKind::Azure => "azure"@,
    }
}

/// The provider a config word names, if any.
pub open spec fn parse_provider_spec(raw: Seq<char>) -> Option<ProviderKind> {
    if raw == "gitlab"@ {
        Some(ProviderKind::Gitlab)
    } else if raw == "github"@ {
        Some(ProviderKind::Github)
    } else if raw == "azure"@ {
        Some(ProviderKind::Azure)
    } else {
        None
    }
}

impl ProviderKind {
    pub fn label(self) -> (res: &'static str)
        ensures
            res@ == provider_label(self),
    {
        match self {
            ProviderKind::Gitlab => "GitLab",
            ProviderKind::Github => "GitHub",
            ProviderKind::Azure => "Azure DevOps",
        }
    }

    pub fn parse(raw: &str) -> (res: Option<Self>)
        ensures
            res == parse_provider_spec(raw@),
    {
        if str_eq(raw, "gitlab") {
            Some(ProviderKind::Gitlab)
        } else if str_eq(raw, "github") {
            Some(ProviderKind::Github)
        } else if str_eq(raw, "azure") {
            Some(ProviderKind::Azure)
        } else {
            None
        }
    }
}

/// Each provider's config word parses back to that provider.
pub proof fn law_provider_word_round_trip(k: ProviderKind)
    ensures
        parse_provider_spec(provider_word(k)) == Some(k),
{
    reveal_strlit("gitlab");
    reveal_strlit("github");
    reveal_strlit("azure");
    assert("gitlab"@.len() == 6 && "gitlab"@[3] == 'l');
    assert("github"@.len() == 6 && "github"@[3] == 'h');
    assert("azure"@.len() == 5);
}

// ------------------------------------------------------------ tones --

/// The color family a status is shown in.
#[derive(Debug, Clone, Copy, PartialEq, Eq, Structural)]
pub enum Tone {
    Good,
    Bad,
    Busy,
    Warn,
    Idle,
}

/// Statuses that mean "not started yet".
pub open spec fn is_waiting_status(s: Seq<char>) -> bool {
    ||| s == "pending"@
    ||| s == "created"@
    ||| s == "preparing"@
    ||| s == "waiting_for_resource"@
    ||| s == "scheduled"@
}

pub open spec fn tone_spec(s: Seq<char>) -> Tone {
    if s == "success"@ {
        Tone::Good
    } else if s == "failed"@ {
        Tone::Bad
    } else if s == "running"@ {
        Tone::Busy
    } else if is_waiting_status(s) {
        Tone::Warn
    } else {
        Tone::Idle
    }
}

fn is_waiting(s: &str) -> (res: bool)
    ensures
        res == is_waiting_status(s@),
{
    str_eq(s, "pending") || str_eq(s, "created") || str_eq(s, "preparing") || str_eq(
        s,
        "waiting_for_resource",
    ) || str_eq(s, "scheduled")
}

pub fn tone_of(status: &str) -> (res: Tone)
    ensures
        res == tone_spec(status@),
{
    if str_eq(status, "success") {
        Tone::Good
    } else if str_eq(status, "failed") {
        Tone::Bad
    } else if str_eq(status, "running") {
        Tone::Busy
    } else if is_waiting(status) {
        Tone::Warn
    } else {
        Tone::Idle
    }
}

// ------------------------------------------------------------ aggregation --

/// A status together with its `allow_failure` flag.
pub type StatusItem = (Seq<char>, bool);

pub open spec fn status_items(items: Seq<(&str, bool)>) -> Seq<StatusItem> {
    items.map_values(|p: (&str, bool)| (p.0@, p.1))
}

pub open spec fn marks_running(it: StatusItem) -> bool {
    it.0 == "running"@ || it.0 == "canceling"@
}

/// A failure that counts: `allow_failure` jobs never fail their group.
pub open spec fn marks_failed(it: StatusItem) -> bool {
    it.0 == "failed"@ && !it.1
}

pub open spec fn marks_pending(it: StatusItem) -> bool {
    is_waiting_status(it.0)
}

pub open spec fn marks_manual(it: StatusItem) -> bool {
    it.0 == "manual"@
}

pub open spec fn marks_canceled(it: StatusItem) -> bool {
    it.0 == "canceled"@
}

/// Success, including a failure that was allowed to fail.
pub open spec fn marks_success(it: StatusItem) -> bool {
    it.0 == "success"@ || (it.0 == "failed"@ && it.1)
}

/// Whether some item satisfies `f`.
pub open spec fn some_item(items: Seq<StatusItem>, f: spec_fn(StatusItem) -> bool) -> bool {
    exists|i: int| 0 <= i < items.len() && f(#[trigger] items[i])
}

/// The single summary status of a group of statuses.
pub open spec fn aggregate_spec(items: Seq<StatusItem>) -> Seq<char> {
    if items.len() == 0 {
        "none"@
    } else if some_item(items, |it| marks_running(it)) {
        "running"@
    } else if some_item(items, |it| marks_failed(it)) {
        "failed"@
    } else if some_item(items, |it| marks_pending(it)) {
        "pending"@
    } else if some_item(items, |it| marks_canceled(it)) {
        "canceled"@
    } else if some_item(items, |it| marks_manual(it)) {
        "manual"@
    } else if some_item(items, |it| marks_success(it)) {
        "success"@
    } else {
        "skipped"@
    }
}

proof fn lemma_some_item_step(items: Seq<StatusItem>, i: int, f: spec_fn(StatusItem) -> bool)
    requires
        0 <= i < items.len(),
    ensures
        some_item(items.take(i + 1), f) == (some_item(items.take(i), f) || f(items[i])),
{
    let a = items.take(i);
    let b = items.take(i + 1);
    if some_item(a, f) {
        let j = choose|j: int| 0 <= j < a.len() && f(#[trigger] a[j]);
        assert(b[j] == a[j]);
    }
    if f(items[i]) {
        assert(b[i] == items[i]);
    }
    if some_item(b, f) {
        let j = choose|j: int| 0 <= j < b.len() && f(#[trigger] b[j]);
        if j < i {
            assert(a[j] == b[j]);
        }
    }
}

/// Produces a single summary status from a group of job/pipeline statuses.
/// Failed jobs marked `allow_failure` count as success.
pub fn aggregate(items: &[(&str, bool)]) -> (res: Status)
    ensures
        res@ == aggregate_spec(status_items(items@)),
{
    let ghost all = status_items(items@);
    let mut running = false;
    let mut failed = false;
    let mut pending = false;
    let mut manual = false;
    let mut canceled = false;
    let mut success = false;
    let mut i: usize = 0;
    while i < items.len()
        invariant
            i <= items.len(),
            all == status_items(items@),
            running == some_item(all.take(i as int), |it| marks_running(it)),
            failed == some_item(all.take(i as int), |it| marks_failed(it)),
            pending == some_item(all.take(i as int), |it| marks_pending(it)),
            manual == some_item(all.take(i as int), |it| marks_manual(it)),
            canceled == some_item(all.take(i as int), |it| marks_canceled(it)),
            success == some_item(all.take(i as int), |it| marks_success(it)),
        decreases items.len() - i,
    {
        let (status, allow_failure) = items[i];
        assert(all[i as int] == (status@, allow_failure));
        proof {
            lemma_some_item_step(all, i as int, |it| marks_running(it));
            lemma_some_item_step(all, i as int, |it| marks_failed(it));
            lemma_some_item_step(all, i as int, |it| marks_pending(it));
            lemma_some_item_step(all, i as int, |it| marks_manual(it));
            lemma_some_item_step(all, i as int, |it| marks_canceled(it));
            lemma_some_item_step(all, i as int, |it| marks_success(it));
        }
        let is_failed = str_eq(status, "failed");
        running = running || str_eq(status, "running") || str_eq(status, "canceling");
        failed = failed || (is_failed && !allow_failure);
        pending = pending || is_waiting(status);
        manual = manual || str_eq(status, "manual");
        canceled = canceled || str_eq(status, "canceled");
        success = success || str_eq(status, "success") || (is_failed && allow_failure);
        i += 1;
    }
    assert(all.take(items.len() as int) =~= all);
    if items.len() == 0 {
        return String::from_str("none");
    }
    // If anything is still running, the group counts as running; a failure
    // elsewhere shows up afterward.
    let result = if running {
        "running"
    } else if failed {
        "failed"
    } else if pending {
        "pending"
    } else if canceled {
        "canceled"
    } else if manual {
        "manual"
    } else if success {
        "success"
    } else {
        "skipped"
    };
    String::from_str(result)
}

/// The status words are pairwise different.
pub proof fn lemma_status_words_distinct()
    ensures
        "failed"@ != "success"@,
        "failed"@ != "running"@,
        "failed"@ != "canceling"@,
        "failed"@ != "pending"@,
        "failed"@ != "created"@,
        "failed"@ != "preparing"@,
        "failed"@ != "waiting_for_resource"@,
        "failed"@ != "scheduled"@,
        "failed"@ != "manual"@,
        "failed"@ != "canceled"@,
        "failed"@ != "skipped"@,
        "failed"@ != "none"@,
        "success"@ != "running"@,
        "success"@ != "canceling"@,
        "success"@ != "pending"@,
        "success"@ != "created"@,
        "success"@ != "preparing"@,
        "success"@ != "waiting_for_resource"@,
        "success"@ != "scheduled"@,
        "success"@ != "manual"@,
        "success"@ != "canceled"@,
        "success"@ != "skipped"@,
        "success"@ != "none"@,
        "running"@ != "canceling"@,
        "running"@ != "pending"@,
        "running"@ != "created"@,
        "running"@ != "preparing"@,
        "running"@ != "waiting_for_resource"@,
        "running"@ != "scheduled"@,
        "running"@ != "manual"@,
        "running"@ != "canceled"@,
        "running"@ != "skipped"@,
        "running"@ != "none"@,
        "canceling"@ != "pending"@,
        "canceling"@ != "created"@,
        "canceling"@ != "preparing"@,
        "canceling"@ != "waiting_for_resource"@,
        "canceling"@ != "scheduled"@,
        "canceling"@ != "manual"@,
        "canceling"@ != "canceled"@,
        "canceling"@ != "skipped"@,
        "canceling"@ != "none"@,
        "pending"@ != "created"@,
        "pending"@ != "preparing"@,
        "pending"@ != "waiting_for_resource"@,
        "pending"@ != "scheduled"@,
        "pending"@ != "manual"@,
        "pending"@ != "canceled"@,
        "pending"@ != "skipped"@,
        "pending"@ != "none"@,
        "created"@ != "preparing"@,
        "created"@ != "waiting_for_resource"@,
        "created"@ != "scheduled"@,
        "created"@ != "manual"@,
        "created"@ != "canceled"@,
        "created"@ != "skipped"@,
        "created"@ != "none"@,
        "preparing"@ != "waiting_for_resource"@,
        "preparing"@ != "scheduled"@,
        "preparing"@ != "manual"@,
        "preparing"@ != "canceled"@,
        "preparing"@ != "skipped"@,
        "preparing"@ != "none"@,
        "waiting_for_resource"@ != "scheduled"@,
        "waiting_for_resource"@ != "manual"@,
        "waiting_for_resource"@ != "canceled"@,
        "waiting_for_resource"@ != "skipped"@,
        "waiting_for_resource"@ != "none"@,
        "scheduled"@ != "manual"@,
        "scheduled"@ != "canceled"@,
        "scheduled"@ != "skipped"@,
        "scheduled"@ != "none"@,
        "manual"@ != "canceled"@,
        "manual"@ != "skipped"@,
        "manual"@ != "none"@,
        "canceled"@ != "skipped"@,
        "canceled"@ != "none"@,
        "skipped"@ != "none"@,
{
    reveal_strlit("failed");
    reveal_strlit("success");
    reveal_strlit("running");
    reveal_strlit("canceling");
    reveal_strlit("pending");
    reveal_strlit("created");
    reveal_strlit("preparing");
    reveal_strlit("waiting_for_resource");
    reveal_strlit("scheduled");
    reveal_strlit("manual");
    reveal_strlit("canceled");
    reveal_strlit("skipped");
    reveal_strlit("none");
    assert("failed"@.len() == 6 && "failed"@[0] == 'f' && "failed"@[1] == 'a');
    assert("success"@.len() == 7 && "success"@[0] == 's' && "success"@[1] == 'u');
    assert("running"@.len() == 7 && "running"@[0] == 'r' && "running"@[1] == 'u');
    assert("canceling"@.len() == 9 && "canceling"@[0] == 'c' && "canceling"@[1] == 'a');
    assert("pending"@.len() == 7 && "pending"@[0] == 'p' && "pending"@[1] == 'e');
    assert("created"@.len() == 7 && "created"@[0] == 'c' && "created"@[1] == 'r');
    assert("preparing"@.len() == 9 && "preparing"@[0] == 'p' && "preparing"@[1] == 'r');
    assert("waiting_for_resource"@.len() == 20 && "waiting_for_resource"@[0] == 'w' && "waiting_for_resource"@[1] == 'a');
    assert("scheduled"@.len() == 9 && "scheduled"@[0] == 's' && "scheduled"@[1] == 'c');
    assert("manual"@.len() == 6 && "manual"@[0] == 'm' && "manual"@[1] == 'a');
    assert("canceled"@.len() == 8 && "canceled"@[0] == 'c' && "canceled"@[1] == 'a');
    assert("skipped"@.len() == 7 && "skipped"@[0] == 's' && "skipped"@[1] == 'k');
    assert("none"@.len() == 4 && "none"@[0] == 'n' && "none"@[1] == 'o');
}

/// The summary depends only on WHICH statuses occur, not on their order or
/// how often each occurs.
pub proof fn law_aggregate_ignores_order_and_repetition(a: Seq<StatusItem>, b: Seq<StatusItem>)
    requires
        a.to_set() == b.to_set(),
    ensures
        aggregate_spec(a) == aggregate_spec(b),
{
    assert forall|f: spec_fn(StatusItem) -> bool| some_item(a, f) == some_item(b, f) by {
        if some_item(a, f) {
            let i = choose|i: int| 0 <= i < a.len() && f(#[trigger] a[i]);
            assert(a.to_set().contains(a[i]));
            assert(b.contains(a[i]));
            let j = choose|j: int| 0 <= j < b.len() && b[j] == a[i];
            assert(f(b[j]));
        }
        if some_item(b, f) {
            let i = choose|i: int| 0 <= i < b.len() && f(#[trigger] b[i]);
            assert(b.to_set().contains(b[i]));
            assert(a.contains(b[i]));
            let j = choose|j: int| 0 <= j < a.len() && a[j] == b[i];
            assert(f(a[j]));
        }
    }
    if a.len() > 0 {
        assert(a.to_set().contains(a[0]));
        assert(b.contains(a[0]));
    }
    if b.len() > 0 {
        assert(b.to_set().contains(b[0]));
        assert(a.contains(b[0]));
    }
}

/// Anything still running makes the whole group "running", whatever failed.
pub proof fn law_running_shadows_failure(items: Seq<StatusItem>, i: int)
    requires
        0 <= i < items.len(),
        marks_running(items[i]),
    ensures
        aggregate_spec(items) == "running"@,
{
    assert(some_item(items, |it| marks_running(it)));
}

/// With nothing running, a failure that counts (status "failed" without
/// `allow_failure`) makes the whole group "failed", whatever else (pending,
/// canceled, manual, success) it holds; and a group is "failed" only so.
pub proof fn law_real_failure_wins_unless_running(items: Seq<StatusItem>)
    ensures
        aggregate_spec(items) == "failed"@ <==> (
            (forall|j: int| 0 <= j < items.len() ==> #[trigger] items[j].0 != "running"@ && items[j].0 != "canceling"@)
            && exists|i: int| 0 <= i < items.len() && #[trigger] items[i].0 == "failed"@ && !items[i].1),
{
    lemma_status_words_distinct();
    let nothing_running = forall|j: int|
        0 <= j < items.len() ==> #[trigger] items[j].0 != "running"@ && items[j].0 != "canceling"@;
    let real_failure = exists|i: int| 0 <= i < items.len() && #[trigger] items[i].0 == "failed"@ && !items[i].1;
    assert(nothing_running <==> !some_item(items, |it| marks_running(it))) by {
        if !nothing_running {
            let j = choose|j: int|
                0 <= j < items.len() && !(items[j].0 != "running"@ && items[j].0 != "canceling"@);
            assert(marks_running(items[j]));
        }
        if some_item(items, |it| marks_running(it)) {
            let j = choose|j: int| 0 <= j < items.len() && marks_running(#[trigger] items[j]);
            assert(!(items[j].0 != "running"@ && items[j].0 != "canceling"@));
        }
    }
    assert(real_failure <==> some_item(items, |it| marks_failed(it))) by {
        if real_failure {
            let i = choose|i: int| 0 <= i < items.len() && #[trigger] items[i].0 == "failed"@ && !items[i].1;
            assert(marks_failed(items[i]));
        }
        if some_item(items, |it| marks_failed(it)) {
            let i = choose|i: int| 0 <= i < items.len() && marks_failed(#[trigger] items[i]);
            assert(items[i].0 == "failed"@ && !items[i].1);
        }
    }
}

/// A group is "running" exactly when something in it is running or being
/// canceled, and "pending" exactly when nothing runs, nothing has really
/// failed and something is still waiting to start.
pub proof fn law_running_and_pending_summaries(items: Seq<StatusItem>)
    ensures
        aggregate_spec(items) == "running"@ <==> exists|i: int|
            0 <= i < items.len() && (#[trigger] items[i].0 == "running"@ || items[i].0 == "canceling"@),
        aggregate_spec(items) == "pending"@ <==> (
            (forall|j: int| 0 <= j < items.len() ==> #[trigger] items[j].0 != "running"@ && items[j].0 != "canceling"@
                && !(items[j].0 == "failed"@ && !items[j].1))
            && exists|i: int| 0 <= i < items.len() && is_waiting_status(#[trigger] items[i].0)),
{
    lemma_status_words_distinct();
    let calm = forall|j: int| 0 <= j < items.len() ==> #[trigger] items[j].0 != "running"@ && items[j].0 != "canceling"@
        && !(items[j].0 == "failed"@ && !items[j].1);
    if some_item(items, |it| marks_running(it)) {
        let j = choose|j: int| 0 <= j < items.len() && marks_running(#[trigger] items[j]);
        assert(items[j].0 == "running"@ || items[j].0 == "canceling"@);
    }
    if exists|i: int| 0 <= i < items.len() && (#[trigger] items[i].0 == "running"@ || items[i].0 == "canceling"@) {
        let i = choose|i: int| 0 <= i < items.len() && (#[trigger] items[i].0 == "running"@ || items[i].0 == "canceling"@);
        assert(marks_running(items[i]));
    }
    if some_item(items, |it| marks_failed(it)) {
        let j = choose|j: int| 0 <= j < items.len() && marks_failed(#[trigger] items[j]);
        assert(!calm);
    }
    if !calm {
        let j = choose|j: int| 0 <= j < items.len() && !(#[trigger] items[j].0 != "running"@ && items[j].0 != "canceling"@
            && !(items[j].0 == "failed"@ && !items[j].1));
        assert(marks_running(items[j]) || marks_failed(items[j]));
    }
    if some_item(items, |it| marks_pending(it)) {
        let j = choose|j: int| 0 <= j < items.len() && marks_pending(#[trigger] items[j]);
        assert(is_waiting_status(items[j].0));
    }
    if exists|i: int| 0 <= i < items.len() && is_waiting_status(#[trigger] items[i].0) {
        let i = choose|i: int| 0 <= i < items.len() && is_waiting_status(#[trigger] items[i].0);
        assert(marks_pending(items[i]));
    }
}

/// A non-empty group in which every item succeeded, or failed while allowed
/// to, is "success".
pub proof fn law_all_succeeded_is_success(items: Seq<StatusItem>)
    requires
        items.len() > 0,
        forall|j: int| 0 <= j < items.len() ==> #[trigger] items[j].0 == "success"@ || (items[j].0 == "failed"@ && items[j].1),
    ensures
        aggregate_spec(items) == "success"@,
{
    lemma_status_words_distinct();
    assert(marks_success(items[0]));
    if some_item(items, |it| marks_running(it)) {
        let j = choose|j: int| 0 <= j < items.len() && marks_running(#[trigger] items[j]);
    }
    if some_item(items, |it| marks_failed(it)) {
        let j = choose|j: int| 0 <= j < items.len() && marks_failed(#[trigger] items[j]);
    }
    if some_item(items, |it| marks_pending(it)) {
        let j = choose|j: int| 0 <= j < items.len() && marks_pending(#[trigger] items[j]);
    }
    if some_item(items, |it| marks_canceled(it)) {
        let j = choose|j: int| 0 <= j < items.len() && marks_canceled(#[trigger] items[j]);
    }
    if some_item(items, |it| marks_manual(it)) {
        let j = choose|j: int| 0 <= j < items.len() && marks_manual(#[trigger] items[j]);
    }
}

/// A failure marked `allow_failure` weighs exactly like a success.
pub proof fn law_allowed_failure_weighs_as_success(items: Seq<StatusItem>, i: int)
    requires
        0 <= i < items.len(),
        items[i] == ("failed"@, true),
    ensures
        aggregate_spec(items) == aggregate_spec(items.update(i, ("success"@, false))),
{
    lemma_status_words_distinct();
    let b = items.update(i, ("success"@, false));
    assert forall|f: spec_fn(StatusItem) -> bool|
        f(items[i]) == f(b[i]) implies some_item(items, f) == some_item(b, f) by {
        if some_item(items, f) {
            let j = choose|j: int| 0 <= j < items.len() && f(#[trigger] items[j]);
            assert(f(b[j]));
        }
        if some_item(b, f) {
            let j = choose|j: int| 0 <= j < b.len() && f(#[trigger] b[j]);
            assert(f(items[j]));
        }
    }
    assert(marks_running(items[i]) == marks_running(b[i]));
    assert(marks_failed(items[i]) == marks_failed(b[i]));
    assert(marks_pending(items[i]) == marks_pending(b[i]));
    assert(marks_canceled(items[i]) == marks_canceled(b[i]));
    assert(marks_manual(items[i]) == marks_manual(b[i]));
    assert(marks_success(items[i]) == marks_success(b[i]));
}

/// Summarizing a summary gives the same summary back, so groups of groups
/// (jobs into stages, projects into the overall status) compose.
pub proof fn law_aggregate_of_summary(items: Seq<StatusItem>)
    requires
        items.len() > 0,
    ensures
        aggregate_spec(seq![(aggregate_spec(items), false)]) == aggregate_spec(items),
{
    lemma_status_words_distinct();
    let s = seq![(aggregate_spec(items), false)];
    assert(s[0] == (aggregate_spec(items), false));
    assert forall|f: spec_fn(StatusItem) -> bool| some_item(s, f) == f(s[0]) by {
        if some_item(s, f) {
            let j = choose|j: int| 0 <= j < s.len() && f(#[trigger] s[j]);
            assert(j == 0);
        }
    }
}

// ------------------------------------------------------------ surfaces --

/// Which surface the app shows its status on; exactly one is on screen.
#[derive(Debug, Clone, Copy, PartialEq, Eq, Structural)]
pub enum DisplayMode {
    Notch,
    Widget,
}

impl Default for DisplayMode {
    /// Older configs without the field keep the notch.
    fn default() -> (res: Self)
        ensures
            res == DisplayMode::Notch,
    {
        DisplayMode::Notch
    }
}

pub open spec fn display_mode_word(m: DisplayMode) -> Seq<char> {
    match m {
        DisplayMode::Notch => "notch"@,
        DisplayMode::Widget => "widget"@,
    }
}

pub open spec fn parse_display_mode_spec(raw: Seq<char>) -> Option<DisplayMode> {
    if raw == "notch"@ {
        Some(DisplayMode::Notch)
    } else if raw == "widget"@ {
        Some(DisplayMode::Widget)
    } else {
        None
    }
}

impl DisplayMode {
    pub fn parse(raw: &str) -> (res: Option<Self>)
        ensures
            res == parse_display_mode_spec(raw@),
    {
        if str_eq(raw, "notch") {
            Some(DisplayMode::Notch)
        } else if str_eq(raw, "widget") {
            Some(DisplayMode::Widget)
        } else {
            None
        }
    }
}

/// Each mode's config word parses back to that mode.
pub proof fn law_display_mode_word_round_trip(m: DisplayMode)
    ensures
        parse_display_mode_spec(display_mode_word(m)) == Some(m),
{
    reveal_strlit("notch");
    reveal_strlit("widget");
    assert("notch"@.len() == 5);
    assert("widget"@.len() == 6);
}

/// Where the widget window sits in the window stack.
#[derive(Debug, Clone, Copy, PartialEq, Eq, Structural)]
pub enum WidgetLayer {
    /// Above every other window, the way the notch behaves.
    Front,
    /// Below every normal window: it lives on the desktop.
    Desktop,
}

impl Default for WidgetLayer {
    fn default() -> (res: Self)
        ensures
            res == WidgetLayer::Front,
    {
        WidgetLayer::Front
    }
}

/// Smallest size the widget can be dragged down to.
pub const WIDGET_MIN_WIDTH: u32 = 260;
pub const WIDGET_MIN_HEIGHT: u32 = 120;
/// A guard against a nonsense value in a hand-edited config file.
pub const WIDGET_MAX_WIDTH: u32 = 4000;
pub const WIDGET_MAX_HEIGHT: u32 = 4000;
/// Bar width on a screen with no physical notch, in logical pixels.
pub const NOTCH_MIN_WIDTH: u32 = 240;
pub const NOTCH_MAX_WIDTH: u32 = 900;
/// How far down the notch can be pushed from the top edge.
pub const TOP_OFFSET_MAX: i32 = 400;
/// Bound on `horizontal_offset`, either way.
pub const HORIZONTAL_OFFSET_LIMIT: i32 = 20000;
/// Range of the refresh interval, in seconds.
pub const POLL_MIN_SECONDS: u64 = 5;
pub const POLL_MAX_SECONDS: u64 = 3600;
/// The widget's default background opacity, 0.94, as the bit pattern of the
/// 64-bit float.
pub const DEFAULT_WIDGET_OPACITY_BITS: u64 = 0x3fee147ae147ae14;

pub fn default_notch_width() -> (w: u32)
    ensures
        w == 240,
{
    240
}

pub fn default_widget_width() -> (w: u32)
    ensures
        w == 340,
{
    340
}

pub fn default_widget_height() -> (h: u32)
    ensures
        h == 300,
{
    300
}

pub fn default_poll() -> (s: u64)
    ensures
        s == 30,
{
    30
}

pub fn default_github_url() -> (s: String)
    ensures
        s@ == "https://api.github.com"@,
{
    String::from_str("https://api.github.com")
}

pub fn yes() -> (b: bool)
    ensures
        b,
{
    true
}

/// Geometry and appearance of the widget window, in logical points.
///
/// The background opacity is carried as the bit pattern of the 64-bit float
/// the user set; nothing here computes with it.
#[derive(Debug, Clone, Copy, PartialEq, Eq, Structural)]
pub struct WidgetConfig {
    /// Top-left corner; `None` until the widget has been placed once.
    pub x: Option<i32>,
    pub y: Option<i32>,
    pub width: u32,
    pub height: u32,
    pub layer: WidgetLayer,
    pub opacity_bits: u64,
}

impl WidgetConfig {
    /// This config with `x`, `y`, `width` and `height` taken from `live`:
    /// the window owns its geometry; `layer` and opacity stay the form's.
    pub fn keeping_geometry_of(self, live: &Self) -> (res: Self)
        ensures
            res == (WidgetConfig {
                x: live.x,
                y: live.y,
                width: live.width,
                height: live.height,
                ..self
            }),
    {
        WidgetConfig { x: live.x, y: live.y, width: live.width, height: live.height, ..self }
    }

    /// This config after the window was moved or resized to the given
    /// geometry, and whether that changed anything.
    pub fn with_geometry(self, x: i32, y: i32, width: u32, height: u32) -> (res: (Self, bool))
        ensures
            res.1 == (self.x != Some(x) || self.y != Some(y) || self.width != width
                || self.height != height),
            res.0 == (WidgetConfig { x: Some(x), y: Some(y), width, height, ..self }),
    {
        let changed = match (self.x, self.y) {
            (Some(a), Some(b)) => a != x || b != y || self.width != width || self.height != height,
            _ => true,
        };
        (WidgetConfig { x: Some(x), y: Some(y), width, height, ..self }, changed)
    }
}

impl Default for WidgetConfig {
    fn default() -> (res: Self)
        ensures
            res == (WidgetConfig {
                x: None,
                y: None,
                width: 340,
                height: 300,
                layer: WidgetLayer::Front,
                opacity_bits: DEFAULT_WIDGET_OPACITY_BITS,
            }),
    {
        WidgetConfig {
            x: None,
            y: None,
            width: default_widget_width(),
            height: default_widget_height(),
            layer: WidgetLayer::Front,
            opacity_bits: DEFAULT_WIDGET_OPACITY_BITS,
        }
    }
}

// ------------------------------------------------------------ config --

/// A project the user watches.
#[derive(Debug)]
pub struct WatchedProject {
    /// GitLab: numeric id or "group/project"; GitHub: "owner/repo";
    /// Azure: "Project" or "Project/DefinitionId".
    pub id: String,
    pub provider: ProviderKind,
    pub git_ref: Option<String>,
    pub label: Option<String>,
}

pub struct WatchedProjectView {
    pub id: Seq<char>,
    pub provider: ProviderKind,
    pub git_ref: Option<Seq<char>>,
    pub label: Option<Seq<char>>,
}

pub open spec fn opt_view(o: Option<String>) -> Option<Seq<char>> {
    match o {
        Some(s) => Some(s@),
        None => None,
    }
}

impl View for WatchedProject {
    type V = WatchedProjectView;

    open spec fn view(&self) -> WatchedProjectView {
        WatchedProjectView {
            id: self.id@,
            provider: self.provider,
            git_ref: opt_view(self.git_ref),
            label: opt_view(self.label),
        }
    }
}

pub fn clone_opt_string(o: &Option<String>) -> (res: Option<String>)
    ensures
        opt_view(res) == opt_view(*o),
{
    match o {
        Some(s) => Some(s.clone()),
        None => None,
    }
}

impl Clone for WatchedProject {
    fn clone(&self) -> (res: Self)
        ensures
            res@ == self@,
    {
        WatchedProject {
            id: self.id.clone(),
            provider: self.provider,
            git_ref: clone_opt_string(&self.git_ref),
            label: clone_opt_string(&self.label),
        }
    }
}

pub open spec fn watched_view(v: Seq<WatchedProject>) -> Seq<WatchedProjectView> {
    v.map_values(|p: WatchedProject| p@)
}

/// The user's settings.
#[derive(Debug)]
pub struct AppConfig {
    pub gitlab_url: String,
    /// https://api.github.com for github.com; https://host/api/v3 for GHES
    pub github_url: String,
    /// https://dev.azure.com/organization; required if Azure is used.
    pub azure_org_url: String,
    pub watched: Vec<WatchedProject>,
    pub poll_seconds: u64,
    pub notify_on_failure: bool,
    pub notify_on_recovery: bool,
    pub start_collapsed: bool,
    pub show_on_all_spaces: bool,
    pub top_offset: i32,
    /// Bar width on a screen with no physical notch.
    pub notch_width: u32,
    /// How far the notch is nudged left (negative) or right (positive) of
    /// the horizontal center, in logical pixels.
    pub horizontal_offset: i32,
    /// Also watch open merge requests.
    pub watch_merge_requests: bool,
    pub notify_on_new_merge_request: bool,
    /// Only notify about MRs opened against the project's watched branch.
    pub notify_only_watched_branch_mr: bool,
    pub display_mode: DisplayMode,
    pub widget: WidgetConfig,
}

pub struct AppConfigView {
    pub gitlab_url: Seq<char>,
    pub github_url: Seq<char>,
    pub azure_org_url: Seq<char>,
    pub watched: Seq<WatchedProjectView>,
    pub poll_seconds: u64,
    pub notify_on_failure: bool,
    pub notify_on_recovery: bool,
    pub start_collapsed: bool,
    pub show_on_all_spaces: bool,
    pub top_offset: i32,
    pub notch_width: u32,
    pub horizontal_offset: i32,
    pub watch_merge_requests: bool,
    pub notify_on_new_merge_request: bool,
    pub notify_only_watched_branch_mr: bool,
    pub display_mode: DisplayMode,
    pub widget: WidgetConfig,
}

impl View for AppConfig {
    type V = AppConfigView;

    open spec fn view(&self) -> AppConfigView {
        AppConfigView {
            gitlab_url: self.gitlab_url@,
            github_url: self.github_url@,
            azure_org_url: self.azure_org_url@,
            watched: watched_view(self.watched@),
            poll_seconds: self.poll_seconds,
            notify_on_failure: self.notify_on_failure,
            notify_on_recovery: self.notify_on_recovery,
            start_collapsed: self.start_collapsed,
            show_on_all_spaces: self.show_on_all_spaces,
            top_offset: self.top_offset,
            notch_width: self.notch_width,
            horizontal_offset: self.horizontal_offset,
            watch_merge_requests: self.watch_merge_requests,
            notify_on_new_merge_request: self.notify_on_new_merge_request,
            notify_only_watched_branch_mr: self.notify_only_watched_branch_mr,
            display_mode: self.display_mode,
            widget: self.widget,
        }
    }
}

pub fn clone_watched(v: &Vec<WatchedProject>) -> (res: Vec<WatchedProject>)
    ensures
        watched_view(res@) == watched_view(v@),
{
    let mut out: Vec<WatchedProject> = Vec::new();
    for i in 0..v.len()
        invariant
            out@.len() == i,
            forall|j: int| 0 <= j < i ==> (#[trigger] out@[j])@ == v@[j]@,
    {
        out.push(v[i].clone());
    }
    assert(watched_view(out@) =~= watched_view(v@));
    out
}

impl Clone for AppConfig {
    fn clone(&self) -> (res: Self)
        ensures
            res@ == self@,
    {
        AppConfig {
            gitlab_url: self.gitlab_url.clone(),
            github_url: self.github_url.clone(),
            azure_org_url: self.azure_org_url.clone(),
            watched: clone_watched(&self.watched),
            ..*self
        }
    }
}

/// The settings a fresh install starts with.
pub open spec fn default_config() -> AppConfigView {
    AppConfigView {
        gitlab_url: "https://gitlab.com"@,
        github_url: "https://api.github.com"@,
        azure_org_url: Seq::empty(),
        watched: Seq::empty(),
        poll_seconds: 30,
        notify_on_failure: true,
        notify_on_recovery: true,
        start_collapsed: true,
        show_on_all_spaces: true,
        top_offset: 0,
        notch_width: 240,
        horizontal_offset: 0,
        watch_merge_requests: true,
        notify_on_new_merge_request: true,
        notify_only_watched_branch_mr: true,
        display_mode: DisplayMode::Notch,
        widget: WidgetConfig {
            x: None,
            y: None,
            width: 340,
            height: 300,
            layer: WidgetLayer::Front,
            opacity_bits: DEFAULT_WIDGET_OPACITY_BITS,
        },
    }
}

impl Default for AppConfig {
    fn default() -> (res: Self)
        ensures
            res@ == default_config(),
    {
        let res = AppConfig {
            gitlab_url: String::from_str("https://gitlab.com"),
            github_url: default_github_url(),
            azure_org_url: String::new(),
            watched: Vec::new(),
            poll_seconds: default_poll(),
            notify_on_failure: true,
            notify_on_recovery: true,
            start_collapsed: true,
            show_on_all_spaces: true,
            top_offset: 0,
            horizontal_offset: 0,
            notch_width: default_notch_width(),
            watch_merge_requests: true,
            notify_on_new_merge_request: true,
            notify_only_watched_branch_mr: true,
            display_mode: DisplayMode::Notch,
            widget: WidgetConfig::default(),
        };
        assert(res@.watched =~= Seq::<WatchedProjectView>::empty());
        res
    }
}

pub open spec fn clamp_u64(v: u64, lo: u64, hi: u64) -> u64 {
    if v < lo { lo } else if v > hi { hi } else { v }
}

pub open spec fn clamp_u32(v: u32, lo: u32, hi: u32) -> u32 {
    if v < lo { lo } else if v > hi { hi } else { v }
}

pub open spec fn clamp_i32(v: i32, lo: i32, hi: i32) -> i32 {
    if v < lo { lo } else if v > hi { hi } else { v }
}

pub fn clamp_u64_exec(v: u64, lo: u64, hi: u64) -> (r: u64)
    ensures r == clamp_u64(v, lo, hi),
{
    if v < lo { lo } else if v > hi { hi } else { v }
}

pub fn clamp_u32_exec(v: u32, lo: u32, hi: u32) -> (r: u32)
    ensures r == clamp_u32(v, lo, hi),
{
    if v < lo { lo } else if v > hi { hi } else { v }
}

pub fn clamp_i32_exec(v: i32, lo: i32, hi: i32) -> (r: i32)
    ensures r == clamp_i32(v, lo, hi),
{
    if v < lo { lo } else if v > hi { hi } else { v }
}

/// A URL from the settings form: white space and trailing slashes removed.
pub open spec fn clean_url(u: Seq<char>) -> Seq<char> {
    drop_back(trimmed(u), CharClass::Only('/'))
}

/// `u` cleaned, or `fallback` if nothing is left of it.
pub open spec fn clean_url_or(u: Seq<char>, fallback: Seq<char>) -> Seq<char> {
    if clean_url(u).len() == 0 { fallback } else { clean_url(u) }
}

/// An optional text field: kept as typed unless it is blank.
pub open spec fn non_blank(o: Option<Seq<char>>) -> Option<Seq<char>> {
    match o {
        Some(s) => if trimmed(s).len() > 0 { Some(s) } else { None },
        None => None,
    }
}

/// A watched project's id with white space and surrounding slashes removed.
pub open spec fn clean_id(id: Seq<char>) -> Seq<char> {
    trim_class(trimmed(id), CharClass::Only('/'))
}

pub open spec fn clean_project(p: WatchedProjectView) -> WatchedProjectView {
    WatchedProjectView {
        id: clean_id(p.id),
        provider: p.provider,
        git_ref: non_blank(p.git_ref),
        label: non_blank(p.label),
    }
}

/// The watched list without blank ids, each entry cleaned.
pub open spec fn clean_watched(s: Seq<WatchedProjectView>) -> Seq<WatchedProjectView>
    decreases s.len(),
{
    if s.len() == 0 {
        Seq::empty()
    } else if trimmed(s.last().id).len() > 0 {
        clean_watched(s.drop_last()).push(clean_project(s.last()))
    } else {
        clean_watched(s.drop_last())
    }
}

/// The settings with every user-supplied value brought into its range.
/// The widget's opacity is a float and is left as it is here.
pub open spec fn sanitize_spec(c: AppConfigView) -> AppConfigView {
    AppConfigView {
        gitlab_url: clean_url_or(c.gitlab_url, "https://gitlab.com"@),
        github_url: clean_url_or(c.github_url, "https://api.github.com"@),
        azure_org_url: clean_url(c.azure_org_url),
        watched: clean_watched(c.watched),
        poll_seconds: clamp_u64(c.poll_seconds, 5, 3600),
        top_offset: clamp_i32(c.top_offset, 0, 400),
        horizontal_offset: clamp_i32(c.horizontal_offset, -20000i32, 20000i32),
        notch_width: clamp_u32(c.notch_width, 240, 900),
        widget: WidgetConfig {
            width: clamp_u32(c.widget.width, 260, 4000),
            height: clamp_u32(c.widget.height, 120, 4000),
            ..c.widget
        },
        ..c
    }
}

fn clean_url_exec(u: &String) -> (res: String)
    ensures
        res@ == clean_url(u@),
{
    let t = trim(u.as_str());
    trim_end_char(t.as_str(), '/')
}

fn non_blank_exec(o: &Option<String>) -> (res: Option<String>)
    ensures
        opt_view(res) == non_blank(opt_view(*o)),
{
    match o {
        Some(s) => {
            let t = trim(s.as_str());
            if t.as_str().is_empty() {
                None
            } else {
                Some(s.clone())
            }
        },
        None => None,
    }
}

impl AppConfig {
    /// Clamps user-supplied values to sane ranges.
    pub fn sanitized(self) -> (res: Self)
        ensures
            res@ == sanitize_spec(self@),
    {
        let mut c = self;
        let g = clean_url_exec(&c.gitlab_url);
        c.gitlab_url = if g.as_str().is_empty() {
            String::from_str("https://gitlab.com")
        } else {
            g
        };
        let h = clean_url_exec(&c.github_url);
        c.github_url = if h.as_str().is_empty() {
            default_github_url()
        } else {
            h
        };
        c.azure_org_url = clean_url_exec(&c.azure_org_url);
        c.poll_seconds = clamp_u64_exec(c.poll_seconds, POLL_MIN_SECONDS, POLL_MAX_SECONDS);
        c.top_offset = clamp_i32_exec(c.top_offset, 0, TOP_OFFSET_MAX);
        c.horizontal_offset = clamp_i32_exec(
            c.horizontal_offset,
            -HORIZONTAL_OFFSET_LIMIT,
            HORIZONTAL_OFFSET_LIMIT,
        );
        c.notch_width = clamp_u32_exec(c.notch_width, NOTCH_MIN_WIDTH, NOTCH_MAX_WIDTH);
        c.widget.width = clamp_u32_exec(c.widget.width, WIDGET_MIN_WIDTH, WIDGET_MAX_WIDTH);
        c.widget.height = clamp_u32_exec(c.widget.height, WIDGET_MIN_HEIGHT, WIDGET_MAX_HEIGHT);
        let ghost before = watched_view(c.watched@);
        let mut kept: Vec<WatchedProject> = Vec::new();
        for i in 0..c.watched.len()
            invariant
                before == watched_view(c.watched@),
                watched_view(kept@) == clean_watched(before.take(i as int)),
        {
            let p = &c.watched[i];
            proof {
                let t = before.take(i + 1);
                assert(t.drop_last() =~= before.take(i as int));
                assert(t.last() == p@);
            }
            let id = trim(p.id.as_str());
            if !id.as_str().is_empty() {
                let cleaned = WatchedProject {
                    id: trim_by(id.as_str(), CharClass::Only('/')),
                    provider: p.provider,
                    git_ref: non_blank_exec(&p.git_ref),
                    label: non_blank_exec(&p.label),
                };
                let ghost old_kept = watched_view(kept@);
                kept.push(cleaned);
                assert(watched_view(kept@) =~= old_kept.push(cleaned@));
            }
        }
        assert(before.take(c.watched@.len() as int) =~= before);
        c.watched = kept;
        c
    }
}

/// After cleaning, every number is inside its range and the GitLab and
/// GitHub addresses are never empty.
pub proof fn law_sanitized_in_range(c: AppConfigView)
    ensures
        5 <= sanitize_spec(c).poll_seconds <= 3600,
        0 <= sanitize_spec(c).top_offset <= 400,
        -20000 <= sanitize_spec(c).horizontal_offset <= 20000,
        240 <= sanitize_spec(c).notch_width <= 900,
        260 <= sanitize_spec(c).widget.width <= 4000,
        120 <= sanitize_spec(c).widget.height <= 4000,
        sanitize_spec(c).gitlab_url.len() > 0,
        sanitize_spec(c).github_url.len() > 0,
{
    reveal_strlit("https://gitlab.com");
    reveal_strlit("https://api.github.com");
}

proof fn lemma_clean_watched_no_blank(s: Seq<WatchedProjectView>)
    ensures
        forall|i: int|
            0 <= i < clean_watched(s).len() ==> {
                let w = #[trigger] clean_watched(s)[i];
                &&& (w.git_ref matches Some(r) ==> trimmed(r).len() > 0)
                &&& (w.label matches Some(l) ==> trimmed(l).len() > 0)
            },
    decreases s.len(),
{
    if s.len() > 0 {
        lemma_clean_watched_no_blank(s.drop_last());
        let d = clean_watched(s.drop_last());
        let out = clean_watched(s);
        assert forall|i: int| 0 <= i < out.len() implies {
            let w = #[trigger] out[i];
            &&& (w.git_ref matches Some(r) ==> trimmed(r).len() > 0)
            &&& (w.label matches Some(l) ==> trimmed(l).len() > 0)
        } by {
            if i < d.len() {
                assert(out[i] == d[i]);
            }
        }
    }
}

proof fn lemma_clean_watched_keeps(s: Seq<WatchedProjectView>)
    ensures
        forall|i: int|
            0 <= i < s.len() && trimmed(#[trigger] s[i].id).len() > 0 ==> exists|j: int|
                0 <= j < clean_watched(s).len() && #[trigger] clean_watched(s)[j] == clean_project(s[i]),
    decreases s.len(),
{
    if s.len() > 0 {
        let d = s.drop_last();
        lemma_clean_watched_keeps(d);
        let cd = clean_watched(d);
        let out = clean_watched(s);
        assert forall|i: int| 0 <= i < s.len() && trimmed(#[trigger] s[i].id).len() > 0 implies exists|j: int|
            0 <= j < out.len() && #[trigger] out[j] == clean_project(s[i]) by {
            if i < d.len() {
                assert(d[i] == s[i]);
                let j = choose|j: int| 0 <= j < cd.len() && #[trigger] cd[j] == clean_project(d[i]);
                assert(out[j] == cd[j]);
            } else {
                assert(s[i] == s.last());
                assert(out[cd.len() as int] == clean_project(s[i]));
            }
        }
    }
}

/// Every watched project whose id is not blank is kept, with its provider and
/// with the branch and label as typed when they are not blank.
pub proof fn law_sanitized_keeps_projects(c: AppConfigView)
    ensures
        forall|i: int|
            0 <= i < c.watched.len() && trimmed(#[trigger] c.watched[i].id).len() > 0 ==> exists|j: int|
                0 <= j < sanitize_spec(c).watched.len() && {
                    let w = #[trigger] sanitize_spec(c).watched[j];
                    &&& w.provider == c.watched[i].provider
                    &&& (c.watched[i].git_ref matches Some(r) && trimmed(r).len() > 0 ==> w.git_ref == c.watched[i].git_ref)
                    &&& (c.watched[i].label matches Some(l) && trimmed(l).len() > 0 ==> w.label == c.watched[i].label)
                },
{
    lemma_clean_watched_keeps(c.watched);
    let out = sanitize_spec(c).watched;
    assert forall|i: int| 0 <= i < c.watched.len() && trimmed(#[trigger] c.watched[i].id).len() > 0 implies exists|j: int|
        0 <= j < out.len() && {
            let w = #[trigger] out[j];
            &&& w.provider == c.watched[i].provider
            &&& (c.watched[i].git_ref matches Some(r) && trimmed(r).len() > 0 ==> w.git_ref == c.watched[i].git_ref)
            &&& (c.watched[i].label matches Some(l) && trimmed(l).len() > 0 ==> w.label == c.watched[i].label)
        } by {
        let j = choose|j: int| 0 <= j < out.len() && #[trigger] out[j] == clean_project(c.watched[i]);
        assert(out[j] == clean_project(c.watched[i]));
    }
}

/// After sanitizing, no watched project has a blank branch or label: a
/// branch or label that is only white space is dropped, so the app never asks
/// for the pipeline of a blank ref.
pub proof fn law_sanitized_has_no_blank_branch_or_label(c: AppConfigView)
    ensures
        forall|i: int|
            0 <= i < sanitize_spec(c).watched.len() ==> {
                let w = #[trigger] sanitize_spec(c).watched[i];
                &&& (w.git_ref matches Some(r) ==> trimmed(r).len() > 0)
                &&& (w.label matches Some(l) ==> trimmed(l).len() > 0)
            },
{
    lemma_clean_watched_no_blank(c.watched);
}

/// Sanitizing twice gives what sanitizing once gave, wherever the first pass
/// left no white space at the ends of an address or a project id and no id
/// empty (an address such as "https://x /" loses its slash only after the
/// blank before it is gone, so a second pass trims once more).
pub proof fn law_sanitize_idempotent(c: AppConfigView)
    requires
        trimmed(sanitize_spec(c).gitlab_url) == sanitize_spec(c).gitlab_url,
        trimmed(sanitize_spec(c).github_url) == sanitize_spec(c).github_url,
        trimmed(sanitize_spec(c).azure_org_url) == sanitize_spec(c).azure_org_url,
        forall|i: int|
            0 <= i < sanitize_spec(c).watched.len() ==> {
                let id = (#[trigger] sanitize_spec(c).watched[i]).id;
                trimmed(id) == id && id.len() > 0
            },
    ensures
        sanitize_spec(sanitize_spec(c)) == sanitize_spec(c),
{
    let s = sanitize_spec(c);
    lemma_clean_url_stable(c.gitlab_url, "https://gitlab.com"@);
    lemma_clean_url_stable(c.github_url, "https://api.github.com"@);
    lemma_clean_url_fixed(c.azure_org_url);
    lemma_clean_watched_idempotent(c.watched);
    assert(sanitize_spec(s).watched =~= s.watched);
}

proof fn lemma_clean_url_fixed(u: Seq<char>)
    requires
        trimmed(clean_url(u)) == clean_url(u),
    ensures
        clean_url(clean_url(u)) == clean_url(u),
{
    lemma_drop_back_shape(trimmed(u), CharClass::Only('/'));
    let t = trimmed(u);
    let n = choose|n: int|
        0 <= n <= t.len() && drop_back(t, CharClass::Only('/')) == t.take(n) && (n == 0
            || !in_class(CharClass::Only('/'), t[n - 1]));
    let x = clean_url(u);
    if x.len() > 0 {
        assert(x.last() == t[n - 1]);
    }
    lemma_drop_nothing(x, CharClass::Only('/'));
}

proof fn lemma_clean_url_stable(u: Seq<char>, fallback: Seq<char>)
    requires
        trimmed(clean_url_or(u, fallback)) == clean_url_or(u, fallback),
        fallback == "https://gitlab.com"@ || fallback == "https://api.github.com"@,
    ensures
        clean_url_or(clean_url_or(u, fallback), fallback) == clean_url_or(u, fallback),
{
    reveal_strlit("https://gitlab.com");
    reveal_strlit("https://api.github.com");
    if clean_url(u).len() == 0 {
        let f = fallback;
        assert(f.len() > 0 && f.last() == 'm');
        lemma_drop_nothing(trimmed(f), CharClass::Only('/'));
    } else {
        lemma_clean_url_fixed(u);
    }
}

proof fn lemma_clean_id_fixed(id: Seq<char>)
    requires
        trimmed(clean_id(id)) == clean_id(id),
    ensures
        clean_id(clean_id(id)) == clean_id(id),
{
    lemma_trim_class_idempotent(trimmed(id), CharClass::Only('/'));
}

proof fn lemma_clean_watched_idempotent(w: Seq<WatchedProjectView>)
    requires
        forall|i: int|
            0 <= i < clean_watched(w).len() ==> {
                let id = (#[trigger] clean_watched(w)[i]).id;
                trimmed(id) == id && id.len() > 0
            },
    ensures
        clean_watched(clean_watched(w)) == clean_watched(w),
    decreases w.len(),
{
    if w.len() > 0 {
        let r = clean_watched(w.drop_last());
        if trimmed(w.last().id).len() > 0 {
            let p = clean_project(w.last());
            assert(clean_watched(w) == r.push(p));
            assert forall|i: int| 0 <= i < r.len() implies {
                let id = (#[trigger] r[i]).id;
                trimmed(id) == id && id.len() > 0
            } by {
                assert(clean_watched(w)[i] == r[i]);
            }
            lemma_clean_watched_idempotent(w.drop_last());
            let last = clean_watched(w).len() - 1;
            assert(clean_watched(w)[last] == p);
            lemma_clean_id_fixed(w.last().id);
            assert(r.push(p).drop_last() =~= r);
            assert(r.push(p).last() == p);
            assert(clean_project(p) == p);
        } else {
            lemma_clean_watched_idempotent(w.drop_last());
        }
    }
}

// ------------------------------------------------------------ snapshot --

/// How long a job or pipeline took.
#[derive(Debug, Clone, Copy, PartialEq, Eq, Structural)]
pub enum Duration {
    /// Whole seconds between two timestamps, measured here.
    Seconds(u64),
    /// The provider's own figure, as the bit pattern of the 64-bit float it
    /// sent; carried through untouched.
    Reported(u64),
}

/// One job of a pipeline.
#[derive(Debug)]
pub struct JobInfo {
    pub id: u64,
    pub name: String,
    pub stage: String,
    pub status: Status,
    pub allow_failure: bool,
    pub duration: Option<Duration>,
    pub web_url: String,
    pub finished_at: Option<String>,
    /// The downstream pipeline this job triggered, if it's a bridge job.
    pub downstream: Option<DownstreamInfo>,
}

/// The downstream (child or multi-project) pipeline triggered by a bridge job.
#[derive(Debug)]
pub struct DownstreamInfo {
    pub id: u64,
    pub status: Status,
    pub web_url: String,
    pub git_ref: Option<String>,
    /// The downstream pipeline's own jobs, split into stages.
    pub stages: Vec<StageInfo>,
}

#[derive(Debug)]
pub struct StageInfo {
    pub name: String,
    pub status: Status,
    pub jobs: Vec<JobInfo>,
}

pub struct JobInfoView {
    pub id: u64,
    pub name: Seq<char>,
    pub stage: Seq<char>,
    pub status: Seq<char>,
    pub allow_failure: bool,
    pub duration: Option<Duration>,
    pub web_url: Seq<char>,
    pub finished_at: Option<Seq<char>>,
    pub downstream: Option<DownstreamInfoView>,
}

pub struct DownstreamInfoView {
    pub id: u64,
    pub status: Seq<char>,
    pub web_url: Seq<char>,
    pub git_ref: Option<Seq<char>>,
    pub stages: Seq<StageInfoView>,
}

pub struct StageInfoView {
    pub name: Seq<char>,
    pub status: Seq<char>,
    pub jobs: Seq<JobInfoView>,
}

pub open spec fn job_view(j: JobInfo) -> JobInfoView
    decreases j,
{
    JobInfoView {
        id: j.id,
        name: j.name@,
        stage: j.stage@,
        status: j.status@,
        allow_failure: j.allow_failure,
        duration: j.duration,
        web_url: j.web_url@,
        finished_at: opt_view(j.finished_at),
        downstream: match j.downstream {
            Some(d) => Some(downstream_view(d)),
            None => None,
        },
    }
}

pub open spec fn downstream_view(d: DownstreamInfo) -> DownstreamInfoView
    decreases d,
{
    DownstreamInfoView {
        id: d.id,
        status: d.status@,
        web_url: d.web_url@,
        git_ref: opt_view(d.git_ref),
        stages: stages_view(d.stages@),
    }
}

pub open spec fn stages_view(s: Seq<StageInfo>) -> Seq<StageInfoView>
    decreases s,
{
    if s.len() == 0 {
        Seq::empty()
    } else {
        stages_view(s.drop_last()).push(stage_view(s.last()))
    }
}

pub open spec fn stage_view(s: StageInfo) -> StageInfoView
    decreases s,
{
    StageInfoView { name: s.name@, status: s.status@, jobs: jobs_view(s.jobs@) }
}

pub open spec fn jobs_view(s: Seq<JobInfo>) -> Seq<JobInfoView>
    decreases s,
{
    if s.len() == 0 {
        Seq::empty()
    } else {
        jobs_view(s.drop_last()).push(job_view(s.last()))
    }
}

impl View for JobInfo {
    type V = JobInfoView;

    open spec fn view(&self) -> JobInfoView {
        job_view(*self)
    }
}

impl View for StageInfo {
    type V = StageInfoView;

    open spec fn view(&self) -> StageInfoView {
        stage_view(*self)
    }
}

impl View for DownstreamInfo {
    type V = DownstreamInfoView;

    open spec fn view(&self) -> DownstreamInfoView {
        downstream_view(*self)
    }
}

pub proof fn lemma_stages_view(s: Seq<StageInfo>)
    ensures
        stages_view(s).len() == s.len(),
        forall|i: int| 0 <= i < s.len() ==> #[trigger] stages_view(s)[i] == stage_view(s[i]),
    decreases s.len(),
{
    if s.len() > 0 {
        lemma_stages_view(s.drop_last());
    }
}

pub proof fn lemma_jobs_view(s: Seq<JobInfo>)
    ensures
        jobs_view(s).len() == s.len(),
        forall|i: int| 0 <= i < s.len() ==> #[trigger] jobs_view(s)[i] == job_view(s[i]),
    decreases s.len(),
{
    if s.len() > 0 {
        lemma_jobs_view(s.drop_last());
    }
}

/// `stages_view` read element by element.
pub proof fn lemma_stages_view_ext(s: Seq<StageInfo>, v: Seq<StageInfoView>)
    requires
        v.len() == s.len(),
        forall|i: int| 0 <= i < s.len() ==> #[trigger] v[i] == stage_view(s[i]),
    ensures
        stages_view(s) == v,
{
    lemma_stages_view(s);
    assert(stages_view(s) =~= v);
}

/// `jobs_view` read element by element.
pub proof fn lemma_jobs_view_ext(s: Seq<JobInfo>, v: Seq<JobInfoView>)
    requires
        v.len() == s.len(),
        forall|i: int| 0 <= i < s.len() ==> #[trigger] v[i] == job_view(s[i]),
    ensures
        jobs_view(s) == v,
{
    lemma_jobs_view(s);
    assert(jobs_view(s) =~= v);
}

pub fn clone_job(j: &JobInfo) -> (r: JobInfo)
    ensures
        r@ == j@,
    decreases j,
{
    JobInfo {
        id: j.id,
        name: j.name.clone(),
        stage: j.stage.clone(),
        status: j.status.clone(),
        allow_failure: j.allow_failure,
        duration: j.duration,
        web_url: j.web_url.clone(),
        finished_at: clone_opt_string(&j.finished_at),
        downstream: match &j.downstream {
            Some(d) => Some(clone_downstream(d)),
            None => None,
        },
    }
}

pub fn clone_downstream(d: &DownstreamInfo) -> (r: DownstreamInfo)
    ensures
        r@ == d@,
    decreases d,
{
    DownstreamInfo {
        id: d.id,
        status: d.status.clone(),
        web_url: d.web_url.clone(),
        git_ref: clone_opt_string(&d.git_ref),
        stages: clone_stages(&d.stages),
    }
}

pub fn clone_stages(v: &Vec<StageInfo>) -> (r: Vec<StageInfo>)
    ensures
        stages_view(r@) == stages_view(v@),
    decreases v,
{
    let mut out: Vec<StageInfo> = Vec::new();
    for i in 0..v.len()
        invariant
            out@.len() == i,
            forall|k: int| 0 <= k < i ==> stage_view(#[trigger] out@[k]) == stage_view(v@[k]),
    {
        assert(decreases_to!(v => v@));
        assert(decreases_to!(v@ => v@[i as int]));
        out.push(clone_stage(&v[i]));
    }
    proof {
        lemma_stages_view(v@);
        lemma_stages_view_ext(out@, stages_view(v@));
    }
    out
}

pub fn clone_stage(s: &StageInfo) -> (r: StageInfo)
    ensures
        r@ == s@,
    decreases s,
{
    let mut jobs: Vec<JobInfo> = Vec::new();
    for i in 0..s.jobs.len()
        invariant
            jobs@.len() == i,
            forall|k: int| 0 <= k < i ==> job_view(#[trigger] jobs@[k]) == job_view(s.jobs@[k]),
    {
        assert(decreases_to!(s.jobs@ => s.jobs@[i as int]));
        jobs.push(clone_job(&s.jobs[i]));
    }
    proof {
        lemma_jobs_view(s.jobs@);
        lemma_jobs_view_ext(jobs@, jobs_view(s.jobs@));
    }
    StageInfo { name: s.name.clone(), status: s.status.clone(), jobs }
}

/// A pipeline run as every provider reports it.
#[derive(Debug)]
pub struct PipelineInfo {
    pub project_id: String,
    pub project_name: String,
    pub project_url: String,
    pub id: u64,
    pub git_ref: String,
    pub sha: String,
    pub status: Status,
    pub source: Option<String>,
    pub web_url: String,
    pub created_at: Option<String>,
    pub duration: Option<Duration>,
    pub triggered_by: Option<String>,
    pub commit_title: Option<String>,
    pub stages: Vec<StageInfo>,
}

pub struct PipelineInfoView {
    pub project_id: Seq<char>,
    pub project_name: Seq<char>,
    pub project_url: Seq<char>,
    pub id: u64,
    pub git_ref: Seq<char>,
    pub sha: Seq<char>,
    pub status: Seq<char>,
    pub source: Option<Seq<char>>,
    pub web_url: Seq<char>,
    pub created_at: Option<Seq<char>>,
    pub duration: Option<Duration>,
    pub triggered_by: Option<Seq<char>>,
    pub commit_title: Option<Seq<char>>,
    pub stages: Seq<StageInfoView>,
}

impl View for PipelineInfo {
    type V = PipelineInfoView;

    open spec fn view(&self) -> PipelineInfoView {
        PipelineInfoView {
            project_id: self.project_id@,
            project_name: self.project_name@,
            project_url: self.project_url@,
            id: self.id,
            git_ref: self.git_ref@,
            sha: self.sha@,
            status: self.status@,
            source: opt_view(self.source),
            web_url: self.web_url@,
            created_at: opt_view(self.created_at),
            duration: self.duration,
            triggered_by: opt_view(self.triggered_by),
            commit_title: opt_view(self.commit_title),
            stages: stages_view(self.stages@),
        }
    }
}

/// An open merge request (GitLab) or pull request (GitHub, Azure).
#[derive(Debug)]
pub struct MergeRequestInfo {
    pub iid: u64,
    pub title: String,
    pub author: Option<String>,
    pub source_branch: String,
    pub target_branch: String,
    pub web_url: String,
    pub created_at: Option<String>,
    pub draft: bool,
}

pub struct MergeRequestInfoView {
    pub iid: u64,
    pub title: Seq<char>,
    pub author: Option<Seq<char>>,
    pub source_branch: Seq<char>,
    pub target_branch: Seq<char>,
    pub web_url: Seq<char>,
    pub created_at: Option<Seq<char>>,
    pub draft: bool,
}

impl View for MergeRequestInfo {
    type V = MergeRequestInfoView;

    open spec fn view(&self) -> MergeRequestInfoView {
        MergeRequestInfoView {
            iid: self.iid,
            title: self.title@,
            author: opt_view(self.author),
            source_branch: self.source_branch@,
            target_branch: self.target_branch@,
            web_url: self.web_url@,
            created_at: opt_view(self.created_at),
            draft: self.draft,
        }
    }
}

pub open spec fn merge_requests_view(v: Seq<MergeRequestInfo>) -> Seq<MergeRequestInfoView> {
    v.map_values(|m: MergeRequestInfo| m@)
}

/// One watched project's current state.
#[derive(Debug)]
pub struct ProjectSnapshot {
    pub project: WatchedProject,
    pub pipeline: Option<PipelineInfo>,
    pub merge_requests: Vec<MergeRequestInfo>,
    pub error: Option<String>,
}

pub struct ProjectSnapshotView {
    pub project: WatchedProjectView,
    pub pipeline: Option<PipelineInfoView>,
    pub merge_requests: Seq<MergeRequestInfoView>,
    pub error: Option<Seq<char>>,
}

impl View for ProjectSnapshot {
    type V = ProjectSnapshotView;

    open spec fn view(&self) -> ProjectSnapshotView {
        ProjectSnapshotView {
            project: self.project@,
            pipeline: match self.pipeline {
                Some(p) => Some(p@),
                None => None,
            },
            merge_requests: merge_requests_view(self.merge_requests@),
            error: opt_view(self.error),
        }
    }
}

pub open spec fn projects_view(v: Seq<ProjectSnapshot>) -> Seq<ProjectSnapshotView> {
    v.map_values(|p: ProjectSnapshot| p@)
}

/// Everything the surfaces show.
#[derive(Debug)]
pub struct Snapshot {
    pub projects: Vec<ProjectSnapshot>,
    pub overall: Status,
    pub fetched_at: String,
    pub configured: bool,
}

impl Default for Snapshot {
    fn default() -> (res: Self)
        ensures
            res.projects@.len() == 0,
            res.overall@ == "none"@,
            res.fetched_at@.len() == 0,
            !res.configured,
    {
        Snapshot {
            projects: Vec::new(),
            overall: String::from_str("none"),
            fetched_at: String::new(),
            configured: false,
        }
    }
}

/// Whether a provider has a token, and whose it is.
#[derive(Debug)]
pub struct TokenState {
    pub present: bool,
    pub username: Option<String>,
}

/// Token status for all three providers together.
#[derive(Debug)]
pub struct TokenStates {
    pub gitlab: TokenState,
    pub github: TokenState,
    pub azure: TokenState,
}

} // verus!
