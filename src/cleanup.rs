//! Deciding, worktree by worktree, what each cleanup mode does.
use vstd::prelude::*;

use crate::git::WorktreeInfo;
use crate::safety::{eligible_names, lemma_fewer_branches_fewer_eligible, BranchFacts};
use crate::text::{decimal, decimal_string, list_contains, occurs_in, str_eq, trimmed, views};

verus! {

/// Seconds in a day: worktrees younger than this are never removed
/// automatically, and merged branches idle this long get a warning.
pub const DAY_SECS: u64 = 86400;

/// An unmerged branch idle this long is stale.
pub const STALE_SECS: u64 = 14 * DAY_SECS;

/// The four ways a cleanup can run.
pub enum CleanupMode {
    Merged { force: bool },
    Pattern(String),
    Interactive,
    Status,
}

/// Whether a branch's history is contained in the target branch.
#[derive(PartialEq, Eq, Structural, Clone, Copy, Debug)]
pub enum MergeStatus {
    Merged,
    NotMerged,
    Unknown,
}

#[derive(PartialEq, Eq, Structural, Clone, Copy, Debug)]
pub enum SkipReason {
    Detached,
    TooRecent,
    RemoveFailed,
}

/// What automatic cleanup intends for one worktree.
#[derive(PartialEq, Eq, Structural, Clone, Copy, Debug)]
pub enum Decision {
    Remove,
    Skip(SkipReason),
    Ignore,
}

/// What became of one worktree.
#[derive(PartialEq, Eq, Structural, Clone, Copy, Debug)]
pub enum CleanupOutcome {
    Removed,
    Skipped(SkipReason),
    Ignored,
}

/// The counts that end a cleanup run.
#[derive(PartialEq, Eq, Structural, Clone, Copy, Debug)]
pub struct CleanupSummary {
    pub cleaned: usize,
    pub skipped: usize,
}

/// How status mode reports one worktree.
#[derive(PartialEq, Eq, Structural, Clone, Copy, Debug)]
pub enum StatusEntry {
    Primary,
    Detached,
    NoBranch,
    Merged { activity: Option<u64>, inactive_warning: bool },
    NotMerged { activity: Option<u64>, stale: bool },
    MergeUnknown { activity: Option<u64> },
}

pub open spec fn is_eligible_branch(eligible: Seq<Seq<char>>, b: Option<Seq<char>>) -> bool {
    b matches Some(name) && eligible.contains(name)
}

/// Merged cleanup, one worktree at a time: a detached worktree is skipped;
/// the primary worktree and worktrees whose branch did not pass the safety
/// filters are left alone; one created less than a day ago is skipped; the
/// rest are removed. `age` is unknown when the directory's creation time
/// cannot be read.
pub open spec fn merged_decision(
    w: WorktreeInfo,
    root: Seq<char>,
    eligible: Seq<Seq<char>>,
    age: Option<u64>,
) -> Decision {
    if w.is_detached {
        Decision::Skip(SkipReason::Detached)
    } else if w.path@ == root {
        Decision::Ignore
    } else if !is_eligible_branch(eligible, w.branch_view()) {
        Decision::Ignore
    } else if age matches Some(a) && a < DAY_SECS {
        Decision::Skip(SkipReason::TooRecent)
    } else {
        Decision::Remove
    }
}

pub open spec fn outcome_spec(d: Decision, removed: bool) -> CleanupOutcome {
    match d {
        Decision::Remove => if removed {
            CleanupOutcome::Removed
        } else {
            CleanupOutcome::Skipped(SkipReason::RemoveFailed)
        },
        Decision::Skip(r) => CleanupOutcome::Skipped(r),
        Decision::Ignore => CleanupOutcome::Ignored,
    }
}

pub open spec fn count_removed(os: Seq<CleanupOutcome>) -> nat
    decreases os.len(),
{
    if os.len() == 0 {
        0
    } else {
        count_removed(os.drop_last()) + if os.last() is Removed {
            1nat
        } else {
            0nat
        }
    }
}

pub open spec fn count_skipped(os: Seq<CleanupOutcome>) -> nat
    decreases os.len(),
{
    if os.len() == 0 {
        0
    } else {
        count_skipped(os.drop_last()) + if os.last() is Skipped {
            1nat
        } else {
            0nat
        }
    }
}

/// Pattern mode removes every worktree other than the primary one whose
/// path contains the pattern.
pub open spec fn pattern_selected(w: WorktreeInfo, root: Seq<char>, pattern: Seq<char>) -> bool {
    w.path@ != root && occurs_in(pattern, w.path@)
}

/// Interactive mode offers every worktree other than the primary one that
/// has a branch.
pub open spec fn interactive_offered(w: WorktreeInfo, root: Seq<char>) -> bool {
    w.path@ != root && w.branch is Some
}

pub open spec fn status_spec(
    w: WorktreeInfo,
    root: Seq<char>,
    merge: MergeStatus,
    activity: Option<u64>,
) -> StatusEntry {
    if w.path@ == root {
        StatusEntry::Primary
    } else if w.is_detached {
        StatusEntry::Detached
    } else if w.branch is None {
        StatusEntry::NoBranch
    } else {
        match merge {
            MergeStatus::Merged => StatusEntry::Merged {
                activity,
                inactive_warning: !(activity matches Some(a) && a < DAY_SECS),
            },
            MergeStatus::NotMerged => StatusEntry::NotMerged {
                activity,
                stale: activity matches Some(a) && a >= STALE_SECS,
            },
            MergeStatus::Unknown => StatusEntry::MergeUnknown { activity },
        }
    }
}

/// A stale unmerged worktree is offered for removal after the status report.
pub open spec fn is_stale_candidate(e: StatusEntry) -> bool {
    e matches StatusEntry::NotMerged { stale, .. } && stale
}

/// An answer to a removal prompt that means yes.
pub open spec fn affirmative(answer: Seq<char>) -> bool {
    trimmed(answer) == seq!['y'] || trimmed(answer) == seq!['Y']
}

/// What automatic cleanup does with one worktree.
pub fn process_single_worktree(
    worktree: &WorktreeInfo,
    root: &str,
    eligible: &Vec<String>,
    age: Option<u64>,
) -> (r: Decision)
    ensures
        r == merged_decision(*worktree, root@, views(eligible@), age),
{
    if worktree.is_detached {
        return Decision::Skip(SkipReason::Detached);
    }
    if str_eq(&worktree.path, root) {
        return Decision::Ignore;
    }
    match &worktree.branch {
        None => Decision::Ignore,
        Some(b) => {
            if !list_contains(eligible, b) {
                Decision::Ignore
            } else if let Some(a) = age {
                if a < DAY_SECS {
                    Decision::Skip(SkipReason::TooRecent)
                } else {
                    Decision::Remove
                }
            } else {
                Decision::Remove
            }
        },
    }
}

/// The decision for each worktree, in order; `ages[i]` is the age in
/// seconds of `worktrees[i]`'s directory, when known.
pub fn process_worktrees(
    worktrees: &Vec<WorktreeInfo>,
    ages: &Vec<Option<u64>>,
    root: &str,
    eligible: &Vec<String>,
) -> (r: Vec<Decision>)
    requires
        ages.len() == worktrees.len(),
    ensures
        r.len() == worktrees.len(),
        forall|i: int|
            0 <= i < r.len() ==> r[i] == merged_decision(
                #[trigger] worktrees[i],
                root@,
                views(eligible@),
                ages[i],
            ),
{
    let mut r: Vec<Decision> = Vec::new();
    let mut i: usize = 0;
    while i < worktrees.len()
        invariant
            ages.len() == worktrees.len(),
            i <= worktrees.len(),
            r.len() == i,
            forall|k: int|
                0 <= k < i ==> r[k] == merged_decision(
                    #[trigger] worktrees[k],
                    root@,
                    views(eligible@),
                    ages[k],
                ),
        decreases worktrees.len() - i,
    {
        let d = process_single_worktree(&worktrees[i], root, eligible, ages[i]);
        r.push(d);
        i = i + 1;
    }
    r
}

/// What became of a worktree, given whether its removal succeeded. Only
/// the removal of the worktree itself counts: closing its session and
/// deleting its branch are side actions whose failure changes nothing here.
pub fn outcome_of(decision: Decision, removed: bool) -> (r: CleanupOutcome)
    ensures
        r == outcome_spec(decision, removed),
{
    match decision {
        Decision::Remove => if removed {
            CleanupOutcome::Removed
        } else {
            CleanupOutcome::Skipped(SkipReason::RemoveFailed)
        },
        Decision::Skip(reason) => CleanupOutcome::Skipped(reason),
        Decision::Ignore => CleanupOutcome::Ignored,
    }
}

proof fn lemma_counts_bounded(os: Seq<CleanupOutcome>)
    ensures
        count_removed(os) + count_skipped(os) <= os.len(),
    decreases os.len(),
{
    if os.len() > 0 {
        lemma_counts_bounded(os.drop_last());
    }
}

/// The run's totals: removed worktrees are cleaned, skipped ones skipped,
/// ignored ones not counted.
pub fn tally(outcomes: &Vec<CleanupOutcome>) -> (r: CleanupSummary)
    ensures
        r.cleaned == count_removed(outcomes@),
        r.skipped == count_skipped(outcomes@),
{
    let mut cleaned: usize = 0;
    let mut skipped: usize = 0;
    let mut i: usize = 0;
    while i < outcomes.len()
        invariant
            i <= outcomes.len(),
            cleaned == count_removed(outcomes@.take(i as int)),
            skipped == count_skipped(outcomes@.take(i as int)),
        decreases outcomes.len() - i,
    {
        proof {
            assert(outcomes@.take(i + 1).drop_last() =~= outcomes@.take(i as int));
            lemma_counts_bounded(outcomes@.take(i + 1));
        }
        match outcomes[i] {
            CleanupOutcome::Removed => cleaned = cleaned + 1,
            CleanupOutcome::Skipped(_) => skipped = skipped + 1,
            CleanupOutcome::Ignored => {},
        }
        i = i + 1;
    }
    assert(outcomes@.take(i as int) =~= outcomes@);
    CleanupSummary { cleaned, skipped }
}

impl CleanupSummary {
    /// Nothing was removed or skipped: the run ends with "nothing to clean".
    pub fn is_empty(&self) -> (r: bool)
        ensures
            r == (self.cleaned == 0 && self.skipped == 0),
    {
        self.cleaned == 0 && self.skipped == 0
    }
}

/// For each worktree, whether pattern mode removes it.
pub fn cleanup_by_pattern(worktrees: &Vec<WorktreeInfo>, root: &str, pattern: &str) -> (r: Vec<
    bool,
>)
    ensures
        r.len() == worktrees.len(),
        forall|i: int|
            0 <= i < r.len() ==> r[i] == pattern_selected(#[trigger] worktrees[i], root@, pattern@),
{
    let mut r: Vec<bool> = Vec::new();
    let mut i: usize = 0;
    while i < worktrees.len()
        invariant
            i <= worktrees.len(),
            r.len() == i,
            forall|k: int|
                0 <= k < i ==> r[k] == pattern_selected(#[trigger] worktrees[k], root@, pattern@),
        decreases worktrees.len() - i,
    {
        let w = &worktrees[i];
        let selected = !str_eq(&w.path, root) && crate::text::contains(w.path.as_str(), pattern);
        r.push(selected);
        i = i + 1;
    }
    r
}

/// For each worktree, whether interactive mode asks about it.
pub fn interactive_cleanup(worktrees: &Vec<WorktreeInfo>, root: &str) -> (r: Vec<bool>)
    ensures
        r.len() == worktrees.len(),
        forall|i: int| 0 <= i < r.len() ==> r[i] == interactive_offered(#[trigger] worktrees[i], root@),
{
    let mut r: Vec<bool> = Vec::new();
    let mut i: usize = 0;
    while i < worktrees.len()
        invariant
            i <= worktrees.len(),
            r.len() == i,
            forall|k: int|
                0 <= k < i ==> r[k] == interactive_offered(#[trigger] worktrees[k], root@),
        decreases worktrees.len() - i,
    {
        let w = &worktrees[i];
        r.push(!str_eq(&w.path, root) && w.branch.is_some());
        i = i + 1;
    }
    r
}

/// Whether an answer to a removal prompt means yes: "y" or "Y", with any
/// surrounding whitespace.
pub fn is_affirmative(answer: &str) -> (r: bool)
    ensures
        r == affirmative(answer@),
{
    let t = crate::text::trim(answer);
    let y = "y".to_owned();
    let upper = "Y".to_owned();
    proof {
        reveal_strlit("y");
        reveal_strlit("Y");
        assert(y@ =~= seq!['y']);
        assert(upper@ =~= seq!['Y']);
    }
    t == y || t == upper
}

/// How status mode reports one worktree, from its merge status and the
/// seconds since its branch's last commit, when known.
pub fn show_status(
    worktree: &WorktreeInfo,
    root: &str,
    merge: MergeStatus,
    activity: Option<u64>,
) -> (r: StatusEntry)
    ensures
        r == status_spec(*worktree, root@, merge, activity),
{
    if str_eq(&worktree.path, root) {
        return StatusEntry::Primary;
    }
    if worktree.is_detached {
        return StatusEntry::Detached;
    }
    if worktree.branch.is_none() {
        return StatusEntry::NoBranch;
    }
    match merge {
        MergeStatus::Merged => {
            let recent = match activity {
                Some(a) => a < DAY_SECS,
                None => false,
            };
            StatusEntry::Merged { activity, inactive_warning: !recent }
        },
        MergeStatus::NotMerged => {
            let stale = match activity {
                Some(a) => a >= STALE_SECS,
                None => false,
            };
            StatusEntry::NotMerged { activity, stale }
        },
        MergeStatus::Unknown => StatusEntry::MergeUnknown { activity },
    }
}

impl StatusEntry {
    /// Whether the worktree is offered for removal after the report.
    pub fn is_stale_candidate(&self) -> (r: bool)
        ensures
            r == is_stale_candidate(*self),
    {
        match self {
            StatusEntry::NotMerged { stale, .. } => *stale,
            _ => false,
        }
    }
}

/// The primary worktree is in no removal in any mode: automatic cleanup
/// never decides to remove it, pattern mode does not select it,
/// interactive mode does not offer it, and status mode never lists it as
/// stale.
pub proof fn lemma_primary_never_removed(
    w: WorktreeInfo,
    root: Seq<char>,
    eligible: Seq<Seq<char>>,
    age: Option<u64>,
    pattern: Seq<char>,
    merge: MergeStatus,
    activity: Option<u64>,
)
    requires
        w.path@ == root,
    ensures
        merged_decision(w, root, eligible, age) != Decision::Remove,
        !pattern_selected(w, root, pattern),
        !interactive_offered(w, root),
        !is_stale_candidate(status_spec(w, root, merge, activity)),
{
}

/// Under automatic cleanup a detached worktree is skipped, whatever its
/// path, branch and age.
pub proof fn lemma_detached_always_skipped(
    w: WorktreeInfo,
    root: Seq<char>,
    eligible: Seq<Seq<char>>,
    age: Option<u64>,
    removed: bool,
)
    requires
        w.is_detached,
    ensures
        outcome_spec(merged_decision(w, root, eligible, age), removed) == CleanupOutcome::Skipped(
            SkipReason::Detached,
        ),
{
}

/// A worktree removed under a narrower eligible list is removed under the
/// wider one too.
proof fn lemma_removal_needs_eligibility(
    w: WorktreeInfo,
    root: Seq<char>,
    wide: Seq<Seq<char>>,
    narrow: Seq<Seq<char>>,
    age: Option<u64>,
)
    requires
        forall|n: Seq<char>| #[trigger] narrow.contains(n) ==> wide.contains(n),
        merged_decision(w, root, narrow, age) == Decision::Remove,
    ensures
        merged_decision(w, root, wide, age) == Decision::Remove,
{
    assert(narrow.contains(w.branch_view()->0));
}

/// Automatic cleanup run again over what the first run left in place,
/// with nothing else changed, removes nothing. What was left: the merged
/// branches are among those of the first run, with the same answers
/// about each; the worktrees are those the first run did not remove,
/// with the same ages.
pub proof fn lemma_second_run_removes_nothing(
    branches1: Seq<BranchFacts>,
    branches2: Seq<BranchFacts>,
    exclude: Option<Seq<char>>,
    remote: Seq<Seq<char>>,
    target: Option<Seq<char>>,
    force: bool,
    root: Seq<char>,
    worktrees1: Seq<WorktreeInfo>,
    ages1: Seq<Option<u64>>,
    worktrees2: Seq<WorktreeInfo>,
    ages2: Seq<Option<u64>>,
)
    requires
        worktrees1.len() == ages1.len(),
        worktrees2.len() == ages2.len(),
        forall|j: int| 0 <= j < branches2.len() ==> branches1.contains(#[trigger] branches2[j]),
        forall|j: int|
            0 <= j < worktrees2.len() ==> exists|i: int|
                0 <= i < worktrees1.len() && worktrees1[i] == #[trigger] worktrees2[j] && ages1[i]
                    == ages2[j] && merged_decision(
                    worktrees1[i],
                    root,
                    eligible_names(branches1, exclude, remote, target, force),
                    ages1[i],
                ) != Decision::Remove,
    ensures
        forall|j: int|
            0 <= j < worktrees2.len() ==> merged_decision(
                #[trigger] worktrees2[j],
                root,
                eligible_names(branches2, exclude, remote, target, force),
                ages2[j],
            ) != Decision::Remove,
{
    let e1 = eligible_names(branches1, exclude, remote, target, force);
    let e2 = eligible_names(branches2, exclude, remote, target, force);
    lemma_fewer_branches_fewer_eligible(branches1, branches2, exclude, remote, target, force);
    assert forall|j: int| 0 <= j < worktrees2.len() implies merged_decision(
        #[trigger] worktrees2[j],
        root,
        e2,
        ages2[j],
    ) != Decision::Remove by {
        let i = choose|i: int|
            0 <= i < worktrees1.len() && worktrees1[i] == #[trigger] worktrees2[j] && ages1[i]
                == ages2[j] && merged_decision(worktrees1[i], root, e1, ages1[i])
                != Decision::Remove;
        if merged_decision(worktrees2[j], root, e2, ages2[j]) == Decision::Remove {
            lemma_removal_needs_eligibility(worktrees2[j], root, e1, e2, ages2[j]);
        }
    }
}

/// A duration in seconds as a short "ago" label: whole days, else whole
/// hours, else whole minutes, and under a minute `<1m ago`.
pub open spec fn duration_label(secs: u64) -> Seq<char> {
    if secs / DAY_SECS > 0 {
        decimal((secs / DAY_SECS) as nat) + "d ago"@
    } else if secs / 3600 > 0 {
        decimal((secs / 3600) as nat) + "h ago"@
    } else if secs < 60 {
        "<1m ago"@
    } else {
        decimal((secs / 60) as nat) + "m ago"@
    }
}

pub fn format_duration(secs: u64) -> (r: String)
    ensures
        r@ == duration_label(secs),
{
    let days = secs / DAY_SECS;
    if days > 0 {
        let mut r = decimal_string(days);
        r.append("d ago");
        return r;
    }
    let hours = secs / 3600;
    if hours > 0 {
        let mut r = decimal_string(hours);
        r.append("h ago");
        return r;
    }
    if secs < 60 {
        "<1m ago".to_owned()
    } else {
        let mut r = decimal_string(secs / 60);
        r.append("m ago");
        r
    }
}

/// The mode that the command-line flags select: merged cleanup when asked
/// for or when no other mode is, else pattern, interactive, status in that
/// order.
pub open spec fn selected_mode(
    merged: bool,
    pattern: Option<String>,
    interactive: bool,
    status: bool,
    force: bool,
) -> CleanupMode {
    if merged || (pattern is None && !interactive && !status) {
        CleanupMode::Merged { force }
    } else if pattern is Some {
        CleanupMode::Pattern(pattern->0)
    } else if interactive {
        CleanupMode::Interactive
    } else {
        CleanupMode::Status
    }
}

pub fn mode_from_flags(
    merged: bool,
    pattern: Option<String>,
    interactive: bool,
    status: bool,
    force: bool,
) -> (r: CleanupMode)
    ensures
        r == selected_mode(merged, pattern, interactive, status, force),
{
    if merged || (pattern.is_none() && !interactive && !status) {
        CleanupMode::Merged { force }
    } else if let Some(p) = pattern {
        CleanupMode::Pattern(p)
    } else if interactive {
        CleanupMode::Interactive
    } else {
        CleanupMode::Status
    }
}

} // verus!
