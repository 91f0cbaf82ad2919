use workbloom::cleanup::{
    cleanup_by_pattern, format_duration, interactive_cleanup, is_affirmative, mode_from_flags,
    outcome_of, process_single_worktree, process_worktrees, show_status, tally, CleanupMode,
    CleanupOutcome, Decision, MergeStatus, SkipReason, StatusEntry, DAY_SECS,
};
use workbloom::git::WorktreeInfo;
use workbloom::safety::{apply_safety_filters, branch_verdict, BranchFacts, RejectReason, Verdict};

const ROOT: &str = "/repo";
const MAIN_COMMIT: &str = "aaaa";

fn wt(path: &str, branch: Option<&str>, detached: bool) -> WorktreeInfo {
    WorktreeInfo {
        path: path.to_string(),
        branch: branch.map(|b| b.to_string()),
        is_detached: detached,
    }
}

fn facts(name: &str, unique: bool, commit: Option<&str>) -> BranchFacts {
    BranchFacts {
        name: name.to_string(),
        has_unique_commits: unique,
        commit_id: commit.map(|c| c.to_string()),
    }
}

fn strings(v: &[&str]) -> Vec<String> {
    v.iter().map(|s| s.to_string()).collect()
}

#[test]
fn scenario_merged_branch_with_old_worktree_is_removed() {
    // feature-x: merged, three commits of its own, on the remote; feature-y
    // is not merged and so never reaches the filters.
    let merged = vec![facts("feature-x", true, Some("bbbb"))];
    let remote = strings(&["main", "feature-x", "feature-y"]);
    let report = apply_safety_filters(&merged, None, &remote, Some(MAIN_COMMIT), false);
    assert_eq!(report.eligible, vec!["feature-x"]);
    assert!(report.rejected.is_empty());
    assert!(!report.eligible.contains(&"feature-y".to_string()));

    let worktrees = vec![
        wt(ROOT, Some("main"), false),
        wt("/repo/worktree-feature-x", Some("feature-x"), false),
        wt("/repo/worktree-feature-y", Some("feature-y"), false),
    ];
    let ages = vec![None, Some(48 * 3600), Some(48 * 3600)];
    let decisions = process_worktrees(&worktrees, &ages, ROOT, &report.eligible);
    assert_eq!(decisions, vec![Decision::Ignore, Decision::Remove, Decision::Ignore]);
    let outcomes: Vec<CleanupOutcome> =
        decisions.iter().map(|d| outcome_of(*d, true)).collect();
    assert_eq!(outcomes[1], CleanupOutcome::Removed);
    let summary = tally(&outcomes);
    assert_eq!((summary.cleaned, summary.skipped), (1, 0));
    assert!(!summary.is_empty());
}

#[test]
fn scenario_new_branch_without_commits_is_rejected() {
    let merged = vec![facts("feature-new", false, Some(MAIN_COMMIT))];
    let remote = strings(&["feature-new"]);
    for force in [false, true] {
        let report = apply_safety_filters(&merged, None, &remote, Some(MAIN_COMMIT), force);
        assert!(report.eligible.is_empty());
        assert_eq!(
            report.rejected,
            vec![("feature-new".to_string(), RejectReason::NoUniqueCommits)]
        );
    }
}

#[test]
fn scenario_force_waives_only_the_remote_check() {
    let remote = strings(&["main"]);
    let local = vec![facts("local-only", true, Some("cccc"))];
    let forced = apply_safety_filters(&local, None, &remote, Some(MAIN_COMMIT), true);
    assert_eq!(forced.eligible, vec!["local-only"]);
    let unforced = apply_safety_filters(&local, None, &remote, Some(MAIN_COMMIT), false);
    assert!(unforced.eligible.is_empty());
    assert_eq!(
        unforced.rejected,
        vec![("local-only".to_string(), RejectReason::NotOnRemote)]
    );
    let same = vec![facts("local-only", true, Some(MAIN_COMMIT))];
    let forced_same = apply_safety_filters(&same, None, &remote, Some(MAIN_COMMIT), true);
    assert!(forced_same.eligible.is_empty());
    assert_eq!(
        forced_same.rejected,
        vec![("local-only".to_string(), RejectReason::SameAsTarget)]
    );
}

#[test]
fn scenario_recent_worktree_is_skipped() {
    let eligible = strings(&["feature-x"]);
    let w = wt("/repo/worktree-feature-x", Some("feature-x"), false);
    let d = process_single_worktree(&w, ROOT, &eligible, Some(2 * 3600));
    assert_eq!(d, Decision::Skip(SkipReason::TooRecent));
    assert_eq!(outcome_of(d, true), CleanupOutcome::Skipped(SkipReason::TooRecent));
    assert_eq!(
        process_single_worktree(&w, ROOT, &eligible, Some(DAY_SECS - 1)),
        Decision::Skip(SkipReason::TooRecent)
    );
    assert_eq!(process_single_worktree(&w, ROOT, &eligible, Some(DAY_SECS)), Decision::Remove);
    assert_eq!(process_single_worktree(&w, ROOT, &eligible, None), Decision::Remove);
}

#[test]
fn scenario_status_offers_stale_unmerged_branch() {
    let w = wt("/repo/worktree-old", Some("old"), false);
    let entry = show_status(&w, ROOT, MergeStatus::NotMerged, Some(20 * DAY_SECS));
    assert_eq!(entry, StatusEntry::NotMerged { activity: Some(20 * DAY_SECS), stale: true });
    assert!(entry.is_stale_candidate());
    assert_eq!(format_duration(20 * DAY_SECS), "20d ago");
    // Answering no leaves it in place.
    assert!(!is_affirmative("n\n"));
    assert!(!is_affirmative("\n"));
    assert!(is_affirmative("y\n"));
}

#[test]
fn same_commit_as_target_never_eligible() {
    let merged = vec![
        facts("a", true, Some(MAIN_COMMIT)),
        facts("b", true, Some("bbbb")),
    ];
    let remote = strings(&["a", "b"]);
    for force in [false, true] {
        let report = apply_safety_filters(&merged, None, &remote, Some(MAIN_COMMIT), force);
        assert_eq!(report.eligible, vec!["b"]);
        assert_eq!(report.rejected, vec![("a".to_string(), RejectReason::SameAsTarget)]);
    }
}

#[test]
fn unresolved_commits_fail_closed() {
    let merged = vec![facts("a", true, None), facts("b", true, Some("bbbb"))];
    let remote = strings(&["a", "b"]);
    let report = apply_safety_filters(&merged, None, &remote, Some(MAIN_COMMIT), false);
    assert_eq!(report.eligible, vec!["b"]);
    assert_eq!(report.rejected, vec![("a".to_string(), RejectReason::CommitUnresolved)]);
    let no_target = apply_safety_filters(&merged, None, &remote, None, false);
    assert!(no_target.eligible.is_empty());
    assert_eq!(no_target.rejected.len(), 2);
}

#[test]
fn excluded_branch_is_dropped_silently() {
    let merged = vec![facts("setup-me", true, Some("bbbb")), facts("other", true, Some("cccc"))];
    let remote = strings(&["setup-me", "other"]);
    let report = apply_safety_filters(&merged, Some("setup-me"), &remote, Some(MAIN_COMMIT), false);
    assert_eq!(report.eligible, vec!["other"]);
    assert!(report.rejected.is_empty());
    assert_eq!(
        branch_verdict(&merged[0], Some("setup-me"), &remote, Some(MAIN_COMMIT), false),
        Verdict::Excluded
    );
    assert!(apply_safety_filters(&Vec::new(), None, &remote, Some(MAIN_COMMIT), false)
        .eligible
        .is_empty());
}

#[test]
fn second_run_removes_nothing() {
    let merged = vec![facts("feature-x", true, Some("bbbb")), facts("feature-z", true, Some("dddd"))];
    let remote = strings(&["feature-x", "feature-z"]);
    let worktrees = vec![
        wt(ROOT, Some("main"), false),
        wt("/repo/worktree-feature-x", Some("feature-x"), false),
        wt("/repo/worktree-feature-z", Some("feature-z"), false),
        wt("/repo/worktree-d", None, true),
    ];
    let ages = vec![None, Some(3 * DAY_SECS), Some(3600), None];
    let first = apply_safety_filters(&merged, None, &remote, Some(MAIN_COMMIT), false);
    let decisions = process_worktrees(&worktrees, &ages, ROOT, &first.eligible);
    assert_eq!(
        decisions,
        vec![
            Decision::Ignore,
            Decision::Remove,
            Decision::Skip(SkipReason::TooRecent),
            Decision::Skip(SkipReason::Detached),
        ]
    );
    // The removed worktree and its branch are gone; everything else is the same.
    let left: Vec<WorktreeInfo> = vec![
        wt(ROOT, Some("main"), false),
        wt("/repo/worktree-feature-z", Some("feature-z"), false),
        wt("/repo/worktree-d", None, true),
    ];
    let left_ages = vec![None, Some(3600), None];
    let left_branches = vec![facts("feature-z", true, Some("dddd"))];
    let second = apply_safety_filters(&left_branches, None, &remote, Some(MAIN_COMMIT), false);
    let again = process_worktrees(&left, &left_ages, ROOT, &second.eligible);
    assert!(!again.contains(&Decision::Remove));
}

#[test]
fn primary_worktree_is_never_touched() {
    let root = wt(ROOT, Some("feature-x"), false);
    let eligible = strings(&["feature-x"]);
    assert_eq!(process_single_worktree(&root, ROOT, &eligible, Some(10 * DAY_SECS)), Decision::Ignore);
    let detached_root = wt(ROOT, None, true);
    assert_eq!(
        process_single_worktree(&detached_root, ROOT, &eligible, Some(10 * DAY_SECS)),
        Decision::Skip(SkipReason::Detached)
    );
    assert_eq!(cleanup_by_pattern(&vec![root_clone(&root)], ROOT, "repo"), vec![false]);
    assert_eq!(interactive_cleanup(&vec![root_clone(&root)], ROOT), vec![false]);
    let entry = show_status(&root, ROOT, MergeStatus::NotMerged, Some(30 * DAY_SECS));
    assert_eq!(entry, StatusEntry::Primary);
    assert!(!entry.is_stale_candidate());
}

fn root_clone(w: &WorktreeInfo) -> WorktreeInfo {
    wt(&w.path, w.branch.as_deref(), w.is_detached)
}

#[test]
fn detached_worktree_is_always_skipped() {
    let eligible = strings(&["feature-x"]);
    let w = wt("/repo/worktree-d", None, true);
    for age in [None, Some(0), Some(100 * DAY_SECS)] {
        let d = process_single_worktree(&w, ROOT, &eligible, age);
        assert_eq!(d, Decision::Skip(SkipReason::Detached));
        assert_eq!(outcome_of(d, true), CleanupOutcome::Skipped(SkipReason::Detached));
    }
    let primary = wt(ROOT, None, true);
    assert_eq!(
        outcome_of(process_single_worktree(&primary, ROOT, &eligible, None), true),
        CleanupOutcome::Skipped(SkipReason::Detached)
    );
    let with_branch = wt("/repo/worktree-x", Some("feature-x"), true);
    assert_eq!(
        process_single_worktree(&with_branch, ROOT, &eligible, Some(5 * DAY_SECS)),
        Decision::Skip(SkipReason::Detached)
    );
}

#[test]
fn failed_removal_counts_as_skipped() {
    assert_eq!(outcome_of(Decision::Remove, false), CleanupOutcome::Skipped(SkipReason::RemoveFailed));
    assert_eq!(outcome_of(Decision::Ignore, true), CleanupOutcome::Ignored);
    let outcomes = vec![
        CleanupOutcome::Removed,
        CleanupOutcome::Skipped(SkipReason::RemoveFailed),
        CleanupOutcome::Ignored,
        CleanupOutcome::Skipped(SkipReason::Detached),
        CleanupOutcome::Removed,
    ];
    let s = tally(&outcomes);
    assert_eq!((s.cleaned, s.skipped), (2, 2));
    let none = tally(&vec![CleanupOutcome::Ignored]);
    assert!(none.is_empty());
}

#[test]
fn pattern_mode_selects_by_path() {
    let worktrees = vec![
        wt(ROOT, Some("main"), false),
        wt("/repo/worktree-test-a", Some("test-a"), false),
        wt("/repo/worktree-other", Some("other"), false),
        wt("/repo/worktree-test-d", None, true),
    ];
    assert_eq!(cleanup_by_pattern(&worktrees, ROOT, "test"), vec![false, true, false, true]);
    assert_eq!(cleanup_by_pattern(&worktrees, ROOT, "worktree"), vec![false, true, true, true]);
    assert_eq!(cleanup_by_pattern(&worktrees, ROOT, "repo"), vec![false, true, true, true]);
    assert_eq!(cleanup_by_pattern(&worktrees, ROOT, "absent"), vec![false, false, false, false]);
}

#[test]
fn interactive_mode_offers_branch_worktrees() {
    let worktrees = vec![
        wt(ROOT, Some("main"), false),
        wt("/repo/worktree-a", Some("a"), false),
        wt("/repo/worktree-d", None, true),
    ];
    assert_eq!(interactive_cleanup(&worktrees, ROOT), vec![false, true, false]);
    assert!(is_affirmative(" Y "));
    assert!(!is_affirmative("yes"));
    assert!(!is_affirmative("yy"));
}

#[test]
fn status_entries() {
    let w = wt("/repo/worktree-a", Some("a"), false);
    assert_eq!(
        show_status(&w, ROOT, MergeStatus::Merged, Some(3600)),
        StatusEntry::Merged { activity: Some(3600), inactive_warning: false }
    );
    assert_eq!(
        show_status(&w, ROOT, MergeStatus::Merged, Some(DAY_SECS)),
        StatusEntry::Merged { activity: Some(DAY_SECS), inactive_warning: true }
    );
    assert_eq!(
        show_status(&w, ROOT, MergeStatus::Merged, None),
        StatusEntry::Merged { activity: None, inactive_warning: true }
    );
    assert_eq!(
        show_status(&w, ROOT, MergeStatus::NotMerged, Some(14 * DAY_SECS - 1)),
        StatusEntry::NotMerged { activity: Some(14 * DAY_SECS - 1), stale: false }
    );
    assert_eq!(
        show_status(&w, ROOT, MergeStatus::NotMerged, None),
        StatusEntry::NotMerged { activity: None, stale: false }
    );
    assert_eq!(
        show_status(&w, ROOT, MergeStatus::Unknown, Some(30 * DAY_SECS)),
        StatusEntry::MergeUnknown { activity: Some(30 * DAY_SECS) }
    );
    assert_eq!(
        show_status(&wt("/repo/d", None, true), ROOT, MergeStatus::Merged, None),
        StatusEntry::Detached
    );
    assert_eq!(
        show_status(&wt("/repo/n", None, false), ROOT, MergeStatus::Merged, None),
        StatusEntry::NoBranch
    );
}

#[test]
fn duration_labels() {
    assert_eq!(format_duration(0), "<1m ago");
    assert_eq!(format_duration(59), "<1m ago");
    assert_eq!(format_duration(60), "1m ago");
    assert_eq!(format_duration(3599), "59m ago");
    assert_eq!(format_duration(3600), "1h ago");
    assert_eq!(format_duration(86399), "23h ago");
    assert_eq!(format_duration(86400), "1d ago");
    assert_eq!(format_duration(1234 * 86400), "1234d ago");
}

#[test]
fn mode_from_command_line_flags() {
    assert!(matches!(mode_from_flags(false, None, false, false, true), CleanupMode::Merged { force: true }));
    assert!(matches!(mode_from_flags(true, None, false, false, false), CleanupMode::Merged { force: false }));
    match mode_from_flags(false, Some("tmp".to_string()), false, false, false) {
        CleanupMode::Pattern(p) => assert_eq!(p, "tmp"),
        _ => panic!("expected pattern mode"),
    }
    assert!(matches!(mode_from_flags(false, None, true, false, false), CleanupMode::Interactive));
    assert!(matches!(mode_from_flags(false, None, false, true, false), CleanupMode::Status));
}
