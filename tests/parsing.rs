use workbloom::cleanup::MergeStatus;
use workbloom::git::{
    elapsed_since, has_unmerged_commits, merge_status, parse_merged_branches,
    parse_remote_heads, parse_timestamp, parse_worktree_list, resolve_root, GitRepo,
};
use workbloom::text::{contains, split_lines, starts_with, trim};

#[test]
fn parses_porcelain_listing() {
    let out = "worktree /repo\nHEAD abc\nbranch refs/heads/main\n\n\
               worktree /repo/worktree-feature-x\nHEAD def\nbranch refs/heads/feature/x\n\n\
               worktree /repo/worktree-detached\nHEAD 123\ndetached\n";
    let ws = parse_worktree_list(out);
    assert_eq!(ws.len(), 3);
    assert_eq!(ws[0].path, "/repo");
    assert_eq!(ws[0].branch.as_deref(), Some("main"));
    assert!(!ws[0].is_detached);
    assert_eq!(ws[1].path, "/repo/worktree-feature-x");
    assert_eq!(ws[1].branch.as_deref(), Some("feature/x"));
    assert_eq!(ws[2].path, "/repo/worktree-detached");
    assert_eq!(ws[2].branch, None);
    assert!(ws[2].is_detached);
}

#[test]
fn porcelain_ignores_lines_before_first_record() {
    let ws = parse_worktree_list("branch refs/heads/stray\ndetached\nworktree /a\n");
    assert_eq!(ws.len(), 1);
    assert_eq!(ws[0].path, "/a");
    assert_eq!(ws[0].branch, None);
    assert!(!ws[0].is_detached);
    assert!(parse_worktree_list("").is_empty());
    assert!(parse_worktree_list("HEAD abc\nbare\n").is_empty());
}

#[test]
fn porcelain_handles_crlf() {
    let ws = parse_worktree_list("worktree /a\r\nbranch refs/heads/x\r\ndetached\r\n");
    assert_eq!(ws.len(), 1);
    assert_eq!(ws[0].path, "/a");
    assert_eq!(ws[0].branch.as_deref(), Some("x"));
    assert!(ws[0].is_detached);
}

#[test]
fn merged_branch_listing() {
    let out = "  feature-a\n* main\n  master\n+ feature-b\n\n  main\n  fix/c  \n";
    assert_eq!(parse_merged_branches(out), vec!["feature-a", "feature-b", "fix/c"]);
    assert!(parse_merged_branches("").is_empty());
    assert_eq!(parse_merged_branches("+ + odd\n"), vec!["odd"]);
    assert!(parse_merged_branches("+ main\n+ master\n").is_empty());
}

#[test]
fn repo_root_from_queries() {
    let listing = "worktree /home/u/my repo\nHEAD abc\nbranch refs/heads/main\n\n\
                   worktree /home/u/my repo/wt\nHEAD def\nbranch refs/heads/x\n";
    assert_eq!(
        resolve_root(Some(listing), "/elsewhere\n"),
        Some("/home/u/my repo".to_string())
    );
    assert_eq!(resolve_root(None, "  /top/level \n"), Some("/top/level".to_string()));
    assert_eq!(resolve_root(Some(""), "/top\n"), Some("/top".to_string()));
    assert_eq!(resolve_root(Some("worktree \n"), "/top"), Some("/top".to_string()));
    assert_eq!(resolve_root(None, " \n"), None);
    assert_eq!(resolve_root(Some("HEAD abc\n"), ""), None);
    let repo = GitRepo::new("/home/u/repo".to_string());
    assert_eq!(repo.root_dir, "/home/u/repo");
}

#[test]
fn test_has_unmerged_commits_with_new_branch() {
    // A branch created from main without commits counts zero.
    assert!(!has_unmerged_commits("0\n"));
}

#[test]
fn unmerged_commit_counts() {
    assert!(has_unmerged_commits("3\n"));
    assert!(has_unmerged_commits(" +7 "));
    assert!(has_unmerged_commits("2147483647"));
    assert!(!has_unmerged_commits("2147483648"));
    assert!(!has_unmerged_commits("99999999999999999999999"));
    assert!(!has_unmerged_commits("-1"));
    assert!(!has_unmerged_commits(""));
    assert!(!has_unmerged_commits("+"));
    assert!(!has_unmerged_commits("fatal: bad revision"));
}

#[test]
fn remote_heads_listing() {
    let out = "abc\trefs/heads/main\ndef\trefs/heads/feature/x\n123\trefs/tags/v1\nnoise\n";
    assert_eq!(parse_remote_heads(out), vec!["main", "feature/x"]);
    assert!(parse_remote_heads("").is_empty());
}

#[test]
fn commit_timestamps() {
    assert_eq!(parse_timestamp("1700000000\n"), Some(1700000000));
    assert_eq!(parse_timestamp(" 0 "), Some(0));
    assert_eq!(parse_timestamp("18446744073709551615"), Some(u64::MAX));
    assert_eq!(parse_timestamp("18446744073709551616"), None);
    assert_eq!(parse_timestamp(""), None);
    assert_eq!(parse_timestamp("12a"), None);
    assert_eq!(elapsed_since(100, Some(40)), Some(60));
    assert_eq!(elapsed_since(100, Some(100)), Some(0));
    assert_eq!(elapsed_since(100, Some(101)), None);
    assert_eq!(elapsed_since(100, None), None);
}

#[test]
fn ancestry_exit_codes() {
    assert_eq!(merge_status(Some(0)), MergeStatus::Merged);
    assert_eq!(merge_status(Some(1)), MergeStatus::NotMerged);
    assert_eq!(merge_status(Some(128)), MergeStatus::Unknown);
    assert_eq!(merge_status(None), MergeStatus::Unknown);
}

#[test]
fn text_helpers() {
    assert_eq!(trim(" \t a b \u{3000}\n"), "a b");
    assert_eq!(trim("   "), "");
    assert_eq!(split_lines("a\r\nb\n\nc\r"), vec!["a", "b", "", "c\r"]);
    assert_eq!(split_lines("x\n"), vec!["x"]);
    assert!(split_lines("").is_empty());
    assert!(contains("/repo/worktree-feature", "feat"));
    assert!(contains("abc", ""));
    assert!(!contains("ab", "abc"));
    assert!(starts_with("worktree /a", "worktree "));
    assert!(!starts_with("work", "worktree "));
}
