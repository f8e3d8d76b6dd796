use loom_cli::ranking::{key_lt, key_of_text, rank};
use loom_cli::subcommands::{
    archived_list_lines, backfill_lines, check_pin, curator_leaderboards, leaderboard_lines,
    prune_lines, rollback_target, Leaderboards, UsageStat,
};

fn stat(name: &str, uses: i64, views: i64, last: Option<&str>) -> UsageStat {
    UsageStat {
        name: name.to_string(),
        use_count: uses,
        view_count: views,
        last_used_at: last.map(|s| s.to_string()),
    }
}

fn names(list: &[&str]) -> Vec<String> {
    list.iter().map(|s| s.to_string()).collect()
}

#[test]
fn rank_orders_by_key_and_keeps_ties() {
    let keys: Vec<Vec<i128>> = vec![vec![3], vec![1], vec![3], vec![2], vec![1]];
    let all = vec![true; 5];
    assert_eq!(rank(&keys, &all, 5), vec![1, 4, 3, 0, 2]);
    assert_eq!(rank(&keys, &all, 2), vec![1, 4]);
    let some = vec![true, false, true, true, false];
    assert_eq!(rank(&keys, &some, 10), vec![3, 0, 2]);
    assert_eq!(rank(&keys, &some, 0), Vec::<usize>::new());
    assert_eq!(rank(&Vec::new(), &Vec::new(), 5), Vec::<usize>::new());
}

#[test]
fn keys_compare_lexicographically() {
    assert!(key_lt(&vec![1, 2], &vec![1, 3]));
    assert!(key_lt(&vec![1], &vec![1, 0]));
    assert!(!key_lt(&vec![1, 0], &vec![1]));
    assert!(!key_lt(&vec![2], &vec![2]));
    assert!(key_lt(&vec![], &vec![-5]));
    assert!(key_lt(&key_of_text("abc"), &key_of_text("abd")));
    assert!(key_lt(&key_of_text("2024-01-01"), &key_of_text("2024-02-01")));
    assert!(!key_lt(&key_of_text("b"), &key_of_text("a")));
}

#[test]
fn leaderboards_pick_five_each() {
    let stats = vec![
        stat("a", 3, 1, Some("2024-03-01T00:00:00Z")),
        stat("b", 0, 9, None),
        stat("c", 7, 2, Some("2024-01-01T00:00:00Z")),
        stat("d", 3, 0, Some("2024-02-01T00:00:00Z")),
        stat("e", 1, 0, None),
        stat("f", 9, 0, Some("2023-12-31T00:00:00Z")),
        stat("g", 2, 0, Some("2024-01-15T00:00:00Z")),
        stat("h", 5, 0, Some("2025-01-01T00:00:00Z")),
    ];
    let b = curator_leaderboards(&stats);
    // most used first; a and d tie at 3 and keep their order
    assert_eq!(b.most_active, vec![5, 2, 7, 0, 3]);
    // earliest last use first; skills without one are left out
    assert_eq!(b.least_recently_active, vec![5, 2, 6, 3, 0]);
    // least used first, unused left out
    assert_eq!(b.least_active, vec![4, 6, 0, 3, 7]);
}

#[test]
fn leaderboards_of_unused_skills_are_empty() {
    let stats = vec![stat("a", 0, 1, None), stat("b", 0, 0, None)];
    let b = curator_leaderboards(&stats);
    assert!(b.most_active.is_empty());
    assert!(b.least_recently_active.is_empty());
    assert!(b.least_active.is_empty());
    assert!(leaderboard_lines(&b, &stats, &vec![None, None]).is_empty());
}

#[test]
fn leaderboard_lines_show_ranks_and_ages() {
    let stats = vec![
        stat("alpha", 4, 2, Some("2024-01-01T00:00:00Z")),
        stat("beta", 1, 0, None),
    ];
    let b = Leaderboards {
        most_active: vec![0, 1],
        least_recently_active: vec![0],
        least_active: vec![1],
    };
    let ages = vec![Some(Some(7200)), None];
    assert_eq!(
        leaderboard_lines(&b, &stats, &ages),
        names(&[
            "",
            "Most-active skills (by uses):",
            "  1. alpha — 4 uses, 2 views, last used 2h ago",
            "  2. beta — 1 uses, 0 views, last used — ago",
            "",
            "Least-recently-active skills:",
            "  1. alpha — last used 2h ago",
            "",
            "Least-active skills (still used):",
            "  1. beta — 1 uses, 0 views",
        ])
    );
}

#[test]
fn prune_report() {
    let lines = prune_lines(30, true, &names(&["old", "older"]));
    assert_eq!(lines[0], "Curator Prune (days=30, dry_run=true):");
    assert_eq!(lines[1], "═".repeat(60));
    assert_eq!(&lines[2..], &names(&["Archived: 2", "  • old", "  • older"])[..]);
    let none = prune_lines(7, false, &vec![]);
    assert_eq!(none[0], "Curator Prune (days=7, dry_run=false):");
    assert_eq!(&none[2..], &names(&["Archived: 0"])[..]);
}

#[test]
fn backfill_report() {
    let lines = backfill_lines(
        true,
        &names(&["a"]),
        &names(&["b", "c"]),
        &vec![("d".to_string(), "timeout".to_string())],
    );
    assert_eq!(lines[0], "Backfill Triggers (dry-run):");
    assert_eq!(
        &lines[2..],
        &names(&[
            "Updated: 1",
            "  ✓ a",
            "No triggers inferred: 2",
            "  ? b",
            "  ? c",
            "Failed: 1",
            "  ✗ d — timeout",
        ])[..]
    );
    let quiet = backfill_lines(false, &vec![], &vec![], &vec![]);
    assert_eq!(quiet[0], "Backfill Triggers:");
    assert_eq!(&quiet[2..], &names(&["Updated: 0"])[..]);
}

#[test]
fn archived_list() {
    assert_eq!(
        archived_list_lines(&vec![]),
        names(&["No archived skills. Use `anureo curator archive <name>` to archive one."])
    );
    assert_eq!(
        archived_list_lines(&names(&["x", "y"])),
        vec![
            "Archived skills (2 total):".to_string(),
            "=".repeat(60),
            "  .archive/x".to_string(),
            "  .archive/y".to_string(),
        ]
    );
}

#[test]
fn rollback_picks_named_then_latest() {
    assert_eq!(
        rollback_target(Some("s1".to_string()), Some("s2".to_string())),
        Ok("s1".to_string())
    );
    assert_eq!(rollback_target(None, Some("s2".to_string())), Ok("s2".to_string()));
    assert_eq!(
        rollback_target(None, None),
        Err("no snapshots available; run `anureo curator backup` first".to_string())
    );
}

#[test]
fn pin_only_agent_skills() {
    assert_eq!(check_pin("mine", true, true), Ok(()));
    assert_eq!(
        check_pin("bundled", false, true),
        Err("Cannot pin 'bundled': only agent-created or curated skills can be pinned. Bundled and hub-installed skills are read-only.".to_string())
    );
    assert_eq!(
        check_pin("bundled", false, false),
        Err("Cannot unpin 'bundled': only agent-created or curated skills may be pinned.".to_string())
    );
}
